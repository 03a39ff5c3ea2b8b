//! The state the application shares between its commands, and what the commands do to it.

use vstd::prelude::*;
use crate::error::KalbaError;
use crate::model::{Method, Settings, ToSave};
use crate::refresh::{plan_anki_refresh, refresh_planned, step_view, RefreshPlan, RefreshStep};
use crate::str_map::StrMap;
use crate::time::{current_time, session_length, SessionLength, Timestamp, NANOS_PER_SECOND};
use crate::words::{rating_looked_up, rating_or_seen, rating_recorded, record_rating};

verus! {

/// What every command of the application works on.
#[derive(Debug)]
pub struct SharedInfo {
    pub settings: Settings,
    pub to_save: ToSave,
    pub current_language: Option<String>,
    pub errors: Vec<KalbaError>,
    pub can_save: bool,
}

/// The text of an optional string.
pub open spec fn opt_text(s: Option<String>) -> Option<Seq<char>> {
    match s {
        Some(t) => Some(t@),
        None => None,
    }
}

/// The language to start with: the one used last, else the first configured one, if any.
pub open spec fn starting_language(last: Option<String>, languages: StrMap<crate::model::LanguageSettings>) -> Option<
    Seq<char>,
> {
    match last {
        Some(l) => Some(l@),
        None => if languages.key_seq().len() > 0 {
            Some(languages.key_seq()[0])
        } else {
            None
        },
    }
}

/// `info` is the shared state at start from the saved record and settings as loaded, with
/// a session starting at `now`: a failed load gives an empty record or blank settings, a
/// failure other than a missing file is kept to report, saving is allowed only when there
/// is nothing to report, and the language to start with is the last one used, else the
/// first configured one.
pub open spec fn started_from(
    saved: Result<ToSave, KalbaError>,
    settings: Result<Settings, KalbaError>,
    now: Timestamp,
    info: SharedInfo,
) -> bool {
    &&& info.errors@ == reported_errors(saved) + reported_errors(settings)
    &&& info.can_save == (info.errors@.len() == 0)
    &&& saved is Ok ==> {
        let s = saved->Ok_0;
        &&& info.to_save.last_launched == s.last_launched
        &&& info.to_save.last_language == s.last_language
        &&& info.to_save.decks_checked == s.decks_checked
        &&& info.to_save.language_specific == s.language_specific
        &&& info.to_save.sessions@ == s.sessions@.push((now, SessionLength { secs: 0, nanos: 0 }))
    }
    &&& saved is Err ==> {
        &&& info.to_save.last_launched == Timestamp { secs: 0, nanos: 0 }
        &&& info.to_save.last_language.is_none()
        &&& info.to_save.decks_checked@.len() == 0
        &&& info.to_save.language_specific@ == Map::<Seq<char>, crate::model::LanguageSpecificToSave>::empty()
        &&& info.to_save.sessions@ == seq![(now, SessionLength { secs: 0, nanos: 0 })]
    }
    &&& settings is Ok ==> info.settings == settings->Ok_0
    &&& settings is Err ==> info.settings.is_blank()
    &&& opt_text(info.current_language) == starting_language(
        info.to_save.last_language,
        info.settings.languages,
    )
}

/// What a load that failed leaves to report: anything but a missing or unreadable file.
pub open spec fn reported_errors<T>(loaded: Result<T, KalbaError>) -> Seq<KalbaError> {
    match loaded {
        Ok(_) => Seq::empty(),
        Err(e) => if e is Io {
            Seq::empty()
        } else {
            seq![e]
        },
    }
}

/// The loaded value, or `fallback` when loading failed; a failure other than a missing or
/// unreadable file is added to `errors`.
pub fn settle_load<T>(loaded: Result<T, KalbaError>, fallback: T, errors: &mut Vec<KalbaError>) -> (value: T)
    ensures
        loaded is Ok ==> value == loaded->Ok_0,
        loaded is Err ==> value == fallback,
        final(errors)@ == old(errors)@ + reported_errors(loaded),
{
    match loaded {
        Ok(v) => {
            assert(errors@ =~= old(errors)@ + reported_errors(loaded));
            v
        },
        Err(e) => {
            if !e.is_io() {
                errors.push(e);
            }
            assert(errors@ =~= old(errors)@ + reported_errors(loaded));
            fallback
        },
    }
}

/// A copy of an optional string.
fn copy_opt(s: &Option<String>) -> (c: Option<String>)
    ensures
        c == *s,
{
    match s {
        Some(t) => Some(t.clone()),
        None => None,
    }
}

/// Handing over the failures `before` left `after` and reported `handed`: all of them,
/// when there were any, and none are left.
pub open spec fn hands_over_errors(
    before: Seq<KalbaError>,
    after: Seq<KalbaError>,
    handed: Option<Seq<KalbaError>>,
) -> bool {
    &&& before.len() == 0 ==> handed is None
    &&& before.len() > 0 ==> handed == Some(before)
    &&& after.len() == 0
}

/// What a hand-over of failures reported.
pub open spec fn handed_errors(r: Result<(), Vec<KalbaError>>) -> Option<Seq<KalbaError>> {
    match r {
        Ok(_) => None,
        Err(v) => Some(v@),
    }
}

/// The current session of `info` can be closed at `now`: there is one, its start is a
/// valid instant, and `now` is a valid instant not before it.
pub open spec fn can_close_at(info: SharedInfo, now: Timestamp) -> bool {
    &&& info.to_save.sessions@.len() > 0
    &&& info.to_save.sessions@.last().0.is_valid()
    &&& now.is_valid()
    &&& info.to_save.sessions@.last().0.total_nanos() <= now.total_nanos()
}

/// Whether `t` is a valid instant.
fn instant_is_valid(t: Timestamp) -> (b: bool)
    ensures
        b == t.is_valid(),
{
    t.secs >= crate::time::EARLIEST_SECS && t.secs <= crate::time::LATEST_SECS && t.nanos < NANOS_PER_SECOND
}

/// Between instants with fewer than a second's nanoseconds, the order is that of the
/// seconds, then of the nanoseconds.
proof fn lemma_instant_order(a: Timestamp, b: Timestamp)
    requires
        a.nanos < 1_000_000_000,
        b.nanos < 1_000_000_000,
    ensures
        (a.total_nanos() <= b.total_nanos()) == (a.secs < b.secs || (a.secs == b.secs && a.nanos
            <= b.nanos)),
{
    assert((a.secs * 1_000_000_000 + a.nanos <= b.secs * 1_000_000_000 + b.nanos) == (a.secs < b.secs
        || (a.secs == b.secs && a.nanos <= b.nanos))) by (nonlinear_arith)
        requires
            a.nanos < 1_000_000_000,
            b.nanos < 1_000_000_000,
            a.nanos >= 0,
            b.nanos >= 0,
    ;
}

/// Closing the session at `now` turned `before` into `after`: the current language became
/// the last one used and the last session lasts until `now`; nothing else changed.
pub open spec fn session_closed(before: SharedInfo, after: SharedInfo, now: Timestamp) -> bool {
    let last = before.to_save.sessions@.len() - 1;
    let start = before.to_save.sessions@[last].0;
    let length = after.to_save.sessions@[last].1;
    &&& before.to_save.sessions@.len() > 0
    &&& after.to_save.last_language == before.current_language
    &&& after.to_save.sessions@ == before.to_save.sessions@.update(last, (start, length))
    &&& length.total_nanos() == now.total_nanos() - start.total_nanos()
    &&& length.nanos < NANOS_PER_SECOND
    &&& after.to_save.last_launched == before.to_save.last_launched
    &&& after.to_save.decks_checked == before.to_save.decks_checked
    &&& after.to_save.language_specific == before.to_save.language_specific
    &&& after.settings == before.settings
    &&& after.current_language == before.current_language
    &&& after.errors == before.errors
    &&& after.can_save == before.can_save
}

/// Only the saved record of the current language changed, and in it only the words.
pub open spec fn only_words_changed(before: SharedInfo, after: SharedInfo) -> bool {
    let lang = before.current_language->0@;
    let b = before.to_save.language_specific@[lang];
    let a = after.to_save.language_specific@[lang];
    &&& after.to_save.language_specific@ == before.to_save.language_specific@.insert(lang, a)
    &&& a.cached_defs == b.cached_defs
    &&& a.previous_file == b.previous_file
    &&& a.previous_amount == b.previous_amount
    &&& a.words_seen == b.words_seen
    &&& a.lemmas_to_replace == b.lemmas_to_replace
    &&& after.settings == before.settings
    &&& after.current_language == before.current_language
    &&& after.errors == before.errors
    &&& after.can_save == before.can_save
    &&& after.to_save.last_launched == before.to_save.last_launched
    &&& after.to_save.last_language == before.to_save.last_language
    &&& after.to_save.decks_checked == before.to_save.decks_checked
    &&& after.to_save.sessions == before.to_save.sessions
}

/// Asking at `now` for the rating of `lemma` in the current language gave `rating` and
/// turned `before` into `after`.
pub open spec fn rating_requested(
    before: SharedInfo,
    after: SharedInfo,
    lemma: Seq<char>,
    now: Timestamp,
    rating: i8,
) -> bool {
    let lang = before.current_language->0@;
    &&& only_words_changed(before, after)
    &&& rating_looked_up(
        before.to_save.language_specific@[lang].words@,
        after.to_save.language_specific@[lang].words@,
        lemma,
        now,
        rating,
    )
}

/// Rating the known `word` of the current language `rating` at `now` turned `before` into
/// `after`: by Anki when `modifiable`, else as specified.
pub open spec fn knowledge_updated(
    before: SharedInfo,
    after: SharedInfo,
    word: Seq<char>,
    rating: i8,
    modifiable: bool,
    now: Timestamp,
) -> bool {
    let lang = before.current_language->0@;
    &&& only_words_changed(before, after)
    &&& rating_recorded(
        before.to_save.language_specific@[lang].words@,
        after.to_save.language_specific@[lang].words@,
        word,
        rating,
        if modifiable { Method::FromAnki } else { Method::Specified },
        now,
    )
}

/// Choosing a language turned `before` into `after`: only the current language changed.
pub open spec fn language_chosen(before: SharedInfo, after: SharedInfo) -> bool {
    &&& after.settings == before.settings
    &&& after.to_save == before.to_save
    &&& after.errors == before.errors
    &&& after.can_save == before.can_save
}

/// Replacing the settings turned `before` into `after`: only the settings changed.
pub open spec fn settings_replaced(before: SharedInfo, after: SharedInfo) -> bool {
    &&& after.to_save == before.to_save
    &&& after.current_language == before.current_language
    &&& after.errors == before.errors
    &&& after.can_save == before.can_save
}

/// Handing over the failures found at start turned `before` into `after`: none are left,
/// and nothing else changed.
pub open spec fn errors_taken(before: SharedInfo, after: SharedInfo) -> bool {
    &&& after.errors@.len() == 0
    &&& after.settings == before.settings
    &&& after.to_save == before.to_save
    &&& after.current_language == before.current_language
    &&& after.can_save == before.can_save
}

/// Only the settings and the saved record changed, as when a language is added or word
/// knowledge is brought up to date, which work on those two alone.
pub open spec fn only_records_changed(before: SharedInfo, after: SharedInfo) -> bool {
    &&& after.current_language == before.current_language
    &&& after.errors == before.errors
    &&& after.can_save == before.can_save
}

/// `info` is the shared state at start from the saved record and settings as loaded, with
/// a session starting at the time `plan` was made, once `plan` was made from it.
pub open spec fn started_and_planned(
    saved: Result<ToSave, KalbaError>,
    settings: Result<Settings, KalbaError>,
    info: SharedInfo,
    plan: RefreshPlan,
) -> bool {
    &&& plan.now.is_valid()
    &&& exists|loaded: ToSave|
        #![trigger started_from(saved, settings, plan.now, SharedInfo { to_save: loaded, ..info })]
        {
            &&& started_from(saved, settings, plan.now, SharedInfo { to_save: loaded, ..info })
            &&& refresh_planned(
                loaded,
                info.to_save,
                info.settings.languages,
                plan.now,
                plan.steps@.map_values(|s: RefreshStep| step_view(s)),
            )
        }
}

impl SharedInfo {
    /// The shared state at start, from the saved record and the settings as loaded (a failed
    /// load gives an empty record or blank settings, and a failure other than a missing file
    /// is kept to report), with a session starting at `now`. Saving is allowed only when
    /// there is nothing to report.
    pub fn from_loaded(
        saved: Result<ToSave, KalbaError>,
        settings: Result<Settings, KalbaError>,
        now: Timestamp,
    ) -> (info: SharedInfo)
        ensures
            started_from(saved, settings, now, info),
    {
        let mut errors: Vec<KalbaError> = Vec::new();
        let mut to_save = settle_load(saved, ToSave::empty(), &mut errors);
        let settings = settle_load(settings, Settings::blank(), &mut errors);
        let current_language = match &to_save.last_language {
            Some(l) => Some(l.clone()),
            None => if settings.languages.len() > 0 {
                Some(settings.languages.key_at(0).clone())
            } else {
                None
            },
        };
        to_save.sessions.push((now, SessionLength::zero()));
        let can_save = errors.len() == 0;
        SharedInfo { settings, to_save, current_language, errors, can_save }
    }

    /// The shared state at start, with a session starting now, and the plan that brings
    /// word knowledge up to date as of that time, which the application carries out before
    /// anything else. `None` when the clock cannot be read.
    pub fn startup(
        saved: Result<ToSave, KalbaError>,
        settings: Result<Settings, KalbaError>,
    ) -> (started: Option<(SharedInfo, RefreshPlan)>)
        requires
            saved is Ok ==> saved->Ok_0.last_launched.is_valid(),
        ensures
            started matches Some((info, plan)) ==> started_and_planned(saved, settings, info, plan),
    {
        let now = match current_time() {
            Some(t) => t,
            None => return None,
        };
        let mut info = SharedInfo::from_loaded(saved, settings, now);
        let ghost loaded = info.to_save;
        let steps = plan_anki_refresh(&mut info.to_save, &info.settings.languages, now);
        let plan = RefreshPlan { steps, now };
        let ghost gi = info;
        let ghost gp = plan;
        assert(started_from(saved, settings, gp.now, SharedInfo { to_save: loaded, ..gi }));
        let started = Some((info, plan));
        started
    }

    /// Hands over the failures found at start, once: `Ok` when there were none.
    pub fn check_startup_errors(&mut self) -> (r: Result<(), Vec<KalbaError>>)
        ensures
            hands_over_errors(old(self).errors@, final(self).errors@, handed_errors(r)),
            errors_taken(*old(self), *final(self)),
    {
        let mut errs: Vec<KalbaError> = Vec::new();
        std::mem::swap(&mut errs, &mut self.errors);
        if errs.len() == 0 {
            Ok(())
        } else {
            Err(errs)
        }
    }

    /// Ends the current session at `now` before the state is saved: when saving is allowed,
    /// the current language becomes the last one used and the last session's length is set.
    /// Whether the state is to be saved comes back.
    pub fn close_session_at(&mut self, now: Timestamp) -> (save: bool)
        requires
            old(self).can_save ==> {
                &&& old(self).to_save.sessions@.len() > 0
                &&& now.is_valid()
                &&& old(self).to_save.sessions@.last().0.is_valid()
                &&& old(self).to_save.sessions@.last().0.total_nanos() <= now.total_nanos()
            },
        ensures
            save == old(self).can_save,
            !save ==> *final(self) == *old(self),
            save ==> session_closed(*old(self), *final(self), now),
    {
        if !self.can_save {
            return false;
        }
        self.to_save.last_language = copy_opt(&self.current_language);
        let last: usize = self.to_save.sessions.len() - 1;
        let start = self.to_save.sessions[last].0;
        let length = session_length(start, now);
        self.to_save.sessions.set(last, (start, length));
        true
    }

    /// Ends the current session at `now` when it can be: `None` when saving is allowed but
    /// there is no session to end, its start is not a valid instant, `now` is not a valid
    /// instant, or `now` is before the start, and the state is then left as it was;
    /// otherwise whether saving is allowed, with the session closed as `close_session_at`
    /// closes it.
    pub fn close_session_with(&mut self, now: Timestamp) -> (save: Option<bool>)
        ensures
            (save is None) == (old(self).can_save && !can_close_at(*old(self), now)),
            save is Some ==> save == Some(old(self).can_save),
            save is None ==> *final(self) == *old(self),
            save == Some(false) ==> *final(self) == *old(self),
            save == Some(true) ==> session_closed(*old(self), *final(self), now),
    {
        if !self.can_save {
            return Some(false);
        }
        let n: usize = self.to_save.sessions.len();
        if n == 0 {
            return None;
        }
        let start = self.to_save.sessions[n - 1].0;
        if !instant_is_valid(start) || !instant_is_valid(now) {
            return None;
        }
        proof {
            lemma_instant_order(start, now);
        }
        if now.secs < start.secs || (now.secs == start.secs && now.nanos < start.nanos) {
            return None;
        }
        Some(self.close_session_at(now))
    }

    /// Ends the current session now, when saving is allowed. `None` when there is no
    /// session to end, its start is not a valid instant, the clock cannot be read, or it
    /// reads a time before the start: the state is then left as it was. Otherwise as
    /// `close_session_with`.
    pub fn close_session(&mut self) -> (save: Option<bool>)
        ensures
            !old(self).can_save ==> save == Some(false) && *final(self) == *old(self),
            old(self).can_save ==> save != Some(false),
            old(self).can_save && (old(self).to_save.sessions@.len() == 0
                || !old(self).to_save.sessions@.last().0.is_valid()) ==> save is None,
            save is None ==> *final(self) == *old(self),
            save == Some(true) ==> exists|now: Timestamp| #![trigger now.is_valid()]
                now.is_valid() && session_closed(*old(self), *final(self), now),
    {
        if !self.can_save {
            return Some(false);
        }
        let now = match current_time() {
            Some(t) => t,
            None => return None,
        };
        self.close_session_with(now)
    }

    /// The rating of `lemma` in the current language; a word not met before is recorded as
    /// seen with rating 0 as of `now`.
    pub fn rating_at(&mut self, lemma: String, now: Timestamp) -> (rating: i8)
        requires
            old(self).current_language is Some,
            old(self).to_save.language_specific@.dom().contains(old(self).current_language->0@),
        ensures
            rating_requested(*old(self), *final(self), lemma@, now, rating),
    {
        let lang = match &self.current_language {
            Some(l) => l.clone(),
            None => {
                assert(false);
                String::new()
            },
        };
        let key = lemma.clone();
        let look = |entry: crate::model::LanguageSpecificToSave| -> (r: crate::model::LanguageSpecificToSave)
            ensures
                r.cached_defs == entry.cached_defs,
                r.previous_file == entry.previous_file,
                r.previous_amount == entry.previous_amount,
                r.words_seen == entry.words_seen,
                r.lemmas_to_replace == entry.lemmas_to_replace,
                exists|rating: i8| rating_looked_up(entry.words@, r.words@, lemma@, now, rating),
            {
                let mut entry = entry;
                let ghost before = entry.words@;
                let ghost key = lemma@;
                let got: i8 = rating_or_seen(&mut entry.words, lemma, now);
                assert(rating_looked_up(before, entry.words@, key, now, got));
                entry
            };
        self.to_save.language_specific.modify(&lang, look);
        match self.to_save.language_specific.get(&lang) {
            Some(entry) => match entry.words.get(&key) {
                Some(info) => info.rating,
                None => 0,
            },
            None => 0,
        }
    }

    /// The rating of `lemma` in the current language, a new word being recorded as seen now;
    /// `None`, with nothing changed, when the clock cannot be read.
    pub fn get_rating(&mut self, lemma: String) -> (rating: Option<i8>)
        requires
            old(self).current_language is Some,
            old(self).to_save.language_specific@.dom().contains(old(self).current_language->0@),
        ensures
            rating is None ==> *final(self) == *old(self),
            rating matches Some(r) ==> exists|now: Timestamp| #![trigger now.is_valid()]
                now.is_valid() && rating_requested(*old(self), *final(self), lemma@, now, r),
    {
        let now = match current_time() {
            Some(t) => t,
            None => return None,
        };
        Some(self.rating_at(lemma, now))
    }

    /// Records that `word`, known in the current language, is now rated `rating` at `now`:
    /// by Anki when the rating may still change with Anki, else as specified by the user.
    pub fn update_word_knowledge_at(&mut self, word: &String, rating: i8, modifiable: bool, now: Timestamp)
        requires
            old(self).current_language is Some,
            old(self).to_save.language_specific@.dom().contains(old(self).current_language->0@),
            old(self).to_save.language_specific@[old(self).current_language->0@].words@.dom().contains(word@),
        ensures
            knowledge_updated(*old(self), *final(self), word@, rating, modifiable, now),
    {
        let lang = match &self.current_language {
            Some(l) => l.clone(),
            None => {
                assert(false);
                String::new()
            },
        };
        let method = if modifiable { Method::FromAnki } else { Method::Specified };
        let change = |entry: crate::model::LanguageSpecificToSave| -> (r: crate::model::LanguageSpecificToSave)
            requires
                entry.words@.dom().contains(word@),
            ensures
                r.cached_defs == entry.cached_defs,
                r.previous_file == entry.previous_file,
                r.previous_amount == entry.previous_amount,
                r.words_seen == entry.words_seen,
                r.lemmas_to_replace == entry.lemmas_to_replace,
                rating_recorded(entry.words@, r.words@, word@, rating, method, now),
            {
                let mut entry = entry;
                record_rating(&mut entry.words, word, rating, modifiable, now);
                entry
            };
        self.to_save.language_specific.modify(&lang, change);
    }

    /// Records a new rating of a known word of the current language as of now; `false`,
    /// with nothing changed, when the clock cannot be read.
    pub fn update_word_knowledge(&mut self, word: &String, rating: i8, modifiable: bool) -> (done: bool)
        requires
            old(self).current_language is Some,
            old(self).to_save.language_specific@.dom().contains(old(self).current_language->0@),
            old(self).to_save.language_specific@[old(self).current_language->0@].words@.dom().contains(word@),
        ensures
            !done ==> *final(self) == *old(self),
            done ==> exists|now: Timestamp| #![trigger now.is_valid()]
                now.is_valid() && knowledge_updated(*old(self), *final(self), word@, rating, modifiable, now),
    {
        let now = match current_time() {
            Some(t) => t,
            None => return false,
        };
        self.update_word_knowledge_at(word, rating, modifiable, now);
        true
    }

    /// The settings.
    pub fn get_settings(&self) -> (s: &Settings)
        ensures
            *s == self.settings,
    {
        &self.settings
    }

    /// Whether the dark theme is on.
    pub fn get_dark_mode(&self) -> (b: bool)
        ensures
            b == self.settings.dark_mode,
    {
        self.settings.dark_mode
    }

    /// The names of the configured languages, in their order.
    pub fn get_languages(&self) -> (names: Vec<String>)
        ensures
            names@.map_values(|s: String| s@) == self.settings.languages.key_seq(),
            names@.map_values(|s: String| s@).to_set() == self.settings.languages@.dom(),
            names@.map_values(|s: String| s@).no_duplicates(),
    {
        self.settings.languages.keys()
    }

    /// The language being read, if one is chosen.
    pub fn get_language(&self) -> (l: Option<String>)
        ensures
            l == self.current_language,
    {
        copy_opt(&self.current_language)
    }

    /// Chooses the language being read.
    pub fn set_language(&mut self, language: String)
        ensures
            final(self).current_language == Some(language),
            language_chosen(*old(self), *final(self)),
    {
        self.current_language = Some(language);
    }

    /// Puts `settings` in place of the current settings.
    pub fn write_settings(&mut self, settings: Settings)
        ensures
            final(self).settings == settings,
            settings_replaced(*old(self), *final(self)),
    {
        self.settings = settings;
    }
}

} // verus!
