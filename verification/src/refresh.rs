//! Bringing word knowledge up to date at start and on request: the library plans which
//! Anki decks to check and which frequency lists to read, and records the lists as read;
//! the application carries the steps out in order and reports back each deck check that
//! succeeded and whether the whole plan was carried out.

use vstd::prelude::*;
use crate::model::{LanguageSettings, LanguageSpecificToSave, ToSave};
use crate::str_map::StrMap;
use crate::time::{current_time, days_to_look_back, whole_days_between, Timestamp};

verus! {

/// One piece of outside work for bringing word knowledge up to date.
#[derive(Debug)]
pub enum RefreshStep {
    /// Read the card states of an Anki deck into the words of a language: every card when
    /// `all_cards`, else the cards changed in the last `days` days.
    CheckDeck { language: String, deck: String, days: i64, all_cards: bool },
    /// Read a frequency list from a file and apply its first `words_known` words to the
    /// words of a language.
    ReadFrequencyList { language: String, file: String, words_known: usize },
}

/// A step as plain values.
pub enum StepView {
    CheckDeck { language: Seq<char>, deck: Seq<char>, days: int, all_cards: bool },
    ReadFrequencyList { language: Seq<char>, file: Seq<char>, words_known: nat },
}

/// The plain values of a step.
pub open spec fn step_view(s: RefreshStep) -> StepView {
    match s {
        RefreshStep::CheckDeck { language, deck, days, all_cards } => StepView::CheckDeck {
            language: language@,
            deck: deck@,
            days: days as int,
            all_cards,
        },
        RefreshStep::ReadFrequencyList { language, file, words_known } => StepView::ReadFrequencyList {
            language: language@,
            file: file@,
            words_known: words_known as nat,
        },
    }
}

/// The texts of a list of strings.
pub open spec fn texts(v: Seq<String>) -> Seq<Seq<char>> {
    v.map_values(|s: String| s@)
}

/// The decks of a language's settings, in their order.
pub open spec fn decks_of(lang: LanguageSettings) -> Seq<Seq<char>> {
    lang.anki_parser.key_seq()
}

/// The decks of the first `i` languages, one language after the other.
pub open spec fn decks_through(languages: StrMap<LanguageSettings>, i: nat) -> Seq<Seq<char>>
    decreases i,
{
    if i == 0 {
        Seq::empty()
    } else {
        decks_through(languages, (i - 1) as nat) + decks_of(languages@[languages.key_seq()[i - 1]])
    }
}

/// A check of each deck of `language`, of every card exactly when the deck is checked for
/// the first time: when it is neither in `checked` nor an earlier deck of the list.
pub open spec fn deck_steps(
    language: Seq<char>,
    decks: Seq<Seq<char>>,
    checked: Seq<Seq<char>>,
    days: int,
) -> Seq<StepView> {
    Seq::new(
        decks.len(),
        |j: int|
            StepView::CheckDeck {
                language,
                deck: decks[j],
                days,
                all_cards: !(checked + decks.take(j)).contains(decks[j]),
            },
    )
}

/// The frequency list last read for a language, as text.
pub open spec fn previous_file_text(entry: Option<LanguageSpecificToSave>) -> Option<Seq<char>> {
    match entry {
        Some(e) => match e.previous_file {
            Some(f) => Some(f@),
            None => None,
        },
        None => None,
    }
}

/// How many words were last marked known from the frequency list of a language.
pub open spec fn previous_amount(entry: Option<LanguageSpecificToSave>) -> nat {
    match entry {
        Some(e) => e.previous_amount as nat,
        None => 0,
    }
}

/// The frequency list or the number of words known by it differs from the last read.
pub open spec fn frequency_changed(entry: Option<LanguageSpecificToSave>, lang: LanguageSettings) -> bool {
    previous_file_text(entry) != Some(lang.frequency_list@) || previous_amount(entry)
        != lang.words_known_by_freq
}

/// The saved record of a language, when there is one.
pub open spec fn saved_entry(to_save: ToSave, name: Seq<char>) -> Option<LanguageSpecificToSave> {
    if to_save.language_specific@.dom().contains(name) {
        Some(to_save.language_specific@[name])
    } else {
        None
    }
}

/// A reading of the frequency list of `language` when it changed since the last reading.
pub open spec fn frequency_steps(
    entry: Option<LanguageSpecificToSave>,
    language: Seq<char>,
    lang: LanguageSettings,
) -> Seq<StepView> {
    if frequency_changed(entry, lang) {
        seq![
            StepView::ReadFrequencyList {
                language,
                file: lang.frequency_list@,
                words_known: lang.words_known_by_freq as nat,
            },
        ]
    } else {
        Seq::empty()
    }
}

/// The steps for the first `i` languages, from a saved record `old`.
pub open spec fn steps_through(
    old: ToSave,
    languages: StrMap<LanguageSettings>,
    days: int,
    i: nat,
) -> Seq<StepView>
    decreases i,
{
    if i == 0 {
        Seq::empty()
    } else {
        let name = languages.key_seq()[i - 1];
        let lang = languages@[name];
        steps_through(old, languages, days, (i - 1) as nat) + deck_steps(
            name,
            decks_of(lang),
            texts(old.decks_checked@) + decks_through(languages, (i - 1) as nat),
            days,
        ) + frequency_steps(saved_entry(old, name), name, lang)
    }
}

/// `after` is the saved record of a language `before` once its frequency list is planned
/// for: the words and everything else are kept (an empty record when there was none), and
/// the frequency list and number of words are those of `lang` once they changed.
pub open spec fn refreshed_entry(
    before: Option<LanguageSpecificToSave>,
    lang: LanguageSettings,
    after: LanguageSpecificToSave,
) -> bool {
    &&& match before {
        Some(b) => {
            &&& after.words == b.words
            &&& after.cached_defs == b.cached_defs
            &&& after.words_seen == b.words_seen
            &&& after.lemmas_to_replace == b.lemmas_to_replace
        },
        None => {
            &&& after.words@ == Map::<Seq<char>, crate::model::WordInfo>::empty()
            &&& after.cached_defs@ == Map::<Seq<char>, Vec<crate::model::CachedDefinition>>::empty()
            &&& after.words_seen@ == Seq::<(Timestamp, usize)>::empty()
            &&& after.lemmas_to_replace@ == Map::<Seq<char>, String>::empty()
        },
    }
    &&& previous_file_text(Some(after)) == Some(lang.frequency_list@)
    &&& after.previous_amount == lang.words_known_by_freq
}

/// Planning at `now` turned the saved record `before` into `after` with `steps`, for
/// `languages`: the steps are those of each language in turn, each language has a saved
/// record whose frequency list is recorded as read, the other records are kept, and the
/// decks checked and the time of the last launch are left for the steps' outcomes.
pub open spec fn refresh_planned(
    before: ToSave,
    after: ToSave,
    languages: StrMap<LanguageSettings>,
    now: Timestamp,
    steps: Seq<StepView>,
) -> bool {
    &&& steps == steps_through(
        before,
        languages,
        whole_days_between(before.last_launched, now) + 2,
        languages.key_seq().len(),
    )
    &&& after.decks_checked == before.decks_checked
    &&& after.language_specific@.dom() == before.language_specific@.dom().union(languages@.dom())
    &&& forall|name: Seq<char>| #[trigger]
        languages@.dom().contains(name) ==> refreshed_entry(
            saved_entry(before, name),
            languages@[name],
            after.language_specific@[name],
        )
    &&& forall|name: Seq<char>| #[trigger]
        after.language_specific@.dom().contains(name) && !languages@.dom().contains(name)
            ==> after.language_specific@[name] == before.language_specific@[name]
    &&& after.last_launched == before.last_launched
    &&& after.last_language == before.last_language
    &&& after.sessions == before.sessions
}

/// Whether `text` is among `list`.
fn contains_text(list: &Vec<String>, text: &String) -> (found: bool)
    ensures
        found == texts(list@).contains(text@),
{
    let mut i: usize = 0;
    while i < list.len()
        invariant
            i <= list@.len(),
            forall|j: int| 0 <= j < i ==> list@[j]@ != text@,
        decreases list@.len() - i,
    {
        if list[i] == *text {
            proof {
                assert(texts(list@)[i as int] == text@);
            }
            return true;
        }
        i = i + 1;
    }
    proof {
        if texts(list@).contains(text@) {
            let j = texts(list@).index_of(text@);
            assert(list@[j]@ == text@);
        }
    }
    false
}

/// Plans the work for one language: a check of each of its decks, each added to the decks
/// planned so far, and a reading of its frequency list when that changed.
fn plan_language(
    to_save: &mut ToSave,
    name: &String,
    lang: &LanguageSettings,
    days: i64,
    steps: &mut Vec<RefreshStep>,
    planned_decks: &mut Vec<String>,
)
    ensures
        final(to_save).last_launched == old(to_save).last_launched,
        final(to_save).last_language == old(to_save).last_language,
        final(to_save).sessions == old(to_save).sessions,
        final(to_save).decks_checked == old(to_save).decks_checked,
        texts(final(planned_decks)@) == texts(old(planned_decks)@) + decks_of(*lang),
        final(steps)@.map_values(|s: RefreshStep| step_view(s)) == old(steps)@.map_values(
            |s: RefreshStep| step_view(s),
        ) + deck_steps(
            name@,
            decks_of(*lang),
            texts(old(to_save).decks_checked@) + texts(old(planned_decks)@),
            days as int,
        ) + frequency_steps(saved_entry(*old(to_save), name@), name@, *lang),
        final(to_save).language_specific@ == old(to_save).language_specific@.insert(
            name@,
            final(to_save).language_specific@[name@],
        ),
        refreshed_entry(
            saved_entry(*old(to_save), name@),
            *lang,
            final(to_save).language_specific@[name@],
        ),
{
    let ghost view_of = |s: RefreshStep| step_view(s);
    to_save.language_specific.insert_if_absent(name.clone(), LanguageSpecificToSave::empty());
    let ghost checked0 = texts(to_save.decks_checked@) + texts(planned_decks@);
    let ghost planned0 = texts(planned_decks@);
    let ghost steps0 = steps@.map_values(view_of);
    let ghost decks = decks_of(*lang);
    let ghost planned = deck_steps(name@, decks, checked0, days as int);
    let n: usize = lang.anki_parser.len();
    let mut j: usize = 0;
    while j < n
        invariant
            n == decks.len(),
            decks == decks_of(*lang),
            planned == deck_steps(name@, decks, checked0, days as int),
            0 <= j <= n,
            texts(planned_decks@) == planned0 + decks.take(j as int),
            checked0 == texts(to_save.decks_checked@) + planned0,
            to_save.decks_checked == old(to_save).decks_checked,
            steps@.map_values(view_of) == steps0 + planned.take(j as int),
            view_of == (|s: RefreshStep| step_view(s)),
            to_save.language_specific@.dom().contains(name@),
            to_save.language_specific@ == old(to_save).language_specific@.insert(
                name@,
                to_save.language_specific@[name@],
            ),
            saved_entry(*old(to_save), name@) is Some ==> to_save.language_specific@[name@]
                == old(to_save).language_specific@[name@],
            saved_entry(*old(to_save), name@) is None ==> to_save.language_specific@[name@].is_empty_record(),
            to_save.last_launched == old(to_save).last_launched,
            to_save.last_language == old(to_save).last_language,
            to_save.sessions == old(to_save).sessions,
        decreases n - j,
    {
        let deck = lang.anki_parser.key_at(j);
        let in_saved = contains_text(&to_save.decks_checked, deck);
        let in_planned = contains_text(planned_decks, deck);
        let all_cards = !(in_saved || in_planned);
        let ghost before_steps = steps@;
        let ghost before_planned = planned_decks@;
        proof {
            let saved = texts(to_save.decks_checked@);
            let sofar = texts(before_planned);
            assert(checked0 + decks.take(j as int) =~= saved + sofar);
            assert((saved + sofar).contains(deck@) == (saved.contains(deck@) || sofar.contains(deck@))) by {
                if (saved + sofar).contains(deck@) {
                    let k = (saved + sofar).index_of(deck@);
                    if k < saved.len() {
                        assert(saved[k] == deck@);
                    } else {
                        assert(sofar[k - saved.len()] == deck@);
                    }
                }
                if saved.contains(deck@) {
                    let k = saved.index_of(deck@);
                    assert((saved + sofar)[k] == deck@);
                }
                if sofar.contains(deck@) {
                    let k = sofar.index_of(deck@);
                    assert((saved + sofar)[saved.len() + k] == deck@);
                }
            }
        }
        steps.push(RefreshStep::CheckDeck { language: name.clone(), deck: deck.clone(), days, all_cards });
        planned_decks.push(deck.clone());
        proof {
            assert(deck@ == decks[j as int]);
            assert(decks.take(j + 1) =~= decks.take(j as int).push(deck@));
            assert(texts(planned_decks@) =~= texts(before_planned).push(deck@));
            assert(texts(planned_decks@) =~= planned0 + decks.take(j + 1));
            assert(all_cards == !(checked0 + decks.take(j as int)).contains(decks[j as int]));
            assert(view_of(steps@[steps@.len() - 1]) == planned[j as int]);
            assert(steps@.map_values(view_of) =~= before_steps.map_values(view_of).push(
                view_of(steps@[steps@.len() - 1]),
            ));
            assert(planned.take(j + 1) =~= planned.take(j as int).push(planned[j as int]));
        }
        j = j + 1;
    }
    proof {
        assert(decks.take(n as int) =~= decks);
        assert(planned.take(n as int) =~= planned);
    }
    let changed = match to_save.language_specific.get(name) {
        Some(entry) => {
            let file_changed = match &entry.previous_file {
                Some(f) => *f != lang.frequency_list,
                None => true,
            };
            file_changed || lang.words_known_by_freq != entry.previous_amount
        },
        None => true,
    };
    if changed {
        let file = lang.frequency_list.clone();
        let amount: usize = lang.words_known_by_freq;
        let ghost steps_mid = steps@;
        steps.push(RefreshStep::ReadFrequencyList {
            language: name.clone(),
            file: lang.frequency_list.clone(),
            words_known: amount,
        });
        proof {
            assert(steps@.map_values(view_of) =~= steps_mid.map_values(view_of).push(
                view_of(steps@[steps@.len() - 1]),
            ));
        }
        let record = |entry: LanguageSpecificToSave| -> (r: LanguageSpecificToSave)
            ensures
                r.words == entry.words,
                r.cached_defs == entry.cached_defs,
                r.words_seen == entry.words_seen,
                r.lemmas_to_replace == entry.lemmas_to_replace,
                r.previous_file == Some(file),
                r.previous_amount == amount,
            {
                let mut entry = entry;
                entry.previous_file = Some(file);
                entry.previous_amount = amount;
                entry
            };
        to_save.language_specific.modify(name, record);
    }
}

/// Plans bringing word knowledge up to date at `now`, language by language in the order
/// of `languages`: each deck is checked over the days since the last launch plus two (every
/// card when it has not been checked before, in earlier runs or earlier in this plan), then
/// the frequency list is read when it or the number of words known by it changed. Each
/// language gets a saved record and the frequency lists are recorded as read; a deck is
/// recorded as checked only once its check succeeds (`deck_checked`), and the time of the
/// last launch only once the whole plan has been carried out (`refresh_finished`).
pub fn plan_anki_refresh(
    to_save: &mut ToSave,
    languages: &StrMap<LanguageSettings>,
    now: Timestamp,
) -> (steps: Vec<RefreshStep>)
    requires
        old(to_save).last_launched.is_valid(),
        now.is_valid(),
    ensures
        refresh_planned(
            *old(to_save),
            *final(to_save),
            *languages,
            now,
            steps@.map_values(|s: RefreshStep| step_view(s)),
        ),
{
    let days: i64 = days_to_look_back(to_save.last_launched, now);
    let mut steps: Vec<RefreshStep> = Vec::new();
    let mut planned_decks: Vec<String> = Vec::new();
    let n: usize = languages.len();
    let ghost keys = languages.key_seq();
    let ghost view_of = |s: RefreshStep| step_view(s);
    let mut i: usize = 0;
    while i < n
        invariant
            n == keys.len(),
            keys == languages.key_seq(),
            keys.no_duplicates(),
            keys.to_set() == languages@.dom(),
            0 <= i <= n,
            view_of == (|s: RefreshStep| step_view(s)),
            steps@.map_values(view_of) == steps_through(*old(to_save), *languages, days as int, i as nat),
            texts(planned_decks@) == decks_through(*languages, i as nat),
            to_save.decks_checked == old(to_save).decks_checked,
            to_save.language_specific@.dom() == old(to_save).language_specific@.dom().union(
                keys.take(i as int).to_set(),
            ),
            forall|name: Seq<char>| #[trigger]
                keys.take(i as int).contains(name) ==> refreshed_entry(
                    saved_entry(*old(to_save), name),
                    languages@[name],
                    to_save.language_specific@[name],
                ),
            forall|name: Seq<char>| #[trigger]
                to_save.language_specific@.dom().contains(name) && !keys.take(i as int).contains(name)
                    ==> to_save.language_specific@[name] == old(to_save).language_specific@[name],
            to_save.last_launched == old(to_save).last_launched,
            to_save.last_language == old(to_save).last_language,
            to_save.sessions == old(to_save).sessions,
        decreases n - i,
    {
        let name = languages.key_at(i);
        let lang = languages.value_at(i);
        let ghost before = *to_save;
        proof {
            assert(keys[i as int] == name@);
            assert(!keys.take(i as int).contains(name@)) by {
                if keys.take(i as int).contains(name@) {
                    let j = keys.take(i as int).index_of(name@);
                    assert(keys[j] == keys[i as int]);
                }
            }
            assert(saved_entry(before, name@) == saved_entry(*old(to_save), name@));
        }
        plan_language(to_save, name, lang, days, &mut steps, &mut planned_decks);
        proof {
            assert(keys.take(i + 1) =~= keys.take(i as int).push(name@));
            assert forall|k: Seq<char>| #[trigger] keys.take(i + 1).contains(k) implies refreshed_entry(
                saved_entry(*old(to_save), k),
                languages@[k],
                to_save.language_specific@[k],
            ) by {
                if k != name@ {
                    let j = keys.take(i + 1).index_of(k);
                    assert(keys.take(i as int)[j] == k);
                    assert(keys.take(i as int).contains(k));
                }
            }
            assert forall|k: Seq<char>| #[trigger]
                to_save.language_specific@.dom().contains(k) && !keys.take(i + 1).contains(k)
                implies to_save.language_specific@[k] == old(to_save).language_specific@[k] by {
                assert(keys.take(i + 1)[i as int] == name@);
                assert(k != name@);
                if keys.take(i as int).contains(k) {
                    let j = keys.take(i as int).index_of(k);
                    assert(keys.take(i + 1)[j] == k);
                }
            }
            assert forall|k: Seq<char>| #[trigger] to_save.language_specific@.dom().contains(k)
                == old(to_save).language_specific@.dom().union(keys.take(i + 1).to_set()).contains(k) by {
                if k == name@ {
                    assert(keys.take(i + 1)[i as int] == name@);
                    assert(keys.take(i + 1).contains(k));
                } else {
                    if keys.take(i as int).contains(k) {
                        let j = keys.take(i as int).index_of(k);
                        assert(keys.take(i + 1)[j] == k);
                    }
                    if keys.take(i + 1).contains(k) {
                        let j = keys.take(i + 1).index_of(k);
                        assert(keys.take(i as int)[j] == k);
                        assert(keys.take(i as int).contains(k));
                    }
                    assert(before.language_specific@.dom().contains(k)
                        == to_save.language_specific@.dom().contains(k));
                }
            }
            assert(to_save.language_specific@.dom() =~= old(to_save).language_specific@.dom().union(
                keys.take(i + 1).to_set(),
            ));
            assert(texts(planned_decks@) =~= decks_through(*languages, (i + 1) as nat));
        }
        i = i + 1;
    }
    proof {
        assert(keys.take(n as int) =~= keys);
    }
    steps
}

/// A plan for bringing word knowledge up to date, and the time it was made.
#[derive(Debug)]
pub struct RefreshPlan {
    pub steps: Vec<RefreshStep>,
    pub now: Timestamp,
}

/// Plans bringing word knowledge up to date as of the current time; `None`, with nothing
/// changed, when the clock cannot be read.
pub fn set_word_knowledge_from_anki(
    to_save: &mut ToSave,
    languages: &StrMap<LanguageSettings>,
) -> (plan: Option<RefreshPlan>)
    requires
        old(to_save).last_launched.is_valid(),
    ensures
        plan is None ==> *final(to_save) == *old(to_save),
        plan matches Some(p) ==> p.now.is_valid() && refresh_planned(
            *old(to_save),
            *final(to_save),
            *languages,
            p.now,
            p.steps@.map_values(|s: RefreshStep| step_view(s)),
        ),
{
    let now = match current_time() {
        Some(t) => t,
        None => return None,
    };
    let steps = plan_anki_refresh(to_save, languages, now);
    Some(RefreshPlan { steps, now })
}

/// Records that the check of `deck` succeeded.
pub fn deck_checked(to_save: &mut ToSave, deck: String)
    ensures
        final(to_save).decks_checked@ == old(to_save).decks_checked@.push(deck),
        final(to_save).last_launched == old(to_save).last_launched,
        final(to_save).last_language == old(to_save).last_language,
        final(to_save).language_specific == old(to_save).language_specific,
        final(to_save).sessions == old(to_save).sessions,
{
    to_save.decks_checked.push(deck);
}

/// Records that a plan made at `now` has been carried out: `now` becomes the time of the
/// last launch.
pub fn refresh_finished(to_save: &mut ToSave, now: Timestamp)
    ensures
        final(to_save).last_launched == now,
        final(to_save).decks_checked == old(to_save).decks_checked,
        final(to_save).last_language == old(to_save).last_language,
        final(to_save).language_specific == old(to_save).language_specific,
        final(to_save).sessions == old(to_save).sessions,
{
    to_save.last_launched = now;
}

} // verus!
