//! Properties that hold across the operations of the library.

use vstd::prelude::*;
use crate::error::KalbaError;
use crate::model::{LanguageSettings, LanguageSpecificToSave, Method, Settings, ToSave, WordInfo};
use crate::naming::numbered_name;
use crate::refresh::{
    decks_of, decks_through, deck_steps, frequency_changed, frequency_steps, previous_amount,
    previous_file_text, refresh_planned,
    refreshed_entry, saved_entry, steps_through, texts, StepView,
};
use crate::state::{
    errors_taken, hands_over_errors, language_chosen, only_records_changed, only_words_changed,
    reported_errors, session_closed, settings_replaced, started_from, SharedInfo,
};
use crate::str_map::StrMap;
use crate::naming::lowercase;
use crate::templates::{
    frequency_list_step, grammar_step, install_started, is_chosen_name, saved_with, settings_with,
    template_step, InstallStage, TemplateDetails, TemplateInstall,
};
use crate::time::{whole_days_between, Timestamp};
use crate::words::{frequency_list_applied, rating_looked_up, rating_recorded};

verus! {

/// The name given to a new language is determined by the names already taken: two names
/// that both follow the naming rule are the same name.
pub proof fn law_chosen_name_is_unique(
    taken: Set<Seq<char>>,
    language: Seq<char>,
    a: Seq<char>,
    b: Seq<char>,
)
    requires
        is_chosen_name(taken, language, a),
        is_chosen_name(taken, language, b),
    ensures
        a == b,
{
    if taken.contains(language) {
        let na = choose|n: nat|
            {
                &&& n >= 2
                &&& a == numbered_name(language, n)
                &&& forall|m: nat| 2 <= m < n ==> taken.contains(#[trigger] numbered_name(language, m))
            };
        let nb = choose|n: nat|
            {
                &&& n >= 2
                &&& b == numbered_name(language, n)
                &&& forall|m: nat| 2 <= m < n ==> taken.contains(#[trigger] numbered_name(language, m))
            };
        if na < nb {
            assert(taken.contains(numbered_name(language, na)));
        } else if nb < na {
            assert(taken.contains(numbered_name(language, nb)));
        }
    }
}

/// After a frequency list is applied, the only words known by frequency are words of the
/// list.
pub proof fn law_frequency_words_come_from_the_list(
    before: Map<Seq<char>, WordInfo>,
    after: Map<Seq<char>, WordInfo>,
    list: Seq<Seq<char>>,
    now: Timestamp,
    word: Seq<char>,
)
    requires
        frequency_list_applied(before, after, list, now),
        after.dom().contains(word),
        after[word].method == Method::FromFrequency,
    ensures
        list.contains(word),
{
}

/// Applying the same frequency list again, at any later or earlier time, keeps the same
/// words: the words of the list are known with rating 5 by frequency as they were, and
/// every other word is as it was after the first time; with both at the same time, nothing
/// changes at all.
pub proof fn law_frequency_list_is_idempotent(
    first: Map<Seq<char>, WordInfo>,
    once: Map<Seq<char>, WordInfo>,
    twice: Map<Seq<char>, WordInfo>,
    list: Seq<Seq<char>>,
    now1: Timestamp,
    now2: Timestamp,
)
    requires
        frequency_list_applied(first, once, list, now1),
        frequency_list_applied(once, twice, list, now2),
    ensures
        twice.dom() == once.dom(),
        forall|w: Seq<char>| #[trigger]
            twice.dom().contains(w) ==> {
                &&& twice[w]@.rating == once[w]@.rating
                &&& twice[w]@.method == once[w]@.method
            },
        forall|w: Seq<char>| #[trigger] twice.dom().contains(w) && !list.contains(w) ==> twice[w] == once[w],
        now1 == now2 ==> forall|w: Seq<char>| #[trigger] twice.dom().contains(w) ==> twice[w]@ == once[w]@,
{
    assert forall|w: Seq<char>| #[trigger] twice.dom().contains(w) == once.dom().contains(w) by {
        if once.dom().contains(w) && !list.contains(w) {
            assert(once[w] == first[w]);
        }
    }
    assert(twice.dom() =~= once.dom());
}

/// Looking a word up twice gives the same rating, and the second look-up changes nothing.
pub proof fn law_rating_lookup_settles(
    m0: Map<Seq<char>, WordInfo>,
    m1: Map<Seq<char>, WordInfo>,
    m2: Map<Seq<char>, WordInfo>,
    lemma: Seq<char>,
    t1: Timestamp,
    t2: Timestamp,
    r1: i8,
    r2: i8,
)
    requires
        rating_looked_up(m0, m1, lemma, t1, r1),
        rating_looked_up(m1, m2, lemma, t2, r2),
    ensures
        r2 == r1,
        m2 == m1,
{
}

/// A rating recorded for a word is the rating that looking the word up gives back, and the
/// look-up changes nothing.
pub proof fn law_recorded_rating_reads_back(
    m0: Map<Seq<char>, WordInfo>,
    m1: Map<Seq<char>, WordInfo>,
    m2: Map<Seq<char>, WordInfo>,
    word: Seq<char>,
    rating: i8,
    method: Method,
    t1: Timestamp,
    t2: Timestamp,
    read: i8,
)
    requires
        rating_recorded(m0, m1, word, rating, method, t1),
        rating_looked_up(m1, m2, word, t2, read),
    ensures
        read == rating,
        m2 == m1,
{
    assert(m1.dom().contains(word));
}

/// The failures found at start are handed over once: a second hand-over reports none.
pub proof fn law_errors_are_handed_over_once(
    e0: Seq<KalbaError>,
    e1: Seq<KalbaError>,
    e2: Seq<KalbaError>,
    first: Option<Seq<KalbaError>>,
    second: Option<Seq<KalbaError>>,
)
    requires
        hands_over_errors(e0, e1, first),
        hands_over_errors(e1, e2, second),
    ensures
        second is None,
        e2.len() == 0,
{
}

/// A step that checks a deck for its recent changes only.
pub open spec fn is_partial_check(s: StepView) -> bool {
    match s {
        StepView::CheckDeck { all_cards, .. } => !all_cards,
        StepView::ReadFrequencyList { .. } => false,
    }
}

/// Every deck of every one of the first `n` languages is among the decks planned through `n`.
proof fn lemma_decks_through_contains(languages: StrMap<LanguageSettings>, n: nat, i: int, deck: Seq<char>)
    requires
        0 <= i < n,
        n <= languages.key_seq().len(),
        decks_of(languages@[languages.key_seq()[i]]).contains(deck),
    ensures
        decks_through(languages, n).contains(deck),
    decreases n,
{
    let prev = decks_through(languages, (n - 1) as nat);
    let last = decks_of(languages@[languages.key_seq()[n - 1]]);
    assert(decks_through(languages, n) == prev + last);
    if i == n - 1 {
        let j = last.index_of(deck);
        assert((prev + last)[prev.len() + j] == deck);
    } else {
        lemma_decks_through_contains(languages, (n - 1) as nat, i, deck);
        let j = prev.index_of(deck);
        assert((prev + last)[j] == deck);
    }
}

/// After a plan, planning again for the same languages only checks decks, none of them
/// in full.
proof fn lemma_replan_steps(
    after: ToSave,
    languages: StrMap<LanguageSettings>,
    days: int,
    i: nat,
)
    requires
        i <= languages.key_seq().len(),
        forall|deck: Seq<char>| #[trigger]
            decks_through(languages, languages.key_seq().len()).contains(deck)
                ==> texts(after.decks_checked@).contains(deck),
        forall|k: int|
            0 <= k < languages.key_seq().len() ==> !frequency_changed(
                saved_entry(after, #[trigger] languages.key_seq()[k]),
                languages@[languages.key_seq()[k]],
            ),
    ensures
        forall|j: int| 0 <= j < steps_through(after, languages, days, i).len()
            ==> #[trigger] is_partial_check(steps_through(after, languages, days, i)[j]),
    decreases i,
{
    if i > 0 {
        lemma_replan_steps(after, languages, days, (i - 1) as nat);
        let name = languages.key_seq()[i - 1];
        let lang = languages@[name];
        let prev = steps_through(after, languages, days, (i - 1) as nat);
        let checked = texts(after.decks_checked@) + decks_through(languages, (i - 1) as nat);
        let ds = deck_steps(name, decks_of(lang), checked, days);
        assert(frequency_steps(saved_entry(after, name), name, lang) =~= Seq::<StepView>::empty());
        let all = steps_through(after, languages, days, i);
        assert(all =~= prev + ds);
        assert forall|j: int| 0 <= j < all.len() implies #[trigger] is_partial_check(all[j]) by {
            if j >= prev.len() {
                let d = j - prev.len();
                let deck = decks_of(lang)[d];
                assert(decks_of(lang).contains(deck));
                lemma_decks_through_contains(languages, languages.key_seq().len(), i - 1, deck);
                assert(texts(after.decks_checked@).contains(deck));
                let w = texts(after.decks_checked@).index_of(deck);
                assert((checked + decks_of(lang).take(d))[w] == deck);
            }
        }
    }
}

/// The plan made for `languages` from the saved record `planned` has been carried out and
/// left `done`: every deck of the plan was checked and recorded, in the plan's order, and
/// each language keeps a saved record with the same frequency list and number of words
/// recorded as read.
pub open spec fn refresh_carried_out(planned: ToSave, done: ToSave, languages: StrMap<LanguageSettings>) -> bool {
    &&& texts(done.decks_checked@) == texts(planned.decks_checked@) + decks_through(
        languages,
        languages.key_seq().len(),
    )
    &&& forall|name: Seq<char>| #[trigger]
        languages@.dom().contains(name) ==> {
            &&& done.language_specific@.dom().contains(name)
            &&& previous_file_text(saved_entry(done, name)) == previous_file_text(saved_entry(planned, name))
            &&& previous_amount(saved_entry(done, name)) == previous_amount(saved_entry(planned, name))
        }
}

/// Planning again, for the same languages, once a plan has been carried out, reads no
/// frequency list and checks no deck in full: every deck is then recorded as checked and
/// every frequency list as read.
pub proof fn law_replanning_checks_nothing_in_full(
    t0: ToSave,
    t1: ToSave,
    done: ToSave,
    t2: ToSave,
    languages: StrMap<LanguageSettings>,
    now1: Timestamp,
    now2: Timestamp,
    first: Seq<StepView>,
    second: Seq<StepView>,
)
    requires
        refresh_planned(t0, t1, languages, now1, first),
        refresh_carried_out(t1, done, languages),
        refresh_planned(done, t2, languages, now2, second),
        languages.key_seq().to_set() == languages@.dom(),
    ensures
        forall|j: int| 0 <= j < second.len() ==> #[trigger] is_partial_check(second[j]),
{
    let n = languages.key_seq().len();
    let dt = decks_through(languages, n);
    assert forall|deck: Seq<char>| #[trigger] dt.contains(deck)
        implies texts(done.decks_checked@).contains(deck) by {
        let j = dt.index_of(deck);
        let before = texts(t1.decks_checked@);
        assert((before + dt)[before.len() + j] == deck);
        assert(texts(done.decks_checked@)[before.len() + j] == deck);
    }
    assert forall|k: int| 0 <= k < n implies !frequency_changed(
        saved_entry(done, #[trigger] languages.key_seq()[k]),
        languages@[languages.key_seq()[k]],
    ) by {
        let name = languages.key_seq()[k];
        assert(languages.key_seq().to_set().contains(name));
        assert(languages@.dom().contains(name));
        assert(refreshed_entry(saved_entry(t0, name), languages@[name], t1.language_specific@[name]));
        assert(t1.language_specific@.dom().contains(name));
    }
    lemma_replan_steps(done, languages, whole_days_between(done.last_launched, now2) + 2, n);
}

/// Starting to add a language depends on the name asked for only through its lower-case
/// form: two names with the same lower-case form, started from the same state, give the
/// same language, name and stage, and record the same names.
pub proof fn law_install_ignores_case(
    settings: Settings,
    to_save: ToSave,
    a: Seq<char>,
    b: Seq<char>,
    ia: TemplateInstall,
    sa: Settings,
    ta: ToSave,
    ib: TemplateInstall,
    sb: Settings,
    tb: ToSave,
)
    requires
        install_started(settings, to_save, a, ia, sa, ta),
        install_started(settings, to_save, b, ib, sb, tb),
        lowercase(a) == lowercase(b),
    ensures
        ia.language@ == ib.language@,
        ia.name@ == ib.name@,
        ia.stage == ib.stage,
        sa.languages@.dom() == sb.languages@.dom(),
        ta.language_specific@.dom() == tb.language_specific@.dom(),
        forall|k: Seq<char>| #[trigger] sa.languages@.dom().contains(k) && k != ia.name@
            ==> sa.languages@[k] == sb.languages@[k],
{
    law_chosen_name_is_unique(settings.languages@.dom(), ia.language@, ia.name@, ib.name@);
    assert(sa.languages@.dom() =~= sb.languages@.dom());
    assert(ta.language_specific@.dom() =~= tb.language_specific@.dom());
}

/// What the application hands to a language being added, at one step.
pub enum InstallReply {
    Template(TemplateDetails),
    FrequencyList(String),
    Grammar(String),
}

/// Handing `reply` to `before`, at the stage that waits for it, turned it into `after`, and
/// the settings and saved record from `s0` and `t0` into `s1` and `t1`.
pub open spec fn install_step(
    before: TemplateInstall,
    after: TemplateInstall,
    reply: InstallReply,
    s0: Settings,
    s1: Settings,
    t0: ToSave,
    t1: ToSave,
) -> bool {
    match reply {
        InstallReply::Template(d) => before.stage == InstallStage::AwaitTemplate && template_step(
            before,
            after,
            d,
            s0,
            s1,
            t0,
            t1,
        ),
        InstallReply::FrequencyList(p) => {
            &&& before.stage == InstallStage::AwaitFrequencyList
            &&& before.details is Some
            &&& frequency_list_step(before, after, p, s0, s1, t0, t1)
        },
        InstallReply::Grammar(g) => {
            &&& before.stage == InstallStage::AwaitGrammar
            &&& before.details is Some
            &&& grammar_step(before, after, g, s0, s1, t0, t1)
        },
    }
}

/// The settings of two languages hold the same texts, lists and numbers.
pub open spec fn same_language_settings(x: LanguageSettings, y: LanguageSettings) -> bool {
    &&& x.model@ == y.model@
    &&& x.frequency_list@ == y.frequency_list@
    &&& x.words_known_by_freq == y.words_known_by_freq
    &&& x.dicts@ == y.dicts@
    &&& x.grammar_parser@ == y.grammar_parser@
    &&& x.run_on_lemmas@ == y.run_on_lemmas@
    &&& x.suggest_on_lemmas@ == y.suggest_on_lemmas@
    &&& x.anki_parser@ == y.anki_parser@
}

/// The saved records of two languages hold the same words, definitions, lists and numbers.
pub open spec fn same_record(x: LanguageSpecificToSave, y: LanguageSpecificToSave) -> bool {
    &&& x.words@ == y.words@
    &&& x.cached_defs@ == y.cached_defs@
    &&& previous_file_text(Some(x)) == previous_file_text(Some(y))
    &&& x.previous_amount == y.previous_amount
    &&& x.words_seen@ == y.words_seen@
    &&& x.lemmas_to_replace@ == y.lemmas_to_replace@
}

/// Two settings configure the same languages alike.
pub open spec fn settings_agree(x: Settings, y: Settings) -> bool {
    &&& x.languages@.dom() == y.languages@.dom()
    &&& forall|k: Seq<char>| #[trigger]
        x.languages@.dom().contains(k) ==> same_language_settings(x.languages@[k], y.languages@[k])
    &&& x.dark_mode == y.dark_mode
    &&& x.to_run == y.to_run
}

/// Two saved records keep the same languages alike, and the rest the same.
pub open spec fn saved_agree(x: ToSave, y: ToSave) -> bool {
    &&& x.language_specific@.dom() == y.language_specific@.dom()
    &&& forall|k: Seq<char>| #[trigger]
        x.language_specific@.dom().contains(k) ==> same_record(x.language_specific@[k], y.language_specific@[k])
    &&& x.last_launched == y.last_launched
    &&& x.last_language == y.last_language
    &&& x.decks_checked == y.decks_checked
    &&& x.sessions == y.sessions
}

/// Two languages being added are alike: the same language, name, stage and frequency list,
/// and, while unfinished, the same template.
pub open spec fn installs_agree(x: TemplateInstall, y: TemplateInstall) -> bool {
    &&& x.language@ == y.language@
    &&& x.name@ == y.name@
    &&& x.stage == y.stage
    &&& x.frequency_list@ == y.frequency_list@
    &&& x.stage != InstallStage::Finished ==> x.details == y.details
}

/// Two starts with the same lower-case form, from the same state, are alike.
proof fn lemma_starts_agree(
    settings: Settings,
    to_save: ToSave,
    a: Seq<char>,
    b: Seq<char>,
    ia: TemplateInstall,
    sa: Settings,
    ta: ToSave,
    ib: TemplateInstall,
    sb: Settings,
    tb: ToSave,
)
    requires
        install_started(settings, to_save, a, ia, sa, ta),
        install_started(settings, to_save, b, ib, sb, tb),
        lowercase(a) == lowercase(b),
    ensures
        installs_agree(ia, ib),
        settings_agree(sa, sb),
        saved_agree(ta, tb),
{
    law_chosen_name_is_unique(settings.languages@.dom(), ia.language@, ia.name@, ib.name@);
    assert(sa.languages@.dom() =~= sb.languages@.dom());
    assert(ta.language_specific@.dom() =~= tb.language_specific@.dom());
}

/// Handing the same reply to two alike languages being added keeps them alike.
proof fn lemma_step_keeps_agreement(
    reply: InstallReply,
    ia0: TemplateInstall,
    ia1: TemplateInstall,
    sa0: Settings,
    sa1: Settings,
    ta0: ToSave,
    ta1: ToSave,
    ib0: TemplateInstall,
    ib1: TemplateInstall,
    sb0: Settings,
    sb1: Settings,
    tb0: ToSave,
    tb1: ToSave,
)
    requires
        installs_agree(ia0, ib0),
        settings_agree(sa0, sb0),
        saved_agree(ta0, tb0),
        install_step(ia0, ia1, reply, sa0, sa1, ta0, ta1),
        install_step(ib0, ib1, reply, sb0, sb1, tb0, tb1),
    ensures
        installs_agree(ia1, ib1),
        settings_agree(sa1, sb1),
        saved_agree(ta1, tb1),
{
    match reply {
        InstallReply::Template(d) => {
            if !d.frequency_list && !d.spyglys_details {
                assert(sa1.languages@.dom() =~= sb1.languages@.dom());
                assert(ta1.language_specific@.dom() =~= tb1.language_specific@.dom());
            }
        },
        InstallReply::FrequencyList(p) => {
            assert(ia0.details == ib0.details);
            if !ia0.details->0.spyglys_details {
                assert(sa1.languages@.dom() =~= sb1.languages@.dom());
                assert(ta1.language_specific@.dom() =~= tb1.language_specific@.dom());
            }
        },
        InstallReply::Grammar(g) => {
            assert(ia0.details == ib0.details);
            assert(sa1.languages@.dom() =~= sb1.languages@.dom());
            assert(ta1.language_specific@.dom() =~= tb1.language_specific@.dom());
        },
    }
}

/// Adding a language depends on the name asked for only through its lower-case form: two
/// names with the same lower-case form, started from the same state and handed the same
/// replies, stay alike at every step, down to the languages recorded in the settings and
/// the saved record.
pub proof fn law_install_run_ignores_case(
    settings: Settings,
    to_save: ToSave,
    a: Seq<char>,
    b: Seq<char>,
    replies: Seq<InstallReply>,
    ia: Seq<TemplateInstall>,
    sa: Seq<Settings>,
    ta: Seq<ToSave>,
    ib: Seq<TemplateInstall>,
    sb: Seq<Settings>,
    tb: Seq<ToSave>,
)
    requires
        ia.len() == replies.len() + 1,
        sa.len() == replies.len() + 1,
        ta.len() == replies.len() + 1,
        ib.len() == replies.len() + 1,
        sb.len() == replies.len() + 1,
        tb.len() == replies.len() + 1,
        install_started(settings, to_save, a, ia[0], sa[0], ta[0]),
        install_started(settings, to_save, b, ib[0], sb[0], tb[0]),
        lowercase(a) == lowercase(b),
        forall|i: int|
            0 <= i < replies.len() ==> install_step(ia[i], ia[i + 1], #[trigger] replies[i], sa[i], sa[i + 1], ta[i], ta[i + 1]),
        forall|i: int|
            0 <= i < replies.len() ==> install_step(ib[i], ib[i + 1], #[trigger] replies[i], sb[i], sb[i + 1], tb[i], tb[i + 1]),
    ensures
        forall|i: int| 0 <= i <= replies.len() ==> installs_agree(#[trigger] ia[i], ib[i]),
        forall|i: int| 0 <= i <= replies.len() ==> settings_agree(#[trigger] sa[i], sb[i]),
        forall|i: int| 0 <= i <= replies.len() ==> saved_agree(#[trigger] ta[i], tb[i]),
{
    assert forall|i: int| 0 <= i <= replies.len() implies installs_agree(#[trigger] ia[i], ib[i])
        && settings_agree(sa[i], sb[i]) && saved_agree(ta[i], tb[i]) by {
        lemma_runs_agree(settings, to_save, a, b, replies, ia, sa, ta, ib, sb, tb, i);
    }
    assert forall|i: int| 0 <= i <= replies.len() implies settings_agree(#[trigger] sa[i], sb[i]) by {
        assert(installs_agree(ia[i], ib[i]));
    }
    assert forall|i: int| 0 <= i <= replies.len() implies saved_agree(#[trigger] ta[i], tb[i]) by {
        assert(installs_agree(ia[i], ib[i]));
    }
}

/// The runs of `law_install_run_ignores_case` are alike up to step `n`.
proof fn lemma_runs_agree(
    settings: Settings,
    to_save: ToSave,
    a: Seq<char>,
    b: Seq<char>,
    replies: Seq<InstallReply>,
    ia: Seq<TemplateInstall>,
    sa: Seq<Settings>,
    ta: Seq<ToSave>,
    ib: Seq<TemplateInstall>,
    sb: Seq<Settings>,
    tb: Seq<ToSave>,
    n: int,
)
    requires
        0 <= n <= replies.len(),
        ia.len() == replies.len() + 1,
        sa.len() == replies.len() + 1,
        ta.len() == replies.len() + 1,
        ib.len() == replies.len() + 1,
        sb.len() == replies.len() + 1,
        tb.len() == replies.len() + 1,
        install_started(settings, to_save, a, ia[0], sa[0], ta[0]),
        install_started(settings, to_save, b, ib[0], sb[0], tb[0]),
        lowercase(a) == lowercase(b),
        forall|i: int|
            0 <= i < replies.len() ==> install_step(ia[i], ia[i + 1], #[trigger] replies[i], sa[i], sa[i + 1], ta[i], ta[i + 1]),
        forall|i: int|
            0 <= i < replies.len() ==> install_step(ib[i], ib[i + 1], #[trigger] replies[i], sb[i], sb[i + 1], tb[i], tb[i + 1]),
    ensures
        installs_agree(ia[n], ib[n]),
        settings_agree(sa[n], sb[n]),
        saved_agree(ta[n], tb[n]),
    decreases n,
{
    if n == 0 {
        lemma_starts_agree(settings, to_save, a, b, ia[0], sa[0], ta[0], ib[0], sb[0], tb[0]);
    } else {
        lemma_runs_agree(settings, to_save, a, b, replies, ia, sa, ta, ib, sb, tb, n - 1);
        let r = replies[n - 1];
        lemma_step_keeps_agreement(
            r,
            ia[n - 1],
            ia[n],
            sa[n - 1],
            sa[n],
            ta[n - 1],
            ta[n],
            ib[n - 1],
            ib[n],
            sb[n - 1],
            sb[n],
            tb[n - 1],
            tb[n],
        );
    }
}

/// Every configured language has a saved record.
pub open spec fn records_cover(settings: Settings, to_save: ToSave) -> bool {
    forall|k: Seq<char>| #[trigger]
        settings.languages@.dom().contains(k) ==> to_save.language_specific@.dom().contains(k)
}

/// Recording a language in both the settings and the saved record, as each step of adding
/// a language does, keeps every configured language with a saved record.
pub proof fn law_recording_a_language_keeps_records(
    settings: Settings,
    to_save: ToSave,
    new_settings: Settings,
    new_to_save: ToSave,
    name: Seq<char>,
)
    requires
        records_cover(settings, to_save),
        settings_with(settings, new_settings, name),
        saved_with(to_save, new_to_save, name),
    ensures
        records_cover(new_settings, new_to_save),
{
}

/// Starting to add a language keeps every configured language with a saved record.
pub proof fn law_install_start_keeps_records(
    settings: Settings,
    to_save: ToSave,
    language: Seq<char>,
    install: TemplateInstall,
    new_settings: Settings,
    new_to_save: ToSave,
)
    requires
        records_cover(settings, to_save),
        install_started(settings, to_save, language, install, new_settings, new_to_save),
    ensures
        records_cover(new_settings, new_to_save),
{
}

/// Adding a language keeps every configured language with a saved record at every step,
/// so also where it stops part-way because a download or a file failed.
pub proof fn law_install_run_keeps_records(
    settings: Settings,
    to_save: ToSave,
    language: Seq<char>,
    replies: Seq<InstallReply>,
    installs: Seq<TemplateInstall>,
    ss: Seq<Settings>,
    ts: Seq<ToSave>,
)
    requires
        records_cover(settings, to_save),
        installs.len() == replies.len() + 1,
        ss.len() == replies.len() + 1,
        ts.len() == replies.len() + 1,
        install_started(settings, to_save, language, installs[0], ss[0], ts[0]),
        forall|i: int|
            0 <= i < replies.len() ==> install_step(
                installs[i],
                installs[i + 1],
                #[trigger] replies[i],
                ss[i],
                ss[i + 1],
                ts[i],
                ts[i + 1],
            ),
    ensures
        forall|i: int| 0 <= i <= replies.len() ==> records_cover(#[trigger] ss[i], ts[i]),
    decreases replies.len(),
{
    if replies.len() > 0 {
        let n = replies.len() - 1;
        let r = replies.take(n);
        law_install_run_keeps_records(
            settings,
            to_save,
            language,
            r,
            installs.take(n + 1),
            ss.take(n + 1),
            ts.take(n + 1),
        );
        assert forall|i: int| 0 <= i < r.len() implies install_step(
            installs.take(n + 1)[i],
            installs.take(n + 1)[i + 1],
            #[trigger] r[i],
            ss.take(n + 1)[i],
            ss.take(n + 1)[i + 1],
            ts.take(n + 1)[i],
            ts.take(n + 1)[i + 1],
        ) by {
            assert(replies[i] == r[i]);
        }
        assert(records_cover(ss.take(n + 1)[n], ts.take(n + 1)[n]));
        assert(install_step(installs[n], installs[n + 1], replies[n], ss[n], ss[n + 1], ts[n], ts[n + 1]));
        assert forall|i: int| 0 <= i <= replies.len() implies records_cover(#[trigger] ss[i], ts[i]) by {
            if i <= n {
                assert(records_cover(ss.take(n + 1)[i], ts.take(n + 1)[i]));
            }
        }
    }
}

/// After bringing word knowledge up to date, every configured language has a saved record.
pub proof fn law_refresh_gives_every_language_a_record(
    before: ToSave,
    after: ToSave,
    languages: StrMap<LanguageSettings>,
    now: Timestamp,
    steps: Seq<StepView>,
)
    requires
        refresh_planned(before, after, languages, now, steps),
    ensures
        forall|k: Seq<char>| #[trigger]
            languages@.dom().contains(k) ==> after.language_specific@.dom().contains(k),
{
}

/// A failure reported at start turns saving off.
pub proof fn law_startup_failure_turns_saving_off(
    saved: Result<ToSave, KalbaError>,
    settings: Result<Settings, KalbaError>,
    now: Timestamp,
    info: SharedInfo,
)
    requires
        started_from(saved, settings, now, info),
        (reported_errors(saved) + reported_errors(settings)).len() > 0,
    ensures
        !info.can_save,
{
}

/// What a command other than a look-up or a rating did to the shared state: it closed the
/// session, chose a language, replaced the settings, handed over the failures found at
/// start, or changed only the settings and the saved record, as adding a language and
/// bringing word knowledge up to date do; or it left the state as it was.
pub open spec fn command_step(before: SharedInfo, after: SharedInfo) -> bool {
    ||| exists|now: Timestamp| #[trigger] session_closed(before, after, now)
    ||| only_words_changed(before, after)
    ||| language_chosen(before, after)
    ||| settings_replaced(before, after)
    ||| errors_taken(before, after)
    ||| only_records_changed(before, after)
    ||| after == before
}

/// No command turns saving back on: closing the session, looking up or rating words,
/// choosing a language, replacing the settings, handing over the failures found at start,
/// adding a language and bringing word knowledge up to date all keep whether saving is
/// allowed, over any number of them.
pub proof fn law_commands_keep_save_permission(states: Seq<SharedInfo>)
    requires
        states.len() > 0,
        forall|i: int| 0 <= i < states.len() - 1 ==> command_step(#[trigger] states[i], states[i + 1]),
    ensures
        forall|i: int| 0 <= i < states.len() ==> #[trigger] states[i].can_save == states[0].can_save,
    decreases states.len(),
{
    if states.len() > 1 {
        let shorter = states.drop_last();
        assert forall|i: int| 0 <= i < shorter.len() - 1 implies command_step(
            #[trigger] shorter[i],
            shorter[i + 1],
        ) by {
            assert(command_step(states[i], states[i + 1]));
        }
        law_commands_keep_save_permission(shorter);
        let last = states.len() - 1;
        assert(shorter[last - 1] == states[last - 1]);
        assert(command_step(states[last - 1], states[last]));
        assert(states[last].can_save == states[last - 1].can_save);
        assert forall|i: int| 0 <= i < states.len() implies #[trigger] states[i].can_save
            == states[0].can_save by {
            if i < last {
                assert(shorter[i] == states[i]);
            }
        }
    }
}

/// A start with failures to report keeps saving off through any run of commands, so the
/// saved record that failed to load is never written over in that run.
pub proof fn law_failed_start_never_saves(
    saved: Result<ToSave, KalbaError>,
    settings: Result<Settings, KalbaError>,
    now: Timestamp,
    states: Seq<SharedInfo>,
)
    requires
        states.len() > 0,
        started_from(saved, settings, now, states[0]),
        (reported_errors(saved) + reported_errors(settings)).len() > 0,
        forall|i: int| 0 <= i < states.len() - 1 ==> command_step(#[trigger] states[i], states[i + 1]),
    ensures
        forall|i: int| 0 <= i < states.len() ==> !(#[trigger] states[i].can_save),
{
    law_commands_keep_save_permission(states);
}

} // verus!
