//! What single operations do, stated over their inputs and results.

use vstd::prelude::*;
use crate::error::KalbaError;
use crate::model::{LanguageSettings, Method, Settings, ToSave, WordInfo};
use crate::refresh::{
    deck_steps, decks_of, decks_through, frequency_changed, frequency_steps, refresh_planned, saved_entry,
    steps_through, texts, StepView,
};
use crate::state::{session_closed, started_from, SharedInfo};
use crate::str_map::StrMap;
use crate::templates::{
    frequency_list_step, grammar_step, install_started_lower, template_step, InstallStage, TemplateInstall,
};
use crate::time::{whole_days_between, Timestamp};
use crate::words::{frequency_list_applied, rating_looked_up, rating_recorded};

verus! {

/// The step that reads the frequency list of `lang` for the language `name`.
pub open spec fn read_step(name: Seq<char>, lang: LanguageSettings) -> StepView {
    StepView::ReadFrequencyList {
        language: name,
        file: lang.frequency_list@,
        words_known: lang.words_known_by_freq as nat,
    }
}

/// The saved record of `name` in `to_save` shows the frequency list and number of words of
/// `lang` as already read.
pub open spec fn list_already_read(to_save: ToSave, name: Seq<char>, lang: LanguageSettings) -> bool {
    &&& to_save.language_specific@.dom().contains(name)
    &&& to_save.language_specific@[name].previous_file is Some
    &&& to_save.language_specific@[name].previous_file->0@ == lang.frequency_list@
    &&& to_save.language_specific@[name].previous_amount == lang.words_known_by_freq
}

/// A language whose frequency list changed has its reading among the steps of the first
/// `i` languages once it is one of them.
proof fn lemma_read_step_planned(
    old: ToSave,
    languages: StrMap<LanguageSettings>,
    days: int,
    i: nat,
    k: int,
)
    requires
        0 <= k < i <= languages.key_seq().len(),
        frequency_changed(
            saved_entry(old, languages.key_seq()[k]),
            languages@[languages.key_seq()[k]],
        ),
    ensures
        steps_through(old, languages, days, i).contains(
            read_step(languages.key_seq()[k], languages@[languages.key_seq()[k]]),
        ),
    decreases i,
{
    let name = languages.key_seq()[i - 1];
    let lang = languages@[name];
    let prev = steps_through(old, languages, days, (i - 1) as nat);
    let ds = deck_steps(
        name,
        decks_of(lang),
        crate::refresh::texts(old.decks_checked@) + crate::refresh::decks_through(languages, (i - 1) as nat),
        days,
    );
    let fs = frequency_steps(saved_entry(old, name), name, lang);
    let all = steps_through(old, languages, days, i);
    assert(all == prev + ds + fs);
    if k == i - 1 {
        assert(all[(prev.len() + ds.len()) as int] == read_step(name, lang));
    } else {
        lemma_read_step_planned(old, languages, days, (i - 1) as nat, k);
        let j = prev.index_of(read_step(languages.key_seq()[k], languages@[languages.key_seq()[k]]));
        assert(all[j] == prev[j]);
    }
}

/// Every reading of a frequency list among the steps of the first `i` languages is that of
/// one of them whose list changed.
proof fn lemma_read_steps_come_from_changes(
    old: ToSave,
    languages: StrMap<LanguageSettings>,
    days: int,
    i: nat,
    j: int,
)
    requires
        i <= languages.key_seq().len(),
        0 <= j < steps_through(old, languages, days, i).len(),
        steps_through(old, languages, days, i)[j] is ReadFrequencyList,
    ensures
        exists|k: int|
            0 <= k < i && #[trigger] languages.key_seq()[k]
                == steps_through(old, languages, days, i)[j]->ReadFrequencyList_language
                && frequency_changed(
                saved_entry(old, languages.key_seq()[k]),
                languages@[languages.key_seq()[k]],
            ),
    decreases i,
{
    let name = languages.key_seq()[i - 1];
    let lang = languages@[name];
    let prev = steps_through(old, languages, days, (i - 1) as nat);
    let ds = deck_steps(
        name,
        decks_of(lang),
        crate::refresh::texts(old.decks_checked@) + crate::refresh::decks_through(languages, (i - 1) as nat),
        days,
    );
    let fs = frequency_steps(saved_entry(old, name), name, lang);
    let all = steps_through(old, languages, days, i);
    assert(all == prev + ds + fs);
    if j < prev.len() {
        assert(all[j] == prev[j]);
        lemma_read_steps_come_from_changes(old, languages, days, (i - 1) as nat, j);
        let k = choose|k: int|
            0 <= k < i - 1 && #[trigger] languages.key_seq()[k] == prev[j]->ReadFrequencyList_language
                && frequency_changed(
                saved_entry(old, languages.key_seq()[k]),
                languages@[languages.key_seq()[k]],
            );
        assert(languages.key_seq()[k] == all[j]->ReadFrequencyList_language);
    } else if j < prev.len() + ds.len() {
        assert(all[j] == ds[j - prev.len()]);
        assert(false);
    } else {
        assert(all[j] == fs[j - prev.len() - ds.len()]);
        assert(languages.key_seq()[i - 1] == all[j]->ReadFrequencyList_language);
    }
}

/// Planning reads the frequency list of a configured language exactly when its saved record
/// does not show that same list and number of words as read already (no record, no list
/// read, another file, or another number of words), and it then reads the list and number
/// of the settings; afterwards the record shows them as read.
pub proof fn law_changed_frequency_list_is_read(
    before: ToSave,
    after: ToSave,
    languages: StrMap<LanguageSettings>,
    now: Timestamp,
    steps: Seq<StepView>,
    name: Seq<char>,
)
    requires
        refresh_planned(before, after, languages, now, steps),
        languages.key_seq().to_set() == languages@.dom(),
        languages@.dom().contains(name),
    ensures
        !list_already_read(before, name, languages@[name]) ==> steps.contains(read_step(name, languages@[name])),
        list_already_read(before, name, languages@[name]) ==> forall|j: int|
            0 <= j < steps.len() && #[trigger] steps[j] is ReadFrequencyList
                ==> steps[j]->ReadFrequencyList_language != name,
        list_already_read(after, name, languages@[name]),
{
    let lang = languages@[name];
    let n = languages.key_seq().len();
    let days = whole_days_between(before.last_launched, now) + 2;
    assert(languages.key_seq().to_set().contains(name));
    let k = languages.key_seq().index_of(name);
    assert(crate::refresh::refreshed_entry(saved_entry(before, name), lang, after.language_specific@[name]));
    if !list_already_read(before, name, lang) {
        assert(frequency_changed(saved_entry(before, name), lang));
        lemma_read_step_planned(before, languages, days, n, k);
    } else {
        assert forall|j: int|
            0 <= j < steps.len() && #[trigger] steps[j] is ReadFrequencyList implies steps[j]->ReadFrequencyList_language
            != name by {
            lemma_read_steps_come_from_changes(before, languages, days, n, j);
        }
    }
}

/// Some step before the `j`-th checks `deck`.
pub open spec fn checked_earlier(steps: Seq<StepView>, j: int, deck: Seq<char>) -> bool {
    exists|i: int| 0 <= i < j && #[trigger] steps[i] is CheckDeck && steps[i]->CheckDeck_deck == deck
}

/// A list holds `x` exactly when one of its two parts does.
proof fn lemma_concat_contains(a: Seq<Seq<char>>, b: Seq<Seq<char>>, x: Seq<char>)
    ensures
        (a + b).contains(x) == (a.contains(x) || b.contains(x)),
{
    if (a + b).contains(x) {
        let k = (a + b).index_of(x);
        if k < a.len() {
            assert(a[k] == x);
        } else {
            assert(b[k - a.len()] == x);
        }
    }
    if a.contains(x) {
        let k = a.index_of(x);
        assert((a + b)[k] == x);
    }
    if b.contains(x) {
        let k = b.index_of(x);
        assert((a + b)[a.len() + k] == x);
    }
}

/// Before a position within the first part, the checks are those of the first part.
proof fn lemma_earlier_in_prefix(p: Seq<StepView>, q: Seq<StepView>, j: int, d: Seq<char>)
    requires
        0 <= j <= p.len(),
    ensures
        checked_earlier(p + q, j, d) == checked_earlier(p, j, d),
{
    if checked_earlier(p + q, j, d) {
        let i = choose|i: int| 0 <= i < j && #[trigger] (p + q)[i] is CheckDeck && (p + q)[i]->CheckDeck_deck == d;
        assert(p[i] == (p + q)[i]);
    }
    if checked_earlier(p, j, d) {
        let i = choose|i: int| 0 <= i < j && #[trigger] p[i] is CheckDeck && p[i]->CheckDeck_deck == d;
        assert((p + q)[i] == p[i]);
    }
}

/// Before a position in the second part, the checks are all those of the first part and
/// those of the second part before it.
proof fn lemma_earlier_past_prefix(p: Seq<StepView>, q: Seq<StepView>, j: int, d: Seq<char>)
    requires
        p.len() <= j <= p.len() + q.len(),
    ensures
        checked_earlier(p + q, j, d) == (checked_earlier(p, p.len() as int, d) || checked_earlier(
            q,
            j - p.len(),
            d,
        )),
{
    if checked_earlier(p + q, j, d) {
        let i = choose|i: int| 0 <= i < j && #[trigger] (p + q)[i] is CheckDeck && (p + q)[i]->CheckDeck_deck == d;
        if i < p.len() {
            assert(p[i] == (p + q)[i]);
        } else {
            assert(q[i - p.len()] == (p + q)[i]);
        }
    }
    if checked_earlier(p, p.len() as int, d) {
        let i = choose|i: int| 0 <= i < p.len() && #[trigger] p[i] is CheckDeck && p[i]->CheckDeck_deck == d;
        assert((p + q)[i] == p[i]);
    }
    if checked_earlier(q, j - p.len(), d) {
        let i = choose|i: int| 0 <= i < j - p.len() && #[trigger] q[i] is CheckDeck && q[i]->CheckDeck_deck == d;
        assert((p + q)[p.len() + i] == q[i]);
    }
}

/// The checks of one language before its `p`-th deck are those of its first `p` decks.
proof fn lemma_deck_steps_earlier(
    name: Seq<char>,
    decks: Seq<Seq<char>>,
    checked: Seq<Seq<char>>,
    days: int,
    p: int,
    d: Seq<char>,
)
    requires
        0 <= p <= decks.len(),
    ensures
        checked_earlier(deck_steps(name, decks, checked, days), p, d) == decks.take(p).contains(d),
{
    let ds = deck_steps(name, decks, checked, days);
    if checked_earlier(ds, p, d) {
        let i = choose|i: int| 0 <= i < p && #[trigger] ds[i] is CheckDeck && ds[i]->CheckDeck_deck == d;
        assert(decks.take(p)[i] == d);
    }
    if decks.take(p).contains(d) {
        let k = decks.take(p).index_of(d);
        assert(ds[k] is CheckDeck && ds[k]->CheckDeck_deck == d);
    }
}

/// A reading of a frequency list checks no deck.
proof fn lemma_frequency_steps_check_nothing(
    entry: Option<crate::model::LanguageSpecificToSave>,
    name: Seq<char>,
    lang: LanguageSettings,
    j: int,
    d: Seq<char>,
)
    requires
        0 <= j <= frequency_steps(entry, name, lang).len(),
    ensures
        !checked_earlier(frequency_steps(entry, name, lang), j, d),
{
    let fs = frequency_steps(entry, name, lang);
    if checked_earlier(fs, j, d) {
        let i = choose|i: int| 0 <= i < j && #[trigger] fs[i] is CheckDeck && fs[i]->CheckDeck_deck == d;
        assert(fs[i] is ReadFrequencyList);
    }
}

/// Among the steps of the first `i` languages, the decks checked are those of these
/// languages, every check looks back `days` days, and a check is of every card exactly when
/// its deck was not checked in an earlier run nor earlier among the steps.
proof fn lemma_deck_checks(old: ToSave, languages: StrMap<LanguageSettings>, days: int, i: nat)
    requires
        i <= languages.key_seq().len(),
    ensures
        forall|d: Seq<char>|
            #[trigger] checked_earlier(
                steps_through(old, languages, days, i),
                steps_through(old, languages, days, i).len() as int,
                d,
            ) == decks_through(languages, i).contains(d),
        forall|j: int|
            0 <= j < steps_through(old, languages, days, i).len() && #[trigger] steps_through(
                old,
                languages,
                days,
                i,
            )[j] is CheckDeck ==> {
                let s = steps_through(old, languages, days, i)[j];
                &&& s->CheckDeck_days == days
                &&& s->CheckDeck_all_cards == !(texts(old.decks_checked@).contains(s->CheckDeck_deck)
                    || checked_earlier(steps_through(old, languages, days, i), j, s->CheckDeck_deck))
            },
    decreases i,
{
    let all = steps_through(old, languages, days, i);
    if i == 0 {
        assert forall|d: Seq<char>| #[trigger] checked_earlier(all, all.len() as int, d) == decks_through(
            languages,
            i,
        ).contains(d) by {
            assert(all.len() == 0);
        }
    } else {
        lemma_deck_checks(old, languages, days, (i - 1) as nat);
        let name = languages.key_seq()[i - 1];
        let lang = languages@[name];
        let decks = decks_of(lang);
        let c = texts(old.decks_checked@);
        let prev_decks = decks_through(languages, (i - 1) as nat);
        let prev = steps_through(old, languages, days, (i - 1) as nat);
        let ds = deck_steps(name, decks, c + prev_decks, days);
        let fs = frequency_steps(saved_entry(old, name), name, lang);
        let q = ds + fs;
        assert(all =~= prev + q);
        assert(decks_through(languages, i) == prev_decks + decks);
        assert forall|d: Seq<char>| #[trigger] checked_earlier(all, all.len() as int, d) == decks_through(
            languages,
            i,
        ).contains(d) by {
            lemma_earlier_past_prefix(prev, q, all.len() as int, d);
            lemma_earlier_past_prefix(ds, fs, q.len() as int, d);
            lemma_frequency_steps_check_nothing(saved_entry(old, name), name, lang, fs.len() as int, d);
            lemma_deck_steps_earlier(name, decks, c + prev_decks, days, decks.len() as int, d);
            assert(decks.take(decks.len() as int) =~= decks);
            assert(checked_earlier(prev, prev.len() as int, d) == prev_decks.contains(d));
            lemma_concat_contains(prev_decks, decks, d);
        }
        assert forall|j: int| 0 <= j < all.len() && #[trigger] all[j] is CheckDeck implies {
            let s = all[j];
            &&& s->CheckDeck_days == days
            &&& s->CheckDeck_all_cards == !(c.contains(s->CheckDeck_deck) || checked_earlier(
                all,
                j,
                s->CheckDeck_deck,
            ))
        } by {
            let d = all[j]->CheckDeck_deck;
            if j < prev.len() {
                assert(all[j] == prev[j]);
                lemma_earlier_in_prefix(prev, q, j, d);
            } else if j < prev.len() + ds.len() {
                let p = j - prev.len();
                assert(all[j] == ds[p]);
                assert(q[p] == ds[p]);
                assert(d == decks[p]);
                lemma_earlier_past_prefix(prev, q, j, d);
                lemma_earlier_in_prefix(ds, fs, p, d);
                lemma_deck_steps_earlier(name, decks, c + prev_decks, days, p, d);
                assert(checked_earlier(prev, prev.len() as int, d) == prev_decks.contains(d));
                lemma_concat_contains(c + prev_decks, decks.take(p), d);
                lemma_concat_contains(c, prev_decks, d);
            } else {
                assert(all[j] == fs[j - prev.len() - ds.len()]);
            }
        }
    }
}

/// Planning checks each deck over the whole days since the last launch plus two, and checks
/// every card of a deck exactly when it was not checked in an earlier run nor already
/// earlier in the same plan.
pub proof fn law_decks_checked_in_full_only_the_first_time(
    before: ToSave,
    after: ToSave,
    languages: StrMap<LanguageSettings>,
    now: Timestamp,
    steps: Seq<StepView>,
)
    requires
        refresh_planned(before, after, languages, now, steps),
    ensures
        forall|j: int|
            0 <= j < steps.len() && #[trigger] steps[j] is CheckDeck ==> {
                &&& steps[j]->CheckDeck_days == whole_days_between(before.last_launched, now) + 2
                &&& steps[j]->CheckDeck_all_cards == !(texts(before.decks_checked@).contains(
                    steps[j]->CheckDeck_deck,
                ) || checked_earlier(steps, j, steps[j]->CheckDeck_deck))
            },
        forall|d: Seq<char>|
            #[trigger] checked_earlier(steps, steps.len() as int, d) == decks_through(
                languages,
                languages.key_seq().len(),
            ).contains(d),
{
    lemma_deck_checks(
        before,
        languages,
        whole_days_between(before.last_launched, now) + 2,
        languages.key_seq().len(),
    );
}

/// Starting to add a language gives it a name no language has yet, the language itself when
/// that is free; `custom` is then added at once under that name with empty settings and an
/// empty saved record, and any other language waits for its template with nothing recorded.
pub proof fn law_start_names_and_records(
    settings: Settings,
    to_save: ToSave,
    language: Seq<char>,
    install: TemplateInstall,
    s1: Settings,
    t1: ToSave,
)
    requires
        install_started_lower(settings, to_save, language, install, s1, t1),
    ensures
        !settings.languages@.dom().contains(install.name@),
        !settings.languages@.dom().contains(language) ==> install.name@ == language,
        language == "custom"@ ==> {
            &&& install.stage == InstallStage::Finished
            &&& s1.languages@.dom() == settings.languages@.dom().insert(install.name@)
            &&& s1.languages@[install.name@].model@ == Seq::<char>::empty()
            &&& s1.languages@[install.name@].frequency_list@ == Seq::<char>::empty()
            &&& t1.language_specific@.dom() == to_save.language_specific@.dom().insert(install.name@)
            &&& t1.language_specific@[install.name@].words@.dom() == Set::<Seq<char>>::empty()
        },
        language != "custom"@ ==> install.stage == InstallStage::AwaitTemplate && s1 == settings && t1 == to_save,
{
    if language == "custom"@ {
        assert(s1.languages@.dom() =~= settings.languages@.dom().insert(install.name@));
        assert(t1.language_specific@.dom() =~= to_save.language_specific@.dom().insert(install.name@));
        assert(t1.language_specific@[install.name@].words@.dom() =~= Set::<Seq<char>>::empty());
    }
}

/// Once the template is in and the frequency list put in place at `path`: without a
/// grammar file the language is added at once under its name, with that frequency list, an
/// empty grammar and a saved record, and nothing is left to fetch; with one, the grammar
/// file is next and nothing is recorded yet.
pub proof fn law_frequency_list_then_grammar_or_finish(
    before: TemplateInstall,
    after: TemplateInstall,
    path: String,
    s0: Settings,
    s1: Settings,
    t0: ToSave,
    t1: ToSave,
)
    requires
        before.stage == InstallStage::AwaitFrequencyList,
        before.details is Some,
        frequency_list_step(before, after, path, s0, s1, t0, t1),
    ensures
        after.name@ == before.name@,
        after.frequency_list@ == path@,
        !before.details->0.spyglys_details ==> {
            &&& after.stage == InstallStage::Finished
            &&& s1.languages@.dom() == s0.languages@.dom().insert(before.name@)
            &&& s1.languages@[before.name@].frequency_list@ == path@
            &&& s1.languages@[before.name@].grammar_parser@ == Seq::<char>::empty()
            &&& s1.languages@[before.name@].model == before.details->0.model
            &&& t1.language_specific@.dom() == t0.language_specific@.dom().insert(before.name@)
            &&& forall|k: Seq<char>| #[trigger] s0.languages@.dom().contains(k) && k != before.name@
                ==> s1.languages@[k] == s0.languages@[k]
        },
        before.details->0.spyglys_details ==> {
            &&& after.stage == InstallStage::AwaitGrammar
            &&& s1 == s0
            &&& t1 == t0
        },
{
    if !before.details->0.spyglys_details {
        assert(s1.languages@.dom() =~= s0.languages@.dom().insert(before.name@));
        assert(t1.language_specific@.dom() =~= t0.language_specific@.dom().insert(before.name@));
    }
}

/// When the template comes: with a frequency list the list is asked for next; without one
/// but with a grammar file the grammar is asked for, with an empty frequency list; with
/// neither the language is added at once under its name with an empty frequency list and
/// grammar. Nothing is recorded before the language is added.
pub proof fn law_template_leads_to_next_need(
    before: TemplateInstall,
    after: TemplateInstall,
    details: crate::templates::TemplateDetails,
    s0: Settings,
    s1: Settings,
    t0: ToSave,
    t1: ToSave,
)
    requires
        before.stage == InstallStage::AwaitTemplate,
        template_step(before, after, details, s0, s1, t0, t1),
    ensures
        after.name@ == before.name@,
        details.frequency_list ==> after.stage == InstallStage::AwaitFrequencyList && s1 == s0 && t1 == t0,
        !details.frequency_list && details.spyglys_details ==> {
            &&& after.stage == InstallStage::AwaitGrammar
            &&& after.frequency_list@ == Seq::<char>::empty()
            &&& s1 == s0
            &&& t1 == t0
        },
        !details.frequency_list && !details.spyglys_details ==> {
            &&& after.stage == InstallStage::Finished
            &&& s1.languages@.dom() == s0.languages@.dom().insert(before.name@)
            &&& s1.languages@[before.name@].frequency_list@ == Seq::<char>::empty()
            &&& s1.languages@[before.name@].grammar_parser@ == Seq::<char>::empty()
            &&& s1.languages@[before.name@].model == details.model
            &&& t1.language_specific@.dom() == t0.language_specific@.dom().insert(before.name@)
            &&& t1.language_specific@[before.name@].lemmas_to_replace == details.replace_lemmas
        },
{
    if !details.frequency_list && !details.spyglys_details {
        assert(s1.languages@.dom() =~= s0.languages@.dom().insert(before.name@));
        assert(t1.language_specific@.dom() =~= t0.language_specific@.dom().insert(before.name@));
    }
}

/// When the grammar file comes, the language is added under its name with the frequency
/// list handed over earlier and that grammar, and nothing is left to fetch.
pub proof fn law_grammar_finishes(
    before: TemplateInstall,
    after: TemplateInstall,
    grammar: String,
    s0: Settings,
    s1: Settings,
    t0: ToSave,
    t1: ToSave,
)
    requires
        before.stage == InstallStage::AwaitGrammar,
        before.details is Some,
        grammar_step(before, after, grammar, s0, s1, t0, t1),
    ensures
        after.stage == InstallStage::Finished,
        s1.languages@.dom() == s0.languages@.dom().insert(before.name@),
        s1.languages@[before.name@].frequency_list@ == before.frequency_list@,
        s1.languages@[before.name@].grammar_parser@ == grammar@,
        s1.languages@[before.name@].model == before.details->0.model,
        t1.language_specific@.dom() == t0.language_specific@.dom().insert(before.name@),
{
    assert(s1.languages@.dom() =~= s0.languages@.dom().insert(before.name@));
    assert(t1.language_specific@.dom() =~= t0.language_specific@.dom().insert(before.name@));
}

/// Applying a frequency list replaces only the words known by frequency: every word known
/// otherwise stays, unchanged unless it is in the list; a word known by frequency that is
/// not in the list goes; each word of the list is known with rating 5 by frequency as of
/// `now`, with that as its only history; and no other word comes in.
pub proof fn law_frequency_list_replaces_only_frequency_words(
    before: Map<Seq<char>, WordInfo>,
    after: Map<Seq<char>, WordInfo>,
    list: Seq<Seq<char>>,
    now: Timestamp,
)
    requires
        frequency_list_applied(before, after, list, now),
    ensures
        forall|k: Seq<char>| #[trigger] before.dom().contains(k) && before[k].method != Method::FromFrequency
            ==> after.dom().contains(k),
        forall|k: Seq<char>|
            #[trigger] before.dom().contains(k) && before[k].method != Method::FromFrequency && !list.contains(k)
                ==> after[k] == before[k],
        forall|k: Seq<char>|
            #[trigger] before.dom().contains(k) && before[k].method == Method::FromFrequency && !list.contains(k)
                ==> !after.dom().contains(k),
        forall|k: Seq<char>| #[trigger] list.contains(k) ==> {
            &&& after.dom().contains(k)
            &&& after[k].rating == 5
            &&& after[k].method == Method::FromFrequency
            &&& after[k].history@ == seq![(now, Method::FromFrequency, 5i8)]
        },
        forall|k: Seq<char>| #[trigger] after.dom().contains(k) ==> list.contains(k) || before.dom().contains(k),
{
    assert forall|k: Seq<char>|
        #[trigger] before.dom().contains(k) && before[k].method != Method::FromFrequency && !list.contains(k)
            implies after[k] == before[k] by {
        assert(after.dom().contains(k));
    }
}

/// Saving is allowed exactly when neither load failed for a reason other than a missing or
/// unreadable file; those failures, and only they, are kept to report.
pub proof fn law_saving_allowed_unless_a_load_broke(
    saved: Result<ToSave, KalbaError>,
    settings: Result<Settings, KalbaError>,
    now: Timestamp,
    info: crate::state::SharedInfo,
)
    requires
        started_from(saved, settings, now, info),
    ensures
        info.can_save == ((saved is Ok || saved->Err_0 is Io) && (settings is Ok || settings->Err_0 is Io)),
        info.errors@.len() == (if saved is Err && !(saved->Err_0 is Io) { 1int } else { 0int }) + (
        if settings is Err && !(settings->Err_0 is Io) {
            1int
        } else {
            0int
        }),
{
}

/// Rating a known word sets its rating and method to those given and adds exactly that
/// change, at `now`, to the end of its history, whatever it was rated before; no other word
/// changes and no word comes or goes.
pub proof fn law_rating_is_recorded_with_history(
    before: Map<Seq<char>, WordInfo>,
    after: Map<Seq<char>, WordInfo>,
    word: Seq<char>,
    rating: i8,
    method: Method,
    now: Timestamp,
)
    requires
        rating_recorded(before, after, word, rating, method, now),
    ensures
        after.dom() == before.dom(),
        after[word].rating == rating,
        after[word].method == method,
        after[word].history@ == before[word].history@.push((now, method, rating)),
        forall|k: Seq<char>| #[trigger] after.dom().contains(k) && k != word ==> after[k] == before[k],
{
    assert(after.dom() =~= before.dom());
}

/// Rating a known word of the current language through the shared state records it as
/// rated by Anki when the rating may still change with Anki, else as specified, with that
/// change at the end of its history.
pub proof fn law_knowledge_update_method(
    before: crate::state::SharedInfo,
    after: crate::state::SharedInfo,
    word: Seq<char>,
    rating: i8,
    modifiable: bool,
    now: Timestamp,
)
    requires
        crate::state::knowledge_updated(before, after, word, rating, modifiable, now),
    ensures
        ({
            let lang = before.current_language->0@;
            let w0 = before.to_save.language_specific@[lang].words@[word];
            let w1 = after.to_save.language_specific@[lang].words@[word];
            &&& w1.rating == rating
            &&& modifiable ==> w1.method == Method::FromAnki
            &&& !modifiable ==> w1.method == Method::Specified
            &&& w1.history@ == w0.history@.push((now, w1.method, rating))
        }),
{
}

/// Looking a word up gives the rating of a known word and changes nothing; a word not met
/// before gives 0 and is added as seen, rated 0 at `now`, with only that in its history,
/// and no other word changes.
pub proof fn law_lookup_records_new_words_as_seen(
    before: Map<Seq<char>, WordInfo>,
    after: Map<Seq<char>, WordInfo>,
    lemma: Seq<char>,
    now: Timestamp,
    rating: i8,
)
    requires
        rating_looked_up(before, after, lemma, now, rating),
    ensures
        before.dom().contains(lemma) ==> rating == before[lemma].rating && after == before,
        !before.dom().contains(lemma) ==> {
            &&& rating == 0
            &&& after.dom() == before.dom().insert(lemma)
            &&& after[lemma].rating == 0
            &&& after[lemma].method == Method::FromSeen
            &&& after[lemma].history@ == seq![(now, Method::FromSeen, 0i8)]
            &&& forall|k: Seq<char>| #[trigger] before.dom().contains(k) ==> after[k] == before[k]
        },
{
    if !before.dom().contains(lemma) {
        assert(after.dom() =~= before.dom().insert(lemma));
    }
}

/// Closing the session at `now` records the language being read as the last one used and
/// gives the last session the length from its start to `now`, in whole seconds and fewer
/// than a second's nanoseconds; every other session, the start itself and the rest of the
/// state stay as they were.
pub proof fn law_closing_measures_the_last_session(before: SharedInfo, after: SharedInfo, now: Timestamp)
    requires
        session_closed(before, after, now),
    ensures
        ({
            let n = before.to_save.sessions@.len();
            let start = before.to_save.sessions@[n - 1].0;
            let length = after.to_save.sessions@[n - 1].1;
            &&& after.to_save.last_language == before.current_language
            &&& after.to_save.sessions@.len() == n
            &&& after.to_save.sessions@[n - 1].0 == start
            &&& length.secs * 1_000_000_000 + length.nanos == (now.secs - start.secs) * 1_000_000_000 + now.nanos
                - start.nanos
            &&& length.nanos < 1_000_000_000
            &&& forall|i: int| 0 <= i < n - 1 ==> #[trigger] after.to_save.sessions@[i] == before.to_save.sessions@[i]
            &&& after.settings == before.settings
            &&& after.can_save == before.can_save
            &&& after.to_save.language_specific == before.to_save.language_specific
            &&& after.to_save.decks_checked == before.to_save.decks_checked
            &&& after.to_save.last_launched == before.to_save.last_launched
        }),
{
    let n = before.to_save.sessions@.len();
    let start = before.to_save.sessions@[n - 1].0;
    let length = after.to_save.sessions@[n - 1].1;
    assert(length.secs * 1_000_000_000 + length.nanos == (now.secs - start.secs) * 1_000_000_000 + now.nanos
        - start.nanos) by (nonlinear_arith)
        requires
            length.secs * 1_000_000_000 + length.nanos == (now.secs * 1_000_000_000 + now.nanos) - (start.secs
                * 1_000_000_000 + start.nanos),
    ;
}

} // verus!
