//! Adding a language from a published template, as a sequence of steps: the library
//! decides what to fetch next and what to record, the application fetches.

use vstd::prelude::*;
use crate::model::{Dictionary, LanguageSettings, LanguageSpecificToSave, Settings, ToSave};
use crate::naming::{lowercase, numbered_name, to_lowercase, unused_language_name};
use crate::str_map::StrMap;

verus! {

/// What a language template offers.
#[derive(Debug)]
pub struct TemplateDetails {
    pub model: String,
    pub dicts: Vec<Dictionary>,
    pub frequency_list: bool,
    pub spyglys_details: bool,
    pub run_on_lemmas: Vec<String>,
    pub suggest_on_lemmas: Vec<String>,
    pub replace_lemmas: StrMap<String>,
}

/// Where the templates, frequency lists and grammar files are published.
pub open spec fn data_base_url() -> Seq<char> {
    "https://raw.githubusercontent.com/brewingweasel/kalba/main/data/"@
}

/// The address of the template of `language`.
pub open spec fn template_url(language: Seq<char>) -> Seq<char> {
    data_base_url() + "language_templates/"@ + language + ".toml"@
}

/// The address of the frequency list of `language`.
pub open spec fn frequency_list_url(language: Seq<char>) -> Seq<char> {
    data_base_url() + "frequency_lists/"@ + language
}

/// The address of the grammar file of `language`.
pub open spec fn grammar_url(language: Seq<char>) -> Seq<char> {
    data_base_url() + "spyglys/"@ + language + ".spyglys"@
}

/// The name of the file that holds the frequency list of `language`.
pub open spec fn frequency_file_name(language: Seq<char>) -> Seq<char> {
    language + "_frequency"@
}

/// The name that asks for a language with blank settings instead of a template.
pub open spec fn custom_language() -> Seq<char> {
    "custom"@
}

/// How far adding a language has come.
#[derive(Clone, Copy, Debug, PartialEq, Eq, Structural)]
pub enum InstallStage {
    /// The language is recorded; nothing is left to do.
    Finished,
    /// The template is to be fetched.
    AwaitTemplate,
    /// The frequency list is to be put in place and its path handed back.
    AwaitFrequencyList,
    /// The grammar file is to be fetched.
    AwaitGrammar,
}

/// What the application is to do next for a language being added.
#[derive(Debug)]
pub enum TemplateAction {
    Done,
    FetchTemplate { url: String },
    ProvideFrequencyList { file_name: String, url: String },
    FetchGrammar { url: String },
}

/// A language being added from its template.
#[derive(Debug)]
pub struct TemplateInstall {
    /// The language as asked for, in lower case.
    pub language: String,
    /// The name under which the language is recorded.
    pub name: String,
    pub stage: InstallStage,
    /// The template, once it has come.
    pub details: Option<TemplateDetails>,
    /// The path of the frequency list, or empty when the template has none.
    pub frequency_list: String,
}

/// `new` are the settings `old` with `name` recorded in its languages; nothing else differs.
pub open spec fn settings_with(old: Settings, new: Settings, name: Seq<char>) -> bool {
    &&& new.languages@ == old.languages@.insert(name, new.languages@[name])
    &&& new.dark_mode == old.dark_mode
    &&& new.to_run == old.to_run
}

/// `new` is the saved record `old` with `name` recorded in its languages; nothing else differs.
pub open spec fn saved_with(old: ToSave, new: ToSave, name: Seq<char>) -> bool {
    &&& new.language_specific@ == old.language_specific@.insert(
        name,
        new.language_specific@[name],
    )
    &&& new.last_launched == old.last_launched
    &&& new.last_language == old.last_language
    &&& new.decks_checked == old.decks_checked
    &&& new.sessions == old.sessions
}

/// The name chosen for a new `language` among `taken` names: `language` when free, else
/// `language N` for the smallest free `N` from 2 up.
pub open spec fn is_chosen_name(taken: Set<Seq<char>>, language: Seq<char>, name: Seq<char>) -> bool {
    &&& !taken.contains(name)
    &&& !taken.contains(language) ==> name == language
    &&& taken.contains(language) ==> exists|n: nat|
        {
            &&& n >= 2
            &&& name == numbered_name(language, n)
            &&& forall|m: nat| 2 <= m < n ==> taken.contains(#[trigger] numbered_name(language, m))
        }
}

/// Settings made from a template: the template's model, dictionaries and lemma lists,
/// the given frequency list and grammar, and nothing else.
pub open spec fn settings_from_template(
    s: LanguageSettings,
    details: TemplateDetails,
    frequency_list: Seq<char>,
    grammar: Seq<char>,
) -> bool {
    &&& s.model == details.model
    &&& s.dicts == details.dicts
    &&& s.run_on_lemmas == details.run_on_lemmas
    &&& s.suggest_on_lemmas == details.suggest_on_lemmas
    &&& s.frequency_list@ == frequency_list
    &&& s.grammar_parser@ == grammar
    &&& s.words_known_by_freq == 0
    &&& s.anki_parser@ == Map::<Seq<char>, crate::model::DeckParser>::empty()
}

/// A saved record made from a template: the template's lemma replacements, and nothing else.
pub open spec fn saved_from_template(r: LanguageSpecificToSave, details: TemplateDetails) -> bool {
    &&& r.lemmas_to_replace == details.replace_lemmas
    &&& r.words@ == Map::<Seq<char>, crate::model::WordInfo>::empty()
    &&& r.cached_defs@ == Map::<Seq<char>, Vec<crate::model::CachedDefinition>>::empty()
    &&& r.previous_file.is_none()
    &&& r.previous_amount == 0
    &&& r.words_seen@ == Seq::<(crate::time::Timestamp, usize)>::empty()
}

/// The template `details` came for `before`, which turned into `after`, and the settings
/// and saved record from `s0` and `t0` into `s1` and `t1`: a frequency list is asked for when
/// the template has one; otherwise the frequency list stays empty and the grammar file is
/// next, if any; with neither, the language is recorded at once.
pub open spec fn template_step(
    before: TemplateInstall,
    after: TemplateInstall,
    details: TemplateDetails,
    s0: Settings,
    s1: Settings,
    t0: ToSave,
    t1: ToSave,
) -> bool {
    &&& after.language == before.language
    &&& after.name == before.name
    &&& details.frequency_list ==> {
        &&& after.stage == InstallStage::AwaitFrequencyList
        &&& after.details == Some(details)
        &&& after.frequency_list == before.frequency_list
        &&& s1 == s0
        &&& t1 == t0
    }
    &&& !details.frequency_list && details.spyglys_details ==> {
        &&& after.stage == InstallStage::AwaitGrammar
        &&& after.details == Some(details)
        &&& after.frequency_list@ == Seq::<char>::empty()
        &&& s1 == s0
        &&& t1 == t0
    }
    &&& !details.frequency_list && !details.spyglys_details ==> {
        &&& after.stage == InstallStage::Finished
        &&& after.frequency_list@ == Seq::<char>::empty()
        &&& settings_with(s0, s1, before.name@)
        &&& settings_from_template(s1.languages@[before.name@], details, Seq::<char>::empty(), Seq::<char>::empty())
        &&& saved_with(t0, t1, before.name@)
        &&& saved_from_template(t1.language_specific@[before.name@], details)
    }
}

/// The frequency list came to `path` for `before`, which turned into `after`, and the
/// settings and saved record from `s0` and `t0` into `s1` and `t1`: the grammar file is next
/// when the template has one; otherwise the language is recorded with an empty grammar.
pub open spec fn frequency_list_step(
    before: TemplateInstall,
    after: TemplateInstall,
    path: String,
    s0: Settings,
    s1: Settings,
    t0: ToSave,
    t1: ToSave,
) -> bool {
    &&& after.language == before.language
    &&& after.name == before.name
    &&& after.frequency_list == path
    &&& before.details->0.spyglys_details ==> {
        &&& after.stage == InstallStage::AwaitGrammar
        &&& after.details == before.details
        &&& s1 == s0
        &&& t1 == t0
    }
    &&& !before.details->0.spyglys_details ==> {
        &&& after.stage == InstallStage::Finished
        &&& settings_with(s0, s1, before.name@)
        &&& settings_from_template(s1.languages@[before.name@], before.details->0, path@, Seq::<char>::empty())
        &&& saved_with(t0, t1, before.name@)
        &&& saved_from_template(t1.language_specific@[before.name@], before.details->0)
    }
}

/// The grammar file `grammar` came for `before`, which turned into `after`, and the
/// settings and saved record from `s0` and `t0` into `s1` and `t1`: the language is recorded
/// with settings made from the template, the frequency list and the grammar.
pub open spec fn grammar_step(
    before: TemplateInstall,
    after: TemplateInstall,
    grammar: String,
    s0: Settings,
    s1: Settings,
    t0: ToSave,
    t1: ToSave,
) -> bool {
    &&& after.stage == InstallStage::Finished
    &&& after.language == before.language
    &&& after.name == before.name
    &&& after.frequency_list == before.frequency_list
    &&& settings_with(s0, s1, before.name@)
    &&& settings_from_template(s1.languages@[before.name@], before.details->0, before.frequency_list@, grammar@)
    &&& saved_with(t0, t1, before.name@)
    &&& saved_from_template(t1.language_specific@[before.name@], before.details->0)
}

/// Starting to add the lower-case `language` to `settings` and `to_save` gave `install`
/// and left `new_settings` and `new_to_save`: the language is given a name none of the
/// languages has; `custom` is recorded at once with blank settings and an empty saved
/// record, any other language waits for its template with nothing recorded yet.
pub open spec fn install_started_lower(
    settings: Settings,
    to_save: ToSave,
    language: Seq<char>,
    install: TemplateInstall,
    new_settings: Settings,
    new_to_save: ToSave,
) -> bool {
    &&& install.language@ == language
    &&& is_chosen_name(settings.languages@.dom(), install.language@, install.name@)
    &&& install.frequency_list@ == Seq::<char>::empty()
    &&& install.language@ == custom_language() ==> {
        &&& install.stage == InstallStage::Finished
        &&& install.details.is_none()
        &&& settings_with(settings, new_settings, install.name@)
        &&& new_settings.languages@[install.name@].is_blank()
        &&& saved_with(to_save, new_to_save, install.name@)
        &&& new_to_save.language_specific@[install.name@].is_empty_record()
    }
    &&& install.language@ != custom_language() ==> {
        &&& install.stage == InstallStage::AwaitTemplate
        &&& install.details.is_none()
        &&& new_settings == settings
        &&& new_to_save == to_save
    }
}

/// Starting to add `language` to `settings` and `to_save` gave `install` and left
/// `new_settings` and `new_to_save`: the language is lower-cased, then started as
/// `install_started_lower` says.
pub open spec fn install_started(
    settings: Settings,
    to_save: ToSave,
    language: Seq<char>,
    install: TemplateInstall,
    new_settings: Settings,
    new_to_save: ToSave,
) -> bool {
    install_started_lower(settings, to_save, lowercase(language), install, new_settings, new_to_save)
}

/// Starts adding `language`, given in lower case: it is given a name that no language has
/// yet. The language `custom` is recorded at once with blank settings and an empty saved
/// record; any other language waits for its template.
pub fn start_install(settings: &mut Settings, to_save: &mut ToSave, language: String) -> (install: TemplateInstall)
    requires
        old(settings).languages@.len() < i32::MAX - 1,
    ensures
        install_started_lower(*old(settings), *old(to_save), language@, install, *final(settings), *final(to_save)),
{
    let name = unused_language_name(&settings.languages, &language);
    let custom = "custom".to_owned();
    if language == custom {
        settings.languages.insert(name.clone(), LanguageSettings::blank());
        to_save.language_specific.insert(name.clone(), LanguageSpecificToSave::empty());
        TemplateInstall {
            language,
            name,
            stage: InstallStage::Finished,
            details: None,
            frequency_list: String::new(),
        }
    } else {
        TemplateInstall {
            language,
            name,
            stage: InstallStage::AwaitTemplate,
            details: None,
            frequency_list: String::new(),
        }
    }
}

/// Starts adding `language`: it is lower-cased, then started as `start_install` starts it.
pub fn new_language_from_template(
    settings: &mut Settings,
    to_save: &mut ToSave,
    language: &String,
) -> (install: TemplateInstall)
    requires
        old(settings).languages@.len() < i32::MAX - 1,
    ensures
        install_started(*old(settings), *old(to_save), language@, install, *final(settings), *final(to_save)),
{
    let language = to_lowercase(language);
    start_install(settings, to_save, language)
}

impl TemplateInstall {
    /// What the application is to do next.
    pub fn next_action(&self) -> (action: TemplateAction)
        ensures
            self.stage == InstallStage::Finished ==> action is Done,
            self.stage == InstallStage::AwaitTemplate ==> (action matches TemplateAction::FetchTemplate { url }
                && url@ == template_url(self.language@)),
            self.stage == InstallStage::AwaitFrequencyList ==> (
            action matches TemplateAction::ProvideFrequencyList { file_name, url }
                && file_name@ == frequency_file_name(self.language@)
                && url@ == frequency_list_url(self.language@)),
            self.stage == InstallStage::AwaitGrammar ==> (action matches TemplateAction::FetchGrammar { url }
                && url@ == grammar_url(self.language@)),
    {
        match self.stage {
            InstallStage::Finished => TemplateAction::Done,
            InstallStage::AwaitTemplate => {
                let url = "https://raw.githubusercontent.com/brewingweasel/kalba/main/data/".to_owned()
                    .concat("language_templates/").concat(self.language.as_str()).concat(".toml");
                TemplateAction::FetchTemplate { url }
            },
            InstallStage::AwaitFrequencyList => {
                let url = "https://raw.githubusercontent.com/brewingweasel/kalba/main/data/".to_owned()
                    .concat("frequency_lists/").concat(self.language.as_str());
                let file_name = self.language.clone().concat("_frequency");
                TemplateAction::ProvideFrequencyList { file_name, url }
            },
            InstallStage::AwaitGrammar => {
                let url = "https://raw.githubusercontent.com/brewingweasel/kalba/main/data/".to_owned()
                    .concat("spyglys/").concat(self.language.as_str()).concat(".spyglys");
                TemplateAction::FetchGrammar { url }
            },
        }
    }

    /// Records the language under its name with settings made from the template, the
    /// frequency list path so far and `grammar`.
    fn finish(&mut self, grammar: String, settings: &mut Settings, to_save: &mut ToSave)
        requires
            old(self).details.is_some(),
        ensures
            final(self).stage == InstallStage::Finished,
            final(self).details.is_none(),
            final(self).language == old(self).language,
            final(self).name == old(self).name,
            final(self).frequency_list == old(self).frequency_list,
            settings_with(*old(settings), *final(settings), old(self).name@),
            settings_from_template(
                final(settings).languages@[old(self).name@],
                old(self).details->0,
                old(self).frequency_list@,
                grammar@,
            ),
            saved_with(*old(to_save), *final(to_save), old(self).name@),
            saved_from_template(final(to_save).language_specific@[old(self).name@], old(self).details->0),
    {
        let details = self.details.take().unwrap();
        let TemplateDetails {
            model,
            dicts,
            frequency_list: _,
            spyglys_details: _,
            run_on_lemmas,
            suggest_on_lemmas,
            replace_lemmas,
        } = details;
        let language_settings = LanguageSettings {
            model,
            frequency_list: self.frequency_list.clone(),
            words_known_by_freq: 0,
            dicts,
            grammar_parser: grammar,
            run_on_lemmas,
            suggest_on_lemmas,
            anki_parser: StrMap::new(),
        };
        settings.languages.insert(self.name.clone(), language_settings);
        let saved = LanguageSpecificToSave {
            words: StrMap::new(),
            cached_defs: StrMap::new(),
            previous_file: None,
            previous_amount: 0,
            words_seen: Vec::new(),
            lemmas_to_replace: replace_lemmas,
        };
        to_save.language_specific.insert(self.name.clone(), saved);
        self.stage = InstallStage::Finished;
    }

    /// Moves past the frequency list: on to the grammar file when the template has one,
    /// else finished with an empty grammar.
    fn after_frequency_list(&mut self, settings: &mut Settings, to_save: &mut ToSave)
        requires
            old(self).details.is_some(),
        ensures
            final(self).language == old(self).language,
            final(self).name == old(self).name,
            final(self).frequency_list == old(self).frequency_list,
            old(self).details->0.spyglys_details ==> {
                &&& final(self).stage == InstallStage::AwaitGrammar
                &&& final(self).details == old(self).details
                &&& *final(settings) == *old(settings)
                &&& *final(to_save) == *old(to_save)
            },
            !old(self).details->0.spyglys_details ==> {
                &&& final(self).stage == InstallStage::Finished
                &&& final(self).details.is_none()
                &&& settings_with(*old(settings), *final(settings), old(self).name@)
                &&& settings_from_template(
                    final(settings).languages@[old(self).name@],
                    old(self).details->0,
                    old(self).frequency_list@,
                    Seq::<char>::empty(),
                )
                &&& saved_with(*old(to_save), *final(to_save), old(self).name@)
                &&& saved_from_template(
                    final(to_save).language_specific@[old(self).name@],
                    old(self).details->0,
                )
            },
    {
        let wants_grammar = match &self.details {
            Some(d) => d.spyglys_details,
            None => false,
        };
        if wants_grammar {
            self.stage = InstallStage::AwaitGrammar;
        } else {
            self.finish(String::new(), settings, to_save);
        }
    }

    /// The template has come: a frequency list is asked for when the template has one;
    /// otherwise the frequency list stays empty and the grammar file is next, if any.
    pub fn template_received(
        &mut self,
        details: TemplateDetails,
        settings: &mut Settings,
        to_save: &mut ToSave,
    )
        requires
            old(self).stage == InstallStage::AwaitTemplate,
        ensures
            template_step(*old(self), *final(self), details, *old(settings), *final(settings), *old(to_save), *final(to_save)),
    {
        let wants_list = details.frequency_list;
        self.details = Some(details);
        if wants_list {
            self.stage = InstallStage::AwaitFrequencyList;
        } else {
            self.frequency_list = String::new();
            self.after_frequency_list(settings, to_save);
        }
    }

    /// The frequency list is in place at `path`: the grammar file is next when the template
    /// has one; otherwise the language is recorded with an empty grammar.
    pub fn frequency_list_ready(&mut self, path: String, settings: &mut Settings, to_save: &mut ToSave)
        requires
            old(self).stage == InstallStage::AwaitFrequencyList,
            old(self).details.is_some(),
        ensures
            frequency_list_step(*old(self), *final(self), path, *old(settings), *final(settings), *old(to_save), *final(to_save)),
    {
        self.frequency_list = path;
        self.after_frequency_list(settings, to_save);
    }

    /// The grammar file has come: the language is recorded.
    pub fn grammar_received(&mut self, grammar: String, settings: &mut Settings, to_save: &mut ToSave)
        requires
            old(self).stage == InstallStage::AwaitGrammar,
            old(self).details.is_some(),
        ensures
            grammar_step(*old(self), *final(self), grammar, *old(settings), *final(settings), *old(to_save), *final(to_save)),
    {
        self.finish(grammar, settings, to_save);
    }
}

} // verus!
