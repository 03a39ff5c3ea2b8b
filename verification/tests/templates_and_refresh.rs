use kalba::model::{DeckParser, LanguageSettings, LanguageSpecificToSave, Settings, ToSave};
use kalba::refresh::{deck_checked, plan_anki_refresh, refresh_finished, set_word_knowledge_from_anki, RefreshStep};
use kalba::str_map::StrMap;
use kalba::templates::{new_language_from_template, start_install, InstallStage, TemplateAction, TemplateDetails};
use kalba::time::Timestamp;

fn details(frequency_list: bool, spyglys_details: bool) -> TemplateDetails {
    let mut replace = StrMap::new();
    replace.insert("ist".to_string(), "sein".to_string());
    TemplateDetails {
        model: "de_core".to_string(),
        dicts: Vec::new(),
        frequency_list,
        spyglys_details,
        run_on_lemmas: vec!["x".to_string()],
        suggest_on_lemmas: vec!["y".to_string()],
        replace_lemmas: replace,
    }
}

#[test]
fn custom_language_is_added_at_once() {
    let mut settings = Settings::blank();
    let mut saved = ToSave::empty();
    let install = new_language_from_template(&mut settings, &mut saved, &"Custom".to_string());
    assert_eq!(install.stage, InstallStage::Finished);
    assert_eq!(install.name, "custom");
    assert!(settings.languages.contains_key(&"custom".to_string()));
    assert!(saved.language_specific.contains_key(&"custom".to_string()));
    let again = new_language_from_template(&mut settings, &mut saved, &"CUSTOM".to_string());
    assert_eq!(again.name, "custom 2");
    assert_eq!(settings.languages.len(), 2);
    assert!(matches!(again.next_action(), TemplateAction::Done));
}

#[test]
fn template_with_everything() {
    let mut settings = Settings::blank();
    settings.languages.insert("german".to_string(), LanguageSettings::blank());
    let mut saved = ToSave::empty();
    let mut install = new_language_from_template(&mut settings, &mut saved, &"German".to_string());
    assert_eq!(install.language, "german");
    assert_eq!(install.name, "german 2");
    assert_eq!(install.stage, InstallStage::AwaitTemplate);
    match install.next_action() {
        TemplateAction::FetchTemplate { url } => assert_eq!(
            url,
            "https://raw.githubusercontent.com/brewingweasel/kalba/main/data/language_templates/german.toml"
        ),
        other => panic!("unexpected {:?}", other),
    }
    install.template_received(details(true, true), &mut settings, &mut saved);
    assert_eq!(install.stage, InstallStage::AwaitFrequencyList);
    match install.next_action() {
        TemplateAction::ProvideFrequencyList { file_name, url } => {
            assert_eq!(file_name, "german_frequency");
            assert_eq!(url, "https://raw.githubusercontent.com/brewingweasel/kalba/main/data/frequency_lists/german");
        }
        other => panic!("unexpected {:?}", other),
    }
    install.frequency_list_ready("/data/german_frequency".to_string(), &mut settings, &mut saved);
    assert_eq!(install.stage, InstallStage::AwaitGrammar);
    match install.next_action() {
        TemplateAction::FetchGrammar { url } => assert_eq!(
            url,
            "https://raw.githubusercontent.com/brewingweasel/kalba/main/data/spyglys/german.spyglys"
        ),
        other => panic!("unexpected {:?}", other),
    }
    assert_eq!(settings.languages.len(), 1);
    install.grammar_received("rules".to_string(), &mut settings, &mut saved);
    assert_eq!(install.stage, InstallStage::Finished);
    let lang = settings.languages.get(&"german 2".to_string()).unwrap();
    assert_eq!(lang.model, "de_core");
    assert_eq!(lang.frequency_list, "/data/german_frequency");
    assert_eq!(lang.grammar_parser, "rules");
    assert_eq!(lang.run_on_lemmas, vec!["x"]);
    let record = saved.language_specific.get(&"german 2".to_string()).unwrap();
    assert_eq!(record.lemmas_to_replace.get(&"ist".to_string()).unwrap(), "sein");
}

#[test]
fn template_without_extras_finishes_on_arrival() {
    let mut settings = Settings::blank();
    let mut saved = ToSave::empty();
    let mut install = new_language_from_template(&mut settings, &mut saved, &"Latin".to_string());
    install.template_received(details(false, false), &mut settings, &mut saved);
    assert_eq!(install.stage, InstallStage::Finished);
    let lang = settings.languages.get(&"latin".to_string()).unwrap();
    assert_eq!(lang.frequency_list, "");
    assert_eq!(lang.grammar_parser, "");
}

#[test]
fn template_with_grammar_only() {
    let mut settings = Settings::blank();
    let mut saved = ToSave::empty();
    let mut install = new_language_from_template(&mut settings, &mut saved, &"Greek".to_string());
    install.template_received(details(false, true), &mut settings, &mut saved);
    assert_eq!(install.stage, InstallStage::AwaitGrammar);
    install.grammar_received("g".to_string(), &mut settings, &mut saved);
    assert_eq!(settings.languages.get(&"greek".to_string()).unwrap().grammar_parser, "g");
}

fn language(frequency_list: &str, known: usize, decks: &[&str]) -> LanguageSettings {
    let mut l = LanguageSettings::blank();
    l.frequency_list = frequency_list.to_string();
    l.words_known_by_freq = known;
    for d in decks {
        l.anki_parser.insert(d.to_string(), DeckParser(StrMap::new()));
    }
    l
}

fn describe(steps: &[RefreshStep]) -> Vec<String> {
    steps
        .iter()
        .map(|s| match s {
            RefreshStep::CheckDeck { language, deck, days, all_cards } => {
                format!("deck {language} {deck} {days} {all_cards}")
            }
            RefreshStep::ReadFrequencyList { language, file, words_known } => {
                format!("freq {language} {file} {words_known}")
            }
        })
        .collect()
}

#[test]
fn refresh_plan_in_order() {
    let mut languages = StrMap::new();
    languages.insert("german".to_string(), language("de.txt", 100, &["Deutsch", "Shared"]));
    languages.insert("dutch".to_string(), language("nl.txt", 50, &["Shared"]));
    let mut saved = ToSave::empty();
    saved.decks_checked.push("Deutsch".to_string());
    let mut dutch = LanguageSpecificToSave::empty();
    dutch.previous_file = Some("nl.txt".to_string());
    dutch.previous_amount = 50;
    saved.language_specific.insert("dutch".to_string(), dutch);
    let now = Timestamp { secs: 3 * 86_400 + 10, nanos: 0 };
    let steps = plan_anki_refresh(&mut saved, &languages, now);
    assert_eq!(
        describe(&steps),
        vec![
            "deck german Deutsch 5 false",
            "deck german Shared 5 true",
            "freq german de.txt 100",
            "deck dutch Shared 5 false",
        ]
    );
    assert_eq!(saved.decks_checked, vec!["Deutsch"]);
    assert_eq!(saved.last_launched, Timestamp { secs: 0, nanos: 0 });
    let german = saved.language_specific.get(&"german".to_string()).unwrap();
    assert_eq!(german.previous_file.as_deref(), Some("de.txt"));
    assert_eq!(german.previous_amount, 100);
    for step in &steps {
        if let RefreshStep::CheckDeck { deck, .. } = step {
            deck_checked(&mut saved, deck.clone());
        }
    }
    refresh_finished(&mut saved, now);
    assert_eq!(saved.decks_checked, vec!["Deutsch", "Deutsch", "Shared", "Shared"]);
    assert_eq!(saved.last_launched, now);
    let again = plan_anki_refresh(&mut saved, &languages, now);
    assert_eq!(
        describe(&again),
        vec!["deck german Deutsch 2 false", "deck german Shared 2 false", "deck dutch Shared 2 false"]
    );
}

#[test]
fn refresh_rereads_changed_amount() {
    let mut languages = StrMap::new();
    languages.insert("dutch".to_string(), language("nl.txt", 60, &[]));
    let mut saved = ToSave::empty();
    let mut dutch = LanguageSpecificToSave::empty();
    dutch.previous_file = Some("nl.txt".to_string());
    dutch.previous_amount = 50;
    saved.language_specific.insert("dutch".to_string(), dutch);
    let plan = set_word_knowledge_from_anki(&mut saved, &languages).expect("clock readable");
    assert_eq!(describe(&plan.steps), vec!["freq dutch nl.txt 60"]);
    assert!(plan.now.secs > 0);
    assert_eq!(saved.last_launched, Timestamp { secs: 0, nanos: 0 });
    assert_eq!(saved.language_specific.get(&"dutch".to_string()).unwrap().previous_amount, 60);
}

#[test]
fn failed_deck_check_is_checked_in_full_again() {
    let mut languages = StrMap::new();
    languages.insert("german".to_string(), language("de.txt", 0, &["Deutsch", "Extra"]));
    let mut saved = ToSave::empty();
    let now = Timestamp { secs: 86_400, nanos: 0 };
    let steps = plan_anki_refresh(&mut saved, &languages, now);
    assert_eq!(
        describe(&steps),
        vec!["deck german Deutsch 3 true", "deck german Extra 3 true", "freq german de.txt 0"]
    );
    deck_checked(&mut saved, "Deutsch".to_string());
    let again = plan_anki_refresh(&mut saved, &languages, now);
    assert_eq!(describe(&again), vec!["deck german Deutsch 3 false", "deck german Extra 3 true"]);
    assert_eq!(saved.last_launched, Timestamp { secs: 0, nanos: 0 });
}

#[test]
fn finished_refresh_sets_last_launch() {
    let mut saved = ToSave::empty();
    let now = Timestamp { secs: 5_000, nanos: 7 };
    refresh_finished(&mut saved, now);
    assert_eq!(saved.last_launched, now);
    assert!(saved.decks_checked.is_empty());
}

#[test]
fn start_install_takes_the_name_as_given() {
    let mut settings = Settings::blank();
    let mut saved = ToSave::empty();
    let install = start_install(&mut settings, &mut saved, "custom".to_string());
    assert_eq!(install.stage, InstallStage::Finished);
    assert_eq!(install.name, "custom");
    assert!(saved.language_specific.contains_key(&"custom".to_string()));
    let upper = start_install(&mut settings, &mut saved, "Custom".to_string());
    assert_eq!(upper.stage, InstallStage::AwaitTemplate);
    assert_eq!(upper.name, "Custom");
    assert_eq!(settings.languages.len(), 1);
    let numbered = start_install(&mut settings, &mut saved, "custom".to_string());
    assert_eq!(numbered.name, "custom 2");
}

fn run_install(asked: &str) -> (Settings, ToSave) {
    let mut settings = Settings::blank();
    settings.languages.insert("german".to_string(), LanguageSettings::blank());
    let mut saved = ToSave::empty();
    saved.language_specific.insert("german".to_string(), LanguageSpecificToSave::empty());
    let mut install = new_language_from_template(&mut settings, &mut saved, &asked.to_string());
    install.template_received(details(true, true), &mut settings, &mut saved);
    assert!(saved.language_specific.contains_key(&"german".to_string()));
    install.frequency_list_ready("/lists/german".to_string(), &mut settings, &mut saved);
    install.grammar_received("rules".to_string(), &mut settings, &mut saved);
    assert_eq!(install.stage, InstallStage::Finished);
    (settings, saved)
}

#[test]
fn install_run_ignores_case_of_the_name() {
    let (sa, ta) = run_install("German");
    let (sb, tb) = run_install("GERMAN");
    assert_eq!(sa.languages.keys(), vec!["german", "german 2"]);
    assert_eq!(sa.languages.keys(), sb.languages.keys());
    assert_eq!(ta.language_specific.keys(), tb.language_specific.keys());
    let la = sa.languages.get(&"german 2".to_string()).unwrap();
    let lb = sb.languages.get(&"german 2".to_string()).unwrap();
    assert_eq!((&la.model, &la.frequency_list, &la.grammar_parser), (&lb.model, &lb.frequency_list, &lb.grammar_parser));
    for k in sa.languages.keys() {
        assert!(ta.language_specific.contains_key(&k));
    }
}
