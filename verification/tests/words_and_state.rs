use kalba::error::KalbaError;
use kalba::model::{LanguageSettings, LanguageSpecificToSave, Method, Settings, ToSave, WordInfo};
use kalba::state::{settle_load, SharedInfo};
use kalba::str_map::StrMap;
use kalba::time::{SessionLength, Timestamp};
use kalba::words::{apply_frequency_list, rating_or_seen, record_rating, update_words_known};

fn at(secs: i64) -> Timestamp {
    Timestamp { secs, nanos: 0 }
}

fn word(rating: i8, method: Method) -> WordInfo {
    WordInfo::first_rated(rating, method, at(1))
}

fn lines(ws: &[&str]) -> Vec<String> {
    ws.iter().map(|w| w.to_string()).collect()
}

#[test]
fn frequency_list_replaces_old_frequency_words() {
    let mut words = StrMap::new();
    words.insert("old".to_string(), word(5, Method::FromFrequency));
    words.insert("mine".to_string(), word(3, Method::Specified));
    words.insert("b".to_string(), word(2, Method::FromAnki));
    apply_frequency_list(&mut words, &lines(&["a", "b", "c", "d"]), 2, at(100));
    assert!(!words.contains_key(&"old".to_string()));
    assert_eq!(words.get(&"mine".to_string()).unwrap().rating, 3);
    let a = words.get(&"a".to_string()).unwrap();
    assert_eq!((a.rating, a.method), (5, Method::FromFrequency));
    assert_eq!(a.history, vec![(at(100), Method::FromFrequency, 5)]);
    let b = words.get(&"b".to_string()).unwrap();
    assert_eq!((b.rating, b.method), (5, Method::FromFrequency));
    assert!(!words.contains_key(&"c".to_string()));
    assert_eq!(words.len(), 3);
}

#[test]
fn frequency_list_shorter_than_amount() {
    let mut words = StrMap::new();
    apply_frequency_list(&mut words, &lines(&["x", "y"]), 10, at(5));
    assert_eq!(words.len(), 2);
    let mut words2 = StrMap::new();
    apply_frequency_list(&mut words2, &lines(&["x", "y"]), 0, at(5));
    assert_eq!(words2.len(), 0);
}

#[test]
fn frequency_list_from_text_splits_lines() {
    let mut words = StrMap::new();
    assert!(update_words_known(&mut words, "eins\r\nzwei\ndrei\n", 3));
    assert_eq!(words.keys(), vec!["eins", "zwei", "drei"]);
    assert_eq!(words.get(&"zwei".to_string()).unwrap().method, Method::FromFrequency);
}

#[test]
fn frequency_list_twice_changes_nothing_more() {
    let mut words = StrMap::new();
    words.insert("kept".to_string(), word(1, Method::FromSeen));
    let list = lines(&["p", "q"]);
    apply_frequency_list(&mut words, &list, 2, at(9));
    let first: Vec<(String, i8, Method)> = words.keys().into_iter().map(|k| {
        let w = words.get(&k).unwrap();
        (k.clone(), w.rating, w.method)
    }).collect();
    apply_frequency_list(&mut words, &list, 2, at(9));
    let second: Vec<(String, i8, Method)> = words.keys().into_iter().map(|k| {
        let w = words.get(&k).unwrap();
        (k.clone(), w.rating, w.method)
    }).collect();
    let mut first = first;
    let mut second = second;
    first.sort_by(|a, b| a.0.cmp(&b.0));
    second.sort_by(|a, b| a.0.cmp(&b.0));
    assert_eq!(first, second);
}

#[test]
fn unseen_word_rates_zero_and_is_recorded() {
    let mut words = StrMap::new();
    assert_eq!(rating_or_seen(&mut words, "neu".to_string(), at(7)), 0);
    let w = words.get(&"neu".to_string()).unwrap();
    assert_eq!((w.rating, w.method), (0, Method::FromSeen));
    assert_eq!(w.history, vec![(at(7), Method::FromSeen, 0)]);
    assert_eq!(rating_or_seen(&mut words, "neu".to_string(), at(8)), 0);
    assert_eq!(words.get(&"neu".to_string()).unwrap().history.len(), 1);
}

#[test]
fn recorded_rating_reads_back() {
    let mut words = StrMap::new();
    rating_or_seen(&mut words, "wort".to_string(), at(1));
    record_rating(&mut words, &"wort".to_string(), 4, false, at(2));
    assert_eq!(rating_or_seen(&mut words, "wort".to_string(), at(3)), 4);
    let w = words.get(&"wort".to_string()).unwrap();
    assert_eq!(w.method, Method::Specified);
    assert_eq!(w.history, vec![(at(1), Method::FromSeen, 0), (at(2), Method::Specified, 4)]);
    record_rating(&mut words, &"wort".to_string(), -1, true, at(3));
    let w = words.get(&"wort".to_string()).unwrap();
    assert_eq!((w.rating, w.method), (-1, Method::FromAnki));
}

fn settings_with(names: &[&str]) -> Settings {
    let mut s = Settings::blank();
    for n in names {
        s.languages.insert(n.to_string(), LanguageSettings::blank());
    }
    s
}

#[test]
fn startup_reports_only_non_file_failures() {
    let info = SharedInfo::from_loaded(
        Err(KalbaError::Io("no file".to_string())),
        Err(KalbaError::TomlDe("bad".to_string())),
        at(50),
    );
    assert_eq!(info.errors.len(), 1);
    assert!(matches!(info.errors[0], KalbaError::TomlDe(_)));
    assert!(!info.can_save);
    assert_eq!(info.to_save.sessions, vec![(at(50), SessionLength { secs: 0, nanos: 0 })]);
    assert_eq!(info.current_language, None);
    assert!(!info.settings.dark_mode);
}

#[test]
fn startup_picks_last_language_then_first_configured() {
    let mut saved = ToSave::empty();
    saved.last_language = Some("italian".to_string());
    let info = SharedInfo::from_loaded(Ok(saved), Ok(settings_with(&["spanish", "french"])), at(1));
    assert_eq!(info.current_language.as_deref(), Some("italian"));
    assert!(info.can_save);
    let info = SharedInfo::from_loaded(Ok(ToSave::empty()), Ok(settings_with(&["spanish", "french"])), at(1));
    assert_eq!(info.current_language.as_deref(), Some("spanish"));
}

#[test]
fn settle_load_falls_back() {
    let mut errors = Vec::new();
    assert_eq!(settle_load(Ok(3u8), 0, &mut errors), 3);
    assert_eq!(settle_load(Err(KalbaError::Io(String::new())), 9u8, &mut errors), 9);
    assert!(errors.is_empty());
    assert_eq!(settle_load(Err(KalbaError::NoModelHandler), 1u8, &mut errors), 1);
    assert_eq!(errors.len(), 1);
}

#[test]
fn startup_errors_are_handed_over_once() {
    let mut info = SharedInfo::from_loaded(Ok(ToSave::empty()), Err(KalbaError::TomlDe("x".to_string())), at(1));
    let first = info.check_startup_errors();
    assert!(matches!(first, Err(ref v) if v.len() == 1));
    assert!(info.check_startup_errors().is_ok());
}

fn reading_state() -> SharedInfo {
    let mut info = SharedInfo::from_loaded(Ok(ToSave::empty()), Ok(settings_with(&["german"])), at(1));
    info.to_save.language_specific.insert("german".to_string(), LanguageSpecificToSave::empty());
    info
}

#[test]
fn rating_in_current_language() {
    let mut info = reading_state();
    assert_eq!(info.rating_at("haus".to_string(), at(3)), 0);
    info.update_word_knowledge_at(&"haus".to_string(), 5, true, at(4));
    assert_eq!(info.rating_at("haus".to_string(), at(5)), 5);
    let entry = info.to_save.language_specific.get(&"german".to_string()).unwrap();
    let w = entry.words.get(&"haus".to_string()).unwrap();
    assert_eq!(w.method, Method::FromAnki);
    assert_eq!(w.history.len(), 2);
    assert_eq!(info.get_rating("baum".to_string()), Some(0));
    assert!(info.update_word_knowledge(&"baum".to_string(), 2, false));
    assert_eq!(info.get_rating("baum".to_string()), Some(2));
}

#[test]
fn languages_and_settings() {
    let mut info = SharedInfo::from_loaded(Ok(ToSave::empty()), Ok(settings_with(&["b", "a"])), at(1));
    assert_eq!(info.get_languages(), vec!["b", "a"]);
    assert_eq!(info.get_language().as_deref(), Some("b"));
    info.set_language("a".to_string());
    assert_eq!(info.get_language().as_deref(), Some("a"));
    let mut s = settings_with(&["c"]);
    s.dark_mode = true;
    info.write_settings(s);
    assert!(info.get_dark_mode());
    assert!(info.get_settings().languages.contains_key(&"c".to_string()));
}

#[test]
fn closing_records_language_and_session_length() {
    let mut info = reading_state();
    info.set_language("german".to_string());
    assert!(info.close_session_at(Timestamp { secs: 91, nanos: 500 }));
    assert_eq!(info.to_save.last_language.as_deref(), Some("german"));
    assert_eq!(info.to_save.sessions, vec![(at(1), SessionLength { secs: 90, nanos: 500 })]);
}

#[test]
fn closing_without_permission_saves_nothing() {
    let mut info = SharedInfo::from_loaded(Ok(ToSave::empty()), Err(KalbaError::TomlDe("x".to_string())), at(1));
    assert!(!info.close_session_at(at(2)));
    assert_eq!(info.to_save.sessions[0].1, SessionLength { secs: 0, nanos: 0 });
    assert_eq!(info.close_session(), Some(false));
}

#[test]
fn closing_now_after_start() {
    let mut info = reading_state();
    assert_eq!(info.close_session(), Some(true));
    let mut late = reading_state();
    late.to_save.sessions[0].0 = Timestamp { secs: 8_000_000_000_000, nanos: 0 };
    assert_eq!(late.close_session(), None);
}

#[test]
fn startup_plans_refresh_at_session_start() {
    let mut saved = ToSave::empty();
    saved.last_language = Some("german".to_string());
    let (info, plan) = SharedInfo::startup(Ok(saved), Ok(settings_with(&["german"]))).expect("clock readable");
    assert!(info.can_save);
    assert_eq!(info.current_language.as_deref(), Some("german"));
    assert_eq!(info.to_save.sessions, vec![(plan.now, SessionLength { secs: 0, nanos: 0 })]);
    assert!(info.to_save.language_specific.contains_key(&"german".to_string()));
    assert_eq!(info.to_save.last_launched, Timestamp { secs: 0, nanos: 0 });
    assert_eq!(plan.steps.len(), 1);
}

#[test]
fn failed_start_keeps_saving_off_through_commands() {
    let mut info = SharedInfo::from_loaded(Err(KalbaError::TomlDe("x".to_string())), Ok(settings_with(&["a"])), at(1));
    assert!(!info.can_save);
    info.set_language("a".to_string());
    info.write_settings(settings_with(&["b"]));
    assert!(info.check_startup_errors().is_err());
    assert!(info.check_startup_errors().is_ok());
    assert!(!info.can_save);
    assert_eq!(info.close_session(), Some(false));
    assert_eq!(info.to_save.sessions[0].1, SessionLength { secs: 0, nanos: 0 });
}

#[test]
fn frequency_list_again_later_keeps_words() {
    let mut words = StrMap::new();
    words.insert("kept".to_string(), word(1, Method::FromSeen));
    let list = lines(&["p", "q"]);
    apply_frequency_list(&mut words, &list, 2, at(9));
    apply_frequency_list(&mut words, &list, 2, at(20));
    assert_eq!(words.keys(), vec!["kept", "p", "q"]);
    let p = words.get(&"p".to_string()).unwrap();
    assert_eq!((p.rating, p.method), (5, Method::FromFrequency));
    assert_eq!(p.history, vec![(at(20), Method::FromFrequency, 5)]);
    assert_eq!(words.get(&"kept".to_string()).unwrap().rating, 1);
}
