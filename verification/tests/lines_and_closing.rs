use kalba::error::KalbaError;
use kalba::lines::text_lines;
use kalba::model::{LanguageSettings, LanguageSpecificToSave, Settings, ToSave};
use kalba::state::SharedInfo;
use kalba::templates::new_language_from_template;
use kalba::time::{SessionLength, Timestamp};

fn std_lines(text: &str) -> Vec<String> {
    text.lines().map(|l| l.to_string()).collect()
}

#[test]
fn text_lines_splits_like_std() {
    let samples = [
        "",
        "\n",
        "a",
        "a\n",
        "a\r\n",
        "a\n\nb",
        "foo\nbar\n\r\nbaz\r",
        "\r",
        "x\r\r\ny",
        "äö\nü€\r\n𝄞",
        "\n\n\n",
    ];
    for s in samples {
        assert_eq!(text_lines(s), std_lines(s), "text {:?}", s);
    }
}

#[test]
fn text_lines_exact_values() {
    assert_eq!(text_lines("foo\nbar\n\r\nbaz\r"), vec!["foo", "bar", "", "baz\r"]);
    assert!(text_lines("").is_empty());
    assert_eq!(text_lines("\n"), vec![""]);
    assert_eq!(text_lines("eins\r\nzwei"), vec!["eins", "zwei"]);
}

fn open_state() -> SharedInfo {
    let mut settings = Settings::blank();
    settings.languages.insert("german".to_string(), LanguageSettings::blank());
    let mut info = SharedInfo::from_loaded(Ok(ToSave::empty()), Ok(settings), Timestamp { secs: 100, nanos: 0 });
    info.to_save.language_specific.insert("german".to_string(), LanguageSpecificToSave::empty());
    info
}

#[test]
fn close_session_with_refusals() {
    let mut info = open_state();
    assert_eq!(info.close_session_with(Timestamp { secs: 99, nanos: 999_999_999 }), None);
    assert_eq!(info.to_save.sessions[0].1, SessionLength { secs: 0, nanos: 0 });
    assert_eq!(info.close_session_with(Timestamp { secs: 101, nanos: 2_000_000_000 }), None);
    let mut empty = open_state();
    empty.to_save.sessions.clear();
    assert_eq!(empty.close_session_with(Timestamp { secs: 200, nanos: 0 }), None);
    assert_eq!(empty.close_session(), None);
    let mut bad_start = open_state();
    bad_start.to_save.sessions[0].0 = Timestamp { secs: i64::MAX, nanos: 0 };
    assert_eq!(bad_start.close_session_with(Timestamp { secs: 200, nanos: 0 }), None);
    assert_eq!(bad_start.close_session(), None);
}

#[test]
fn close_session_with_closes() {
    let mut info = open_state();
    assert_eq!(info.close_session_with(Timestamp { secs: 160, nanos: 5 }), Some(true));
    assert_eq!(info.to_save.last_language.as_deref(), Some("german"));
    assert_eq!(info.to_save.sessions[0].1, SessionLength { secs: 60, nanos: 5 });
    let mut off = SharedInfo::from_loaded(Ok(ToSave::empty()), Err(KalbaError::NoModelHandler), Timestamp { secs: 1, nanos: 0 });
    assert_eq!(off.close_session_with(Timestamp { secs: 0, nanos: 0 }), Some(false));
    assert!(!off.can_save);
}

#[test]
fn install_ignores_case() {
    let mut s1 = Settings::blank();
    s1.languages.insert("german".to_string(), LanguageSettings::blank());
    let mut t1 = ToSave::empty();
    let mut s2 = Settings::blank();
    s2.languages.insert("german".to_string(), LanguageSettings::blank());
    let mut t2 = ToSave::empty();
    let a = new_language_from_template(&mut s1, &mut t1, &"GERMAN".to_string());
    let b = new_language_from_template(&mut s2, &mut t2, &"German".to_string());
    assert_eq!((a.language.clone(), a.name.clone(), a.stage), (b.language.clone(), b.name.clone(), b.stage));
    assert_eq!(s1.languages.keys(), s2.languages.keys());
}
