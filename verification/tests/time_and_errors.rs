use kalba::error::KalbaError;
use kalba::time::{
    days_to_look_back, session_length, SessionLength, Timestamp, EARLIEST_SECS,
    LATEST_SECS,
};

fn at(secs: i64, nanos: u32) -> Timestamp {
    Timestamp { secs, nanos }
}

#[test]
fn instant_range_matches_chrono() {
    assert!(chrono::DateTime::from_timestamp(LATEST_SECS, 999_999_999).is_some());
    assert!(chrono::DateTime::from_timestamp(LATEST_SECS + 1, 0).is_none());
    assert!(chrono::DateTime::from_timestamp(EARLIEST_SECS, 0).is_some());
    assert!(chrono::DateTime::from_timestamp(EARLIEST_SECS - 1, 999_999_999).is_none());
}

#[test]
fn look_back_adds_two_days_to_whole_days() {
    assert_eq!(days_to_look_back(at(0, 0), at(0, 0)), 2);
    assert_eq!(days_to_look_back(at(0, 0), at(86_399, 999_999_999)), 2);
    assert_eq!(days_to_look_back(at(0, 0), at(3 * 86_400, 0)), 5);
    assert_eq!(days_to_look_back(at(1_000, 500), at(1_000 + 10 * 86_400, 499)), 11);
}

#[test]
fn look_back_rounds_toward_zero_when_clock_went_back() {
    assert_eq!(days_to_look_back(at(86_400, 0), at(0, 1)), 2);
    assert_eq!(days_to_look_back(at(2 * 86_400, 0), at(0, 0)), 0);
    assert_eq!(days_to_look_back(at(3 * 86_400, 1), at(0, 0)), -1);
}

#[test]
fn session_length_is_exact() {
    assert_eq!(session_length(at(10, 900_000_000), at(12, 100_000_000)), SessionLength { secs: 1, nanos: 200_000_000 });
    assert_eq!(session_length(at(5, 5), at(5, 5)), SessionLength { secs: 0, nanos: 0 });
    assert_eq!(SessionLength::zero(), SessionLength { secs: 0, nanos: 0 });
}

#[test]
fn error_messages() {
    assert_eq!(KalbaError::Io("gone".to_string()).message(), "gone");
    assert_eq!(KalbaError::TomlDe("bad toml".to_string()).message(), "bad toml");
    assert_eq!(
        KalbaError::MissingDir("config".to_string()).message(),
        "No operating system config directory was found"
    );
    assert_eq!(
        KalbaError::AnkiNotAvailable.message(),
        "Anki is not available. This may be because it is not open or ankiconnect is not installed."
    );
    assert_eq!(
        KalbaError::LanguageDetailsDownloading("timeout".to_string()).message(),
        "Unable to download language details from github: timeout"
    );
    assert_eq!(KalbaError::NoModelHandler.message(), "The selected card has handler that fits its model");
    assert_eq!(KalbaError::AnkiConnectError("x".to_string()).message(), "Ankiconnect return an error: x");
    assert!(KalbaError::Io(String::new()).is_io());
    assert!(!KalbaError::NoModelHandler.is_io());
}
