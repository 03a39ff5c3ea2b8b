//! What can go wrong, as plain values.

use vstd::prelude::*;

verus! {

/// A failure of the application, with the message of whatever failed where it has one.
#[derive(Debug)]
pub enum KalbaError {
    Io(String),
    TomlSer(String),
    TomlDe(String),
    Tauri(String),
    Spyglys(String),
    SpyglysRuntime(String),
    MissingDir(String),
    AnkiNotAvailable,
    LanguageDetailsDownloading(String),
    NoModelHandler,
    AnkiConnectError(String),
}

/// The message that describes a failure: a failure passed on from elsewhere shows that
/// failure's own message; the others say what went wrong.
pub open spec fn error_message(e: KalbaError) -> Seq<char> {
    match e {
        KalbaError::Io(m) => m@,
        KalbaError::TomlSer(m) => m@,
        KalbaError::TomlDe(m) => m@,
        KalbaError::Tauri(m) => m@,
        KalbaError::Spyglys(m) => m@,
        KalbaError::SpyglysRuntime(m) => m@,
        KalbaError::MissingDir(d) => "No operating system "@ + d@ + " directory was found"@,
        KalbaError::AnkiNotAvailable => "Anki is not available. This may be because it is not open or ankiconnect is not installed."@,
        KalbaError::LanguageDetailsDownloading(m) => "Unable to download language details from github: "@ + m@,
        KalbaError::NoModelHandler => "The selected card has handler that fits its model"@,
        KalbaError::AnkiConnectError(m) => "Ankiconnect return an error: "@ + m@,
    }
}

impl KalbaError {
    /// The message that describes the failure.
    pub fn message(&self) -> (m: String)
        ensures
            m@ == error_message(*self),
    {
        match self {
            KalbaError::Io(m) => m.clone(),
            KalbaError::TomlSer(m) => m.clone(),
            KalbaError::TomlDe(m) => m.clone(),
            KalbaError::Tauri(m) => m.clone(),
            KalbaError::Spyglys(m) => m.clone(),
            KalbaError::SpyglysRuntime(m) => m.clone(),
            KalbaError::MissingDir(d) => "No operating system ".to_owned().concat(d.as_str()).concat(
                " directory was found",
            ),
            KalbaError::AnkiNotAvailable => {
                "Anki is not available. This may be because it is not open or ankiconnect is not installed.".to_owned()
            },
            KalbaError::LanguageDetailsDownloading(m) => {
                "Unable to download language details from github: ".to_owned().concat(m.as_str())
            },
            KalbaError::NoModelHandler => "The selected card has handler that fits its model".to_owned(),
            KalbaError::AnkiConnectError(m) => "Ankiconnect return an error: ".to_owned().concat(
                m.as_str(),
            ),
        }
    }

    /// Whether the failure is one of reading or writing a file.
    pub fn is_io(&self) -> (b: bool)
        ensures
            b == (*self is Io),
    {
        match self {
            KalbaError::Io(_) => true,
            _ => false,
        }
    }
}

} // verus!
