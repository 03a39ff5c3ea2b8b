//! The data the application keeps: word knowledge per language, the saved session
//! record and the settings of each language.

use vstd::prelude::*;
use crate::str_map::StrMap;
use crate::time::{SessionLength, Timestamp};

verus! {

/// How a word's rating came about.
#[derive(Clone, Copy, Debug, PartialEq, Eq, Structural)]
pub enum Method {
    FromAnki,
    FromSeen,
    Specified,
    FromFrequency,
}

/// One change of a word's rating: when, how, and the rating it got.
pub type RatingChange = (Timestamp, Method, i8);

/// What is known of a word: its rating, how it got it, and every rating it had.
#[derive(Debug)]
pub struct WordInfo {
    pub rating: i8,
    pub method: Method,
    pub history: Vec<RatingChange>,
}

/// A word's knowledge as plain values.
pub struct WordInfoView {
    pub rating: i8,
    pub method: Method,
    pub history: Seq<RatingChange>,
}

impl View for WordInfo {
    type V = WordInfoView;

    open spec fn view(&self) -> WordInfoView {
        WordInfoView { rating: self.rating, method: self.method, history: self.history@ }
    }
}

impl WordInfo {
    /// A word first rated `rating` by `method` at `now`, with that rating as its only history.
    pub fn first_rated(rating: i8, method: Method, now: Timestamp) -> (w: WordInfo)
        ensures
            w.rating == rating,
            w.method == method,
            w.history@ == seq![(now, method, rating)],
    {
        WordInfo { rating, method, history: vec![(now, method, rating)] }
    }
}

/// A looked-up definition, or the message of the failure to look it up.
pub type CachedDefinition = Result<String, String>;

/// What is saved of one language between sessions.
#[derive(Debug)]
pub struct LanguageSpecificToSave {
    pub words: StrMap<WordInfo>,
    pub cached_defs: StrMap<Vec<CachedDefinition>>,
    pub previous_file: Option<String>,
    pub previous_amount: usize,
    pub words_seen: Vec<(Timestamp, usize)>,
    pub lemmas_to_replace: StrMap<String>,
}

impl LanguageSpecificToSave {
    /// Nothing saved yet: no words, no definitions, no frequency list read.
    pub open spec fn is_empty_record(&self) -> bool {
        &&& self.words@ == Map::<Seq<char>, WordInfo>::empty()
        &&& self.cached_defs@ == Map::<Seq<char>, Vec<CachedDefinition>>::empty()
        &&& self.previous_file.is_none()
        &&& self.previous_amount == 0
        &&& self.words_seen@ == Seq::<(Timestamp, usize)>::empty()
        &&& self.lemmas_to_replace@ == Map::<Seq<char>, String>::empty()
    }

    /// An empty record.
    pub fn empty() -> (r: LanguageSpecificToSave)
        ensures
            r.is_empty_record(),
    {
        LanguageSpecificToSave {
            words: StrMap::new(),
            cached_defs: StrMap::new(),
            previous_file: None,
            previous_amount: 0,
            words_seen: Vec::new(),
            lemmas_to_replace: StrMap::new(),
        }
    }
}

impl Default for LanguageSpecificToSave {
    fn default() -> (r: LanguageSpecificToSave)
        ensures
            r.is_empty_record(),
    {
        LanguageSpecificToSave::empty()
    }
}

/// What is saved between sessions.
#[derive(Debug)]
pub struct ToSave {
    pub last_launched: Timestamp,
    pub last_language: Option<String>,
    pub decks_checked: Vec<String>,
    pub language_specific: StrMap<LanguageSpecificToSave>,
    pub sessions: Vec<(Timestamp, SessionLength)>,
}

impl ToSave {
    /// Nothing saved yet; last launched at the Unix epoch.
    pub open spec fn is_empty_record(&self) -> bool {
        &&& self.last_launched == Timestamp { secs: 0, nanos: 0 }
        &&& self.last_language.is_none()
        &&& self.decks_checked@ == Seq::<String>::empty()
        &&& self.language_specific@ == Map::<Seq<char>, LanguageSpecificToSave>::empty()
        &&& self.sessions@ == Seq::<(Timestamp, SessionLength)>::empty()
    }

    /// An empty record.
    pub fn empty() -> (r: ToSave)
        ensures
            r.is_empty_record(),
    {
        ToSave {
            last_launched: Timestamp { secs: 0, nanos: 0 },
            last_language: None,
            decks_checked: Vec::new(),
            language_specific: StrMap::new(),
            sessions: Vec::new(),
        }
    }
}

impl Default for ToSave {
    fn default() -> (r: ToSave)
        ensures
            r.is_empty_record(),
    {
        ToSave::empty()
    }
}

/// A dictionary that a language looks words up in.
#[derive(Debug)]
pub struct Dictionary {
    pub name: String,
    pub location: String,
}

/// How one note type of an Anki deck gives the word that a card teaches.
#[derive(Debug)]
pub struct NoteParser {
    pub field_to_use: String,
    pub remove_everything_in_parens: bool,
    pub only_first: bool,
}

/// How each note type of an Anki deck is read, by the note type's name.
#[derive(Debug)]
pub struct DeckParser(pub StrMap<NoteParser>);

/// The settings of one language.
#[derive(Debug)]
pub struct LanguageSettings {
    pub model: String,
    pub frequency_list: String,
    pub words_known_by_freq: usize,
    pub dicts: Vec<Dictionary>,
    pub grammar_parser: String,
    pub run_on_lemmas: Vec<String>,
    pub suggest_on_lemmas: Vec<String>,
    pub anki_parser: StrMap<DeckParser>,
}

impl LanguageSettings {
    /// Settings with every text empty, every list empty, and no words known by frequency.
    pub open spec fn is_blank(&self) -> bool {
        &&& self.model@ == Seq::<char>::empty()
        &&& self.frequency_list@ == Seq::<char>::empty()
        &&& self.words_known_by_freq == 0
        &&& self.dicts@ == Seq::<Dictionary>::empty()
        &&& self.grammar_parser@ == Seq::<char>::empty()
        &&& self.run_on_lemmas@ == Seq::<String>::empty()
        &&& self.suggest_on_lemmas@ == Seq::<String>::empty()
        &&& self.anki_parser@ == Map::<Seq<char>, DeckParser>::empty()
    }

    /// Blank settings.
    pub fn blank() -> (s: LanguageSettings)
        ensures
            s.is_blank(),
    {
        LanguageSettings {
            model: String::new(),
            frequency_list: String::new(),
            words_known_by_freq: 0,
            dicts: Vec::new(),
            grammar_parser: String::new(),
            run_on_lemmas: Vec::new(),
            suggest_on_lemmas: Vec::new(),
            anki_parser: StrMap::new(),
        }
    }
}

impl Default for LanguageSettings {
    fn default() -> (s: LanguageSettings)
        ensures
            s.is_blank(),
    {
        LanguageSettings::blank()
    }
}

/// The application's settings.
#[derive(Debug)]
pub struct Settings {
    pub languages: StrMap<LanguageSettings>,
    pub dark_mode: bool,
    pub to_run: Option<Vec<String>>,
}

impl Settings {
    /// No languages, light mode, nothing to run at start.
    pub open spec fn is_blank(&self) -> bool {
        &&& self.languages@ == Map::<Seq<char>, LanguageSettings>::empty()
        &&& !self.dark_mode
        &&& self.to_run.is_none()
    }

    /// Blank settings.
    pub fn blank() -> (s: Settings)
        ensures
            s.is_blank(),
    {
        Settings { languages: StrMap::new(), dark_mode: false, to_run: None }
    }
}

impl Default for Settings {
    fn default() -> (s: Settings)
        ensures
            s.is_blank(),
    {
        Settings::blank()
    }
}

} // verus!
