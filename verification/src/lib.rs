//! Library side of a language-learning reader: the bookkeeping of word knowledge,
//! language settings and saved session data, kept apart from the windowing,
//! file and network plumbing of the application.

pub mod error;
pub mod laws;
pub mod lines;
pub mod model;
pub mod operation_laws;
pub mod naming;
pub mod refresh;
pub mod state;
pub mod str_map;
pub mod templates;
pub mod time;
pub mod words;
