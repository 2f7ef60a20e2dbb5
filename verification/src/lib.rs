//! Reading RFC documents in a terminal: the document model, the table of
//! contents, the search and the state behind the screen.

pub mod pattern;
pub mod search;
pub mod startup;
pub mod std_text;
pub mod text;
pub mod text_laws;
pub mod types;
pub mod ui;
