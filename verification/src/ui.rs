//! The state of the reader and what it puts on the screen.

pub mod app;
pub mod app_laws;
pub mod app_search;
pub mod app_text;
pub mod flags;
pub mod highlight;
pub mod key_laws;
pub mod keys;
pub mod layout;
pub mod screen;
pub mod screen_laws;
pub mod search_laws;
pub mod status;
pub mod toc_laws;
pub mod toc_panel;
pub mod toc_parsing;
