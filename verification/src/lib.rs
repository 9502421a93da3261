//! A library for reading serialized web fiction in a terminal: it extracts
//! fiction metadata, chapter lists and chapter body text from fetched pages,
//! and models the scrollable lists and the word-wrapped reading pane that a
//! terminal front end draws.

pub mod api;
pub mod dom;
pub mod errors;
pub mod extract;
pub mod flatten;
pub mod input;
pub mod list;
pub mod locator;
pub mod persist;
pub mod reading;
pub mod session;
pub mod text;
