//! Timestamped one-line notes: the record format, the note store's text, and
//! the state of the interactive list.

pub mod age;
pub mod annotation;
pub mod clock;
pub mod decimal;
pub mod store;
pub mod text;
pub mod ui;
