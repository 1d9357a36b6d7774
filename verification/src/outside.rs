//! Calls into outside crates, each behind a function whose contract says what
//! is relied on.
pub mod digest;
pub mod headers;
pub mod images;
pub mod json;
pub mod shell;
pub mod unicode;
pub mod web;
