//! What the operations of the library are for, as relations between what goes in and what comes
//! out.

pub mod app;
pub mod api;
pub mod config;
pub mod language;
pub mod stream;
pub mod text;
