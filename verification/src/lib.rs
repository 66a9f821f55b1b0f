//! The verified core of a desktop translation assistant.

pub mod api;
pub mod app;
pub mod config;
pub mod display;
pub mod json;
pub mod language;
pub mod laws;
pub mod text;
