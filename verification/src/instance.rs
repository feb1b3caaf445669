//! The settings file of a reader instance.

pub mod app;
pub mod settings;
