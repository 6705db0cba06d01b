//! Process-filter query engine, text width helpers and UI text for a terminal
//! system monitor.

pub mod disk_table;
pub mod localization;
pub mod query;
pub mod strings;
pub mod terminal;
pub mod text_width;
