//! Weekly and daily markdown note planning: dates, file names, templates,
//! configuration sections, heading-aware insertion and output formatting.
pub mod text;
pub mod date;
pub mod markdown;
pub mod config;
pub mod options;
pub mod template;
pub mod output;
pub mod notes;
pub mod handlers;
pub mod commands;
pub mod init;
