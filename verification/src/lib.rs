//! Formatting, renaming, and inspecting audio track metadata.
pub mod serato;
pub mod text;
pub mod numfmt;
pub mod bytes;
pub mod paths;
pub mod tags;
pub mod regexes;
pub mod unicode;
pub mod formatting;
pub mod formatter;
pub mod state;
pub mod statistics;
pub mod file_format;
pub mod fileformat;
pub mod user_config;
pub mod config;
pub mod cli_config;
pub mod genre;
pub mod utils;
pub mod track;
pub mod output;
pub mod renamer;
pub mod completion;
