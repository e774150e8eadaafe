//! Binary size inspection: command-line parsing, object section reports,
//! section diffs, Cargo manifest context and conservative shrink suggestions.

pub mod text;
pub mod limit;
pub mod cli;
pub mod sorting;
pub mod object_report;
pub mod diff;
pub mod cargo;
pub mod suggestions;
pub mod inspect;
pub mod attribution;
pub mod render;
