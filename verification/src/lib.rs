//! Client-side logic for talking to AI command-line agents.

pub mod text;
pub mod json;
pub mod session;
pub mod acp;
pub mod api;
pub mod cli;

pub use api::{AnalyzeOptions, Backend, OutputFormat, UsageMode};
