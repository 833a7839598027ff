//! Zero-shot text classification: configuration, hypothesis template,
//! prediction model and the textual report, with machine-checked contracts.

pub mod config;
pub mod coverage;
pub mod prediction;
pub mod ranking;
pub mod report;
pub mod runner;
pub mod template;
