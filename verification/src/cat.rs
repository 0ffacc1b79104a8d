//! Concatenation of line-oriented inputs: configuration, per-line
//! formatting, the model of a whole run and the driver that realises it.

pub mod config;
pub mod format;
pub mod transcript;
pub mod driver;
pub mod run;
pub mod laws;
