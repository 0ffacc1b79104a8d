//! Option handling for printing the first part of each input.

pub mod config;
pub mod parse;
