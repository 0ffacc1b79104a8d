//! Line-oriented text tools with machine-checked contracts.
//!
//! `cat` holds the line formatter and the run driver of a text
//! concatenation tool, `head` the option handling of a tool that prints
//! the first part of its inputs, and `echo` the text that echoing words
//! prints.

pub mod cat;
pub mod echo;
pub mod head;
pub mod strings;
