//! The word-level parser of typed commands: words, the raw command they make up, and the
//! commands recognised from it.

pub mod command;
pub mod syntax;

pub use command::RawCommand;
pub use syntax::{Noun, Verb, Word};
