//! The editing logic of the terminal interface: the input line with its history, the list of
//! suggestions, and wrapping output to the terminal's width.

pub mod autocomplete;
pub mod input;
pub mod wrap;

pub use autocomplete::Autocomplete;
pub use input::{Input, Key};
pub use wrap::wrap;
