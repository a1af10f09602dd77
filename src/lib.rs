//! Parsing of a compact keyboard notation (`a`, `B`, `<C-a>`, `<M-C-B>`, `\-`)
//! into key names and modifier flags.
//!
//! A notation string is split into tokens (single characters, escaped
//! characters and `<...>` groups), and each token is resolved into a [`Key`]:
//! a [`KeyName`] from a fixed table of spellings and its [`Modifiers`].

mod chars;
pub mod error;
pub mod key;
pub mod laws;
pub mod parse;
pub mod split;

pub use error::Error;
pub use key::{Key, KeyName, Keys, Modifiers};
pub use parse::{parse_key, parse_keys};
pub use split::{split_keys, split_modifiers};
