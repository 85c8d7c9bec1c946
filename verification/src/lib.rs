//! Parser and renderer for vim-like key notation such as `<C-a>`, `<S-Tab>` or `ZZ`.
//!
//! A [`Key`] is parsed from one token and a [`Keymap`] from a text of
//! tokens.  Tokens that are spelled differently but mean the same key give
//! equal keys, and each key is written back as one canonical token.

pub mod code;
pub mod debug;
pub mod error;
pub mod grammar;
pub mod key;
pub mod keymap;
pub mod laws;
pub mod modifier;
pub mod sequence;
pub mod text;

pub use code::{KeyCode, OutOfRange};
pub use error::Error;
pub use key::Key;
pub use keymap::Keymap;
pub use modifier::{KeyModifier, KeyModifiers};
