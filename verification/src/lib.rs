//! Keal: the logic of a fast application launcher.
//!
//! The library parses configuration and `.desktop` files, speaks the line
//! protocol of launcher plugins, ranks and highlights fuzzy matches, and edits
//! the text of the search field. Its functions carry contracts that Verus
//! proves; the calls into `indexmap`, `nucleo-matcher` and a few functions of
//! std stand behind small trusted wrappers whose contracts are stated, not
//! proved.

pub mod assoc;
pub mod text;
pub mod index_map;
pub mod ini_parser;
pub mod config;
pub mod theme;
pub mod utf8_text;
pub mod text_input;
pub mod selection_input;
pub mod icon;
pub mod number;
pub mod plugin;
pub mod arguments;
pub mod xdg_utils;
pub mod navigation;
