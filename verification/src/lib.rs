//! A compiler from a small language with expressions, constants and
//! control structures to the line-numbered logic instructions of the game
//! Mindustry.
//!
//! [`syntax`] holds the syntax tree, the meaning of each of its
//! constructs, and the compiler that is proved to follow it;
//! [`tag_code`] resolves the tags of the compiled code to line numbers;
//! [`display_source`] writes the tree back as source text.

pub mod text;
pub mod tag_code;
pub mod display_source;
pub mod syntax;
