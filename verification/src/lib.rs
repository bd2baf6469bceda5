//! A formatter for Pony source code.
//!
//! The crate parses Pony source with the tree-sitter Pony grammar and
//! re-emits it with canonical indentation and spacing.  The formatting
//! engine itself is a verified, total function over the syntax tree:
//! its output is pinned, character for character, to a mathematical
//! rendering function, so a given tree always formats to the same text.
#![verifier::loop_isolation(false)]

pub mod formatter;
pub mod parser;
pub mod state;
pub mod text;
pub mod tree;
