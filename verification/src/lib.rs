//! A recursive-descent parser for propositional formulas.
//!
//! The input language has single-character variables, prefix negation `!`,
//! the right-associative binary operators `&`, `|` and `->` (from the tightest
//! to the loosest), and parentheses. Spaces are ignored. A parse yields a
//! [`TreeNode`], which renders back to a fully parenthesised string.
//!
//! The modules, from the bottom up:
//!
//! - [`chars`]: what is taken on trust from the standard library;
//! - [`tree`]: the tree, its mathematical model [`Tree`] and its rendering;
//! - [`lexer`]: the input without its spaces;
//! - [`grammar`]: what the input parses to, as spec functions, and what
//!   holds of every parse;
//! - [`notation`]: how a formula is written, and that the grammar reads it
//!   back;
//! - [`parser`]: the executable parser, proved against the grammar.

pub mod chars;
pub mod grammar;
pub mod lexer;
pub mod notation;
pub mod parser;
pub mod tree;

pub use lexer::lexer;
pub use notation::check_marks;
pub use parser::{parse, parse_arithmetic, variable, Parser};
pub use tree::{Tree, TreeNode, AND, IMPLIES, NOT, OR};
