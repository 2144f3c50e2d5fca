//! A small dynamically-typed Lisp: a lexer and parser that turn source text
//! into a tree of actions, and a tree-walking evaluator over lexical scopes,
//! closures, persistent lists, a two-level numeric tower and objects with
//! method dispatch.
//!
//! Every type has a mathematical view, and every function states what it
//! computes over those views. The evaluator is proved to compute exactly the
//! semantics written down in [`semantics`].

pub mod action;
pub mod error;
pub mod laws;
pub mod location;
pub mod model;
pub mod parser;
pub mod prelude;
pub mod semantics;
pub mod state;
pub mod text;
pub mod value;
