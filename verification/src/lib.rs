//! A formatter for Jinja templates.
//!
//! The formatter walks the direct children of a syntax tree and writes
//! each of them back with its own text, on a line of its own, indented by
//! the block statements passed so far. Runs of expressions stay on one
//! line.
//!
//! * [`keyword`], [`indent`], [`node`]: the data the formatter works on.
//! * [`layout`]: what the formatted text is, and the functions that
//!   classify a node and produce the text.
//! * [`laws`]: what is proved of every layout.
//! * [`cst`], [`parse`]: parsing with tree-sitter.
//! * [`page`], [`service`]: the two operations of the formatting service.

pub mod cst;
pub mod error;
pub mod indent;
pub mod keyword;
pub mod laws;
pub mod layout;
pub mod node;
pub mod page;
pub mod parse;
pub mod service;
pub mod text;
