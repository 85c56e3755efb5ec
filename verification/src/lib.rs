//! A verified recursive-descent parser for a small PCF-like expression
//! language with booleans, integers, pairs, lists, conditionals,
//! `let`-bindings, single-argument functions and application.
//!
//! The grammar is stated once, mathematically, as a family of spec
//! functions over byte sequences (`grammar`); the executable parser
//! (`parser`) is proved to return exactly what those spec functions
//! denote, for every input and every depth bound.

pub mod ast;
pub mod grammar;
pub mod parser;
