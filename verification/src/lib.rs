//! Structural outlines of Java classes.
//!
//! A Java source is parsed into a concrete syntax tree, and a depth-first
//! walk over the tree fills a class model: package, name, interfaces,
//! fields, imports and nested classes. What the walk does not know it
//! reports and skips; a structure that the model cannot hold ends it with
//! an error.
//!
//! - [`text`]: comparing labels, resolving byte ranges to substrings.
//! - [`syntax`]: syntax trees as plain values.
//! - [`parser`]: syntax trees from source text.
//! - [`grammar`]: the grammar categories and the dispatch on them.
//! - [`model`]: the class model.
//! - [`report`]: diagnostics and errors.
//! - [`rules`]: what the extraction computes, as mathematics.
//! - [`extract`]: the extraction itself.
//! - [`laws`]: what holds of every extraction.
//! - [`render`]: the class models as text.
//! - [`sources`]: where the sources lie.

pub mod extract;
pub mod grammar;
pub mod laws;
pub mod model;
pub mod parser;
pub mod render;
pub mod report;
pub mod rules;
pub mod sources;
pub mod syntax;
pub mod text;
