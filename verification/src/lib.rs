//! A small indentation-sensitive toy language, taken from source text to a
//! directly executable form in two verified stages:
//!
//! 1. parsing (`syntax_tree::parse`): source text becomes a [`syntax_tree::Module`],
//!    an ordered tree of functions whose call targets are still textual names;
//! 2. linking (`library::Library::link`): the textual call targets are resolved
//!    to dense integer handles, yielding an immutable [`library::Library`].
//!
//! The grammar itself is written down once, as specification functions in
//! [`grammar`]; the executable parser in [`parser`] is proved to return exactly
//! what the grammar derives, and to fail exactly when it derives nothing.
//! [`laws`] proves the grammar's indentation and full-consumption rules;
//! [`library`] states and proves what linking preserves, when it succeeds,
//! and what a failed link reports.

pub mod grammar;
pub mod laws;
pub mod library;
pub mod parser;
pub mod syntax_tree;
