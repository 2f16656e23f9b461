//! Core of a source-code intelligence tool: a call-site inlining transform
//! and a multi-source symbol search engine, both running as read-only
//! queries against request-local snapshots of a syntax tree and a
//! semantic model.

pub mod candidates;
pub mod edit_builder;
pub mod imports_locator;
pub mod inline_function;
pub mod query;
pub mod semantics;
pub mod syntax_tree;
pub mod text;
