//! Static audit of `unsafe` usage and foreign-function boundaries in a
//! dependency graph, over a plain model of each compilation unit's syntax.
pub mod counts;
pub mod syntax;
pub mod extern_visitor;
pub mod unsafe_visitor;
pub mod find;
pub mod package;
pub mod aggregate;
