//! A parser-combinator engine over text, a recursive-descent parser for a
//! small XML-like markup language assembled from it, and a file/folder tree
//! searched through one component interface.

pub mod chars;
pub mod combinators;
pub mod composite;
pub mod element;
pub mod grammar;
pub mod input;
pub mod laws;
pub mod parser;
pub mod primitives;
