//! Syntax-aware code analysis: languages and parsing, file shapes, symbol
//! lookup, usages, call graphs, dependencies and type extraction.
pub mod text;
pub mod paths;
pub mod project_root;
pub mod rows;
pub mod syntax;
pub mod parser;
pub mod analysis;
pub mod extraction;
