//! Semantic analysis: types, symbols and scopes, diagnostics, dependencies.
pub mod types;
pub mod symbol;
pub mod program;
pub mod scope;
pub mod diagnostics;
pub mod resolver;
pub mod type_checker;
pub mod bytecode_validator;
pub mod conflict_detector;
pub mod analyzer;
pub mod dependency_graph;
