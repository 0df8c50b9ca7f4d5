//! Validation of hierarchical INI files against a template written in the
//! same format.
pub mod model;
pub mod numbers;
pub mod ordinal;
pub mod outside;
pub mod reader;
pub mod text;
pub mod types;
pub mod validate;
