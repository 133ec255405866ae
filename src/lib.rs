//! Cloud resource linting: a small rule language, its parser, and the
//! evaluation of parsed rules against resource descriptions.

pub mod text;
pub mod rules;
pub mod parser;
pub mod azurerm;
pub mod compliance;
