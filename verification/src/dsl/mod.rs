//! The diagram description language: commands and their parser.
pub mod command;
pub mod parser;
pub mod values;

pub use parser::parse;
