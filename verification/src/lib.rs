//! Variable-resolution engine for dotenv files: a parser that turns raw file
//! text into name/value/documentation entries, a key-unique variable table,
//! a resolution pass that merges shell-inherited variables with file-derived
//! ones, and a projection of the table into completion candidates.
pub mod strutil;
pub mod table;
pub mod parser;
pub mod config;
pub mod pattern;
pub mod resolve;
pub mod completion;
