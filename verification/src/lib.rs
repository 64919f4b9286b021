//! A declarative command-line-argument parsing engine.
//!
//! A [`schema::Schema`] describes a set of named fields (type, optional
//! default, optional short alias, optional help text). The engine turns a raw
//! argument vector into either a fully populated set of typed values plus the
//! leftover positional arguments, or a structured parse error. It also renders
//! a column-aligned help listing from the same schema.

pub mod coerce;
pub mod laws;
pub mod numeric;
pub mod parser;
pub mod render;
pub mod schema;
pub mod value;
pub mod text;
pub mod tokenizer;
