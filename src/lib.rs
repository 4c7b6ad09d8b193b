//! A batch source-code scanning engine: file discovery decisions, per-file
//! profiling, line-oriented pattern matching, grammar-based structural
//! extraction and rule validation, each stated and proved over plain values.

pub mod language;
pub mod text;
pub mod discovery;
pub mod extract;
pub mod lines;
pub mod matcher;
pub mod profile;
pub mod validate;
