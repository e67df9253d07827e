//! Columnar chunk concatenation: merges an ordered list of column-oriented
//! record batches into one batch of the same schema, keeping row order and
//! logical types.
pub mod column;
pub mod builder;
pub mod lemmas;
pub mod number;
pub mod concat;
pub mod scalar;
pub mod chunk;
pub mod laws;
pub mod plans;
