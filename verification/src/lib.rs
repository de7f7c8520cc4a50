//! In-memory columnar arrays with bit-packed validity, offset-delimited
//! nested containers, and a page encoder for variable-length binary columns.

pub mod array;
pub mod arrow;
pub mod bitmap;
pub mod buffer;
pub mod datatypes;
pub mod error;
pub mod io;
pub mod offset;
mod shared;
pub mod types;
