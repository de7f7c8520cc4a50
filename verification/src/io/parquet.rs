//! The Parquet format: pages of column data.

pub mod read;
pub mod write;
