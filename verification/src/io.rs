//! Writing arrays to storage formats.

pub mod parquet;
