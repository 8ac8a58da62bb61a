//! Parquet-side structures.

pub mod bloom;
