//! merutable: the verified core of an LSM table engine that keeps its files
//! as Parquet and its state as Iceberg snapshots.

pub mod db;
pub mod engine;
pub mod iceberg;
pub mod json;
pub mod keyorder;
pub mod memtable;
pub mod migrate;
pub mod mirror;
pub mod options;
pub mod parquet;
pub mod paths;
pub mod replica;
pub mod sql;
pub mod store;
pub mod text;
pub mod textmap;
pub mod types;
pub mod wal;
pub mod wire;
