//! Memory of the memtable.

pub mod arena;
