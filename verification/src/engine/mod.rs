//! The storage engine: configuration, flush, compaction and caches.

pub mod background;
pub mod cache;
pub mod codec;
pub mod compaction;
pub mod config;
pub mod data_file;
pub mod flush;
pub mod rowspan;
pub mod stats;
