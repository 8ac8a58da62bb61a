//! Leveled compaction.

pub mod job;
pub mod picker;
