//! Statistics for introspection.

use vstd::prelude::*;

verus! {

/// Statistics of one file.
#[derive(Debug)]
pub struct FileStats {
    pub path: String,
    pub file_size: u64,
    pub num_rows: u64,
    pub seq_range: (u64, u64),
    pub has_dv: bool,
}

impl Clone for FileStats {
    fn clone(&self) -> (r: Self)
        ensures
            r.path@ == self.path@,
            r.file_size == self.file_size,
            r.num_rows == self.num_rows,
            r.seq_range == self.seq_range,
            r.has_dv == self.has_dv,
    {
        FileStats {
            path: self.path.clone(),
            file_size: self.file_size,
            num_rows: self.num_rows,
            seq_range: self.seq_range,
            has_dv: self.has_dv,
        }
    }
}

/// Statistics of one level.
#[derive(Clone, Debug)]
pub struct LevelStats {
    pub level: u8,
    pub file_count: usize,
    pub total_bytes: u64,
    pub total_rows: u64,
    pub files: Vec<FileStats>,
}

/// Statistics of the memtables.
#[derive(Clone, Debug)]
pub struct MemtableStats {
    pub active_size_bytes: usize,
    pub active_entry_count: u64,
    pub flush_threshold: usize,
    pub immutable_count: usize,
}

/// Statistics of the engine.
#[derive(Clone, Debug)]
pub struct EngineStats {
    pub snapshot_id: i64,
    pub current_seq: u64,
    pub levels: Vec<LevelStats>,
    pub memtable: MemtableStats,
}

} // verus!
