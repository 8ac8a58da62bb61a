//! Tuning parameters of an engine.

use vstd::prelude::*;
use vstd::string::*;

use crate::types::level::{FileFormat, Level};
use crate::types::schema::TableSchema;

verus! {

/// How a catalog makes a commit atomic.
#[derive(Debug, Clone, Copy, PartialEq, Eq, Structural)]
pub enum CommitMode {
    /// A local file system: write, sync, rename.
    Posix,
    /// An object store: create-only PUT of the next manifest.
    ObjectStore,
}

/// All tuning parameters of an engine.
#[derive(Debug, Clone)]
pub struct EngineConfig {
    pub schema: TableSchema,
    pub catalog_uri: String,
    pub object_store_prefix: String,
    pub wal_dir: String,
    /// Flush threshold in bytes.
    pub memtable_size_bytes: usize,
    /// Immutable memtables before writes stall.
    pub max_immutable_count: usize,
    /// Row cache capacity in rows; 0 disables the cache.
    pub row_cache_capacity: usize,
    /// Target bytes of level 1, level 2 and so on.
    pub level_target_bytes: Vec<u64>,
    /// Level 0 files that trigger a compaction.
    pub l0_compaction_trigger: usize,
    /// Level 0 files that slow writes down.
    pub l0_slowdown_trigger: usize,
    /// Level 0 files that stop writes.
    pub l0_stop_trigger: usize,
    /// Bits per key of the bloom filters.
    pub bloom_bits_per_key: u8,
    /// Bytes that one compaction writes before it splits its output.
    pub max_compaction_bytes: u64,
    pub flush_parallelism: usize,
    pub compaction_parallelism: usize,
    /// No log and no writes.
    pub read_only: bool,
    /// Seconds before files that a compaction replaced are deleted, so that
    /// readers of an older snapshot can finish.
    pub gc_grace_period_secs: u64,
    /// The deepest level whose files carry the row blob; `None` for none.
    pub dual_format_max_level: Option<u8>,
    /// How the catalog commits.
    pub commit_mode: CommitMode,
}

impl EngineConfig {
    /// The layout of a file that is written to a level.
    pub open spec fn format_for(&self, level: Level) -> FileFormat {
        if self.dual_format_max_level matches Some(max) && level.0 <= max {
            FileFormat::Dual
        } else {
            FileFormat::Columnar
        }
    }

    /// The layout of a file that is written to a level: with the row blob up
    /// to the configured level, without it beyond.
    pub fn file_format_for(&self, output_level: Level) -> (r: FileFormat)
        ensures
            r == self.format_for(output_level),
    {
        match self.dual_format_max_level {
            Some(max) => {
                if output_level.0 <= max {
                    FileFormat::Dual
                } else {
                    FileFormat::Columnar
                }
            },
            None => FileFormat::Columnar,
        }
    }
}

/// The default target bytes: 256 MiB, 2 GiB, 16 GiB and 128 GiB.
pub open spec fn default_targets() -> Seq<u64> {
    seq![0x1000_0000u64, 0x8000_0000u64, 0x4_0000_0000u64, 0x20_0000_0000u64]
}

impl Default for EngineConfig {
    fn default() -> (r: Self)
        ensures
            r.schema.table_name@ == Seq::<char>::empty(),
            r.schema.columns@.len() == 0,
            r.schema.primary_key@.len() == 0,
            r.catalog_uri@ == Seq::<char>::empty(),
            r.object_store_prefix@ == Seq::<char>::empty(),
            r.wal_dir@ == "./meru-wal"@,
            r.memtable_size_bytes == 64 * 1024 * 1024,
            r.max_immutable_count == 4,
            r.row_cache_capacity == 10_000,
            r.level_target_bytes@ == default_targets(),
            r.l0_compaction_trigger == 4,
            r.l0_slowdown_trigger == 20,
            r.l0_stop_trigger == 36,
            r.bloom_bits_per_key == 10,
            r.max_compaction_bytes == 256 * 1024 * 1024,
            r.flush_parallelism == 1,
            r.compaction_parallelism == 2,
            !r.read_only,
            r.gc_grace_period_secs == 300,
            r.dual_format_max_level == Some(0u8),
            r.commit_mode == CommitMode::Posix,
    {
        let level_target_bytes: Vec<u64> = vec![
            0x1000_0000,
            0x8000_0000,
            0x4_0000_0000,
            0x20_0000_0000,
        ];
        assert(level_target_bytes@ =~= default_targets());
        EngineConfig {
            schema: TableSchema::default(),
            catalog_uri: String::new(),
            object_store_prefix: String::new(),
            wal_dir: "./meru-wal".to_owned(),
            memtable_size_bytes: 64 * 1024 * 1024,
            max_immutable_count: 4,
            row_cache_capacity: 10_000,
            level_target_bytes,
            l0_compaction_trigger: 4,
            l0_slowdown_trigger: 20,
            l0_stop_trigger: 36,
            bloom_bits_per_key: 10,
            max_compaction_bytes: 256 * 1024 * 1024,
            flush_parallelism: 1,
            compaction_parallelism: 2,
            read_only: false,
            gc_grace_period_secs: 300,
            dual_format_max_level: Some(0),
            commit_mode: CommitMode::Posix,
        }
    }
}

/// The row blob is written down to the configured level and no deeper: where a
/// level carries it, so does every level above, and without a configured level
/// none does.
pub proof fn law_row_blob_reaches_the_configured_level(
    config: EngineConfig,
    level: Level,
    above: Level,
)
    requires
        above.0 <= level.0,
    ensures
        config.format_for(level) == FileFormat::Dual ==> config.format_for(above)
            == FileFormat::Dual,
        config.dual_format_max_level is None ==> config.format_for(level) == FileFormat::Columnar,
        config.dual_format_max_level matches Some(max) ==> config.format_for(Level(max))
            == FileFormat::Dual && (level.0 > max ==> config.format_for(level)
            == FileFormat::Columnar),
{
}

/// By default level 1 holds 256 MiB and every level below it eight times the
/// one above.
pub proof fn law_default_targets_grow_eightfold()
    ensures
        default_targets().len() == 4,
        default_targets()[0] == 256 * 1024 * 1024,
        forall|i: int|
            0 < i < default_targets().len() ==> #[trigger] default_targets()[i] == 8
                * default_targets()[i - 1],
{
}

} // verus!
