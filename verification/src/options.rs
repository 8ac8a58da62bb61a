//! The options that a table is opened with.

use vstd::prelude::*;
use vstd::string::*;

use crate::engine::config::{CommitMode, EngineConfig};
use crate::types::schema::TableSchema;

verus! {

/// An asynchronous copy of a table's flushed files and manifests in an object
/// store. The log is never copied.
#[derive(Debug, Clone)]
pub struct MirrorConfig {
    /// Where the copy goes.
    pub target: String,
    /// The lag in seconds above which a warning is given.
    pub max_lag_alert_secs: u64,
    /// Uploads that run at a time.
    pub mirror_parallelism: usize,
}

impl MirrorConfig {
    /// A mirror to this target that warns above 60 seconds of lag and runs
    /// four uploads at a time.
    pub fn new(target: &str) -> (r: Self)
        ensures
            r.target@ == target@,
            r.max_lag_alert_secs == 60,
            r.mirror_parallelism == 4,
    {
        MirrorConfig { target: target.to_owned(), max_lag_alert_secs: 60, mirror_parallelism: 4 }
    }

    /// The lag in seconds above which a warning is given.
    pub fn max_lag_alert_secs(self, secs: u64) -> (r: Self)
        ensures
            r == (MirrorConfig { max_lag_alert_secs: secs, ..self }),
    {
        let mut config = self;
        config.max_lag_alert_secs = secs;
        config
    }

    /// The uploads that run at a time: at least one.
    pub fn mirror_parallelism(self, n: usize) -> (r: Self)
        ensures
            r == (MirrorConfig { mirror_parallelism: if n == 0 { 1 } else { n }, ..self }),
    {
        let mut config = self;
        config.mirror_parallelism = if n == 0 { 1 } else { n };
        config
    }
}

/// The options that a table is opened with.
#[derive(Debug, Clone)]
pub struct OpenOptions {
    pub schema: TableSchema,
    pub catalog_uri: String,
    pub object_store_url: String,
    pub wal_dir: String,
    /// Flush threshold in MiB.
    pub memtable_size_mb: usize,
    pub max_immutable_count: usize,
    pub row_cache_capacity: usize,
    /// Target bytes of level 1, level 2 and so on.
    pub level_target_bytes: Vec<u64>,
    pub l0_compaction_trigger: usize,
    pub l0_slowdown_trigger: usize,
    pub l0_stop_trigger: usize,
    pub bloom_bits_per_key: u8,
    pub max_compaction_bytes: u64,
    pub flush_parallelism: usize,
    pub compaction_parallelism: usize,
    pub gc_grace_period_secs: u64,
    pub read_only: bool,
    /// The deepest level whose files carry the row blob; `None` for none.
    pub dual_format_max_level: Option<u8>,
    /// How the catalog commits.
    pub commit_mode: CommitMode,
    /// The mirror, which only a POSIX catalog can have.
    pub mirror: Option<MirrorConfig>,
}

/// Why a mirror cannot be combined with commits to an object store.
pub const MIRROR_CONFLICT: &'static str =
    "MirrorConfig requires `commit_mode = Posix`. `CommitMode::ObjectStore` already writes directly to the object store; mirroring would double-write every manifest and corrupt the conditional-PUT chain. Either drop the mirror or switch to Posix.";

impl OpenOptions {
    /// Whether the mirror, if there is one, goes with the commit mode.
    pub open spec fn mirror_fits(&self) -> bool {
        self.mirror is Some ==> self.commit_mode == CommitMode::Posix
    }

    /// Options for this schema with the defaults of [`EngineConfig`], no
    /// catalog yet and no mirror.
    pub fn new(schema: TableSchema) -> (r: Self)
        ensures
            r.schema == schema,
            r.catalog_uri@ == Seq::<char>::empty(),
            r.object_store_url@ == Seq::<char>::empty(),
            r.wal_dir@ == "./meru-wal"@,
            r.memtable_size_mb == 64,
            r.max_immutable_count == 4,
            r.row_cache_capacity == 10_000,
            r.level_target_bytes@ == crate::engine::config::default_targets(),
            r.l0_compaction_trigger == 4,
            r.l0_slowdown_trigger == 20,
            r.l0_stop_trigger == 36,
            r.bloom_bits_per_key == 10,
            r.max_compaction_bytes == 256 * 1024 * 1024,
            r.flush_parallelism == 1,
            r.compaction_parallelism == 2,
            r.gc_grace_period_secs == 300,
            !r.read_only,
            r.dual_format_max_level == Some(0u8),
            r.commit_mode == CommitMode::Posix,
            r.mirror is None,
    {
        let defaults = EngineConfig::default();
        OpenOptions {
            schema,
            catalog_uri: String::new(),
            object_store_url: String::new(),
            wal_dir: defaults.wal_dir,
            memtable_size_mb: defaults.memtable_size_bytes / 1_048_576,
            max_immutable_count: defaults.max_immutable_count,
            row_cache_capacity: defaults.row_cache_capacity,
            level_target_bytes: defaults.level_target_bytes,
            l0_compaction_trigger: defaults.l0_compaction_trigger,
            l0_slowdown_trigger: defaults.l0_slowdown_trigger,
            l0_stop_trigger: defaults.l0_stop_trigger,
            bloom_bits_per_key: defaults.bloom_bits_per_key,
            max_compaction_bytes: defaults.max_compaction_bytes,
            flush_parallelism: defaults.flush_parallelism,
            compaction_parallelism: defaults.compaction_parallelism,
            gc_grace_period_secs: defaults.gc_grace_period_secs,
            read_only: defaults.read_only,
            dual_format_max_level: defaults.dual_format_max_level,
            commit_mode: defaults.commit_mode,
            mirror: None,
        }
    }

    /// Attaches a mirror.
    pub fn mirror(self, cfg: MirrorConfig) -> (r: Self)
        ensures
            r == (OpenOptions { mirror: Some(cfg), ..self }),
    {
        let mut options = self;
        options.mirror = Some(cfg);
        options
    }

    /// Checks that a mirror, if there is one, goes with the commit mode: a
    /// catalog in the object store would be written twice.
    pub fn validate_mirror(&self) -> (r: Result<(), String>)
        ensures
            match r {
                Ok(()) => self.mirror_fits(),
                Err(message) => !self.mirror_fits() && message@ == MIRROR_CONFLICT@,
            },
    {
        if self.mirror.is_some() && matches!(self.commit_mode, CommitMode::ObjectStore) {
            return Err(MIRROR_CONFLICT.to_owned());
        }
        Ok(())
    }

    /// Where the catalog lies.
    pub fn catalog_uri(self, uri: &str) -> (r: Self)
        ensures
            r.catalog_uri@ == uri@,
            r == (OpenOptions { catalog_uri: r.catalog_uri, ..self }),
    {
        let mut options = self;
        options.catalog_uri = uri.to_owned();
        options
    }

    /// The URL of the object store.
    pub fn object_store(self, url: &str) -> (r: Self)
        ensures
            r.object_store_url@ == url@,
            r == (OpenOptions { object_store_url: r.object_store_url, ..self }),
    {
        let mut options = self;
        options.object_store_url = url.to_owned();
        options
    }

    /// The directory of the log.
    pub fn wal_dir(self, dir: &str) -> (r: Self)
        ensures
            r.wal_dir@ == dir@,
            r == (OpenOptions { wal_dir: r.wal_dir, ..self }),
    {
        let mut options = self;
        options.wal_dir = dir.to_owned();
        options
    }

    /// The flush threshold of a memtable, in MiB.
    pub fn memtable_size_mb(self, mb: usize) -> (r: Self)
        ensures
            r == (OpenOptions { memtable_size_mb: mb, ..self }),
    {
        let mut options = self;
        options.memtable_size_mb = mb;
        options
    }

    /// The memtables that may wait for a flush before writes stall.
    pub fn max_immutable_count(self, n: usize) -> (r: Self)
        ensures
            r == (OpenOptions { max_immutable_count: n, ..self }),
    {
        let mut options = self;
        options.max_immutable_count = n;
        options
    }

    /// The rows that the row cache holds; 0 switches it off.
    pub fn row_cache_capacity(self, capacity: usize) -> (r: Self)
        ensures
            r == (OpenOptions { row_cache_capacity: capacity, ..self }),
    {
        let mut options = self;
        options.row_cache_capacity = capacity;
        options
    }

    /// The target bytes of level 1, level 2 and so on.
    pub fn level_target_bytes(self, targets: Vec<u64>) -> (r: Self)
        ensures
            r == (OpenOptions { level_target_bytes: targets, ..self }),
    {
        let mut options = self;
        options.level_target_bytes = targets;
        options
    }

    /// The level 0 files that trigger a compaction.
    pub fn l0_compaction_trigger(self, n: usize) -> (r: Self)
        ensures
            r == (OpenOptions { l0_compaction_trigger: n, ..self }),
    {
        let mut options = self;
        options.l0_compaction_trigger = n;
        options
    }

    /// The level 0 files at which writes slow down.
    pub fn l0_slowdown_trigger(self, n: usize) -> (r: Self)
        ensures
            r == (OpenOptions { l0_slowdown_trigger: n, ..self }),
    {
        let mut options = self;
        options.l0_slowdown_trigger = n;
        options
    }

    /// The level 0 files at which writes stop until a compaction has run.
    pub fn l0_stop_trigger(self, n: usize) -> (r: Self)
        ensures
            r == (OpenOptions { l0_stop_trigger: n, ..self }),
    {
        let mut options = self;
        options.l0_stop_trigger = n;
        options
    }

    /// The bits per key of the bloom filters.
    pub fn bloom_bits_per_key(self, bits: u8) -> (r: Self)
        ensures
            r == (OpenOptions { bloom_bits_per_key: bits, ..self }),
    {
        let mut options = self;
        options.bloom_bits_per_key = bits;
        options
    }

    /// The bound on the input bytes of one compaction.
    pub fn max_compaction_bytes(self, bytes: u64) -> (r: Self)
        ensures
            r == (OpenOptions { max_compaction_bytes: bytes, ..self }),
    {
        let mut options = self;
        options.max_compaction_bytes = bytes;
        options
    }

    /// The background flush workers; with 0 only explicit flushes run.
    pub fn flush_parallelism(self, n: usize) -> (r: Self)
        ensures
            r == (OpenOptions { flush_parallelism: n, ..self }),
    {
        let mut options = self;
        options.flush_parallelism = n;
        options
    }

    /// The background compaction workers; with 0 only explicit compactions run.
    pub fn compaction_parallelism(self, n: usize) -> (r: Self)
        ensures
            r == (OpenOptions { compaction_parallelism: n, ..self }),
    {
        let mut options = self;
        options.compaction_parallelism = n;
        options
    }

    /// The seconds for which files that a compaction replaced are kept for
    /// readers of an older snapshot.
    pub fn gc_grace_period_secs(self, secs: u64) -> (r: Self)
        ensures
            r == (OpenOptions { gc_grace_period_secs: secs, ..self }),
    {
        let mut options = self;
        options.gc_grace_period_secs = secs;
        options
    }

    /// Whether the table is opened for reading only.
    pub fn read_only(self, enabled: bool) -> (r: Self)
        ensures
            r == (OpenOptions { read_only: enabled, ..self }),
    {
        let mut options = self;
        options.read_only = enabled;
        options
    }

    /// The deepest level whose files carry the row blob; `None` for none.
    pub fn dual_format_max_level(self, max: Option<u8>) -> (r: Self)
        ensures
            r == (OpenOptions { dual_format_max_level: max, ..self }),
    {
        let mut options = self;
        options.dual_format_max_level = max;
        options
    }

    /// How the catalog commits.
    pub fn commit_mode(self, mode: CommitMode) -> (r: Self)
        ensures
            r == (OpenOptions { commit_mode: mode, ..self }),
    {
        let mut options = self;
        options.commit_mode = mode;
        options
    }
}

/// A mirror goes with a POSIX catalog alone; without a mirror every catalog
/// will do.
pub proof fn law_mirror_needs_a_posix_catalog(options: OpenOptions)
    ensures
        options.mirror is None ==> options.mirror_fits(),
        options.commit_mode == CommitMode::Posix ==> options.mirror_fits(),
        options.mirror is Some && options.commit_mode == CommitMode::ObjectStore
            ==> !options.mirror_fits(),
{
}

} // verus!
