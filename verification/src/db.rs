//! Opening and closing a table.

use vstd::prelude::*;
use vstd::string::*;

use crate::engine::config::{CommitMode, EngineConfig};
use crate::options::{MirrorConfig, OpenOptions};
use crate::types::error::{MeruError, Result};

verus! {

/// What opening a table starts.
#[derive(Debug)]
pub struct StartPlan {
    /// The engine to open.
    pub config: EngineConfig,
    /// Whether flush and compaction workers run beside it.
    pub background: bool,
    /// The mirror worker to run beside it.
    pub mirror: Option<MirrorConfig>,
}

/// Why a catalog in an object store cannot be opened.
pub const OBJECT_STORE_PENDING: &'static str =
    "CommitMode::ObjectStore is not yet implemented (Issue #26 Phase 2 pending). Use CommitMode::Posix on local filesystems for now.";

/// The engine configuration that options ask for: each option under its own
/// name, the memtable in bytes, and the data beside the catalog.
pub open spec fn configures(options: OpenOptions, config: EngineConfig) -> bool {
    &&& config.schema == options.schema
    &&& config.catalog_uri@ == options.catalog_uri@
    &&& config.object_store_prefix@ == options.catalog_uri@
    &&& config.wal_dir@ == options.wal_dir@
    &&& config.memtable_size_bytes == options.memtable_size_mb * 1024 * 1024
    &&& config.max_immutable_count == options.max_immutable_count
    &&& config.row_cache_capacity == options.row_cache_capacity
    &&& config.level_target_bytes@ == options.level_target_bytes@
    &&& config.l0_compaction_trigger == options.l0_compaction_trigger
    &&& config.l0_slowdown_trigger == options.l0_slowdown_trigger
    &&& config.l0_stop_trigger == options.l0_stop_trigger
    &&& config.bloom_bits_per_key == options.bloom_bits_per_key
    &&& config.max_compaction_bytes == options.max_compaction_bytes
    &&& config.flush_parallelism == options.flush_parallelism
    &&& config.compaction_parallelism == options.compaction_parallelism
    &&& config.gc_grace_period_secs == options.gc_grace_period_secs
    &&& config.read_only == options.read_only
    &&& config.dual_format_max_level == options.dual_format_max_level
    &&& config.commit_mode == options.commit_mode
}

/// What opening a table with these options starts. A mirror of a catalog in
/// an object store is refused, and so is such a catalog itself, before
/// anything is touched. A reader starts no workers: it writes nothing that
/// could be flushed, compacted or mirrored.
pub fn plan_start(options: OpenOptions) -> (r: Result<StartPlan>)
    requires
        options.commit_mode == CommitMode::Posix ==> options.memtable_size_mb * 1024 * 1024
            <= usize::MAX,
    ensures
        match r {
            Ok(plan) => {
                &&& options.commit_mode == CommitMode::Posix
                &&& configures(options, plan.config)
                &&& plan.background == !options.read_only
                &&& plan.mirror == if options.read_only {
                    None
                } else {
                    options.mirror
                }
            },
            Err(e) => {
                &&& options.commit_mode == CommitMode::ObjectStore
                &&& e@ == crate::types::error::ErrorView::InvalidArgument(
                    if options.mirror is Some {
                        crate::options::MIRROR_CONFLICT@
                    } else {
                        OBJECT_STORE_PENDING@
                    },
                )
            },
        },
{
    match options.validate_mirror() {
        Ok(()) => {},
        Err(message) => return Err(MeruError::InvalidArgument(message)),
    }
    if matches!(options.commit_mode, CommitMode::ObjectStore) {
        return Err(MeruError::InvalidArgument(OBJECT_STORE_PENDING.to_owned()));
    }
    let read_only = options.read_only;
    let mirror = if read_only {
        None
    } else {
        options.mirror
    };
    let config = EngineConfig {
        schema: options.schema,
        object_store_prefix: options.catalog_uri.clone(),
        catalog_uri: options.catalog_uri,
        wal_dir: options.wal_dir,
        memtable_size_bytes: options.memtable_size_mb * 1024 * 1024,
        max_immutable_count: options.max_immutable_count,
        row_cache_capacity: options.row_cache_capacity,
        level_target_bytes: options.level_target_bytes,
        l0_compaction_trigger: options.l0_compaction_trigger,
        l0_slowdown_trigger: options.l0_slowdown_trigger,
        l0_stop_trigger: options.l0_stop_trigger,
        bloom_bits_per_key: options.bloom_bits_per_key,
        max_compaction_bytes: options.max_compaction_bytes,
        flush_parallelism: options.flush_parallelism,
        compaction_parallelism: options.compaction_parallelism,
        read_only,
        gc_grace_period_secs: options.gc_grace_period_secs,
        dual_format_max_level: options.dual_format_max_level,
        commit_mode: options.commit_mode,
    };
    Ok(StartPlan { config, background: !read_only, mirror })
}

/// What opening a table for reading starts: the engine alone, in read-only
/// mode whatever the options say.
pub fn plan_read_only_start(options: OpenOptions) -> (r: Result<StartPlan>)
    requires
        options.commit_mode == CommitMode::Posix ==> options.memtable_size_mb * 1024 * 1024
            <= usize::MAX,
    ensures
        match r {
            Ok(plan) => {
                &&& options.commit_mode == CommitMode::Posix
                &&& configures((OpenOptions { read_only: true, ..options }), plan.config)
                &&& !plan.background
                &&& plan.mirror is None
            },
            Err(e) => {
                &&& options.commit_mode == CommitMode::ObjectStore
                &&& e@ == crate::types::error::ErrorView::InvalidArgument(
                    if options.mirror is Some {
                        crate::options::MIRROR_CONFLICT@
                    } else {
                        OBJECT_STORE_PENDING@
                    },
                )
            },
        },
{
    plan_start(options.read_only(true))
}

/// One step of a graceful shutdown.
#[derive(Debug, Clone, Copy, PartialEq, Eq, Structural)]
pub enum CloseStep {
    /// Stop the flush and compaction workers and wait for them.
    StopWorkers,
    /// Stop the mirror worker and wait for it.
    StopMirror,
    /// Flush what is in memory and seal the engine.
    CloseEngine,
}

/// The steps of a graceful shutdown: whatever still runs beside the engine is
/// stopped first, so that nothing competes with the last flush. On a table
/// that was closed before, nothing runs any more and the engine alone is left.
pub fn close_steps(workers_run: bool, mirror_runs: bool) -> (r: Vec<CloseStep>)
    ensures
        r@ == (if workers_run {
            seq![CloseStep::StopWorkers]
        } else {
            Seq::empty()
        }) + (if mirror_runs {
            seq![CloseStep::StopMirror]
        } else {
            Seq::empty()
        }) + seq![CloseStep::CloseEngine],
{
    let mut steps: Vec<CloseStep> = Vec::new();
    if workers_run {
        steps.push(CloseStep::StopWorkers);
    }
    if mirror_runs {
        steps.push(CloseStep::StopMirror);
    }
    steps.push(CloseStep::CloseEngine);
    assert(steps@ =~= (if workers_run {
        seq![CloseStep::StopWorkers]
    } else {
        Seq::empty()
    }) + (if mirror_runs {
        seq![CloseStep::StopMirror]
    } else {
        Seq::empty()
    }) + seq![CloseStep::CloseEngine]);
    steps
}

/// An engine is configured with every option under its own name, the memtable
/// in bytes and not in MiB.
pub proof fn law_every_option_reaches_the_engine(options: OpenOptions, config: EngineConfig)
    requires
        configures(options, config),
    ensures
        config.schema == options.schema,
        config.catalog_uri@ == options.catalog_uri@,
        config.object_store_prefix@ == options.catalog_uri@,
        config.wal_dir@ == options.wal_dir@,
        config.memtable_size_bytes == options.memtable_size_mb * 0x10_0000,
        config.max_immutable_count == options.max_immutable_count,
        config.row_cache_capacity == options.row_cache_capacity,
        config.level_target_bytes@ == options.level_target_bytes@,
        config.l0_compaction_trigger == options.l0_compaction_trigger,
        config.l0_slowdown_trigger == options.l0_slowdown_trigger,
        config.l0_stop_trigger == options.l0_stop_trigger,
        config.bloom_bits_per_key == options.bloom_bits_per_key,
        config.max_compaction_bytes == options.max_compaction_bytes,
        config.flush_parallelism == options.flush_parallelism,
        config.compaction_parallelism == options.compaction_parallelism,
        config.gc_grace_period_secs == options.gc_grace_period_secs,
        config.read_only == options.read_only,
        config.dual_format_max_level == options.dual_format_max_level,
        config.commit_mode == options.commit_mode,
{
}

} // verus!
