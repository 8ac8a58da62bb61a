use merutable::db::{close_steps, plan_read_only_start, plan_start, CloseStep};
use merutable::engine::config::{CommitMode, EngineConfig};
use merutable::mirror::{MirrorProgress, MirrorStep};
use merutable::options::{MirrorConfig, OpenOptions};
use merutable::types::level::{FileFormat, Level};
use merutable::types::schema::{ColumnDef, ColumnType, TableSchema};

fn schema() -> TableSchema {
    TableSchema {
        table_name: "mirror-test".into(),
        columns: vec![ColumnDef {
            name: "id".into(),
            col_type: ColumnType::Int64,
            nullable: false,
            ..Default::default()
        }],
        primary_key: vec![0],
        ..Default::default()
    }
}

#[test]
fn mirror_defaults_are_production_sane() {
    let cfg = MirrorConfig::new("s3://mirror");
    assert_eq!(cfg.max_lag_alert_secs, 60);
    assert_eq!(cfg.mirror_parallelism, 4);
}

#[test]
fn mirror_parallelism_floored_at_one() {
    let cfg = MirrorConfig::new("s3://mirror").mirror_parallelism(0);
    assert_eq!(cfg.mirror_parallelism, 1, "zero coerced to one");
}

#[test]
fn mirror_with_posix_passes_validation() {
    let opts = OpenOptions::new(schema())
        .commit_mode(CommitMode::Posix)
        .mirror(MirrorConfig::new("s3://mirror"));
    assert!(opts.validate_mirror().is_ok());
}

#[test]
fn mirror_with_object_store_rejected() {
    let opts = OpenOptions::new(schema())
        .commit_mode(CommitMode::ObjectStore)
        .mirror(MirrorConfig::new("s3://mirror"));
    let err = opts.validate_mirror().unwrap_err();
    assert!(
        err.contains("Posix") && err.contains("ObjectStore"),
        "error must name both modes: {err}"
    );
}

#[test]
fn no_mirror_no_validation_error() {
    // Both modes pass when no mirror is set.
    let opts_posix = OpenOptions::new(schema()).commit_mode(CommitMode::Posix);
    assert!(opts_posix.validate_mirror().is_ok());
    let opts_os = OpenOptions::new(schema()).commit_mode(CommitMode::ObjectStore);
    assert!(opts_os.validate_mirror().is_ok());
}

#[test]
fn default_commit_mode_is_posix() {
    let opts = OpenOptions::new(schema());
    assert_eq!(opts.commit_mode, CommitMode::Posix);
}

#[test]
fn builder_accepts_posix_and_objectstore() {
    let posix = OpenOptions::new(schema()).commit_mode(CommitMode::Posix);
    let objectstore = OpenOptions::new(schema()).commit_mode(CommitMode::ObjectStore);
    assert_eq!(posix.commit_mode, CommitMode::Posix);
    assert_eq!(objectstore.commit_mode, CommitMode::ObjectStore);
}

#[test]
fn objectstore_mode_rejected_with_pointer_to_issue() {
    let opts = OpenOptions::new(schema())
        .wal_dir("/tmp/t/wal")
        .catalog_uri("/tmp/t")
        .commit_mode(CommitMode::ObjectStore);
    let err = match plan_start(opts) {
        Err(e) => e,
        Ok(_) => panic!("expected ObjectStore mode to be rejected"),
    };
    let msg = err.to_string();
    assert!(
        msg.contains("ObjectStore") && msg.contains("Issue #26"),
        "error must name both CommitMode::ObjectStore and Issue #26: {msg}"
    );
}

#[test]
fn mirror_conflict_is_reported_before_the_mode() {
    let opts = OpenOptions::new(schema())
        .commit_mode(CommitMode::ObjectStore)
        .mirror(MirrorConfig::new("s3://mirror"));
    let msg = plan_start(opts).unwrap_err().to_string();
    assert!(msg.starts_with("invalid argument: MirrorConfig requires"));
}

#[test]
fn options_reach_the_engine() {
    let opts = OpenOptions::new(schema())
        .catalog_uri("/data/t")
        .object_store("s3://b")
        .wal_dir("/wal")
        .memtable_size_mb(3)
        .max_immutable_count(5)
        .row_cache_capacity(6)
        .level_target_bytes(vec![7, 8])
        .l0_compaction_trigger(9)
        .l0_slowdown_trigger(10)
        .l0_stop_trigger(11)
        .bloom_bits_per_key(12)
        .max_compaction_bytes(13)
        .flush_parallelism(14)
        .compaction_parallelism(15)
        .gc_grace_period_secs(16)
        .dual_format_max_level(Some(2))
        .mirror(MirrorConfig::new("s3://m").max_lag_alert_secs(17));
    assert_eq!(opts.object_store_url, "s3://b");
    let plan = plan_start(opts).unwrap();
    let c = plan.config;
    assert_eq!(c.schema.table_name, "mirror-test");
    assert_eq!(c.catalog_uri, "/data/t");
    assert_eq!(c.object_store_prefix, "/data/t");
    assert_eq!(c.wal_dir, "/wal");
    assert_eq!(c.memtable_size_bytes, 3 * 1024 * 1024);
    assert_eq!(c.max_immutable_count, 5);
    assert_eq!(c.row_cache_capacity, 6);
    assert_eq!(c.level_target_bytes, vec![7, 8]);
    assert_eq!(c.l0_compaction_trigger, 9);
    assert_eq!(c.l0_slowdown_trigger, 10);
    assert_eq!(c.l0_stop_trigger, 11);
    assert_eq!(c.bloom_bits_per_key, 12);
    assert_eq!(c.max_compaction_bytes, 13);
    assert_eq!(c.flush_parallelism, 14);
    assert_eq!(c.compaction_parallelism, 15);
    assert_eq!(c.gc_grace_period_secs, 16);
    assert_eq!(c.dual_format_max_level, Some(2));
    assert!(!c.read_only);
    assert!(plan.background);
    assert_eq!(plan.mirror.unwrap().max_lag_alert_secs, 17);
}

#[test]
fn a_reader_starts_no_workers() {
    let opts = OpenOptions::new(schema()).mirror(MirrorConfig::new("s3://m"));
    let plan = plan_read_only_start(opts).unwrap();
    assert!(plan.config.read_only);
    assert!(!plan.background);
    assert!(plan.mirror.is_none());
    let explicit = plan_start(OpenOptions::new(schema()).read_only(true)).unwrap();
    assert!(!explicit.background);
}

#[test]
fn engine_stops_last_on_close() {
    assert_eq!(
        close_steps(true, true),
        vec![CloseStep::StopWorkers, CloseStep::StopMirror, CloseStep::CloseEngine]
    );
    assert_eq!(close_steps(true, false), vec![CloseStep::StopWorkers, CloseStep::CloseEngine]);
    // A second close finds nothing running.
    assert_eq!(close_steps(false, false), vec![CloseStep::CloseEngine]);
}

#[test]
fn options_default_to_the_engine_defaults() {
    let opts = OpenOptions::new(schema());
    let ec = EngineConfig::default();
    assert_eq!(opts.memtable_size_mb * 1024 * 1024, ec.memtable_size_bytes);
    assert_eq!(opts.level_target_bytes, ec.level_target_bytes);
    assert_eq!(
        ec.level_target_bytes,
        vec![256 << 20, 2 << 30, 16 << 30, 128 << 30]
    );
    assert_eq!(opts.wal_dir, "./meru-wal");
    assert_eq!(opts.row_cache_capacity, 10_000);
    assert!(opts.mirror.is_none());
}

#[test]
fn file_format_follows_the_configured_level() {
    let mut ec = EngineConfig::default();
    assert_eq!(ec.file_format_for(Level(0)), FileFormat::Dual);
    assert_eq!(ec.file_format_for(Level(1)), FileFormat::Columnar);
    ec.dual_format_max_level = Some(2);
    assert_eq!(ec.file_format_for(Level(2)), FileFormat::Dual);
    ec.dual_format_max_level = None;
    assert_eq!(ec.file_format_for(Level(0)), FileFormat::Columnar);
}

#[test]
fn mirror_progress_never_goes_back() {
    let mut p = MirrorProgress::new();
    assert_eq!(p.mirror_seq(), 0);
    assert_eq!(p.tick(false, 0), MirrorStep::Idle);
    assert_eq!(p.tick(false, 3), MirrorStep::Advanced { previous: 0, current: 3 });
    assert_eq!(p.tick(false, 2), MirrorStep::Idle);
    assert_eq!(p.mirror_seq(), 3);
    assert_eq!(p.tick(true, 9), MirrorStep::Stop);
    assert_eq!(p.mirror_seq(), 3);
}
