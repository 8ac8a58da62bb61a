use merutable::iceberg::manifest::{Manifest, ManifestEntry};
use merutable::migrate::{
    banner, build_plan, check_layouts, check_source, conclude, print_plan, runtime_failure,
    source_failure, Layout, MigrateArgs, DESTINATION_PENDING, HISTORY_WARNING, SOURCE_PENDING,
};
use merutable::types::level::{Level, ParquetFileMeta};

fn test_meta(file_size: u64) -> ParquetFileMeta {
    ParquetFileMeta {
        level: Level(0),
        seq_min: 1,
        seq_max: 10,
        key_min: vec![0x01],
        key_max: vec![0xFF],
        num_rows: 100,
        file_size,
        dv_path: None,
        dv_offset: None,
        dv_length: None,
        format: None,
        column_stats: None,
    }
}

fn entry(path: &str, file_size: u64, status: &str) -> ManifestEntry {
    ManifestEntry {
        path: path.into(),
        meta: test_meta(file_size),
        status: status.into(),
        dv_path: None,
        dv_offset: None,
        dv_length: None,
    }
}

fn manifest(snapshot_id: i64, entries: Vec<ManifestEntry>) -> Manifest {
    Manifest {
        table_uuid: "uuid-1".into(),
        snapshot_id,
        sequence_number: snapshot_id,
        parent_snapshot_id: None,
        entries,
    }
}

fn args(from: Layout, to: Layout, dry_run: bool) -> MigrateArgs {
    MigrateArgs {
        from,
        src: "/src".into(),
        to,
        dst: "s3://dst".into(),
        dry_run,
        verify: false,
        copy_parallelism: 8,
        resume: false,
        keep_source: true,
        delete_source: false,
    }
}

#[test]
fn build_plan_reports_live_files() {
    let entries = (0..3)
        .map(|i| entry(&format!("data/L0/f{i}.parquet"), 2048, "added"))
        .collect();
    let plan = build_plan(&manifest(1, entries));
    assert_eq!(plan.source_snapshot_id, 1);
    assert_eq!(plan.source_table_uuid, "uuid-1");
    assert_eq!(plan.data_files.len(), 3);
    assert_eq!(plan.total_bytes, 3 * 2048);
    for e in &plan.data_files {
        assert!(e.path.starts_with("data/L0/"));
        assert_eq!(e.bytes, 2048);
        assert_eq!(e.num_rows, 100);
        assert_eq!(e.dv_path, None);
    }
}

#[test]
fn build_plan_skips_deleted_entries() {
    let plan = build_plan(&manifest(
        2,
        vec![
            entry("data/L0/keep.parquet", 1024, "existing"),
            entry("data/L0/drop.parquet", 2048, "deleted"),
        ],
    ));
    assert_eq!(plan.data_files.len(), 1);
    assert_eq!(plan.data_files[0].path, "data/L0/keep.parquet");
    assert_eq!(plan.total_bytes, 1024);
}

#[test]
fn deletion_vectors_count_toward_the_bytes() {
    let mut with_dv = entry("data/L0/a.parquet", 1000, "existing");
    with_dv.dv_path = Some("data/L0/a.dv-2.puffin".into());
    with_dv.dv_offset = Some(4);
    with_dv.dv_length = Some(50);
    let mut negative = entry("data/L0/b.parquet", 1000, "existing");
    negative.dv_length = Some(-50);
    let plan = build_plan(&manifest(2, vec![with_dv, negative]));
    assert_eq!(plan.total_bytes, 2050);
    assert_eq!(plan.data_files[0].dv_path.as_deref(), Some("data/L0/a.dv-2.puffin"));
}

#[test]
fn plan_report_lists_totals_and_a_sample() {
    let mut entries: Vec<ManifestEntry> = (0..7)
        .map(|i| entry(&format!("data/L0/f{i}.parquet"), 1024, "added"))
        .collect();
    entries[6].dv_path = Some("p".into());
    let plan = build_plan(&manifest(9, entries));
    let lines = print_plan(&plan, &args(Layout::Posix, Layout::ObjectStore, true), "0.01");
    let expected = vec![
        "",
        "migration plan:",
        "  source snapshot id: 9",
        "  source table uuid:  uuid-1",
        "  data files:         7",
        "  total rows:         700",
        "  total bytes:        7168 (0.01 MiB)",
        "  files with DV:      1",
        "  first 5 paths:",
        "    data/L0/f0.parquet (1024 bytes)",
        "    data/L0/f1.parquet (1024 bytes)",
        "    data/L0/f2.parquet (1024 bytes)",
        "    data/L0/f3.parquet (1024 bytes)",
        "    data/L0/f4.parquet (1024 bytes)",
        "",
        "destination plan (ObjectStore):",
        "  dst:                s3://dst",
        "  genesis version:   v1 (no snapshot history preserved)",
        "  parallelism:        8 (would stream 7 files)",
        "",
        "DRY RUN: no bytes written to destination.",
    ];
    assert_eq!(lines, expected);
}

#[test]
fn plan_report_of_an_empty_table() {
    let plan = build_plan(&manifest(0, vec![]));
    let lines = print_plan(&plan, &args(Layout::Posix, Layout::ObjectStore, false), "0.00");
    assert_eq!(lines.len(), 14);
    assert_eq!(lines[5], "  total rows:         0");
    assert_eq!(lines[7], "  first 5 paths:");
    assert_eq!(lines[8], "");
}

#[test]
fn each_failure_has_its_exit_code() {
    let same = check_layouts(Layout::Posix, Layout::Posix).unwrap_err();
    assert_eq!(same.code, 2);
    assert!(same.message.starts_with("--from and --to are both `Posix`. "));
    assert!(check_layouts(Layout::Posix, Layout::ObjectStore).is_ok());

    let source = check_source(Layout::ObjectStore).unwrap_err();
    assert_eq!((source.code, source.message.as_str()), (3, SOURCE_PENDING));
    assert!(check_source(Layout::Posix).is_ok());

    let runtime = runtime_failure("no threads");
    assert_eq!((runtime.code, runtime.message.as_str()), (4, "tokio runtime: no threads"));
    let read = source_failure("gone");
    assert_eq!((read.code, read.message.as_str()), (5, "build migration plan: gone"));

    let write = conclude(&args(Layout::Posix, Layout::ObjectStore, false), 3).unwrap_err();
    assert_eq!((write.code, write.message.as_str()), (6, DESTINATION_PENDING));
    let unknown = conclude(&args(Layout::ObjectStore, Layout::Posix, false), 3).unwrap_err();
    assert_eq!(unknown.code, 99);
    assert_eq!(
        unknown.message,
        "unhandled destination layout `Posix`. This is a bug — please report."
    );
}

#[test]
fn a_dry_run_succeeds() {
    let line = conclude(&args(Layout::Posix, Layout::ObjectStore, true), 3).unwrap();
    assert_eq!(line, "dry run complete — 3 files would be migrated.");
}

#[test]
fn banner_repeats_the_arguments() {
    assert_eq!(
        banner(&args(Layout::Posix, Layout::ObjectStore, true)),
        vec![
            "merutable-migrate: --from Posix --src /src --to ObjectStore --dst s3://dst".to_string(),
            "  dry_run=true verify=false copy_parallelism=8 resume=false keep_source=true delete_source=false".to_string(),
            HISTORY_WARNING.to_string(),
        ]
    );
}
