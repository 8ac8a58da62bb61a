use std::collections::HashSet;
use std::sync::Arc;

use merutable::engine::background::{
    next_compaction_phase, next_flush_phase, CompactionPhase, FlushPhase, Seen,
};
use merutable::engine::codec::{frame_row, row_or_default, unframe_row, StoredRow, POSTCARD_MARKER};
use merutable::engine::compaction::job::{
    after_compaction, compaction_output, compaction_transaction, compute_union_range,
    load_source_dv, obsoleted_paths, overlapping, plan_compaction, release,
    reserve_next_compaction, source_dv_path, RunStep,
};
use merutable::engine::config::EngineConfig;
use merutable::engine::data_file::{new_file_id, relative_data_path, table_uuid_or_fresh};
use merutable::engine::flush::{
    carries_row, flush_output, flush_step, flush_transaction, internal_key_bytes, tombstone_row,
    FlushStep,
};
use merutable::engine::rowspan::RowKey;
use merutable::engine::stats::{FileStats, LevelStats};
use merutable::iceberg::deletion_vector::DeletionVector;
use merutable::iceberg::snapshot::SnapshotTransaction;
use merutable::iceberg::version::{DataFileMeta, Version};
use merutable::types::error::MeruError;
use merutable::types::level::{Level, ParquetFileMeta};
use merutable::types::schema::{ColumnDef, ColumnType, TableSchema};
use merutable::types::sequence::{OpType, SeqNum, SEQNUM_MAX};
use merutable::types::value::{FieldValue, Row};

fn schema() -> TableSchema {
    TableSchema {
        table_name: "t".into(),
        columns: vec![
            ColumnDef { name: "a".into(), col_type: ColumnType::Int64, nullable: true },
            ColumnDef { name: "b".into(), col_type: ColumnType::Int64, nullable: false },
            ColumnDef { name: "c".into(), col_type: ColumnType::Int64, nullable: false },
        ],
        primary_key: vec![2, 1],
    }
}

fn file(path: &str, level: u8, key_min: &[u8], key_max: &[u8]) -> DataFileMeta {
    DataFileMeta {
        path: path.into(),
        meta: ParquetFileMeta {
            level: Level(level),
            seq_min: 1,
            seq_max: 9,
            key_min: key_min.to_vec(),
            key_max: key_max.to_vec(),
            num_rows: 1,
            file_size: 100,
            dv_path: None,
            dv_offset: None,
            dv_length: None,
            format: None,
            column_stats: None,
        },
        dv_path: None,
        dv_offset: None,
        dv_length: None,
    }
}

fn row(key: &[u8], seq: u64) -> RowKey {
    RowKey { user_key: key.to_vec(), seq }
}

fn paths(files: &[DataFileMeta]) -> Vec<&str> {
    files.iter().map(|f| f.path.as_str()).collect()
}

#[test]
fn newer_entries_sort_first() {
    let newer = internal_key_bytes(b"k", SeqNum(8), OpType::Put);
    let older = internal_key_bytes(b"k", SeqNum(7), OpType::Delete);
    assert!(newer < older);
    let seek = internal_key_bytes(b"k", SeqNum(SEQNUM_MAX), OpType::Put);
    assert!(seek < newer);
    assert_eq!(seek, b"k\0\0\0\0\0\0\0\x01".to_vec());
    assert_eq!(
        internal_key_bytes(b"", SeqNum(0), OpType::Delete),
        vec![0xFF, 0xFF, 0xFF, 0xFF, 0xFF, 0xFF, 0xFF, 0x00]
    );
}

#[test]
fn a_tombstone_row_holds_its_key() {
    let values = vec![FieldValue::Int64(30), FieldValue::Int64(20)];
    let row = tombstone_row(&schema(), &values);
    assert_eq!(
        row,
        Row::new(vec![None, Some(FieldValue::Int64(20)), Some(FieldValue::Int64(30))])
    );
    // Fewer values than key columns.
    let short = tombstone_row(&schema(), &vec![FieldValue::Int64(30)]);
    assert_eq!(short, Row::new(vec![None, None, Some(FieldValue::Int64(30))]));
}

#[test]
fn a_flush_skips_what_has_no_entries() {
    assert_eq!(flush_step(None), FlushStep::Nothing);
    assert_eq!(flush_step(Some(0)), FlushStep::DropEmpty);
    assert_eq!(flush_step(Some(2)), FlushStep::Write);
    assert!(carries_row(OpType::Put, b"x"));
    assert!(!carries_row(OpType::Put, b""));
    assert!(!carries_row(OpType::Delete, b"x"));
}

#[test]
fn a_flush_adds_one_level_0_file() {
    let rows = vec![row(b"a", 5), row(b"b", 2), row(b"c", 9)];
    let f = flush_output("id", &rows, 777);
    assert_eq!(f.path, "data/L0/id.parquet");
    assert_eq!((f.file_size, f.num_rows), (777, 3));
    assert_eq!((f.meta.seq_min, f.meta.seq_max), (2, 9));
    assert_eq!((f.meta.key_min.as_slice(), f.meta.key_max.as_slice()), (&b"a"[..], &b"c"[..]));
    let txn = flush_transaction(f, SeqNum(2), SeqNum(9));
    assert_eq!((txn.num_adds(), txn.num_removes()), (1, 0));
    assert_eq!(txn.props.get("merutable.job").unwrap(), "flush");
    assert_eq!(txn.props.get("merutable.first_seq").unwrap(), "2");
    assert_eq!(txn.props.get("merutable.last_seq").unwrap(), "9");
    assert_eq!(txn.props.len(), 3);
}

#[test]
fn file_ids_are_random_uuids() {
    let a = new_file_id();
    let b = new_file_id();
    assert_ne!(a, b);
    assert_eq!(a.len(), 36);
    assert_eq!(a.as_bytes()[14], b'4');
    assert_eq!(table_uuid_or_fresh("kept".into()), "kept");
    assert_eq!(table_uuid_or_fresh(String::new()).len(), 36);
    assert_eq!(relative_data_path(Level(3), "x"), "data/L3/x.parquet");
}

#[test]
fn union_range_spans_all_files() {
    let files = [file("a", 0, b"c", b"d"), file("b", 0, b"a", b"b"), file("c", 0, b"b", b"z")];
    assert_eq!(compute_union_range(&files), (Some(b"a".to_vec()), Some(b"z".to_vec())));
    assert_eq!(compute_union_range(&[]), (None, None));
    // A file without an upper bound leaves the union without one.
    let open = [file("a", 0, b"c", b"d"), file("b", 0, b"a", b"")];
    assert_eq!(compute_union_range(&open), (Some(b"a".to_vec()), Some(vec![])));
}

#[test]
fn overlap_is_inclusive_at_both_ends() {
    let files = [
        file("before", 1, b"a", b"b"),
        file("touches_low", 1, b"b", b"c"),
        file("inside", 1, b"d", b"e"),
        file("touches_high", 1, b"f", b"g"),
        file("behind", 1, b"g", b"h"),
    ];
    assert_eq!(
        paths(&overlapping(&files, b"c", b"f")),
        vec!["touches_low", "inside", "touches_high"]
    );
    // Without an upper bound everything from the lower end on is read.
    assert_eq!(paths(&overlapping(&files, b"f", b"")), vec!["touches_high", "behind"]);
}

fn version() -> Version {
    let mut v = Version::empty(Arc::new(schema()));
    v.levels.insert(
        0,
        vec![
            file("l0_a", 0, b"c", b"d"),
            file("l0_b", 0, b"b", b"e"),
            file("l0_c", 0, b"b", b"e"),
            file("l0_d", 0, b"b", b"e"),
        ],
    );
    v.levels.insert(1, vec![file("l1_a", 1, b"a", b"a"), file("l1_b", 1, b"b", b"c")]);
    v
}

#[test]
fn a_compaction_replaces_what_it_reads() {
    let v = version();
    let mut busy = HashSet::new();
    let pick = reserve_next_compaction(&v, &EngineConfig::default(), &mut busy).unwrap();
    assert_eq!((pick.input_level, pick.output_level), (Level(0), Level(1)));
    assert!(busy.contains(&0) && busy.contains(&1));
    // The levels are taken: there is nothing for a second worker.
    assert!(reserve_next_compaction(&v, &EngineConfig::default(), &mut busy).is_none());

    let plan = plan_compaction(&v, &pick).unwrap();
    assert_eq!(paths(&plan.inputs), vec!["l0_a", "l0_b", "l0_c", "l0_d"]);
    assert_eq!(paths(&plan.overlaps), vec!["l1_b"]);

    let rows = vec![row(b"e", 1), row(b"b", 7)];
    let output = compaction_output(Level(1), "id", &rows, 50).unwrap().unwrap();
    assert_eq!(output.path, "data/L1/id.parquet");
    assert_eq!((output.meta.seq_min, output.meta.seq_max), (1, 7));
    assert_eq!((output.meta.key_min.as_slice(), output.meta.key_max.as_slice()), (&b"b"[..], &b"e"[..]));
    let txn = compaction_transaction(&plan, Some(output));
    assert_eq!(txn.num_adds(), 1);
    assert_eq!(txn.removes, vec!["l0_a", "l0_b", "l0_c", "l0_d", "l1_b"]);
    assert_eq!(txn.props.get("merutable.input_level").unwrap(), "0");
    assert_eq!(txn.props.get("merutable.output_level").unwrap(), "1");

    release(&mut busy, pick.input_level, pick.output_level);
    assert!(busy.is_empty());
}

#[test]
fn a_compaction_without_rows_adds_no_file() {
    assert!(compaction_output(Level(1), "id", &vec![], 0).unwrap().is_none());
    let err = compaction_output(Level(1), "id", &vec![row(b"a", 1)], 0).unwrap_err();
    assert!(matches!(err, MeruError::Parquet(_)));
}

#[test]
fn obsolete_files_come_with_their_puffin_files() {
    let v = version();
    let mut busy = HashSet::new();
    let pick = reserve_next_compaction(&v, &EngineConfig::default(), &mut busy).unwrap();
    let mut plan = plan_compaction(&v, &pick).unwrap();
    plan.inputs.truncate(1);
    plan.inputs[0].dv_path = Some("l0_a.puffin".into());
    assert_eq!(obsoleted_paths("/t", &plan), vec!["/t/l0_a", "/t/l0_a.puffin", "/t/l1_b"]);
}

#[test]
fn a_run_of_compactions_is_capped() {
    assert_eq!(after_compaction(0, false), RunStep::Drained);
    assert_eq!(after_compaction(126, true), RunStep::Again);
    assert_eq!(after_compaction(127, true), RunStep::Capped);
}

#[test]
fn source_dv_is_loaded_from_its_range() {
    let mut dv = DeletionVector::new();
    dv.mark_deleted(4);
    let puffin = dv.encode_puffin("l0_a", 1, 1).unwrap();
    let mut f = file("l0_a", 0, b"a", b"b");
    assert!(source_dv_path(&f).unwrap().is_none());
    f.dv_path = Some("p".into());
    assert!(matches!(source_dv_path(&f), Err(MeruError::Corruption(_))));
    f.dv_offset = Some(puffin.blob_offset);
    f.dv_length = Some(puffin.blob_length);
    assert_eq!(source_dv_path(&f).unwrap().unwrap(), "p");
    assert!(load_source_dv(&f, &puffin.bytes).unwrap().is_deleted(4));
    assert!(matches!(load_source_dv(&f, &puffin.bytes[..6]), Err(MeruError::Corruption(_))));
    f.dv_length = Some(-1);
    let message = load_source_dv(&f, &puffin.bytes).unwrap_err().to_string();
    assert_eq!(message, "corruption: DV has negative offset (4) or length (-1) on file l0_a");
}

const QUIET: Seen =
    Seen { shutdown: false, notified: false, pending: false, failed: false, closed: false };

#[test]
fn a_flush_worker_drains_and_retries() {
    let pending = Seen { pending: true, ..QUIET };
    let failed = Seen { failed: true, ..QUIET };
    assert_eq!(next_flush_phase(FlushPhase::Top, QUIET), FlushPhase::Wait);
    assert_eq!(next_flush_phase(FlushPhase::Wait, QUIET), FlushPhase::Drain);
    assert_eq!(next_flush_phase(FlushPhase::Drain, pending), FlushPhase::Flush);
    assert_eq!(next_flush_phase(FlushPhase::Flush, QUIET), FlushPhase::Drain);
    assert_eq!(next_flush_phase(FlushPhase::Flush, failed), FlushPhase::Backoff);
    assert_eq!(next_flush_phase(FlushPhase::Backoff, QUIET), FlushPhase::Drain);
    assert_eq!(next_flush_phase(FlushPhase::Drain, QUIET), FlushPhase::Top);
    let closed = Seen { closed: true, ..failed };
    assert_eq!(next_flush_phase(FlushPhase::Flush, closed), FlushPhase::Top);
}

#[test]
fn a_shutdown_stops_workers_wherever_they_are() {
    let stop = Seen { shutdown: true, pending: true, failed: true, ..QUIET };
    for start in [FlushPhase::Top, FlushPhase::Wait, FlushPhase::Drain, FlushPhase::Flush, FlushPhase::Backoff] {
        let mut phase = start;
        for _ in 0..4 {
            phase = next_flush_phase(phase, stop);
        }
        assert_eq!(phase, FlushPhase::Stopped);
    }
    for start in [CompactionPhase::Top, CompactionPhase::Wait, CompactionPhase::Recheck, CompactionPhase::Compact] {
        let mut phase = start;
        for _ in 0..2 {
            phase = next_compaction_phase(phase, stop);
        }
        assert_eq!(phase, CompactionPhase::Stopped);
    }
}

#[test]
fn a_compaction_worker_outlives_failures() {
    let failed = Seen { failed: true, ..QUIET };
    assert_eq!(next_compaction_phase(CompactionPhase::Compact, failed), CompactionPhase::Top);
    assert_eq!(
        next_compaction_phase(CompactionPhase::Compact, Seen { closed: true, ..failed }),
        CompactionPhase::Stopped
    );
    assert_eq!(
        next_compaction_phase(CompactionPhase::Wait, Seen { notified: true, ..QUIET }),
        CompactionPhase::Stopped
    );
}

#[test]
fn framed_rows_come_back_as_postcard() {
    let framed = frame_row(&vec![9, 8]);
    assert_eq!(framed, vec![POSTCARD_MARKER, 9, 8]);
    assert!(matches!(unframe_row(&framed), StoredRow::Postcard(b) if b == vec![9, 8]));
    assert!(matches!(unframe_row(b"{}"), StoredRow::Json(b) if b == b"{}".to_vec()));
    assert!(matches!(unframe_row(&[]), StoredRow::Empty));
    assert_eq!(row_or_default(None), Row::default());
    let row = Row::new(vec![None]);
    assert_eq!(row_or_default(Some(row.clone())), row);
}

/// What a commit makes of a version: removed files go, added ones come.
fn committed(v: &Version, txn: SnapshotTransaction) -> Version {
    let mut after = v.clone();
    for files in after.levels.values_mut() {
        files.retain(|f| !txn.removes.contains(&f.path));
    }
    for added in txn.adds {
        after.levels.entry(added.meta.level.0).or_default().push(DataFileMeta {
            path: added.path,
            meta: added.meta,
            dv_path: None,
            dv_offset: None,
            dv_length: None,
        });
    }
    after
}

#[test]
fn the_output_level_stays_free_of_overlaps() {
    let mut v = version();
    v.levels.insert(
        1,
        vec![
            file("l1_a", 1, b"a", b"a"),
            file("l1_b", 1, b"b", b"c"),
            file("l1_c", 1, b"d", b"f"),
            file("l1_d", 1, b"g", b"h"),
        ],
    );
    v.levels.insert(2, vec![file("l2_a", 2, b"a", b"z")]);
    let mut busy = HashSet::new();
    let pick = reserve_next_compaction(&v, &EngineConfig::default(), &mut busy).unwrap();
    let plan = plan_compaction(&v, &pick).unwrap();
    assert_eq!(paths(&plan.overlaps), vec!["l1_b", "l1_c"]);
    let rows = vec![row(b"b", 1), row(b"f", 2)];
    let output = compaction_output(Level(1), "id", &rows, 50).unwrap();
    let after = committed(&v, compaction_transaction(&plan, output));
    assert!(after.files_at(Level(0)).is_empty());
    assert_eq!(paths(after.files_at(Level(1))), vec!["l1_a", "l1_d", "data/L1/id.parquet"]);
    assert_eq!(paths(after.files_at(Level(2))), vec!["l2_a"]);
    for (i, f) in after.files_at(Level(1)).iter().enumerate() {
        for g in &after.files_at(Level(1))[i + 1..] {
            assert!(f.meta.key_max < g.meta.key_min || g.meta.key_max < f.meta.key_min);
        }
    }
}

#[test]
fn inconsistent_dv_coordinates_are_shown_as_they_are() {
    let mut f = file("l0_a", 0, b"a", b"b");
    f.dv_path = Some("p \"q\" \\ \n\u{e9}.puffin".into());
    f.dv_length = Some(7);
    let shown = format!(
        "corruption: inconsistent DV coords on file l0_a: dv_path={:?} dv_offset={:?} dv_length={:?}",
        f.dv_path, f.dv_offset, f.dv_length,
    );
    assert_eq!(source_dv_path(&f).unwrap_err().to_string(), shown);
}

#[test]
fn statistics_are_copied_whole() {
    let stats = LevelStats {
        level: 1,
        file_count: 1,
        total_bytes: 2,
        total_rows: 3,
        files: vec![FileStats {
            path: "p".into(),
            file_size: 2,
            num_rows: 3,
            seq_range: (4, 5),
            has_dv: true,
        }],
    };
    assert_eq!(format!("{:?}", stats.clone()), format!("{stats:?}"));
}
