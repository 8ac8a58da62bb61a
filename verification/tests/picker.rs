use std::collections::HashSet;
use std::sync::Arc;

use merutable::engine::compaction::picker::{pick_compaction, should_drop_tombstones, Score};
use merutable::engine::config::EngineConfig;
use merutable::iceberg::version::{DataFileMeta, Version};
use merutable::types::level::{Level, ParquetFileMeta};
use merutable::types::schema::{ColumnDef, ColumnType, TableSchema};

fn test_schema() -> Arc<TableSchema> {
    Arc::new(TableSchema {
        table_name: "test".into(),
        columns: vec![ColumnDef {
            name: "id".into(),
            col_type: ColumnType::Int64,
            nullable: false,
        }],
        primary_key: vec![0],
    })
}

fn make_file(path: &str, level: u8, num_rows: u64, file_size: u64) -> DataFileMeta {
    DataFileMeta {
        path: path.to_string(),
        meta: ParquetFileMeta {
            level: Level(level),
            seq_min: 1,
            seq_max: 10,
            key_min: vec![0x01],
            key_max: vec![0xFF],
            num_rows,
            file_size,
            dv_path: None,
            dv_offset: None,
            dv_length: None,
            format: None,
            column_stats: None,
        },
        dv_path: None,
        dv_offset: None,
        dv_length: None,
    }
}

fn l0_files(n: usize) -> Vec<DataFileMeta> {
    (0..n)
        .map(|i| make_file(&format!("l0_{i}.parquet"), 0, 100, 1024))
        .collect()
}

/// Ten files of 1 GiB.
fn l2_files() -> Vec<DataFileMeta> {
    (0..10)
        .map(|i| make_file(&format!("l2_{i}.parquet"), 2, 1_000_000, 1024 * 1024 * 1024))
        .collect()
}

fn empty_busy() -> HashSet<u8> {
    HashSet::new()
}

fn l0_and_l1_busy() -> HashSet<u8> {
    let mut busy = HashSet::new();
    busy.insert(0);
    busy.insert(1);
    busy
}

#[test]
fn no_compaction_needed() {
    let v = Version::empty(test_schema());
    let config = EngineConfig::default();
    assert!(pick_compaction(&v, &config, &empty_busy()).is_none());
}

#[test]
fn l0_compaction_trigger() {
    let mut v = Version::empty(test_schema());
    // More files than the trigger of 4.
    v.levels.insert(0, l0_files(5));

    let config = EngineConfig::default();
    let pick = pick_compaction(&v, &config, &empty_busy()).unwrap();
    assert_eq!(pick.input_level, Level(0));
    assert_eq!(pick.output_level, Level(1));
    assert_eq!(pick.input_files.len(), 5);
    assert_eq!(pick.input_files[4], "l0_4.parquet");
}

#[test]
fn l0_priority_above_slowdown() {
    let mut v = Version::empty(test_schema());
    let config = EngineConfig::default();

    // Level 0: 25 files, above the slowdown of 20.
    v.levels.insert(0, l0_files(25));
    // Level 2: 10 GiB against a target of 2 GiB.
    v.levels.insert(2, l2_files());

    let pick = pick_compaction(&v, &config, &empty_busy()).unwrap();
    assert_eq!(
        pick.input_level,
        Level(0),
        "L0 above slowdown must be prioritized over deeper-level pressure"
    );
}

#[test]
fn deeper_level_wins_when_l0_below_slowdown() {
    let mut v = Version::empty(test_schema());
    let config = EngineConfig::default();

    // Level 0: 5 files, above the trigger but below the slowdown.
    v.levels.insert(0, l0_files(5));
    // Level 2 scores 5.0 against 1.25.
    v.levels.insert(2, l2_files());

    let pick = pick_compaction(&v, &config, &empty_busy()).unwrap();
    assert_eq!(
        pick.input_level,
        Level(2),
        "below slowdown, deeper level with higher score should win"
    );
}

#[test]
fn picks_disjoint_level_when_l0_busy() {
    let mut v = Version::empty(test_schema());
    let config = EngineConfig::default();
    v.levels.insert(0, l0_files(5));
    v.levels.insert(2, l2_files());

    // Another worker compacts level 0 into level 1.
    let pick = pick_compaction(&v, &config, &l0_and_l1_busy()).unwrap();
    assert_eq!(
        pick.input_level,
        Level(2),
        "L0 busy: another worker must be able to pick L2"
    );
    assert_eq!(pick.output_level, Level(3));
}

#[test]
fn returns_none_when_all_candidates_busy() {
    let mut v = Version::empty(test_schema());
    let config = EngineConfig::default();
    v.levels.insert(0, l0_files(5));
    assert!(
        pick_compaction(&v, &config, &l0_and_l1_busy()).is_none(),
        "no other level needs compaction: must return None when L0 is busy"
    );
}

#[test]
fn l0_force_pick_respects_busy_l0() {
    let mut v = Version::empty(test_schema());
    let config = EngineConfig::default();

    // Level 0: 30 files, well above the slowdown.
    v.levels.insert(0, l0_files(30));
    v.levels.insert(2, l2_files());

    let pick = pick_compaction(&v, &config, &l0_and_l1_busy()).unwrap();
    assert_eq!(
        pick.input_level,
        Level(2),
        "L0 busy: force-pick must defer to normal scoring and pick L2"
    );
}

#[test]
fn tombstone_drop_only_at_true_bottom_level() {
    // With four targets L1 to L4 have one, and L5 is the bottom.
    let n = 4;
    for output in 1..=n {
        assert!(
            !should_drop_tombstones(Level(output as u8), n),
            "output L{output} must NOT drop tombstones (L{n} still has a target)"
        );
    }
    assert!(
        should_drop_tombstones(Level((n + 1) as u8), n),
        "output L{} must drop tombstones (true bottom level)",
        n + 1
    );

    // Without targets L1 is the bottom.
    assert!(!should_drop_tombstones(Level(0), 0));
    assert!(should_drop_tombstones(Level(1), 0));

    // With one target L2 is the bottom.
    assert!(!should_drop_tombstones(Level(1), 1));
    assert!(should_drop_tombstones(Level(2), 1));
}

#[test]
fn a_level_at_its_trigger_is_picked() {
    let mut v = Version::empty(test_schema());
    let config = EngineConfig::default();
    v.levels.insert(0, l0_files(3));
    assert!(pick_compaction(&v, &config, &empty_busy()).is_none());
    v.levels.insert(0, l0_files(4));
    let pick = pick_compaction(&v, &config, &empty_busy()).unwrap();
    assert_eq!(pick.score, Score { numerator: 4, denominator: 4 });
}

#[test]
fn scores_are_compared_as_fractions() {
    let third = Score { numerator: 1, denominator: 3 };
    let half = Score { numerator: u64::MAX / 2, denominator: u64::MAX };
    assert!(half.is_above(third));
    assert!(!third.is_above(half));
    assert!(!third.is_above(third));
}
