use std::sync::Arc;

use merutable::iceberg::version::{DataFileMeta, Version, VersionSet};
use merutable::types::level::{Level, ParquetFileMeta};
use merutable::types::schema::{ColumnDef, ColumnType, TableSchema};

fn test_schema() -> Arc<TableSchema> {
    Arc::new(TableSchema {
        table_name: "test".into(),
        columns: vec![
            ColumnDef { name: "id".into(), col_type: ColumnType::Int64, nullable: false },
            ColumnDef { name: "val".into(), col_type: ColumnType::ByteArray, nullable: true },
        ],
        primary_key: vec![0],
    })
}

fn make_file(
    path: &str,
    level: u8,
    key_min: &[u8],
    key_max: &[u8],
    seq_min: u64,
    seq_max: u64,
    num_rows: u64,
) -> DataFileMeta {
    DataFileMeta {
        path: path.to_string(),
        meta: ParquetFileMeta {
            level: Level(level),
            seq_min,
            seq_max,
            key_min: key_min.to_vec(),
            key_max: key_max.to_vec(),
            num_rows,
            file_size: num_rows * 100,
            dv_path: None,
            dv_offset: None,
            dv_length: None,
            format: None,
            column_stats: None,
        },
        dv_path: None,
        dv_offset: None,
        dv_length: None,
    }
}

#[test]
fn empty_version() {
    let v = Version::empty(test_schema());
    assert_eq!(v.l0_file_count(), 0);
    assert_eq!(v.total_files(), 0);
    assert_eq!(v.max_level(), Level(0));
}

#[test]
fn l0_file_count() {
    let mut v = Version::empty(test_schema());
    v.levels.insert(
        0,
        vec![
            make_file("f1.parquet", 0, b"\x01", b"\x05", 1, 10, 100),
            make_file("f2.parquet", 0, b"\x03", b"\x08", 11, 20, 200),
        ],
    );
    assert_eq!(v.l0_file_count(), 2);
}

#[test]
fn find_file_for_key_l1() {
    let mut v = Version::empty(test_schema());
    // Three files that do not overlap, sorted by their smallest key.
    v.levels.insert(
        1,
        vec![
            make_file("a.parquet", 1, b"\x01", b"\x03", 1, 10, 100),
            make_file("b.parquet", 1, b"\x05", b"\x08", 1, 10, 100),
            make_file("c.parquet", 1, b"\x0A", b"\x0F", 1, 10, 100),
        ],
    );

    assert_eq!(
        v.find_file_for_key(Level(1), &[0x02]).unwrap().path,
        "a.parquet"
    );
    assert_eq!(
        v.find_file_for_key(Level(1), &[0x06]).unwrap().path,
        "b.parquet"
    );
    assert_eq!(
        v.find_file_for_key(Level(1), &[0x0C]).unwrap().path,
        "c.parquet"
    );
    // Between a and b, before all, and behind all.
    assert!(v.find_file_for_key(Level(1), &[0x04]).is_none());
    assert!(v.find_file_for_key(Level(1), &[0x00]).is_none());
    assert!(v.find_file_for_key(Level(1), &[0xFF]).is_none());
}

#[test]
fn version_set_swap() {
    let schema = test_schema();
    let v1 = Version::empty(schema.clone());
    let mut vs = VersionSet::new(v1);
    assert_eq!(vs.snapshot_id(), 0);

    let mut v2 = Version::empty(schema);
    v2.snapshot_id = 42;
    v2.levels.insert(
        0,
        vec![make_file("new.parquet", 0, b"\x01", b"\xFF", 1, 50, 500)],
    );
    vs.install(v2);

    assert_eq!(vs.snapshot_id(), 42);
    let guard = vs.current();
    assert_eq!(guard.l0_file_count(), 1);
}

#[test]
fn level_bytes() {
    let mut v = Version::empty(test_schema());
    v.levels.insert(
        1,
        vec![
            make_file("a.parquet", 1, b"\x01", b"\x05", 1, 10, 100),
            make_file("b.parquet", 1, b"\x06", b"\x0A", 1, 10, 200),
        ],
    );
    // Each file: num_rows * 100 bytes.
    assert_eq!(v.level_bytes(Level(1)), 100 * 100 + 200 * 100);
    assert_eq!(v.level_bytes(Level(2)), 0);
}

#[test]
fn a_pinned_version_outlives_an_install() {
    let schema = test_schema();
    let mut vs = VersionSet::new(Version::empty(schema.clone()));
    let pinned = vs.current();
    let mut v2 = Version::empty(schema);
    v2.snapshot_id = 1;
    vs.install(v2);
    assert_eq!(pinned.snapshot_id, 0);
    assert_eq!(vs.current().snapshot_id, 1);
}

#[test]
fn a_level_without_files_is_not_the_deepest() {
    let mut v = Version::empty(test_schema());
    v.levels.insert(3, Vec::new());
    assert_eq!(v.max_level(), Level(0));
    v.levels.insert(1, vec![make_file("f.parquet", 1, b"\x01", b"\x02", 1, 2, 1)]);
    assert_eq!(v.max_level(), Level(1));
    assert_eq!(v.clone().max_level(), Level(1));
}

#[test]
fn levels_and_files_are_counted() {
    let mut v = Version::empty(test_schema());
    v.levels.insert(3, vec![make_file("d.parquet", 3, b"\x01", b"\x02", 1, 2, 1)]);
    v.levels.insert(0, vec![make_file("e.parquet", 0, b"\x01", b"\x02", 1, 2, 1)]);
    assert_eq!(v.max_level(), Level(3));
    assert_eq!(v.total_files(), 2);
    assert_eq!(v.files_at(Level(3)).len(), 1);
    assert_eq!(v.files_at(Level(2)).len(), 0);
    assert!(!v.files_at(Level(3))[0].has_dv());
}
