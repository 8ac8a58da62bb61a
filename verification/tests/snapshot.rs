use merutable::iceberg::deletion_vector::DeletionVector;
use merutable::iceberg::snapshot::{IcebergDataFile, SnapshotTransaction};
use merutable::types::level::{Level, ParquetFileMeta};

fn test_data_file(path: &str, level: u8) -> IcebergDataFile {
    IcebergDataFile {
        path: path.to_string(),
        file_size: 1024,
        num_rows: 100,
        meta: ParquetFileMeta {
            level: Level(level),
            seq_min: 1,
            seq_max: 10,
            key_min: vec![0x01],
            key_max: vec![0xFF],
            num_rows: 100,
            file_size: 1024,
            dv_path: None,
            dv_offset: None,
            dv_length: None,
            format: None,
            column_stats: None,
        },
    }
}

#[test]
fn empty_txn() {
    let txn = SnapshotTransaction::new();
    assert!(txn.is_empty());
    assert_eq!(txn.num_adds(), 0);
    assert_eq!(txn.num_removes(), 0);
}

#[test]
fn add_and_remove() {
    let mut txn = SnapshotTransaction::new();
    txn.add_file(test_data_file("data/L0/a.parquet", 0));
    txn.add_file(test_data_file("data/L1/b.parquet", 1));
    txn.remove_file("data/L0/old.parquet".into());
    txn.set_prop("merutable.job", "compaction");

    assert!(!txn.is_empty());
    assert_eq!(txn.num_adds(), 2);
    assert_eq!(txn.num_removes(), 1);
    assert_eq!(txn.props.get("merutable.job").unwrap(), "compaction");
}

#[test]
fn dv_merge_in_txn() {
    let mut txn = SnapshotTransaction::new();

    let mut dv1 = DeletionVector::new();
    dv1.mark_deleted(0);
    dv1.mark_deleted(5);
    txn.add_dv("data/L0/a.parquet".into(), dv1);

    let mut dv2 = DeletionVector::new();
    dv2.mark_deleted(5);
    dv2.mark_deleted(10);
    txn.add_dv("data/L0/a.parquet".into(), dv2);

    let merged = txn.dvs.get("data/L0/a.parquet").unwrap();
    assert_eq!(merged.cardinality(), 3); // {0, 5, 10}
}

#[test]
fn a_deletion_alone_makes_a_transaction_nonempty() {
    let mut txn = SnapshotTransaction::new();
    txn.set_prop("merutable.job", "flush");
    assert!(txn.is_empty());
    let mut dv = DeletionVector::new();
    dv.mark_deleted(3);
    txn.add_dv("data/L0/a.parquet".into(), dv);
    assert!(!txn.is_empty());
    assert_eq!(txn.dvs.len(), 1);
    assert_eq!(txn.dvs.key_at(0), "data/L0/a.parquet");
    assert!(txn.dvs.value_at(0).is_deleted(3));
    assert!(txn.dvs.get("data/L0/b.parquet").is_none());
}

#[test]
fn a_property_is_replaced() {
    let mut txn = SnapshotTransaction::new();
    txn.set_prop("k", "1");
    txn.set_prop("k", "2");
    assert_eq!(txn.props.len(), 1);
    assert_eq!(txn.props.get("k").unwrap(), "2");
}
