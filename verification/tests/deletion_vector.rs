use merutable::iceberg::deletion_vector::DeletionVector;
use merutable::types::error::MeruError;
use roaring::RoaringBitmap;

const PUFFIN_MAGIC: [u8; 4] = [0x50, 0x46, 0x41, 0x31];

#[test]
fn empty_dv() {
    let dv = DeletionVector::new();
    assert!(dv.is_empty());
    assert_eq!(dv.cardinality(), 0);
    assert!(!dv.is_deleted(0));
}

#[test]
fn mark_and_check() {
    let mut dv = DeletionVector::new();
    dv.mark_deleted(5);
    dv.mark_deleted(100);
    dv.mark_deleted(9999);
    assert!(dv.is_deleted(5));
    assert!(dv.is_deleted(100));
    assert!(dv.is_deleted(9999));
    assert!(!dv.is_deleted(6));
    assert_eq!(dv.cardinality(), 3);
}

#[test]
fn union_merge() {
    let mut dv1 = DeletionVector::new();
    dv1.mark_deleted(1);
    dv1.mark_deleted(3);
    dv1.mark_deleted(5);

    let mut dv2 = DeletionVector::new();
    dv2.mark_deleted(2);
    dv2.mark_deleted(3);
    dv2.mark_deleted(7);

    dv1.union_with(&dv2);
    assert_eq!(dv1.cardinality(), 5); // {1,2,3,5,7}
    for pos in [1, 2, 3, 5, 7] {
        assert!(dv1.is_deleted(pos));
    }
    assert!(!dv1.is_deleted(4));
}

#[test]
fn puffin_roundtrip() {
    let mut dv = DeletionVector::new();
    for i in (0..1000).step_by(3) {
        dv.mark_deleted(i);
    }

    let puffin = dv
        .to_puffin_bytes("s3://bucket/data/L0/abc123.parquet", 42, 7)
        .unwrap();

    // Magic at both ends.
    assert_eq!(&puffin[..4], &PUFFIN_MAGIC);
    assert_eq!(&puffin[puffin.len() - 4..], &PUFFIN_MAGIC);

    let decoded = DeletionVector::from_puffin_bytes(&puffin).unwrap();
    assert_eq!(decoded.cardinality(), dv.cardinality());
    for i in (0..1000).step_by(3) {
        assert!(decoded.is_deleted(i));
    }
    for i in (1..1000).step_by(3) {
        assert!(!decoded.is_deleted(i));
    }
}

#[test]
fn puffin_referenced_data_file() {
    let mut dv = DeletionVector::new();
    dv.mark_deleted(0);
    let path = "s3://bucket/data/L1/xyz789.parquet";
    let puffin = dv.to_puffin_bytes(path, 100, 1).unwrap();
    let extracted = DeletionVector::referenced_data_file(&puffin).unwrap();
    assert_eq!(extracted, path);
}

#[test]
fn puffin_empty_dv() {
    let dv = DeletionVector::new();
    let puffin = dv
        .to_puffin_bytes("file:///tmp/test.parquet", 1, 1)
        .unwrap();
    let decoded = DeletionVector::from_puffin_bytes(&puffin).unwrap();
    assert!(decoded.is_empty());
}

#[test]
fn puffin_bad_magic_rejected() {
    let mut data = vec![0u8; 20];
    // Wrong opening magic.
    data[0..4].copy_from_slice(&[0xFF, 0xFF, 0xFF, 0xFF]);
    assert!(DeletionVector::from_puffin_bytes(&data).is_err());
}

#[test]
fn puffin_negative_footer_len_rejected() {
    // Magic, padding, a negative footer length, magic.
    let neg: i32 = -1;
    let mut data = Vec::new();
    data.extend_from_slice(&PUFFIN_MAGIC);
    data.extend_from_slice(&[0u8; 4]);
    data.extend_from_slice(&neg.to_le_bytes());
    data.extend_from_slice(&PUFFIN_MAGIC);
    let err = DeletionVector::from_puffin_bytes(&data).unwrap_err();
    let msg = format!("{err:?}");
    assert!(
        msg.contains("negative"),
        "expected 'negative' in error: {msg}"
    );
}

#[test]
fn puffin_too_short_rejected() {
    assert!(DeletionVector::from_puffin_bytes(&[0x50, 0x46]).is_err());
}

#[test]
fn from_bitmap_roundtrip() {
    let mut bm = RoaringBitmap::new();
    bm.insert(10);
    bm.insert(20);
    let dv = DeletionVector::from_bitmap(bm);
    assert!(dv.is_deleted(10));
    assert!(dv.is_deleted(20));
    assert!(!dv.is_deleted(15));
    assert_eq!(dv.bitmap().iter().collect::<Vec<u32>>(), vec![10, 20]);
}

#[test]
fn large_dv_puffin_roundtrip() {
    let mut dv = DeletionVector::new();
    // 100K deleted positions, as after a large compaction.
    for i in 0..100_000u32 {
        dv.mark_deleted(i * 2); // even positions
    }
    let puffin = dv.to_puffin_bytes("data/L0/big.parquet", 999, 50).unwrap();
    let decoded = DeletionVector::from_puffin_bytes(&puffin).unwrap();
    assert_eq!(decoded.cardinality(), 100_000);
    assert!(decoded.is_deleted(0));
    assert!(!decoded.is_deleted(1));
    assert!(decoded.is_deleted(199_998));
}

#[test]
fn clone_and_union_keep_their_sources() {
    let mut a = DeletionVector::new();
    a.mark_deleted(1);
    let mut b = a.clone();
    b.mark_deleted(2);
    assert_eq!(a.cardinality(), 1);
    assert_eq!(b.cardinality(), 2);
    b.union_with(&a);
    assert_eq!(b.cardinality(), 2);
}

#[test]
fn encoded_blob_lies_where_its_coordinates_say() {
    let mut dv = DeletionVector::new();
    dv.mark_deleted(7);
    dv.mark_deleted(70_000);
    let p = dv.encode_puffin("data/L0/a.parquet", 3, 3).unwrap();
    assert_eq!(p.blob_offset, 4);
    let from = p.blob_offset as usize;
    let blob = &p.bytes[from..from + p.blob_length as usize];
    // The blob is the bitmap in the portable roaring format.
    let bitmap = RoaringBitmap::deserialize_from(blob).unwrap();
    assert_eq!(bitmap.iter().collect::<Vec<u32>>(), vec![7, 70_000]);
    let decoded = DeletionVector::from_puffin_blob(blob).unwrap();
    assert_eq!(decoded.cardinality(), 2);
}

#[test]
fn puffin_footer_is_json_in_front_of_its_length() {
    let mut dv = DeletionVector::new();
    dv.mark_deleted(1);
    let puffin = dv.to_puffin_bytes("data/L0/a.parquet", 5, 6).unwrap();
    let n = puffin.len();
    let len = i32::from_le_bytes([puffin[n - 8], puffin[n - 7], puffin[n - 6], puffin[n - 5]]);
    let footer = &puffin[n - 8 - len as usize..n - 8];
    let value: serde_json::Value = serde_json::from_slice(footer).unwrap();
    let blob = &value["blobs"][0];
    assert_eq!(blob["type"], "deletion-vector-v1");
    assert_eq!(blob["snapshot-id"], 5);
    assert_eq!(blob["sequence-number"], 6);
    assert_eq!(blob["offset"], 4);
}

/// A Puffin frame around this footer.
fn frame(footer: &[u8]) -> Vec<u8> {
    let mut data = PUFFIN_MAGIC.to_vec();
    data.extend_from_slice(footer);
    data.extend_from_slice(&(footer.len() as i32).to_le_bytes());
    data.extend_from_slice(&PUFFIN_MAGIC);
    data
}

fn rejected(data: &[u8]) -> String {
    match DeletionVector::from_puffin_bytes(data) {
        Err(MeruError::Corruption(m)) => m,
        other => panic!("expected a corruption, got {other:?}"),
    }
}

#[test]
fn puffin_footer_faults_are_corruption() {
    // Closing magic.
    let mut open_only = PUFFIN_MAGIC.to_vec();
    open_only.extend_from_slice(&[0u8; 12]);
    rejected(&open_only);
    // A length beyond the file.
    let mut too_large = PUFFIN_MAGIC.to_vec();
    too_large.extend_from_slice(&1000i32.to_le_bytes());
    too_large.extend_from_slice(&PUFFIN_MAGIC);
    rejected(&too_large);
    // A footer that is no text, and one that is no JSON.
    rejected(&frame(&[0xFF, 0xFE]));
    rejected(&frame(b"not json"));
    // A footer without blobs, one whose blob lacks its data file, and one
    // whose blob lies outside the file.
    rejected(&frame(br#"{"blobs":[]}"#));
    rejected(&frame(
        br#"{"blobs":[{"type":"deletion-vector-v1","fields":[],"snapshot-id":1,"sequence-number":1,"offset":4,"length":5000}]}"#,
    ));
    let outside = rejected(&frame(
        br#"{"blobs":[{"type":"deletion-vector-v1","fields":{"referenced-data-file":"a"},"snapshot-id":1,"sequence-number":1,"offset":4,"length":5000}]}"#,
    ));
    assert!(outside.starts_with("Puffin blob at offset 4 length 5000 exceeds file size"));
}

#[test]
fn puffin_footers_may_list_their_fields_in_order() {
    let listed = frame(br#"[[["deletion-vector-v1",["a"],1,2,4,5000,null]]]"#);
    assert_eq!(DeletionVector::referenced_data_file(&listed).unwrap(), "a");
    let with_properties = frame(br#"[[["deletion-vector-v1",["a"],1,2,4,5000,null]],{}]"#);
    assert_eq!(DeletionVector::referenced_data_file(&with_properties).unwrap(), "a");
    // One field too few, and one too many.
    for footer in [
        &br#"[[["deletion-vector-v1",["a"],1,2,4,5000]]]"#[..],
        &br#"[[["deletion-vector-v1",["a"],1,2,4,5000,null]],{},0]"#[..],
        &br#"[]"#[..],
    ] {
        assert!(DeletionVector::referenced_data_file(&frame(footer)).is_err());
    }
}

#[test]
fn puffin_blob_that_is_no_bitmap_is_rejected() {
    assert!(matches!(
        DeletionVector::from_puffin_blob(&[1, 2, 3]),
        Err(MeruError::Corruption(_))
    ));
}

#[test]
fn a_blob_takes_the_bytes_that_its_bitmap_says() {
    let mut dv = DeletionVector::new();
    for rows in [0u32, 1, 70_000, 5_000_000] {
        dv.mark_deleted(rows);
        let encoded = dv.encode_puffin("a", 1, 1).unwrap();
        assert_eq!(encoded.blob_length as usize, dv.bitmap().serialized_size());
        assert_eq!(dv.clone().bitmap().serialized_size(), dv.bitmap().serialized_size());
    }
    // Run containers are written as they are.
    let mut runs = dv.bitmap().clone();
    for row in 100..9000 {
        runs.insert(row);
    }
    assert!(runs.optimize());
    let dv = DeletionVector::from_bitmap(runs);
    let encoded = dv.encode_puffin("a", 1, 1).unwrap();
    assert_eq!(encoded.blob_length as usize, dv.bitmap().serialized_size());
    let back = DeletionVector::from_puffin_bytes(&encoded.bytes).unwrap();
    assert_eq!(back.bitmap(), dv.bitmap());
}
