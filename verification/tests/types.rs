use merutable::text::{chars_of, dec_i64, dec_u64, parse_trimmed_i64, same_text, string_of};
use merutable::textmap::TextMap;
use merutable::types::error::MeruError;
use merutable::types::level::{ColumnStats, FileFormat, Level, ParquetFileMeta};
use merutable::keyorder::{is_less, is_less_or_equal};
use merutable::types::value::{FieldValue, Row};
use merutable::wal::format::{RecordType, BLOCK_SIZE, HEADER_SIZE, RECYCLABLE_HEADER_SIZE};

fn meta() -> ParquetFileMeta {
    ParquetFileMeta {
        level: Level(1),
        seq_min: 3,
        seq_max: u64::MAX,
        key_min: vec![0x00, 0xAB],
        key_max: vec![0xFF],
        num_rows: 10,
        file_size: 2048,
        dv_path: Some("data/L1/a.dv-2.puffin".into()),
        dv_offset: Some(4),
        dv_length: Some(40),
        format: Some(FileFormat::Dual),
        column_stats: Some(vec![ColumnStats {
            field_id: -1,
            compressed_bytes: 5,
            value_count: 6,
            null_count: 7,
            lower_bound: Some(vec![1, 2]),
            upper_bound: None,
        }]),
    }
}

#[test]
fn metadata_survives_its_json() {
    let text = meta().serialize().unwrap();
    let back = ParquetFileMeta::deserialize(&text).unwrap();
    assert_eq!(back.level, Level(1));
    assert_eq!((back.seq_min, back.seq_max), (3, u64::MAX));
    assert_eq!((back.key_min, back.key_max), (vec![0x00, 0xAB], vec![0xFF]));
    assert_eq!((back.num_rows, back.file_size), (10, 2048));
    assert_eq!(back.dv_path.as_deref(), Some("data/L1/a.dv-2.puffin"));
    assert_eq!((back.dv_offset, back.dv_length), (Some(4), Some(40)));
    assert_eq!(back.format, Some(FileFormat::Dual));
    let stats = &back.column_stats.unwrap()[0];
    assert_eq!((stats.field_id, stats.compressed_bytes), (-1, 5));
    assert_eq!((stats.value_count, stats.null_count), (6, 7));
    assert_eq!(stats.lower_bound, Some(vec![1, 2]));
    assert_eq!(stats.upper_bound, None);
}

#[test]
fn keys_are_hexadecimal_in_json() {
    let value: serde_json::Value = serde_json::from_str(&meta().serialize().unwrap()).unwrap();
    assert_eq!(value["key_min"], "00ab");
    assert_eq!(value["key_max"], "ff");
    assert_eq!(value["seq_max"], u64::MAX);
}

#[test]
fn bad_metadata_is_refused() {
    assert!(ParquetFileMeta::deserialize("").is_err());
    assert!(ParquetFileMeta::deserialize("[]").is_err());
    assert!(ParquetFileMeta::deserialize("{}").is_err());
    let odd = meta().serialize().unwrap().replace("00ab", "00a");
    assert!(ParquetFileMeta::deserialize(&odd).is_err());
    let letters = meta().serialize().unwrap().replace("00ab", "zz");
    assert!(ParquetFileMeta::deserialize(&letters).is_err());
}

#[test]
fn optional_metadata_may_be_absent() {
    let text = r#"{"level":0,"seq_min":1,"seq_max":2,"key_min":"","key_max":"01","num_rows":3,"file_size":4}"#;
    let m = ParquetFileMeta::deserialize(text).unwrap();
    assert_eq!(m.key_max, vec![1]);
    assert!(m.dv_path.is_none() && m.dv_offset.is_none() && m.dv_length.is_none());
    assert!(m.format.is_none() && m.column_stats.is_none());
}

#[test]
fn metadata_may_list_its_fields_in_order() {
    let short = r#"[2,1,9,"00","ff",3,4,null,5,6]"#;
    let m = ParquetFileMeta::deserialize(short).unwrap();
    assert_eq!((m.level, m.seq_min, m.seq_max), (Level(2), 1, 9));
    assert_eq!((m.key_min, m.key_max, m.num_rows, m.file_size), (vec![0], vec![0xFF], 3, 4));
    assert_eq!((m.dv_path, m.dv_offset, m.dv_length), (None, Some(5), Some(6)));
    assert!(m.format.is_none() && m.column_stats.is_none());
    let full = r#"[2,1,9,"00","ff",3,4,"p",5,6,"columnar",[[7,1,2,3],[8,1,2,3,"0a",null]]]"#;
    let m = ParquetFileMeta::deserialize(full).unwrap();
    assert_eq!((m.dv_path.as_deref(), m.format), (Some("p"), Some(FileFormat::Columnar)));
    let stats = m.column_stats.unwrap();
    assert_eq!((stats[0].field_id, stats[1].field_id), (7, 8));
    assert_eq!((&stats[0].lower_bound, &stats[1].lower_bound), (&None, &Some(vec![0x0A])));
    for text in [
        r#"[2,1,9,"00","ff",3,4,null,5]"#,
        r#"[2,1,9,"00","ff",3,4,"p",5,6,null,null,0]"#,
        r#"[2,1,9,"00","ff",3,4,"p",5,6,null,[[7,1,2]]]"#,
    ] {
        assert!(ParquetFileMeta::deserialize(text).is_err(), "{text}");
    }
}

#[test]
fn level_zero_has_the_row_blob_by_default() {
    assert_eq!(FileFormat::default_for_level(Level(0)), FileFormat::Dual);
    assert_eq!(FileFormat::default_for_level(Level(1)), FileFormat::Columnar);
    assert!(FileFormat::Dual.has_value_blob());
    assert!(!FileFormat::Columnar.has_value_blob());
    assert_eq!(Level(3).next(), Level(4));
    assert_eq!(Level(3).to_string(), "L3");
}

#[test]
fn every_error_has_its_line() {
    let m = || "m".to_string();
    let lines = [
        (MeruError::Io(m()), "IO error: m"),
        (MeruError::Corruption(m()), "corruption: m"),
        (MeruError::SchemaMismatch(m()), "schema mismatch: m"),
        (MeruError::NotFound, "key not found"),
        (MeruError::ObjectStore(m()), "object store error: m"),
        (MeruError::Parquet(m()), "parquet error: m"),
        (MeruError::Iceberg(m()), "iceberg error: m"),
        (MeruError::Wal(m()), "WAL error: m"),
        (MeruError::Compaction(m()), "compaction error: m"),
        (MeruError::InvalidArgument(m()), "invalid argument: m"),
        (MeruError::ReadOnly, "operation not permitted: database is read-only"),
        (MeruError::Closed, "database is closed"),
        (MeruError::AlreadyExists(m()), "object already exists: m"),
    ];
    for (error, line) in lines {
        assert_eq!(error.to_string(), line);
    }
}

#[test]
fn record_types_roundtrip() {
    for byte in 0..=u8::MAX {
        match RecordType::from_byte(byte) {
            Some(t) => {
                assert_eq!(t.to_byte(), byte);
                let size = if t.is_recyclable() { RECYCLABLE_HEADER_SIZE } else { HEADER_SIZE };
                assert_eq!(t.header_size(), size);
            }
            None => assert!(byte == 0 || byte > 8),
        }
    }
    assert_eq!(BLOCK_SIZE, 32 * 1024);
}

#[test]
fn numbers_are_printed_and_parsed() {
    assert_eq!(dec_u64(0), "0");
    assert_eq!(dec_i64(i64::MIN), "-9223372036854775808");
    for s in ["0", "-1", "+7", " 12\t", "\u{2003}5", "", "-", "+", "1x", "9223372036854775807",
        "9223372036854775808", "-9223372036854775808", "-9223372036854775809", "007"] {
        assert_eq!(parse_trimmed_i64(s), s.trim().parse::<i64>().ok(), "{s:?}");
    }
}

#[test]
fn texts_are_sequences_of_characters() {
    let chars = chars_of("aé€");
    assert_eq!(chars, vec!['a', 'é', '€']);
    assert_eq!(string_of(&chars, 1, 3), "é€");
    assert!(same_text("ab", "ab"));
    assert!(!same_text("ab", "aB"));
}

#[test]
fn keys_order_by_their_bytes() {
    let keys: [&[u8]; 6] = [b"", b"\0", b"a", b"ab", b"b", b"\xFF"];
    for a in keys {
        for b in keys {
            assert_eq!(is_less(a, b), a < b);
            assert_eq!(is_less_or_equal(a, b), a <= b);
        }
    }
}

#[test]
fn a_text_map_keeps_insertion_order() {
    let mut m: TextMap<u8> = TextMap::new();
    assert!(m.is_empty());
    m.insert("b".into(), 1);
    m.insert("a".into(), 2);
    m.insert("b".into(), 3);
    assert_eq!(m.len(), 2);
    assert_eq!((m.key_at(0).as_str(), *m.value_at(0)), ("b", 3));
    assert_eq!((m.key_at(1).as_str(), *m.value_at(1)), ("a", 2));
    assert_eq!(m.get("c"), None);
}

#[test]
fn rows_hold_values_and_nulls() {
    let row = Row::new(vec![Some(FieldValue::Boolean(true)), None]);
    assert_eq!(row.get(0), Some(&FieldValue::Boolean(true)));
    assert_eq!(row.get(1), None);
    assert_eq!(row.get(2), None);
    assert_eq!(row.clone(), row);
}
