use merutable::replica::{take_batch, ChangeFeedLogSource, InProcessLogSource, LogGap};
use merutable::sql::{ChangeFeedCursor, ChangeOp, ChangeRecord};
use merutable::types::error::MeruError;
use merutable::types::value::{FieldValue, Row};

#[test]
fn change_op_sql_labels_are_stable() {
    // These strings are part of the SQL contract.
    assert_eq!(ChangeOp::Insert.as_sql_str(), "INSERT");
    assert_eq!(ChangeOp::Update.as_sql_str(), "UPDATE");
    assert_eq!(ChangeOp::Delete.as_sql_str(), "DELETE");
}

#[test]
fn phase1_cursor_returns_retention_error() {
    let mut cur = ChangeFeedCursor::new_below_retention(100, 500);
    let err = match cur.next_batch(10) {
        Ok(_) => panic!("must return retention error, not rows"),
        Err(e) => e,
    };
    match err {
        MeruError::ChangeFeedBelowRetention {
            requested,
            low_water,
        } => {
            assert_eq!(requested, 100);
            assert_eq!(low_water, 500);
        }
        other => panic!("expected ChangeFeedBelowRetention, got {other:?}"),
    }
}

#[test]
fn retention_error_display_includes_escalation_hint() {
    let err = MeruError::ChangeFeedBelowRetention {
        requested: 42,
        low_water: 100,
    };
    let msg = err.to_string();
    assert!(msg.contains("42"));
    assert!(msg.contains("100"));
    assert!(
        msg.contains("Iceberg"),
        "error message should hint at escalation path: {msg}"
    );
}

#[test]
fn phase1_stream_returns_below_retention() {
    let src = ChangeFeedLogSource::new(1000);
    let err = src.stream(500).err().unwrap();
    match err {
        MeruError::ChangeFeedBelowRetention {
            requested,
            low_water,
        } => {
            assert_eq!(requested, 500);
            assert_eq!(low_water, 1000);
        }
        other => panic!("unexpected error shape: {other:?}"),
    }
}

#[test]
fn phase1_latest_seq_errors_with_pointer() {
    let src = ChangeFeedLogSource::new(0);
    let err = src.latest_seq().err().unwrap();
    assert!(format!("{err:?}").contains("Phase 2"));
}

#[test]
fn log_gap_display_is_informative() {
    let gap = LogGap {
        requested: 42,
        earliest_available: Some(100),
        reason: "change-feed retention".into(),
    };
    let s = gap.to_string();
    assert!(s.contains("42"));
    assert!(s.contains("100"));
    assert!(s.contains("retention"));
    assert_eq!(
        s,
        "log gap: requested=42, earliest_available=Some(100), reason=change-feed retention"
    );
}

#[test]
fn log_gap_without_a_known_start() {
    let gap = LogGap { requested: 7, earliest_available: None, reason: "r".into() };
    assert_eq!(gap.to_string(), "log gap: requested=7, earliest_available=None, reason=r");
}

fn change(seq: u64, op: ChangeOp) -> ChangeRecord {
    ChangeRecord { seq, op, row: Row::new(vec![Some(FieldValue::Int64(seq as i64))]) }
}

#[test]
fn stream_ends_at_the_first_empty_batch() {
    let mut records = Vec::new();
    assert!(take_batch(&mut records, vec![change(1, ChangeOp::Insert), change(2, ChangeOp::Update)]));
    assert!(take_batch(&mut records, vec![change(3, ChangeOp::Delete)]));
    assert!(!take_batch(&mut records, vec![]));
    let seqs: Vec<u64> = records.iter().map(|r| r.seq).collect();
    assert_eq!(seqs, vec![1, 2, 3]);
    assert_eq!(records[2].op, ChangeOp::Delete);
    assert_eq!(records[1].row.get(0), Some(&FieldValue::Int64(2)));
}

#[test]
fn a_batch_holds_at_least_one_record() {
    assert_eq!(InProcessLogSource::new().batch_size(), 4096);
    assert_eq!(InProcessLogSource::new().with_batch_size(0).batch_size(), 1);
    assert_eq!(InProcessLogSource::new().with_batch_size(7).batch_size(), 7);
}

#[test]
fn the_batch_size_does_not_change_the_stream() {
    let feed: Vec<ChangeRecord> = (1..=10).map(|s| change(s, ChangeOp::Insert)).collect();
    for n in [0, 1, 3, 10, 4096] {
        let source = InProcessLogSource::new().with_batch_size(n);
        let mut records = Vec::new();
        let mut at = 0;
        loop {
            let end = (at + source.batch_size()).min(feed.len());
            if !take_batch(&mut records, feed[at..end].to_vec()) {
                break;
            }
            at = end;
        }
        let seqs: Vec<u64> = records.iter().map(|r| r.seq).collect();
        assert_eq!(seqs, (1..=10).collect::<Vec<u64>>(), "batch size {n}");
    }
}
