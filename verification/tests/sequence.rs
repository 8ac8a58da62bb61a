use merutable::types::sequence::{GlobalSeq, OpType, SeqNum, SEQNUM_MAX};

#[test]
fn seqnum_next() {
    let s = SeqNum(5);
    assert_eq!(s.next(), SeqNum(6));
}

#[test]
fn seqnum_ordering() {
    assert!(SeqNum(1) < SeqNum(2));
    assert!(SeqNum(100) > SeqNum(99));
    assert_eq!(SeqNum(42), SeqNum(42));
}

#[test]
fn seqnum_display() {
    assert_eq!(SeqNum(42).to_string(), "42");
    assert_eq!(SeqNum(0).to_string(), "0");
    assert_eq!(SeqNum(u64::MAX).to_string(), "18446744073709551615");
}

#[test]
fn seqnum_max_is_56_bits() {
    assert_eq!(SEQNUM_MAX, (1u64 << 56) - 1);
}

#[test]
fn global_seq_allocate_monotone() {
    let mut gs = GlobalSeq::new(1);
    let s1 = gs.allocate();
    let s2 = gs.allocate();
    let s3 = gs.allocate();
    assert_eq!(s1, SeqNum(1));
    assert_eq!(s2, SeqNum(2));
    assert_eq!(s3, SeqNum(3));
    assert_eq!(gs.current(), SeqNum(4));
}

#[test]
fn global_seq_allocate_n_reserves_contiguous_range() {
    let mut gs = GlobalSeq::new(10);
    let base = gs.allocate_n(4);
    // The caller owns 10, 11, 12 and 13.
    assert_eq!(base, SeqNum(10));
    assert_eq!(gs.allocate(), SeqNum(14));
    assert_eq!(gs.allocate_n(2), SeqNum(15));
    assert_eq!(gs.current(), SeqNum(17));
}

#[test]
fn global_seq_allocate_n_zero_is_noop() {
    let mut gs = GlobalSeq::new(5);
    let base = gs.allocate_n(0);
    assert_eq!(base, SeqNum(5));
    assert_eq!(gs.current(), SeqNum(5));
}

#[test]
fn global_seq_set_at_least() {
    let mut gs = GlobalSeq::new(5);
    gs.set_at_least(10);
    assert_eq!(gs.current(), SeqNum(10));

    // It does not go backward.
    gs.set_at_least(3);
    assert_eq!(gs.current(), SeqNum(10));
}

#[test]
fn optype_values() {
    assert_eq!(OpType::Delete.to_byte(), 0x00);
    assert_eq!(OpType::Put.to_byte(), 0x01);
    // A delete has the smaller tag.
    assert!(OpType::Delete.to_byte() < OpType::Put.to_byte());
}

#[test]
fn allocations_are_consecutive() {
    // Eight callers take turns; each number goes to one of them.
    let mut seq = GlobalSeq::new(1);
    let mut taken: Vec<Vec<u64>> = vec![Vec::new(); 8];
    for i in 0..8000usize {
        taken[(i * i) % 8].push(seq.allocate().0);
    }
    assert!(taken.iter().all(|t| t.windows(2).all(|w| w[0] < w[1])));
    let mut all: Vec<u64> = taken.concat();
    all.sort();
    assert_eq!(all, (1..=8000).collect::<Vec<u64>>());
    assert_eq!(seq.current(), SeqNum(8001));
}

#[test]
fn the_counter_runs_around() {
    let mut seq = GlobalSeq::new(u64::MAX);
    assert_eq!(seq.allocate(), SeqNum(u64::MAX));
    assert_eq!(seq.current(), SeqNum(0));
}
