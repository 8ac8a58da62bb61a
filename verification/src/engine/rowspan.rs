//! The keys and sequence numbers that a written file spans.

use vstd::prelude::*;

use crate::keyorder::is_less;
use crate::types::level::{copy_bytes, Level, MetaView, ParquetFileMeta};

verus! {

/// Where a row stands: its user key and its sequence number.
#[derive(Debug)]
pub struct RowKey {
    pub user_key: Vec<u8>,
    pub seq: u64,
}

/// What a file's rows span.
#[derive(Debug)]
pub struct RowSpan {
    pub seq_min: u64,
    pub seq_max: u64,
    pub key_min: Vec<u8>,
    pub key_max: Vec<u8>,
    pub num_rows: u64,
}

/// Whether `lo` and `hi` are the smallest and the largest sequence number of
/// the rows, both 0 without rows. A smallest number of all ones reads as 0.
pub open spec fn spans_seqs(rows: Seq<RowKey>, lo: u64, hi: u64) -> bool {
    if rows.len() == 0 {
        lo == 0 && hi == 0
    } else {
        &&& exists|i: int| 0 <= i < rows.len() && (#[trigger] rows[i]).seq == hi
        &&& forall|i: int| 0 <= i < rows.len() ==> lo <= (#[trigger] rows[i]).seq <= hi
        &&& (exists|i: int| 0 <= i < rows.len() && (#[trigger] rows[i]).seq == lo) || (lo == 0
            && forall|i: int| 0 <= i < rows.len() ==> (#[trigger] rows[i]).seq == u64::MAX)
    }
}

/// Whether `lo` and `hi` are the smallest and the largest key of the rows,
/// both empty without rows.
pub open spec fn spans_keys(rows: Seq<RowKey>, lo: Seq<u8>, hi: Seq<u8>) -> bool {
    if rows.len() == 0 {
        lo.len() == 0 && hi.len() == 0
    } else {
        &&& exists|i: int| 0 <= i < rows.len() && (#[trigger] rows[i]).user_key@ == lo
        &&& exists|i: int| 0 <= i < rows.len() && (#[trigger] rows[i]).user_key@ == hi
        &&& forall|i: int|
            0 <= i < rows.len() ==> crate::keyorder::key_le(lo, (#[trigger] rows[i]).user_key@)
                && crate::keyorder::key_le(rows[i].user_key@, hi)
    }
}

/// The smallest and the largest sequence number of the rows.
fn seq_bounds(rows: &Vec<RowKey>) -> (r: (u64, u64))
    ensures
        spans_seqs(rows@, r.0, r.1),
{
    if rows.len() == 0 {
        return (0, 0);
    }
    let mut lo: u64 = rows[0].seq;
    let mut hi: u64 = rows[0].seq;
    let mut i: usize = 1;
    while i < rows.len()
        invariant
            1 <= i <= rows@.len(),
            exists|k: int| 0 <= k < i && (#[trigger] rows@[k]).seq == lo,
            exists|k: int| 0 <= k < i && (#[trigger] rows@[k]).seq == hi,
            forall|k: int| 0 <= k < i ==> lo <= (#[trigger] rows@[k]).seq <= hi,
        decreases rows@.len() - i,
    {
        if rows[i].seq < lo {
            lo = rows[i].seq;
        }
        if rows[i].seq > hi {
            hi = rows[i].seq;
        }
        i = i + 1;
        assert(rows@[i - 1].seq == rows@[i - 1].seq);
    }
    if lo == u64::MAX {
        (0, hi)
    } else {
        (lo, hi)
    }
}

/// What rows in any order span.
pub fn span_of(rows: &Vec<RowKey>) -> (r: RowSpan)
    ensures
        r.num_rows == rows@.len(),
        spans_seqs(rows@, r.seq_min, r.seq_max),
        spans_keys(rows@, r.key_min@, r.key_max@),
{
    let (seq_min, seq_max) = seq_bounds(rows);
    if rows.len() == 0 {
        return RowSpan {
            seq_min,
            seq_max,
            key_min: Vec::new(),
            key_max: Vec::new(),
            num_rows: 0,
        };
    }
    let mut lo: usize = 0;
    let mut hi: usize = 0;
    let mut i: usize = 1;
    while i < rows.len()
        invariant
            1 <= i <= rows@.len(),
            lo < i,
            hi < i,
            forall|k: int|
                0 <= k < i ==> crate::keyorder::key_le(
                    rows@[lo as int].user_key@,
                    (#[trigger] rows@[k]).user_key@,
                ) && crate::keyorder::key_le(rows@[k].user_key@, rows@[hi as int].user_key@),
        decreases rows@.len() - i,
    {
        let ghost lo_before = rows@[lo as int].user_key@;
        let ghost hi_before = rows@[hi as int].user_key@;
        let ghost here = rows@[i as int].user_key@;
        if is_less(rows[i].user_key.as_slice(), rows[lo].user_key.as_slice()) {
            lo = i;
        }
        if is_less(rows[hi].user_key.as_slice(), rows[i].user_key.as_slice()) {
            hi = i;
        }
        proof {
            crate::keyorder::lemma_key_order_total(lo_before, here);
            crate::keyorder::lemma_key_order_total(here, hi_before);
            assert forall|k: int| 0 <= k < i + 1 implies crate::keyorder::key_le(
                rows@[lo as int].user_key@,
                (#[trigger] rows@[k]).user_key@,
            ) && crate::keyorder::key_le(rows@[k].user_key@, rows@[hi as int].user_key@) by {
                if k < i {
                    if lo == i {
                        crate::keyorder::lemma_key_le_transitive(
                            here,
                            lo_before,
                            rows@[k].user_key@,
                        );
                    }
                    if hi == i {
                        crate::keyorder::lemma_key_le_transitive(
                            rows@[k].user_key@,
                            hi_before,
                            here,
                        );
                    }
                }
            }
        }
        i = i + 1;
    }
    RowSpan {
        seq_min,
        seq_max,
        key_min: copy_bytes(&rows[lo].user_key),
        key_max: copy_bytes(&rows[hi].user_key),
        num_rows: rows.len() as u64,
    }
}

/// What rows in key order span: the first key and the last.
pub fn span_of_sorted(rows: &Vec<RowKey>) -> (r: RowSpan)
    ensures
        r.num_rows == rows@.len(),
        spans_seqs(rows@, r.seq_min, r.seq_max),
        rows@.len() == 0 ==> r.key_min@.len() == 0 && r.key_max@.len() == 0,
        rows@.len() > 0 ==> r.key_min@ == rows@[0].user_key@ && r.key_max@
            == rows@.last().user_key@,
{
    let (seq_min, seq_max) = seq_bounds(rows);
    let n: usize = rows.len();
    if n == 0 {
        return RowSpan {
            seq_min,
            seq_max,
            key_min: Vec::new(),
            key_max: Vec::new(),
            num_rows: 0,
        };
    }
    RowSpan {
        seq_min,
        seq_max,
        key_min: copy_bytes(&rows[0].user_key),
        key_max: copy_bytes(&rows[n - 1].user_key),
        num_rows: n as u64,
    }
}

/// The metadata of a freshly written file.
pub open spec fn fresh_meta(level: Level, span: RowSpan, file_size: u64) -> MetaView {
    MetaView {
        level,
        seq_min: span.seq_min,
        seq_max: span.seq_max,
        key_min: span.key_min@,
        key_max: span.key_max@,
        num_rows: span.num_rows,
        file_size,
        dv_path: None,
        dv_offset: None,
        dv_length: None,
        format: None,
        column_stats: None,
    }
}

/// The metadata of a freshly written file: its span, its size, and no
/// deletion vector.
pub fn new_file_meta(level: Level, span: RowSpan, file_size: u64) -> (r: ParquetFileMeta)
    ensures
        r@ == fresh_meta(level, span, file_size),
{
    ParquetFileMeta {
        level,
        seq_min: span.seq_min,
        seq_max: span.seq_max,
        key_min: span.key_min,
        key_max: span.key_max,
        num_rows: span.num_rows,
        file_size,
        dv_path: None,
        dv_offset: None,
        dv_length: None,
        format: None,
        column_stats: None,
    }
}

/// In rows sorted by key, the first key and the last are the smallest and the
/// largest.
pub proof fn law_sorted_rows_span_their_ends(rows: Seq<RowKey>)
    requires
        rows.len() > 0,
        forall|i: int, j: int|
            0 <= i <= j < rows.len() ==> crate::keyorder::key_le(
                (#[trigger] rows[i]).user_key@,
                (#[trigger] rows[j]).user_key@,
            ),
    ensures
        spans_keys(rows, rows[0].user_key@, rows.last().user_key@),
{
    assert(rows.last() == rows[rows.len() - 1]);
    assert(rows[0].user_key@ == rows[0].user_key@);
    assert forall|i: int| 0 <= i < rows.len() implies crate::keyorder::key_le(
        rows[0].user_key@,
        (#[trigger] rows[i]).user_key@,
    ) && crate::keyorder::key_le(rows[i].user_key@, rows.last().user_key@) by {}
}

/// The sequence numbers of a span lie around those of every row, and both
/// ends belong to a row; only where every row has the largest number there is
/// does the lower end read as 0.
pub proof fn law_span_holds_every_sequence_number(rows: Seq<RowKey>, lo: u64, hi: u64, i: int)
    requires
        spans_seqs(rows, lo, hi),
        0 <= i < rows.len(),
    ensures
        lo <= rows[i].seq <= hi,
        exists|k: int| 0 <= k < rows.len() && (#[trigger] rows[k]).seq == hi,
        (exists|k: int| 0 <= k < rows.len() && (#[trigger] rows[k]).seq == lo) || (lo == 0
            && rows[i].seq == u64::MAX),
{
}

/// The keys of a span lie around those of every row, and both ends belong to a
/// row.
pub proof fn law_span_holds_every_key(rows: Seq<RowKey>, lo: Seq<u8>, hi: Seq<u8>, i: int)
    requires
        spans_keys(rows, lo, hi),
        0 <= i < rows.len(),
    ensures
        crate::keyorder::key_le(lo, rows[i].user_key@),
        crate::keyorder::key_le(rows[i].user_key@, hi),
        exists|k: int| 0 <= k < rows.len() && (#[trigger] rows[k]).user_key@ == lo,
        exists|k: int| 0 <= k < rows.len() && (#[trigger] rows[k]).user_key@ == hi,
{
}

/// The metadata of a fresh file gives its level, its size and its span, and
/// no deletions.
pub proof fn law_fresh_file_has_no_deletions(level: Level, span: RowSpan, file_size: u64)
    ensures
        ({
            let m = fresh_meta(level, span, file_size);
            &&& m.level == level
            &&& m.file_size == file_size
            &&& m.num_rows == span.num_rows
            &&& m.seq_min == span.seq_min
            &&& m.seq_max == span.seq_max
            &&& m.key_min == span.key_min@
            &&& m.key_max == span.key_max@
            &&& m.dv_path is None
            &&& m.dv_offset is None
            &&& m.dv_length is None
        }),
{
}

} // verus!
