//! One flush: the oldest immutable memtable becomes a level 0 file.

use vstd::prelude::*;
use vstd::string::*;

use crate::engine::data_file::relative_data_path;
use crate::engine::rowspan::{new_file_meta, span_of_sorted, RowKey};
use crate::iceberg::deletion_vector::DeletionVector;
use crate::iceberg::snapshot::{IcebergDataFile, SnapshotTransaction};
use crate::text::dec_u64;
use crate::types::level::{Level, MetaView};
use crate::types::schema::TableSchema;
use crate::types::sequence::{OpType, SeqNum, SEQNUM_MAX};
use crate::types::value::{FieldValue, FieldView, Row};
use crate::wire::push_all;

verus! {

/// The eight big-endian bytes of `n`.
pub open spec fn be_bytes(n: u64) -> Seq<u8> {
    Seq::new(8, |i: int| be_byte(n, i))
}

/// Byte `i` of the eight big-endian bytes of `n`.
pub open spec fn be_byte(n: u64, i: int) -> u8 {
    (n as int / place(i) % 256) as u8
}

/// The worth of byte `i` of eight big-endian bytes.
pub open spec fn place(i: int) -> int {
    if i == 0 {
        0x100_0000_0000_0000
    } else if i == 1 {
        0x1_0000_0000_0000
    } else if i == 2 {
        0x100_0000_0000
    } else if i == 3 {
        0x1_0000_0000
    } else if i == 4 {
        0x100_0000
    } else if i == 5 {
        0x1_0000
    } else if i == 6 {
        0x100
    } else {
        1
    }
}

/// The tag word of an entry: the inverted sequence number above the
/// operation, so that newer entries of one key sort first.
pub open spec fn tag_word(seq: u64, op: OpType) -> u64 {
    ((SEQNUM_MAX - seq) * 256 + op.tag()) as u64
}

/// The internal key of an entry: the user key and the tag word.
pub open spec fn internal_key(user_key: Seq<u8>, seq: u64, op: OpType) -> Seq<u8> {
    user_key + be_bytes(tag_word(seq, op))
}

/// The internal key of an entry, on the wire.
pub fn internal_key_bytes(user_key: &[u8], seq: SeqNum, op: OpType) -> (r: Vec<u8>)
    requires
        seq.0 <= SEQNUM_MAX,
    ensures
        r@ == internal_key(user_key@, seq.0, op),
        r@.len() == user_key@.len() + 8,
        forall|i: int| 0 <= i < user_key@.len() ==> #[trigger] r@[i] == user_key@[i],
{
    let tag: u64 = (SEQNUM_MAX - seq.0) * 256 + op.to_byte() as u64;
    let mut wire: Vec<u8> = Vec::new();
    push_all(&mut wire, user_key);
    wire.push((tag / 0x100_0000_0000_0000 % 256) as u8);
    wire.push((tag / 0x1_0000_0000_0000 % 256) as u8);
    wire.push((tag / 0x100_0000_0000 % 256) as u8);
    wire.push((tag / 0x1_0000_0000 % 256) as u8);
    wire.push((tag / 0x100_0000 % 256) as u8);
    wire.push((tag / 0x1_0000 % 256) as u8);
    wire.push((tag / 0x100 % 256) as u8);
    wire.push((tag % 256) as u8);
    assert(wire@ =~= internal_key(user_key@, seq.0, op));
    wire
}

/// The order of big-endian bytes is the order of the numbers.
proof fn lemma_be_order(a: u64, b: u64)
    requires
        a < b,
    ensures
        crate::keyorder::key_lt(be_bytes(a), be_bytes(b)),
{
    lemma_be_order_from(a, b, 0);
}

/// What is left of `n` below the bytes before position `i`.
spec fn below(n: u64, i: int) -> int {
    if i == 0 {
        n as int
    } else {
        n as int % place(i - 1)
    }
}

/// One byte is split off what is left.
proof fn lemma_below_step(n: u64, i: int)
    requires
        0 <= i < 7,
    ensures
        below(n, i) == be_byte(n, i) as int * place(i) + below(n, i + 1),
        0 <= below(n, i + 1) < place(i),
{
    let x = n as int;
    let p = place(i);
    if i == 0 {
        assert(x / p < 256);
        assert(x == (x / p) * p + x % p);
    } else {
        let q = place(i - 1);
        assert(q == p * 256);
        assert(x % (p * 256) == (x / p % 256) * p + x % p) by (nonlinear_arith)
            requires
                p > 0,
                x >= 0,
        {
            vstd::arithmetic::div_mod::lemma_fundamental_div_mod(x, p);
            vstd::arithmetic::div_mod::lemma_fundamental_div_mod(x / p, 256);
            let d = x / p / 256;
            let m = x / p % 256;
            let r = x % p;
            assert(x == p * (256 * d + m) + r);
            assert(x == (p * 256) * d + (p * m + r));
            assert(0 <= p * m + r < p * 256);
            vstd::arithmetic::div_mod::lemma_fundamental_div_mod_converse(
                x,
                p * 256,
                d,
                p * m + r,
            );
        }
    }
}

/// If the bytes before `i` agree, what is left decides.
proof fn lemma_be_order_from(a: u64, b: u64, i: int)
    requires
        0 <= i <= 7,
        below(a, i) < below(b, i),
        forall|k: int| 0 <= k < i ==> be_byte(a, k) == be_byte(b, k),
    ensures
        crate::keyorder::key_lt(be_bytes(a), be_bytes(b)),
    decreases 7 - i,
{
    let x = be_bytes(a);
    let y = be_bytes(b);
    assert forall|k: int| 0 <= k < i implies x[k] == y[k] by {
        assert(be_byte(a, k) == be_byte(b, k));
    }
    if i == 7 {
        assert(below(a, 7) == a as int % 256);
        assert(crate::keyorder::decides_less(x, y, 7));
    } else {
        lemma_below_step(a, i);
        lemma_below_step(b, i);
        let p = place(i);
        let u = be_byte(a, i) as int;
        let v = be_byte(b, i) as int;
        if u == v {
            lemma_be_order_from(a, b, i + 1);
        } else {
            assert(u < v) by (nonlinear_arith)
                requires
                    u * p + below(a, i + 1) < v * p + below(b, i + 1),
                    0 <= below(a, i + 1) < p,
                    0 <= below(b, i + 1) < p,
                    u != v,
                    p > 0,
            ;
            assert(crate::keyorder::decides_less(x, y, i));
        }
    }
}

/// Of two entries of one user key the newer one sorts first, whatever they
/// do; the largest sequence number sorts before every other.
pub proof fn law_newer_entry_sorts_first(
    user_key: Seq<u8>,
    newer: u64,
    older: u64,
    op_newer: OpType,
    op_older: OpType,
)
    requires
        older < newer <= SEQNUM_MAX,
    ensures
        crate::keyorder::key_lt(
            internal_key(user_key, newer, op_newer),
            internal_key(user_key, older, op_older),
        ),
{
    let a = tag_word(newer, op_newer);
    let b = tag_word(older, op_older);
    assert(a < b);
    lemma_be_order(a, b);
    let x = be_bytes(a);
    let y = be_bytes(b);
    let i = choose|i: int| crate::keyorder::decides_less(x, y, i);
    let wx = user_key + x;
    let wy = user_key + y;
    let j = user_key.len() + i;
    assert forall|k: int| 0 <= k < j implies wx[k] == wy[k] by {
        if k >= user_key.len() {
            assert(x[k - user_key.len()] == y[k - user_key.len()]);
        }
    }
    assert(crate::keyorder::decides_less(wx, wy, j));
}

/// Eight big-endian bytes denote their number.
proof fn lemma_be_value(n: u64)
    ensures
        ({
            let b = be_bytes(n);
            &&& b[0] * 0x100_0000_0000_0000 + b[1] * 0x1_0000_0000_0000 + b[2] * 0x100_0000_0000
                + b[3] * 0x1_0000_0000 + b[4] * 0x100_0000 + b[5] * 0x1_0000 + b[6] * 0x100 + b[7]
                == n
            &&& b[7] == n as int % 256
        }),
{
    lemma_below_step(n, 0);
    lemma_below_step(n, 1);
    lemma_below_step(n, 2);
    lemma_below_step(n, 3);
    lemma_below_step(n, 4);
    lemma_below_step(n, 5);
    lemma_below_step(n, 6);
    assert(below(n, 7) == n as int % 256);
}

/// An internal key is the user key, byte by byte, and eight bytes behind it.
/// Read as one big-endian number they give the sequence number, counted down
/// from the largest, times 256, and the byte of the operation.
pub proof fn law_internal_key_extends_the_user_key(user_key: Seq<u8>, seq: u64, op: OpType)
    requires
        seq <= SEQNUM_MAX,
    ensures
        internal_key(user_key, seq, op).len() == user_key.len() + 8,
        forall|i: int|
            0 <= i < user_key.len() ==> #[trigger] internal_key(user_key, seq, op)[i]
                == user_key[i],
        ({
            let key = internal_key(user_key, seq, op);
            let n = user_key.len() as int;
            &&& key[n] * 0x100_0000_0000_0000 + key[n + 1] * 0x1_0000_0000_0000 + key[n + 2]
                * 0x100_0000_0000 + key[n + 3] * 0x1_0000_0000 + key[n + 4] * 0x100_0000 + key[n
                + 5] * 0x1_0000 + key[n + 6] * 0x100 + key[n + 7] == (0xFF_FFFF_FFFF_FFFF - seq)
                * 256 + (if op is Delete {
                0int
            } else {
                1int
            })
            &&& key[n + 7] == (if op is Delete {
                0int
            } else {
                1int
            })
        }),
{
    let word = tag_word(seq, op);
    let tail = be_bytes(word);
    let key = internal_key(user_key, seq, op);
    let n = user_key.len() as int;
    lemma_be_value(word);
    assert(key[n] == tail[0]);
    assert(key[n + 1] == tail[1]);
    assert(key[n + 2] == tail[2]);
    assert(key[n + 3] == tail[3]);
    assert(key[n + 4] == tail[4]);
    assert(key[n + 5] == tail[5]);
    assert(key[n + 6] == tail[6]);
    assert(key[n + 7] == tail[7]);
    assert(word == (0xFF_FFFF_FFFF_FFFF - seq) * 256 + op.tag());
}

/// User keys of one length keep their order: every internal key of the
/// smaller one sorts before every internal key of the larger one, whatever
/// their sequence numbers and operations.
pub proof fn law_user_keys_keep_their_order(
    a: Seq<u8>,
    b: Seq<u8>,
    seq_a: u64,
    seq_b: u64,
    op_a: OpType,
    op_b: OpType,
)
    requires
        a.len() == b.len(),
        crate::keyorder::key_lt(a, b),
    ensures
        crate::keyorder::key_lt(internal_key(a, seq_a, op_a), internal_key(b, seq_b, op_b)),
{
    let i = choose|i: int| crate::keyorder::decides_less(a, b, i);
    let x = internal_key(a, seq_a, op_a);
    let y = internal_key(b, seq_b, op_b);
    assert forall|k: int| 0 <= k < i implies x[k] == y[k] by {
        assert(a[k] == b[k]);
    }
    assert(crate::keyorder::decides_less(x, y, i));
}

/// A row of `width` NULLs with the first `k` key values put in their columns.
pub open spec fn key_columns(
    width: nat,
    primary_key: Seq<usize>,
    values: Seq<FieldValue>,
    k: int,
) -> Seq<Option<FieldView>>
    decreases k,
{
    if k <= 0 {
        Seq::new(width, |i: int| None)
    } else {
        key_columns(width, primary_key, values, k - 1).update(
            primary_key[k - 1] as int,
            Some(values[k - 1]@),
        )
    }
}

/// How many key values there are columns for.
pub open spec fn key_width(primary_key: Seq<usize>, values: Seq<FieldValue>) -> int {
    if values.len() < primary_key.len() {
        values.len() as int
    } else {
        primary_key.len() as int
    }
}

/// The row of a deleted key: its key columns hold the key, so that a reader
/// can tell which key was deleted, and every other column is NULL.
pub fn tombstone_row(schema: &TableSchema, pk_values: &Vec<FieldValue>) -> (r: Row)
    requires
        forall|i: int|
            0 <= i < schema.primary_key@.len() ==> (#[trigger] schema.primary_key@[i])
                < schema.columns@.len(),
    ensures
        r@ == key_columns(
            schema.columns@.len(),
            schema.primary_key@,
            pk_values@,
            key_width(schema.primary_key@, pk_values@),
        ),
        r@.len() == schema.columns@.len(),
        forall|c: int|
            0 <= c < schema.columns@.len() && (forall|i: int|
                0 <= i < schema.primary_key@.len() && i < pk_values@.len()
                    ==> schema.primary_key@[i] != c) ==> (#[trigger] r@[c]) is None,
        schema.primary_key@.no_duplicates() ==> forall|i: int|
            0 <= i < schema.primary_key@.len() && i < pk_values@.len()
                ==> r@[(#[trigger] schema.primary_key@[i]) as int] == Some(pk_values@[i]@),
{
    let width: usize = schema.columns.len();
    let mut fields: Vec<Option<FieldValue>> = Vec::new();
    let mut i: usize = 0;
    while i < width
        invariant
            i <= width,
            fields@.len() == i,
            forall|k: int| 0 <= k < i ==> (#[trigger] fields@[k]) is None,
        decreases width - i,
    {
        fields.push(None);
        i = i + 1;
    }
    let mut row = Row { fields };
    let mut k: usize = 0;
    assert(row@ =~= key_columns(width as nat, schema.primary_key@, pk_values@, 0));
    while k < schema.primary_key.len() && k < pk_values.len()
        invariant
            k <= schema.primary_key@.len(),
            k <= pk_values@.len(),
            width == schema.columns@.len(),
            row.fields@.len() == width,
            forall|i: int|
                0 <= i < schema.primary_key@.len() ==> (#[trigger] schema.primary_key@[i])
                    < schema.columns@.len(),
            row@ == key_columns(width as nat, schema.primary_key@, pk_values@, k as int),
        decreases schema.primary_key@.len() - k,
    {
        let col: usize = schema.primary_key[k];
        let value = pk_values[k].clone();
        let ghost before = row@;
        row.fields[col] = Some(value);
        assert(row@ =~= before.update(col as int, Some(pk_values@[k as int]@)));
        k = k + 1;
    }
    proof {
        lemma_key_columns(width as nat, schema.primary_key@, pk_values@, k as int);
    }
    row
}

/// What the first `k` key values leave in each column.
proof fn lemma_key_columns(
    width: nat,
    primary_key: Seq<usize>,
    values: Seq<FieldValue>,
    k: int,
)
    requires
        0 <= k <= primary_key.len(),
        k <= values.len(),
        forall|i: int| 0 <= i < primary_key.len() ==> (#[trigger] primary_key[i]) < width,
    ensures
        key_columns(width, primary_key, values, k).len() == width,
        forall|c: int|
            0 <= c < width && (forall|i: int| 0 <= i < k ==> primary_key[i] != c)
                ==> (#[trigger] key_columns(width, primary_key, values, k)[c]) is None,
        primary_key.no_duplicates() ==> forall|i: int|
            0 <= i < k ==> key_columns(width, primary_key, values, k)[(
            #[trigger] primary_key[i]) as int] == Some(values[i]@),
    decreases k,
{
    if k > 0 {
        lemma_key_columns(width, primary_key, values, k - 1);
        let before = key_columns(width, primary_key, values, k - 1);
        let after = key_columns(width, primary_key, values, k);
        let last = primary_key[k - 1] as int;
        assert forall|c: int|
            0 <= c < width && (forall|i: int| 0 <= i < k ==> primary_key[i] != c) implies (
        #[trigger] after[c]) is None by {
            assert(primary_key[k - 1] != c);
            assert(before[c] is None);
        }
        if primary_key.no_duplicates() {
            assert forall|i: int| 0 <= i < k implies after[(#[trigger] primary_key[i]) as int]
                == Some(values[i]@) by {
                if i < k - 1 {
                    assert(primary_key[i] != primary_key[k - 1]);
                    assert(before[primary_key[i] as int] == Some(values[i]@));
                }
            }
        }
    }
}

/// The row of a deleted key has a column for each column of the table. With
/// distinct key columns, each of them that has a key value holds that value,
/// and every other column is NULL.
pub proof fn law_tombstone_holds_the_key_alone(
    width: nat,
    primary_key: Seq<usize>,
    values: Seq<FieldValue>,
)
    requires
        primary_key.no_duplicates(),
        forall|i: int| 0 <= i < primary_key.len() ==> (#[trigger] primary_key[i]) < width,
    ensures
        ({
            let row = key_columns(width, primary_key, values, key_width(primary_key, values));
            &&& row.len() == width
            &&& forall|i: int|
                0 <= i < primary_key.len() && i < values.len()
                    ==> row[(#[trigger] primary_key[i]) as int] == Some(values[i]@)
            &&& forall|c: int|
                0 <= c < width && (forall|i: int|
                    0 <= i < primary_key.len() && i < values.len() ==> primary_key[i] != c)
                    ==> (#[trigger] row[c]) is None
        }),
{
    lemma_key_columns(width, primary_key, values, key_width(primary_key, values));
    let row = key_columns(width, primary_key, values, key_width(primary_key, values));
    assert forall|c: int|
        0 <= c < width && (forall|i: int|
            0 <= i < primary_key.len() && i < values.len() ==> primary_key[i] != c) implies (
    #[trigger] row[c]) is None by {
        assert(forall|i: int|
            0 <= i < key_width(primary_key, values) ==> primary_key[i] != c);
    }
}

/// What a flush finds to do.
#[derive(Debug, Clone, Copy, PartialEq, Eq, Structural)]
pub enum FlushStep {
    /// There is no immutable memtable.
    Nothing,
    /// The oldest memtable is empty: drop it without writing a file.
    DropEmpty,
    /// Write the oldest memtable.
    Write,
}

/// What to do with the oldest immutable memtable, given how many entries it
/// has.
pub fn flush_step(oldest_entries: Option<usize>) -> (r: FlushStep)
    ensures
        r == match oldest_entries {
            None => FlushStep::Nothing,
            Some(n) => if n == 0 {
                FlushStep::DropEmpty
            } else {
                FlushStep::Write
            },
        },
{
    match oldest_entries {
        None => FlushStep::Nothing,
        Some(n) => {
            if n == 0 {
                FlushStep::DropEmpty
            } else {
                FlushStep::Write
            }
        },
    }
}

/// Whether an entry carries its row; otherwise it is written as a tombstone
/// row.
pub fn carries_row(op: OpType, value: &[u8]) -> (r: bool)
    ensures
        r == (op == OpType::Put && value@.len() > 0),
{
    match op {
        OpType::Put => value.len() > 0,
        OpType::Delete => false,
    }
}

/// The file that a flush adds to level 0. Rows come in key order.
pub fn flush_output(file_id: &str, rows: &Vec<RowKey>, written_bytes: u64) -> (r: IcebergDataFile)
    ensures
        r.path@ == crate::engine::data_file::data_path(Level(0), file_id@),
        r.file_size == written_bytes,
        r.num_rows == rows@.len(),
        crate::engine::rowspan::spans_seqs(rows@, r.meta.seq_min, r.meta.seq_max),
        rows@.len() == 0 ==> r.meta.key_min@.len() == 0 && r.meta.key_max@.len() == 0,
        rows@.len() > 0 ==> r.meta.key_min@ == rows@[0].user_key@ && r.meta.key_max@
            == rows@.last().user_key@,
        r.meta@ == (MetaView {
            level: Level(0),
            num_rows: rows@.len() as u64,
            file_size: written_bytes,
            dv_path: None,
            dv_offset: None,
            dv_length: None,
            format: None,
            column_stats: None,
            ..r.meta@
        }),
{
    let span = span_of_sorted(rows);
    let num_rows: u64 = span.num_rows;
    IcebergDataFile {
        path: relative_data_path(Level(0), file_id),
        file_size: written_bytes,
        num_rows,
        meta: new_file_meta(Level(0), span, written_bytes),
    }
}

/// Whether `props` says which flush made a snapshot, and nothing else.
pub open spec fn flush_props(props: Map<Seq<char>, String>, first: SeqNum, last: SeqNum) -> bool {
    &&& props.dom() == set!["merutable.job"@, "merutable.first_seq"@, "merutable.last_seq"@]
    &&& props["merutable.job"@]@ == "flush"@
    &&& props["merutable.first_seq"@]@ == crate::text::dec_nat(first.0 as nat)
    &&& props["merutable.last_seq"@]@ == crate::text::dec_nat(last.0 as nat)
}

/// The change that a flush commits: one new file, nothing removed.
pub fn flush_transaction(file: IcebergDataFile, first_seq: SeqNum, last_seq: SeqNum) -> (r:
    SnapshotTransaction)
    ensures
        r.adds@ == seq![file],
        r.removes@.len() == 0,
        r.dvs@ == Map::<Seq<char>, DeletionVector>::empty(),
        flush_props(r.props@, first_seq, last_seq),
{
    let mut txn = SnapshotTransaction::new();
    txn.add_file(file);
    assert(txn.adds@ =~= seq![file]);
    proof {
        reveal_strlit("merutable.job");
        reveal_strlit("merutable.first_seq");
        reveal_strlit("merutable.last_seq");
        assert("merutable.job"@.len() == 13);
        assert("merutable.first_seq"@.len() == 19);
        assert("merutable.last_seq"@.len() == 18);
    }
    txn.set_prop("merutable.job", "flush");
    txn.set_prop("merutable.first_seq", dec_u64(first_seq.0).as_str());
    txn.set_prop("merutable.last_seq", dec_u64(last_seq.0).as_str());
    assert(txn.props@.dom() =~= set![
        "merutable.job"@,
        "merutable.first_seq"@,
        "merutable.last_seq"@,
    ]);
    txn
}

/// The properties of a flush's snapshot name the job and give its first and
/// last sequence number in decimal.
pub proof fn law_flush_props_give_the_range(
    props: Map<Seq<char>, String>,
    first: SeqNum,
    last: SeqNum,
)
    requires
        flush_props(props, first, last),
    ensures
        props.contains_key("merutable.job"@),
        props["merutable.job"@]@ == "flush"@,
        props.contains_key("merutable.first_seq"@),
        crate::text::digits_value(props["merutable.first_seq"@]@) == first.0,
        props.contains_key("merutable.last_seq"@),
        crate::text::digits_value(props["merutable.last_seq"@]@) == last.0,
        forall|k: Seq<char>| #[trigger]
            props.contains_key(k) ==> k == "merutable.job"@ || k == "merutable.first_seq"@ || k
                == "merutable.last_seq"@,
{
    crate::text::lemma_dec_nat_digits(first.0 as nat);
    crate::text::lemma_dec_nat_digits(last.0 as nat);
    assert(props.dom().contains("merutable.job"@));
    assert(props.dom().contains("merutable.first_seq"@));
    assert(props.dom().contains("merutable.last_seq"@));
}

} // verus!
