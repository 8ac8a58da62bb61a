//! Log sources of a read-only replica.
//!
//! A replica serves a base snapshot and a tail of newer operations, which it
//! reads from a log source in the order of their sequence numbers.

use vstd::prelude::*;
use vstd::string::*;

use crate::sql::{ChangeOp, ChangeRecord};
use crate::text::{dec_u64, joined};
use crate::types::error::{MeruError, Result};
use crate::types::value::Row;

verus! {

/// One operation of the log.
#[derive(Debug, Clone)]
pub struct OpRecord {
    pub seq: u64,
    pub op: ChangeOp,
    pub row: Row,
}

impl View for OpRecord {
    type V = crate::sql::ChangeView;

    open spec fn view(&self) -> crate::sql::ChangeView {
        crate::sql::ChangeView { seq: self.seq, op: self.op, row: self.row@ }
    }
}

/// A replica asked for operations that its log source no longer has.
#[derive(Debug, Clone)]
pub struct LogGap {
    /// The sequence number that was asked for.
    pub requested: u64,
    /// The oldest one that the source has, if it can tell.
    pub earliest_available: Option<u64>,
    /// Why the operations are gone.
    pub reason: String,
}

impl LogGap {
    /// The line that is shown to a user.
    pub open spec fn text(&self) -> Seq<char> {
        "log gap: requested="@ + crate::text::dec_nat(self.requested as nat)
            + ", earliest_available="@ + (match self.earliest_available {
            Some(seq) => "Some("@ + crate::text::dec_nat(seq as nat) + ")"@,
            None => "None"@,
        }) + ", reason="@ + self.reason@
    }

    /// The line that is shown to a user.
    pub fn to_string(&self) -> (r: String)
        ensures
            r@ == self.text(),
    {
        let mut r = joined("log gap: requested=", dec_u64(self.requested).as_str());
        r.append(", earliest_available=");
        let earliest = match self.earliest_available {
            Some(seq) => {
                let mut shown = joined("Some(", dec_u64(seq).as_str());
                shown.append(")");
                shown
            },
            None => "None".to_owned(),
        };
        r.append(earliest.as_str());
        r.append(", reason=");
        r.append(self.reason.as_str());
        r
    }
}

/// Why the change feed cannot tell its latest sequence number.
pub const LATEST_SEQ_PENDING: &'static str =
    "ChangeFeedLogSource::latest_seq: Phase 2 pending (requires #29 Phase 2 Flight SQL endpoint)";

/// The log source over a primary's change feed. The feed retains nothing yet,
/// so a replica always takes its recovery path.
#[derive(Debug)]
pub struct ChangeFeedLogSource {
    /// The oldest sequence number that the primary still has.
    pub primary_low_water: u64,
}

impl ChangeFeedLogSource {
    /// The source of a primary with this low-water mark.
    pub fn new(primary_low_water: u64) -> (r: Self)
        ensures
            r.primary_low_water == primary_low_water,
    {
        ChangeFeedLogSource { primary_low_water }
    }

    /// The operations behind `since`: refused, with what the primary has.
    pub fn stream(&self, since: u64) -> (r: Result<Vec<OpRecord>>)
        ensures
            r is Err,
            r->Err_0@ == (crate::types::error::ErrorView::ChangeFeedBelowRetention {
                requested: since,
                low_water: self.primary_low_water,
            }),
    {
        Err(
            MeruError::ChangeFeedBelowRetention {
                requested: since,
                low_water: self.primary_low_water,
            },
        )
    }

    /// The latest sequence number of the feed: refused, it has no endpoint.
    pub fn latest_seq(&self) -> (r: Result<u64>)
        ensures
            r is Err,
            r->Err_0@ == crate::types::error::ErrorView::InvalidArgument(LATEST_SEQ_PENDING@),
    {
        Err(MeruError::InvalidArgument(LATEST_SEQ_PENDING.to_owned()))
    }
}

/// The log source of a replica that runs in the primary's process. It reads
/// the primary's change feed batch by batch.
#[derive(Debug)]
pub struct InProcessLogSource {
    batch_size: usize,
}

impl InProcessLogSource {
    /// The records that are asked of the feed at a time.
    pub closed spec fn batch(&self) -> usize {
        self.batch_size
    }

    /// A source that reads 4096 records at a time.
    pub fn new() -> (r: Self)
        ensures
            r.batch() == 4096,
    {
        InProcessLogSource { batch_size: 4096 }
    }

    /// The records that are asked of the feed at a time: at least one, since
    /// an empty batch ends the stream.
    pub fn with_batch_size(self, n: usize) -> (r: Self)
        ensures
            r.batch() == if n == 0 {
                1
            } else {
                n
            },
    {
        InProcessLogSource { batch_size: if n == 0 { 1 } else { n } }
    }

    /// The records that are asked of the feed at a time.
    pub fn batch_size(&self) -> (r: usize)
        ensures
            r == self.batch(),
    {
        self.batch_size
    }
}

/// The changes of a batch.
pub open spec fn changes(batch: Seq<ChangeRecord>) -> Seq<crate::sql::ChangeView> {
    Seq::new(batch.len(), |i: int| batch[i]@)
}

/// The operations of a stream.
pub open spec fn operations(records: Seq<OpRecord>) -> Seq<crate::sql::ChangeView> {
    Seq::new(records.len(), |i: int| records[i]@)
}

/// Adds a batch of the change feed to the operations of a stream, and tells
/// whether another batch is to be read: the first empty one ends the stream.
pub fn take_batch(records: &mut Vec<OpRecord>, batch: Vec<ChangeRecord>) -> (more: bool)
    ensures
        more == (batch@.len() > 0),
        operations(final(records)@) == operations(old(records)@) + changes(batch@),
{
    let more = batch.len() > 0;
    let mut i: usize = 0;
    let ghost before = operations(records@);
    assert(operations(records@) =~= before + changes(batch@).take(0));
    while i < batch.len()
        invariant
            i <= batch@.len(),
            operations(records@) == before + changes(batch@).take(i as int),
        decreases batch@.len() - i,
    {
        let ghost so_far = records@;
        let record = OpRecord { seq: batch[i].seq, op: batch[i].op, row: batch[i].row.clone() };
        records.push(record);
        proof {
            assert(operations(records@) =~= operations(so_far).push(record@));
            assert(record@ == changes(batch@)[i as int]);
            assert(changes(batch@).take(i + 1) =~= changes(batch@).take(i as int).push(
                changes(batch@)[i as int],
            ));
            assert(before + changes(batch@).take(i + 1) =~= (before + changes(batch@).take(
                i as int,
            )).push(changes(batch@)[i as int]));
        }
        i = i + 1;
    }
    assert(changes(batch@).take(batch@.len() as int) =~= changes(batch@));
    more
}

/// Whether sequence numbers rise strictly.
pub open spec fn ascending(ops: Seq<crate::sql::ChangeView>) -> bool {
    forall|i: int, j: int|
        0 <= i < j < ops.len() ==> (#[trigger] ops[i]).seq < (#[trigger] ops[j]).seq
}

/// A stream stays in the order of sequence numbers while each batch is in
/// that order and behind everything read before.
pub proof fn law_stream_stays_ascending(
    before: Seq<crate::sql::ChangeView>,
    batch: Seq<crate::sql::ChangeView>,
)
    requires
        ascending(before),
        ascending(batch),
        before.len() > 0 && batch.len() > 0 ==> before.last().seq < batch[0].seq,
    ensures
        ascending(before + batch),
{
    let all = before + batch;
    assert forall|i: int, j: int| 0 <= i < j < all.len() implies (#[trigger] all[i]).seq < (
    #[trigger] all[j]).seq by {
        let n = before.len() as int;
        if i < n && j >= n {
            if i < n - 1 {
                assert(before[i].seq < before[n - 1].seq);
            }
            if j > n {
                assert(batch[0].seq < batch[j - n].seq);
            }
            assert(all[j] == batch[j - n]);
        } else if i >= n {
            assert(all[i] == batch[i - n] && all[j] == batch[j - n]);
        } else {
            assert(all[i] == before[i] && all[j] == before[j]);
        }
    }
}

/// The records of all batches, in order.
pub open spec fn all_of(batches: Seq<Seq<crate::sql::ChangeView>>) -> Seq<crate::sql::ChangeView>
    decreases batches.len(),
{
    if batches.len() == 0 {
        Seq::empty()
    } else {
        all_of(batches.drop_last()) + batches.last()
    }
}

/// Whether a cursor may hand out `batch` when `rest` is left of its feed: the
/// next records, at most `max` of them, and none only where none is left.
pub open spec fn is_batch(
    rest: Seq<crate::sql::ChangeView>,
    max: int,
    batch: Seq<crate::sql::ChangeView>,
) -> bool {
    &&& batch.len() <= max
    &&& batch.is_prefix_of(rest)
    &&& rest.len() > 0 ==> batch.len() > 0
}

/// Whether a cursor over `feed` that is asked for `max` records at a time
/// handed out these batches.
pub open spec fn handed_out(
    feed: Seq<crate::sql::ChangeView>,
    max: int,
    batches: Seq<Seq<crate::sql::ChangeView>>,
) -> bool
    decreases batches.len(),
{
    batches.len() == 0 || {
        let so_far = all_of(batches.drop_last()).len() as int;
        &&& handed_out(feed, max, batches.drop_last())
        &&& is_batch(feed.skip(so_far), max, batches.last())
    }
}

/// Batches hold the feed from its beginning, and batches that are not empty
/// are no more than its records.
proof fn lemma_batches_are_the_feed(
    feed: Seq<crate::sql::ChangeView>,
    max: int,
    batches: Seq<Seq<crate::sql::ChangeView>>,
)
    requires
        handed_out(feed, max, batches),
    ensures
        all_of(batches).is_prefix_of(feed),
        (forall|i: int| 0 <= i < batches.len() ==> (#[trigger] batches[i]).len() > 0)
            ==> batches.len() <= all_of(batches).len(),
    decreases batches.len(),
{
    if batches.len() > 0 {
        let earlier = batches.drop_last();
        lemma_batches_are_the_feed(feed, max, earlier);
        let so_far = all_of(earlier).len() as int;
        let rest = feed.skip(so_far);
        let batch = batches.last();
        assert(all_of(batches) =~= feed.take(so_far + batch.len())) by {
            assert(batch =~= rest.take(batch.len() as int));
            assert(all_of(earlier) =~= feed.take(so_far));
            assert(feed.take(so_far + batch.len()) =~= feed.take(so_far) + rest.take(
                batch.len() as int,
            ));
        }
        if forall|i: int| 0 <= i < batches.len() ==> (#[trigger] batches[i]).len() > 0 {
            assert forall|i: int| 0 <= i < earlier.len() implies (#[trigger] earlier[i]).len()
                > 0 by {
                assert(earlier[i] == batches[i]);
            }
            assert(batches[batches.len() - 1].len() > 0);
        }
    }
}

/// The batch size never changes what is streamed. Over one feed that nobody
/// writes to, a stream ends: it reads no more batches than the feed has
/// records before it meets an empty one. And once it has met one, it has
/// yielded the whole feed in its order, whatever the batch size of the source.
pub proof fn law_batch_size_does_not_change_the_stream(
    feed: Seq<crate::sql::ChangeView>,
    source: InProcessLogSource,
    batches: Seq<Seq<crate::sql::ChangeView>>,
)
    requires
        handed_out(feed, source.batch() as int, batches),
    ensures
        (forall|i: int| 0 <= i < batches.len() ==> (#[trigger] batches[i]).len() > 0)
            ==> batches.len() <= feed.len(),
        batches.len() > 0 && batches.last().len() == 0 ==> all_of(batches) == feed,
        ascending(feed) ==> ascending(all_of(batches)),
{
    let max = source.batch() as int;
    lemma_batches_are_the_feed(feed, max, batches);
    if batches.len() > 0 && batches.last().len() == 0 {
        let earlier = batches.drop_last();
        lemma_batches_are_the_feed(feed, max, earlier);
        let so_far = all_of(earlier).len() as int;
        assert(feed.skip(so_far).len() == 0);
        assert(feed.take(so_far) =~= feed);
        assert(all_of(batches) =~= all_of(earlier));
    }
    if ascending(feed) {
        let all = all_of(batches);
        assert forall|i: int, j: int| 0 <= i < j < all.len() implies (#[trigger] all[i]).seq < (
        #[trigger] all[j]).seq by {
            assert(all[i] == feed[i] && all[j] == feed[j]);
        }
    }
}

/// The view of an operation shows its sequence number, its kind and its row,
/// as that of a change does, and records are shown one for one and in order.
pub proof fn law_records_are_shown_one_for_one(
    records: Seq<OpRecord>,
    batch: Seq<ChangeRecord>,
)
    ensures
        operations(records).len() == records.len(),
        forall|i: int|
            0 <= i < records.len() ==> (#[trigger] operations(records)[i]).seq == records[i].seq
                && operations(records)[i].op == records[i].op && operations(records)[i].row
                == records[i].row@,
        changes(batch).len() == batch.len(),
        forall|i: int|
            0 <= i < batch.len() ==> (#[trigger] changes(batch)[i]).seq == batch[i].seq
                && changes(batch)[i].op == batch[i].op && changes(batch)[i].row == batch[i].row@,
{
}

/// What is shown of a gap ends with its reason, whole and unchanged.
pub proof fn law_gap_text_ends_with_its_reason(gap: LogGap)
    ensures
        gap.text().len() > gap.reason@.len(),
        gap.text().skip(gap.text().len() - gap.reason@.len()) == gap.reason@,
{
    reveal_strlit(", reason=");
    assert(gap.text().skip(gap.text().len() - gap.reason@.len()) =~= gap.reason@);
}

} // verus!
