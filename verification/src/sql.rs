//! The change feed: which keys were inserted, updated and deleted, in order.

use vstd::prelude::*;
use vstd::string::*;

use crate::types::error::{MeruError, Result};
use crate::types::value::Row;

verus! {

/// The kind of a change.
#[derive(Clone, Copy, Debug, PartialEq, Eq, Structural)]
pub enum ChangeOp {
    /// The key had no row before.
    Insert,
    /// The key had a row.
    Update,
    /// The key was deleted; the record carries the row it had.
    Delete,
}

impl ChangeOp {
    /// The label of the change in SQL.
    pub open spec fn label(self) -> Seq<char> {
        match self {
            ChangeOp::Insert => "INSERT"@,
            ChangeOp::Update => "UPDATE"@,
            ChangeOp::Delete => "DELETE"@,
        }
    }

    /// The label of the change in SQL.
    pub fn as_sql_str(self) -> (r: &'static str)
        ensures
            r@ == self.label(),
    {
        match self {
            ChangeOp::Insert => "INSERT",
            ChangeOp::Update => "UPDATE",
            ChangeOp::Delete => "DELETE",
        }
    }
}

/// Different changes have different labels.
pub proof fn law_labels_are_distinct(a: ChangeOp, b: ChangeOp)
    requires
        a != b,
    ensures
        a.label() != b.label(),
{
    reveal_strlit("INSERT");
    reveal_strlit("UPDATE");
    reveal_strlit("DELETE");
    assert("INSERT"@[0] == 'I');
    assert("UPDATE"@[0] == 'U');
    assert("DELETE"@[0] == 'D');
}

/// One change.
#[derive(Debug, Clone)]
pub struct ChangeRecord {
    /// The sequence number that the change was committed at.
    pub seq: u64,
    pub op: ChangeOp,
    /// The row after an insert or update, and before a delete.
    pub row: Row,
}

/// [`ChangeRecord`] with its row as a sequence of values.
pub struct ChangeView {
    pub seq: u64,
    pub op: ChangeOp,
    pub row: Seq<Option<crate::types::value::FieldView>>,
}

impl View for ChangeRecord {
    type V = ChangeView;

    open spec fn view(&self) -> ChangeView {
        ChangeView { seq: self.seq, op: self.op, row: self.row@ }
    }
}

/// Reader of the change feed from a sequence number on.
#[derive(Debug)]
pub struct ChangeFeedCursor {
    since_seq: u64,
    low_water: u64,
}

impl ChangeFeedCursor {
    /// The sequence number that the reader starts behind.
    pub closed spec fn since(&self) -> u64 {
        self.since_seq
    }

    /// The oldest sequence number that the feed still reaches.
    pub closed spec fn low_water(&self) -> u64 {
        self.low_water
    }

    /// A reader of the changes behind `since_seq`.
    pub fn new(since_seq: u64, low_water: u64) -> (r: Self)
        ensures
            r.since() == since_seq,
            r.low_water() == low_water,
    {
        ChangeFeedCursor { since_seq, low_water }
    }

    /// A reader of the changes behind `since_seq` that is known to start below
    /// the low-water mark.
    pub fn new_below_retention(since_seq: u64, low_water: u64) -> (r: Self)
        ensures
            r.since() == since_seq,
            r.low_water() == low_water,
    {
        ChangeFeedCursor::new(since_seq, low_water)
    }

    /// The next changes. The feed retains none: every read is told where it
    /// would have to start, so that the caller can scan a snapshot instead.
    pub fn next_batch(&mut self, max_rows: usize) -> (r: Result<Vec<ChangeRecord>>)
        ensures
            r is Err,
            r->Err_0@ == (crate::types::error::ErrorView::ChangeFeedBelowRetention {
                requested: old(self).since(),
                low_water: old(self).low_water(),
            }),
            *final(self) == *old(self),
    {
        Err(
            MeruError::ChangeFeedBelowRetention {
                requested: self.since_seq,
                low_water: self.low_water,
            },
        )
    }
}

/// Changes are labelled with the verbs of SQL, and the view of a change shows
/// its sequence number, its kind and its row.
pub proof fn law_change_views(c: ChangeRecord)
    ensures
        c.op is Insert ==> c.op.label() == "INSERT"@,
        c.op is Update ==> c.op.label() == "UPDATE"@,
        c.op is Delete ==> c.op.label() == "DELETE"@,
        c@.seq == c.seq,
        c@.op == c.op,
        c@.row == c.row@,
{
}

} // verus!
