//! Sequence numbers and operation tags.

use vstd::prelude::*;

use crate::text::dec_u64;

verus! {

/// Monotone sequence number; 56 bits of it fit beside the operation tag.
#[derive(Clone, Copy, Debug, PartialEq, Eq, PartialOrd, Ord, Hash, Structural)]
pub struct SeqNum(pub u64);

/// Operation tag: one byte in the low bits of the internal key's tag word.
#[derive(Clone, Copy, Debug, PartialEq, Eq, Structural)]
pub enum OpType {
    Delete,
    Put,
}

impl OpType {
    /// The tag byte.
    pub open spec fn tag(self) -> u8 {
        match self {
            OpType::Delete => 0,
            OpType::Put => 1,
        }
    }

    /// The tag byte: 0 for a delete, 1 for a put.
    pub fn to_byte(self) -> (r: u8)
        ensures
            r == self.tag(),
    {
        match self {
            OpType::Delete => 0,
            OpType::Put => 1,
        }
    }
}

/// Largest sequence number that 56 bits hold. Its tag word is the smallest of
/// all for one key, so a seek to it lands before every entry of that key.
pub const SEQNUM_MAX: u64 = 0xFF_FFFF_FFFF_FFFF;

impl SeqNum {
    /// The number behind this one.
    pub fn next(self) -> (r: Self)
        requires
            self.0 < u64::MAX,
        ensures
            r.0 == self.0 + 1,
    {
        SeqNum(self.0 + 1)
    }

    /// The number in decimal.
    pub fn to_string(&self) -> (r: String)
        ensures
            r@ == crate::text::dec_nat(self.0 as nat),
    {
        dec_u64(self.0)
    }
}

/// The sequence counter of an engine: the next number to hand out.
#[derive(Debug)]
pub struct GlobalSeq {
    next: u64,
}

impl View for GlobalSeq {
    type V = u64;

    closed spec fn view(&self) -> u64 {
        self.next
    }
}

/// Where a counter stands after it handed out `n` numbers, around the 64-bit
/// circle.
pub open spec fn moved_on(counter: u64, n: u64) -> int {
    (counter + n) % 0x1_0000_0000_0000_0000
}

impl GlobalSeq {
    /// A counter that hands out `initial` first.
    pub fn new(initial: u64) -> (r: Self)
        ensures
            r@ == initial,
    {
        GlobalSeq { next: initial }
    }

    /// The number that the next allocation will return.
    pub fn current(&self) -> (r: SeqNum)
        ensures
            r.0 == self@,
    {
        SeqNum(self.next)
    }

    /// Hands out one number and moves on by one, around the 64-bit circle.
    pub fn allocate(&mut self) -> (r: SeqNum)
        ensures
            r.0 == old(self)@,
            final(self)@ == moved_on(old(self)@, 1),
    {
        self.allocate_n(1)
    }

    /// Reserves `n` consecutive numbers and returns the first: the caller
    /// owns `[base, base + n)`, and the next allocation starts behind them.
    pub fn allocate_n(&mut self, n: u64) -> (r: SeqNum)
        ensures
            r.0 == old(self)@,
            final(self)@ == moved_on(old(self)@, n),
    {
        let base: u64 = self.next;
        self.next = base.wrapping_add(n);
        SeqNum(base)
    }

    /// Moves the counter up to `val`; never moves it down.
    pub fn set_at_least(&mut self, val: u64)
        ensures
            final(self)@ == if old(self)@ < val {
                val
            } else {
                old(self)@
            },
    {
        if self.next < val {
            self.next = val;
        }
    }
}

/// Two reservations that follow each other are disjoint, and the second lies
/// wholly behind the first, as long as the counter does not run around.
pub proof fn law_reservations_are_disjoint(start: u64, n: u64, m: u64, x: int)
    requires
        start + n + m <= u64::MAX,
        start <= x < start + n,
    ensures
        x < moved_on(start, n),
{
}

/// Whether calls of `allocate` that follow each other, made by anyone, return
/// `numbers` while the counter goes through `counters`.
pub open spec fn allocations(counters: Seq<u64>, numbers: Seq<u64>) -> bool {
    &&& counters.len() == numbers.len() + 1
    &&& forall|i: int|
        0 <= i < numbers.len() ==> #[trigger] numbers[i] == counters[i] && counters[i + 1]
            == moved_on(counters[i], 1)
}

/// However many allocations are made, they hand out exactly the numbers from
/// the first on, each once and in rising order, and the counter ends behind
/// the last, as long as it does not run around. The calls of one thread among
/// several are some of these, so its numbers rise too.
pub proof fn law_allocations_are_consecutive(counters: Seq<u64>, numbers: Seq<u64>)
    requires
        allocations(counters, numbers),
        counters[0] + numbers.len() <= u64::MAX,
    ensures
        forall|i: int| 0 <= i < numbers.len() ==> #[trigger] numbers[i] == counters[0] + i,
        forall|x: u64|
            counters[0] <= x < counters[0] + numbers.len() ==> #[trigger] numbers.contains(x),
        numbers.no_duplicates(),
        counters.last() == counters[0] + numbers.len(),
    decreases numbers.len(),
{
    let n = numbers.len() as int;
    if n > 0 {
        let before = counters.drop_last();
        let earlier = numbers.drop_last();
        assert(allocations(before, earlier)) by {
            assert forall|i: int| 0 <= i < earlier.len() implies #[trigger] earlier[i]
                == before[i] && before[i + 1] == moved_on(before[i], 1) by {
                assert(numbers[i] == counters[i]);
            }
        }
        law_allocations_are_consecutive(before, earlier);
        assert(numbers[n - 1] == counters[n - 1]);
        assert forall|i: int| 0 <= i < n implies #[trigger] numbers[i] == counters[0] + i by {
            if i < n - 1 {
                assert(earlier[i] == numbers[i]);
            }
        }
    }
    assert forall|x: u64| counters[0] <= x < counters[0] + n implies #[trigger] numbers.contains(
        x,
    ) by {
        assert(numbers[x - counters[0]] == x);
    }
}

/// A counter moves on by exactly as many numbers as it handed out; past the
/// largest it goes on from 0.
pub proof fn law_counter_moves_by_what_it_hands_out(counter: u64, n: u64)
    ensures
        counter + n <= u64::MAX ==> moved_on(counter, n) == counter + n,
        counter + n > u64::MAX ==> moved_on(counter, n) == counter + n - u64::MAX - 1,
{
}

/// A delete is tagged below a put.
pub proof fn law_operation_tags(op: OpType)
    ensures
        op is Delete ==> op.tag() == 0,
        op is Put ==> op.tag() == 1,
{
}

} // verus!
