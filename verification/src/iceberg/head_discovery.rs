//! Finding the newest manifest version with few existence probes.
//!
//! Listing an object store is slow and rate limited, so the newest version
//! (HEAD) is found by probing keys: first at doubling versions until one is
//! missing, then by halving the gap. The search is a value that is asked for
//! its next probe and told the answer, so that any kind of store can run it.

use vstd::prelude::*;
use vstd::string::*;

use crate::text::{dec_i64, joined};
use crate::types::error::{ErrorView, MeruError, Result};

verus! {

/// The newest version that exists; 0 for a catalog that was never written.
pub type Head = i64;

/// The largest version that is probed: 2^62.
pub const MAX_PROBE: i64 = 0x4000_0000_0000_0000;

/// A search for HEAD, waiting for the answer to one probe.
#[derive(Clone, Copy, Debug, PartialEq, Eq, Structural)]
pub enum HeadSearch {
    /// Does the first version exist?
    First { start: i64 },
    /// `low` exists; does twice as much?
    Doubling { low: i64 },
    /// `low` exists and `high` does not; what about the middle?
    Halving { low: i64, high: i64 },
}

/// What an answer leads to.
#[derive(Debug)]
pub enum HeadStep {
    /// Probe on.
    Probe(HeadSearch),
    /// The search is over.
    Found(Head),
    /// Versions are too large to search.
    Failed(MeruError),
}

impl HeadSearch {
    /// The version whose existence is asked next.
    pub open spec fn probe_of(self) -> int {
        match self {
            HeadSearch::First { start } => start as int,
            HeadSearch::Doubling { low } => 2 * low,
            HeadSearch::Halving { low, high } => low + (high - low) / 2,
        }
    }

    /// Whether the search is in range: versions are positive, a probe stays
    /// at most [`MAX_PROBE`] once it is doubled, and a gap has a middle.
    pub open spec fn in_range(self) -> bool {
        match self {
            HeadSearch::First { start } => 1 <= start,
            HeadSearch::Doubling { low } => 1 <= low && 2 * low <= MAX_PROBE,
            HeadSearch::Halving { low, high } => 1 <= low && high <= MAX_PROBE && high - low > 1,
        }
    }

    /// Whether the search knows only what is true in the store `holds`,
    /// having begun at `start`.
    pub open spec fn knows(self, start: int, holds: spec_fn(int) -> bool) -> bool {
        match self {
            HeadSearch::First { start: s } => s == start,
            HeadSearch::Doubling { low } => start <= low && holds(low as int),
            HeadSearch::Halving { low, high } => start <= low && holds(low as int) && !holds(
                high as int,
            ),
        }
    }

    /// What remains to be searched; it shrinks with each answer.
    pub open spec fn remaining(self) -> int {
        match self {
            HeadSearch::First { start } => 2 * MAX_PROBE + 1,
            HeadSearch::Doubling { low } => 2 * MAX_PROBE - low,
            HeadSearch::Halving { low, high } => high - low,
        }
    }
}

/// The error for a start below version 1.
pub open spec fn start_error(start: int) -> ErrorView {
    ErrorView::Corruption(
        "discover_head_from: start_version must be \u{2265} 1 (got "@ + crate::text::dec_int(start)
            + ")"@,
    )
}

/// The error for doubling `low` beyond what is probed.
pub open spec fn overflow_error(low: int) -> ErrorView {
    if 2 * low > i64::MAX {
        ErrorView::Corruption("HEAD discovery probe overflow"@)
    } else {
        ErrorView::Corruption(
            "HEAD discovery overflow: probe "@ + crate::text::dec_int(2 * low) + " exceeded cap "@
                + crate::text::dec_int(MAX_PROBE as int),
        )
    }
}

/// What an answer leads to, as a relation.
pub open spec fn follows(s: HeadSearch, present: bool, step: HeadStep) -> bool {
    match (s, present) {
        (HeadSearch::First { start }, false) => step == HeadStep::Found(0),
        (HeadSearch::First { start }, true) => doubled(start as int, step),
        (HeadSearch::Doubling { low }, true) => doubled(2 * low, step),
        (HeadSearch::Doubling { low }, false) => narrowed(low as int, 2 * low, step),
        (HeadSearch::Halving { low, high }, true) => narrowed(
            low + (high - low) / 2,
            high as int,
            step,
        ),
        (HeadSearch::Halving { low, high }, false) => narrowed(
            low as int,
            low + (high - low) / 2,
            step,
        ),
    }
}

/// The step once `low` is known to exist while doubling.
pub open spec fn doubled(low: int, step: HeadStep) -> bool {
    if 2 * low <= MAX_PROBE {
        step == HeadStep::Probe(HeadSearch::Doubling { low: low as i64 })
    } else {
        step matches HeadStep::Failed(e) && e@ == overflow_error(low)
    }
}

/// The step once `low` exists and `high` does not.
pub open spec fn narrowed(low: int, high: int, step: HeadStep) -> bool {
    if high - low > 1 {
        step == HeadStep::Probe(HeadSearch::Halving { low: low as i64, high: high as i64 })
    } else {
        step == HeadStep::Found(low as i64)
    }
}

/// A search from `start_version` on: the lowest version that still exists, or
/// version 1 of a catalog that may be empty.
pub fn begin_search(start_version: i64) -> (r: Result<HeadSearch>)
    ensures
        match r {
            Ok(s) => start_version >= 1 && s == (HeadSearch::First { start: start_version }),
            Err(e) => start_version < 1 && e@ == start_error(start_version as int),
        },
{
    if start_version < 1 {
        let mut m = joined(
            "discover_head_from: start_version must be \u{2265} 1 (got ",
            dec_i64(start_version).as_str(),
        );
        m.append(")");
        return Err(MeruError::Corruption(m));
    }
    Ok(HeadSearch::First { start: start_version })
}

/// The step once `low` is known to exist while doubling.
fn double_from(low: i64) -> (r: HeadStep)
    requires
        1 <= low,
    ensures
        doubled(low as int, r),
{
    if low > i64::MAX / 2 {
        return HeadStep::Failed(
            MeruError::Corruption("HEAD discovery probe overflow".to_owned()),
        );
    }
    let probe: i64 = low * 2;
    if probe > MAX_PROBE {
        let mut m = joined("HEAD discovery overflow: probe ", dec_i64(probe).as_str());
        m.append(" exceeded cap ");
        m.append(dec_i64(MAX_PROBE).as_str());
        return HeadStep::Failed(MeruError::Corruption(m));
    }
    HeadStep::Probe(HeadSearch::Doubling { low })
}

/// The step once `low` exists and `high` does not.
fn narrow(low: i64, high: i64) -> (r: HeadStep)
    requires
        1 <= low < high <= MAX_PROBE,
    ensures
        narrowed(low as int, high as int, r),
{
    if high - low > 1 {
        HeadStep::Probe(HeadSearch::Halving { low, high })
    } else {
        HeadStep::Found(low)
    }
}

impl HeadSearch {
    /// The version whose existence is asked next.
    pub fn next_probe(&self) -> (r: i64)
        requires
            self.in_range(),
        ensures
            r == self.probe_of(),
    {
        match *self {
            HeadSearch::First { start } => start,
            HeadSearch::Doubling { low } => low * 2,
            HeadSearch::Halving { low, high } => low + (high - low) / 2,
        }
    }

    /// Takes the answer to the probe. A search that knows the truth goes on
    /// knowing it, and ends at a version that exists while the next does not.
    pub fn answer(self, present: bool) -> (r: HeadStep)
        requires
            self.in_range(),
        ensures
            follows(self, present, r),
            r matches HeadStep::Probe(next) ==> next.in_range() && next.remaining()
                < self.remaining(),
    {
        match self {
            HeadSearch::First { start } => {
                if present {
                    double_from(start)
                } else {
                    HeadStep::Found(0)
                }
            },
            HeadSearch::Doubling { low } => {
                if present {
                    double_from(low * 2)
                } else {
                    narrow(low, low * 2)
                }
            },
            HeadSearch::Halving { low, high } => {
                let mid: i64 = low + (high - low) / 2;
                if present {
                    narrow(mid, high)
                } else {
                    narrow(low, mid)
                }
            },
        }
    }
}

/// No version below the start is probed, one answer keeps what the search
/// knows true, and a search that ends with a version other than 0 ends at one
/// that exists while the next does not.
pub proof fn law_search_stays_true(
    s: HeadSearch,
    start: int,
    holds: spec_fn(int) -> bool,
    step: HeadStep,
)
    requires
        s.in_range(),
        s.knows(start, holds),
        follows(s, holds(s.probe_of()), step),
    ensures
        start <= s.probe_of(),
        step matches HeadStep::Probe(next) ==> next.knows(start, holds),
        step matches HeadStep::Found(h) ==> if h == 0 {
            !holds(start)
        } else {
            start <= h && holds(h as int) && !holds(h + 1)
        },
{
}

/// A version that exists while the next does not is the newest one, when the
/// store has every version from the first up to its newest and none beyond.
pub proof fn law_boundary_is_head(start: int, head: int, h: int, holds: spec_fn(int) -> bool)
    requires
        start <= h,
        forall|v: int| start <= v ==> (#[trigger] holds(v) <==> v <= head),
        holds(h),
        !holds(h + 1),
    ensures
        h == head,
{
}

/// The number of binary digits of `n`.
pub open spec fn bits(n: int) -> int
    decreases n,
{
    if n <= 0 {
        0
    } else {
        1 + bits(n / 2)
    }
}

/// How many probes a search makes in a store whose newest version is `head`.
pub open spec fn probes_made(s: HeadSearch, head: int) -> int
    decreases s.remaining(),
    when s.in_range()
{
    1 + match s {
        HeadSearch::First { start } => if start <= head && 2 * start <= MAX_PROBE {
            probes_made(HeadSearch::Doubling { low: start }, head)
        } else {
            0
        },
        HeadSearch::Doubling { low } => if 2 * low <= head {
            if 4 * low <= MAX_PROBE {
                probes_made(HeadSearch::Doubling { low: (2 * low) as i64 }, head)
            } else {
                0
            }
        } else if low > 1 {
            probes_made(HeadSearch::Halving { low, high: (2 * low) as i64 }, head)
        } else {
            0
        },
        HeadSearch::Halving { low, high } => {
            let mid = low + (high - low) / 2;
            if mid <= head {
                if high - mid > 1 {
                    probes_made(HeadSearch::Halving { low: mid as i64, high }, head)
                } else {
                    0
                }
            } else if mid - low > 1 {
                probes_made(HeadSearch::Halving { low, high: mid as i64 }, head)
            } else {
                0
            }
        },
    }
}

/// `probes_made` counts the probes of the search: one, and those of what the
/// answer leads to.
pub proof fn law_probes_are_counted(s: HeadSearch, head: int, step: HeadStep)
    requires
        s.in_range(),
        follows(s, s.probe_of() <= head, step),
    ensures
        probes_made(s, head) == 1 + match step {
            HeadStep::Probe(next) => probes_made(next, head),
            _ => 0,
        },
{
}

proof fn lemma_bits_monotone(a: int, b: int)
    requires
        a <= b,
    ensures
        0 <= bits(a) <= bits(b),
    decreases b,
{
    if a > 0 {
        lemma_bits_monotone(a / 2, b / 2);
    } else if b > 0 {
        lemma_bits_monotone(0, b / 2);
    }
}

proof fn lemma_halving_probes(low: i64, high: i64, head: int)
    requires
        (HeadSearch::Halving { low, high }).in_range(),
    ensures
        probes_made(HeadSearch::Halving { low, high }, head) <= bits(high - low - 1),
    decreases high - low,
{
    let g = high - low;
    let mid = (low + g / 2) as i64;
    assert(bits(g - 1) == 1 + bits((g - 1) / 2));
    lemma_bits_monotone(0, (g - 1) / 2);
    if mid <= head {
        if high - mid > 1 {
            lemma_halving_probes(mid, high, head);
            assert(high - mid - 1 <= (g - 1) / 2);
            lemma_bits_monotone(high - mid - 1, (g - 1) / 2);
        }
    } else if mid - low > 1 {
        lemma_halving_probes(low, mid, head);
        lemma_bits_monotone(mid - low - 1, (g - 1) / 2);
    }
}

proof fn lemma_doubling_probes(low: i64, head: int)
    requires
        (HeadSearch::Doubling { low }).in_range(),
        low <= head,
    ensures
        probes_made(HeadSearch::Doubling { low }, head) <= 2 * bits(head) - bits(low as int) + 1,
    decreases 2 * MAX_PROBE - low,
{
    lemma_bits_monotone(low as int, head);
    if 2 * low <= head {
        assert(bits(2 * low) == 1 + bits((2 * low) / 2));
        assert((2 * low) / 2 == low);
        if 4 * low <= MAX_PROBE {
            lemma_doubling_probes((2 * low) as i64, head);
        }
    } else if low > 1 {
        lemma_halving_probes(low, (2 * low) as i64, head);
        lemma_bits_monotone(low - 1, low as int);
    }
}

/// A search makes at most twice as many probes as HEAD has binary digits,
/// and two more.
pub proof fn law_probes_are_logarithmic(start: i64, head: int)
    requires
        1 <= start,
        0 <= head,
    ensures
        probes_made(HeadSearch::First { start }, head) <= 2 * bits(head) + 2,
{
    lemma_bits_monotone(0, head);
    if start <= head && 2 * start <= MAX_PROBE {
        lemma_doubling_probes(start, head);
        lemma_bits_monotone(0, start as int);
    }
}

/// Whether `e` can be the answer of `f` about some version from `start` on.
pub open spec fn some_probe_fails<F: Fn(i64) -> Result<bool>>(
    f: F,
    start: i64,
    e: MeruError,
) -> bool {
    exists|v: i64| start <= v && #[trigger] call_ensures(f, (v,), Err::<bool, MeruError>(e))
}

/// Whether a search returns `r` after `n` probes that `f` answers. An answer
/// that is an error is returned as it is, and no probe follows it.
pub open spec fn runs<F: Fn(i64) -> Result<bool>>(
    f: F,
    s: HeadSearch,
    n: nat,
    r: Result<Head>,
) -> bool
    decreases n,
{
    let v = s.probe_of() as i64;
    &&& n > 0
    &&& {
        ||| n == 1 && r is Err && call_ensures(f, (v,), Err::<bool, MeruError>(r->Err_0))
        ||| exists|present: bool, step: HeadStep|
            {
                &&& #[trigger] follows(s, present, step)
                &&& call_ensures(f, (v,), Ok::<bool, MeruError>(present))
                &&& match step {
                    HeadStep::Probe(next) => n > 1 && runs(f, next, (n - 1) as nat, r),
                    HeadStep::Found(h) => n == 1 && r == Ok::<Head, MeruError>(h),
                    HeadStep::Failed(e) => n == 1 && r == Err::<Head, MeruError>(e),
                }
            }
    }
}

/// What discovery from `start` may return. A version other than 0 was found
/// to exist, as the start was, and its successor was found missing; 0 means
/// that the start was missing. An error of the store is handed on, never taken
/// for an answer.
pub open spec fn discovered<F: Fn(i64) -> Result<bool>>(f: F, start: i64, r: Result<Head>) -> bool {
    match r {
        Ok(h) => if h == 0 {
            start >= 1 && call_ensures(f, (start,), Ok::<bool, MeruError>(false))
        } else {
            &&& 1 <= start <= h < MAX_PROBE
            &&& call_ensures(f, (start,), Ok::<bool, MeruError>(true))
            &&& call_ensures(f, (h,), Ok::<bool, MeruError>(true))
            &&& call_ensures(f, ((h + 1) as i64,), Ok::<bool, MeruError>(false))
        },
        Err(e) => {
            ||| start < 1 && e@ == start_error(start as int)
            ||| start >= 1 && some_probe_fails(f, start, e)
            ||| start >= 1 && call_ensures(f, (start,), Ok::<bool, MeruError>(true)) && exists|
                low: i64,
            |
                start <= low && 2 * low > MAX_PROBE && #[trigger] call_ensures(
                    f,
                    (low,),
                    Ok::<bool, MeruError>(true),
                ) && e@ == overflow_error(low as int)
        },
    }
}

/// Finds HEAD in a store that answers at once, from version 1 on.
pub fn discover_head<F: Fn(i64) -> Result<bool>>(exists_fn: F) -> (r: Result<Head>)
    requires
        forall|v: i64| 1 <= v ==> #[trigger] call_requires(exists_fn, (v,)),
    ensures
        discovered(exists_fn, 1, r),
        exists|n: nat| #[trigger] runs(exists_fn, HeadSearch::First { start: 1 }, n, r),
{
    discover_head_from(1, exists_fn)
}

/// Finds HEAD in a store that answers at once, from `start_version` on. A
/// start below 1 is refused without a probe.
pub fn discover_head_from<F: Fn(i64) -> Result<bool>>(start_version: i64, exists_fn: F) -> (r:
    Result<Head>)
    requires
        forall|v: i64| 1 <= v ==> #[trigger] call_requires(exists_fn, (v,)),
    ensures
        discovered(exists_fn, start_version, r),
        start_version < 1 ==> r is Err && r->Err_0@ == start_error(start_version as int),
        start_version >= 1 ==> exists|n: nat| #[trigger]
            runs(exists_fn, HeadSearch::First { start: start_version }, n, r),
{
    let mut s: HeadSearch = match begin_search(start_version) {
        Ok(s) => s,
        Err(e) => return Err(e),
    };
    let ghost begin = s;
    let ghost mut made: nat = 0;
    loop
        invariant
            start_version >= 1,
            begin == (HeadSearch::First { start: start_version }),
            s.in_range(),
            forall|v: i64| 1 <= v ==> #[trigger] call_requires(exists_fn, (v,)),
            forall|n: nat, r: Result<Head>| #[trigger]
                runs(exists_fn, s, n, r) ==> runs(exists_fn, begin, made + n, r),
            s is First || call_ensures(exists_fn, (start_version,), Ok::<bool, MeruError>(true)),
            match s {
                HeadSearch::First { start } => start == start_version,
                HeadSearch::Doubling { low } => start_version <= low && call_ensures(
                    exists_fn,
                    (low,),
                    Ok::<bool, MeruError>(true),
                ),
                HeadSearch::Halving { low, high } => start_version <= low && call_ensures(
                    exists_fn,
                    (low,),
                    Ok::<bool, MeruError>(true),
                ) && call_ensures(exists_fn, (high,), Ok::<bool, MeruError>(false)),
            },
        decreases s.remaining(),
    {
        let probe: i64 = s.next_probe();
        let present: bool = match exists_fn(probe) {
            Ok(b) => b,
            Err(e) => {
                proof {
                    assert(some_probe_fails(exists_fn, start_version, e));
                    assert(runs(exists_fn, s, 1, Err::<Head, MeruError>(e)));
                }
                return Err(e);
            },
        };
        let step = s.answer(present);
        assert(follows(s, present, step));
        match step {
            HeadStep::Probe(next) => {
                proof {
                    assert forall|n: nat, r: Result<Head>| #[trigger]
                        runs(exists_fn, next, n, r) implies runs(
                        exists_fn,
                        begin,
                        made + 1 + n,
                        r,
                    ) by {
                        assert((n + 1 - 1) as nat == n);
                        assert(follows(s, present, HeadStep::Probe(next)));
                        assert(n > 0);
                        assert(runs(exists_fn, s, n + 1, r));
                        assert(made + (n + 1) == made + 1 + n);
                    }
                    made = made + 1;
                }
                s = next;
            },
            HeadStep::Found(h) => {
                assert(follows(s, present, HeadStep::Found(h)));
                assert(runs(exists_fn, s, 1, Ok::<Head, MeruError>(h)));
                return Ok(h);
            },
            HeadStep::Failed(e) => {
                assert(follows(s, present, HeadStep::Failed(e)));
                assert(runs(exists_fn, s, 1, Err::<Head, MeruError>(e)));
                return Err(e);
            },
        }
    }
}

/// The last version up to `head` that doubling from `low` reaches.
pub open spec fn doubling_top(low: int, head: int) -> int
    decreases head - low,
    when low >= 1
{
    if 2 * low <= head {
        doubling_top(2 * low, head)
    } else {
        low
    }
}

proof fn lemma_doubling_top(low: int, head: int)
    requires
        1 <= low <= head,
    ensures
        low <= doubling_top(low, head) <= head,
    decreases head - low,
{
    if 2 * low <= head {
        lemma_doubling_top(2 * low, head);
    }
}

/// A search that knows the truth about a store of the versions up to `head`
/// ends at `head`, unless doubling leaves the range that is probed.
proof fn lemma_run_finds_head<F: Fn(i64) -> Result<bool>>(
    f: F,
    start: i64,
    head: int,
    s: HeadSearch,
    n: nat,
    r: Result<Head>,
)
    requires
        1 <= start,
        0 <= head,
        s.in_range(),
        s.knows(start as int, |v: int| v <= head),
        forall|v: i64, a: Result<bool>|
            start <= v && #[trigger] call_ensures(f, (v,), a) ==> a == Ok::<bool, MeruError>(
                v <= head,
            ),
        runs(f, s, n, r),
    ensures
        n == probes_made(s, head),
        match s {
            HeadSearch::First { .. } => if start > head {
                r == Ok::<Head, MeruError>(0)
            } else {
                ends_at(start as int, head, r)
            },
            HeadSearch::Doubling { low } => ends_at(low as int, head, r),
            HeadSearch::Halving { .. } => r == Ok::<Head, MeruError>(head as i64) && head
                < MAX_PROBE,
        },
    decreases n,
{
    let v = s.probe_of() as i64;
    assert(start <= v);
    assert(!call_ensures(f, (v,), Err::<bool, MeruError>(r->Err_0)));
    let (present, step) = choose|present: bool, step: HeadStep|
        {
            &&& #[trigger] follows(s, present, step)
            &&& call_ensures(f, (v,), Ok::<bool, MeruError>(present))
            &&& match step {
                HeadStep::Probe(next) => n > 1 && runs(f, next, (n - 1) as nat, r),
                HeadStep::Found(h) => n == 1 && r == Ok::<Head, MeruError>(h),
                HeadStep::Failed(e) => n == 1 && r == Err::<Head, MeruError>(e),
            }
        };
    assert(present == (v <= head));
    law_probes_are_counted(s, head, step);
    match s {
        HeadSearch::First { .. } => {
            if start <= head {
                lemma_doubling_top(start as int, head);
            }
        },
        HeadSearch::Doubling { low } => {
            lemma_doubling_top(low as int, head);
            if 2 * low <= head {
                lemma_doubling_top(2 * low, head);
            }
        },
        HeadSearch::Halving { .. } => {},
    }
    if let HeadStep::Probe(next) = step {
        law_search_stays_true(s, start as int, |v: int| v <= head, step);
        lemma_run_finds_head(f, start, head, next, (n - 1) as nat, r);
    }
}

/// What a search returns in a store of the versions up to `head` once it has
/// found `low`: `head`, or the overflow error where doubling from `low` leads
/// beyond [`MAX_PROBE`] before it passes `head`.
pub open spec fn ends_at(low: int, head: int, r: Result<Head>) -> bool {
    if 2 * doubling_top(low, head) <= MAX_PROBE {
        r == Ok::<Head, MeruError>(head as i64)
    } else {
        r is Err
    }
}

/// In a store that holds exactly the versions up to `head`, discovery that
/// begins at a version that exists returns that `head`, and one that begins
/// beyond it returns 0 after one probe. It fails only where doubling the start
/// leads beyond [`MAX_PROBE`] before it passes `head`; a `head` up to half of
/// [`MAX_PROBE`] is always found. The probes are those that `probes_made`
/// counts.
pub proof fn law_discovery_returns_head<F: Fn(i64) -> Result<bool>>(
    f: F,
    start: i64,
    head: i64,
    n: nat,
    r: Result<Head>,
)
    requires
        1 <= start,
        0 <= head,
        forall|v: i64, a: Result<bool>|
            start <= v && #[trigger] call_ensures(f, (v,), a) ==> a == Ok::<bool, MeruError>(
                v <= head,
            ),
        runs(f, HeadSearch::First { start }, n, r),
    ensures
        start > head ==> r == Ok::<Head, MeruError>(0) && n == 1,
        start <= head ==> ends_at(start as int, head as int, r),
        start <= head && 2 * head <= MAX_PROBE ==> r == Ok::<Head, MeruError>(head),
        n == probes_made(HeadSearch::First { start }, head as int),
        n <= 2 * bits(head as int) + 2,
{
    lemma_run_finds_head(f, start, head as int, HeadSearch::First { start }, n, r);
    law_probes_are_logarithmic(start, head as int);
    if start <= head {
        lemma_doubling_top(start as int, head as int);
    }
}

/// Discovery from a version that is missing returns 0 after one probe,
/// whatever the store holds beyond.
pub proof fn law_missing_start_is_one_probe<F: Fn(i64) -> Result<bool>>(
    f: F,
    start: i64,
    n: nat,
    r: Result<Head>,
)
    requires
        1 <= start,
        forall|a: Result<bool>| #[trigger]
            call_ensures(f, (start,), a) ==> a == Ok::<bool, MeruError>(false),
        runs(f, HeadSearch::First { start }, n, r),
    ensures
        n == 1,
        r == Ok::<Head, MeruError>(0),
{
}

/// Every HEAD up to 2^61 is found, from whatever version of the catalog
/// discovery begins at.
pub proof fn law_every_head_up_to_2_to_the_61_is_found<F: Fn(i64) -> Result<bool>>(
    f: F,
    start: i64,
    head: i64,
    n: nat,
    r: Result<Head>,
)
    requires
        1 <= start <= head <= 0x2000_0000_0000_0000,
        forall|v: i64, a: Result<bool>|
            start <= v && #[trigger] call_ensures(f, (v,), a) ==> a == Ok::<bool, MeruError>(
                v <= head,
            ),
        runs(f, HeadSearch::First { start }, n, r),
    ensures
        r == Ok::<Head, MeruError>(head),
{
    law_discovery_returns_head(f, start, head, n, r);
}

/// A number has as many binary digits as it takes to write it: it lies between
/// the power of two of one digit less and that of its digits.
pub proof fn law_binary_digits(n: int)
    requires
        n > 0,
    ensures
        bits(0) == 0,
        bits(n) >= 1,
        vstd::arithmetic::power2::pow2((bits(n) - 1) as nat) <= n
            < vstd::arithmetic::power2::pow2(bits(n) as nat),
    decreases n,
{
    vstd::arithmetic::power2::lemma2_to64();
    if n == 1 {
        assert(bits(0) == 0);
        assert(bits(1) == 1 + bits(1int / 2));
    } else {
        law_binary_digits(n / 2);
        let b = bits(n / 2);
        vstd::arithmetic::power2::lemma_pow2_unfold(b as nat);
        vstd::arithmetic::power2::lemma_pow2_unfold((b + 1) as nat);
    }
}

/// Discovery fails with a corruption where it refuses its start or where
/// doubling leads too far, never with another error of its own.
pub proof fn law_discovery_errors_are_corruptions(n: int)
    ensures
        start_error(n) is Corruption,
        overflow_error(n) is Corruption,
{
}

} // verus!
