//! What the background workers do next.
//!
//! A worker reads the shutdown flag, waits, and flushes or compacts. It does
//! that work itself; which of these comes next is decided here, from what the
//! worker has just seen.

use vstd::prelude::*;

verus! {

/// Milliseconds that an idle flush worker waits before it looks again.
pub const FLUSH_POLL_MS: u64 = 250;

/// Milliseconds that a flush worker waits after a flush that failed.
pub const FLUSH_RETRY_MS: u64 = 100;

/// Milliseconds between two compaction attempts of a worker.
pub const COMPACTION_POLL_MS: u64 = 1000;

/// What a worker has just seen. Each phase looks at the fields that concern
/// it.
#[derive(Debug, Clone, Copy, PartialEq, Eq, Structural)]
pub struct Seen {
    /// The shutdown flag is set. It is set before anyone is notified.
    pub shutdown: bool,
    /// The wait was ended by the shutdown notification.
    pub notified: bool,
    /// An immutable memtable waits for its flush.
    pub pending: bool,
    /// The flush or compaction failed.
    pub failed: bool,
    /// The engine is closed.
    pub closed: bool,
}

/// What a flush worker is about to do.
#[derive(Debug, Clone, Copy, PartialEq, Eq, Structural)]
pub enum FlushPhase {
    /// Read the shutdown flag.
    Top,
    /// Wait for a shutdown, a new immutable memtable or [`FLUSH_POLL_MS`].
    Wait,
    /// Look for an immutable memtable and read the shutdown flag.
    Drain,
    /// Flush the oldest immutable memtable.
    Flush,
    /// Sleep [`FLUSH_RETRY_MS`].
    Backoff,
    /// Exit.
    Stopped,
}

/// What a flush worker does after it saw `seen` in a phase.
pub open spec fn flush_after(phase: FlushPhase, seen: Seen) -> FlushPhase {
    match phase {
        FlushPhase::Top => if seen.shutdown {
            FlushPhase::Stopped
        } else {
            FlushPhase::Wait
        },
        FlushPhase::Wait => if seen.notified {
            FlushPhase::Stopped
        } else {
            FlushPhase::Drain
        },
        FlushPhase::Drain => if seen.pending && !seen.shutdown {
            FlushPhase::Flush
        } else {
            FlushPhase::Top
        },
        FlushPhase::Flush => if !seen.failed {
            FlushPhase::Drain
        } else if seen.closed {
            FlushPhase::Top
        } else {
            FlushPhase::Backoff
        },
        FlushPhase::Backoff => FlushPhase::Drain,
        FlushPhase::Stopped => FlushPhase::Stopped,
    }
}

/// What a flush worker does after it saw `seen` in a phase. It drains every
/// immutable memtable before it waits again, retries a flush that failed, and
/// gives the drain up when the engine is closed.
pub fn next_flush_phase(phase: FlushPhase, seen: Seen) -> (r: FlushPhase)
    ensures
        r == flush_after(phase, seen),
{
    match phase {
        FlushPhase::Top => {
            if seen.shutdown {
                FlushPhase::Stopped
            } else {
                FlushPhase::Wait
            }
        },
        FlushPhase::Wait => {
            if seen.notified {
                FlushPhase::Stopped
            } else {
                FlushPhase::Drain
            }
        },
        FlushPhase::Drain => {
            if seen.pending && !seen.shutdown {
                FlushPhase::Flush
            } else {
                FlushPhase::Top
            }
        },
        FlushPhase::Flush => {
            if !seen.failed {
                FlushPhase::Drain
            } else if seen.closed {
                FlushPhase::Top
            } else {
                FlushPhase::Backoff
            }
        },
        FlushPhase::Backoff => FlushPhase::Drain,
        FlushPhase::Stopped => FlushPhase::Stopped,
    }
}

/// What a compaction worker is about to do.
#[derive(Debug, Clone, Copy, PartialEq, Eq, Structural)]
pub enum CompactionPhase {
    /// Read the shutdown flag.
    Top,
    /// Wait for a shutdown or [`COMPACTION_POLL_MS`].
    Wait,
    /// Read the shutdown flag once more.
    Recheck,
    /// Run compactions.
    Compact,
    /// Exit.
    Stopped,
}

/// What a compaction worker does after it saw `seen` in a phase.
pub open spec fn compaction_after(phase: CompactionPhase, seen: Seen) -> CompactionPhase {
    match phase {
        CompactionPhase::Top => if seen.shutdown {
            CompactionPhase::Stopped
        } else {
            CompactionPhase::Wait
        },
        CompactionPhase::Wait => if seen.notified {
            CompactionPhase::Stopped
        } else {
            CompactionPhase::Recheck
        },
        CompactionPhase::Recheck => if seen.shutdown {
            CompactionPhase::Stopped
        } else {
            CompactionPhase::Compact
        },
        CompactionPhase::Compact => if seen.failed && seen.closed {
            CompactionPhase::Stopped
        } else {
            CompactionPhase::Top
        },
        CompactionPhase::Stopped => CompactionPhase::Stopped,
    }
}

/// What a compaction worker does after it saw `seen` in a phase. It exits
/// when a compaction fails on a closed engine and retries any other failure.
pub fn next_compaction_phase(phase: CompactionPhase, seen: Seen) -> (r: CompactionPhase)
    ensures
        r == compaction_after(phase, seen),
{
    match phase {
        CompactionPhase::Top => {
            if seen.shutdown {
                CompactionPhase::Stopped
            } else {
                CompactionPhase::Wait
            }
        },
        CompactionPhase::Wait => {
            if seen.notified {
                CompactionPhase::Stopped
            } else {
                CompactionPhase::Recheck
            }
        },
        CompactionPhase::Recheck => {
            if seen.shutdown {
                CompactionPhase::Stopped
            } else {
                CompactionPhase::Compact
            }
        },
        CompactionPhase::Compact => {
            if seen.failed && seen.closed {
                CompactionPhase::Stopped
            } else {
                CompactionPhase::Top
            }
        },
        CompactionPhase::Stopped => CompactionPhase::Stopped,
    }
}

/// Where a flush worker stands after it saw these things one after another.
pub open spec fn flush_run(phase: FlushPhase, seen: Seq<Seen>) -> FlushPhase
    decreases seen.len(),
{
    if seen.len() == 0 {
        phase
    } else {
        flush_after(flush_run(phase, seen.drop_last()), seen.last())
    }
}

/// Where a compaction worker stands after it saw these things one after
/// another.
pub open spec fn compaction_run(phase: CompactionPhase, seen: Seq<Seen>) -> CompactionPhase
    decreases seen.len(),
{
    if seen.len() == 0 {
        phase
    } else {
        compaction_after(compaction_run(phase, seen.drop_last()), seen.last())
    }
}

/// The phases that a flush worker still passes through once the shutdown flag
/// is set.
spec fn flush_distance(phase: FlushPhase) -> nat {
    match phase {
        FlushPhase::Stopped => 0,
        FlushPhase::Top => 1,
        FlushPhase::Drain => 2,
        FlushPhase::Wait => 3,
        FlushPhase::Backoff => 3,
        FlushPhase::Flush => 4,
    }
}

/// The phases that a compaction worker still passes through once the shutdown
/// flag is set.
spec fn compaction_distance(phase: CompactionPhase) -> nat {
    match phase {
        CompactionPhase::Stopped => 0,
        CompactionPhase::Top => 1,
        CompactionPhase::Recheck => 1,
        CompactionPhase::Wait => 2,
        CompactionPhase::Compact => 2,
    }
}

proof fn lemma_flush_distance_shrinks(phase: FlushPhase, seen: Seq<Seen>)
    requires
        forall|i: int| 0 <= i < seen.len() ==> #[trigger] seen[i].shutdown,
    ensures
        flush_distance(flush_run(phase, seen)) + seen.len() <= flush_distance(phase)
            || flush_run(phase, seen) == FlushPhase::Stopped,
    decreases seen.len(),
{
    if seen.len() > 0 {
        let before = seen.drop_last();
        assert forall|i: int| 0 <= i < before.len() implies #[trigger] before[i].shutdown by {
            assert(before[i] == seen[i]);
        }
        lemma_flush_distance_shrinks(phase, before);
        assert(seen.last() == seen[seen.len() - 1]);
    }
}

proof fn lemma_compaction_distance_shrinks(phase: CompactionPhase, seen: Seq<Seen>)
    requires
        forall|i: int| 0 <= i < seen.len() ==> #[trigger] seen[i].shutdown,
    ensures
        compaction_distance(compaction_run(phase, seen)) + seen.len() <= compaction_distance(phase)
            || compaction_run(phase, seen) == CompactionPhase::Stopped,
    decreases seen.len(),
{
    if seen.len() > 0 {
        let before = seen.drop_last();
        assert forall|i: int| 0 <= i < before.len() implies #[trigger] before[i].shutdown by {
            assert(before[i] == seen[i]);
        }
        lemma_compaction_distance_shrinks(phase, before);
        assert(seen.last() == seen[seen.len() - 1]);
    }
}

/// A shutdown is never lost on a flush worker: wherever the flag finds it, it
/// has stopped after at most four more phases, even if it missed the
/// notification, and it finishes the flush it was in.
pub proof fn law_shutdown_stops_a_flush_worker(phase: FlushPhase, seen: Seq<Seen>)
    requires
        forall|i: int| 0 <= i < seen.len() ==> #[trigger] seen[i].shutdown,
        seen.len() >= 4,
    ensures
        flush_run(phase, seen) == FlushPhase::Stopped,
{
    lemma_flush_distance_shrinks(phase, seen);
}

/// A shutdown is never lost on a compaction worker: wherever the flag finds
/// it, it has stopped after at most two more phases.
pub proof fn law_shutdown_stops_a_compaction_worker(phase: CompactionPhase, seen: Seq<Seen>)
    requires
        forall|i: int| 0 <= i < seen.len() ==> #[trigger] seen[i].shutdown,
        seen.len() >= 2,
    ensures
        compaction_run(phase, seen) == CompactionPhase::Stopped,
{
    lemma_compaction_distance_shrinks(phase, seen);
}

/// A flush worker that is not told to shut down never stops, whatever fails.
pub proof fn law_flush_worker_stops_for_a_shutdown_only(phase: FlushPhase, seen: Seq<Seen>)
    requires
        phase != FlushPhase::Stopped,
        forall|i: int|
            0 <= i < seen.len() ==> !(#[trigger] seen[i]).shutdown && !seen[i].notified,
    ensures
        flush_run(phase, seen) != FlushPhase::Stopped,
    decreases seen.len(),
{
    if seen.len() > 0 {
        let before = seen.drop_last();
        assert forall|i: int| 0 <= i < before.len() implies !(#[trigger] before[i]).shutdown
            && !before[i].notified by {
            assert(before[i] == seen[i]);
        }
        law_flush_worker_stops_for_a_shutdown_only(phase, before);
        assert(seen.last() == seen[seen.len() - 1]);
    }
}

/// A compaction worker that is not told to shut down stops only when a
/// compaction fails on a closed engine.
pub proof fn law_compaction_worker_outlives_failures(phase: CompactionPhase, seen: Seq<Seen>)
    requires
        phase != CompactionPhase::Stopped,
        forall|i: int|
            0 <= i < seen.len() ==> !(#[trigger] seen[i]).shutdown && !seen[i].notified
                && !(seen[i].failed && seen[i].closed),
    ensures
        compaction_run(phase, seen) != CompactionPhase::Stopped,
    decreases seen.len(),
{
    if seen.len() > 0 {
        let before = seen.drop_last();
        assert forall|i: int| 0 <= i < before.len() implies !(#[trigger] before[i]).shutdown
            && !before[i].notified && !(before[i].failed && before[i].closed) by {
            assert(before[i] == seen[i]);
        }
        law_compaction_worker_outlives_failures(phase, before);
        assert(seen.last() == seen[seen.len() - 1]);
    }
}

/// When a flush worker does what: it flushes exactly when it looked for a
/// memtable, found one and was not told to shut down; it sleeps exactly after
/// a flush that failed on an open engine; it waits exactly when it read no
/// shutdown at the top; and it stops only at the top, on a shutdown, or when a
/// notification ends its wait.
pub proof fn law_when_a_flush_worker_does_what(phase: FlushPhase, seen: Seen)
    ensures
        flush_after(phase, seen) == FlushPhase::Flush <==> phase == FlushPhase::Drain
            && seen.pending && !seen.shutdown,
        flush_after(phase, seen) == FlushPhase::Backoff <==> phase == FlushPhase::Flush
            && seen.failed && !seen.closed,
        flush_after(phase, seen) == FlushPhase::Wait <==> phase == FlushPhase::Top
            && !seen.shutdown,
        flush_after(phase, seen) == FlushPhase::Stopped <==> phase == FlushPhase::Stopped || (phase
            == FlushPhase::Top && seen.shutdown) || (phase == FlushPhase::Wait && seen.notified),
        flush_after(phase, seen) == FlushPhase::Top <==> (phase == FlushPhase::Drain && !(
        seen.pending && !seen.shutdown)) || (phase == FlushPhase::Flush && seen.failed
            && seen.closed),
{
}

/// When a compaction worker does what: it compacts exactly when it read no
/// shutdown after its wait; it waits exactly when it read none at the top; and
/// it stops on a shutdown, on a notification, or when a compaction fails on a
/// closed engine.
pub proof fn law_when_a_compaction_worker_does_what(phase: CompactionPhase, seen: Seen)
    ensures
        compaction_after(phase, seen) == CompactionPhase::Compact <==> phase
            == CompactionPhase::Recheck && !seen.shutdown,
        compaction_after(phase, seen) == CompactionPhase::Wait <==> phase == CompactionPhase::Top
            && !seen.shutdown,
        compaction_after(phase, seen) == CompactionPhase::Recheck <==> phase
            == CompactionPhase::Wait && !seen.notified,
        compaction_after(phase, seen) == CompactionPhase::Stopped <==> phase
            == CompactionPhase::Stopped || ((phase == CompactionPhase::Top || phase
            == CompactionPhase::Recheck) && seen.shutdown) || (phase == CompactionPhase::Wait
            && seen.notified) || (phase == CompactionPhase::Compact && seen.failed && seen.closed),
{
}

} // verus!
