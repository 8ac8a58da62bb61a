//! Progress of the mirror worker.
//!
//! The worker looks at the primary's snapshot every few seconds and keeps the
//! highest one that it has seen.

use vstd::prelude::*;

verus! {

/// Seconds between two looks of the mirror worker at the primary.
pub const POLL_INTERVAL_SECS: u64 = 5;

/// The highest snapshot that a mirror worker has seen.
#[derive(Debug)]
pub struct MirrorProgress {
    seq: i64,
}

impl View for MirrorProgress {
    type V = i64;

    closed spec fn view(&self) -> i64 {
        self.seq
    }
}

/// What a mirror worker does on one round of its loop.
#[derive(Debug, Clone, Copy, PartialEq, Eq, Structural)]
pub enum MirrorStep {
    /// Exit.
    Stop,
    /// There is a new snapshot; then wait.
    Advanced {
        /// The highest snapshot seen before.
        previous: i64,
        /// The new one.
        current: i64,
    },
    /// Nothing is new; wait.
    Idle,
}

impl MirrorProgress {
    /// A worker that has seen nothing yet.
    pub fn new() -> (r: Self)
        ensures
            r@ == 0,
    {
        MirrorProgress { seq: 0 }
    }

    /// The highest snapshot seen: 0 before the first one.
    pub fn mirror_seq(&self) -> (r: i64)
        ensures
            r == self@,
    {
        self.seq
    }

    /// One round of the worker's loop: exits when a shutdown was asked for,
    /// and otherwise takes the primary's current snapshot in. What was seen
    /// never goes back.
    pub fn tick(&mut self, shutdown: bool, current: i64) -> (r: MirrorStep)
        ensures
            r == (if shutdown {
                MirrorStep::Stop
            } else if current > old(self)@ {
                MirrorStep::Advanced { previous: old(self)@, current }
            } else {
                MirrorStep::Idle
            }),
            final(self)@ == (if !shutdown && current > old(self)@ {
                current
            } else {
                old(self)@
            }),
            final(self)@ >= old(self)@,
    {
        if shutdown {
            return MirrorStep::Stop;
        }
        if current > self.seq {
            let previous: i64 = self.seq;
            self.seq = current;
            MirrorStep::Advanced { previous, current }
        } else {
            MirrorStep::Idle
        }
    }
}

} // verus!
