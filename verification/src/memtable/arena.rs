//! Arena of a memtable.

use vstd::prelude::*;

verus! {

/// The bump allocator of the `bumpalo` crate.
#[verifier::external_type_specification]
#[verifier::external_body]
pub struct ExBump<const MIN_ALIGN: usize>(bumpalo::Bump<MIN_ALIGN>);

/// `bumpalo::Bump::new`: an allocator that has handed nothing out. Nothing is
/// claimed of it: the arena only holds it.
#[verifier::external_body]
fn bump_new() -> bumpalo::Bump {
    bumpalo::Bump::new()
}

/// Memory that lives as long as one memtable. The allocator stands ready for
/// keys that are stored in it; so far nothing is allocated through the arena.
pub struct Arena {
    #[allow(dead_code)]
    inner: bumpalo::Bump,
    allocated: usize,
}

impl Arena {
    /// The bytes that were allocated through the arena.
    pub closed spec fn allocated(&self) -> usize {
        self.allocated
    }

    /// An arena without allocations.
    pub fn new() -> (r: Self)
        ensures
            r.allocated() == 0,
    {
        Arena { inner: bump_new(), allocated: 0 }
    }

    /// The bytes that were allocated through the arena.
    pub fn allocated_bytes(&self) -> (r: usize)
        ensures
            r == self.allocated(),
    {
        self.allocated
    }
}

impl Default for Arena {
    fn default() -> (r: Self)
        ensures
            r.allocated() == 0,
    {
        Arena::new()
    }
}

} // verus!
