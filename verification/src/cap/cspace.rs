//! Per-process capability space: a flat array of 256 capability slots
//! with a generation counter per slot.

use vstd::prelude::*;
use crate::error::KernelError;
use crate::cap::types::{Cap, ObjectKind, empty_cap};

verus! {

/// Number of slots in a CSpace.
pub const CSPACE_SLOTS: usize = 256;

/// Maximum number of processes; each owns one CSpace.
pub const MAX_PROCS: usize = 16;

/// The generation that follows `g`: one more, saturating at `u16::MAX`.
pub open spec fn next_generation(g: u16) -> u16 {
    if g == u16::MAX {
        g
    } else {
        (g + 1) as u16
    }
}

/// Per-process capability table.
#[derive(Clone, Copy)]
pub struct CSpace {
    /// The capability slots, indexed by slot number.
    pub slots: [Cap; 256],
    /// Per-slot generation counters, bumped whenever a slot is vacated.
    pub generations: [u16; 256],
}

impl CSpace {
    /// A fresh CSpace: every slot empty, every generation zero.
    pub fn new() -> (r: Self)
        ensures
            forall|i: int| 0 <= i < 256 ==> #[trigger] r.slots@[i] == empty_cap(),
            forall|i: int| 0 <= i < 256 ==> #[trigger] r.generations@[i] == 0,
    {
        let e = Cap::empty();
        let slots = [e; 256];
        let generations = [0u16; 256];
        CSpace { slots, generations }
    }

    /// The cap in `slot` (which may itself be empty). Every `u8` is a
    /// valid slot, so this always succeeds.
    pub fn lookup(&self, slot: u8) -> (r: Option<&Cap>)
        ensures
            r matches Some(c) && *c == self.slots@[slot as int],
    {
        let s = slot as usize;
        Some(&self.slots[s])
    }

    /// Mutable access to the cap in `slot`.
    pub fn lookup_mut(&mut self, slot: u8) -> (r: Option<&mut Cap>)
        ensures
            r matches Some(c) && *c == old(self).slots@[slot as int]
                && final(self).slots@ == old(self).slots@.update(slot as int, *final(c))
                && final(self).generations@ == old(self).generations@,
    {
        let s = slot as usize;
        Some(&mut self.slots[s])
    }

    /// `true` if `slot` holds a non-empty cap.
    pub fn is_occupied(&self, slot: u8) -> (r: bool)
        ensures
            r == (self.slots@[slot as int].kind != ObjectKind::Empty),
    {
        match self.lookup(slot) {
            Some(c) => !c.is_empty(),
            None => false,
        }
    }

    /// The generation counter of `slot`.
    pub fn generation(&self, slot: u8) -> (r: u16)
        ensures
            r == self.generations@[slot as int],
    {
        self.generations[slot as usize]
    }

    /// Bump the generation counter of `slot` (saturating at
    /// `u16::MAX`) and return the new value.
    pub fn bump_generation(&mut self, slot: u8) -> (r: u16)
        ensures
            r == next_generation(old(self).generations@[slot as int]),
            final(self).generations@ == old(self).generations@.update(slot as int, r),
            final(self).slots@ == old(self).slots@,
    {
        let s = slot as usize;
        let g = self.generations[s].saturating_add(1);
        self.generations[s] = g;
        g
    }

    /// Index of the first empty slot, or `OutOfHandles` when every slot
    /// is occupied.
    pub fn find_empty(&self) -> (r: Result<u8, KernelError>)
        ensures
            match r {
                Ok(i) => {
                    &&& self.slots@[i as int].kind == ObjectKind::Empty
                    &&& forall|j: int| 0 <= j < i ==> #[trigger] self.slots@[j].kind != ObjectKind::Empty
                },
                Err(e) => {
                    &&& e == KernelError::OutOfHandles
                    &&& forall|j: int| 0 <= j < 256 ==> #[trigger] self.slots@[j].kind != ObjectKind::Empty
                },
            },
    {
        let mut i: usize = 0;
        while i < 256
            invariant
                i <= 256,
                forall|j: int| 0 <= j < i ==> #[trigger] self.slots@[j].kind != ObjectKind::Empty,
            decreases 256 - i,
        {
            if self.slots[i].is_empty() {
                return Ok(i as u8);
            }
            i = i + 1;
        }
        Err(KernelError::OutOfHandles)
    }
}

impl Default for CSpace {
    fn default() -> (r: Self)
        ensures
            forall|i: int| 0 <= i < 256 ==> #[trigger] r.slots@[i] == empty_cap(),
            forall|i: int| 0 <= i < 256 ==> #[trigger] r.generations@[i] == 0,
    {
        CSpace::new()
    }
}

} // verus!
