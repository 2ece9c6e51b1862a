//! Registered-capability fast-path table: a per-process cache of caps
//! resolved once at registration, addressed by a small handle.

use vstd::prelude::*;
use crate::cap::types::ObjectKind;

verus! {

/// Number of entries in a registered-capability table.
pub const REG_SLOTS_USIZE: usize = 64;

/// One registered-resource slot; `kind == Empty` marks a free slot.
#[derive(Clone, Copy)]
pub struct RegEntry {
    /// Cached kind of the registered object.
    pub kind: ObjectKind,
    /// Cached rights bitmap.
    pub rights: u8,
    /// Originating CSpace slot.
    pub cspace_slot: u8,
    /// Generation of the originating slot at registration.
    pub reg_generation: u16,
    /// Cached object pool index.
    pub pool_index: u16,
}

impl RegEntry {
    /// A free entry.
    pub fn empty() -> (r: Self)
        ensures
            r.kind == ObjectKind::Empty,
            r.rights == 0,
            r.cspace_slot == 0,
            r.reg_generation == 0,
            r.pool_index == 0,
    {
        RegEntry { kind: ObjectKind::Empty, rights: 0, cspace_slot: 0, reg_generation: 0, pool_index: 0 }
    }

    /// `true` if the entry is free.
    pub fn is_empty(&self) -> (r: bool)
        ensures
            r == (self.kind == ObjectKind::Empty),
    {
        match self.kind {
            ObjectKind::Empty => true,
            _ => false,
        }
    }
}

/// Per-process registered-resource table.
#[derive(Clone, Copy)]
pub struct RegTable {
    /// The entries, indexed by handle.
    pub slots: [RegEntry; 64],
}

impl RegTable {
    /// A table of free entries.
    pub fn new() -> (r: Self)
        ensures
            forall|i: int| 0 <= i < 64 ==> (#[trigger] r.slots@[i]).kind == ObjectKind::Empty,
    {
        let e = RegEntry::empty();
        RegTable { slots: [e; 64] }
    }

    /// Index of the first free entry, or `None` when the table is full.
    pub fn find_empty(&self) -> (r: Option<usize>)
        ensures
            match r {
                Some(i) => {
                    &&& i < 64
                    &&& self.slots@[i as int].kind == ObjectKind::Empty
                    &&& forall|j: int| 0 <= j < i ==> (#[trigger] self.slots@[j]).kind != ObjectKind::Empty
                },
                None => forall|j: int| 0 <= j < 64 ==> (#[trigger] self.slots@[j]).kind != ObjectKind::Empty,
            },
    {
        let mut i: usize = 0;
        while i < 64
            invariant
                i <= 64,
                forall|j: int| 0 <= j < i ==> (#[trigger] self.slots@[j]).kind != ObjectKind::Empty,
            decreases 64 - i,
        {
            if self.slots[i].is_empty() {
                return Some(i);
            }
            i = i + 1;
        }
        None
    }
}

} // verus!
