//! The capability system's state: one CSpace and one registered-cap
//! table per process, the global object pools, and each process's
//! submission-ring descriptor.

use vstd::prelude::*;
use crate::cap::types::Cap;
use crate::cap::cspace::{CSpace, MAX_PROCS};
use crate::cap::objects::{ObjectPools, PoolsView};
use crate::cap::reg::{RegEntry, RegTable};
use crate::cap::ring::RingDesc;
use crate::cap::types::{ObjectKind, empty_cap};

verus! {

/// The abstract state of the capability system.
pub struct SysView {
    /// `slots[p][s]`: the cap in slot `s` of process `p`'s CSpace.
    pub slots: Seq<Seq<Cap>>,
    /// `gens[p][s]`: the generation counter of that slot.
    pub gens: Seq<Seq<u16>>,
    /// The object pools.
    pub pools: PoolsView,
    /// `regs[p][h]`: entry `h` of process `p`'s registered-cap table.
    pub regs: Seq<Seq<RegEntry>>,
    /// `rings[p]`: process `p`'s submission-ring descriptor.
    pub rings: Seq<RingDesc>,
}

/// The state with slot `(p, s)` holding `c`.
pub open spec fn with_slot(v: SysView, p: int, s: int, c: Cap) -> SysView {
    SysView { slots: v.slots.update(p, v.slots[p].update(s, c)), ..v }
}

/// The state with the generation of slot `(p, s)` set to `g`.
pub open spec fn with_gen(v: SysView, p: int, s: int, g: u16) -> SysView {
    SysView { gens: v.gens.update(p, v.gens[p].update(s, g)), ..v }
}

/// The state with the pools replaced.
pub open spec fn with_pools(v: SysView, pools: PoolsView) -> SysView {
    SysView { pools, ..v }
}

/// The kernel-wide capability state.
pub struct CapSystem {
    /// One CSpace per process.
    pub cspaces: Vec<CSpace>,
    /// The global object pools.
    pub pools: ObjectPools,
    /// One registered-cap table per process.
    pub reg_tables: Vec<RegTable>,
    /// One submission-ring descriptor per process.
    pub rings: Vec<RingDesc>,
}

impl View for CapSystem {
    type V = SysView;

    open spec fn view(&self) -> SysView {
        SysView {
            slots: self.cspaces@.map_values(|c: CSpace| c.slots@),
            gens: self.cspaces@.map_values(|c: CSpace| c.generations@),
            pools: self.pools@,
            regs: self.reg_tables@.map_values(|t: RegTable| t.slots@),
            rings: self.rings@,
        }
    }
}

impl CapSystem {
    /// One CSpace, table and ring per process, and pools of their fixed
    /// capacities.
    pub open spec fn wf(&self) -> bool {
        &&& self.cspaces@.len() == MAX_PROCS
        &&& self.reg_tables@.len() == MAX_PROCS
        &&& self.rings@.len() == MAX_PROCS
        &&& self.pools.wf()
    }

    /// The boot-time state: every slot empty, every generation zero,
    /// every pool free, no registrations and no rings.
    pub fn new() -> (r: Self)
        ensures
            r.wf(),
            forall|p: int, s: int|
                0 <= p < MAX_PROCS && 0 <= s < 256 ==> #[trigger] r@.slots[p][s] == empty_cap(),
            forall|p: int, s: int| 0 <= p < MAX_PROCS && 0 <= s < 256 ==> #[trigger] r@.gens[p][s] == 0,
            forall|p: int, h: int|
                0 <= p < MAX_PROCS && 0 <= h < 64 ==> (#[trigger] r@.regs[p][h]).kind == ObjectKind::Empty,
            forall|p: int| 0 <= p < MAX_PROCS ==> !(#[trigger] r@.rings[p]).active,
            r@.pools == ObjectPools::new_view(),
    {
        let mut cspaces: Vec<CSpace> = Vec::new();
        let mut reg_tables: Vec<RegTable> = Vec::new();
        let mut rings: Vec<RingDesc> = Vec::new();
        let mut i: usize = 0;
        while i < MAX_PROCS
            invariant
                i <= MAX_PROCS,
                cspaces@.len() == i,
                reg_tables@.len() == i,
                rings@.len() == i,
                forall|p: int, s: int|
                    0 <= p < i && 0 <= s < 256 ==> #[trigger] cspaces@[p].slots@[s] == empty_cap(),
                forall|p: int, s: int|
                    0 <= p < i && 0 <= s < 256 ==> #[trigger] cspaces@[p].generations@[s] == 0,
                forall|p: int, h: int|
                    0 <= p < i && 0 <= h < 64 ==> (#[trigger] reg_tables@[p].slots@[h]).kind
                        == ObjectKind::Empty,
                forall|p: int| 0 <= p < i ==> !(#[trigger] rings@[p]).active,
            decreases MAX_PROCS - i,
        {
            cspaces.push(CSpace::new());
            reg_tables.push(RegTable::new());
            rings.push(RingDesc::empty());
            i = i + 1;
        }
        CapSystem { cspaces, pools: ObjectPools::new(), reg_tables, rings }
    }

    /// The cap in slot `s` of process `p`.
    pub fn slot(&self, p: u8, s: u8) -> (r: Cap)
        requires
            self.wf(),
            p < MAX_PROCS,
        ensures
            r == self@.slots[p as int][s as int],
    {
        self.cspaces[p as usize].slots[s as usize]
    }

    /// The generation counter of slot `s` of process `p`.
    pub fn gen(&self, p: u8, s: u8) -> (r: u16)
        requires
            self.wf(),
            p < MAX_PROCS,
        ensures
            r == self@.gens[p as int][s as int],
    {
        self.cspaces[p as usize].generations[s as usize]
    }

    /// Store `c` in slot `s` of process `p`.
    pub fn set_slot(&mut self, p: u8, s: u8, c: Cap)
        requires
            old(self).wf(),
            p < MAX_PROCS,
        ensures
            final(self).wf(),
            final(self)@ == with_slot(old(self)@, p as int, s as int, c),
    {
        let ghost pre = self@;
        let pi = p as usize;
        let si = s as usize;
        self.cspaces[pi].slots[si] = c;
        assert(self@.slots =~~= with_slot(pre, p as int, s as int, c).slots);
        assert(self@.gens =~~= pre.gens);
        assert(self@.regs =~~= pre.regs);
    }

    /// Set the generation counter of slot `s` of process `p`.
    pub fn set_gen(&mut self, p: u8, s: u8, g: u16)
        requires
            old(self).wf(),
            p < MAX_PROCS,
        ensures
            final(self).wf(),
            final(self)@ == with_gen(old(self)@, p as int, s as int, g),
    {
        let ghost pre = self@;
        let pi = p as usize;
        let si = s as usize;
        self.cspaces[pi].generations[si] = g;
        assert(self@.gens =~~= with_gen(pre, p as int, s as int, g).gens);
        assert(self@.slots =~~= pre.slots);
        assert(self@.regs =~~= pre.regs);
    }
}

} // verus!
