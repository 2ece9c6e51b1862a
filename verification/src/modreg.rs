//! Module registry: staging signed Tier-1 modules that arrive at run
//! time, verifying and spawning them with attenuated authority, and
//! restarting daemons when they terminate. Audit records are appended
//! to an event list the caller forwards to the audit stream.

use vstd::prelude::*;
use crate::error::KernelError;
use crate::cap::cspace::MAX_PROCS;
use crate::cap::grants::{GrantSpec, GRANT_EVENTLOG};
use crate::cap::boot::{install_tier1_grants, grants_state};
use crate::cap::storage::CapSystem;
use crate::sched::{Scheduler, Tier, ModuleId, ProcessState, fresh_process};
use crate::sign::{verify, envelope_ok, HEADER_LEN};

verus! {

/// Registry capacity.
pub const DYN_SLOTS: usize = 4;
/// Largest envelope a slot accepts.
pub const MAX_MODULE_BYTES: usize = 262144;
/// First process id the registry hands out.
pub const PROC_ID_DYN_BASE: u8 = 5;

/// Kind of an audit record.
#[derive(Debug, Clone, Copy, PartialEq, Eq, Structural)]
pub enum EventKind {
    ModuleStaged,
    SpawnVerified,
    SpawnRejected,
    TenantExited,
    TenantFaulted,
    GrantAttenuated,
    DaemonRestarted,
    DaemonGaveUp,
}

/// One audit record to append to the stream.
#[derive(Debug, Clone, Copy, PartialEq, Eq, Structural)]
pub struct AuditEvent {
    pub kind: EventKind,
    pub a: u16,
    pub b: u32,
}

/// The audit record `(kind, a, b)`.
pub open spec fn ev(kind: EventKind, a: u16, b: u32) -> AuditEvent {
    AuditEvent { kind, a, b }
}

/// Lifecycle of a registry slot.
#[derive(Debug, Clone, Copy, PartialEq, Eq, Structural)]
pub enum SlotState {
    /// Unused.
    Free,
    /// An envelope of `len` bytes is staged, not yet verified.
    Staged { len: usize },
    /// Verified and registered: the payload is `store[off..off + len]`;
    /// `grants` is the attenuated authority it was installed with;
    /// `daemon` marks a module restarted on termination, with
    /// `restarts_left` restarts to go.
    Live { off: usize, len: usize, proc_id: u8, grants: GrantSpec, daemon: bool, restarts_left: u8 },
}

/// The registry.
pub struct ModRegistry {
    /// Slot states.
    pub slots: Vec<SlotState>,
    /// Staged envelope bytes, parallel to `slots`.
    pub store: Vec<Vec<u8>>,
}

/// The most optional authority a runtime-loaded module may hold:
/// observation of the audit stream.
pub open spec fn dynamic_ceiling() -> u32 {
    GRANT_EVENTLOG
}

/// Lowest process id at or after `i` with no process registered.
pub open spec fn first_free_pid(procs: Seq<Option<crate::sched::Process>>, i: int) -> Option<u8>
    decreases procs.len() - i,
{
    if i < 0 || i >= procs.len() {
        None
    } else if procs[i] is None {
        Some(i as u8)
    } else {
        first_free_pid(procs, i + 1)
    }
}

/// Lowest unused process id in the dynamic range.
pub fn alloc_proc_id(sched: &Scheduler) -> (r: Result<u8, KernelError>)
    requires
        sched.wf(),
    ensures
        match first_free_pid(sched.procs@, PROC_ID_DYN_BASE as int) {
            Some(p) => r == Ok::<u8, KernelError>(p),
            None => r == Err::<u8, KernelError>(KernelError::OutOfHandles),
        },
{
    let mut pid: usize = PROC_ID_DYN_BASE as usize;
    while pid < MAX_PROCS
        invariant
            sched.wf(),
            PROC_ID_DYN_BASE <= pid <= MAX_PROCS,
            first_free_pid(sched.procs@, PROC_ID_DYN_BASE as int) == first_free_pid(sched.procs@, pid as int),
        decreases MAX_PROCS - pid,
    {
        if sched.procs[pid].is_none() {
            return Ok(pid as u8);
        }
        pid = pid + 1;
    }
    Err(KernelError::OutOfHandles)
}

/// The pid `first_free_pid` picks is the lowest free, in-range process
/// id at or after `i`; there is none exactly when every such id is taken.
pub proof fn lemma_first_free_pid(procs: Seq<Option<crate::sched::Process>>, i: int)
    requires
        procs.len() == MAX_PROCS,
        0 <= i,
    ensures
        first_free_pid(procs, i) matches Some(p) ==> i <= p < MAX_PROCS && procs[p as int] is None && forall|q: int|
            i <= q < p ==> (#[trigger] procs[q]) is Some,
        first_free_pid(procs, i) is None ==> forall|q: int| i <= q < MAX_PROCS ==> (#[trigger] procs[q]) is Some,
    decreases procs.len() - i,
{
    if i < procs.len() && procs[i] is Some {
        lemma_first_free_pid(procs, i + 1);
    }
}

/// What a spawn grants: the requested authority cut to the ceiling, so
/// never the network and never more than requested; the denied bits are
/// exactly the rest of the request.
pub proof fn lemma_spawn_grants(requested: u32)
    ensures
        (requested & dynamic_ceiling()) & crate::cap::grants::GRANT_NET == 0,
        (requested & dynamic_ceiling()) & !requested == 0,
        (requested & dynamic_ceiling()) | (requested & !(requested & dynamic_ceiling())) == requested,
        (requested & dynamic_ceiling()) & (requested & !(requested & dynamic_ceiling())) == 0,
{
    assert((requested & 1u32) & 2u32 == 0) by (bit_vector);
    crate::cap::grants::lemma_attenuation_monotone(requested, dynamic_ceiling());
}

/// What a spawn of slot `slot` does, given the signature gate's answer
/// `sig_ok`: the registry, cap state, process table and audit list
/// before (`pre_*`) and after (`post_*`), and the result `r`.
pub open spec fn spawn_post(
    pre_slots: Seq<SlotState>,
    pre_sys: crate::cap::storage::SysView,
    pre_procs: Seq<Option<crate::sched::Process>>,
    pre_events: Seq<AuditEvent>,
    post_slots: Seq<SlotState>,
    post_sys: crate::cap::storage::SysView,
    post_procs: Seq<Option<crate::sched::Process>>,
    post_events: Seq<AuditEvent>,
    slot: u8,
    requested: GrantSpec,
    budget: u8,
    sig_ok: bool,
    r: Result<u8, KernelError>,
) -> bool {
                let i = slot as int;
                if slot >= DYN_SLOTS || !(pre_slots[i] is Staged) {
                    &&& r == Err::<u8, KernelError>(KernelError::InvalidArgument)
                    &&& post_slots == pre_slots
                    &&& post_sys == pre_sys
                    &&& post_procs == pre_procs
                    &&& post_events == pre_events
                } else if !sig_ok || pre_slots[i]->Staged_len < HEADER_LEN {
                    &&& r == Err::<u8, KernelError>(KernelError::BadWasm)
                    &&& post_slots == pre_slots.update(i, SlotState::Free)
                    &&& post_sys == pre_sys
                    &&& post_procs == pre_procs
                    &&& post_events == pre_events.push(ev(EventKind::SpawnRejected, slot as u16, 0))
                } else {
                    match first_free_pid(pre_procs, PROC_ID_DYN_BASE as int) {
                        None => {
                            &&& r == Err::<u8, KernelError>(KernelError::OutOfHandles)
                            &&& post_slots == pre_slots
                            &&& post_sys == pre_sys
                            &&& post_procs == pre_procs
                            &&& post_events == pre_events
                        },
                        Some(pid) => {
                            let len = pre_slots[i]->Staged_len;
                            let granted = requested.0 & dynamic_ceiling();
                            let denied = requested.0 & !granted;
                            let evs1 = if denied != 0 {
                                pre_events.push(ev(EventKind::GrantAttenuated, pid as u16, denied))
                            } else {
                                pre_events
                            };
                            &&& r == Ok::<u8, KernelError>(pid)
                            &&& post_sys == grants_state(pre_sys, pid, granted)
                            &&& post_procs[pid as int] matches Some(pr) && fresh_process(
                                pr,
                                pid,
                                Tier::One,
                                ModuleId::Dynamic(slot),
                                ProcessState::Ready,
                            )
                            &&& post_procs == pre_procs.update(
                                pid as int,
                                post_procs[pid as int],
                            )
                            &&& post_slots == pre_slots.update(
                                i,
                                SlotState::Live {
                                    off: HEADER_LEN,
                                    len: (len - HEADER_LEN) as usize,
                                    proc_id: pid,
                                    grants: GrantSpec(granted),
                                    daemon: budget > 0,
                                    restarts_left: budget,
                                },
                            )
                            &&& post_events == evs1.push(ev(EventKind::SpawnVerified, slot as u16, pid as u32))
                        },
                    }
                }
            }

impl ModRegistry {
    /// One state and one buffer per slot; staged lengths fit their
    /// buffers and live payloads lie inside them.
    pub open spec fn wf(&self) -> bool {
        &&& self.slots@.len() == DYN_SLOTS
        &&& self.store@.len() == DYN_SLOTS
        &&& forall|i: int|
            0 <= i < DYN_SLOTS ==> match #[trigger] self.slots@[i] {
                SlotState::Staged { len } => len == self.store@[i]@.len() && 0 < len <= MAX_MODULE_BYTES,
                SlotState::Live { off, len, .. } => off + len <= self.store@[i]@.len(),
                SlotState::Free => true,
            }
    }

    /// An empty registry.
    pub fn new() -> (r: Self)
        ensures
            r.wf(),
            forall|i: int| 0 <= i < DYN_SLOTS ==> #[trigger] r.slots@[i] == SlotState::Free,
    {
        let mut slots: Vec<SlotState> = Vec::new();
        let mut store: Vec<Vec<u8>> = Vec::new();
        let mut i: usize = 0;
        while i < DYN_SLOTS
            invariant
                i <= DYN_SLOTS,
                slots@.len() == i,
                store@.len() == i,
                forall|j: int| 0 <= j < i ==> #[trigger] slots@[j] == SlotState::Free,
            decreases DYN_SLOTS - i,
        {
            slots.push(SlotState::Free);
            store.push(Vec::new());
            i = i + 1;
        }
        ModRegistry { slots, store }
    }

    /// Copy a signed envelope into the first free slot and record
    /// `ModuleStaged(slot, len)`. `InvalidArgument` for an empty or
    /// oversized envelope, `OutOfHandles` when no slot is free.
    pub fn stage(&mut self, bytes: &[u8], events: &mut Vec<AuditEvent>) -> (r: Result<u8, KernelError>)
        requires
            old(self).wf(),
        ensures
            final(self).wf(),
            (bytes@.len() == 0 || bytes@.len() > MAX_MODULE_BYTES) ==> r == Err::<u8, KernelError>(
                KernelError::InvalidArgument,
            ) && final(self).slots@ == old(self).slots@ && final(events)@ == old(events)@,
            (0 < bytes@.len() <= MAX_MODULE_BYTES) ==> match r {
                Ok(i) => {
                    &&& i < DYN_SLOTS
                    &&& old(self).slots@[i as int] == SlotState::Free
                    &&& forall|j: int| 0 <= j < i ==> #[trigger] old(self).slots@[j] != SlotState::Free
                    &&& final(self).slots@ == old(self).slots@.update(
                        i as int,
                        SlotState::Staged { len: bytes@.len() as usize },
                    )
                    &&& final(self).store@[i as int]@ == bytes@
                    &&& final(events)@ == old(events)@.push(
                        ev(EventKind::ModuleStaged, i as u16, bytes@.len() as u32),
                    )
                },
                Err(e) => {
                    &&& e == KernelError::OutOfHandles
                    &&& forall|j: int| 0 <= j < DYN_SLOTS ==> #[trigger] old(self).slots@[j] != SlotState::Free
                    &&& final(self).slots@ == old(self).slots@
                    &&& final(events)@ == old(events)@
                },
            },
    {
        if bytes.len() == 0 || bytes.len() > MAX_MODULE_BYTES {
            return Err(KernelError::InvalidArgument);
        }
        let mut i: usize = 0;
        while i < DYN_SLOTS
            invariant
                self.wf(),
                self.slots@ == old(self).slots@,
                events@ == old(events)@,
                0 < bytes@.len() <= MAX_MODULE_BYTES,
                i <= DYN_SLOTS,
                forall|j: int| 0 <= j < i ==> #[trigger] self.slots@[j] != SlotState::Free,
            decreases DYN_SLOTS - i,
        {
            if self.slots[i] == SlotState::Free {
                let mut copy: Vec<u8> = Vec::new();
                let mut k: usize = 0;
                while k < bytes.len()
                    invariant
                        k <= bytes@.len(),
                        copy@ == bytes@.subrange(0, k as int),
                    decreases bytes@.len() - k,
                {
                    copy.push(bytes[k]);
                    k = k + 1;
                }
                assert(copy@ =~= bytes@);
                let ghost st0 = self.store@;
                let ghost sl0 = self.slots@;
                self.store.set(i, copy);
                self.slots.set(i, SlotState::Staged { len: bytes.len() });
                assert forall|j: int|
                    0 <= j < DYN_SLOTS implies match #[trigger] self.slots@[j] {
                        SlotState::Staged { len } => len == self.store@[j]@.len() && 0 < len <= MAX_MODULE_BYTES,
                        SlotState::Live { off, len, .. } => off + len <= self.store@[j]@.len(),
                        SlotState::Free => true,
                    } by {
                    if j != i as int {
                        assert(self.slots@[j] == sl0[j]);
                        assert(self.store@[j] == st0[j]);
                    }
                }
                events.push(AuditEvent { kind: EventKind::ModuleStaged, a: i as u16, b: bytes.len() as u32 });
                return Ok(i as u8);
            }
            i = i + 1;
        }
        Err(KernelError::OutOfHandles)
    }


    /// Finish a spawn once the signature gate of slot `slot`'s envelope
    /// has answered `sig_ok`. A rejected envelope (or one too short to
    /// hold the header) frees the slot and
    /// records `SpawnRejected(slot, 0)`. An accepted one gets the lowest
    /// free dynamic process id, the requested authority attenuated by
    /// the ceiling (a `GrantAttenuated(pid, denied bits)` record names
    /// what was withheld), registration as a `Ready` tenant, and a
    /// `Live` slot with restart budget `budget`, recorded as
    /// `SpawnVerified(slot, pid)`.
    pub fn spawn_checked(
        &mut self,
        sys: &mut CapSystem,
        sched: &mut Scheduler,
        events: &mut Vec<AuditEvent>,
        slot: u8,
        requested: GrantSpec,
        budget: u8,
        sig_ok: bool,
    ) -> (r: Result<u8, KernelError>)
        requires
            old(self).wf(),
            old(sys).wf(),
            old(sched).wf(),
        ensures
            final(self).wf(),
            final(sys).wf(),
            final(sched).wf(),
            spawn_post(
                old(self).slots@,
                old(sys)@,
                old(sched).procs@,
                old(events)@,
                final(self).slots@,
                final(sys)@,
                final(sched).procs@,
                final(events)@,
                slot,
                requested,
                budget,
                sig_ok,
                r,
            ),
            final(self).store@ == old(self).store@,
    {
        let idx = slot as usize;
        if idx >= DYN_SLOTS {
            return Err(KernelError::InvalidArgument);
        }
        let env_len = match self.slots[idx] {
            SlotState::Staged { len } => len,
            _ => return Err(KernelError::InvalidArgument),
        };
        if !sig_ok || env_len < HEADER_LEN {
            events.push(AuditEvent { kind: EventKind::SpawnRejected, a: slot as u16, b: 0 });
            self.slots.set(idx, SlotState::Free);
            return Err(KernelError::BadWasm);
        }
        let proc_id = match alloc_proc_id(sched) {
            Ok(p) => p,
            Err(e) => return Err(e),
        };
        proof {
            lemma_first_free_pid(sched.procs@, PROC_ID_DYN_BASE as int);
        }
        let granted = requested.attenuate(GrantSpec::eventlog());
        match install_tier1_grants(sys, proc_id, granted) {
            Ok(()) => {},
            Err(e) => return Err(e),
        }
        let denied = requested.denied(granted);
        if !denied.is_empty() {
            events.push(AuditEvent { kind: EventKind::GrantAttenuated, a: proc_id as u16, b: denied.bits() });
        }
        match sched.register_tenant(proc_id, Tier::One, ModuleId::Dynamic(slot)) {
            Ok(()) => {},
            Err(e) => return Err(e),
        }
        let payload_len = env_len - HEADER_LEN;
        self.slots.set(
            idx,
            SlotState::Live {
                off: HEADER_LEN,
                len: payload_len,
                proc_id,
                grants: granted,
                daemon: budget > 0,
                restarts_left: budget,
            },
        );
        events.push(AuditEvent { kind: EventKind::SpawnVerified, a: slot as u16, b: proc_id as u32 });
        Ok(proc_id)
    }

    /// Verify slot `slot`'s staged envelope and spawn it requesting
    /// `requested`, with restart budget `budget` (0 for a plain tenant).
    fn spawn_inner(
        &mut self,
        sys: &mut CapSystem,
        sched: &mut Scheduler,
        events: &mut Vec<AuditEvent>,
        slot: u8,
        requested: GrantSpec,
        budget: u8,
    ) -> (r: Result<u8, KernelError>)
        requires
            old(self).wf(),
            old(sys).wf(),
            old(sched).wf(),
        ensures
            final(self).wf(),
            final(sys).wf(),
            final(sched).wf(),
            final(self).store@ == old(self).store@,
            spawn_post(
                old(self).slots@,
                old(sys)@,
                old(sched).procs@,
                old(events)@,
                final(self).slots@,
                final(sys)@,
                final(sched).procs@,
                final(events)@,
                slot,
                requested,
                budget,
                envelope_ok(old(self).store@[slot as int]@),
                r,
            ),
    {
        let idx = slot as usize;
        if idx >= DYN_SLOTS {
            return self.spawn_checked(sys, sched, events, slot, requested, budget, false);
        }
        let ok = match self.slots[idx] {
            SlotState::Staged { .. } => verify(self.store[idx].as_slice()).is_ok(),
            _ => false,
        };
        self.spawn_checked(sys, sched, events, slot, requested, budget, ok)
    }

    /// Verify and spawn slot `slot` as a plain tenant (stdout and exit
    /// only).
    pub fn spawn(&mut self, sys: &mut CapSystem, sched: &mut Scheduler, events: &mut Vec<AuditEvent>, slot: u8) -> (r:
        Result<u8, KernelError>)
        requires
            old(self).wf(),
            old(sys).wf(),
            old(sched).wf(),
        ensures
            final(self).wf(),
            final(sys).wf(),
            final(sched).wf(),
            final(self).store@ == old(self).store@,
            spawn_post(
                old(self).slots@,
                old(sys)@,
                old(sched).procs@,
                old(events)@,
                final(self).slots@,
                final(sys)@,
                final(sched).procs@,
                final(events)@,
                slot,
                GrantSpec(0),
                0,
                envelope_ok(old(self).store@[slot as int]@),
                r,
            ),
    {
        self.spawn_inner(sys, sched, events, slot, GrantSpec::empty(), 0)
    }

    /// Verify and spawn slot `slot` requesting `requested`.
    pub fn spawn_as(
        &mut self,
        sys: &mut CapSystem,
        sched: &mut Scheduler,
        events: &mut Vec<AuditEvent>,
        slot: u8,
        requested: GrantSpec,
    ) -> (r: Result<u8, KernelError>)
        requires
            old(self).wf(),
            old(sys).wf(),
            old(sched).wf(),
        ensures
            final(self).wf(),
            final(sys).wf(),
            final(sched).wf(),
            final(self).store@ == old(self).store@,
            spawn_post(
                old(self).slots@,
                old(sys)@,
                old(sched).procs@,
                old(events)@,
                final(self).slots@,
                final(sys)@,
                final(sched).procs@,
                final(events)@,
                slot,
                requested,
                0,
                envelope_ok(old(self).store@[slot as int]@),
                r,
            ),
    {
        self.spawn_inner(sys, sched, events, slot, requested, 0)
    }

    /// Verify slot `slot`, attenuate `requested` against the ceiling,
    /// and spawn it holding exactly the granted subset.
    pub fn spawn_with_grants(
        &mut self,
        sys: &mut CapSystem,
        sched: &mut Scheduler,
        events: &mut Vec<AuditEvent>,
        slot: u8,
        requested: GrantSpec,
    ) -> (r: Result<u8, KernelError>)
        requires
            old(self).wf(),
            old(sys).wf(),
            old(sched).wf(),
        ensures
            final(self).wf(),
            final(sys).wf(),
            final(sched).wf(),
            final(self).store@ == old(self).store@,
            spawn_post(
                old(self).slots@,
                old(sys)@,
                old(sched).procs@,
                old(events)@,
                final(self).slots@,
                final(sys)@,
                final(sched).procs@,
                final(events)@,
                slot,
                requested,
                0,
                envelope_ok(old(self).store@[slot as int]@),
                r,
            ),
    {
        self.spawn_inner(sys, sched, events, slot, requested, 0)
    }

    /// Verify and spawn a daemon, restarted on termination up to
    /// `max_restarts` consecutive times.
    pub fn spawn_daemon(
        &mut self,
        sys: &mut CapSystem,
        sched: &mut Scheduler,
        events: &mut Vec<AuditEvent>,
        slot: u8,
        requested: GrantSpec,
        max_restarts: u8,
    ) -> (r: Result<u8, KernelError>)
        requires
            old(self).wf(),
            old(sys).wf(),
            old(sched).wf(),
        ensures
            final(self).wf(),
            final(sys).wf(),
            final(sched).wf(),
            final(self).store@ == old(self).store@,
            spawn_post(
                old(self).slots@,
                old(sys)@,
                old(sched).procs@,
                old(events)@,
                final(self).slots@,
                final(sys)@,
                final(sched).procs@,
                final(events)@,
                slot,
                requested,
                max_restarts,
                envelope_ok(old(self).store@[slot as int]@),
                r,
            ),
    {
        self.spawn_inner(sys, sched, events, slot, requested, max_restarts)
    }

    /// The verified module bytes of a `Live` slot; empty for any other.
    pub fn payload(&self, slot: u8) -> (r: &[u8])
        requires
            self.wf(),
        ensures
            (slot < DYN_SLOTS && self.slots@[slot as int] is Live) ==> r@ == self.store@[slot as int]@.subrange(
                self.slots@[slot as int]->Live_off as int,
                self.slots@[slot as int]->Live_off + self.slots@[slot as int]->Live_len,
            ),
            !(slot < DYN_SLOTS && self.slots@[slot as int] is Live) ==> r@.len() == 0,
    {
        let idx = slot as usize;
        if idx >= DYN_SLOTS {
            return &[];
        }
        match self.slots[idx] {
            SlotState::Live { off, len, .. } => {
                let n = self.store[idx].len();
                proof {
                    let st = self.slots@[idx as int];
                    assert(st is Live ==> st->Live_off + st->Live_len <= self.store@[idx as int]@.len());
                }
                vstd::slice::slice_subrange(self.store[idx].as_slice(), off, off + len)
            },
            _ => &[],
        }
    }

    /// The first live daemon slot running as `pid`.
    fn find_daemon(&self, pid: u8) -> (r: Option<usize>)
        requires
            self.wf(),
        ensures
            match first_daemon_slot(self.slots@, pid, 0) {
                None => r is None,
                Some(i) => r == Some(i as usize) && 0 <= i < DYN_SLOTS,
            },
    {
        let mut idx: usize = 0;
        while idx < DYN_SLOTS
            invariant
                self.wf(),
                idx <= DYN_SLOTS,
                first_daemon_slot(self.slots@, pid, 0) == first_daemon_slot(self.slots@, pid, idx as int),
            decreases DYN_SLOTS - idx,
        {
            match self.slots[idx] {
                SlotState::Live { proc_id: p, daemon: true, .. } => {
                    if p == pid {
                        return Some(idx);
                    }
                },
                _ => {},
            }
            idx = idx + 1;
        }
        None
    }

    /// React to the termination of process `proc_id`. A daemon slot
    /// naming it with restart budget left is restarted under the lowest
    /// free dynamic process id with the same granted authority, its
    /// budget decremented, recorded as `DaemonRestarted(new pid, budget
    /// left)`. With no budget left, or when no process id is free, the
    /// slot is disarmed and `DaemonGaveUp(pid, 0)` recorded. Any other
    /// process is left alone.
    pub fn on_tenant_terminated(
        &mut self,
        sys: &mut CapSystem,
        sched: &mut Scheduler,
        events: &mut Vec<AuditEvent>,
        proc_id: u8,
    )
        requires
            old(self).wf(),
            old(sys).wf(),
            old(sched).wf(),
        ensures
            final(self).wf(),
            final(sys).wf(),
            final(sched).wf(),
            final(self).store@ == old(self).store@,
            match first_daemon_slot(old(self).slots@, proc_id, 0) {
                None => {
                    &&& final(self).slots@ == old(self).slots@
                    &&& final(sys)@ == old(sys)@
                    &&& final(sched).procs@ == old(sched).procs@
                    &&& final(events)@ == old(events)@
                },
                Some(i) => {
                    let st = old(self).slots@[i];
                    let gave_up = SlotState::Live {
                        off: st->Live_off,
                        len: st->Live_len,
                        proc_id,
                        grants: st->Live_grants,
                        daemon: false,
                        restarts_left: 0,
                    };
                    if st->Live_restarts_left == 0 {
                        &&& final(self).slots@ == old(self).slots@.update(i, gave_up)
                        &&& final(sys)@ == old(sys)@
                        &&& final(sched).procs@ == old(sched).procs@
                        &&& final(events)@ == old(events)@.push(ev(EventKind::DaemonGaveUp, proc_id as u16, 0))
                    } else {
                        match first_free_pid(old(sched).procs@, PROC_ID_DYN_BASE as int) {
                            None => {
                                &&& final(self).slots@ == old(self).slots@.update(i, gave_up)
                                &&& final(sys)@ == old(sys)@
                                &&& final(sched).procs@ == old(sched).procs@
                                &&& final(events)@ == old(events)@.push(
                                    ev(EventKind::DaemonGaveUp, proc_id as u16, 0),
                                )
                            },
                            Some(np) => {
                                let left = (st->Live_restarts_left - 1) as u8;
                                &&& final(self).slots@ == old(self).slots@.update(
                                    i,
                                    SlotState::Live {
                                        off: st->Live_off,
                                        len: st->Live_len,
                                        proc_id: np,
                                        grants: st->Live_grants,
                                        daemon: true,
                                        restarts_left: left,
                                    },
                                )
                                &&& final(sys)@ == grants_state(old(sys)@, np, st->Live_grants.0)
                                &&& final(sched).procs@[np as int] matches Some(pr) && fresh_process(
                                    pr,
                                    np,
                                    Tier::One,
                                    ModuleId::Dynamic(i as u8),
                                    ProcessState::Ready,
                                )
                                &&& final(sched).procs@ == old(sched).procs@.update(
                                    np as int,
                                    final(sched).procs@[np as int],
                                )
                                &&& final(events)@ == old(events)@.push(
                                    ev(EventKind::DaemonRestarted, np as u16, left as u32),
                                )
                            },
                        }
                    }
                },
            },
    {
        let found = self.find_daemon(proc_id);
        proof {
            lemma_first_daemon_slot(self.slots@, proc_id, 0);
        }
        let i = match found {
            Some(i) => i,
            None => return,
        };
        let (off, len, grants, restarts_left) = match self.slots[i] {
            SlotState::Live { off, len, grants, restarts_left, .. } => (off, len, grants, restarts_left),
            _ => return,
        };
        let gave_up = SlotState::Live { off, len, proc_id, grants, daemon: false, restarts_left: 0 };
        if restarts_left == 0 {
            self.slots.set(i, gave_up);
            events.push(AuditEvent { kind: EventKind::DaemonGaveUp, a: proc_id as u16, b: 0 });
            return;
        }
        let new_pid = match alloc_proc_id(sched) {
            Ok(p) => p,
            Err(_) => {
                self.slots.set(i, gave_up);
                events.push(AuditEvent { kind: EventKind::DaemonGaveUp, a: proc_id as u16, b: 0 });
                return;
            },
        };
        proof {
            lemma_first_free_pid(sched.procs@, PROC_ID_DYN_BASE as int);
        }
        let _ = install_tier1_grants(sys, new_pid, grants);
        let _ = sched.register_tenant(new_pid, Tier::One, ModuleId::Dynamic(i as u8));
        let left = restarts_left - 1;
        self.slots.set(i, SlotState::Live { off, len, proc_id: new_pid, grants, daemon: true, restarts_left: left });
        events.push(AuditEvent { kind: EventKind::DaemonRestarted, a: new_pid as u16, b: left as u32 });
    }
}

/// The first registry slot at or after `i` that is a live daemon
/// running as `pid`.
pub open spec fn first_daemon_slot(slots: Seq<SlotState>, pid: u8, i: int) -> Option<int>
    decreases slots.len() - i,
{
    if i < 0 || i >= slots.len() {
        None
    } else if slots[i] matches SlotState::Live { proc_id: p, daemon: true, .. } && p == pid {
        Some(i)
    } else {
        first_daemon_slot(slots, pid, i + 1)
    }
}

proof fn lemma_first_daemon_slot(slots: Seq<SlotState>, pid: u8, k: int)
    requires
        0 <= k,
    ensures
        first_daemon_slot(slots, pid, k) matches Some(i) ==> k <= i < slots.len() && (slots[i] matches SlotState::Live {
            proc_id: p,
            daemon: true,
            ..
        } && p == pid),
    decreases slots.len() - k,
{
    if k < slots.len() && !(slots[k] matches SlotState::Live { proc_id: p, daemon: true, .. } && p == pid) {
        lemma_first_daemon_slot(slots, pid, k + 1);
    }
}


/// `envelope` with the low bit of its last byte flipped: a corruption
/// past the header, so verification must fail on the module hash.
pub fn tamper(envelope: &[u8]) -> (r: Vec<u8>)
    requires
        envelope@.len() > 0,
    ensures
        r@ == envelope@.update(envelope@.len() - 1, envelope@.last() ^ 1u8),
{
    let mut out: Vec<u8> = Vec::new();
    let n = envelope.len();
    let mut i: usize = 0;
    while i < n
        invariant
            n == envelope@.len(),
            i <= n,
            out@ == envelope@.subrange(0, i as int),
        decreases n - i,
    {
        out.push(envelope[i]);
        i = i + 1;
    }
    assert(out@ =~= envelope@);
    let last = out[n - 1];
    out.set(n - 1, last ^ 1u8);
    out
}

/// The verdict on spawning a tampered envelope: refused as `BadWasm` is
/// the pass; a spawned module is a security failure, reported as
/// `BadWasm`; any other error is passed on.
pub fn tamper_verdict(spawned: Result<u8, KernelError>) -> (r: Result<(), KernelError>)
    ensures
        spawned == Err::<u8, KernelError>(KernelError::BadWasm) ==> r is Ok,
        spawned is Ok ==> r == Err::<(), KernelError>(KernelError::BadWasm),
        spawned is Err && spawned != Err::<u8, KernelError>(KernelError::BadWasm) ==> r == Err::<(), KernelError>(
            spawned->Err_0,
        ),
{
    match spawned {
        Err(KernelError::BadWasm) => Ok(()),
        Ok(_) => Err(KernelError::BadWasm),
        Err(e) => Err(e),
    }
}

} // verus!
