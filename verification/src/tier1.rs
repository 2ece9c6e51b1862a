//! Bookkeeping of the resident Tier-1 instance pool: which process ids
//! have a live instance, whether its `_start` invocation is parked on an
//! IPC yield, and the value the parked host call returns on resume. The
//! instances themselves live with the runtime; this table decides what
//! happens to them.

use vstd::prelude::*;
use crate::error::KernelError;
use crate::cap::cspace::MAX_PROCS;
use crate::sched::{Scheduler, StepOutcome, NO_MSG_BUF, MsgRegs};
use crate::ipc::{encode_msg, msg_wire};

verus! {

/// Bookkeeping of one live Tier-1 instance.
#[derive(Clone, Copy)]
pub struct Tier1Slot {
    /// A suspended invocation is parked (the tenant is blocked).
    pub parked: bool,
    /// The value the blocked host call returns when resumed.
    pub pending_resume: i32,
}

/// How a start or resume of a tenant's `_start` ended.
#[derive(Debug, Clone, Copy, PartialEq, Eq, Structural)]
pub enum CallEnd {
    /// `_start` returned without calling `proc_exit`.
    Finished,
    /// A host call unwound the tenant; `exit` holds the `proc_exit`
    /// status when that is what it was, `ipc_block` tells whether it
    /// was the IPC suspend request.
    Yielded { exit: Option<i32>, ipc_block: bool },
    /// The call failed; `exit` holds the `proc_exit` status when the
    /// failure was an exit.
    Trapped { exit: Option<i32> },
}

/// The outcome a finished call maps to, and whether the instance stays
/// live (parked) afterwards.
pub open spec fn settle_spec(end: CallEnd, live: bool) -> (StepOutcome, bool) {
    match end {
        CallEnd::Finished => (StepOutcome::Exited(0), false),
        CallEnd::Yielded { exit, ipc_block } => match exit {
            Some(c) => (StepOutcome::Exited(c), false),
            None => if ipc_block {
                if live {
                    (StepOutcome::Blocked, true)
                } else {
                    (StepOutcome::Faulted, false)
                }
            } else {
                (StepOutcome::Faulted, false)
            },
        },
        CallEnd::Trapped { exit } => match exit {
            Some(c) => (StepOutcome::Exited(c), false),
            None => (StepOutcome::Faulted, false),
        },
    }
}

/// A started (live) instance stays live after its call exactly when the
/// call ended in the IPC suspend request with no exit; it then blocks,
/// and otherwise it exits or faults and is released.
pub proof fn lemma_started_call_outcome(end: CallEnd)
    ensures
        settle_spec(end, true).1 <==> settle_spec(end, true).0 == StepOutcome::Blocked,
        settle_spec(end, true).0 == StepOutcome::Blocked <==> end == (CallEnd::Yielded {
            exit: None,
            ipc_block: true,
        }),
{
}

/// Starting a tenant that has no live instance and settling how its call
/// ended: the outcome is an exit, a block or a fault, and the instance
/// stays live exactly when the outcome is a block, which happens exactly
/// on the IPC suspend request with no exit.
pub proof fn lemma_start_then_settle(slots: Seq<Option<Tier1Slot>>, p: u8, end: CallEnd)
    requires
        slots.len() == MAX_PROCS,
        p < MAX_PROCS,
        slots[p as int] is None,
    ensures
        ({
            let started = slots.update(p as int, Some(Tier1Slot { parked: false, pending_resume: 0 }));
            let (o, keep) = settle_spec(end, started[p as int] is Some);
            &&& (o is Exited || o is Blocked || o is Faulted)
            &&& keep <==> o == StepOutcome::Blocked
            &&& o == StepOutcome::Blocked <==> end == (CallEnd::Yielded { exit: None, ipc_block: true })
        }),
{
}

/// The pool, one entry per process id.
pub struct Tier1Table {
    /// `slots[p]` is process `p`'s live instance, if any.
    pub slots: Vec<Option<Tier1Slot>>,
}

impl Tier1Table {
    /// One entry per process id.
    pub open spec fn wf(&self) -> bool {
        self.slots@.len() == MAX_PROCS
    }

    /// No live instances.
    pub fn new() -> (r: Self)
        ensures
            r.wf(),
            forall|i: int| 0 <= i < MAX_PROCS ==> (#[trigger] r.slots@[i]) is None,
    {
        let mut slots: Vec<Option<Tier1Slot>> = Vec::new();
        let mut i: usize = 0;
        while i < MAX_PROCS
            invariant
                i <= MAX_PROCS,
                slots@.len() == i,
                forall|j: int| 0 <= j < i ==> (#[trigger] slots@[j]) is None,
            decreases MAX_PROCS - i,
        {
            slots.push(None);
            i = i + 1;
        }
        Tier1Table { slots }
    }

    /// `true` if `proc_id` has a live (started, unfinished) instance.
    pub fn is_live(&self, proc_id: u8) -> (r: bool)
        requires
            self.wf(),
        ensures
            r == (proc_id < MAX_PROCS && self.slots@[proc_id as int] is Some),
    {
        proc_id as usize <= MAX_PROCS - 1 && self.slots[proc_id as usize].is_some()
    }

    /// Record the value the blocked host call returns on resume.
    /// `InvalidArgument` for an out-of-range id, `NoSuchProcess` when no
    /// instance is live.
    pub fn set_resume_value(&mut self, proc_id: u8, rc: i32) -> (r: Result<(), KernelError>)
        requires
            old(self).wf(),
        ensures
            final(self).wf(),
            proc_id >= MAX_PROCS ==> r == Err::<(), KernelError>(KernelError::InvalidArgument)
                && final(self).slots@ == old(self).slots@,
            proc_id < MAX_PROCS && old(self).slots@[proc_id as int] is None ==> r == Err::<
                (),
                KernelError,
            >(KernelError::NoSuchProcess) && final(self).slots@ == old(self).slots@,
            proc_id < MAX_PROCS && old(self).slots@[proc_id as int] is Some ==> r is Ok
                && final(self).slots@ == old(self).slots@.update(
                proc_id as int,
                Some(Tier1Slot { pending_resume: rc, ..old(self).slots@[proc_id as int]->Some_0 }),
            ),
    {
        if proc_id as usize >= MAX_PROCS {
            return Err(KernelError::InvalidArgument);
        }
        match self.slots[proc_id as usize] {
            Some(s) => {
                let mut s2 = s;
                s2.pending_resume = rc;
                self.slots.set(proc_id as usize, Some(s2));
                Ok(())
            },
            None => Err(KernelError::NoSuchProcess),
        }
    }

    /// Drop a tenant's instance; idempotent, and a no-op for an
    /// out-of-range id.
    pub fn release(&mut self, proc_id: u8)
        requires
            old(self).wf(),
        ensures
            final(self).wf(),
            proc_id >= MAX_PROCS ==> final(self).slots@ == old(self).slots@,
            proc_id < MAX_PROCS ==> final(self).slots@ == old(self).slots@.update(proc_id as int, None),
    {
        if (proc_id as usize) < MAX_PROCS {
            self.slots.set(proc_id as usize, None);
        }
    }

    /// Admit a new instance for `proc_id`: `false` (nothing changes) for
    /// an out-of-range id or one that is already live; otherwise the slot
    /// becomes live, not parked, with resume value 0.
    pub fn start(&mut self, proc_id: u8) -> (r: bool)
        requires
            old(self).wf(),
        ensures
            final(self).wf(),
            r == (proc_id < MAX_PROCS && old(self).slots@[proc_id as int] is None),
            !r ==> final(self).slots@ == old(self).slots@,
            r ==> final(self).slots@ == old(self).slots@.update(
                proc_id as int,
                Some(Tier1Slot { parked: false, pending_resume: 0 }),
            ),
    {
        if proc_id as usize >= MAX_PROCS || self.is_live(proc_id) {
            return false;
        }
        self.slots.set(proc_id as usize, Some(Tier1Slot { parked: false, pending_resume: 0 }));
        true
    }

    /// Take the parked invocation of `proc_id` for resuming: returns the
    /// resume value and un-parks it. With no live instance, `None`; with
    /// a live instance that was never parked, the instance is released
    /// and `None` returned.
    pub fn take_invocation(&mut self, proc_id: u8) -> (r: Option<i32>)
        requires
            old(self).wf(),
        ensures
            final(self).wf(),
            (proc_id >= MAX_PROCS || old(self).slots@[proc_id as int] is None) ==> r is None
                && final(self).slots@ == old(self).slots@,
            proc_id < MAX_PROCS && old(self).slots@[proc_id as int] is Some ==> {
                let s = old(self).slots@[proc_id as int]->Some_0;
                if s.parked {
                    r == Some(s.pending_resume) && final(self).slots@ == old(self).slots@.update(
                        proc_id as int,
                        Some(Tier1Slot { parked: false, ..s }),
                    )
                } else {
                    r is None && final(self).slots@ == old(self).slots@.update(proc_id as int, None)
                }
            },
    {
        if proc_id as usize >= MAX_PROCS {
            return None;
        }
        match self.slots[proc_id as usize] {
            None => None,
            Some(s) => {
                if s.parked {
                    let mut s2 = s;
                    s2.parked = false;
                    self.slots.set(proc_id as usize, Some(s2));
                    Some(s.pending_resume)
                } else {
                    self.slots.set(proc_id as usize, None);
                    None
                }
            },
        }
    }

    /// Classify how a start or resume ended: an exit (checked before the
    /// IPC suspend request, since an exit also unwinds as a yield) ends
    /// the tenant, the IPC suspend request parks a live instance, and
    /// anything else faults it. The instance is released unless parked.
    pub fn settle(&mut self, proc_id: u8, end: CallEnd) -> (r: StepOutcome)
        requires
            old(self).wf(),
            proc_id < MAX_PROCS,
        ensures
            final(self).wf(),
            ({
                let (o, keep) = settle_spec(end, old(self).slots@[proc_id as int] is Some);
                &&& r == o
                &&& keep ==> final(self).slots@ == old(self).slots@.update(
                    proc_id as int,
                    Some(Tier1Slot { parked: true, ..old(self).slots@[proc_id as int]->Some_0 }),
                )
                &&& !keep ==> final(self).slots@ == old(self).slots@.update(proc_id as int, None)
            }),
            final(self).slots@[proc_id as int] is Some <==> r == StepOutcome::Blocked,
    {
        match end {
            CallEnd::Finished => {
                self.release(proc_id);
                StepOutcome::Exited(0)
            },
            CallEnd::Yielded { exit, ipc_block } => {
                match exit {
                    Some(c) => {
                        self.release(proc_id);
                        return StepOutcome::Exited(c);
                    },
                    None => {},
                }
                if ipc_block {
                    match self.slots[proc_id as usize] {
                        Some(s) => {
                            let mut s2 = s;
                            s2.parked = true;
                            self.slots.set(proc_id as usize, Some(s2));
                            StepOutcome::Blocked
                        },
                        None => {
                            self.release(proc_id);
                            StepOutcome::Faulted
                        },
                    }
                } else {
                    self.release(proc_id);
                    StepOutcome::Faulted
                }
            },
            CallEnd::Trapped { exit } => {
                self.release(proc_id);
                match exit {
                    Some(c) => StepOutcome::Exited(c),
                    None => StepOutcome::Faulted,
                }
            },
        }
    }
}

/// Take the message delivered to a woken process while it was blocked:
/// when it recorded a buffer offset, clear the record and return the
/// offset with the encoded message, which the runtime writes into the
/// tenant's linear memory just before resuming it.
pub fn flush_msg_to_linmem(sched: &mut Scheduler, proc_id: u8) -> (r: Option<(u32, [u8; 40])>)
    requires
        old(sched).wf(),
    ensures
        final(sched).wf(),
        ({
            let e = if proc_id < MAX_PROCS {
                old(sched).procs@[proc_id as int]
            } else {
                None
            };
            match e {
                Some(p) => if p.msg_buf != NO_MSG_BUF {
                    (r matches Some((ptr, bytes)) && ptr == p.msg_buf && bytes@ == msg_wire(p.msg_regs))
                        && final(sched).procs@ == old(sched).procs@.update(
                        proc_id as int,
                        Some(crate::sched::Process { msg_buf: NO_MSG_BUF, ..p }),
                    )
                } else {
                    r is None && final(sched).procs@ == old(sched).procs@
                },
                None => r is None && final(sched).procs@ == old(sched).procs@,
            }
        }),
{
    if proc_id as usize >= MAX_PROCS {
        return None;
    }
    match sched.procs[proc_id as usize] {
        Some(p) => {
            if p.msg_buf != NO_MSG_BUF {
                let regs: MsgRegs = p.msg_regs;
                let ptr = p.msg_buf;
                let mut p2 = p;
                p2.msg_buf = NO_MSG_BUF;
                sched.procs.set(proc_id as usize, Some(p2));
                Some((ptr, encode_msg(&regs)))
            } else {
                None
            }
        },
        None => None,
    }
}

} // verus!
