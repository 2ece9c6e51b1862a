//! Submission-ring setup and the per-entry admission decision of the
//! registered-capability fast path.

use vstd::prelude::*;
use crate::abi::{validate_handle, reg_check_spec, RegCheck, REG_SLOTS};
use crate::cap::types::ObjectKind;
use crate::cap::cspace::MAX_PROCS;
use crate::cap::storage::{CapSystem, SysView};
use crate::cap::syscall::{
    E_INVAL, E_PERM, acked, notification_wait_impl, notification_ack_impl, notification_of, status_of,
};

verus! {

/// Upper bound on ring entries.
pub const MAX_RING_ENTRIES: u32 = 1024;

/// Per-process ring descriptor; `active == false` marks a process with
/// no ring configured.
#[derive(Clone, Copy)]
pub struct RingDesc {
    /// Submission-queue base offset in the module's linear memory.
    pub sq_ptr: u32,
    /// Completion-queue base offset in the module's linear memory.
    pub cq_ptr: u32,
    /// Number of entries the ring holds.
    pub entries: u32,
    /// Has this process configured a ring?
    pub active: bool,
}

impl RingDesc {
    /// A process with no ring configured.
    pub fn empty() -> (r: Self)
        ensures
            r.sq_ptr == 0,
            r.cq_ptr == 0,
            r.entries == 0,
            !r.active,
    {
        RingDesc { sq_ptr: 0, cq_ptr: 0, entries: 0, active: false }
    }
}

/// Ring operation: poll a registered Notification.
pub const RING_OP_NOTIFY_WAIT: u32 = 1;
/// Ring operation: acknowledge a registered Notification.
pub const RING_OP_NOTIFY_ACK: u32 = 2;

/// Is `op` a ring operation this kernel knows?
pub open spec fn is_known_op(op: u32) -> bool {
    op == RING_OP_NOTIFY_WAIT || op == RING_OP_NOTIFY_ACK
}

/// Both ring operations act on a registered Notification.
pub open spec fn op_permitted_spec(kind: ObjectKind, op: u32) -> bool {
    is_known_op(op) && kind == ObjectKind::Notification
}

/// Is `op` permitted for a registered cap of `kind`?
fn op_permitted_for(kind: ObjectKind, op: u32) -> (r: bool)
    ensures
        r == op_permitted_spec(kind, op),
{
    if op == RING_OP_NOTIFY_WAIT || op == RING_OP_NOTIFY_ACK {
        match kind {
            ObjectKind::Notification => true,
            _ => false,
        }
    } else {
        false
    }
}

/// `wari::ring_setup(sq_ptr, cq_ptr, entries)`: record where the
/// caller's rings live; `E_INVAL` for a bad process or an entry count
/// outside `1..=MAX_RING_ENTRIES`.
pub fn ring_setup_impl(sys: &mut CapSystem, proc_id: u8, sq_ptr: u32, cq_ptr: u32, entries: u32) -> (r: i32)
    requires
        old(sys).wf(),
    ensures
        final(sys).wf(),
        r == if proc_id >= MAX_PROCS || entries == 0 || entries > MAX_RING_ENTRIES {
            E_INVAL
        } else {
            0
        },
        r != 0 ==> final(sys)@ == old(sys)@,
        r == 0 ==> final(sys)@ == (SysView {
            rings: old(sys)@.rings.update(
                proc_id as int,
                RingDesc { sq_ptr, cq_ptr, entries, active: true },
            ),
            ..old(sys)@
        }),
{
    if proc_id as usize >= MAX_PROCS {
        return E_INVAL;
    }
    if entries == 0 || entries > MAX_RING_ENTRIES {
        return E_INVAL;
    }
    sys.rings.set(proc_id as usize, RingDesc { sq_ptr, cq_ptr, entries, active: true });
    0
}

/// The admission decision for one submission entry `(op, reg_idx)` of
/// process `p`: the errno that rejects it, or the CSpace slot its
/// registered handle resolves to.
pub open spec fn ring_admit(v: SysView, p: u8, op: u32, reg_idx: u32) -> Result<u8, i32> {
    if !is_known_op(op) || reg_idx >= REG_SLOTS {
        Err(E_INVAL)
    } else {
        let e = v.regs[p as int][reg_idx as int];
        let live = e.kind != ObjectKind::Empty;
        let cur = if live {
            v.gens[p as int][e.cspace_slot as int]
        } else {
            0u16
        };
        match reg_check_spec(reg_idx, live, e.reg_generation, cur, op_permitted_spec(e.kind, op)) {
            RegCheck::Accepted => Ok(e.cspace_slot),
            RegCheck::NotPermitted => Err(E_PERM),
            _ => Err(E_INVAL),
        }
    }
}

/// Validate one decoded submission entry against the caller's
/// registered-cap table and, when admitted, run the operation on the
/// CSpace slot its handle resolves to. The operation re-checks the cap.
pub fn ring_dispatch(sys: &mut CapSystem, proc_id: u8, op: u32, reg_idx: u32) -> (r: i32)
    requires
        old(sys).wf(),
        proc_id < MAX_PROCS,
    ensures
        final(sys).wf(),
        match ring_admit(old(sys)@, proc_id, op, reg_idx) {
            Err(e) => r == e && final(sys)@ == old(sys)@,
            Ok(s) => if op == RING_OP_NOTIFY_WAIT {
                final(sys)@ == old(sys)@ && r == match notification_of(old(sys)@, proc_id, s as u32) {
                    Err(e) => e,
                    Ok(i) => if old(sys)@.pools.notifications[i as int]->Some_0.signals != 0 {
                        0
                    } else {
                        crate::cap::syscall::E_AGAIN
                    },
                }
            } else {
                &&& r == status_of(notification_of(old(sys)@, proc_id, s as u32))
                &&& final(sys)@ == acked(old(sys)@, proc_id, s as u32)
            },
        },
{
    if !(op == RING_OP_NOTIFY_WAIT || op == RING_OP_NOTIFY_ACK) {
        return E_INVAL;
    }
    if reg_idx >= REG_SLOTS {
        return E_INVAL;
    }
    let entry = sys.reg_tables[proc_id as usize].slots[reg_idx as usize];
    proof {
        assert(entry == sys@.regs[proc_id as int][reg_idx as int]);
    }
    let live = !entry.is_empty();
    let cur_gen = if live {
        sys.gen(proc_id, entry.cspace_slot)
    } else {
        0
    };
    let op_ok = op_permitted_for(entry.kind, op);
    match validate_handle(reg_idx, live, entry.reg_generation, cur_gen, op_ok) {
        RegCheck::Accepted => {},
        RegCheck::NotPermitted => return E_PERM,
        _ => return E_INVAL,
    }
    if op == RING_OP_NOTIFY_WAIT {
        notification_wait_impl(sys, proc_id, entry.cspace_slot as u32)
    } else {
        notification_ack_impl(sys, proc_id, entry.cspace_slot as u32)
    }
}

} // verus!
