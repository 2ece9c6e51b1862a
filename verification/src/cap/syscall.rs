//! Capability-management syscalls: the checks and state changes behind
//! the `wari::cap_*`, `nic_*` and `notification_*` host functions. Each
//! returns `0` on success or a negative errno.

use vstd::prelude::*;
use crate::error::KernelError;
use crate::cap::types::{
    Cap, CapId, ObjectKind, CAP_RIGHT_READ, CAP_RIGHT_WRITE, cap_id_value, derive_spec, empty_cap,
    object_kind_code,
};
use crate::cap::cspace::{MAX_PROCS, CSPACE_SLOTS, next_generation};
use crate::cap::objects::{Notification, Net, Socket, pools_inc, pools_dec};
use crate::cap::storage::{CapSystem, SysView, with_slot, with_gen, with_pools};
use crate::cap::revoke::{revoke, revoke_set, vacate_all};
use crate::cap::refcount::{
    refcounts_consistent, lemma_mint_keeps_refcounts, lemma_copy_keeps_refcounts, lemma_delete_keeps_refcounts,
    lemma_revoke_keeps_refcounts, lemma_new_socket_keeps_refcounts, lemma_vacate_keeps_refcounts,
    lemma_consistency_by_parts,
};

verus! {

/// A capability check failed.
pub const E_PERM: i32 = -1;
/// An argument is malformed or out of bounds.
pub const E_INVAL: i32 = -2;
/// A pool is full or a memory write failed.
pub const E_NOMEM: i32 = -3;
/// The operation would block.
pub const E_AGAIN: i32 = -4;
/// A socket operation needs a connected socket.
pub const E_NOTCONN: i32 = -5;
/// The peer refused the connection.
pub const E_REFUSED: i32 = -6;

/// Does process `p` hold, at `slot`, a cap of `kind` carrying every
/// bit of `rights`? Any failure is `E_PERM`.
pub open spec fn check_cap_spec(v: SysView, p: u8, slot: u8, kind: ObjectKind, rights: u8) -> Result<
    (),
    i32,
> {
    if p >= MAX_PROCS {
        Err(E_PERM)
    } else {
        let c = v.slots[p as int][slot as int];
        if c.kind == ObjectKind::Empty || c.kind != kind || c.rights & rights != rights {
            Err(E_PERM)
        } else {
            Ok(())
        }
    }
}

/// Verify that process `proc_id` holds a cap of `expected_kind` at
/// `slot` with every bit of `required_rights`.
pub fn check_cap(
    sys: &CapSystem,
    proc_id: u8,
    slot: u8,
    expected_kind: ObjectKind,
    required_rights: u8,
) -> (r: Result<(), i32>)
    requires
        sys.wf(),
    ensures
        r == check_cap_spec(sys@, proc_id, slot, expected_kind, required_rights),
{
    if proc_id as usize >= MAX_PROCS {
        return Err(E_PERM);
    }
    let cap = sys.slot(proc_id, slot);
    if cap.is_empty() {
        return Err(E_PERM);
    }
    if cap.kind != expected_kind {
        return Err(E_PERM);
    }
    if cap.rights & required_rights != required_rights {
        return Err(E_PERM);
    }
    Ok(())
}

/// The id naming slot `s` of process `p` at its current generation.
pub open spec fn slot_id(v: SysView, p: u8, s: u8) -> CapId {
    CapId(cap_id_value(p, s, v.gens[p as int][s as int]))
}

/// The cap that `cap_mint` installs, or the errno it returns.
pub open spec fn mint_child(v: SysView, p: u8, ps: u32, ts: u32, rights: u32, badge: u32) -> Result<
    Cap,
    i32,
> {
    if p >= MAX_PROCS || ps >= 256 || ts >= 256 || rights > 255 {
        Err(E_INVAL)
    } else if v.slots[p as int][ps as int].kind == ObjectKind::Empty {
        Err(E_INVAL)
    } else if v.slots[p as int][ts as int].kind != ObjectKind::Empty {
        Err(E_INVAL)
    } else {
        match derive_spec(
            v.slots[p as int][ps as int],
            slot_id(v, p, ps as u8),
            rights as u8,
            badge,
        ) {
            Ok(c) => Ok(Cap { generation: v.gens[p as int][ts as int] as u32, ..c }),
            Err(KernelError::PermissionDenied) => Err(E_PERM),
            Err(_) => Err(E_INVAL),
        }
    }
}

/// The errno of an outcome, `0` for success.
pub open spec fn status_of<T>(r: Result<T, i32>) -> i32 {
    match r {
        Ok(_) => 0,
        Err(e) => e,
    }
}

/// The state after installing `c` in slot `(p, s)` and taking a
/// reference to its object.
pub open spec fn install_state(v: SysView, p: u8, s: u8, c: Cap) -> SysView {
    with_pools(with_slot(v, p as int, s as int, c), pools_inc(v.pools, c.kind, c.pool_index))
}

/// `wari::cap_mint(parent_slot, target_slot, rights, badge)`: derive a
/// child of the cap at `parent_slot` into the empty `target_slot`, with
/// a subset of the parent's rights, and take a reference to the object.
pub fn cap_mint_impl(
    sys: &mut CapSystem,
    proc_id: u8,
    parent_slot: u32,
    target_slot: u32,
    rights: u32,
    badge: u32,
) -> (r: i32)
    requires
        old(sys).wf(),
    ensures
        final(sys).wf(),
        r == status_of(mint_child(old(sys)@, proc_id, parent_slot, target_slot, rights, badge)),
        final(sys)@ == match mint_child(old(sys)@, proc_id, parent_slot, target_slot, rights, badge) {
            Ok(c) => install_state(old(sys)@, proc_id, target_slot as u8, c),
            Err(_) => old(sys)@,
        },
        refcounts_consistent(old(sys)@) ==> refcounts_consistent(final(sys)@),
{
    proof {
        crate::cap::revoke::lemma_view_wf(sys);
        if refcounts_consistent(sys@) {
            lemma_mint_keeps_refcounts(sys@, proc_id, parent_slot, target_slot, rights, badge);
        }
    }
    if proc_id as usize >= MAX_PROCS {
        return E_INVAL;
    }
    if parent_slot >= 256 || target_slot >= 256 {
        return E_INVAL;
    }
    if rights > 0xFF {
        return E_INVAL;
    }
    let ps = parent_slot as u8;
    let ts = target_slot as u8;
    let rights8 = rights as u8;
    let parent = sys.slot(proc_id, ps);
    if parent.is_empty() {
        return E_INVAL;
    }
    if !sys.slot(proc_id, ts).is_empty() {
        return E_INVAL;
    }
    let g = sys.gen(proc_id, ps);
    let parent_id = CapId::new(proc_id, ps, g);
    let mut child = match Cap::derive(&parent, parent_id, rights8, badge) {
        Ok(c) => c,
        Err(KernelError::PermissionDenied) => return E_PERM,
        Err(_) => return E_INVAL,
    };
    let tg = sys.gen(proc_id, ts);
    child.generation = tg as u32;
    sys.set_slot(proc_id, ts, child);
    sys.pools.inc_refcount(child.kind, child.pool_index);
    0
}

/// The cap that `cap_copy` installs, or the errno it returns: a sibling
/// of the source with the target slot's generation.
pub open spec fn copy_cap(v: SysView, p: u8, src: u32, ts: u32) -> Result<Cap, i32> {
    if p >= MAX_PROCS || src >= 256 || ts >= 256 {
        Err(E_INVAL)
    } else if v.slots[p as int][src as int].kind == ObjectKind::Empty {
        Err(E_INVAL)
    } else if v.slots[p as int][ts as int].kind != ObjectKind::Empty {
        Err(E_INVAL)
    } else {
        Ok(Cap { generation: v.gens[p as int][ts as int] as u32, ..v.slots[p as int][src as int] })
    }
}

/// `wari::cap_copy(src_slot, target_slot)`: duplicate the cap at
/// `src_slot` (same parent, same rights) into the empty `target_slot`.
pub fn cap_copy_impl(sys: &mut CapSystem, proc_id: u8, src_slot: u32, target_slot: u32) -> (r: i32)
    requires
        old(sys).wf(),
    ensures
        final(sys).wf(),
        r == status_of(copy_cap(old(sys)@, proc_id, src_slot, target_slot)),
        final(sys)@ == match copy_cap(old(sys)@, proc_id, src_slot, target_slot) {
            Ok(c) => install_state(old(sys)@, proc_id, target_slot as u8, c),
            Err(_) => old(sys)@,
        },
        refcounts_consistent(old(sys)@) ==> refcounts_consistent(final(sys)@),
{
    proof {
        crate::cap::revoke::lemma_view_wf(sys);
        if refcounts_consistent(sys@) {
            lemma_copy_keeps_refcounts(sys@, proc_id, src_slot, target_slot);
        }
    }
    if proc_id as usize >= MAX_PROCS {
        return E_INVAL;
    }
    if src_slot >= 256 || target_slot >= 256 {
        return E_INVAL;
    }
    let ss = src_slot as u8;
    let ts = target_slot as u8;
    let src = sys.slot(proc_id, ss);
    if src.is_empty() {
        return E_INVAL;
    }
    if !sys.slot(proc_id, ts).is_empty() {
        return E_INVAL;
    }
    let tg = sys.gen(proc_id, ts);
    let mut c = src;
    c.generation = tg as u32;
    sys.set_slot(proc_id, ts, c);
    sys.pools.inc_refcount(c.kind, c.pool_index);
    0
}

/// The errno `cap_revoke` returns before revoking, if any: the slot
/// must hold a cap carrying WRITE.
pub open spec fn revoke_check(v: SysView, p: u8, s: u32) -> Result<(), i32> {
    if p >= MAX_PROCS || s >= 256 {
        Err(E_INVAL)
    } else if v.slots[p as int][s as int].kind == ObjectKind::Empty {
        Err(E_INVAL)
    } else if v.slots[p as int][s as int].rights & CAP_RIGHT_WRITE == 0 {
        Err(E_PERM)
    } else {
        Ok(())
    }
}

/// `wari::cap_revoke(slot)`: revoke the cap at `slot`, which must carry
/// WRITE, together with every cap derived from it.
pub fn cap_revoke_impl(sys: &mut CapSystem, proc_id: u8, slot: u32) -> (r: i32)
    requires
        old(sys).wf(),
    ensures
        final(sys).wf(),
        r == status_of(revoke_check(old(sys)@, proc_id, slot)),
        revoke_check(old(sys)@, proc_id, slot) is Err ==> final(sys)@ == old(sys)@,
        revoke_check(old(sys)@, proc_id, slot) is Ok ==> exists|t: Seq<(u8, u8)>|
            revoke_set(old(sys)@, (proc_id, slot as u8), t) && final(sys)@ == vacate_all(old(sys)@, t),
        refcounts_consistent(old(sys)@) ==> refcounts_consistent(final(sys)@),
{
    proof {
        crate::cap::revoke::lemma_view_wf(sys);
        if refcounts_consistent(sys@) {
            let v = sys@;
            assert forall|t: Seq<(u8, u8)>| revoke_set(v, (proc_id, slot as u8), t) implies refcounts_consistent(
                vacate_all(v, t),
            ) by {
                lemma_revoke_keeps_refcounts(v, t);
            }
        }
    }
    if proc_id as usize >= MAX_PROCS {
        return E_INVAL;
    }
    if slot >= 256 {
        return E_INVAL;
    }
    let s = slot as u8;
    let cap = sys.slot(proc_id, s);
    if cap.is_empty() {
        return E_INVAL;
    }
    if cap.rights & CAP_RIGHT_WRITE == 0 {
        return E_PERM;
    }
    match revoke(sys, proc_id, s) {
        Ok(()) => 0,
        Err(_) => E_INVAL,
    }
}

/// The cap that `cap_delete` removes, or the errno it returns.
pub open spec fn delete_target(v: SysView, p: u8, s: u32) -> Result<Cap, i32> {
    if p >= MAX_PROCS || s >= 256 {
        Err(E_INVAL)
    } else if v.slots[p as int][s as int].kind == ObjectKind::Empty {
        Err(E_INVAL)
    } else {
        Ok(v.slots[p as int][s as int])
    }
}

/// The state after vacating slot `(p, s)`, which held `c`: the slot is
/// empty, its generation bumped, and the reference to `c`'s object
/// dropped.
pub open spec fn vacate_state(v: SysView, p: u8, s: u8, c: Cap) -> SysView {
    with_pools(
        with_gen(
            with_slot(v, p as int, s as int, empty_cap()),
            p as int,
            s as int,
            next_generation(v.gens[p as int][s as int]),
        ),
        pools_dec(v.pools, c.kind, c.pool_index),
    )
}

/// Empty slot `(p, s)`, bump its generation and drop the reference its
/// cap held.
pub fn vacate_slot(sys: &mut CapSystem, proc_id: u8, slot: u8) -> (r: Cap)
    requires
        old(sys).wf(),
        proc_id < MAX_PROCS,
    ensures
        final(sys).wf(),
        r == old(sys)@.slots[proc_id as int][slot as int],
        final(sys)@ == vacate_state(old(sys)@, proc_id, slot, r),
{
    let c = sys.slot(proc_id, slot);
    sys.set_slot(proc_id, slot, Cap::empty());
    let g = sys.gen(proc_id, slot);
    sys.set_gen(proc_id, slot, g.saturating_add(1));
    sys.pools.dec_refcount(c.kind, c.pool_index);
    c
}

/// `wari::cap_delete(slot)`: remove the cap at `slot` without
/// cascading; its descendants are orphaned by the generation bump.
pub fn cap_delete_impl(sys: &mut CapSystem, proc_id: u8, slot: u32) -> (r: i32)
    requires
        old(sys).wf(),
    ensures
        final(sys).wf(),
        r == status_of(delete_target(old(sys)@, proc_id, slot)),
        final(sys)@ == match delete_target(old(sys)@, proc_id, slot) {
            Ok(c) => vacate_state(old(sys)@, proc_id, slot as u8, c),
            Err(_) => old(sys)@,
        },
        refcounts_consistent(old(sys)@) ==> refcounts_consistent(final(sys)@),
{
    proof {
        crate::cap::revoke::lemma_view_wf(sys);
        if refcounts_consistent(sys@) {
            lemma_delete_keeps_refcounts(sys@, proc_id, slot);
        }
    }
    if proc_id as usize >= MAX_PROCS {
        return E_INVAL;
    }
    if slot >= 256 {
        return E_INVAL;
    }
    let s = slot as u8;
    if sys.slot(proc_id, s).is_empty() {
        return E_INVAL;
    }
    let _ = vacate_slot(sys, proc_id, s);
    0
}

/// Does process `p` hold its driver root cap (`Net` with WRITE) in
/// slot 0?
pub open spec fn holds_net_write(v: SysView, p: u8) -> bool {
    &&& p < MAX_PROCS
    &&& v.slots[p as int][0].kind == ObjectKind::Net
    &&& v.slots[p as int][0].rights & CAP_RIGHT_WRITE != 0
}

/// Read the driver root cap and check it is `Net` with WRITE.
fn net_write_cap(sys: &CapSystem, proc_id: u8) -> (r: Option<Cap>)
    requires
        sys.wf(),
    ensures
        r is Some <==> holds_net_write(sys@, proc_id),
        r matches Some(c) ==> c == sys@.slots[proc_id as int][0],
{
    if proc_id as usize >= MAX_PROCS {
        return None;
    }
    let cap = sys.slot(proc_id, 0);
    if cap.is_empty() {
        return None;
    }
    match cap.kind {
        ObjectKind::Net => {},
        _ => return None,
    }
    if cap.rights & CAP_RIGHT_WRITE == 0 {
        return None;
    }
    Some(cap)
}

/// `wari::nic_queue_notify(queue_idx)`: decide whether the driver may
/// kick virtqueue `queue_idx`. On `0` the caller writes `queue_idx` to
/// the device's QueueNotify register.
pub fn nic_queue_notify_impl(sys: &CapSystem, proc_id: u8, queue_idx: u32) -> (r: i32)
    requires
        sys.wf(),
    ensures
        r == if !holds_net_write(sys@, proc_id) {
            E_PERM
        } else if queue_idx > 1 {
            E_INVAL
        } else {
            0
        },
{
    if net_write_cap(sys, proc_id).is_none() {
        return E_PERM;
    }
    if queue_idx > 1 {
        return E_INVAL;
    }
    0
}

/// Size in bytes of a descriptor table, available ring and used ring of
/// `queue_size` entries.
pub open spec fn desc_table_bytes(queue_size: u32) -> int {
    16 * queue_size
}

/// See `desc_table_bytes`.
pub open spec fn avail_ring_bytes(queue_size: u32) -> int {
    4 + 2 * queue_size
}

/// See `desc_table_bytes`.
pub open spec fn used_ring_bytes(queue_size: u32) -> int {
    4 + 8 * queue_size
}

/// Is `n` a power of two?
pub open spec fn is_pow2(n: u32) -> bool {
    n != 0 && n & ((n - 1) as u32) == 0
}

/// The argument checks of `wari::nic_attach_queue`: the driver root
/// cap, the queue index (rx or tx), a power-of-two size of at most 256,
/// and the VirtIO alignment of the three ring offsets.
pub open spec fn attach_queue_args_spec(
    v: SysView,
    p: u8,
    queue_idx: u32,
    desc_off: u32,
    avail_off: u32,
    used_off: u32,
    queue_size: u32,
) -> i32 {
    if !holds_net_write(v, p) {
        E_PERM
    } else if queue_idx > 1 {
        E_INVAL
    } else if queue_size == 0 || queue_size > 256 || !is_pow2(queue_size) {
        E_INVAL
    } else if desc_off % 16 != 0 || avail_off % 2 != 0 || used_off % 4 != 0 {
        E_INVAL
    } else {
        0
    }
}

/// Check the arguments of `wari::nic_attach_queue` before the caller's
/// linear memory is consulted.
pub fn nic_attach_queue_args(
    sys: &CapSystem,
    proc_id: u8,
    queue_idx: u32,
    desc_off: u32,
    avail_off: u32,
    used_off: u32,
    queue_size: u32,
) -> (r: i32)
    requires
        sys.wf(),
    ensures
        r == attach_queue_args_spec(sys@, proc_id, queue_idx, desc_off, avail_off, used_off, queue_size),
{
    if net_write_cap(sys, proc_id).is_none() {
        return E_PERM;
    }
    if queue_idx > 1 {
        return E_INVAL;
    }
    if queue_size == 0 || queue_size > 256 || queue_size & (queue_size - 1) != 0 {
        return E_INVAL;
    }
    assert(desc_off & 0xF == desc_off % 16) by (bit_vector);
    assert(avail_off & 0x1 == avail_off % 2) by (bit_vector);
    assert(used_off & 0x3 == used_off % 4) by (bit_vector);
    if desc_off & 0xF != 0 {
        return E_INVAL;
    }
    if avail_off & 0x1 != 0 {
        return E_INVAL;
    }
    if used_off & 0x3 != 0 {
        return E_INVAL;
    }
    0
}

/// Do the three rings of `queue_size` entries at the given offsets fit
/// inside a linear memory of `mem_len` bytes?
pub open spec fn rings_fit(desc_off: u32, avail_off: u32, used_off: u32, queue_size: u32, mem_len: usize) -> bool {
    &&& desc_off + desc_table_bytes(queue_size) <= mem_len
    &&& avail_off + avail_ring_bytes(queue_size) <= mem_len
    &&& used_off + used_ring_bytes(queue_size) <= mem_len
}

/// The bounds check of `wari::nic_attach_queue`: `0` when every ring
/// fits in the caller's linear memory, else `E_INVAL`.
pub fn nic_attach_queue_bounds(
    desc_off: u32,
    avail_off: u32,
    used_off: u32,
    queue_size: u32,
    mem_len: usize,
) -> (r: i32)
    requires
        queue_size <= 256,
    ensures
        r == if rings_fit(desc_off, avail_off, used_off, queue_size, mem_len) {
            0
        } else {
            E_INVAL
        },
{
    let q = queue_size as u64;
    let len = mem_len as u64;
    if desc_off as u64 + 16 * q > len {
        return E_INVAL;
    }
    if avail_off as u64 + (4 + 2 * q) > len {
        return E_INVAL;
    }
    if used_off as u64 + (4 + 8 * q) > len {
        return E_INVAL;
    }
    0
}

/// VirtIO MMIO queue register: queue select.
pub const QUEUE_SEL: u32 = 0x030;
/// VirtIO MMIO queue register: largest size the device supports.
pub const QUEUE_NUM_MAX: u32 = 0x034;
/// VirtIO MMIO queue register: queue size.
pub const QUEUE_NUM: u32 = 0x038;
/// VirtIO MMIO queue register: queue ready.
pub const QUEUE_READY: u32 = 0x044;
/// VirtIO MMIO queue register: descriptor table address, low word.
pub const QUEUE_DESC_LOW: u32 = 0x080;
/// VirtIO MMIO queue register: descriptor table address, high word.
pub const QUEUE_DESC_HIGH: u32 = 0x084;
/// VirtIO MMIO queue register: available ring address, low word.
pub const QUEUE_DRIVER_LOW: u32 = 0x090;
/// VirtIO MMIO queue register: available ring address, high word.
pub const QUEUE_DRIVER_HIGH: u32 = 0x094;
/// VirtIO MMIO queue register: used ring address, low word.
pub const QUEUE_DEVICE_LOW: u32 = 0x0a0;
/// VirtIO MMIO queue register: used ring address, high word.
pub const QUEUE_DEVICE_HIGH: u32 = 0x0a4;

/// Programming one virtqueue into the device, after the checks above
/// passed: which queue, its size, the physical addresses of its three
/// rings, and how far the programming has come.
#[derive(Debug, Clone, Copy, PartialEq, Eq, Structural)]
pub struct QueueAttach {
    /// Position: 0..=10 in the sequence, 11 refused, 12 attached.
    pub step: u8,
    /// Queue index (0 receive, 1 transmit).
    pub queue_idx: u32,
    /// Queue size.
    pub queue_size: u32,
    /// Physical address of the descriptor table.
    pub desc_pa: u64,
    /// Physical address of the available ring.
    pub avail_pa: u64,
    /// Physical address of the used ring.
    pub used_pa: u64,
}

/// What the kernel does next to the device's queue registers.
#[derive(Debug, Clone, Copy, PartialEq, Eq, Structural)]
pub enum QueueOp {
    /// Read the register at `offset`; its value feeds the next step.
    Read { offset: u32 },
    /// Write `value` to the register at `offset`.
    Write { offset: u32, value: u32 },
    /// Finished: `wari::nic_attach_queue` returns `rc`.
    Done { rc: i32 },
}

/// The programming of queue `a`, in order (VirtIO 1.2 §4.2.2.2): select
/// the queue, read its largest size, set the size, the descriptor table,
/// available ring and used ring addresses (low word, then high), mark it
/// ready, return 0.
pub open spec fn attach_program(a: QueueAttach) -> Seq<QueueOp> {
    seq![
        QueueOp::Write { offset: QUEUE_SEL, value: a.queue_idx },
        QueueOp::Read { offset: QUEUE_NUM_MAX },
        QueueOp::Write { offset: QUEUE_NUM, value: a.queue_size },
        QueueOp::Write { offset: QUEUE_DESC_LOW, value: a.desc_pa as u32 },
        QueueOp::Write { offset: QUEUE_DESC_HIGH, value: (a.desc_pa >> 32) as u32 },
        QueueOp::Write { offset: QUEUE_DRIVER_LOW, value: a.avail_pa as u32 },
        QueueOp::Write { offset: QUEUE_DRIVER_HIGH, value: (a.avail_pa >> 32) as u32 },
        QueueOp::Write { offset: QUEUE_DEVICE_LOW, value: a.used_pa as u32 },
        QueueOp::Write { offset: QUEUE_DEVICE_HIGH, value: (a.used_pa >> 32) as u32 },
        QueueOp::Write { offset: QUEUE_READY, value: 1 },
        QueueOp::Done { rc: 0 },
    ]
}

/// The step from `a`, with `v` the value of the read the previous step
/// asked for: a device whose largest queue size `v` is below the queue's
/// size refuses it (`E_INVAL`) before anything is programmed; otherwise
/// the next access of `attach_program`. A finished attach stays finished.
pub open spec fn attach_next(a: QueueAttach, v: u32) -> (QueueAttach, QueueOp) {
    if a.step == 2 && v < a.queue_size {
        (QueueAttach { step: 11, ..a }, QueueOp::Done { rc: E_INVAL })
    } else if a.step < 10 {
        (QueueAttach { step: (a.step + 1) as u8, ..a }, attach_program(a)[a.step as int])
    } else if a.step == 10 || a.step == 12 {
        (QueueAttach { step: 12, ..a }, QueueOp::Done { rc: 0 })
    } else {
        (QueueAttach { step: 11, ..a }, QueueOp::Done { rc: E_INVAL })
    }
}

/// Start programming queue `queue_idx` of `queue_size` entries whose
/// rings lie at linear-memory offsets `desc_off`, `avail_off`, `used_off`
/// of a linear memory at physical address `mem_base`.
pub fn queue_attach_begin(
    queue_idx: u32,
    queue_size: u32,
    mem_base: u64,
    desc_off: u32,
    avail_off: u32,
    used_off: u32,
) -> (r: QueueAttach)
    requires
        mem_base + u32::MAX <= u64::MAX,
    ensures
        r == (QueueAttach {
            step: 0,
            queue_idx,
            queue_size,
            desc_pa: (mem_base + desc_off) as u64,
            avail_pa: (mem_base + avail_off) as u64,
            used_pa: (mem_base + used_off) as u64,
        }),
{
    QueueAttach {
        step: 0,
        queue_idx,
        queue_size,
        desc_pa: mem_base + desc_off as u64,
        avail_pa: mem_base + avail_off as u64,
        used_pa: mem_base + used_off as u64,
    }
}

/// Advance the queue programming by one step.
pub fn queue_attach_step(a: QueueAttach, v: u32) -> (r: (QueueAttach, QueueOp))
    ensures
        r == attach_next(a, v),
{
    if a.step == 2 && v < a.queue_size {
        return (QueueAttach { step: 11, ..a }, QueueOp::Done { rc: E_INVAL });
    }
    let next = QueueAttach { step: if a.step < 10 { a.step + 1 } else if a.step == 10 || a.step == 12 { 12 } else { 11 }, ..a };
    let op = match a.step {
        0 => QueueOp::Write { offset: QUEUE_SEL, value: a.queue_idx },
        1 => QueueOp::Read { offset: QUEUE_NUM_MAX },
        2 => QueueOp::Write { offset: QUEUE_NUM, value: a.queue_size },
        3 => QueueOp::Write { offset: QUEUE_DESC_LOW, value: a.desc_pa as u32 },
        4 => QueueOp::Write { offset: QUEUE_DESC_HIGH, value: (a.desc_pa >> 32) as u32 },
        5 => QueueOp::Write { offset: QUEUE_DRIVER_LOW, value: a.avail_pa as u32 },
        6 => QueueOp::Write { offset: QUEUE_DRIVER_HIGH, value: (a.avail_pa >> 32) as u32 },
        7 => QueueOp::Write { offset: QUEUE_DEVICE_LOW, value: a.used_pa as u32 },
        8 => QueueOp::Write { offset: QUEUE_DEVICE_HIGH, value: (a.used_pa >> 32) as u32 },
        9 => QueueOp::Write { offset: QUEUE_READY, value: 1 },
        10 | 12 => QueueOp::Done { rc: 0 },
        _ => QueueOp::Done { rc: E_INVAL },
    };
    (next, op)
}

/// Run the queue programming from `a`, feeding step `i` the value
/// `vs[i]`: the final state and the accesses made, in order.
pub open spec fn attach_run(a: QueueAttach, vs: Seq<u32>) -> (QueueAttach, Seq<QueueOp>)
    decreases vs.len(),
{
    if vs.len() == 0 {
        (a, Seq::empty())
    } else {
        let (n, op) = attach_next(a, vs[0]);
        let (f, rest) = attach_run(n, vs.drop_first());
        (f, seq![op] + rest)
    }
}

/// A device whose largest size for the queue is `qmax` sees exactly the
/// whole programming, ending in 0, when `qmax` is at least the queue's
/// size; otherwise it sees only the selection and the size read, and the
/// attach ends in `E_INVAL` with nothing programmed.
pub proof fn lemma_attach_sequence(a: QueueAttach, qmax: u32)
    requires
        a.step == 0,
    ensures
        qmax >= a.queue_size ==> attach_run(a, seq![0u32, 0, qmax, 0, 0, 0, 0, 0, 0, 0, 0]) == (
        QueueAttach { step: 12, ..a }, attach_program(a)),
        qmax < a.queue_size ==> attach_run(a, seq![0u32, 0, qmax]) == (QueueAttach { step: 11, ..a }, seq![
            QueueOp::Write { offset: QUEUE_SEL, value: a.queue_idx },
            QueueOp::Read { offset: QUEUE_NUM_MAX },
            QueueOp::Done { rc: E_INVAL },
        ]),
{
    reveal_with_fuel(attach_run, 12);
    if qmax >= a.queue_size {
        assert(attach_run(a, seq![0u32, 0, qmax, 0, 0, 0, 0, 0, 0, 0, 0]).1 =~= attach_program(a));
    } else {
        assert(attach_run(a, seq![0u32, 0, qmax]).1 =~= seq![
            QueueOp::Write { offset: QUEUE_SEL, value: a.queue_idx },
            QueueOp::Read { offset: QUEUE_NUM_MAX },
            QueueOp::Done { rc: E_INVAL },
        ]);
    }
}

/// `wari::nic_set_mac(mac_low, mac_high)`: record the driver's MAC
/// (little-endian: bytes 0..4 from `mac_low`, 4..6 from the low half of
/// `mac_high`) in its `Net` object and mark the NIC initialized.
pub fn nic_set_mac_impl(sys: &mut CapSystem, proc_id: u8, mac_low: u32, mac_high: u32) -> (r: i32)
    requires
        old(sys).wf(),
    ensures
        final(sys).wf(),
        !holds_net_write(old(sys)@, proc_id) ==> r == E_PERM && final(sys)@ == old(sys)@,
        holds_net_write(old(sys)@, proc_id) ==> {
            let idx = old(sys)@.slots[proc_id as int][0].pool_index as int;
            let nets = old(sys)@.pools.nets;
            if 0 <= idx < nets.len() && nets[idx] is Some {
                &&& r == 0
                &&& final(sys)@.pools.nets[idx] matches Some(n) && {
                    &&& n.initialized
                    &&& n.nic_kind == nets[idx]->Some_0.nic_kind
                    &&& n.refcount == nets[idx]->Some_0.refcount
                    &&& n.mac@ == seq![
                        (mac_low % 256) as u8,
                        ((mac_low / 256) % 256) as u8,
                        ((mac_low / 65536) % 256) as u8,
                        ((mac_low / 16777216) % 256) as u8,
                        (mac_high % 256) as u8,
                        ((mac_high / 256) % 256) as u8,
                    ]
                }
                &&& final(sys)@ == with_pools(
                    old(sys)@,
                    crate::cap::objects::PoolsView {
                        nets: nets.update(idx, final(sys)@.pools.nets[idx]),
                        ..old(sys)@.pools
                    },
                )
            } else {
                r == E_INVAL && final(sys)@ == old(sys)@
            }
        },
{
    let cap = match net_write_cap(sys, proc_id) {
        Some(c) => c,
        None => return E_PERM,
    };
    let idx = cap.pool_index;
    let net: Net = match sys.pools.nets.get(idx) {
        Some(n) => *n,
        None => return E_INVAL,
    };
    let mut n2 = net;
    n2.mac[0] = (mac_low & 0xFF) as u8;
    n2.mac[1] = ((mac_low >> 8) & 0xFF) as u8;
    n2.mac[2] = ((mac_low >> 16) & 0xFF) as u8;
    n2.mac[3] = ((mac_low >> 24) & 0xFF) as u8;
    n2.mac[4] = (mac_high & 0xFF) as u8;
    n2.mac[5] = ((mac_high >> 8) & 0xFF) as u8;
    n2.initialized = true;
    assert((mac_low & 0xFF) == mac_low % 256) by (bit_vector);
    assert(((mac_low >> 8) & 0xFF) == (mac_low / 256) % 256) by (bit_vector);
    assert(((mac_low >> 16) & 0xFF) == (mac_low / 65536) % 256) by (bit_vector);
    assert(((mac_low >> 24) & 0xFF) == (mac_low / 16777216) % 256) by (bit_vector);
    assert((mac_high & 0xFF) == mac_high % 256) by (bit_vector);
    assert(((mac_high >> 8) & 0xFF) == (mac_high / 256) % 256) by (bit_vector);
    let ghost pre = sys@;
    sys.pools.nets.put(idx, n2);
    assert(n2.mac@ =~= seq![
        (mac_low % 256) as u8,
        ((mac_low / 256) % 256) as u8,
        ((mac_low / 65536) % 256) as u8,
        ((mac_low / 16777216) % 256) as u8,
        (mac_high % 256) as u8,
        ((mac_high / 256) % 256) as u8,
    ]);
    assert(sys@.slots =~= pre.slots);
    0
}

/// Does process `p` hold a `Notification` cap with READ at `slot`, and
/// which object does it name?
pub open spec fn notification_of(v: SysView, p: u8, slot: u32) -> Result<u16, i32> {
    if p >= MAX_PROCS || slot >= 256 {
        Err(E_INVAL)
    } else {
        let c = v.slots[p as int][slot as int];
        if c.kind != ObjectKind::Notification || c.rights & CAP_RIGHT_READ == 0 {
            Err(E_PERM)
        } else if !(c.pool_index < v.pools.notifications.len()
            && v.pools.notifications[c.pool_index as int] is Some) {
            Err(E_INVAL)
        } else {
            Ok(c.pool_index)
        }
    }
}

/// Resolve the Notification cap at `slot`.
fn resolve_notification(sys: &CapSystem, proc_id: u8, slot: u32) -> (r: Result<u16, i32>)
    requires
        sys.wf(),
    ensures
        r == notification_of(sys@, proc_id, slot),
{
    if proc_id as usize >= MAX_PROCS {
        return Err(E_INVAL);
    }
    if slot >= 256 {
        return Err(E_INVAL);
    }
    let cap = sys.slot(proc_id, slot as u8);
    match cap.kind {
        ObjectKind::Notification => {},
        _ => return Err(E_PERM),
    }
    if cap.rights & CAP_RIGHT_READ == 0 {
        return Err(E_PERM);
    }
    match sys.pools.notifications.get(cap.pool_index) {
        Some(_) => Ok(cap.pool_index),
        None => Err(E_INVAL),
    }
}

/// `wari::notification_wait(slot)`: `0` if any signal bit is pending
/// on the Notification at `slot`, `E_AGAIN` if none.
pub fn notification_wait_impl(sys: &CapSystem, proc_id: u8, slot: u32) -> (r: i32)
    requires
        sys.wf(),
    ensures
        r == match notification_of(sys@, proc_id, slot) {
            Err(e) => e,
            Ok(i) => if sys@.pools.notifications[i as int]->Some_0.signals != 0 {
                0
            } else {
                E_AGAIN
            },
        },
{
    let idx = match resolve_notification(sys, proc_id, slot) {
        Ok(i) => i,
        Err(e) => return e,
    };
    match sys.pools.notifications.get(idx) {
        Some(n) => if n.signals != 0 {
            0
        } else {
            E_AGAIN
        },
        None => E_INVAL,
    }
}

/// The system after process `p` acknowledges the Notification at `slot`:
/// unchanged when the cap does not resolve, else that notification with
/// every signal bit cleared and nothing else changed.
pub open spec fn acked(v: SysView, p: u8, slot: u32) -> SysView {
    match notification_of(v, p, slot) {
        Err(_) => v,
        Ok(i) => with_pools(
            v,
            crate::cap::objects::PoolsView {
                notifications: v.pools.notifications.update(
                    i as int,
                    Some(Notification { signals: 0, ..v.pools.notifications[i as int]->Some_0 }),
                ),
                ..v.pools
            },
        ),
    }
}

/// `wari::notification_ack(slot)`: clear every signal bit on the
/// Notification at `slot`.
pub fn notification_ack_impl(sys: &mut CapSystem, proc_id: u8, slot: u32) -> (r: i32)
    requires
        old(sys).wf(),
    ensures
        final(sys).wf(),
        r == status_of(notification_of(old(sys)@, proc_id, slot)),
        final(sys)@ == acked(old(sys)@, proc_id, slot),
{
    let idx = match resolve_notification(sys, proc_id, slot) {
        Ok(i) => i,
        Err(e) => return e,
    };
    let n: Notification = match sys.pools.notifications.get(idx) {
        Some(n) => *n,
        None => return E_INVAL,
    };
    let mut n2 = n;
    n2.signals = 0;
    sys.pools.notifications.put(idx, n2);
    0
}

/// The driver-side handle of the Socket cap at `slot`, or the errno
/// returned when the cap is missing, not a writable Socket, or dangling.
pub open spec fn socket_handle_of(v: SysView, p: u8, slot: u8) -> Result<u32, i32> {
    let c = v.slots[p as int][slot as int];
    if c.kind != ObjectKind::Socket || c.rights & CAP_RIGHT_WRITE == 0 {
        Err(E_PERM)
    } else if !(c.pool_index < v.pools.sockets.len() && v.pools.sockets[c.pool_index as int] is Some) {
        Err(E_INVAL)
    } else {
        Ok(v.pools.sockets[c.pool_index as int]->Some_0.smoltcp_handle)
    }
}

/// Validate that `slot` holds a writable Socket cap and return the
/// driver-side socket handle it names.
pub fn resolve_socket_handle(sys: &CapSystem, proc_id: u8, slot: u8) -> (r: Result<u32, i32>)
    requires
        sys.wf(),
        proc_id < MAX_PROCS,
    ensures
        r == socket_handle_of(sys@, proc_id, slot),
{
    let cap = sys.slot(proc_id, slot);
    match cap.kind {
        ObjectKind::Socket => {},
        _ => return Err(E_PERM),
    }
    if cap.rights & CAP_RIGHT_WRITE == 0 {
        return Err(E_PERM);
    }
    match sys.pools.sockets.get(cap.pool_index) {
        Some(s) => Ok(s.smoltcp_handle),
        None => Err(E_INVAL),
    }
}

/// The checks of the socket host calls that reach the driver with a
/// socket (`wari::net_socket_bind`, `wari::net_socket_listen`):
/// `E_INVAL` for an out-of-range process or slot, else the socket handle
/// behind a writable Socket cap at `slot`, or its error.
pub fn socket_call_check(sys: &CapSystem, proc_id: u8, slot: u32) -> (r: Result<u32, i32>)
    requires
        sys.wf(),
    ensures
        r == if proc_id >= MAX_PROCS || slot >= CSPACE_SLOTS {
            Err::<u32, i32>(E_INVAL)
        } else {
            socket_handle_of(sys@, proc_id, slot as u8)
        },
{
    if proc_id as usize >= MAX_PROCS || slot >= CSPACE_SLOTS as u32 {
        return Err(E_INVAL);
    }
    resolve_socket_handle(sys, proc_id, slot as u8)
}

/// What such a host call returns given the driver call's outcome: the
/// driver's result, or `E_NOMEM` when the driver trapped.
pub fn socket_call_finish(driver: Result<i32, ()>) -> (r: i32)
    ensures
        r == match driver {
            Ok(rc) => rc,
            Err(()) => E_NOMEM,
        },
{
    match driver {
        Ok(rc) => rc,
        Err(()) => E_NOMEM,
    }
}

/// The 8-byte `CapInfo` record that `wari::cap_lookup` writes: kind
/// discriminant, rights, two zero bytes, then the badge little-endian.
pub open spec fn cap_info_bytes(c: Cap) -> Seq<u8> {
    seq![
        object_kind_code(c.kind),
        c.rights,
        0u8,
        0u8,
        (c.badge % 256) as u8,
        ((c.badge / 256) % 256) as u8,
        ((c.badge / 65536) % 256) as u8,
        ((c.badge / 16777216) % 256) as u8,
    ]
}

/// The `CapInfo` record of the cap at `slot` (even an empty one), which
/// `wari::cap_lookup` copies to the caller's linear memory.
pub fn cap_info(sys: &CapSystem, proc_id: u8, slot: u32) -> (r: Result<[u8; 8], i32>)
    requires
        sys.wf(),
    ensures
        (proc_id >= MAX_PROCS || slot >= 256) ==> r == Err::<[u8; 8], i32>(E_INVAL),
        (proc_id < MAX_PROCS && slot < 256) ==> (r matches Ok(b) && b@ == cap_info_bytes(
            sys@.slots[proc_id as int][slot as int],
        )),
{
    if proc_id as usize >= MAX_PROCS {
        return Err(E_INVAL);
    }
    if slot >= 256 {
        return Err(E_INVAL);
    }
    let c = sys.slot(proc_id, slot as u8);
    let b = c.badge;
    let mut buf = [0u8; 8];
    buf[0] = c.kind.to_raw();
    buf[1] = c.rights;
    buf[4] = (b & 0xFF) as u8;
    buf[5] = ((b >> 8) & 0xFF) as u8;
    buf[6] = ((b >> 16) & 0xFF) as u8;
    buf[7] = ((b >> 24) & 0xFF) as u8;
    assert((b & 0xFF) == b % 256) by (bit_vector);
    assert(((b >> 8) & 0xFF) == (b / 256) % 256) by (bit_vector);
    assert(((b >> 16) & 0xFF) == (b / 65536) % 256) by (bit_vector);
    assert(((b >> 24) & 0xFF) == (b / 16777216) % 256) by (bit_vector);
    assert(buf@ =~= cap_info_bytes(c));
    Ok(buf)
}

/// The checks `wari::net_socket_create` makes before calling the net
/// driver: the slot must be in range, process `p` must hold a writable
/// Net cap at `SLOT_NET`, and the target slot must be empty. On success
/// returns the NIC's pool index and the id naming the Net cap's slot.
pub open spec fn socket_create_check_spec(v: SysView, p: u8, slot: u32) -> Result<(u16, CapId), i32> {
    if p >= MAX_PROCS || slot >= 256 {
        Err(E_INVAL)
    } else {
        let c = v.slots[p as int][2];
        if c.kind != ObjectKind::Net || c.rights & CAP_RIGHT_WRITE == 0 {
            Err(E_PERM)
        } else if v.slots[p as int][slot as int].kind != ObjectKind::Empty {
            Err(E_PERM)
        } else {
            Ok((c.pool_index, slot_id(v, p, 2)))
        }
    }
}

/// Check a `wari::net_socket_create` request before the driver is asked
/// for a socket.
pub fn socket_create_check(sys: &CapSystem, proc_id: u8, slot_for_cap: u32) -> (r: Result<(u16, CapId), i32>)
    requires
        sys.wf(),
    ensures
        r == socket_create_check_spec(sys@, proc_id, slot_for_cap),
{
    if proc_id as usize >= MAX_PROCS {
        return Err(E_INVAL);
    }
    if slot_for_cap >= 256 {
        return Err(E_INVAL);
    }
    let cap = sys.slot(proc_id, 2);
    match cap.kind {
        ObjectKind::Net => {},
        _ => return Err(E_PERM),
    }
    if cap.rights & CAP_RIGHT_WRITE == 0 {
        return Err(E_PERM);
    }
    if !sys.slot(proc_id, slot_for_cap as u8).is_empty() {
        return Err(E_PERM);
    }
    let g = sys.gen(proc_id, 2);
    Ok((cap.pool_index, CapId::new(proc_id, 2, g)))
}

/// What `wari::net_socket_create` does once the driver has answered.
#[derive(Debug, Clone, Copy, PartialEq, Eq, Structural)]
pub enum SocketCreateStep {
    /// Return this value to the caller.
    Return(i32),
    /// No socket record could be allocated: close driver socket
    /// `handle`, then return `E_NOMEM`.
    RollBack { handle: u32 },
}

/// Finish `wari::net_socket_create` after `socket_create_check` passed
/// and the driver answered `driver` (`Err` when the driver trapped): a
/// trap is `E_NOMEM`, a negative driver errno is passed through, and a
/// handle gets a Socket record on NIC `net_pool` and a READ|WRITE Socket
/// cap, child of `parent_id`, in `slot_for_cap`.
pub fn socket_create_finish(
    sys: &mut CapSystem,
    proc_id: u8,
    slot_for_cap: u8,
    net_pool: u16,
    parent_id: CapId,
    driver: Result<i32, ()>,
) -> (r: SocketCreateStep)
    requires
        old(sys).wf(),
        proc_id < MAX_PROCS,
    ensures
        final(sys).wf(),
        match driver {
            Err(_) => r == SocketCreateStep::Return(E_NOMEM) && final(sys)@ == old(sys)@,
            Ok(v) => if v < 0 {
                r == SocketCreateStep::Return(v) && final(sys)@ == old(sys)@
            } else {
                let ss = old(sys)@.pools.sockets;
                if forall|j: int| 0 <= j < ss.len() ==> #[trigger] ss[j] is Some {
                    r == (SocketCreateStep::RollBack { handle: v as u32 }) && final(sys)@ == old(sys)@
                } else {
                    exists|i: u16| {
                        &&& i < ss.len()
                        &&& ss[i as int] is None
                        &&& forall|j: int| 0 <= j < i ==> #[trigger] ss[j] is Some
                        &&& r == SocketCreateStep::Return(0)
                        &&& final(sys)@ == install_state(
                            with_pools(
                                old(sys)@,
                                crate::cap::objects::PoolsView {
                                    sockets: ss.update(
                                        i as int,
                                        Some(Socket { net_pool_idx: net_pool, smoltcp_handle: v as u32, refcount: 0 }),
                                    ),
                                    ..old(sys)@.pools
                                },
                            ),
                            proc_id,
                            slot_for_cap,
                            Cap {
                                badge: 0,
                                parent: parent_id,
                                generation: old(sys)@.gens[proc_id as int][slot_for_cap as int] as u32,
                                pool_index: i,
                                kind: ObjectKind::Socket,
                                rights: (CAP_RIGHT_READ | CAP_RIGHT_WRITE) as u8,
                            },
                        )
                    }
                }
            },
        },
        refcounts_consistent(old(sys)@) && old(sys)@.slots[proc_id as int][slot_for_cap as int].kind
            == ObjectKind::Empty ==> refcounts_consistent(final(sys)@),
{
    let v = match driver {
        Ok(v) => v,
        Err(_) => return SocketCreateStep::Return(E_NOMEM),
    };
    if v < 0 {
        return SocketCreateStep::Return(v);
    }
    let handle = v as u32;
    let ghost pre = sys@;
    let idx = match sys.pools.sockets.allocate(Socket::new(net_pool, handle)) {
        Ok(i) => i,
        Err(_) => return SocketCreateStep::RollBack { handle },
    };
    let ghost mid = sys@;
    assert(mid == with_pools(
        pre,
        crate::cap::objects::PoolsView {
            sockets: pre.pools.sockets.update(
                idx as int,
                Some(Socket { net_pool_idx: net_pool, smoltcp_handle: handle, refcount: 0 }),
            ),
            ..pre.pools
        },
    ));
    let tg = sys.gen(proc_id, slot_for_cap);
    let cap = Cap {
        badge: 0,
        parent: parent_id,
        generation: tg as u32,
        pool_index: idx,
        kind: ObjectKind::Socket,
        rights: CAP_RIGHT_READ | CAP_RIGHT_WRITE,
    };
    sys.set_slot(proc_id, slot_for_cap, cap);
    sys.pools.inc_refcount(ObjectKind::Socket, idx);
    assert(sys@ == install_state(mid, proc_id, slot_for_cap, cap));
    proof {
        if refcounts_consistent(pre) && pre.slots[proc_id as int][slot_for_cap as int].kind == ObjectKind::Empty {
            crate::cap::revoke::lemma_view_wf(&*old(sys));
            lemma_new_socket_keeps_refcounts(
                pre,
                idx,
                Socket { net_pool_idx: net_pool, smoltcp_handle: handle, refcount: 0 },
                proc_id,
                slot_for_cap,
                cap,
            );
        }
    }
    SocketCreateStep::Return(0)
}

/// The driver-side handle `wari::net_socket_close` releases: the slot
/// must hold a Socket cap (of any rights) naming a live Socket record.
pub open spec fn socket_close_check_spec(v: SysView, p: u8, slot: u32) -> Result<u32, i32> {
    if p >= MAX_PROCS || slot >= 256 {
        Err(E_INVAL)
    } else {
        let c = v.slots[p as int][slot as int];
        if c.kind != ObjectKind::Socket {
            Err(E_PERM)
        } else if !(c.pool_index < v.pools.sockets.len() && v.pools.sockets[c.pool_index as int] is Some) {
            Err(E_INVAL)
        } else {
            Ok(v.pools.sockets[c.pool_index as int]->Some_0.smoltcp_handle)
        }
    }
}

/// Check a `wari::net_socket_close` request and return the driver
/// handle to release.
pub fn socket_close_check(sys: &CapSystem, proc_id: u8, slot: u32) -> (r: Result<u32, i32>)
    requires
        sys.wf(),
    ensures
        r == socket_close_check_spec(sys@, proc_id, slot),
{
    if proc_id as usize >= MAX_PROCS {
        return Err(E_INVAL);
    }
    if slot >= 256 {
        return Err(E_INVAL);
    }
    let cap = sys.slot(proc_id, slot as u8);
    match cap.kind {
        ObjectKind::Socket => {},
        _ => return Err(E_PERM),
    }
    match sys.pools.sockets.get(cap.pool_index) {
        Some(s) => Ok(s.smoltcp_handle),
        None => Err(E_INVAL),
    }
}

/// Finish `wari::net_socket_close` after the driver released the socket
/// with result `driver_rc`: the cap is cleared, the slot's generation
/// advances (wrapping), the Socket reference is dropped, and the
/// driver's result is returned.
pub fn socket_close_finish(sys: &mut CapSystem, proc_id: u8, slot: u8, driver_rc: i32) -> (r: i32)
    requires
        old(sys).wf(),
        proc_id < MAX_PROCS,
    ensures
        final(sys).wf(),
        r == driver_rc,
        ({
            let c = old(sys)@.slots[proc_id as int][slot as int];
            let g = old(sys)@.gens[proc_id as int][slot as int];
            final(sys)@ == with_pools(
                with_gen(
                    with_slot(old(sys)@, proc_id as int, slot as int, empty_cap()),
                    proc_id as int,
                    slot as int,
                    (if g == u16::MAX {
                        0
                    } else {
                        g + 1
                    }) as u16,
                ),
                pools_dec(old(sys)@.pools, c.kind, c.pool_index),
            )
        }),
        refcounts_consistent(old(sys)@) ==> refcounts_consistent(final(sys)@),
{
    let ghost pre = sys@;
    proof {
        crate::cap::revoke::lemma_view_wf(sys);
        if refcounts_consistent(pre) {
            lemma_vacate_keeps_refcounts(pre, proc_id, slot);
        }
    }
    let c = sys.slot(proc_id, slot);
    sys.set_slot(proc_id, slot, Cap::empty());
    let g = sys.gen(proc_id, slot);
    sys.set_gen(proc_id, slot, g.wrapping_add(1));
    sys.pools.dec_refcount(c.kind, c.pool_index);
    proof {
        lemma_consistency_by_parts(sys@, vacate_state(pre, proc_id, slot, c));
    }
    if driver_rc != 0 {
        driver_rc
    } else {
        0
    }
}

} // verus!
