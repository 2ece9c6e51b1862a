//! Synchronous seL4-style IPC: the 40-byte message wire format, the
//! rendezvous decision table, and the kernel-side mechanism of send,
//! call, receive and reply (endpoint cap checks, wait queues, blocking,
//! waking and message delivery). Reading and writing a tenant's linear
//! memory is left to the runtime.

use vstd::prelude::*;
use vstd::bytes::{spec_u64_to_le_bytes, spec_u64_from_le_bytes, u64_from_le_bytes, lemma_auto_spec_u64_to_from_le_bytes};
use crate::sched::{MsgRegs, Scheduler, Process, ProcessState, BlockReason};
use crate::tier1::{Tier1Table, Tier1Slot};
use crate::cap::types::{ObjectKind, CAP_RIGHT_READ, CAP_RIGHT_WRITE};
use crate::cap::cspace::MAX_PROCS;
use crate::cap::objects::{Endpoint, PoolsView};
use crate::cap::storage::{CapSystem, SysView, with_pools};
use crate::cap::syscall::{check_cap, check_cap_spec, E_AGAIN, E_INVAL, E_PERM};

verus! {

/// Bytes of one message on the wire.
pub const MSG_BYTES: usize = 40;

/// The wire form of a message: the badge then the four words, each a
/// little-endian `u64`.
pub open spec fn msg_wire(m: MsgRegs) -> Seq<u8> {
    spec_u64_to_le_bytes(m.badge) + spec_u64_to_le_bytes(m.words@[0]) + spec_u64_to_le_bytes(m.words@[1])
        + spec_u64_to_le_bytes(m.words@[2]) + spec_u64_to_le_bytes(m.words@[3])
}

/// The `u64` stored little-endian at `b[off..off + 8]`.
pub open spec fn le_u64_at(b: Seq<u8>, off: int) -> u64 {
    spec_u64_from_le_bytes(b.subrange(off, off + 8))
}

/// `m` is the message decoded from the 40 bytes `b`.
pub open spec fn decodes_to(b: Seq<u8>, m: MsgRegs) -> bool {
    &&& m.badge == le_u64_at(b, 0)
    &&& forall|i: int| 0 <= i < 4 ==> #[trigger] m.words@[i] == le_u64_at(b, 8 + 8 * i)
}

/// Write `x` little-endian at `out[off..off + 8]`.
fn put_u64_le(out: &mut [u8; 40], off: usize, x: u64)
    requires
        off + 8 <= 40,
    ensures
        final(out)@ == old(out)@.subrange(0, off as int) + spec_u64_to_le_bytes(x) + old(out)@.subrange(
            off as int + 8,
            40,
        ),
{
    proof {
        vstd::bytes::spec_u64_to_le_bytes_to_open(x);
    }
    out[off] = (x & 0xff) as u8;
    out[off + 1] = ((x >> 8) & 0xff) as u8;
    out[off + 2] = ((x >> 16) & 0xff) as u8;
    out[off + 3] = ((x >> 24) & 0xff) as u8;
    out[off + 4] = ((x >> 32) & 0xff) as u8;
    out[off + 5] = ((x >> 40) & 0xff) as u8;
    out[off + 6] = ((x >> 48) & 0xff) as u8;
    out[off + 7] = ((x >> 56) & 0xff) as u8;
    assert(out@ =~= old(out)@.subrange(0, off as int) + spec_u64_to_le_bytes(x) + old(out)@.subrange(
        off as int + 8,
        40,
    ));
}

/// Encode a message into its 40-byte wire form.
pub fn encode_msg(regs: &MsgRegs) -> (r: [u8; 40])
    ensures
        r@ == msg_wire(*regs),
{
    let mut out = [0u8; 40];
    put_u64_le(&mut out, 0, regs.badge);
    put_u64_le(&mut out, 8, regs.words[0]);
    put_u64_le(&mut out, 16, regs.words[1]);
    put_u64_le(&mut out, 24, regs.words[2]);
    put_u64_le(&mut out, 32, regs.words[3]);
    proof {
        lemma_auto_spec_u64_to_from_le_bytes();
    }
    assert(out@ =~= msg_wire(*regs));
    out
}

/// Decode a 40-byte wire message.
pub fn decode_msg(buf: &[u8; 40]) -> (r: MsgRegs)
    ensures
        decodes_to(buf@, r),
{
    let s = buf.as_slice();
    let badge = u64_from_le_bytes(vstd::slice::slice_subrange(s, 0, 8));
    let mut words = [0u64; 4];
    let mut i: usize = 0;
    while i < 4
        invariant
            i <= 4,
            s@ == buf@,
            forall|j: int| 0 <= j < i ==> #[trigger] words@[j] == le_u64_at(buf@, 8 + 8 * j),
        decreases 4 - i,
    {
        let o = 8 + i * 8;
        words[i] = u64_from_le_bytes(vstd::slice::slice_subrange(s, o, o + 8));
        i = i + 1;
    }
    MsgRegs { badge, words }
}

/// Decoding an encoded message gives the message back.
pub proof fn lemma_msg_round_trip(m: MsgRegs, b: Seq<u8>, d: MsgRegs)
    requires
        b == msg_wire(m),
        decodes_to(b, d),
    ensures
        d.badge == m.badge,
        d.words@ == m.words@,
{
    lemma_auto_spec_u64_to_from_le_bytes();
    let l0 = spec_u64_to_le_bytes(m.badge);
    let l1 = spec_u64_to_le_bytes(m.words@[0]);
    let l2 = spec_u64_to_le_bytes(m.words@[1]);
    let l3 = spec_u64_to_le_bytes(m.words@[2]);
    let l4 = spec_u64_to_le_bytes(m.words@[3]);
    assert(b.subrange(0, 8) =~= l0);
    assert(b.subrange(8, 16) =~= l1);
    assert(b.subrange(16, 24) =~= l2);
    assert(b.subrange(24, 32) =~= l3);
    assert(b.subrange(32, 40) =~= l4);
    assert(d.words@[0] == le_u64_at(b, 8 + 8 * (0 as int)));
    assert(d.words@[1] == le_u64_at(b, 8 + 8 * (1 as int)));
    assert(d.words@[2] == le_u64_at(b, 8 + 8 * (2 as int)));
    assert(d.words@[3] == le_u64_at(b, 8 + 8 * (3 as int)));
    assert(d.words@ =~= m.words@);
}

/// An IPC operation.
#[derive(Debug, Clone, Copy, PartialEq, Eq, Structural)]
pub enum Op {
    /// Deliver a message; block only if no receiver waits.
    Send,
    /// Deliver a message and wait for the reply.
    Call,
    /// Take a message; block if no sender waits.
    Recv,
    /// Answer the caller waiting for a reply.
    Reply,
}

/// What the caller does after a rendezvous.
#[derive(Debug, Clone, Copy, PartialEq, Eq, Structural)]
pub enum CallerNext {
    /// Return to the caller at once.
    Continue,
    /// Block the caller for the given reason.
    Block(BlockReason),
}

/// The rendezvous decision for one operation.
#[derive(Debug, Clone, Copy, PartialEq, Eq, Structural)]
pub enum Outcome {
    /// A peer is waiting: pair with it.
    Rendezvous { caller: CallerNext },
    /// No peer: queue the caller and block it.
    Enqueue { block: BlockReason },
    /// The operation cannot proceed.
    Invalid,
}

/// The rendezvous decision table.
pub open spec fn resolve_spec(op: Op, peer_waiting: bool) -> Outcome {
    match op {
        Op::Send => if peer_waiting {
            Outcome::Rendezvous { caller: CallerNext::Continue }
        } else {
            Outcome::Enqueue { block: BlockReason::SendWait }
        },
        Op::Call => if peer_waiting {
            Outcome::Rendezvous { caller: CallerNext::Block(BlockReason::ReplyWait) }
        } else {
            Outcome::Enqueue { block: BlockReason::CallWait }
        },
        Op::Recv => if peer_waiting {
            Outcome::Rendezvous { caller: CallerNext::Continue }
        } else {
            Outcome::Enqueue { block: BlockReason::RecvWait }
        },
        Op::Reply => if peer_waiting {
            Outcome::Rendezvous { caller: CallerNext::Continue }
        } else {
            Outcome::Invalid
        },
    }
}

/// Decide what an operation does given whether a peer is waiting.
pub fn resolve(op: Op, peer_waiting: bool) -> (r: Outcome)
    ensures
        r == resolve_spec(op, peer_waiting),
{
    match op {
        Op::Send => if peer_waiting {
            Outcome::Rendezvous { caller: CallerNext::Continue }
        } else {
            Outcome::Enqueue { block: BlockReason::SendWait }
        },
        Op::Call => if peer_waiting {
            Outcome::Rendezvous { caller: CallerNext::Block(BlockReason::ReplyWait) }
        } else {
            Outcome::Enqueue { block: BlockReason::CallWait }
        },
        Op::Recv => if peer_waiting {
            Outcome::Rendezvous { caller: CallerNext::Continue }
        } else {
            Outcome::Enqueue { block: BlockReason::RecvWait }
        },
        Op::Reply => if peer_waiting {
            Outcome::Rendezvous { caller: CallerNext::Continue }
        } else {
            Outcome::Invalid
        },
    }
}

/// The endpoint named by the Endpoint cap at `slot`, which must carry
/// `rights`; the errno otherwise.
pub open spec fn endpoint_of(v: SysView, p: u8, slot: u32, rights: u8) -> Result<u16, i32> {
    if slot >= 256 {
        Err(E_INVAL)
    } else {
        match check_cap_spec(v, p, slot as u8, ObjectKind::Endpoint, rights) {
            Err(e) => Err(e),
            Ok(_) => Ok(v.slots[p as int][slot as int].pool_index),
        }
    }
}

/// Resolve the caller's Endpoint cap at `slot` (WRITE to deliver into
/// an endpoint, READ to take from it) to the endpoint's pool index.
pub fn resolve_endpoint(sys: &CapSystem, proc_id: u8, slot: u32, required_rights: u8) -> (r: Result<
    u16,
    i32,
>)
    requires
        sys.wf(),
    ensures
        r == endpoint_of(sys@, proc_id, slot, required_rights),
{
    if slot >= 256 {
        return Err(E_INVAL);
    }
    match check_cap(sys, proc_id, slot as u8, ObjectKind::Endpoint, required_rights) {
        Err(e) => Err(e),
        Ok(()) => Ok(sys.slot(proc_id, slot as u8).pool_index),
    }
}

/// The table with process `p`'s message registers set to `m`.
pub open spec fn with_msg(ps: Seq<Option<Process>>, p: int, m: MsgRegs) -> Seq<Option<Process>> {
    if 0 <= p < ps.len() && ps[p] is Some {
        ps.update(p, Some(Process { msg_regs: m, ..ps[p]->Some_0 }))
    } else {
        ps
    }
}

/// The table with process `p` woken if it was blocked.
pub open spec fn woken(ps: Seq<Option<Process>>, p: int) -> Seq<Option<Process>> {
    if 0 <= p < ps.len() && ps[p] is Some && ps[p]->Some_0.state is Blocked {
        ps.update(p, Some(Process { state: ProcessState::Ready, ..ps[p]->Some_0 }))
    } else {
        ps
    }
}

/// The table with process `p` blocked on `ep` for `reason`, recording
/// `msg_ptr` as its message buffer.
pub open spec fn blocked(ps: Seq<Option<Process>>, p: int, reason: BlockReason, ep: u8, msg_ptr: u32) -> Seq<
    Option<Process>,
> {
    if 0 <= p < ps.len() && ps[p] is Some {
        ps.update(
            p,
            Some(
                Process {
                    msg_buf: msg_ptr,
                    state: ProcessState::Blocked { reason, ep_idx: ep },
                    ..ps[p]->Some_0
                },
            ),
        )
    } else {
        ps
    }
}

/// The pool table with process `p`'s resume value set to `rc`.
pub open spec fn with_resume(ts: Seq<Option<Tier1Slot>>, p: int, rc: i32) -> Seq<Option<Tier1Slot>> {
    if 0 <= p < ts.len() && ts[p] is Some {
        ts.update(p, Some(Tier1Slot { pending_resume: rc, ..ts[p]->Some_0 }))
    } else {
        ts
    }
}

/// Endpoint `ep` exists before and after, keeps its reference count,
/// and now has the given queues; nothing else in the pools changed.
pub open spec fn ep_queues_now(pre: PoolsView, post: PoolsView, ep: int, senders: Seq<u8>, receivers: Seq<u8>) -> bool {
    &&& 0 <= ep < pre.endpoints.len()
    &&& pre.endpoints[ep] is Some
    &&& post.endpoints[ep] is Some
    &&& post == PoolsView { endpoints: pre.endpoints.update(ep, post.endpoints[ep]), ..pre }
    &&& post.endpoints[ep]->Some_0.refcount == pre.endpoints[ep]->Some_0.refcount
    &&& post.endpoints[ep]->Some_0.senders@ == senders
    &&& post.endpoints[ep]->Some_0.receivers@ == receivers
}

/// Wake blocked peer `peer` with syscall result `rc`, first delivering
/// `msg` (if any) into its message registers.
pub fn deliver_and_wake(sched: &mut Scheduler, t1: &mut Tier1Table, peer: u8, msg: Option<MsgRegs>, rc: i32)
    requires
        old(sched).wf(),
        old(t1).wf(),
    ensures
        final(sched).wf(),
        final(t1).wf(),
        final(sched).procs@ == woken(
            match msg {
                Some(m) => with_msg(old(sched).procs@, peer as int, m),
                None => old(sched).procs@,
            },
            peer as int,
        ),
        final(t1).slots@ == with_resume(old(t1).slots@, peer as int, rc),
{
    if peer as usize >= MAX_PROCS {
        return;
    }
    match msg {
        Some(m) => match sched.procs[peer as usize] {
            Some(p) => {
                let mut p2 = p;
                p2.msg_regs = m;
                sched.procs.set(peer as usize, Some(p2));
            },
            None => {},
        },
        None => {},
    }
    let _ = t1.set_resume_value(peer, rc);
    let _ = sched.wake(peer);
}

/// Block process `proc_id` on endpoint `ep_idx` for `reason`, recording
/// where a message delivered to it must be written on resume.
pub fn block_proc(sched: &mut Scheduler, proc_id: u8, reason: BlockReason, ep_idx: u16, msg_ptr: u32)
    requires
        old(sched).wf(),
        ep_idx < 256,
    ensures
        final(sched).wf(),
        final(sched).procs@ == blocked(old(sched).procs@, proc_id as int, reason, ep_idx as u8, msg_ptr),
{
    if proc_id as usize >= MAX_PROCS {
        return;
    }
    match sched.procs[proc_id as usize] {
        Some(p) => {
            let mut p2 = p;
            p2.msg_buf = msg_ptr;
            p2.block(reason, ep_idx as u8);
            sched.procs.set(proc_id as usize, Some(p2));
        },
        None => {},
    }
}

/// Is process entry `e` waiting for a reply on endpoint `ep`?
pub open spec fn awaits_reply_on(e: Option<Process>, ep: u16) -> bool {
    e matches Some(p) && p.state == (ProcessState::Blocked { reason: BlockReason::ReplyWait, ep_idx: p.state->ep_idx })
        && p.state->ep_idx as u16 == ep
}

/// The lowest process id at or after `i` awaiting a reply on `ep`.
pub open spec fn first_reply_waiter(ps: Seq<Option<Process>>, ep: u16, i: int) -> Option<u8>
    decreases ps.len() - i,
{
    if i < 0 || i >= ps.len() {
        None
    } else if awaits_reply_on(ps[i], ep) {
        Some(i as u8)
    } else {
        first_reply_waiter(ps, ep, i + 1)
    }
}

/// Process entry `e` is blocked awaiting a reply on endpoint `ep`.
pub open spec fn blocked_for_reply(e: Option<Process>, ep: u16) -> bool {
    e matches Some(pr) && (pr.state matches ProcessState::Blocked { reason: BlockReason::ReplyWait, ep_idx: x }
        && x as u16 == ep)
}

/// A reply on endpoint `ep` goes to the lowest process id blocked
/// awaiting a reply on that same endpoint, and to nobody when none is:
/// a caller waiting on another endpoint is never chosen.
pub proof fn lemma_reply_goes_to_its_caller(ps: Seq<Option<Process>>, ep: u16, i: int)
    requires
        0 <= i,
        ps.len() <= 256,
    ensures
        first_reply_waiter(ps, ep, i) matches Some(p) ==> i <= p < ps.len() && blocked_for_reply(ps[p as int], ep)
            && forall|q: int| i <= q < p ==> !blocked_for_reply(#[trigger] ps[q], ep),
        first_reply_waiter(ps, ep, i) is None ==> forall|q: int| i <= q < ps.len() ==> !blocked_for_reply(
            #[trigger] ps[q],
            ep,
        ),
    decreases ps.len() - i,
{
    if i < ps.len() {
        lemma_reply_goes_to_its_caller(ps, ep, i + 1);
    }
}

/// The lowest process id blocked awaiting a reply on endpoint `ep_idx`.
pub fn reply_waiter_on(sched: &Scheduler, ep_idx: u16) -> (r: Option<u8>)
    requires
        sched.wf(),
    ensures
        r == first_reply_waiter(sched.procs@, ep_idx, 0),
        r matches Some(p) ==> p < MAX_PROCS && (sched.procs@[p as int] matches Some(pr) && (pr.state matches ProcessState::Blocked {
            reason: BlockReason::ReplyWait,
            ep_idx: e,
        } && e as u16 == ep_idx)),
        r matches Some(p) ==> forall|q: int| 0 <= q < p ==> !(#[trigger] sched.procs@[q] matches Some(pr) && (pr.state matches ProcessState::Blocked {
            reason: BlockReason::ReplyWait,
            ep_idx: e,
        } && e as u16 == ep_idx)),
        r is None ==> forall|q: int| 0 <= q < MAX_PROCS ==> !(#[trigger] sched.procs@[q] matches Some(pr) && (pr.state matches ProcessState::Blocked {
            reason: BlockReason::ReplyWait,
            ep_idx: e,
        } && e as u16 == ep_idx)),
{
    let mut i: usize = 0;
    while i < MAX_PROCS
        invariant
            sched.wf(),
            i <= MAX_PROCS,
            first_reply_waiter(sched.procs@, ep_idx, 0) == first_reply_waiter(sched.procs@, ep_idx, i as int),
            forall|q: int| 0 <= q < i ==> !(#[trigger] sched.procs@[q] matches Some(pr) && (pr.state matches ProcessState::Blocked {
                reason: BlockReason::ReplyWait,
                ep_idx: e,
            } && e as u16 == ep_idx)),
        decreases MAX_PROCS - i,
    {
        match sched.procs[i] {
            Some(p) => match p.state {
                ProcessState::Blocked { reason: BlockReason::ReplyWait, ep_idx: e } => {
                    if e as u16 == ep_idx {
                        return Some(i as u8);
                    }
                },
                _ => {},
            },
            None => {},
        }
        i = i + 1;
    }
    None
}

/// The result of a kernel-side IPC step.
#[derive(Debug, Clone, Copy, PartialEq, Eq, Structural)]
pub enum IpcStep {
    /// Return this value to the caller.
    Return(i32),
    /// The caller is now blocked: suspend it.
    Block,
}

/// The receiver queued on endpoint `ep`, if any.
pub open spec fn front_receiver(v: PoolsView, ep: u16) -> Option<u8> {
    if ep < v.endpoints.len() && v.endpoints[ep as int] is Some && v.endpoints[ep as int]->Some_0.receivers@.len()
        > 0 {
        Some(v.endpoints[ep as int]->Some_0.receivers@[0])
    } else {
        None
    }
}

/// The sender queued on endpoint `ep`, if any.
pub open spec fn front_sender(v: PoolsView, ep: u16) -> Option<u8> {
    if ep < v.endpoints.len() && v.endpoints[ep as int] is Some && v.endpoints[ep as int]->Some_0.senders@.len()
        > 0 {
        Some(v.endpoints[ep as int]->Some_0.senders@[0])
    } else {
        None
    }
}

/// Can a process be appended to a queue of endpoint `ep`?
pub open spec fn can_enqueue(q: Seq<u8>) -> bool {
    q.len() < 16
}

/// Pop the front of one wait queue of endpoint `ep_idx`.
fn pop_queue(sys: &mut CapSystem, ep_idx: u16, senders: bool) -> (r: Option<u8>)
    requires
        old(sys).wf(),
    ensures
        final(sys).wf(),
        r == if senders {
            front_sender(old(sys)@.pools, ep_idx)
        } else {
            front_receiver(old(sys)@.pools, ep_idx)
        },
        r is None ==> final(sys)@ == old(sys)@,
        r is Some ==> final(sys)@ == with_pools(old(sys)@, final(sys)@.pools) && {
            let e = old(sys)@.pools.endpoints[ep_idx as int]->Some_0;
            if senders {
                ep_queues_now(old(sys)@.pools, final(sys)@.pools, ep_idx as int, e.senders@.drop_first(), e.receivers@)
            } else {
                ep_queues_now(old(sys)@.pools, final(sys)@.pools, ep_idx as int, e.senders@, e.receivers@.drop_first())
            }
        },
{
    let e: Endpoint = match sys.pools.endpoints.get(ep_idx) {
        Some(e) => *e,
        None => return None,
    };
    let mut e2 = e;
    let r = if senders {
        e2.senders.pop()
    } else {
        e2.receivers.pop()
    };
    if r.is_some() {
        let ghost pre = sys@;
        sys.pools.endpoints.put(ep_idx, e2);
        assert(sys@.pools.endpoints[ep_idx as int] == Some(e2));
        assert(sys@.pools.endpoints =~= pre.pools.endpoints.update(ep_idx as int, sys@.pools.endpoints[ep_idx as int]));
    }
    r
}

/// Append `pid` to one wait queue of endpoint `ep_idx`; `false` (and
/// no change) when the endpoint is missing or the queue full.
fn push_queue(sys: &mut CapSystem, ep_idx: u16, senders: bool, pid: u8) -> (r: bool)
    requires
        old(sys).wf(),
    ensures
        final(sys).wf(),
        ({
            let pv = old(sys)@.pools;
            let exists_ep = ep_idx < pv.endpoints.len() && pv.endpoints[ep_idx as int] is Some;
            let e = pv.endpoints[ep_idx as int]->Some_0;
            let q = if senders {
                e.senders@
            } else {
                e.receivers@
            };
            &&& r == (exists_ep && can_enqueue(q))
            &&& !r ==> final(sys)@ == old(sys)@
            &&& r ==> final(sys)@ == with_pools(old(sys)@, final(sys)@.pools) && if senders {
                ep_queues_now(pv, final(sys)@.pools, ep_idx as int, e.senders@.push(pid), e.receivers@)
            } else {
                ep_queues_now(pv, final(sys)@.pools, ep_idx as int, e.senders@, e.receivers@.push(pid))
            }
        }),
{
    let e: Endpoint = match sys.pools.endpoints.get(ep_idx) {
        Some(e) => *e,
        None => return false,
    };
    let mut e2 = e;
    let ok = if senders {
        e2.senders.push(pid).is_ok()
    } else {
        e2.receivers.push(pid).is_ok()
    };
    if ok {
        let ghost pre = sys@;
        sys.pools.endpoints.put(ep_idx, e2);
        assert(sys@.pools.endpoints =~= pre.pools.endpoints.update(ep_idx as int, sys@.pools.endpoints[ep_idx as int]));
    }
    ok
}

/// The reason a caller blocks when no peer is waiting.
pub open spec fn enqueue_reason(op: Op) -> BlockReason {
    match op {
        Op::Send => BlockReason::SendWait,
        Op::Call => BlockReason::CallWait,
        _ => BlockReason::RecvWait,
    }
}

/// The kernel side of `wari::ipc_send` / `wari::ipc_call` on endpoint
/// `ep_idx` with the message `msg` already read from the caller. The
/// message is first stashed in the caller's registers. If a receiver is
/// queued it is dequeued, handed the message and woken with result 0;
/// a send then returns 0 while a call blocks awaiting the reply.
/// Otherwise the caller is queued as a sender and blocked, or gets
/// `E_AGAIN` when the queue is full.
pub fn send_like(
    sys: &mut CapSystem,
    sched: &mut Scheduler,
    t1: &mut Tier1Table,
    proc_id: u8,
    ep_idx: u16,
    msg_ptr: u32,
    msg: MsgRegs,
    op: Op,
) -> (r: IpcStep)
    requires
        old(sys).wf(),
        old(sched).wf(),
        old(t1).wf(),
        proc_id < MAX_PROCS,
        ep_idx < 256,
        op == Op::Send || op == Op::Call,
    ensures
        final(sys).wf(),
        final(sched).wf(),
        final(t1).wf(),
        ({
            let pv = old(sys)@.pools;
            let e = pv.endpoints[ep_idx as int]->Some_0;
            let ps1 = with_msg(old(sched).procs@, proc_id as int, msg);
            match front_receiver(pv, ep_idx) {
                Some(rx) => {
                    let ps2 = woken(with_msg(ps1, rx as int, msg), rx as int);
                    &&& final(sys)@ == with_pools(old(sys)@, final(sys)@.pools)
                    &&& ep_queues_now(pv, final(sys)@.pools, ep_idx as int, e.senders@, e.receivers@.drop_first())
                    &&& final(t1).slots@ == with_resume(old(t1).slots@, rx as int, 0)
                    &&& op == Op::Send ==> r == IpcStep::Return(0) && final(sched).procs@ == ps2
                    &&& op == Op::Call ==> r == IpcStep::Block && final(sched).procs@ == blocked(
                        ps2,
                        proc_id as int,
                        BlockReason::ReplyWait,
                        ep_idx as u8,
                        msg_ptr,
                    )
                },
                None => {
                    &&& final(t1).slots@ == old(t1).slots@
                    &&& if ep_idx < pv.endpoints.len() && pv.endpoints[ep_idx as int] is Some && can_enqueue(
                        e.senders@,
                    ) {
                        &&& r == IpcStep::Block
                        &&& final(sys)@ == with_pools(old(sys)@, final(sys)@.pools)
                        &&& ep_queues_now(pv, final(sys)@.pools, ep_idx as int, e.senders@.push(proc_id), e.receivers@)
                        &&& final(sched).procs@ == blocked(ps1, proc_id as int, enqueue_reason(op), ep_idx as u8, msg_ptr)
                    } else {
                        &&& r == IpcStep::Return(E_AGAIN)
                        &&& final(sys)@ == old(sys)@
                        &&& final(sched).procs@ == ps1
                    }
                },
            }
        }),
{
    match sched.procs[proc_id as usize] {
        Some(p) => {
            let mut p2 = p;
            p2.msg_regs = msg;
            sched.procs.set(proc_id as usize, Some(p2));
        },
        None => {},
    }
    let peer = pop_queue(sys, ep_idx, false);
    match resolve(op, peer.is_some()) {
        Outcome::Rendezvous { caller: next } => {
            let rx = match peer {
                Some(t) => t,
                None => return IpcStep::Return(E_AGAIN),
            };
            deliver_and_wake(sched, t1, rx, Some(msg), 0);
            match next {
                CallerNext::Continue => IpcStep::Return(0),
                CallerNext::Block(reason) => {
                    block_proc(sched, proc_id, reason, ep_idx, msg_ptr);
                    IpcStep::Block
                },
            }
        },
        Outcome::Enqueue { block } => {
            if !push_queue(sys, ep_idx, true, proc_id) {
                return IpcStep::Return(E_AGAIN);
            }
            block_proc(sched, proc_id, block, ep_idx, msg_ptr);
            IpcStep::Block
        },
        Outcome::Invalid => IpcStep::Return(E_INVAL),
    }
}

/// The result of the first half of `wari::ipc_recv`.
#[derive(Debug, Clone, Copy)]
pub enum RecvStep {
    /// Sender `tx` was dequeued; write `msg` into the caller's memory,
    /// then finish with `recv_complete`.
    Message { tx: u8, msg: MsgRegs },
    /// The caller is now blocked: suspend it.
    Block,
    /// Return this value to the caller.
    Return(i32),
}

/// The kernel side of `wari::ipc_recv` on endpoint `ep_idx`. If a
/// sender is queued it is dequeued and its stashed message returned;
/// otherwise the caller is queued as a receiver and blocked, or gets
/// `E_AGAIN` when the queue is full.
pub fn recv_take(sys: &mut CapSystem, sched: &mut Scheduler, proc_id: u8, ep_idx: u16, msg_ptr: u32) -> (r:
    RecvStep)
    requires
        old(sys).wf(),
        old(sched).wf(),
        proc_id < MAX_PROCS,
        ep_idx < 256,
    ensures
        final(sys).wf(),
        final(sched).wf(),
        ({
            let pv = old(sys)@.pools;
            let e = pv.endpoints[ep_idx as int]->Some_0;
            match front_sender(pv, ep_idx) {
                Some(tx) => {
                    &&& final(sys)@ == with_pools(old(sys)@, final(sys)@.pools)
                    &&& ep_queues_now(pv, final(sys)@.pools, ep_idx as int, e.senders@.drop_first(), e.receivers@)
                    &&& final(sched).procs@ == old(sched).procs@
                    &&& match if tx < MAX_PROCS {
                        old(sched).procs@[tx as int]
                    } else {
                        None
                    } {
                        Some(p) => r matches RecvStep::Message { tx: t, msg } && t == tx && msg == p.msg_regs,
                        None => r matches RecvStep::Return(x) && x == E_PERM,
                    }
                },
                None => if ep_idx < pv.endpoints.len() && pv.endpoints[ep_idx as int] is Some && can_enqueue(
                    e.receivers@,
                ) {
                    &&& r is Block
                    &&& final(sys)@ == with_pools(old(sys)@, final(sys)@.pools)
                    &&& ep_queues_now(pv, final(sys)@.pools, ep_idx as int, e.senders@, e.receivers@.push(proc_id))
                    &&& final(sched).procs@ == blocked(
                        old(sched).procs@,
                        proc_id as int,
                        BlockReason::RecvWait,
                        ep_idx as u8,
                        msg_ptr,
                    )
                } else {
                    &&& r matches RecvStep::Return(x) && x == E_AGAIN
                    &&& final(sys)@ == old(sys)@
                    &&& final(sched).procs@ == old(sched).procs@
                },
            }
        }),
{
    let peer = pop_queue(sys, ep_idx, true);
    match resolve(Op::Recv, peer.is_some()) {
        Outcome::Rendezvous { .. } => {
            let tx = match peer {
                Some(t) => t,
                None => return RecvStep::Return(E_AGAIN),
            };
            if tx as usize >= MAX_PROCS {
                return RecvStep::Return(E_PERM);
            }
            match sched.procs[tx as usize] {
                Some(p) => RecvStep::Message { tx, msg: p.msg_regs },
                None => RecvStep::Return(E_PERM),
            }
        },
        Outcome::Enqueue { block } => {
            if !push_queue(sys, ep_idx, false, proc_id) {
                return RecvStep::Return(E_AGAIN);
            }
            block_proc(sched, proc_id, block, ep_idx, msg_ptr);
            RecvStep::Block
        },
        Outcome::Invalid => RecvStep::Return(E_INVAL),
    }
}

/// Finish `wari::ipc_recv` once the message of sender `tx` reached the
/// receiver: a caller waiting on `ep` is moved on to await the reply; a
/// plain sender is woken with result 0.
pub fn recv_complete(sched: &mut Scheduler, t1: &mut Tier1Table, tx: u8)
    requires
        old(sched).wf(),
        old(t1).wf(),
    ensures
        final(sched).wf(),
        final(t1).wf(),
        ({
            let e = if tx < MAX_PROCS {
                old(sched).procs@[tx as int]
            } else {
                None
            };
            match e {
                Some(p) => match p.state {
                    ProcessState::Blocked { reason: BlockReason::CallWait, ep_idx: ep } => {
                        &&& final(sched).procs@ == old(sched).procs@.update(
                            tx as int,
                            Some(
                                Process {
                                    state: ProcessState::Blocked { reason: BlockReason::ReplyWait, ep_idx: ep },
                                    ..p
                                },
                            ),
                        )
                        &&& final(t1).slots@ == old(t1).slots@
                    },
                    _ => {
                        &&& final(sched).procs@ == woken(old(sched).procs@, tx as int)
                        &&& final(t1).slots@ == with_resume(old(t1).slots@, tx as int, 0)
                    },
                },
                None => {
                    &&& final(sched).procs@ == woken(old(sched).procs@, tx as int)
                    &&& final(t1).slots@ == with_resume(old(t1).slots@, tx as int, 0)
                },
            }
        }),
{
    if tx as usize >= MAX_PROCS {
        deliver_and_wake(sched, t1, tx, None, 0);
        return;
    }
    match sched.procs[tx as usize] {
        Some(p) => match p.state {
            ProcessState::Blocked { reason: BlockReason::CallWait, ep_idx: e } => {
                let mut p2 = p;
                p2.block(BlockReason::ReplyWait, e);
                sched.procs.set(tx as usize, Some(p2));
            },
            _ => deliver_and_wake(sched, t1, tx, None, 0),
        },
        None => deliver_and_wake(sched, t1, tx, None, 0),
    }
}

} // verus!
