//! The audit stream: a ring of the most recent records, each numbered in
//! emission order, read by observers at a cursor; the processes parked
//! waiting for the next record; and the wire form of a record as
//! observers read it (sequence number, kind code, two arguments, little
//! endian, 16 bytes).

use vstd::prelude::*;
use vstd::bytes::{
    spec_u16_to_le_bytes, spec_u32_to_le_bytes, spec_u64_to_le_bytes, u16_to_le_bytes, u32_to_le_bytes,
    u64_to_le_bytes,
};
use crate::modreg::{AuditEvent, EventKind};
use crate::guard::Event;
use crate::cap::cspace::MAX_PROCS;
use crate::sched::{is_blocked_entry, Process, ProcessState, Scheduler};
use crate::tier1::{Tier1Slot, Tier1Table};

verus! {

/// The stream code of an event kind, in declaration order.
pub open spec fn kind_code(k: EventKind) -> u16 {
    match k {
        EventKind::ModuleStaged => 0,
        EventKind::SpawnVerified => 1,
        EventKind::SpawnRejected => 2,
        EventKind::TenantExited => 3,
        EventKind::TenantFaulted => 4,
        EventKind::GrantAttenuated => 5,
        EventKind::DaemonRestarted => 6,
        EventKind::DaemonGaveUp => 7,
    }
}

/// The stream code of `k`.
pub fn code(k: EventKind) -> (r: u16)
    ensures
        r == kind_code(k),
{
    match k {
        EventKind::ModuleStaged => 0,
        EventKind::SpawnVerified => 1,
        EventKind::SpawnRejected => 2,
        EventKind::TenantExited => 3,
        EventKind::TenantFaulted => 4,
        EventKind::GrantAttenuated => 5,
        EventKind::DaemonRestarted => 6,
        EventKind::DaemonGaveUp => 7,
    }
}

/// The event kind with stream code `c`, if any.
pub fn kind_from_code(c: u16) -> (r: Option<EventKind>)
    ensures
        c < 8 <==> r is Some,
        r matches Some(k) ==> kind_code(k) == c,
{
    match c {
        0 => Some(EventKind::ModuleStaged),
        1 => Some(EventKind::SpawnVerified),
        2 => Some(EventKind::SpawnRejected),
        3 => Some(EventKind::TenantExited),
        4 => Some(EventKind::TenantFaulted),
        5 => Some(EventKind::GrantAttenuated),
        6 => Some(EventKind::DaemonRestarted),
        7 => Some(EventKind::DaemonGaveUp),
        _ => None,
    }
}

/// Stream codes and kinds correspond one to one.
pub proof fn lemma_kind_code_injective(x: EventKind, y: EventKind)
    ensures
        kind_code(x) == kind_code(y) ==> x == y,
        kind_code(x) < 8,
{
}

/// The 16 bytes of record number `seq` carrying `e`.
pub open spec fn record_wire(seq: u64, e: AuditEvent) -> Seq<u8> {
    spec_u64_to_le_bytes(seq) + spec_u16_to_le_bytes(kind_code(e.kind)) + spec_u16_to_le_bytes(e.a)
        + spec_u32_to_le_bytes(e.b)
}

/// Encode record number `seq` carrying `e`.
pub fn encode_record(seq: u64, e: &AuditEvent) -> (r: [u8; 16])
    ensures
        r@ == record_wire(seq, *e),
{
    let s = u64_to_le_bytes(seq);
    let k = u16_to_le_bytes(code(e.kind));
    let a = u16_to_le_bytes(e.a);
    let b = u32_to_le_bytes(e.b);
    proof {
        vstd::bytes::lemma_auto_spec_u64_to_from_le_bytes();
        vstd::bytes::lemma_auto_spec_u16_to_from_le_bytes();
        vstd::bytes::lemma_auto_spec_u32_to_from_le_bytes();
    }
    let out: [u8; 16] = [s[0], s[1], s[2], s[3], s[4], s[5], s[6], s[7], k[0], k[1], a[0], a[1], b[0], b[1], b[2], b[3]];
    assert(out@ =~= record_wire(seq, *e));
    out
}

/// What an observer decodes from an encoded record is the record: its
/// number, its kind's code and its arguments.
pub proof fn lemma_record_round_trip(seq: u64, e: AuditEvent)
    ensures
        ({
            let w = record_wire(seq, e);
            &&& w.len() == 16
            &&& vstd::bytes::spec_u64_from_le_bytes(w.subrange(0, 8)) == seq
            &&& vstd::bytes::spec_u16_from_le_bytes(w.subrange(8, 10)) == kind_code(e.kind)
            &&& vstd::bytes::spec_u16_from_le_bytes(w.subrange(10, 12)) == e.a
            &&& vstd::bytes::spec_u32_from_le_bytes(w.subrange(12, 16)) == e.b
        }),
{
    vstd::bytes::lemma_auto_spec_u64_to_from_le_bytes();
    vstd::bytes::lemma_auto_spec_u16_to_from_le_bytes();
    vstd::bytes::lemma_auto_spec_u32_to_from_le_bytes();
    let w = record_wire(seq, e);
    assert(w.subrange(0, 8) =~= spec_u64_to_le_bytes(seq));
    assert(w.subrange(8, 10) =~= spec_u16_to_le_bytes(kind_code(e.kind)));
    assert(w.subrange(10, 12) =~= spec_u16_to_le_bytes(e.a));
    assert(w.subrange(12, 16) =~= spec_u32_to_le_bytes(e.b));
}


/// Records the ring keeps.
pub const RING_CAPACITY: usize = 128;

/// Records shown in the summary printed when the scheduler drains.
pub const SUMMARY_TAIL: u64 = 8;

/// The audit ring.
pub struct EventRing {
    /// Record `s` lives in slot `s % RING_CAPACITY` while retained.
    pub ring: Vec<Event>,
    /// Number of the next record; records `0..next_seq` were emitted.
    pub next_seq: u64,
    /// Processes parked until the next record, one slot per process id.
    pub waiters: Vec<Option<u8>>,
}

/// What a read at a cursor finds.
#[derive(Debug, Clone, Copy, PartialEq, Eq, Structural)]
pub enum ReadResult {
    /// No record at or after the cursor yet.
    UpToDate,
    /// The record at the cursor.
    Record(Event),
    /// The cursor's record was overwritten; this is the oldest kept.
    Lagged(Event),
}

impl EventRing {
    /// First record still kept.
    pub open spec fn first_kept(&self) -> int {
        if self.next_seq >= RING_CAPACITY {
            self.next_seq - RING_CAPACITY
        } else {
            0
        }
    }

    /// Is record `s` still kept?
    pub open spec fn retained(&self, s: int) -> bool {
        self.first_kept() <= s < self.next_seq
    }

    /// Record `s` as kept in the ring.
    pub open spec fn record(&self, s: int) -> Event {
        self.ring@[s % (RING_CAPACITY as int)]
    }

    /// What a read at `cursor` finds.
    pub open spec fn read_spec(&self, cursor: int) -> ReadResult {
        if cursor >= self.next_seq {
            ReadResult::UpToDate
        } else if cursor < self.first_kept() {
            ReadResult::Lagged(self.record(self.first_kept()))
        } else {
            ReadResult::Record(self.record(cursor))
        }
    }

    /// Slot counts are fixed and every kept record sits in its slot.
    pub open spec fn wf(&self) -> bool {
        &&& self.ring@.len() == RING_CAPACITY
        &&& self.waiters@.len() == MAX_PROCS
        &&& forall|s: int| #[trigger] self.retained(s) ==> self.record(s).seq == s
    }

    /// An empty stream with no waiters.
    pub fn new() -> (r: Self)
        ensures
            r.wf(),
            r.next_seq == 0,
            forall|i: int| 0 <= i < MAX_PROCS ==> (#[trigger] r.waiters@[i]) is None,
    {
        let mut ring: Vec<Event> = Vec::new();
        let mut i: usize = 0;
        while i < RING_CAPACITY
            invariant
                i <= RING_CAPACITY,
                ring@.len() == i,
            decreases RING_CAPACITY - i,
        {
            ring.push(Event { seq: 0, kind: 0, a: 0, b: 0 });
            i = i + 1;
        }
        let mut waiters: Vec<Option<u8>> = Vec::new();
        let mut j: usize = 0;
        while j < MAX_PROCS
            invariant
                j <= MAX_PROCS,
                waiters@.len() == j,
                forall|k: int| 0 <= k < j ==> (#[trigger] waiters@[k]) is None,
            decreases MAX_PROCS - j,
        {
            waiters.push(None);
            j = j + 1;
        }
        EventRing { ring, next_seq: 0, waiters }
    }

    /// Write record `(kind, a, b)` as number `next_seq` into its slot.
    fn append(&mut self, kind: EventKind, a: u16, b: u32) -> (seq: u64)
        requires
            old(self).wf(),
            old(self).next_seq < u64::MAX,
        ensures
            final(self).wf(),
            seq == old(self).next_seq,
            final(self).next_seq == old(self).next_seq + 1,
            final(self).record(seq as int) == (Event { seq, kind: kind_code(kind), a, b }),
            forall|s: int| #[trigger] final(self).retained(s) && s != seq ==> old(self).retained(s)
                && final(self).record(s) == old(self).record(s),
            final(self).waiters@ == old(self).waiters@,
    {
        let seq = self.next_seq;
        let slot = (seq % 128) as usize;
        let e = Event { seq, kind: code(kind), a, b };
        self.ring.set(slot, e);
        self.next_seq = seq + 1;
        proof {
            assert forall|s: int| #[trigger] self.retained(s) implies self.record(s).seq == s by {
                if s != seq {
                    assert(old(self).retained(s));
                    assert(s % 128 != seq as int % 128);
                }
            }
            assert forall|s: int| #[trigger] self.retained(s) && s != seq implies old(self).retained(s) && self.record(s)
                == old(self).record(s) by {
                assert(s % 128 != seq as int % 128);
            }
        }
        seq
    }

    /// Append record `(kind, a, b)` with the next number and return that
    /// number: every other kept record stays as it was and the oldest is
    /// dropped once the ring is full (an audit stream never refuses a new
    /// record). Then every parked waiter is woken: its suspended read
    /// resumes with 1 and the process is made ready.
    pub fn emit(&mut self, sched: &mut Scheduler, t1: &mut Tier1Table, kind: EventKind, a: u16, b: u32) -> (seq: u64)
        requires
            old(self).wf(),
            old(sched).wf(),
            old(t1).wf(),
            old(self).next_seq < u64::MAX,
        ensures
            final(self).wf(),
            seq == old(self).next_seq,
            final(self).next_seq == old(self).next_seq + 1,
            final(self).retained(seq as int),
            final(self).record(seq as int) == (Event { seq, kind: kind_code(kind), a, b }),
            forall|s: int| #[trigger] final(self).retained(s) && s != seq ==> old(self).retained(s)
                && final(self).record(s) == old(self).record(s),
            forall|i: int| 0 <= i < MAX_PROCS ==> (#[trigger] final(self).waiters@[i]) is None,
            final(sched).wf(),
            final(t1).wf(),
            final(sched).procs@ == woken_all(old(sched).procs@, old(self).waiters@),
            final(t1).slots@ == resumed_all(old(t1).slots@, old(self).waiters@),
    {
        let seq = self.append(kind, a, b);
        let ghost mid = *self;
        wake_ring_waiters(self, sched, t1);
        assert forall|s: int| #[trigger] self.retained(s) && s != seq implies old(self).retained(s) && self.record(s)
            == old(self).record(s) by {
            assert(mid.retained(s));
        }
        seq
    }

    /// Read at `cursor`: up to date at or past the next number, the
    /// cursor's record while it is kept, and the oldest kept record when
    /// the cursor fell behind.
    pub fn read_at(&self, cursor: u64) -> (r: ReadResult)
        requires
            self.wf(),
        ensures
            r == self.read_spec(cursor as int),
    {
        if cursor >= self.next_seq {
            return ReadResult::UpToDate;
        }
        if self.next_seq >= 128 && cursor < self.next_seq - 128 {
            let first = self.next_seq - 128;
            return ReadResult::Lagged(self.ring[(first % 128) as usize]);
        }
        ReadResult::Record(self.ring[(cursor % 128) as usize])
    }

    /// First record of the summary tail: the last `SUMMARY_TAIL` records,
    /// or all of them when fewer were emitted.
    pub open spec fn tail_start(&self) -> int {
        if self.next_seq >= SUMMARY_TAIL {
            self.next_seq - SUMMARY_TAIL
        } else {
            0
        }
    }

    /// The summary tail in order: records `tail_start()..next_seq`.
    pub fn summary_tail(&self) -> (r: Vec<Event>)
        requires
            self.wf(),
        ensures
            r@.len() == self.next_seq - self.tail_start(),
            forall|i: int| 0 <= i < r@.len() ==> (#[trigger] r@[i]) == self.record(self.tail_start() + i)
                && r@[i].seq == self.tail_start() + i,
    {
        let start: u64 = if self.next_seq >= SUMMARY_TAIL { self.next_seq - SUMMARY_TAIL } else { 0 };
        let mut out: Vec<Event> = Vec::new();
        let mut cursor = start;
        while cursor < self.next_seq
            invariant
                self.wf(),
                start == self.tail_start(),
                start <= cursor <= self.next_seq,
                out@.len() == cursor - start,
                forall|i: int| 0 <= i < out@.len() ==> (#[trigger] out@[i]) == self.record(start + i)
                    && out@[i].seq == start + i,
            decreases self.next_seq - cursor,
        {
            assert(self.retained(cursor as int));
            let e = self.ring[(cursor % 128) as usize];
            out.push(e);
            cursor = cursor + 1;
        }
        out
    }

    /// Total records ever emitted.
    pub fn recorded(&self) -> (r: u64)
        ensures
            r == self.next_seq,
    {
        self.next_seq
    }

    /// Park process `proc_id` until the next record. A process already
    /// parked is not parked twice; otherwise it takes the first free
    /// slot. `false` (nothing changed) when it is not parked and no slot
    /// is free: the caller must then not block.
    pub fn register_waiter(&mut self, proc_id: u8) -> (r: bool)
        requires
            old(self).wf(),
        ensures
            final(self).wf(),
            final(self).next_seq == old(self).next_seq,
            final(self).ring@ == old(self).ring@,
            r == (old(self).waiters@.contains(Some(proc_id)) || old(self).waiters@.contains(None)),
            old(self).waiters@.contains(Some(proc_id)) || !r ==> final(self).waiters@ == old(self).waiters@,
            !old(self).waiters@.contains(Some(proc_id)) && r ==> exists|k: int|
                0 <= k < old(self).waiters@.len() && old(self).waiters@[k] is None && (forall|j: int|
                    0 <= j < k ==> (#[trigger] old(self).waiters@[j]) is Some) && final(self).waiters@
                    == old(self).waiters@.update(k, Some(proc_id)),
    {
        let n = self.waiters.len();
        let mut i: usize = 0;
        while i < n
            invariant
                n == self.waiters@.len(),
                *self == *old(self),
                self.wf(),
                i <= n,
                forall|j: int| 0 <= j < i ==> self.waiters@[j] != Some(proc_id),
            decreases n - i,
        {
            if self.waiters[i] == Some(proc_id) {
                assert(self.waiters@[i as int] == Some(proc_id));
                return true;
            }
            i = i + 1;
        }
        assert(!self.waiters@.contains(Some(proc_id)));
        let mut k: usize = 0;
        while k < n
            invariant
                n == self.waiters@.len(),
                *self == *old(self),
                self.wf(),
                !old(self).waiters@.contains(Some(proc_id)),
                k <= n,
                forall|j: int| 0 <= j < k ==> (#[trigger] self.waiters@[j]) is Some,
            decreases n - k,
        {
            if self.waiters[k].is_none() {
                let ghost before = *self;
                self.waiters.set(k, Some(proc_id));
                proof {
                    assert(before.waiters@[k as int] is None);
                    assert forall|s: int| #[trigger] self.retained(s) implies self.record(s).seq == s by {
                        assert(before.retained(s));
                    }
                }
                return true;
            }
            k = k + 1;
        }
        assert(!self.waiters@.contains(None)) by {
            if self.waiters@.contains(None) {
                let j = choose|j: int| 0 <= j < self.waiters@.len() && self.waiters@[j] == None::<u8>;
                assert(self.waiters@[j] is Some);
            }
        }
        false
    }
}

/// The process table after waking the waiters of `ws`.
pub open spec fn woken_all(ps: Seq<Option<Process>>, ws: Seq<Option<u8>>) -> Seq<Option<Process>>
    decreases ws.len(),
{
    if ws.len() == 0 {
        ps
    } else {
        let prev = woken_all(ps, ws.drop_last());
        match ws.last() {
            Some(p) => if p < MAX_PROCS && is_blocked_entry(prev[p as int]) {
                prev.update(p as int, Some(Process { state: ProcessState::Ready, ..prev[p as int]->Some_0 }))
            } else {
                prev
            },
            None => prev,
        }
    }
}

/// The instance table after handing every waiter of `ws` resume value 1.
pub open spec fn resumed_all(ts: Seq<Option<Tier1Slot>>, ws: Seq<Option<u8>>) -> Seq<Option<Tier1Slot>>
    decreases ws.len(),
{
    if ws.len() == 0 {
        ts
    } else {
        let prev = resumed_all(ts, ws.drop_last());
        match ws.last() {
            Some(p) => if p < MAX_PROCS && prev[p as int] is Some {
                prev.update(p as int, Some(Tier1Slot { pending_resume: 1, ..prev[p as int]->Some_0 }))
            } else {
                prev
            },
            None => prev,
        }
    }
}

/// Wake every parked waiter: its suspended read resumes with 1 (up to
/// date, so it reads again and finds the new record) and the process is
/// made ready; the waiter set is emptied.
pub fn wake_ring_waiters(ring: &mut EventRing, sched: &mut Scheduler, t1: &mut Tier1Table)
    requires
        old(ring).wf(),
        old(sched).wf(),
        old(t1).wf(),
    ensures
        final(ring).wf(),
        final(ring).next_seq == old(ring).next_seq,
        final(ring).ring@ == old(ring).ring@,
        forall|i: int| 0 <= i < MAX_PROCS ==> (#[trigger] final(ring).waiters@[i]) is None,
        final(sched).wf(),
        final(t1).wf(),
        final(sched).procs@ == woken_all(old(sched).procs@, old(ring).waiters@),
        final(t1).slots@ == resumed_all(old(t1).slots@, old(ring).waiters@),
{
    let ghost ws = ring.waiters@;
    let ghost ps0 = sched.procs@;
    let ghost ts0 = t1.slots@;
    let n = ring.waiters.len();
    let mut i: usize = 0;
    while i < n
        invariant
            n == MAX_PROCS,
            ws.len() == MAX_PROCS,
            i <= n,
            ring.wf(),
            ring.next_seq == old(ring).next_seq,
            ring.ring@ == old(ring).ring@,
            ws == old(ring).waiters@,
            ps0 == old(sched).procs@,
            ts0 == old(t1).slots@,
            forall|k: int| 0 <= k < i ==> (#[trigger] ring.waiters@[k]) is None,
            forall|k: int| i <= k < MAX_PROCS ==> #[trigger] ring.waiters@[k] == ws[k],
            sched.wf(),
            t1.wf(),
            sched.procs@ == woken_all(ps0, ws.subrange(0, i as int)),
            t1.slots@ == resumed_all(ts0, ws.subrange(0, i as int)),
        decreases n - i,
    {
        let w = ring.waiters[i];
        let ghost before = *ring;
        ring.waiters.set(i, None);
        proof {
            assert(ws.subrange(0, i as int + 1).drop_last() =~= ws.subrange(0, i as int));
            assert(ws.subrange(0, i as int + 1).last() == ws[i as int]);
            assert forall|s: int| #[trigger] ring.retained(s) implies ring.record(s).seq == s by {
                assert(before.retained(s));
            }
        }
        match w {
            Some(pid) => {
                let _ = t1.set_resume_value(pid, 1);
                let _ = sched.wake(pid);
            },
            None => {},
        }
        i = i + 1;
    }
    proof {
        assert(ws.subrange(0, n as int) =~= ws);
    }
}

/// A read at the number `emit` returned gives back the emitted record,
/// for as long as the ring keeps it; a read at the next number finds the
/// stream up to date.
pub proof fn lemma_read_after_emit(before: EventRing, after: EventRing, seq: u64, kind: EventKind, a: u16, b: u32)
    requires
        before.wf(),
        after.wf(),
        seq == before.next_seq,
        after.next_seq == before.next_seq + 1,
        after.record(seq as int) == (Event { seq, kind: kind_code(kind), a, b }),
    ensures
        after.read_spec(seq as int) == ReadResult::Record(Event { seq, kind: kind_code(kind), a, b }),
        after.read_spec(seq + 1) == ReadResult::UpToDate,
{
}

/// A reader that follows each record with the next number never sees a
/// number twice: the record read at a kept cursor carries that cursor.
pub proof fn lemma_read_carries_cursor(r: EventRing, cursor: int)
    requires
        r.wf(),
        r.read_spec(cursor) is Record,
    ensures
        r.read_spec(cursor)->Record_0.seq == cursor,
{
    assert(r.retained(cursor));
}

} // verus!
