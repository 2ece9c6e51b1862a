use wari::events::{EventRing, ReadResult, RING_CAPACITY};
use wari::guard::Event;
use wari::modreg::EventKind;
use wari::sched::{BlockReason, ModuleId, ProcessState, Scheduler, StepOutcome, Tier};
use wari::tier1::Tier1Table;

fn parts() -> (EventRing, Scheduler, Tier1Table) {
    (EventRing::new(), Scheduler::new(), Tier1Table::new())
}

#[test]
fn emit_numbers_records_and_reads_them_back() {
    let (mut ring, mut s, mut t) = parts();
    assert_eq!(ring.read_at(0), ReadResult::UpToDate);
    assert_eq!(ring.emit(&mut s, &mut t, EventKind::SpawnVerified, 3, 5), 0);
    assert_eq!(ring.emit(&mut s, &mut t, EventKind::TenantExited, 5, 0), 1);
    assert_eq!(ring.recorded(), 2);
    assert_eq!(ring.read_at(0), ReadResult::Record(Event { seq: 0, kind: 1, a: 3, b: 5 }));
    assert_eq!(ring.read_at(1), ReadResult::Record(Event { seq: 1, kind: 3, a: 5, b: 0 }));
    assert_eq!(ring.read_at(2), ReadResult::UpToDate);
    assert_eq!(ring.read_at(900), ReadResult::UpToDate);
}

#[test]
fn a_lagging_reader_gets_the_oldest_kept_record() {
    let (mut ring, mut s, mut t) = parts();
    for i in 0..(RING_CAPACITY as u32 + 10) {
        ring.emit(&mut s, &mut t, EventKind::ModuleStaged, 0, i);
    }
    assert_eq!(ring.read_at(3), ReadResult::Lagged(Event { seq: 10, kind: 0, a: 0, b: 10 }));
    assert_eq!(ring.read_at(10), ReadResult::Record(Event { seq: 10, kind: 0, a: 0, b: 10 }));
    assert_eq!(ring.read_at(137), ReadResult::Record(Event { seq: 137, kind: 0, a: 0, b: 137 }));
    assert_eq!(ring.read_at(138), ReadResult::UpToDate);
}

#[test]
fn summary_tail_is_the_last_eight_records() {
    let (mut ring, mut s, mut t) = parts();
    assert!(ring.summary_tail().is_empty());
    for i in 0..3u32 {
        ring.emit(&mut s, &mut t, EventKind::DaemonRestarted, 1, i);
    }
    let short = ring.summary_tail();
    assert_eq!(short.len(), 3);
    assert_eq!(short[0].seq, 0);
    for i in 3..20u32 {
        ring.emit(&mut s, &mut t, EventKind::DaemonGaveUp, 2, i);
    }
    let tail = ring.summary_tail();
    assert_eq!(tail.len(), 8);
    assert_eq!(tail[0], Event { seq: 12, kind: 7, a: 2, b: 12 });
    assert_eq!(tail[7].seq, 19);
}

#[test]
fn register_waiter_is_idempotent() {
    let (mut ring, _, _) = parts();
    assert!(ring.register_waiter(4));
    assert!(ring.register_waiter(4));
    assert_eq!(ring.waiters.iter().filter(|w| **w == Some(4)).count(), 1);
    assert_eq!(ring.waiters[0], Some(4));
    assert!(ring.register_waiter(200));
    assert_eq!(ring.waiters[1], Some(200));
}

#[test]
fn register_waiter_refuses_when_every_slot_is_taken() {
    let (mut ring, _, _) = parts();
    for p in 0..ring.waiters.len() as u8 {
        assert!(ring.register_waiter(100 + p));
    }
    assert!(!ring.register_waiter(7));
    assert!(ring.register_waiter(100));
}

#[test]
fn emit_wakes_parked_readers_with_resume_value_one() {
    let (mut ring, mut s, mut t) = parts();
    assert_eq!(s.register_tenant(2, Tier::One, ModuleId::Tier1Hello), Ok(()));
    assert!(t.start(2));
    let _ = s.run(None).unwrap();
    let mut p = s.procs[2].unwrap();
    p.block(BlockReason::RecvWait, 0);
    s.procs[2] = Some(p);
    let _ = s.run(Some((2, StepOutcome::Blocked))).unwrap();
    assert!(ring.register_waiter(2));
    ring.emit(&mut s, &mut t, EventKind::GrantAttenuated, 2, 1);
    assert_eq!(s.procs[2].unwrap().state, ProcessState::Ready);
    assert_eq!(t.slots[2].unwrap().pending_resume, 1);
    assert!(ring.waiters.iter().all(|w| w.is_none()));
}
