use wari::cap::boot::{init_root_caps, PROC_ID_TIER1_HELLO, PROC_ID_TIER1_HELLO_B, SLOT_IPC};
use wari::cap::storage::CapSystem;
use wari::cap::syscall::{E_AGAIN, E_INVAL, E_PERM};
use wari::cap::types::{CAP_RIGHT_READ, CAP_RIGHT_WRITE};
use wari::error::KernelError;
use wari::ipc::{
    decode_msg, deliver_and_wake, encode_msg, recv_complete, recv_take, reply_waiter_on, resolve,
    resolve_endpoint, send_like, CallerNext, IpcStep, Op, Outcome, RecvStep,
};
use wari::sched::{
    BlockReason, ModuleId, MsgRegs, ProcessState, SchedAction, Scheduler, StepOutcome, Tier,
    NO_MSG_BUF,
};
use wari::tier1::{flush_msg_to_linmem, CallEnd, Tier1Table};

fn msg(badge: u64, w: u64) -> MsgRegs {
    MsgRegs { badge, words: [w, w + 1, w + 2, w + 3] }
}

fn setup() -> (CapSystem, Scheduler, Tier1Table) {
    let mut sys = CapSystem::new();
    assert_eq!(init_root_caps(&mut sys, 0), Ok(0));
    let mut sched = Scheduler::new();
    assert_eq!(sched.register_tenant(PROC_ID_TIER1_HELLO, Tier::One, ModuleId::Tier1Hello), Ok(()));
    assert_eq!(sched.register_tenant(PROC_ID_TIER1_HELLO_B, Tier::One, ModuleId::Tier1Hello), Ok(()));
    let mut t1 = Tier1Table::new();
    assert!(t1.start(PROC_ID_TIER1_HELLO));
    assert!(t1.start(PROC_ID_TIER1_HELLO_B));
    (sys, sched, t1)
}

#[test]
fn registration_rejects_duplicates_and_out_of_range() {
    let mut s = Scheduler::new();
    assert_eq!(s.register_library(1, Tier::Two, ModuleId::Tier2Uart), Ok(()));
    assert_eq!(s.register_tenant(1, Tier::One, ModuleId::Tier1Hello), Err(KernelError::InvalidArgument));
    assert_eq!(s.register_tenant(16, Tier::One, ModuleId::Tier1Hello), Err(KernelError::InvalidArgument));
    assert_eq!(s.procs[1].unwrap().state, ProcessState::Library);
}

#[test]
fn scheduler_runs_ready_tenants_in_pid_order() {
    let mut s = Scheduler::new();
    assert_eq!(s.register_library(1, Tier::Two, ModuleId::Tier2Uart), Ok(()));
    assert_eq!(s.register_tenant(3, Tier::One, ModuleId::Tier1Hello), Ok(()));
    assert_eq!(s.register_tenant(2, Tier::One, ModuleId::Tier1Hello), Ok(()));
    let a = s.run(None).unwrap();
    assert_eq!(a, (SchedAction::Step { proc_id: 2, module_id: ModuleId::Tier1Hello }, None));
    assert_eq!(s.procs[2].unwrap().state, ProcessState::Running);
    let b = s.run(Some((2, StepOutcome::Exited(7)))).unwrap();
    assert_eq!(b, (SchedAction::Step { proc_id: 3, module_id: ModuleId::Tier1Hello }, None));
    assert_eq!(s.procs[2].unwrap().state, ProcessState::Exited(7));
    let c = s.run(Some((3, StepOutcome::Faulted))).unwrap();
    assert_eq!(c, (SchedAction::Idle { blocked: 0 }, None));
    assert_eq!(s.procs[3].unwrap().state, ProcessState::Faulted);
}

#[test]
fn yield_without_blocking_faults_and_releases() {
    let mut s = Scheduler::new();
    assert_eq!(s.register_tenant(2, Tier::One, ModuleId::Tier1Hello), Ok(()));
    let _ = s.run(None).unwrap();
    let r = s.run(Some((2, StepOutcome::Blocked))).unwrap();
    assert_eq!(r, (SchedAction::Idle { blocked: 0 }, Some(2)));
    assert_eq!(s.procs[2].unwrap().state, ProcessState::Faulted);
    assert_eq!(s.run(Some((9, StepOutcome::Faulted))), Err(KernelError::NoSuchProcess));
}

#[test]
fn blocked_tenants_are_counted_and_woken() {
    let mut s = Scheduler::new();
    assert_eq!(s.register_tenant(2, Tier::One, ModuleId::Tier1Hello), Ok(()));
    let _ = s.run(None).unwrap();
    let mut p = s.procs[2].unwrap();
    p.block(BlockReason::RecvWait, 2);
    s.procs[2] = Some(p);
    let r = s.run(Some((2, StepOutcome::Blocked))).unwrap();
    assert_eq!(r, (SchedAction::Idle { blocked: 1 }, None));
    assert_eq!(s.count_blocked(), 1);
    assert_eq!(s.wake(2), Ok(()));
    assert_eq!(s.procs[2].unwrap().state, ProcessState::Ready);
    assert_eq!(s.wake(2), Err(KernelError::NoSuchProcess));
    assert_eq!(s.wake(5), Err(KernelError::NoSuchProcess));
    assert_eq!(s.wake(16), Err(KernelError::InvalidArgument));
    assert_eq!(s.pick_next_tenant(), Some(2));
}

#[test]
fn message_wire_format_round_trips() {
    let m = msg(0x1122_3344_5566_7788, 42);
    let b = encode_msg(&m);
    assert_eq!(&b[0..8], &[0x88, 0x77, 0x66, 0x55, 0x44, 0x33, 0x22, 0x11]);
    assert_eq!(&b[8..16], &42u64.to_le_bytes());
    let d = decode_msg(&b);
    assert_eq!(d.badge, m.badge);
    assert_eq!(d.words, m.words);
}

#[test]
fn resolve_decision_table() {
    assert_eq!(resolve(Op::Send, true), Outcome::Rendezvous { caller: CallerNext::Continue });
    assert_eq!(resolve(Op::Call, true), Outcome::Rendezvous { caller: CallerNext::Block(BlockReason::ReplyWait) });
    assert_eq!(resolve(Op::Recv, false), Outcome::Enqueue { block: BlockReason::RecvWait });
    assert_eq!(resolve(Op::Send, false), Outcome::Enqueue { block: BlockReason::SendWait });
    assert_eq!(resolve(Op::Reply, false), Outcome::Invalid);
}

#[test]
fn endpoint_resolution_checks_rights() {
    let (sys, _, _) = setup();
    assert_eq!(resolve_endpoint(&sys, PROC_ID_TIER1_HELLO, SLOT_IPC as u32, CAP_RIGHT_WRITE), Ok(2));
    assert_eq!(resolve_endpoint(&sys, PROC_ID_TIER1_HELLO, 0, CAP_RIGHT_READ), Err(E_PERM));
    assert_eq!(resolve_endpoint(&sys, PROC_ID_TIER1_HELLO, 256, CAP_RIGHT_READ), Err(E_INVAL));
}

#[test]
fn call_recv_reply_rendezvous() {
    let (mut sys, mut sched, mut t1) = setup();
    let a = PROC_ID_TIER1_HELLO;
    let b = PROC_ID_TIER1_HELLO_B;
    // A calls with nobody receiving: queued as a caller and blocked.
    let r = send_like(&mut sys, &mut sched, &mut t1, a, 2, 0x100, msg(1, 10), Op::Call);
    assert_eq!(r, IpcStep::Block);
    assert_eq!(sched.procs[a as usize].unwrap().state, ProcessState::Blocked { reason: BlockReason::CallWait, ep_idx: 2 });
    // B receives: takes A's message, A moves on to await the reply.
    match recv_take(&mut sys, &mut sched, b, 2, 0x200) {
        RecvStep::Message { tx, msg: m } => {
            assert_eq!(tx, a);
            assert_eq!(m.words, [10, 11, 12, 13]);
        }
        _ => panic!("expected a message"),
    }
    recv_complete(&mut sched, &mut t1, a);
    assert_eq!(sched.procs[a as usize].unwrap().state, ProcessState::Blocked { reason: BlockReason::ReplyWait, ep_idx: 2 });
    // B replies: A is handed the reply and woken with result 0.
    assert_eq!(reply_waiter_on(&sched, 2), Some(a));
    deliver_and_wake(&mut sched, &mut t1, a, Some(msg(9, 90)), 0);
    let pa = sched.procs[a as usize].unwrap();
    assert_eq!(pa.state, ProcessState::Ready);
    assert_eq!(pa.msg_regs.words, [90, 91, 92, 93]);
    assert_eq!(t1.slots[a as usize].unwrap().pending_resume, 0);
    assert_eq!(reply_waiter_on(&sched, 2), None);
    // The reply is flushed to A's buffer before it resumes.
    let (ptr, bytes) = flush_msg_to_linmem(&mut sched, a).unwrap();
    assert_eq!(ptr, 0x100);
    assert_eq!(bytes, encode_msg(&msg(9, 90)));
    assert_eq!(sched.procs[a as usize].unwrap().msg_buf, NO_MSG_BUF);
    assert!(flush_msg_to_linmem(&mut sched, a).is_none());
}

#[test]
fn send_to_waiting_receiver_delivers_and_continues() {
    let (mut sys, mut sched, mut t1) = setup();
    let a = PROC_ID_TIER1_HELLO;
    let b = PROC_ID_TIER1_HELLO_B;
    match recv_take(&mut sys, &mut sched, b, 2, 0x300) {
        RecvStep::Block => {}
        _ => panic!("receiver should block"),
    }
    let r = send_like(&mut sys, &mut sched, &mut t1, a, 2, 0x100, msg(5, 50), Op::Send);
    assert_eq!(r, IpcStep::Return(0));
    let pb = sched.procs[b as usize].unwrap();
    assert_eq!(pb.state, ProcessState::Ready);
    assert_eq!(pb.msg_regs.words, [50, 51, 52, 53]);
    assert_eq!(pb.msg_buf, 0x300);
}

#[test]
fn full_queue_reports_again_and_missing_endpoint_fails() {
    let (mut sys, mut sched, mut t1) = setup();
    for _ in 0..16 {
        let _ = send_like(&mut sys, &mut sched, &mut t1, PROC_ID_TIER1_HELLO, 2, 0, msg(0, 0), Op::Send);
    }
    let r = send_like(&mut sys, &mut sched, &mut t1, PROC_ID_TIER1_HELLO, 2, 0, msg(0, 0), Op::Send);
    assert_eq!(r, IpcStep::Return(E_AGAIN));
    let r2 = send_like(&mut sys, &mut sched, &mut t1, PROC_ID_TIER1_HELLO, 40, 0, msg(0, 0), Op::Send);
    assert_eq!(r2, IpcStep::Return(E_AGAIN));
}

#[test]
fn tier1_pool_bookkeeping() {
    let mut t = Tier1Table::new();
    assert!(!t.is_live(2));
    assert_eq!(t.set_resume_value(2, 5), Err(KernelError::NoSuchProcess));
    assert_eq!(t.set_resume_value(16, 5), Err(KernelError::InvalidArgument));
    assert!(t.start(2));
    assert!(!t.start(2));
    assert!(!t.start(16));
    assert!(t.is_live(2));
    assert_eq!(t.take_invocation(2), None);
    assert!(!t.is_live(2));
    assert!(t.start(2));
    assert_eq!(t.settle(2, CallEnd::Yielded { exit: None, ipc_block: true }), StepOutcome::Blocked);
    assert_eq!(t.set_resume_value(2, -4), Ok(()));
    assert_eq!(t.take_invocation(2), Some(-4));
    assert_eq!(t.settle(2, CallEnd::Yielded { exit: Some(3), ipc_block: true }), StepOutcome::Exited(3));
    assert!(!t.is_live(2));
    assert!(t.start(2));
    assert_eq!(t.settle(2, CallEnd::Yielded { exit: None, ipc_block: false }), StepOutcome::Faulted);
    assert!(t.start(2));
    assert_eq!(t.settle(2, CallEnd::Finished), StepOutcome::Exited(0));
    assert!(t.start(2));
    assert_eq!(t.settle(2, CallEnd::Trapped { exit: None }), StepOutcome::Faulted);
    assert_eq!(t.settle(3, CallEnd::Yielded { exit: None, ipc_block: true }), StepOutcome::Faulted);
    t.release(2);
    t.release(40);
    assert!(!t.is_live(2));
}
