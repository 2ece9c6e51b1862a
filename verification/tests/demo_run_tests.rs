use wari::cap::storage::CapSystem;
use wari::cap::syscall::{
    queue_attach_begin, queue_attach_step, socket_call_check, socket_call_finish, QueueOp, E_INVAL, E_NOMEM, E_PERM,
    QUEUE_NUM, QUEUE_READY, QUEUE_SEL,
};
use wari::error::KernelError;
use wari::modreg::{tamper, tamper_verdict};
use wari::hello::{demo_request, demo_step, encode_request, set_decision, DemoCall, DemoEvent, DemoLine, HelloDemo};

fn ret(rc: i32) -> DemoEvent {
    DemoEvent::Returned { rc }
}

#[test]
fn planner_and_executor_exchange_then_serve() {
    let mut d = HelloDemo::new();
    let mut calls = Vec::new();
    let mut reply = encode_request(&demo_request(0));
    set_decision(&mut reply, 0, 0);
    let mut reply2 = encode_request(&demo_request(1));
    set_decision(&mut reply2, 1, 3);
    let events = [
        DemoEvent::Started,
        ret(0),
        ret(2),
        DemoEvent::Exchanged { rc: 0, msg: reply },
        ret(0),
        DemoEvent::Exchanged { rc: 0, msg: reply2 },
        ret(0),
        ret(0),
        ret(0),
        ret(0),
        ret(0),
        ret(0),
        ret(0),
        ret(1),
        ret(200),
        ret(0),
        ret(0),
    ];
    for e in events.iter() {
        let (n, c) = demo_step(d, e);
        d = n;
        calls.push(c);
    }
    assert_eq!(calls[2], DemoCall::IpcCall { req: demo_request(0) });
    assert_eq!(calls[3], DemoCall::Print { line: DemoLine::Verdict { action_id: 0x10, decision: 0 } });
    assert_eq!(calls[5], DemoCall::Print { line: DemoLine::Verdict { action_id: 0xE6, decision: 1 } });
    assert_eq!(calls[6], DemoCall::SocketCreate);
    assert_eq!(calls[10], DemoCall::SocketAccept);
    assert_eq!(calls[12], DemoCall::SocketAccept);
    assert_eq!(calls[13], DemoCall::SendCanned);
    assert_eq!(calls[14], DemoCall::Print { line: DemoLine::HttpServed });
    assert_eq!(calls[15], DemoCall::SocketClose);
    assert_eq!(calls[16], DemoCall::Exit);
}

#[test]
fn executor_replies_with_the_policy_decision() {
    let mut d = HelloDemo::new();
    let msg = encode_request(&demo_request(1));
    let events = [
        DemoEvent::Started,
        ret(0),
        ret(3),
        DemoEvent::Exchanged { rc: 0, msg },
        DemoEvent::Decided { decision: 1, reason: 4 },
        ret(0),
    ];
    let mut calls = Vec::new();
    for e in events.iter() {
        let (n, c) = demo_step(d, e);
        d = n;
        calls.push(c);
    }
    assert_eq!(calls[2], DemoCall::IpcRecv);
    assert_eq!(calls[3], DemoCall::Evaluate { req: demo_request(1) });
    assert_eq!(calls[4], DemoCall::Print { line: DemoLine::Executed { action_id: 0xE6, decision: 1 } });
    assert_eq!(calls[5], DemoCall::IpcReply { decision: 1, reason: 4 });
}

#[test]
fn accept_error_then_timeout_line_then_close() {
    let mut d = HelloDemo::new();
    let events = [DemoEvent::Started, ret(0), ret(3), ret(-4), ret(0), ret(0), ret(0), ret(0), ret(0), ret(0), ret(-2), ret(0), ret(0)];
    let mut calls = Vec::new();
    for e in events.iter() {
        let (n, c) = demo_step(d, e);
        d = n;
        calls.push(c);
    }
    assert_eq!(calls[3], DemoCall::Print { line: DemoLine::ExecutorRecvErr });
    assert_eq!(calls[9], DemoCall::SocketAccept);
    assert_eq!(calls[10], DemoCall::Print { line: DemoLine::HttpAcceptErr });
    assert_eq!(calls[11], DemoCall::Print { line: DemoLine::HttpAcceptTimeout });
    assert_eq!(calls[12], DemoCall::SocketClose);
}

#[test]
fn accept_window_expiry_reports_no_client() {
    let mut d = HelloDemo::new();
    let events = [DemoEvent::Started, ret(0), ret(2), ret(-1), ret(0), ret(0), ret(0), ret(0), ret(0), ret(-7)];
    let mut calls = Vec::new();
    for e in events.iter() {
        let (n, c) = demo_step(d, e);
        d = n;
        calls.push(c);
    }
    assert_eq!(calls[3], DemoCall::Print { line: DemoLine::PlannerCallErr });
    assert_eq!(calls[9], DemoCall::Print { line: DemoLine::HttpAcceptTimeout });
}

#[test]
fn queue_attach_programs_every_register_in_order() {
    let mut a = queue_attach_begin(1, 16, 0x8000_0000, 0x1000, 0x2000, 0x3000);
    let mut ops = Vec::new();
    for v in [0u32, 0, 256, 0, 0, 0, 0, 0, 0, 0, 0] {
        let (n, op) = queue_attach_step(a, v);
        a = n;
        ops.push(op);
    }
    assert_eq!(ops[0], QueueOp::Write { offset: QUEUE_SEL, value: 1 });
    assert_eq!(ops[2], QueueOp::Write { offset: QUEUE_NUM, value: 16 });
    assert_eq!(ops[3], QueueOp::Write { offset: 0x080, value: 0x8000_1000 });
    assert_eq!(ops[4], QueueOp::Write { offset: 0x084, value: 0 });
    assert_eq!(ops[9], QueueOp::Write { offset: QUEUE_READY, value: 1 });
    assert_eq!(ops[10], QueueOp::Done { rc: 0 });
}

#[test]
fn queue_attach_refuses_a_device_queue_too_small() {
    let a = queue_attach_begin(0, 64, 0x8000_0000, 0, 0, 0);
    let (a, _) = queue_attach_step(a, 0);
    let (a, op1) = queue_attach_step(a, 0);
    assert_eq!(op1, QueueOp::Read { offset: 0x034 });
    let (_, op2) = queue_attach_step(a, 32);
    assert_eq!(op2, QueueOp::Done { rc: E_INVAL });
}

#[test]
fn tamper_flips_only_the_last_bit_and_verdict_follows_spawn() {
    assert_eq!(tamper(&[1, 2, 3]), vec![1, 2, 2]);
    assert_eq!(tamper_verdict(Err(KernelError::BadWasm)), Ok(()));
    assert_eq!(tamper_verdict(Ok(5)), Err(KernelError::BadWasm));
    assert_eq!(tamper_verdict(Err(KernelError::OutOfHandles)), Err(KernelError::OutOfHandles));
}

#[test]
fn socket_calls_check_the_cap_then_pass_the_driver_result() {
    let sys = CapSystem::new();
    assert_eq!(socket_call_check(&sys, 16, 8), Err(E_INVAL));
    assert_eq!(socket_call_check(&sys, 2, 256), Err(E_INVAL));
    assert_eq!(socket_call_check(&sys, 2, 8), Err(E_PERM));
    assert_eq!(socket_call_finish(Ok(0)), 0);
    assert_eq!(socket_call_finish(Ok(-6)), -6);
    assert_eq!(socket_call_finish(Err(())), E_NOMEM);
}
