//! The Tier-1 demo tenant's side of its planner/executor exchange: the
//! action request it carries in an IPC message, the decision written
//! back into the same message, and the console lines both roles print.
//! Evaluating the request against policy is the executor's.

use vstd::prelude::*;
use vstd::bytes::{spec_u32_from_le_bytes, spec_u32_to_le_bytes, u32_from_le_bytes, u32_to_le_bytes};
use vstd::string::*;
use crate::guard::{ascii, push_text};

verus! {

/// Offset of the action id in the message.
pub const REQ_ACTION_OFF: usize = 8;
/// Offset of the consequence class.
pub const REQ_CONSEQUENCE_OFF: usize = 12;
/// Offset of the allow-list flag.
pub const REQ_ALLOW_OFF: usize = 13;
/// Offset of the cap-covers-target flag.
pub const REQ_COVERS_OFF: usize = 14;
/// Offset of the tainted-parameters flag.
pub const REQ_TAINTED_OFF: usize = 15;
/// Offset of the decision code in the reply.
pub const REPLY_DECISION_OFF: usize = 16;
/// Offset of the reason code in the reply.
pub const REPLY_REASON_OFF: usize = 17;

/// Decision code: allowed and performed.
pub const DECISION_ALLOW: u8 = 0;
/// Decision code: denied by policy.
pub const DECISION_DENY: u8 = 1;

/// How consequential a requested action is.
#[derive(Debug, Clone, Copy, PartialEq, Eq, Structural)]
pub enum Consequence {
    /// No lasting effect.
    Benign,
    /// A lasting but reversible effect.
    Consequential,
    /// An effect that cannot be undone.
    Irreversible,
}

/// An action request as the executor reads it.
#[derive(Debug, Clone, Copy, PartialEq, Eq, Structural)]
pub struct ActionRequest {
    /// The action asked for.
    pub action_id: u32,
    /// How consequential it is.
    pub consequence: Consequence,
    /// The action is on the allow list.
    pub in_allow_list: bool,
    /// The caller's capability covers the target.
    pub cap_covers_target: bool,
    /// Some parameter came from untrusted input.
    pub tainted_params: bool,
}

/// The consequence class a byte stands for: 0 benign, 1 consequential,
/// anything else irreversible.
pub open spec fn consequence_of(b: u8) -> Consequence {
    if b == 0 {
        Consequence::Benign
    } else if b == 1 {
        Consequence::Consequential
    } else {
        Consequence::Irreversible
    }
}

/// The byte a consequence class is sent as.
pub open spec fn consequence_byte(c: Consequence) -> u8 {
    match c {
        Consequence::Benign => 0,
        Consequence::Consequential => 1,
        Consequence::Irreversible => 2,
    }
}

/// The planner's message for a request: all zero but the action id
/// (little endian) at 8 and the consequence and three flags (0 or 1)
/// at 12..16.
pub open spec fn request_msg(r: ActionRequest) -> Seq<u8> {
    Seq::new(8, |i: int| 0u8) + spec_u32_to_le_bytes(r.action_id) + seq![
        consequence_byte(r.consequence),
        if r.in_allow_list { 1u8 } else { 0u8 },
        if r.cap_covers_target { 1u8 } else { 0u8 },
        if r.tainted_params { 1u8 } else { 0u8 },
    ] + Seq::new(24, |i: int| 0u8)
}

/// Build the planner's message for request `r`.
pub fn encode_request(r: &ActionRequest) -> (msg: [u8; 40])
    ensures
        msg@ == request_msg(*r),
{
    let mut msg = [0u8; 40];
    let id = u32_to_le_bytes(r.action_id);
    msg[8] = id[0];
    msg[9] = id[1];
    msg[10] = id[2];
    msg[11] = id[3];
    msg[12] = match r.consequence {
        Consequence::Benign => 0,
        Consequence::Consequential => 1,
        Consequence::Irreversible => 2,
    };
    msg[13] = if r.in_allow_list { 1 } else { 0 };
    msg[14] = if r.cap_covers_target { 1 } else { 0 };
    msg[15] = if r.tainted_params { 1 } else { 0 };
    assert(msg@ =~= request_msg(*r));
    msg
}

/// The request the executor reads from message `m`.
pub open spec fn request_of(m: Seq<u8>) -> ActionRequest {
    ActionRequest {
        action_id: spec_u32_from_le_bytes(m.subrange(8, 12)),
        consequence: consequence_of(m[12]),
        in_allow_list: m[13] != 0,
        cap_covers_target: m[14] != 0,
        tainted_params: m[15] != 0,
    }
}

/// Read the request out of message `msg`.
pub fn decode_request(msg: &[u8; 40]) -> (r: ActionRequest)
    ensures
        r == request_of(msg@),
{
    let s = msg.as_slice();
    let action_id = u32_from_le_bytes(vstd::slice::slice_subrange(s, 8, 12));
    let consequence = if msg[12] == 0 {
        Consequence::Benign
    } else if msg[12] == 1 {
        Consequence::Consequential
    } else {
        Consequence::Irreversible
    };
    ActionRequest {
        action_id,
        consequence,
        in_allow_list: msg[13] != 0,
        cap_covers_target: msg[14] != 0,
        tainted_params: msg[15] != 0,
    }
}

/// What the executor reads is what the planner sent.
pub proof fn lemma_request_round_trip(r: ActionRequest)
    ensures
        request_msg(r).len() == 40,
        request_of(request_msg(r)) == r,
{
    vstd::bytes::lemma_auto_spec_u32_to_from_le_bytes();
    let m = request_msg(r);
    assert(m.subrange(8, 12) =~= spec_u32_to_le_bytes(r.action_id));
}

/// Write the executor's decision and reason into the reply; the rest of
/// the message is unchanged.
pub fn set_decision(msg: &mut [u8; 40], decision: u8, reason: u8)
    ensures
        final(msg)@ == old(msg)@.update(REPLY_DECISION_OFF as int, decision).update(REPLY_REASON_OFF as int, reason),
{
    msg[16] = decision;
    msg[17] = reason;
}

/// The lowercase hexadecimal digit of `n` (< 16).
pub open spec fn hex_digit(n: u32) -> u8 {
    if n < 10 {
        (48 + n) as u8
    } else {
        (87 + n) as u8
    }
}

/// The eight hexadecimal digits of `v`, most significant first.
pub open spec fn hex8_spec(v: u32) -> Seq<u8> {
    Seq::new(8, |i: int| hex_digit(((v as int / pow16(7 - i)) % 16) as u32))
}

/// Sixteen to the power `k`.
pub open spec fn pow16(k: int) -> int
    decreases k,
{
    if k <= 0 {
        1
    } else {
        16 * pow16(k - 1)
    }
}

/// Render `v` as eight lowercase hexadecimal digits.
pub fn hex8(v: u32) -> (r: [u8; 8])
    ensures
        r@ == hex8_spec(v),
{
    let mut r = [0u8; 8];
    let mut div: u32 = 0x1000_0000;
    let mut i: usize = 0;
    proof {
        reveal_with_fuel(pow16, 8);
    }
    while i < 8
        invariant
            i <= 8,
            i < 8 ==> div == pow16(7 - i),
            forall|j: int| 0 <= j < i ==> #[trigger] r@[j] == hex8_spec(v)[j],
        decreases 8 - i,
    {
        proof {
            reveal_with_fuel(pow16, 8);
        }
        let n: u32 = (v / div) % 16;
        r[i] = if n < 10 { 48 + n as u8 } else { 87 + n as u8 };
        i = i + 1;
        if i < 8 {
            div = div / 16;
        }
    }
    assert(r@ =~= hex8_spec(v));
    r
}

/// How the planner shows the executor's decision code.
pub open spec fn planner_verdict(decision: u8) -> Seq<char> {
    if decision == DECISION_ALLOW {
        "ALLOW  (executor performed it)"@
    } else if decision == DECISION_DENY {
        "DENY   (blocked by policy)    "@
    } else {
        "CONFIRM(needs human authority)"@
    }
}

/// The planner's line for `action_id` answered with `decision`.
pub open spec fn planner_line_spec(action_id: u32, decision: u8) -> Seq<u8> {
    ascii("  planner: action 0x"@) + hex8_spec(action_id) + ascii(" -> "@) + ascii(planner_verdict(decision))
        + ascii("\r\n"@)
}

/// Render the planner's line.
pub fn planner_line(action_id: u32, decision: u8) -> (r: Vec<u8>)
    ensures
        r@ == planner_line_spec(action_id, decision),
{
    let mut out: Vec<u8> = Vec::new();
    proof {
        reveal_strlit("  planner: action 0x");
        reveal_strlit(" -> ");
        reveal_strlit("\r\n");
    }
    push_text(&mut out, "  planner: action 0x");
    push_hex8(&mut out, action_id);
    push_text(&mut out, " -> ");
    if decision == DECISION_ALLOW {
        proof { reveal_strlit("ALLOW  (executor performed it)"); }
        push_text(&mut out, "ALLOW  (executor performed it)");
    } else if decision == DECISION_DENY {
        proof { reveal_strlit("DENY   (blocked by policy)    "); }
        push_text(&mut out, "DENY   (blocked by policy)    ");
    } else {
        proof { reveal_strlit("CONFIRM(needs human authority)"); }
        push_text(&mut out, "CONFIRM(needs human authority)");
    }
    push_text(&mut out, "\r\n");
    out
}


/// Append the eight hexadecimal digits of `v` to `out`.
fn push_hex8(out: &mut Vec<u8>, v: u32)
    ensures
        final(out)@ == old(out)@ + hex8_spec(v),
{
    let h = hex8(v);
    let mut k: usize = 0;
    while k < 8
        invariant
            k <= 8,
            h@ == hex8_spec(v),
            out@ == old(out)@ + h@.subrange(0, k as int),
        decreases 8 - k,
    {
        out.push(h[k]);
        k = k + 1;
        assert(h@.subrange(0, k as int) =~= h@.subrange(0, k - 1).push(h@[k - 1]));
    }
    assert(h@.subrange(0, 8) =~= h@);
}

/// How the executor tags its decision code.
pub open spec fn executor_tag(decision: u8) -> Seq<char> {
    if decision == DECISION_ALLOW {
        "ALLOW -> performing"@
    } else if decision == DECISION_DENY {
        "DENY  -> refused   "@
    } else {
        "CONFIRM-> escalated"@
    }
}

/// The executor's line for `action_id` decided as `decision`.
pub open spec fn executor_line_spec(action_id: u32, decision: u8) -> Seq<u8> {
    ascii("  executor: 0x"@) + hex8_spec(action_id) + ascii(" policy="@) + ascii(executor_tag(decision))
        + ascii("\r\n"@)
}

/// Render the executor's line.
pub fn executor_line(action_id: u32, decision: u8) -> (r: Vec<u8>)
    ensures
        r@ == executor_line_spec(action_id, decision),
{
    let mut out: Vec<u8> = Vec::new();
    proof {
        reveal_strlit("  executor: 0x");
        reveal_strlit(" policy=");
        reveal_strlit("\r\n");
    }
    push_text(&mut out, "  executor: 0x");
    push_hex8(&mut out, action_id);
    push_text(&mut out, " policy=");
    if decision == DECISION_ALLOW {
        proof { reveal_strlit("ALLOW -> performing"); }
        push_text(&mut out, "ALLOW -> performing");
    } else if decision == DECISION_DENY {
        proof { reveal_strlit("DENY  -> refused   "); }
        push_text(&mut out, "DENY  -> refused   ");
    } else {
        proof { reveal_strlit("CONFIRM-> escalated"); }
        push_text(&mut out, "CONFIRM-> escalated");
    }
    push_text(&mut out, "\r\n");
    out
}


// ── The tenant's run ─────────────────────────────────────────────

/// CSpace slot of the endpoint the two roles share.
pub const DEMO_SLOT_IPC: u32 = 3;
/// Process id that plays the planner; every other plays the executor.
pub const PLANNER_PID: i32 = 2;
/// Requests the planner issues, and the executor serves.
pub const DEMO_REQUESTS: u32 = 2;
/// CSpace slot the HTTP demo's socket cap goes to.
pub const DEMO_SOCKET_SLOT: u32 = 8;
/// Socket protocol of the HTTP demo (TCP).
pub const DEMO_PROTO_TCP: u32 = 1;
/// Port the HTTP demo listens on.
pub const DEMO_PORT: u32 = 7000;
/// Accept polls before the demo gives up.
pub const ACCEPT_MAX_ITERS: u32 = 50_000_000;
/// What an accept returns once the kernel's accept window expired.
pub const E_TIMEDOUT: i32 = -7;

/// The planner's request number `i`: first a benign, allow-listed,
/// capable, untainted read (0x10); then an irreversible egress (0xE6)
/// that is not allow-listed, not covered and tainted.
pub open spec fn demo_request_spec(i: u32) -> ActionRequest {
    if i == 0 {
        ActionRequest {
            action_id: 0x10,
            consequence: Consequence::Benign,
            in_allow_list: true,
            cap_covers_target: true,
            tainted_params: false,
        }
    } else {
        ActionRequest {
            action_id: 0xE6,
            consequence: Consequence::Irreversible,
            in_allow_list: false,
            cap_covers_target: false,
            tainted_params: true,
        }
    }
}

/// The planner's request number `i`.
pub fn demo_request(i: u32) -> (r: ActionRequest)
    ensures
        r == demo_request_spec(i),
{
    if i == 0 {
        ActionRequest {
            action_id: 0x10,
            consequence: Consequence::Benign,
            in_allow_list: true,
            cap_covers_target: true,
            tainted_params: false,
        }
    } else {
        ActionRequest {
            action_id: 0xE6,
            consequence: Consequence::Irreversible,
            in_allow_list: false,
            cap_covers_target: false,
            tainted_params: true,
        }
    }
}

/// A console line of the demo.
#[derive(Debug, Clone, Copy, PartialEq, Eq, Structural)]
pub enum DemoLine {
    /// `Hello from Wari`.
    Hello,
    /// The planner's call failed.
    PlannerCallErr,
    /// The planner's verdict line (`planner_line`).
    Verdict { action_id: u32, decision: u8 },
    /// The executor's receive failed.
    ExecutorRecvErr,
    /// The executor's decision line (`executor_line`).
    Executed { action_id: u32, decision: u8 },
    /// Creating the socket failed.
    HttpCreateErr,
    /// Binding failed (port busy?).
    HttpBindErr,
    /// Listening failed.
    HttpListenErr,
    /// Listening on port 7000.
    HttpListening,
    /// An accept failed.
    HttpAcceptErr,
    /// The canned response was sent.
    HttpServed,
    /// Sending the response failed.
    HttpSendErr,
    /// No client was accepted.
    HttpAcceptTimeout,
}

/// The next host call the tenant makes.
#[derive(Debug, Clone, Copy, PartialEq, Eq, Structural)]
pub enum DemoCall {
    /// Print a line (`fd_write` to stdout).
    Print { line: DemoLine },
    /// Ask for the own process id.
    ProcSelf,
    /// Call the shared endpoint with request `req` (`encode_request`);
    /// the reply comes back in the same buffer.
    IpcCall { req: ActionRequest },
    /// Receive a request on the shared endpoint.
    IpcRecv,
    /// Decide request `req` by policy.
    Evaluate { req: ActionRequest },
    /// Reply to the caller with `decision` and `reason` (`set_decision`).
    IpcReply { decision: u8, reason: u8 },
    /// Create a TCP socket into slot 8.
    SocketCreate,
    /// Bind the socket to port 7000.
    SocketBind,
    /// Listen on it, backlog 1.
    SocketListen,
    /// Poll for a connection.
    SocketAccept,
    /// Send the canned response.
    SendCanned,
    /// Close the socket.
    SocketClose,
    /// `proc_exit(0)`.
    Exit,
}

/// What the previous host call gave back.
#[derive(Debug, Clone, Copy)]
pub enum DemoEvent {
    /// Nothing yet: the run starts.
    Started,
    /// The call returned `rc` (the process id, for `ProcSelf`).
    Returned { rc: i32 },
    /// An IPC call or receive returned `rc`, leaving `msg` in the buffer.
    Exchanged { rc: i32, msg: [u8; 40] },
    /// The policy's decision and reason codes.
    Decided { decision: u8, reason: u8 },
}

/// The result code an event carries (0 for a start or a decision).
pub open spec fn event_rc(e: DemoEvent) -> i32 {
    match e {
        DemoEvent::Returned { rc } => rc,
        DemoEvent::Exchanged { rc, .. } => rc,
        _ => 0,
    }
}

/// The message an event carries (all zero when none).
pub open spec fn event_msg(e: DemoEvent) -> Seq<u8> {
    match e {
        DemoEvent::Exchanged { msg, .. } => msg@,
        _ => Seq::new(40, |i: int| 0u8),
    }
}

/// The decision and reason an event carries ((0, 0) when none).
pub open spec fn event_decision(e: DemoEvent) -> (u8, u8) {
    match e {
        DemoEvent::Decided { decision, reason } => (decision, reason),
        _ => (0, 0),
    }
}

/// Where the tenant's run stands.
#[derive(Debug, Clone, Copy, PartialEq, Eq, Structural)]
pub struct HelloDemo {
    /// Position in the run (see `demo_next`).
    pub stage: u8,
    /// Requests issued or served so far, or accept polls made.
    pub count: u32,
    /// The request the executor is serving.
    pub req: ActionRequest,
    /// The decision code policy gave that request.
    pub decision: u8,
    /// The reason code policy gave with it.
    pub reason: u8,
}

/// `d` moved to `stage` with `count`.
pub open spec fn demo_at(d: HelloDemo, stage: u8, count: u32) -> HelloDemo {
    HelloDemo { stage, count, ..d }
}

/// Start the HTTP demo.
pub open spec fn http_begin(d: HelloDemo) -> (HelloDemo, DemoCall) {
    (demo_at(d, 20, 0), DemoCall::SocketCreate)
}

/// The tenant's run: from `d`, with `e` what the previous call gave
/// back, the next state and host call.
/// - Print the greeting, then ask for the own process id.
/// - Process 2 is the planner: it calls the endpoint with each of the
///   two requests and prints the verdict the reply carries (byte 16); a
///   failed call prints an error and ends the exchange.
/// - Any other process is the executor: it receives two requests, has
///   each decided by policy, prints the decision and replies with it; a
///   failed receive prints an error and ends the exchange.
/// - Then the HTTP demo: create, bind to 7000 and listen (a failure
///   prints its error; after bind or listen the socket is closed), print
///   that it listens, then poll accept: 1 accepts, -7 is the accept
///   window expiring, another negative result is an error (printed, and
///   then counted as no client), anything else polls again until
///   `ACCEPT_MAX_ITERS` polls. An accepted client is sent the canned
///   response (a positive result is served). Close the socket and exit.
pub open spec fn demo_next(d: HelloDemo, e: DemoEvent) -> (HelloDemo, DemoCall) {
    let rc = event_rc(e);
    if d.stage == 0 {
        (demo_at(d, 1, 0), DemoCall::Print { line: DemoLine::Hello })
    } else if d.stage == 1 {
        (demo_at(d, 2, 0), DemoCall::ProcSelf)
    } else if d.stage == 2 {
        if rc == PLANNER_PID {
            (demo_at(d, 3, 0), DemoCall::IpcCall { req: demo_request_spec(0) })
        } else {
            (demo_at(d, 5, 0), DemoCall::IpcRecv)
        }
    } else if d.stage == 3 {
        if rc != 0 || !(e is Exchanged) {
            (demo_at(d, 10, d.count), DemoCall::Print { line: DemoLine::PlannerCallErr })
        } else {
            (demo_at(d, 4, d.count), DemoCall::Print {
                line: DemoLine::Verdict {
                    action_id: demo_request_spec(d.count).action_id,
                    decision: event_msg(e)[REPLY_DECISION_OFF as int],
                },
            })
        }
    } else if d.stage == 4 {
        if d.count + 1 < DEMO_REQUESTS {
            (demo_at(d, 3, (d.count + 1) as u32), DemoCall::IpcCall { req: demo_request_spec((d.count + 1) as u32) })
        } else {
            http_begin(d)
        }
    } else if d.stage == 5 {
        if rc != 0 || !(e is Exchanged) {
            (demo_at(d, 10, d.count), DemoCall::Print { line: DemoLine::ExecutorRecvErr })
        } else {
            let req = request_of(event_msg(e));
            (HelloDemo { stage: 6, req, ..d }, DemoCall::Evaluate { req })
        }
    } else if d.stage == 6 {
        (HelloDemo { stage: 7, decision: event_decision(e).0, reason: event_decision(e).1, ..d }, DemoCall::Print {
            line: DemoLine::Executed { action_id: d.req.action_id, decision: event_decision(e).0 },
        })
    } else if d.stage == 7 {
        (demo_at(d, 8, d.count), DemoCall::IpcReply { decision: d.decision, reason: d.reason })
    } else if d.stage == 8 {
        if d.count + 1 < DEMO_REQUESTS {
            (demo_at(d, 5, (d.count + 1) as u32), DemoCall::IpcRecv)
        } else {
            http_begin(d)
        }
    } else if d.stage == 10 {
        http_begin(d)
    } else if d.stage == 20 {
        if rc != 0 {
            (demo_at(d, 30, 0), DemoCall::Print { line: DemoLine::HttpCreateErr })
        } else {
            (demo_at(d, 21, 0), DemoCall::SocketBind)
        }
    } else if d.stage == 21 {
        if rc != 0 {
            (demo_at(d, 28, 0), DemoCall::Print { line: DemoLine::HttpBindErr })
        } else {
            (demo_at(d, 22, 0), DemoCall::SocketListen)
        }
    } else if d.stage == 22 {
        if rc != 0 {
            (demo_at(d, 28, 0), DemoCall::Print { line: DemoLine::HttpListenErr })
        } else {
            (demo_at(d, 23, 0), DemoCall::Print { line: DemoLine::HttpListening })
        }
    } else if d.stage == 23 {
        (demo_at(d, 24, 0), DemoCall::SocketAccept)
    } else if d.stage == 24 {
        if rc == 1 {
            (demo_at(d, 25, 0), DemoCall::SendCanned)
        } else if rc == E_TIMEDOUT {
            (demo_at(d, 28, 0), DemoCall::Print { line: DemoLine::HttpAcceptTimeout })
        } else if rc < 0 {
            (demo_at(d, 26, 0), DemoCall::Print { line: DemoLine::HttpAcceptErr })
        } else if d.count + 1 < ACCEPT_MAX_ITERS {
            (demo_at(d, 24, (d.count + 1) as u32), DemoCall::SocketAccept)
        } else {
            (demo_at(d, 28, 0), DemoCall::Print { line: DemoLine::HttpAcceptTimeout })
        }
    } else if d.stage == 25 {
        if rc > 0 {
            (demo_at(d, 28, 0), DemoCall::Print { line: DemoLine::HttpServed })
        } else {
            (demo_at(d, 28, 0), DemoCall::Print { line: DemoLine::HttpSendErr })
        }
    } else if d.stage == 26 {
        (demo_at(d, 28, 0), DemoCall::Print { line: DemoLine::HttpAcceptTimeout })
    } else if d.stage == 28 {
        (demo_at(d, 29, 0), DemoCall::SocketClose)
    } else {
        (demo_at(d, 31, 0), DemoCall::Exit)
    }
}

/// Run the tenant from `d` on the results `es`: the final state and the
/// host calls made, in order.
pub open spec fn demo_run(d: HelloDemo, es: Seq<DemoEvent>) -> (HelloDemo, Seq<DemoCall>)
    decreases es.len(),
{
    if es.len() == 0 {
        (d, Seq::empty())
    } else {
        let (n, c) = demo_next(d, es[0]);
        let (f, rest) = demo_run(n, es.drop_first());
        (f, seq![c] + rest)
    }
}

/// The run at its start.
pub open spec fn demo_start() -> HelloDemo {
    HelloDemo { stage: 0, count: 0, req: demo_request_spec(0), decision: 0, reason: 0 }
}

/// The planner's whole run when both calls are answered with replies
/// `m0` and `m1` and a client connects at once and is served: greet,
/// learn it is process 2, call with each request and print the verdict
/// each reply carries, then create, bind, listen, print, accept, send,
/// print that it served, close and exit.
pub proof fn lemma_planner_run(m0: [u8; 40], m1: [u8; 40], sent: i32)
    requires
        sent > 0,
    ensures
        demo_run(
            demo_start(),
            seq![
                DemoEvent::Started,
                DemoEvent::Returned { rc: 0 },
                DemoEvent::Returned { rc: PLANNER_PID },
                DemoEvent::Exchanged { rc: 0, msg: m0 },
                DemoEvent::Returned { rc: 0 },
                DemoEvent::Exchanged { rc: 0, msg: m1 },
                DemoEvent::Returned { rc: 0 },
                DemoEvent::Returned { rc: 0 },
                DemoEvent::Returned { rc: 0 },
                DemoEvent::Returned { rc: 0 },
                DemoEvent::Returned { rc: 0 },
                DemoEvent::Returned { rc: 1 },
                DemoEvent::Returned { rc: sent },
                DemoEvent::Returned { rc: 0 },
                DemoEvent::Returned { rc: 0 },
            ],
        ).1 == seq![
            DemoCall::Print { line: DemoLine::Hello },
            DemoCall::ProcSelf,
            DemoCall::IpcCall { req: demo_request_spec(0) },
            DemoCall::Print { line: DemoLine::Verdict { action_id: 0x10, decision: m0@[16] } },
            DemoCall::IpcCall { req: demo_request_spec(1) },
            DemoCall::Print { line: DemoLine::Verdict { action_id: 0xE6, decision: m1@[16] } },
            DemoCall::SocketCreate,
            DemoCall::SocketBind,
            DemoCall::SocketListen,
            DemoCall::Print { line: DemoLine::HttpListening },
            DemoCall::SocketAccept,
            DemoCall::SendCanned,
            DemoCall::Print { line: DemoLine::HttpServed },
            DemoCall::SocketClose,
            DemoCall::Exit,
        ],
{
    reveal_with_fuel(demo_run, 16);
}

/// The executor's whole run when it receives requests `m0` and `m1`,
/// policy decides them `(d0, r0)` and `(d1, r1)`, and the socket cannot
/// be created: greet, learn it is not process 2, and for each request
/// receive it, have it decided, print the decision and reply with it;
/// then fail to create the socket, print that, and exit.
pub proof fn lemma_executor_run(pid: i32, m0: [u8; 40], m1: [u8; 40], d0: u8, r0: u8, d1: u8, r1: u8, err: i32)
    requires
        pid != PLANNER_PID,
        err != 0,
    ensures
        demo_run(
            demo_start(),
            seq![
                DemoEvent::Started,
                DemoEvent::Returned { rc: 0 },
                DemoEvent::Returned { rc: pid },
                DemoEvent::Exchanged { rc: 0, msg: m0 },
                DemoEvent::Decided { decision: d0, reason: r0 },
                DemoEvent::Returned { rc: 0 },
                DemoEvent::Returned { rc: 0 },
                DemoEvent::Exchanged { rc: 0, msg: m1 },
                DemoEvent::Decided { decision: d1, reason: r1 },
                DemoEvent::Returned { rc: 0 },
                DemoEvent::Returned { rc: 0 },
                DemoEvent::Returned { rc: err },
                DemoEvent::Returned { rc: 0 },
            ],
        ).1 == seq![
            DemoCall::Print { line: DemoLine::Hello },
            DemoCall::ProcSelf,
            DemoCall::IpcRecv,
            DemoCall::Evaluate { req: request_of(m0@) },
            DemoCall::Print { line: DemoLine::Executed { action_id: request_of(m0@).action_id, decision: d0 } },
            DemoCall::IpcReply { decision: d0, reason: r0 },
            DemoCall::IpcRecv,
            DemoCall::Evaluate { req: request_of(m1@) },
            DemoCall::Print { line: DemoLine::Executed { action_id: request_of(m1@).action_id, decision: d1 } },
            DemoCall::IpcReply { decision: d1, reason: r1 },
            DemoCall::SocketCreate,
            DemoCall::Print { line: DemoLine::HttpCreateErr },
            DemoCall::Exit,
        ],
{
    reveal_with_fuel(demo_run, 14);
}

/// How an accept result is taken: 1 accepts and sends the response, -7
/// (the accept window expired) reports no client, any other negative
/// result reports an error and then no client, and anything else polls
/// again while fewer than `ACCEPT_MAX_ITERS` polls were made.
pub proof fn lemma_accept_classified(d: HelloDemo, rc: i32)
    requires
        d.stage == 24,
    ensures
        ({
            let (n, c) = demo_next(d, DemoEvent::Returned { rc });
            &&& rc == 1 ==> c == DemoCall::SendCanned
            &&& rc == E_TIMEDOUT ==> c == (DemoCall::Print { line: DemoLine::HttpAcceptTimeout })
            &&& rc < 0 && rc != E_TIMEDOUT ==> c == (DemoCall::Print { line: DemoLine::HttpAcceptErr })
                && demo_next(n, DemoEvent::Returned { rc: 0 }).1 == (DemoCall::Print {
                    line: DemoLine::HttpAcceptTimeout,
                })
            &&& rc >= 0 && rc != 1 ==> (c == DemoCall::SocketAccept <==> d.count + 1 < ACCEPT_MAX_ITERS)
        }),
{
}

impl HelloDemo {
    /// The run at its start.
    pub fn new() -> (r: Self)
        ensures
            r == (HelloDemo { stage: 0, count: 0, req: demo_request_spec(0), decision: 0, reason: 0 }),
    {
        HelloDemo { stage: 0, count: 0, req: demo_request(0), decision: 0, reason: 0 }
    }
}

/// Advance the tenant's run by one host call.
pub fn demo_step(d: HelloDemo, e: &DemoEvent) -> (r: (HelloDemo, DemoCall))
    ensures
        r == demo_next(d, *e),
{
    let rc: i32 = match e {
        DemoEvent::Returned { rc } => *rc,
        DemoEvent::Exchanged { rc, .. } => *rc,
        _ => 0,
    };
    let at = |stage: u8, count: u32| -> (n: HelloDemo)
        ensures
            n == demo_at(d, stage, count),
        { HelloDemo { stage, count, ..d } };
    if d.stage == 0 {
        (at(1, 0), DemoCall::Print { line: DemoLine::Hello })
    } else if d.stage == 1 {
        (at(2, 0), DemoCall::ProcSelf)
    } else if d.stage == 2 {
        if rc == PLANNER_PID {
            (at(3, 0), DemoCall::IpcCall { req: demo_request(0) })
        } else {
            (at(5, 0), DemoCall::IpcRecv)
        }
    } else if d.stage == 3 {
        match e {
            DemoEvent::Exchanged { rc: 0, msg } => (at(4, d.count), DemoCall::Print {
                line: DemoLine::Verdict { action_id: demo_request(d.count).action_id, decision: msg[16] },
            }),
            _ => (at(10, d.count), DemoCall::Print { line: DemoLine::PlannerCallErr }),
        }
    } else if d.stage == 4 {
        if d.count < DEMO_REQUESTS - 1 {
            (at(3, d.count + 1), DemoCall::IpcCall { req: demo_request(d.count + 1) })
        } else {
            (at(20, 0), DemoCall::SocketCreate)
        }
    } else if d.stage == 5 {
        match e {
            DemoEvent::Exchanged { rc: 0, msg } => {
                let req = decode_request(msg);
                (HelloDemo { stage: 6, req, ..d }, DemoCall::Evaluate { req })
            },
            _ => (at(10, d.count), DemoCall::Print { line: DemoLine::ExecutorRecvErr }),
        }
    } else if d.stage == 6 {
        let (decision, reason): (u8, u8) = match e {
            DemoEvent::Decided { decision, reason } => (*decision, *reason),
            _ => (0, 0),
        };
        (HelloDemo { stage: 7, decision, reason, ..d }, DemoCall::Print {
            line: DemoLine::Executed { action_id: d.req.action_id, decision },
        })
    } else if d.stage == 7 {
        (at(8, d.count), DemoCall::IpcReply { decision: d.decision, reason: d.reason })
    } else if d.stage == 8 {
        if d.count < DEMO_REQUESTS - 1 {
            (at(5, d.count + 1), DemoCall::IpcRecv)
        } else {
            (at(20, 0), DemoCall::SocketCreate)
        }
    } else if d.stage == 10 {
        (at(20, 0), DemoCall::SocketCreate)
    } else if d.stage == 20 {
        if rc != 0 {
            (at(30, 0), DemoCall::Print { line: DemoLine::HttpCreateErr })
        } else {
            (at(21, 0), DemoCall::SocketBind)
        }
    } else if d.stage == 21 || d.stage == 22 {
        if rc != 0 {
            let line = if d.stage == 21 { DemoLine::HttpBindErr } else { DemoLine::HttpListenErr };
            (at(28, 0), DemoCall::Print { line })
        } else if d.stage == 21 {
            (at(22, 0), DemoCall::SocketListen)
        } else {
            (at(23, 0), DemoCall::Print { line: DemoLine::HttpListening })
        }
    } else if d.stage == 23 {
        (at(24, 0), DemoCall::SocketAccept)
    } else if d.stage == 24 {
        if rc == 1 {
            (at(25, 0), DemoCall::SendCanned)
        } else if rc == E_TIMEDOUT {
            (at(28, 0), DemoCall::Print { line: DemoLine::HttpAcceptTimeout })
        } else if rc < 0 {
            (at(26, 0), DemoCall::Print { line: DemoLine::HttpAcceptErr })
        } else if d.count < ACCEPT_MAX_ITERS - 1 {
            (at(24, d.count + 1), DemoCall::SocketAccept)
        } else {
            (at(28, 0), DemoCall::Print { line: DemoLine::HttpAcceptTimeout })
        }
    } else if d.stage == 25 {
        if rc > 0 {
            (at(28, 0), DemoCall::Print { line: DemoLine::HttpServed })
        } else {
            (at(28, 0), DemoCall::Print { line: DemoLine::HttpSendErr })
        }
    } else if d.stage == 26 {
        (at(28, 0), DemoCall::Print { line: DemoLine::HttpAcceptTimeout })
    } else if d.stage == 28 {
        (at(29, 0), DemoCall::SocketClose)
    } else {
        (at(31, 0), DemoCall::Exit)
    }
}

} // verus!
