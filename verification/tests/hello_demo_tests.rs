use wari::hello::{
    decode_request, encode_request, executor_line, hex8, planner_line, set_decision, ActionRequest, Consequence,
};

fn text(v: &[u8]) -> String {
    String::from_utf8(v.to_vec()).unwrap()
}

#[test]
fn request_encoding_layout() {
    let r = ActionRequest {
        action_id: 0xE6,
        consequence: Consequence::Irreversible,
        in_allow_list: false,
        cap_covers_target: false,
        tainted_params: true,
    };
    let msg = encode_request(&r);
    let mut want = [0u8; 40];
    want[8] = 0xE6;
    want[12] = 2;
    want[15] = 1;
    assert_eq!(msg, want);
    assert_eq!(decode_request(&msg), r);
}

#[test]
fn request_round_trip_read_doc() {
    let r = ActionRequest {
        action_id: 0x10,
        consequence: Consequence::Benign,
        in_allow_list: true,
        cap_covers_target: true,
        tainted_params: false,
    };
    assert_eq!(decode_request(&encode_request(&r)), r);
}

#[test]
fn decode_reads_nonzero_flags_and_unknown_consequence() {
    let mut msg = [0u8; 40];
    msg[8..12].copy_from_slice(&0x0102_0304u32.to_le_bytes());
    msg[12] = 7;
    msg[13] = 9;
    let r = decode_request(&msg);
    assert_eq!(r.action_id, 0x0102_0304);
    assert_eq!(r.consequence, Consequence::Irreversible);
    assert!(r.in_allow_list);
    assert!(!r.cap_covers_target);
    msg[12] = 1;
    assert_eq!(decode_request(&msg).consequence, Consequence::Consequential);
}

#[test]
fn decision_written_into_reply() {
    let mut msg = [5u8; 40];
    set_decision(&mut msg, 1, 3);
    assert_eq!(msg[16], 1);
    assert_eq!(msg[17], 3);
    assert_eq!(msg[15], 5);
    assert_eq!(msg[18], 5);
}

#[test]
fn hex_digits() {
    assert_eq!(&hex8(0x0000_00E6), b"000000e6");
    assert_eq!(&hex8(0xDEAD_BEEF), b"deadbeef");
    assert_eq!(&hex8(0), b"00000000");
}

#[test]
fn planner_and_executor_lines() {
    assert_eq!(
        text(&planner_line(0x10, 0)),
        "  planner: action 0x00000010 -> ALLOW  (executor performed it)\r\n"
    );
    assert_eq!(
        text(&planner_line(0xE6, 1)),
        "  planner: action 0x000000e6 -> DENY   (blocked by policy)    \r\n"
    );
    assert_eq!(
        text(&planner_line(0xE6, 2)),
        "  planner: action 0x000000e6 -> CONFIRM(needs human authority)\r\n"
    );
    assert_eq!(text(&executor_line(0x10, 0)), "  executor: 0x00000010 policy=ALLOW -> performing\r\n");
    assert_eq!(text(&executor_line(0xE6, 1)), "  executor: 0x000000e6 policy=DENY  -> refused   \r\n");
    assert_eq!(text(&executor_line(1, 9)), "  executor: 0x00000001 policy=CONFIRM-> escalated\r\n");
}
