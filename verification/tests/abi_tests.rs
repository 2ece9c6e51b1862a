use wari::abi::{
    validate_handle, RegCheck, SyscallError, ERR, NET_ACCEPT, NET_BIND, NET_CLOSE, NET_CONNECT,
    NET_LISTEN, NET_OP_MAX, NET_RECV, NET_SEND, NET_SERVER_PID, NET_SOCKET_TCP, NET_SOCKET_UDP,
    NET_STATUS, REG_SLOTS, SYS_CAP_COPY, SYS_CAP_DELETE, SYS_CAP_LOOKUP, SYS_CAP_MINT,
    SYS_CAP_REVOKE, SYS_FREE_PAGES, SYS_MAX, SYS_REBOOT, SYS_WAIT,
};

#[test]
fn ok_when_all_clauses_hold() {
    assert_eq!(validate_handle(0, true, 0, 0, true), RegCheck::Accepted);
    assert_eq!(validate_handle(REG_SLOTS - 1, true, 42, 42, true), RegCheck::Accepted);
}

#[test]
fn out_of_range_is_first_and_short_circuits() {
    assert_eq!(validate_handle(REG_SLOTS, true, 1, 1, true), RegCheck::OutOfRange);
    assert_eq!(validate_handle(u32::MAX, true, 1, 1, true), RegCheck::OutOfRange);
    assert_eq!(validate_handle(REG_SLOTS, false, 1, 2, false), RegCheck::OutOfRange);
}

#[test]
fn empty_slot_rejected_before_generation() {
    assert_eq!(validate_handle(5, false, 1, 1, true), RegCheck::Empty);
    assert_eq!(validate_handle(5, false, 1, 2, false), RegCheck::Empty);
}

#[test]
fn stale_generation_rejected_before_permission() {
    assert_eq!(validate_handle(5, true, 1, 2, true), RegCheck::Stale);
    assert_eq!(validate_handle(5, true, 9, 10, false), RegCheck::Stale);
    assert_eq!(validate_handle(5, true, u16::MAX, 0, true), RegCheck::Stale);
}

#[test]
fn not_permitted_is_last_clause() {
    assert_eq!(validate_handle(5, true, 3, 3, false), RegCheck::NotPermitted);
}

#[test]
fn const_evaluable() {
    let r: RegCheck = validate_handle(1, true, 0, 0, true);
    assert_eq!(r, RegCheck::Accepted);
}

#[test]
fn generic_error_matches_legacy_sentinel() {
    assert_eq!(SyscallError::Generic.into_retval(), ERR);
}

#[test]
fn error_codes_are_distinct() {
    let codes = [
        SyscallError::Generic.into_retval(),
        SyscallError::InvalidArgument.into_retval(),
        SyscallError::NoSuchProcess.into_retval(),
        SyscallError::PermissionDenied.into_retval(),
        SyscallError::WouldBlock.into_retval(),
        SyscallError::OutOfResources.into_retval(),
        SyscallError::NotMapped.into_retval(),
        SyscallError::BadWasm.into_retval(),
    ];
    for i in 0..codes.len() {
        for j in (i + 1)..codes.len() {
            assert_ne!(codes[i], codes[j], "error {} and {} collide", i, j);
        }
    }
}

#[test]
fn sys_max_matches_highest_syscall() {
    assert_eq!(SYS_MAX, SYS_CAP_LOOKUP);
    assert_eq!(SYS_MAX, 21);
}

#[test]
fn cap_syscalls_are_distinct_and_contiguous() {
    assert_eq!(SYS_CAP_MINT, 17);
    assert_eq!(SYS_CAP_COPY, 18);
    assert_eq!(SYS_CAP_REVOKE, 19);
    assert_eq!(SYS_CAP_DELETE, 20);
    assert_eq!(SYS_CAP_LOOKUP, 21);
    assert_ne!(SYS_CAP_MINT, SYS_REBOOT);
}

#[test]
fn net_opcodes_are_distinct() {
    let codes = [
        NET_STATUS, NET_SOCKET_TCP, NET_SOCKET_UDP, NET_BIND, NET_CONNECT, NET_LISTEN, NET_ACCEPT,
        NET_SEND, NET_RECV, NET_CLOSE,
    ];
    for i in 0..codes.len() {
        for j in (i + 1)..codes.len() {
            assert_ne!(codes[i], codes[j], "net opcode {} collides with {}", i, j);
        }
    }
}

#[test]
fn net_op_max_matches_highest() {
    assert_eq!(NET_OP_MAX, NET_CLOSE);
}

#[test]
fn net_server_pid_is_three() {
    assert_eq!(NET_SERVER_PID, 3);
}

#[test]
fn sys_spawn_slot_is_retired() {
    assert_eq!(SYS_FREE_PAGES, 9);
    assert_eq!(SYS_WAIT, 11);
    let sys_spawn_must_not_exist: () = ();
    let _ = sys_spawn_must_not_exist;
}

#[test]
fn retval_codes_walk_down_from_the_sentinel() {
    assert_eq!(SyscallError::InvalidArgument.into_retval(), usize::MAX - 1);
    assert_eq!(SyscallError::BadWasm.into_retval(), usize::MAX - 7);
}
