//! The user/kernel ABI: syscall numbers, syscall error codes, network
//! server opcodes and the registered-handle soundness check.

use vstd::prelude::*;

verus! {

/// Write a single byte to the kernel UART.
pub const SYS_PUTCHAR: usize = 0;
/// Terminate the current process with an exit code.
pub const SYS_EXIT: usize = 1;
/// Non-blocking send on a capability/port.
pub const SYS_SEND: usize = 2;
/// Blocking receive on a capability/port.
pub const SYS_RECEIVE: usize = 3;
/// Synchronous call: send + receive-reply on one endpoint.
pub const SYS_CALL: usize = 4;
/// Reply to the last `SYS_CALL` that targeted this server.
pub const SYS_REPLY: usize = 5;
/// Map physical pages into the caller's address space.
pub const SYS_MAP: usize = 6;
/// Unmap a range from the caller's address space.
pub const SYS_UNMAP: usize = 7;
/// Allocate physical pages owned by the caller.
pub const SYS_ALLOC_PAGES: usize = 8;
/// Free physical pages previously allocated by the caller.
pub const SYS_FREE_PAGES: usize = 9;
// Slot 10 is retired and must never be reused.
/// Wait for a child process to exit and reap it.
pub const SYS_WAIT: usize = 11;
/// Return the caller's PID.
pub const SYS_GETPID: usize = 12;
/// Cooperatively yield the CPU.
pub const SYS_YIELD: usize = 13;
/// Register an IRQ handler.
pub const SYS_IRQ_REGISTER: usize = 14;
/// Acknowledge a pending IRQ.
pub const SYS_IRQ_ACK: usize = 15;
/// Request a system reboot.
pub const SYS_REBOOT: usize = 16;
/// Derive a child capability from a parent slot.
pub const SYS_CAP_MINT: usize = 17;
/// Same-rights duplicate of a capability into another slot.
pub const SYS_CAP_COPY: usize = 18;
/// Revoke a capability and every descendant in the derivation tree.
pub const SYS_CAP_REVOKE: usize = 19;
/// Delete a single capability without cascading.
pub const SYS_CAP_DELETE: usize = 20;
/// Read metadata for a capability (kind, rights, badge).
pub const SYS_CAP_LOOKUP: usize = 21;
/// Highest syscall number currently defined.
pub const SYS_MAX: usize = SYS_CAP_LOOKUP;

/// Structured syscall errors. The error number of a variant is given by
/// [`SyscallError::code`]; `into_retval` converts it to the `a0` value.
#[derive(Debug, Clone, Copy, PartialEq, Eq, Structural)]
pub enum SyscallError {
    /// Unspecified error (legacy `a0 == usize::MAX`).
    Generic,
    /// An argument was malformed or out of range.
    InvalidArgument,
    /// Target process does not exist or is free.
    NoSuchProcess,
    /// Caller lacks the capability/permission for this operation.
    PermissionDenied,
    /// The request cannot be satisfied right now.
    WouldBlock,
    /// Out of physical pages, socket handles, etc.
    OutOfResources,
    /// The requested page, handle, or capability is not mapped/owned.
    NotMapped,
    /// A WASM module failed validation at load time.
    BadWasm,
}

/// The stable error number of each variant (1 for `Generic`, walking up).
pub open spec fn syscall_error_code(e: SyscallError) -> nat {
    match e {
        SyscallError::Generic => 1,
        SyscallError::InvalidArgument => 2,
        SyscallError::NoSuchProcess => 3,
        SyscallError::PermissionDenied => 4,
        SyscallError::WouldBlock => 5,
        SyscallError::OutOfResources => 6,
        SyscallError::NotMapped => 7,
        SyscallError::BadWasm => 8,
    }
}

impl SyscallError {
    /// Convert to the value that goes in `a0`: `usize::MAX - (code - 1)`,
    /// so `Generic` is `usize::MAX` and later codes walk downward.
    pub fn into_retval(self) -> (r: usize)
        ensures
            r == usize::MAX - (syscall_error_code(self) - 1),
    {
        match self {
            SyscallError::Generic => usize::MAX,
            SyscallError::InvalidArgument => usize::MAX - 1,
            SyscallError::NoSuchProcess => usize::MAX - 2,
            SyscallError::PermissionDenied => usize::MAX - 3,
            SyscallError::WouldBlock => usize::MAX - 4,
            SyscallError::OutOfResources => usize::MAX - 5,
            SyscallError::NotMapped => usize::MAX - 6,
            SyscallError::BadWasm => usize::MAX - 7,
        }
    }
}

/// Two different syscall errors are never encoded as the same `a0`
/// value, and the error number is recovered as `usize::MAX - a0 + 1`.
pub proof fn lemma_retval_injective(a: SyscallError, b: SyscallError)
    ensures
        a != b ==> usize::MAX - (syscall_error_code(a) - 1) != usize::MAX - (syscall_error_code(b) - 1),
        usize::MAX - (usize::MAX - (syscall_error_code(a) - 1)) + 1 == syscall_error_code(a),
{
}

/// The legacy "any error" return value; equals the `Generic` encoding.
pub const ERR: usize = usize::MAX;

/// PID of the network server.
pub const NET_SERVER_PID: usize = 3;
/// Query "is the network up?".
pub const NET_STATUS: usize = 0;
/// Allocate a TCP socket handle.
pub const NET_SOCKET_TCP: usize = 1;
/// Allocate a UDP socket handle.
pub const NET_SOCKET_UDP: usize = 2;
/// Bind a socket to a local port.
pub const NET_BIND: usize = 3;
/// Blocking connect.
pub const NET_CONNECT: usize = 4;
/// Listen on a bound socket.
pub const NET_LISTEN: usize = 5;
/// Accept an incoming connection (reserved).
pub const NET_ACCEPT: usize = 6;
/// Send on a socket.
pub const NET_SEND: usize = 7;
/// Blocking receive.
pub const NET_RECV: usize = 8;
/// Close a socket handle.
pub const NET_CLOSE: usize = 9;
/// Largest network opcode currently defined.
pub const NET_OP_MAX: usize = NET_CLOSE;

/// Wire size of one IPC message in linear memory: badge + four words.
pub const IPC_MSG_BYTES: usize = 40;

/// Registered-resource slots per process.
pub const REG_SLOTS: u32 = 64;

/// Outcome of validating one registered-handle submission.
#[derive(Debug, Clone, Copy, PartialEq, Eq, Structural)]
pub enum RegCheck {
    /// All clauses hold; the operation may proceed.
    Accepted,
    /// `reg_idx >= REG_SLOTS`.
    OutOfRange,
    /// The slot is not live.
    Empty,
    /// Cached generation differs from the live cap-slot generation.
    Stale,
    /// The operation is not permitted for the cached kind + rights.
    NotPermitted,
}

/// The first failing clause in the order range, liveness, generation,
/// permission; `Ok` when all hold.
pub open spec fn reg_check_spec(
    reg_idx: u32,
    live: bool,
    reg_generation: u16,
    cur_generation: u16,
    op_permitted: bool,
) -> RegCheck {
    if reg_idx >= REG_SLOTS {
        RegCheck::OutOfRange
    } else if !live {
        RegCheck::Empty
    } else if reg_generation != cur_generation {
        RegCheck::Stale
    } else if !op_permitted {
        RegCheck::NotPermitted
    } else {
        RegCheck::Accepted
    }
}

/// Validate a registered-handle submission. Checks are ordered
/// cheapest-first and short-circuit.
pub fn validate_handle(
    reg_idx: u32,
    live: bool,
    reg_generation: u16,
    cur_generation: u16,
    op_permitted: bool,
) -> (r: RegCheck)
    ensures
        r == reg_check_spec(reg_idx, live, reg_generation, cur_generation, op_permitted),
        (r == RegCheck::Accepted) <==> (reg_idx < REG_SLOTS && live && reg_generation == cur_generation
            && op_permitted),
{
    if reg_idx >= REG_SLOTS {
        return RegCheck::OutOfRange;
    }
    if !live {
        return RegCheck::Empty;
    }
    if reg_generation != cur_generation {
        return RegCheck::Stale;
    }
    if !op_permitted {
        return RegCheck::NotPermitted;
    }
    RegCheck::Accepted
}

} // verus!
