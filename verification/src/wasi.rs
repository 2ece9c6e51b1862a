//! The decisions of the WASI Preview 1 host calls offered to Tier-1
//! modules (`fd_write`, `proc_exit`), apart from the linear-memory and
//! console traffic the runtime performs around them.

use vstd::prelude::*;
use vstd::bytes::{spec_u32_from_le_bytes, spec_u32_to_le_bytes, u32_from_le_bytes, u32_to_le_bytes};
use crate::cap::boot::Caps;
use crate::cap::storage::CapSystem;
use crate::cap::syscall::{check_cap, check_cap_spec};
use crate::cap::types::{ObjectKind, CAP_RIGHT_WRITE};

verus! {

/// WASI errno: success.
pub const WASI_ESUCCESS: u32 = 0;
/// WASI errno: bad file descriptor.
pub const WASI_EBADF: u32 = 8;
/// WASI errno: bad address (out-of-bounds linear memory).
pub const WASI_EFAULT: u32 = 21;
/// WASI errno: I/O error in the console driver.
pub const WASI_EIO: u32 = 29;
/// WASI errno: the capability is not held.
pub const WASI_EPERM: u32 = 63;

/// Size of one WASI `iovec` in linear memory.
pub const IOVEC_SIZE: usize = 8;
/// Most bytes one `fd_write` moves; longer buffers are cut short.
pub const FD_WRITE_MAX: usize = 256;

/// CSpace slot of a Tier-1 module's console endpoint.
pub const STDOUT_SLOT: u8 = 0;
/// CSpace slot of a Tier-1 module's exit endpoint.
pub const EXIT_SLOT: u8 = 1;

/// Per-instance host context of a Tier-1 module.
#[derive(Clone, Copy)]
pub struct Tier1HostState {
    /// Static flags granted at load time.
    pub caps: Caps,
    /// Set by `proc_exit`: the code asked for, or `u32::MAX` when the
    /// exit was refused.
    pub exit_code: Option<u32>,
}

impl Tier1HostState {
    /// A fresh context: no exit recorded yet.
    pub fn new(caps: Caps) -> (r: Self)
        ensures
            r.caps == caps,
            r.exit_code is None,
    {
        Tier1HostState { caps, exit_code: None }
    }
}

/// What `fd_write` does before touching linear memory.
#[derive(Debug, Clone, Copy, PartialEq, Eq, Structural)]
pub enum FdWriteStep {
    /// Return this errno at once.
    Fail(u32),
    /// Nothing to write: report zero bytes written.
    Empty,
    /// Read the first iovec and write its bytes.
    Gather,
}

/// The `fd_write` decision: the console endpoint (WRITE at slot 0) is
/// required, only fd 1 is plumbed, and an empty iovec list writes
/// nothing.
pub open spec fn fd_write_step_spec(v: crate::cap::storage::SysView, proc_id: u8, fd: u32, iovs_len: u32) -> FdWriteStep {
    if check_cap_spec(v, proc_id, STDOUT_SLOT, ObjectKind::Endpoint, CAP_RIGHT_WRITE) is Err {
        FdWriteStep::Fail(WASI_EPERM)
    } else if fd != 1 {
        FdWriteStep::Fail(WASI_EBADF)
    } else if iovs_len == 0 {
        FdWriteStep::Empty
    } else {
        FdWriteStep::Gather
    }
}

/// Decide what `fd_write(fd, _, iovs_len, _)` of process `proc_id` does.
pub fn fd_write_step(sys: &CapSystem, proc_id: u8, fd: u32, iovs_len: u32) -> (r: FdWriteStep)
    requires
        sys.wf(),
    ensures
        r == fd_write_step_spec(sys@, proc_id, fd, iovs_len),
{
    if check_cap(sys, proc_id, STDOUT_SLOT, ObjectKind::Endpoint, CAP_RIGHT_WRITE).is_err() {
        FdWriteStep::Fail(WASI_EPERM)
    } else if fd != 1 {
        FdWriteStep::Fail(WASI_EBADF)
    } else if iovs_len == 0 {
        FdWriteStep::Empty
    } else {
        FdWriteStep::Gather
    }
}

/// A WASI `iovec` as a module lays it out in linear memory: the
/// buffer's offset and its length, each a little-endian `u32`.
#[derive(Debug, Clone, Copy, PartialEq, Eq, Structural)]
pub struct Iovec {
    /// Linear-memory offset of the buffer.
    pub buf: u32,
    /// Length of the buffer in bytes.
    pub buf_len: u32,
}

/// The 8 bytes of `v` in linear memory.
pub open spec fn iovec_wire(v: Iovec) -> Seq<u8> {
    spec_u32_to_le_bytes(v.buf) + spec_u32_to_le_bytes(v.buf_len)
}

impl Iovec {
    /// Read an iovec from its 8 bytes.
    pub fn decode(b: &[u8; 8]) -> (r: Iovec)
        ensures
            r.buf == spec_u32_from_le_bytes(b@.subrange(0, 4)),
            r.buf_len == spec_u32_from_le_bytes(b@.subrange(4, 8)),
    {
        let s = b.as_slice();
        Iovec {
            buf: u32_from_le_bytes(vstd::slice::slice_subrange(s, 0, 4)),
            buf_len: u32_from_le_bytes(vstd::slice::slice_subrange(s, 4, 8)),
        }
    }

    /// The 8 bytes a module stores for this iovec.
    pub fn encode(&self) -> (r: Vec<u8>)
        ensures
            r@ == iovec_wire(*self),
    {
        let a = u32_to_le_bytes(self.buf);
        let b = u32_to_le_bytes(self.buf_len);
        let mut out: Vec<u8> = Vec::new();
        let mut i: usize = 0;
        while i < 4
            invariant
                a@.len() == 4,
                i <= 4,
                out@ == a@.subrange(0, i as int),
            decreases 4 - i,
        {
            out.push(a[i]);
            i = i + 1;
        }
        let mut j: usize = 0;
        while j < 4
            invariant
                a@.len() == 4,
                b@.len() == 4,
                j <= 4,
                out@ == a@ + b@.subrange(0, j as int),
            decreases 4 - j,
        {
            out.push(b[j]);
            j = j + 1;
        }
        assert(out@ =~= a@ + b@);
        out
    }
}

/// Reading back the bytes a module stored for an iovec gives the same
/// iovec.
pub proof fn lemma_iovec_round_trip(v: Iovec)
    ensures
        iovec_wire(v).len() == 8,
        spec_u32_from_le_bytes(iovec_wire(v).subrange(0, 4)) == v.buf,
        spec_u32_from_le_bytes(iovec_wire(v).subrange(4, 8)) == v.buf_len,
{
    vstd::bytes::lemma_auto_spec_u32_to_from_le_bytes();
    let w = iovec_wire(v);
    assert(w.subrange(0, 4) =~= spec_u32_to_le_bytes(v.buf));
    assert(w.subrange(4, 8) =~= spec_u32_to_le_bytes(v.buf_len));
}

/// Decode an iovec and bound its length by `FD_WRITE_MAX`: returns the
/// buffer offset and the number of bytes to move.
pub fn iovec_span(iov: &[u8; 8]) -> (r: (u32, usize))
    ensures
        r.0 == spec_u32_from_le_bytes(iov@.subrange(0, 4)),
        r.1 == if spec_u32_from_le_bytes(iov@.subrange(4, 8)) <= FD_WRITE_MAX {
            spec_u32_from_le_bytes(iov@.subrange(4, 8)) as usize
        } else {
            FD_WRITE_MAX
        },
{
    let v = Iovec::decode(iov);
    let n: usize = if v.buf_len <= 256 {
        v.buf_len as usize
    } else {
        FD_WRITE_MAX
    };
    (v.buf, n)
}

/// The exit status `proc_exit(code)` traps the instance with: `code`
/// (as an `i32`) when the exit endpoint (WRITE at slot 1) is held, and
/// -1 otherwise; the host context records `code`, or `u32::MAX` for a
/// refused exit. `proc_exit` never returns to the module either way.
pub fn proc_exit_status(sys: &CapSystem, proc_id: u8, code: u32, st: &mut Tier1HostState) -> (r: i32)
    requires
        sys.wf(),
    ensures
        final(st).caps == old(st).caps,
        check_cap_spec(sys@, proc_id, EXIT_SLOT, ObjectKind::Endpoint, CAP_RIGHT_WRITE) is Err ==> r == -1
            && final(st).exit_code == Some(u32::MAX),
        check_cap_spec(sys@, proc_id, EXIT_SLOT, ObjectKind::Endpoint, CAP_RIGHT_WRITE) is Ok ==> r == code as i32
            && final(st).exit_code == Some(code),
{
    if check_cap(sys, proc_id, EXIT_SLOT, ObjectKind::Endpoint, CAP_RIGHT_WRITE).is_err() {
        st.exit_code = Some(u32::MAX);
        return -1;
    }
    st.exit_code = Some(code);
    code as i32
}

} // verus!
