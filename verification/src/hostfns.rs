//! The decisions of the host calls offered to the Tier-2 UART driver
//! (`wari::mmio_write8`, `wari::mmio_read8`): the capability gate and
//! the register-window check that precede every device access.

use vstd::prelude::*;
use crate::cap::boot::{Caps, PROC_ID_TIER2_UART};
use crate::cap::storage::{CapSystem, SysView};
use crate::cap::syscall::{check_cap, check_cap_spec, E_INVAL, E_PERM};
use crate::cap::types::{ObjectKind, CAP_RIGHT_READ};
use crate::uart::{is_uart_mmio_addr, UART_BASE, UART_REG_COUNT};

verus! {

/// Per-instance host context of a Tier-2 driver.
#[derive(Clone, Copy)]
pub struct Tier2HostState {
    /// Static flags granted at load time.
    pub caps: Caps,
}

/// Sentinel `mmio_read8` returns for a refused read.
pub const MMIO_READ_REFUSED: u32 = 0xFFFF_FFFF;

/// The result of checking a driver register access to `addr`: `E_PERM`
/// unless the UART driver holds the receive side of the UART endpoint
/// (READ at slot 0), then `E_INVAL` outside the register window, else 0.
pub open spec fn mmio_gate_spec(v: SysView, addr: u32, stride: u32) -> i32 {
    if check_cap_spec(v, PROC_ID_TIER2_UART, 0, ObjectKind::Endpoint, CAP_RIGHT_READ) is Err {
        E_PERM
    } else if !(UART_BASE <= addr && addr < UART_BASE + UART_REG_COUNT * stride) {
        E_INVAL
    } else {
        0
    }
}

/// Decide whether the UART driver may access the register at `addr`.
pub fn mmio_gate(sys: &CapSystem, addr: u32, stride: u32) -> (r: i32)
    requires
        sys.wf(),
        stride <= 4,
    ensures
        r == mmio_gate_spec(sys@, addr, stride),
{
    if check_cap(sys, PROC_ID_TIER2_UART, 0, ObjectKind::Endpoint, CAP_RIGHT_READ).is_err() {
        return E_PERM;
    }
    if !is_uart_mmio_addr(addr, stride) {
        return E_INVAL;
    }
    0
}

/// What `mmio_read8` returns given the check result `gate` and the byte
/// read from the device: the byte, zero-extended, when the check
/// passed, and the refusal value otherwise.
pub fn mmio_read_result(gate: i32, byte: u8) -> (r: u32)
    ensures
        gate == 0 ==> r == byte as u32,
        gate != 0 ==> r == MMIO_READ_REFUSED,
{
    if gate != 0 {
        MMIO_READ_REFUSED
    } else {
        byte as u32
    }
}

} // verus!
