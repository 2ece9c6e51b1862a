//! Register map of the NS16550-compatible console UART that the Tier-2
//! UART driver polls: the line-status and transmit-holding registers
//! and the transmitter-ready test.

use vstd::prelude::*;

verus! {

/// UART MMIO base on both supported boards.
pub const UART_BASE: u32 = 0x1000_0000;
/// Register stride on QEMU virt (byte registers).
pub const QEMU_REG_STRIDE: u32 = 1;
/// Register stride on the VisionFive 2 (word-aligned registers).
pub const VF2_REG_STRIDE: u32 = 4;
/// Index of the transmit-holding register.
pub const UART_THR_REG: u32 = 0;
/// Index of the line-status register.
pub const UART_LSR_REG: u32 = 5;
/// Line-status bit: transmit-holding register empty.
pub const UART_LSR_THRE: u8 = 0x20;

/// Address of the line-status register for register stride `stride`.
pub fn lsr_addr(stride: u32) -> (r: u32)
    requires
        stride <= 4,
    ensures
        r == UART_BASE + UART_LSR_REG * stride,
{
    UART_BASE + UART_LSR_REG * stride
}

/// Address of the transmit-holding register for register stride
/// `stride`.
pub fn thr_addr(stride: u32) -> (r: u32)
    requires
        stride <= 4,
    ensures
        r == UART_BASE + UART_THR_REG * stride,
{
    UART_BASE + UART_THR_REG * stride
}

/// May a byte be written, given line-status value `lsr`?
pub fn thr_empty(lsr: u8) -> (r: bool)
    ensures
        r == (lsr & UART_LSR_THRE != 0),
{
    lsr & UART_LSR_THRE != 0
}


/// Number of registers in the UART's MMIO window.
pub const UART_REG_COUNT: u32 = 8;

/// Is `addr` inside the UART register window for register stride
/// `stride`: `UART_BASE <= addr < UART_BASE + 8 * stride`?
pub fn is_uart_mmio_addr(addr: u32, stride: u32) -> (r: bool)
    requires
        stride <= 4,
    ensures
        r == (UART_BASE <= addr && addr < UART_BASE + UART_REG_COUNT * stride),
{
    UART_BASE <= addr && addr < UART_BASE + UART_REG_COUNT * stride
}

} // verus!
