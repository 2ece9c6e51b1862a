use wari::cap::boot::{caps_for, init_root_caps, Caps, PROC_ID_TIER1_HELLO, PROC_ID_TIER2_UART};
use wari::error::KernelError;
use wari::plic::disable_irq_check;
use wari::sched::{transfer_msg, ModuleId, MsgRegs, Tier};
use wari::cap::storage::CapSystem;
use wari::cap::syscall::{cap_delete_impl, E_INVAL, E_PERM};
use wari::hostfns::{mmio_gate, mmio_read_result, MMIO_READ_REFUSED};
use wari::uart::{is_uart_mmio_addr, QEMU_REG_STRIDE, VF2_REG_STRIDE};
use wari::wasi::{
    fd_write_step, iovec_span, proc_exit_status, FdWriteStep, Iovec, Tier1HostState, FD_WRITE_MAX, WASI_EBADF,
    WASI_EPERM,
};

fn booted() -> CapSystem {
    let mut sys = CapSystem::new();
    assert_eq!(init_root_caps(&mut sys, 0), Ok(0));
    sys
}

fn hello_state() -> Tier1HostState {
    Tier1HostState::new(Caps { stdout: true, mmio_uart: false, exit: true })
}

#[test]
fn fd_write_gathers_for_stdout_holder() {
    let sys = booted();
    assert_eq!(fd_write_step(&sys, PROC_ID_TIER1_HELLO, 1, 1), FdWriteStep::Gather);
}

#[test]
fn fd_write_rejects_other_fds() {
    let sys = booted();
    assert_eq!(fd_write_step(&sys, PROC_ID_TIER1_HELLO, 2, 1), FdWriteStep::Fail(WASI_EBADF));
    assert_eq!(fd_write_step(&sys, PROC_ID_TIER1_HELLO, 0, 1), FdWriteStep::Fail(WASI_EBADF));
}

#[test]
fn fd_write_with_no_iovecs_writes_nothing() {
    let sys = booted();
    assert_eq!(fd_write_step(&sys, PROC_ID_TIER1_HELLO, 1, 0), FdWriteStep::Empty);
}

#[test]
fn fd_write_without_stdout_cap_is_eperm() {
    let sys = booted();
    // A process with no caps, and the UART driver whose endpoint only reads.
    assert_eq!(fd_write_step(&sys, 5, 1, 1), FdWriteStep::Fail(WASI_EPERM));
    assert_eq!(fd_write_step(&sys, PROC_ID_TIER2_UART, 1, 1), FdWriteStep::Fail(WASI_EPERM));
    // The permission check comes before the fd check.
    assert_eq!(fd_write_step(&sys, 5, 2, 0), FdWriteStep::Fail(WASI_EPERM));
    // Deleting the stdout cap revokes console access.
    let mut sys = booted();
    assert_eq!(cap_delete_impl(&mut sys, PROC_ID_TIER1_HELLO, 0), 0);
    assert_eq!(fd_write_step(&sys, PROC_ID_TIER1_HELLO, 1, 1), FdWriteStep::Fail(WASI_EPERM));
}

#[test]
fn iovec_span_decodes_little_endian() {
    assert_eq!(iovec_span(&[0x10, 0, 0, 0, 5, 0, 0, 0]), (16, 5));
    assert_eq!(iovec_span(&[1, 2, 3, 4, 0, 1, 0, 0]), (0x0403_0201, 256));
}

#[test]
fn iovec_span_clamps_long_buffers() {
    assert_eq!(iovec_span(&[0, 0, 0, 0, 0x01, 0x01, 0, 0]).1, FD_WRITE_MAX);
    assert_eq!(iovec_span(&[0, 0, 0, 0, 0xff, 0xff, 0xff, 0xff]).1, FD_WRITE_MAX);
    assert_eq!(iovec_span(&[0, 0, 0, 0, 0xff, 0, 0, 0]).1, 255);
}

#[test]
fn proc_exit_with_cap_returns_code() {
    let sys = booted();
    let mut st = hello_state();
    assert_eq!(proc_exit_status(&sys, PROC_ID_TIER1_HELLO, 7, &mut st), 7);
    assert_eq!(st.exit_code, Some(7));
    assert!(st.caps.exit);
}

#[test]
fn proc_exit_without_cap_is_minus_one() {
    let sys = booted();
    let mut st = hello_state();
    assert_eq!(proc_exit_status(&sys, 5, 7, &mut st), -1);
    assert_eq!(st.exit_code, Some(u32::MAX));
}

#[test]
fn proc_exit_code_is_reinterpreted_as_i32() {
    let sys = booted();
    let mut st = hello_state();
    assert_eq!(proc_exit_status(&sys, PROC_ID_TIER1_HELLO, 0xFFFF_FFFE, &mut st), -2);
    assert_eq!(st.exit_code, Some(0xFFFF_FFFE));
}

#[test]
fn uart_window_bounds() {
    assert!(is_uart_mmio_addr(0x1000_0000, QEMU_REG_STRIDE));
    assert!(is_uart_mmio_addr(0x1000_0007, QEMU_REG_STRIDE));
    assert!(!is_uart_mmio_addr(0x1000_0008, QEMU_REG_STRIDE));
    assert!(!is_uart_mmio_addr(0x0FFF_FFFF, QEMU_REG_STRIDE));
    assert!(is_uart_mmio_addr(0x1000_001F, VF2_REG_STRIDE));
    assert!(!is_uart_mmio_addr(0x1000_0020, VF2_REG_STRIDE));
}

#[test]
fn mmio_gate_allows_driver_inside_window() {
    let sys = booted();
    assert_eq!(mmio_gate(&sys, 0x1000_0000, QEMU_REG_STRIDE), 0);
    assert_eq!(mmio_gate(&sys, 0x1000_0005, QEMU_REG_STRIDE), 0);
    assert_eq!(mmio_gate(&sys, 0x1000_0014, VF2_REG_STRIDE), 0);
}

#[test]
fn mmio_gate_rejects_outside_window() {
    let sys = booted();
    assert_eq!(mmio_gate(&sys, 0x1000_0008, QEMU_REG_STRIDE), E_INVAL);
    assert_eq!(mmio_gate(&sys, 0x0C00_0000, QEMU_REG_STRIDE), E_INVAL);
}

#[test]
fn mmio_gate_needs_uart_endpoint() {
    let sys = CapSystem::new();
    assert_eq!(mmio_gate(&sys, 0x1000_0000, QEMU_REG_STRIDE), E_PERM);
    let mut sys = booted();
    assert_eq!(cap_delete_impl(&mut sys, PROC_ID_TIER2_UART, 0), 0);
    assert_eq!(mmio_gate(&sys, 0x1000_0000, QEMU_REG_STRIDE), E_PERM);
}

#[test]
fn mmio_read_result_passes_byte_or_sentinel() {
    assert_eq!(mmio_read_result(0, 0x60), 0x60);
    assert_eq!(mmio_read_result(E_PERM, 0x60), MMIO_READ_REFUSED);
    assert_eq!(mmio_read_result(E_INVAL, 0), 0xFFFF_FFFF);
}

#[test]
fn iovec_encode_decode_round_trip() {
    let v = Iovec { buf: 0x1234, buf_len: 16 };
    let bytes = v.encode();
    assert_eq!(bytes, vec![0x34, 0x12, 0, 0, 16, 0, 0, 0]);
    let arr: [u8; 8] = bytes.try_into().unwrap();
    assert_eq!(Iovec::decode(&arr), v);
    assert_eq!(iovec_span(&arr), (0x1234, 16));
}

#[test]
fn module_caps() {
    assert_eq!(caps_for(Tier::Two, ModuleId::Tier2Uart), Caps { stdout: false, mmio_uart: true, exit: false });
    assert_eq!(caps_for(Tier::One, ModuleId::Tier1Hello), Caps { stdout: true, mmio_uart: false, exit: true });
    assert_eq!(caps_for(Tier::One, ModuleId::Dynamic(2)), Caps { stdout: true, mmio_uart: false, exit: true });
    assert_eq!(caps_for(Tier::Two, ModuleId::Tier2Net), Caps { stdout: false, mmio_uart: false, exit: false });
}

#[test]
fn message_registers_transfer() {
    let src = MsgRegs { badge: 7, words: [1, 2, 3, 4] };
    let mut dst = MsgRegs::zero();
    transfer_msg(&src, &mut dst);
    assert_eq!(dst.badge, 7);
    assert_eq!(dst.words, [1, 2, 3, 4]);
}

#[test]
fn disable_irq_range() {
    assert_eq!(disable_irq_check(8), Ok(()));
    assert_eq!(disable_irq_check(63), Ok(()));
    assert_eq!(disable_irq_check(64), Err(KernelError::InvalidArgument));
}
