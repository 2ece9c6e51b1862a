use wari::cap::boot::init_root_caps;
use wari::cap::grants::GrantSpec;
use wari::cap::storage::CapSystem;
use wari::guard::{decode, format_u64};
use wari::heap::BumpAllocator;
use wari::modreg::{AuditEvent, EventKind, ModRegistry, SlotState, MAX_MODULE_BYTES};
use wari::plic::{
    claim_addr, enable_irq_check, enable_word_addr, irq_enable_bit, pending_word_addr, priority_addr,
    signal_irq, threshold_addr, IrqBindings, PLIC_BASE,
};
use wari::sched::{ModuleId, ProcessState, Scheduler};
use wari::sign::verify;
use wari::uart::{lsr_addr, thr_addr, thr_empty};
use wari::error::KernelError;

#[test]
fn plic_register_map() {
    assert_eq!(priority_addr(0), PLIC_BASE);
    assert_eq!(priority_addr(8), PLIC_BASE + 32);
    assert_eq!(enable_word_addr(1, 0), PLIC_BASE + 0x2080);
    assert_eq!(claim_addr(1), PLIC_BASE + 0x20_1004);
    assert_eq!(threshold_addr(1), PLIC_BASE + 0x20_1000);
    assert_eq!(pending_word_addr(1), PLIC_BASE + 0x1004);
    assert_eq!(irq_enable_bit(40), (1, 1 << 8));
    assert_eq!(enable_irq_check(8, 1), Ok(()));
    assert_eq!(enable_irq_check(64, 1), Err(KernelError::InvalidArgument));
    assert_eq!(enable_irq_check(8, 8), Err(KernelError::InvalidArgument));
}

#[test]
fn irq_signals_bound_notification() {
    let mut sys = CapSystem::new();
    assert_eq!(init_root_caps(&mut sys, 0), Ok(0));
    let mut b = IrqBindings::new();
    assert!(!signal_irq(&mut sys, &b, 8));
    assert_eq!(b.bind_irq_to_notification(8, 0), Ok(()));
    assert_eq!(b.bind_irq_to_notification(64, 0), Err(KernelError::InvalidArgument));
    assert_eq!(b.notification_for_irq(8), Some(0));
    assert_eq!(b.notification_for_irq(9), None);
    assert!(signal_irq(&mut sys, &b, 8));
    assert_eq!(sys.pools.notifications.get(0).unwrap().signals, 1 << 8);
}

#[test]
fn bump_allocator_aligns_and_refuses_overflow() {
    let mut h = BumpAllocator::new(0x1001, 0x2000);
    assert_eq!(h.allocate(16, 16), Some(0x1010));
    assert_eq!(h.cursor, 0x1020);
    assert_eq!(h.allocate(1, 1), Some(0x1020));
    assert_eq!(h.allocate(0x1000, 8), None);
    assert_eq!(h.cursor, 0x1021);
    assert_eq!(h.allocate(8, 8), Some(0x1028));
}

#[test]
fn guard_formats_decimal_and_decodes_records() {
    let mut line = [b'.'; 40];
    assert_eq!(format_u64(&mut line, 2, 0), 3);
    assert_eq!(&line[..4], b"..0.");
    assert_eq!(format_u64(&mut line, 0, 18446744073709551615), 20);
    assert_eq!(&line[..20], b"18446744073709551615");
    assert_eq!(format_u64(&mut line, 5, 1234), 9);
    assert_eq!(&line[5..9], b"1234");
    let mut buf = [0u8; 16];
    buf[0] = 7;
    buf[8] = 2;
    buf[10] = 5;
    buf[12] = 0x78;
    buf[15] = 0x12;
    let e = decode(&buf);
    assert_eq!(e.seq, 7);
    assert_eq!(e.kind, 2);
    assert_eq!(e.a, 5);
    assert_eq!(e.b, 0x1200_0078);
}

#[test]
fn uart_register_addresses() {
    assert_eq!(lsr_addr(1), 0x1000_0005);
    assert_eq!(lsr_addr(4), 0x1000_0014);
    assert_eq!(thr_addr(4), 0x1000_0000);
    assert!(thr_empty(0x60));
    assert!(!thr_empty(0x01));
}

#[test]
fn signature_gate_rejects_short_and_foreign_envelopes() {
    assert_eq!(verify(&[0u8; 10]), Err(KernelError::BadWasm));
    assert_eq!(verify(&[0u8; 200]), Err(KernelError::BadWasm));
}

#[test]
fn signature_gate_rejects_forged_signature_under_accepted_key() {
    let mut env = vec![0u8; 120];
    env[..32].copy_from_slice(&wari::sign::ACCEPTED_PUBKEY);
    assert_eq!(verify(&env), Err(KernelError::BadWasm));
}

#[test]
fn registry_stages_into_free_slots() {
    let mut reg = ModRegistry::new();
    let mut ev: Vec<AuditEvent> = Vec::new();
    assert_eq!(reg.stage(&[], &mut ev), Err(KernelError::InvalidArgument));
    assert_eq!(reg.stage(&vec![0u8; MAX_MODULE_BYTES + 1], &mut ev), Err(KernelError::InvalidArgument));
    for i in 0..4u8 {
        assert_eq!(reg.stage(&[1, 2, 3], &mut ev), Ok(i));
    }
    assert_eq!(reg.stage(&[1], &mut ev), Err(KernelError::OutOfHandles));
    assert_eq!(ev.len(), 4);
    assert_eq!(ev[3], AuditEvent { kind: EventKind::ModuleStaged, a: 3, b: 3 });
    assert_eq!(reg.slots[0], SlotState::Staged { len: 3 });
}

#[test]
fn rejected_envelope_frees_its_slot() {
    let mut reg = ModRegistry::new();
    let mut sys = CapSystem::new();
    assert_eq!(init_root_caps(&mut sys, 0), Ok(0));
    let mut sched = Scheduler::new();
    let mut ev: Vec<AuditEvent> = Vec::new();
    let s = reg.stage(&vec![0u8; 300], &mut ev).unwrap();
    assert_eq!(reg.spawn(&mut sys, &mut sched, &mut ev, s), Err(KernelError::BadWasm));
    assert_eq!(reg.slots[s as usize], SlotState::Free);
    assert_eq!(ev[1], AuditEvent { kind: EventKind::SpawnRejected, a: s as u16, b: 0 });
    assert_eq!(reg.spawn(&mut sys, &mut sched, &mut ev, s), Err(KernelError::InvalidArgument));
    assert_eq!(reg.spawn(&mut sys, &mut sched, &mut ev, 9), Err(KernelError::InvalidArgument));
}

#[test]
fn verified_spawn_attenuates_and_registers() {
    let mut reg = ModRegistry::new();
    let mut sys = CapSystem::new();
    assert_eq!(init_root_caps(&mut sys, 0), Ok(0));
    let mut sched = Scheduler::new();
    let mut ev: Vec<AuditEvent> = Vec::new();
    let s = reg.stage(&vec![0u8; 300], &mut ev).unwrap();
    let req = GrantSpec::eventlog().with(GrantSpec::net());
    let pid = reg.spawn_checked(&mut sys, &mut sched, &mut ev, s, req, 2, true).unwrap();
    assert_eq!(pid, 5);
    assert_eq!(sched.procs[5].unwrap().state, ProcessState::Ready);
    assert_eq!(sched.procs[5].unwrap().module_id, ModuleId::Dynamic(s));
    assert_eq!(
        reg.slots[s as usize],
        SlotState::Live { off: 96, len: 204, proc_id: 5, grants: GrantSpec::eventlog(), daemon: true, restarts_left: 2 }
    );
    assert_eq!(ev[1], AuditEvent { kind: EventKind::GrantAttenuated, a: 5, b: 2 });
    assert_eq!(ev[2], AuditEvent { kind: EventKind::SpawnVerified, a: s as u16, b: 5 });
    assert_eq!(reg.payload(s).len(), 204);
    assert_eq!(reg.payload(3).len(), 0);
    assert!(sys.slot(5, 2).is_empty());
    assert!(!sys.slot(5, 4).is_empty());
}

#[test]
fn daemon_restarts_until_budget_is_spent() {
    let mut reg = ModRegistry::new();
    let mut sys = CapSystem::new();
    assert_eq!(init_root_caps(&mut sys, 0), Ok(0));
    let mut sched = Scheduler::new();
    let mut ev: Vec<AuditEvent> = Vec::new();
    let s = reg.stage(&vec![0u8; 100], &mut ev).unwrap();
    let pid = reg.spawn_checked(&mut sys, &mut sched, &mut ev, s, GrantSpec::empty(), 1, true).unwrap();
    assert_eq!(pid, 5);
    reg.on_tenant_terminated(&mut sys, &mut sched, &mut ev, 5);
    assert_eq!(ev.last(), Some(&AuditEvent { kind: EventKind::DaemonRestarted, a: 6, b: 0 }));
    assert_eq!(sched.procs[6].unwrap().state, ProcessState::Ready);
    reg.on_tenant_terminated(&mut sys, &mut sched, &mut ev, 6);
    assert_eq!(ev.last(), Some(&AuditEvent { kind: EventKind::DaemonGaveUp, a: 6, b: 0 }));
    let n = ev.len();
    reg.on_tenant_terminated(&mut sys, &mut sched, &mut ev, 6);
    assert_eq!(ev.len(), n);
    reg.on_tenant_terminated(&mut sys, &mut sched, &mut ev, 2);
    assert_eq!(ev.len(), n);
}
