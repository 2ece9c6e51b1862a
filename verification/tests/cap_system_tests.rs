use wari::cap::boot::{
    init_root_caps, install_tier1_grants, DEMO_EP, EXIT_EP, PROC_ID_TIER1_HELLO, PROC_ID_TIER1_HELLO_B,
    PROC_ID_TIER2_NET, PROC_ID_TIER2_UART, SLOT_EVENTLOG, SLOT_IPC, SLOT_NET, UART_EP,
};
use wari::cap::grants::GrantSpec;
use wari::cap::objects::Notification;
use wari::cap::reg::RegEntry;
use wari::cap::revoke::revoke;
use wari::cap::ring::{ring_dispatch, ring_setup_impl, RING_OP_NOTIFY_ACK, RING_OP_NOTIFY_WAIT};
use wari::cap::storage::CapSystem;
use wari::cap::syscall::{
    cap_copy_impl, cap_delete_impl, cap_info, cap_mint_impl, cap_revoke_impl, check_cap,
    nic_attach_queue_args, nic_attach_queue_bounds, nic_queue_notify_impl, nic_set_mac_impl,
    notification_ack_impl, notification_wait_impl, resolve_socket_handle, E_AGAIN, E_INVAL, E_PERM,
};
use wari::cap::types::{CapId, ObjectKind, CAP_RIGHT_READ, CAP_RIGHT_WRITE};
use wari::error::KernelError;

fn booted() -> CapSystem {
    let mut sys = CapSystem::new();
    assert_eq!(init_root_caps(&mut sys, 0), Ok(0));
    sys
}

fn endpoint_refcount(sys: &CapSystem, idx: u16) -> u16 {
    sys.pools.endpoints.get(idx).map(|e| e.refcount).unwrap_or(0)
}

#[test]
fn boot_installs_root_caps() {
    let sys = booted();
    let c = sys.slot(PROC_ID_TIER2_UART, 0);
    assert_eq!(c.kind, ObjectKind::Endpoint);
    assert_eq!(c.rights, CAP_RIGHT_READ);
    assert_eq!(c.pool_index, UART_EP);
    assert!(c.parent.is_root());
    for p in [PROC_ID_TIER1_HELLO, PROC_ID_TIER1_HELLO_B] {
        assert_eq!(sys.slot(p, 0).rights, CAP_RIGHT_WRITE);
        assert_eq!(sys.slot(p, 1).pool_index, EXIT_EP);
        assert_eq!(sys.slot(p, SLOT_NET).kind, ObjectKind::Net);
        assert_eq!(sys.slot(p, SLOT_IPC).pool_index, DEMO_EP);
    }
    assert_eq!(sys.slot(PROC_ID_TIER2_NET, 0).kind, ObjectKind::Net);
    assert_eq!(sys.slot(PROC_ID_TIER2_NET, 1).kind, ObjectKind::Notification);
    assert!(sys.slot(0, 0).is_empty());
    assert!(sys.slot(5, 0).is_empty());
    assert_eq!(endpoint_refcount(&sys, UART_EP), 3);
    assert_eq!(endpoint_refcount(&sys, EXIT_EP), 2);
    assert_eq!(endpoint_refcount(&sys, DEMO_EP), 2);
    assert_eq!(sys.pools.nets.get(0).map(|n| n.refcount), Some(3));
}

#[test]
fn check_cap_requires_kind_and_every_right() {
    let sys = booted();
    assert_eq!(check_cap(&sys, PROC_ID_TIER1_HELLO, 0, ObjectKind::Endpoint, CAP_RIGHT_WRITE), Ok(()));
    assert_eq!(check_cap(&sys, PROC_ID_TIER1_HELLO, 0, ObjectKind::Endpoint, CAP_RIGHT_READ), Err(E_PERM));
    assert_eq!(check_cap(&sys, PROC_ID_TIER1_HELLO, 0, ObjectKind::Net, 0), Err(E_PERM));
    assert_eq!(check_cap(&sys, PROC_ID_TIER1_HELLO, 9, ObjectKind::Endpoint, 0), Err(E_PERM));
    assert_eq!(check_cap(&sys, 16, 0, ObjectKind::Endpoint, 0), Err(E_PERM));
}

#[test]
fn mint_installs_attenuated_child_and_counts_reference() {
    let mut sys = booted();
    let p = PROC_ID_TIER1_HELLO;
    assert_eq!(cap_mint_impl(&mut sys, p, SLOT_IPC as u32, 10, CAP_RIGHT_READ as u32, 7), 0);
    let child = sys.slot(p, 10);
    assert_eq!(child.kind, ObjectKind::Endpoint);
    assert_eq!(child.rights, CAP_RIGHT_READ);
    assert_eq!(child.badge, 7);
    assert_eq!(child.parent, CapId::new(p, SLOT_IPC, 0));
    assert_eq!(endpoint_refcount(&sys, DEMO_EP), 3);
}

#[test]
fn mint_refuses_rights_the_parent_lacks() {
    let mut sys = booted();
    assert_eq!(cap_mint_impl(&mut sys, PROC_ID_TIER1_HELLO, 0, 10, CAP_RIGHT_READ as u32, 0), E_PERM);
    assert!(sys.slot(PROC_ID_TIER1_HELLO, 10).is_empty());
}

#[test]
fn mint_refuses_occupied_target_and_empty_parent() {
    let mut sys = booted();
    assert_eq!(cap_mint_impl(&mut sys, PROC_ID_TIER1_HELLO, SLOT_IPC as u32, 0, 1, 0), E_INVAL);
    assert_eq!(cap_mint_impl(&mut sys, PROC_ID_TIER1_HELLO, 20, 21, 1, 0), E_INVAL);
}

#[test]
fn copy_duplicates_with_same_parent() {
    let mut sys = booted();
    let p = PROC_ID_TIER1_HELLO;
    assert_eq!(cap_copy_impl(&mut sys, p, SLOT_IPC as u32, 30), 0);
    assert_eq!(sys.slot(p, 30).rights, CAP_RIGHT_READ | CAP_RIGHT_WRITE);
    assert!(sys.slot(p, 30).parent.is_root());
    assert_eq!(endpoint_refcount(&sys, DEMO_EP), 3);
    assert_eq!(cap_copy_impl(&mut sys, p, 31, 32), E_INVAL);
}

#[test]
fn revoke_clears_the_cap_and_all_its_descendants() {
    let mut sys = booted();
    let p = PROC_ID_TIER1_HELLO;
    assert_eq!(cap_mint_impl(&mut sys, p, SLOT_IPC as u32, 10, (CAP_RIGHT_READ | CAP_RIGHT_WRITE) as u32, 0), 0);
    assert_eq!(cap_mint_impl(&mut sys, p, 10, 11, CAP_RIGHT_READ as u32, 0), 0);
    assert_eq!(cap_copy_impl(&mut sys, p, 0, 12), 0);
    assert_eq!(cap_revoke_impl(&mut sys, p, SLOT_IPC as u32), 0);
    assert!(sys.slot(p, SLOT_IPC).is_empty());
    assert!(sys.slot(p, 10).is_empty());
    assert!(sys.slot(p, 11).is_empty());
    assert!(!sys.slot(p, 12).is_empty());
    assert!(!sys.slot(PROC_ID_TIER1_HELLO_B, SLOT_IPC).is_empty());
    assert_eq!(sys.gen(p, SLOT_IPC), 1);
    assert_eq!(sys.gen(p, 10), 1);
    assert_eq!(sys.gen(p, 11), 1);
    assert_eq!(sys.gen(p, 12), 0);
    assert_eq!(endpoint_refcount(&sys, DEMO_EP), 1);
}

#[test]
fn revoking_a_child_leaves_the_parent() {
    let mut sys = booted();
    let p = PROC_ID_TIER1_HELLO;
    assert_eq!(cap_mint_impl(&mut sys, p, SLOT_IPC as u32, 10, (CAP_RIGHT_READ | CAP_RIGHT_WRITE) as u32, 0), 0);
    assert_eq!(cap_revoke_impl(&mut sys, p, 10), 0);
    assert!(sys.slot(p, 10).is_empty());
    assert!(!sys.slot(p, SLOT_IPC).is_empty());
}

#[test]
fn revoke_needs_write_and_an_occupied_slot() {
    let mut sys = booted();
    assert_eq!(cap_revoke_impl(&mut sys, PROC_ID_TIER2_UART, 0), E_PERM);
    assert_eq!(cap_revoke_impl(&mut sys, PROC_ID_TIER2_UART, 5), E_INVAL);
    assert_eq!(revoke(&mut sys, 16, 0), Err(KernelError::InvalidArgument));
    assert_eq!(revoke(&mut sys, 3, 200), Err(KernelError::InvalidArgument));
}

#[test]
fn delete_orphans_children_by_generation() {
    let mut sys = booted();
    let p = PROC_ID_TIER1_HELLO;
    assert_eq!(cap_mint_impl(&mut sys, p, SLOT_IPC as u32, 10, CAP_RIGHT_READ as u32, 0), 0);
    assert_eq!(cap_delete_impl(&mut sys, p, SLOT_IPC as u32), 0);
    assert!(sys.slot(p, SLOT_IPC).is_empty());
    assert_eq!(sys.gen(p, SLOT_IPC), 1);
    assert!(!sys.slot(p, 10).is_empty());
    assert_eq!(cap_copy_impl(&mut sys, p, 0, SLOT_IPC as u32), 0);
    assert_eq!(cap_revoke_impl(&mut sys, p, SLOT_IPC as u32), 0);
    assert!(!sys.slot(p, 10).is_empty());
    assert_eq!(cap_delete_impl(&mut sys, p, SLOT_IPC as u32), E_INVAL);
}

#[test]
fn delete_frees_object_at_zero_references() {
    let mut sys = booted();
    let p = PROC_ID_TIER1_HELLO;
    assert_eq!(cap_delete_impl(&mut sys, p, SLOT_IPC as u32), 0);
    assert_eq!(endpoint_refcount(&sys, DEMO_EP), 1);
    assert_eq!(cap_delete_impl(&mut sys, PROC_ID_TIER1_HELLO_B, SLOT_IPC as u32), 0);
    assert!(sys.pools.endpoints.get(DEMO_EP).is_none());
}

#[test]
fn nic_set_mac_records_little_endian_mac() {
    let mut sys = booted();
    assert_eq!(nic_set_mac_impl(&mut sys, PROC_ID_TIER2_NET, 0x4433_2211, 0xDEAD_6655), 0);
    let net = sys.pools.nets.get(0).unwrap();
    assert_eq!(net.mac, [0x11, 0x22, 0x33, 0x44, 0x55, 0x66]);
    assert!(net.initialized);
    assert_eq!(nic_set_mac_impl(&mut sys, PROC_ID_TIER1_HELLO, 1, 2), E_PERM);
}

#[test]
fn nic_queue_notify_gates_on_driver_cap() {
    let sys = booted();
    assert_eq!(nic_queue_notify_impl(&sys, PROC_ID_TIER2_NET, 1), 0);
    assert_eq!(nic_queue_notify_impl(&sys, PROC_ID_TIER2_NET, 2), E_INVAL);
    assert_eq!(nic_queue_notify_impl(&sys, PROC_ID_TIER1_HELLO, 0), E_PERM);
    assert_eq!(nic_queue_notify_impl(&sys, 16, 0), E_PERM);
}

#[test]
fn nic_attach_queue_checks_arguments_and_bounds() {
    let sys = booted();
    let d = PROC_ID_TIER2_NET;
    assert_eq!(nic_attach_queue_args(&sys, d, 0, 0, 4096, 8192, 256), 0);
    assert_eq!(nic_attach_queue_args(&sys, d, 2, 0, 0, 0, 16), E_INVAL);
    assert_eq!(nic_attach_queue_args(&sys, d, 0, 0, 0, 0, 24), E_INVAL);
    assert_eq!(nic_attach_queue_args(&sys, d, 0, 0, 0, 0, 512), E_INVAL);
    assert_eq!(nic_attach_queue_args(&sys, d, 0, 8, 0, 0, 16), E_INVAL);
    assert_eq!(nic_attach_queue_args(&sys, d, 0, 0, 1, 0, 16), E_INVAL);
    assert_eq!(nic_attach_queue_args(&sys, d, 0, 0, 0, 2, 16), E_INVAL);
    assert_eq!(nic_attach_queue_args(&sys, PROC_ID_TIER1_HELLO, 0, 0, 0, 0, 16), E_PERM);
    assert_eq!(nic_attach_queue_bounds(0, 256, 512, 16, 4096), 0);
    assert_eq!(nic_attach_queue_bounds(0, 256, 4000, 16, 4096), E_INVAL);
    assert_eq!(nic_attach_queue_bounds(4080, 0, 0, 16, 4096), E_INVAL);
    assert_eq!(nic_attach_queue_bounds(0, 4090, 0, 16, 4096), E_INVAL);
}

#[test]
fn notification_wait_and_ack() {
    let mut sys = booted();
    let d = PROC_ID_TIER2_NET;
    assert_eq!(notification_wait_impl(&sys, d, 1), E_AGAIN);
    let mut n: Notification = *sys.pools.notifications.get(0).unwrap();
    n.signals = 1 << 8;
    sys.pools.notifications.put(0, n);
    assert_eq!(notification_wait_impl(&sys, d, 1), 0);
    assert_eq!(notification_ack_impl(&mut sys, d, 1), 0);
    assert_eq!(notification_wait_impl(&sys, d, 1), E_AGAIN);
    assert_eq!(notification_wait_impl(&sys, d, 0), E_PERM);
    assert_eq!(notification_wait_impl(&sys, d, 300), E_INVAL);
    assert_eq!(notification_ack_impl(&mut sys, 16, 1), E_INVAL);
}

#[test]
fn cap_info_encodes_kind_rights_and_badge() {
    let mut sys = booted();
    let p = PROC_ID_TIER1_HELLO;
    assert_eq!(cap_mint_impl(&mut sys, p, SLOT_IPC as u32, 40, CAP_RIGHT_WRITE as u32, 0x0102_0304), 0);
    assert_eq!(cap_info(&sys, p, 40), Ok([1, CAP_RIGHT_WRITE, 0, 0, 0x04, 0x03, 0x02, 0x01]));
    assert_eq!(cap_info(&sys, p, 41), Ok([0, 0, 0, 0, 0, 0, 0, 0]));
    assert_eq!(cap_info(&sys, p, 256), Err(E_INVAL));
}

#[test]
fn socket_handle_requires_writable_socket_cap() {
    let sys = booted();
    assert_eq!(resolve_socket_handle(&sys, PROC_ID_TIER1_HELLO, SLOT_NET), Err(E_PERM));
}

#[test]
fn grants_install_baseline_and_granted_caps() {
    let mut sys = booted();
    let g = GrantSpec::eventlog().with(GrantSpec::net());
    assert_eq!(install_tier1_grants(&mut sys, 6, g), Ok(()));
    assert_eq!(sys.slot(6, 0).pool_index, UART_EP);
    assert_eq!(sys.slot(6, 1).pool_index, EXIT_EP);
    assert_eq!(sys.slot(6, SLOT_NET).kind, ObjectKind::Net);
    assert_eq!(sys.slot(6, SLOT_EVENTLOG).kind, ObjectKind::EventLog);
    assert_eq!(install_tier1_grants(&mut sys, 7, GrantSpec::empty()), Ok(()));
    assert!(sys.slot(7, SLOT_NET).is_empty());
    assert_eq!(install_tier1_grants(&mut sys, 16, GrantSpec::empty()), Err(KernelError::InvalidArgument));
}

#[test]
fn ring_setup_bounds_entries() {
    let mut sys = booted();
    assert_eq!(ring_setup_impl(&mut sys, 4, 0, 4096, 16), 0);
    assert!(sys.rings[4].active);
    assert_eq!(sys.rings[4].entries, 16);
    assert_eq!(ring_setup_impl(&mut sys, 4, 0, 0, 0), E_INVAL);
    assert_eq!(ring_setup_impl(&mut sys, 4, 0, 0, 1025), E_INVAL);
    assert_eq!(ring_setup_impl(&mut sys, 16, 0, 0, 1), E_INVAL);
}

#[test]
fn ring_dispatch_validates_registered_handles() {
    let mut sys = booted();
    let d = PROC_ID_TIER2_NET;
    let mut e = RegEntry::empty();
    e.kind = ObjectKind::Notification;
    e.rights = CAP_RIGHT_READ;
    e.cspace_slot = 1;
    e.reg_generation = 0;
    sys.reg_tables[d as usize].slots[3] = e;
    assert_eq!(ring_dispatch(&mut sys, d, RING_OP_NOTIFY_WAIT, 3), E_AGAIN);
    assert_eq!(ring_dispatch(&mut sys, d, RING_OP_NOTIFY_ACK, 3), 0);
    assert_eq!(ring_dispatch(&mut sys, d, RING_OP_NOTIFY_WAIT, 4), E_INVAL);
    assert_eq!(ring_dispatch(&mut sys, d, RING_OP_NOTIFY_WAIT, 64), E_INVAL);
    assert_eq!(ring_dispatch(&mut sys, d, 99, 3), E_INVAL);
    let mut stale = e;
    stale.reg_generation = 5;
    sys.reg_tables[d as usize].slots[5] = stale;
    assert_eq!(ring_dispatch(&mut sys, d, RING_OP_NOTIFY_WAIT, 5), E_INVAL);
    let mut wrong = e;
    wrong.kind = ObjectKind::Endpoint;
    sys.reg_tables[d as usize].slots[6] = wrong;
    assert_eq!(ring_dispatch(&mut sys, d, RING_OP_NOTIFY_WAIT, 6), E_PERM);
}

#[test]
fn ring_acknowledge_clears_pending_signals() {
    let mut sys = booted();
    let d = PROC_ID_TIER2_NET;
    let mut n: Notification = *sys.pools.notifications.get(0).unwrap();
    n.signals = 1 << 8;
    sys.pools.notifications.put(0, n);
    let mut e = RegEntry::empty();
    e.kind = ObjectKind::Notification;
    e.rights = CAP_RIGHT_READ;
    e.cspace_slot = 1;
    sys.reg_tables[d as usize].slots[3] = e;
    assert_eq!(ring_dispatch(&mut sys, d, RING_OP_NOTIFY_WAIT, 3), 0);
    assert_eq!(sys.pools.notifications.get(0).unwrap().signals, 1 << 8);
    assert_eq!(ring_dispatch(&mut sys, d, RING_OP_NOTIFY_ACK, 3), 0);
    assert_eq!(sys.pools.notifications.get(0).unwrap().signals, 0);
    assert_eq!(ring_dispatch(&mut sys, d, RING_OP_NOTIFY_WAIT, 3), E_AGAIN);
}
