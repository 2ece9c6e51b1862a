use wari::cap::boot::{init_root_caps, PROC_ID_TIER1_HELLO, PROC_ID_TIER1_HELLO_B, PROC_ID_TIER2_UART};
use wari::cap::storage::CapSystem;
use wari::cap::syscall::{cap_copy_impl, cap_delete_impl, cap_mint_impl, cap_revoke_impl};
use wari::cap::types::ObjectKind;

fn holders(sys: &CapSystem, kind: ObjectKind, idx: u16) -> u16 {
    let mut n = 0;
    for p in 0..16u8 {
        for s in 0..=255u8 {
            let c = sys.slot(p, s);
            if c.kind == kind && c.pool_index == idx {
                n += 1;
            }
        }
    }
    n
}

fn endpoint_rc(sys: &CapSystem, idx: u16) -> u16 {
    sys.pools.endpoints.get(idx).map(|e| e.refcount).unwrap_or(0)
}

fn net_rc(sys: &CapSystem, idx: u16) -> u16 {
    sys.pools.nets.get(idx).map(|n| n.refcount).unwrap_or(0)
}

fn assert_consistent(sys: &CapSystem) {
    for idx in 0..4u16 {
        assert_eq!(endpoint_rc(sys, idx), holders(sys, ObjectKind::Endpoint, idx), "endpoint {}", idx);
    }
    assert_eq!(net_rc(sys, 0), holders(sys, ObjectKind::Net, 0));
    let notif = sys.pools.notifications.get(0).map(|n| n.refcount).unwrap_or(0);
    assert_eq!(notif, holders(sys, ObjectKind::Notification, 0));
}

#[test]
fn boot_refcounts_match_caps() {
    let mut sys = CapSystem::new();
    assert_eq!(init_root_caps(&mut sys, 0), Ok(0));
    assert_consistent(&sys);
    assert_eq!(endpoint_rc(&sys, 0), 3);
    assert_eq!(net_rc(&sys, 0), 3);
}

#[test]
fn cap_operations_keep_refcounts_matching_caps() {
    let mut sys = CapSystem::new();
    assert_eq!(init_root_caps(&mut sys, 0), Ok(0));
    // Mint a child of the stdout cap, copy it, mint a grandchild.
    assert_eq!(cap_mint_impl(&mut sys, PROC_ID_TIER1_HELLO, 0, 10, 2, 0), 0);
    assert_consistent(&sys);
    assert_eq!(endpoint_rc(&sys, 0), 4);
    assert_eq!(cap_copy_impl(&mut sys, PROC_ID_TIER1_HELLO, 10, 11), 0);
    assert_eq!(cap_mint_impl(&mut sys, PROC_ID_TIER1_HELLO, 10, 12, 2, 0), 0);
    assert_eq!(cap_copy_impl(&mut sys, PROC_ID_TIER1_HELLO_B, 2, 20), 0);
    assert_consistent(&sys);
    assert_eq!(endpoint_rc(&sys, 0), 6);
    assert_eq!(net_rc(&sys, 0), 4);
    // Delete one, then revoke the child subtree.
    assert_eq!(cap_delete_impl(&mut sys, PROC_ID_TIER1_HELLO, 11), 0);
    assert_consistent(&sys);
    assert_eq!(cap_revoke_impl(&mut sys, PROC_ID_TIER1_HELLO, 10), 0);
    assert_consistent(&sys);
    assert_eq!(endpoint_rc(&sys, 0), 3);
    // Dropping every stdout cap frees the endpoint only when the last goes.
    assert_eq!(cap_delete_impl(&mut sys, PROC_ID_TIER1_HELLO, 0), 0);
    assert_eq!(cap_delete_impl(&mut sys, PROC_ID_TIER1_HELLO_B, 0), 0);
    assert_consistent(&sys);
    assert!(sys.pools.endpoints.get(0).is_some());
    assert_eq!(cap_delete_impl(&mut sys, PROC_ID_TIER2_UART, 0), 0);
    assert_consistent(&sys);
    assert!(sys.pools.endpoints.get(0).is_none());
}
