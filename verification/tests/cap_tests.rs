use wari::cap::cspace::{CSpace, CSPACE_SLOTS, MAX_PROCS};
use wari::cap::storage::CapSystem;
use wari::cap::syscall::{
    cap_copy_impl, cap_delete_impl, cap_mint_impl, cap_revoke_impl, E_INVAL, E_NOMEM, E_PERM,
};
use wari::cap::types::{Cap, CapId, ObjectKind, CAP_RIGHT_GRANT, CAP_RIGHT_READ, CAP_RIGHT_WRITE};
use wari::error::KernelError;

fn occupied_cap(kind: ObjectKind) -> Cap {
    Cap {
        badge: 0,
        parent: CapId::root(),
        generation: 0,
        pool_index: 5,
        kind,
        rights: CAP_RIGHT_READ | CAP_RIGHT_WRITE,
    }
}

fn parent_with(kind: ObjectKind, rights: u8) -> Cap {
    Cap { badge: 0, parent: CapId::root(), generation: 1, pool_index: 7, kind, rights }
}

#[test]
fn cspace_slots_pack_to_one_page() {
    assert_eq!(core::mem::size_of::<[Cap; CSPACE_SLOTS]>(), 4096);
}

#[test]
fn cspace_total_size_fits_two_pages() {
    assert!(core::mem::size_of::<CSpace>() <= 8192);
}

#[test]
fn fresh_cspace_is_all_empty() {
    let cs = CSpace::new();
    for i in 0..CSPACE_SLOTS {
        assert!(cs.slots[i].is_empty());
        assert_eq!(cs.generations[i], 0);
    }
}

#[test]
fn default_equals_new() {
    let cs = CSpace::default();
    for slot in &cs.slots {
        assert!(slot.is_empty());
    }
}

#[test]
fn lookup_empty_slot_returns_empty_cap() {
    let cs = CSpace::new();
    assert!(cs.lookup(0).unwrap().is_empty());
    assert!(cs.lookup(255).unwrap().is_empty());
}

#[test]
fn lookup_occupied_slot_returns_cap() {
    let mut cs = CSpace::new();
    let c = occupied_cap(ObjectKind::Endpoint);
    cs.slots[42] = c;
    let looked_up = cs.lookup(42).unwrap();
    assert_eq!(looked_up.kind, ObjectKind::Endpoint);
    assert_eq!(looked_up.pool_index, 5);
}

#[test]
fn lookup_mut_allows_writing() {
    let mut cs = CSpace::new();
    *cs.lookup_mut(7).unwrap() = occupied_cap(ObjectKind::Frame);
    assert_eq!(cs.lookup(7).unwrap().kind, ObjectKind::Frame);
}

#[test]
fn is_occupied_empty_slot_is_false() {
    let cs = CSpace::new();
    assert!(!cs.is_occupied(0));
    assert!(!cs.is_occupied(255));
}

#[test]
fn is_occupied_filled_slot_is_true() {
    let mut cs = CSpace::new();
    cs.slots[12] = occupied_cap(ObjectKind::Endpoint);
    assert!(cs.is_occupied(12));
}

#[test]
fn fresh_generation_is_zero() {
    let cs = CSpace::new();
    for s in 0..=255u8 {
        assert_eq!(cs.generation(s), 0);
    }
}

#[test]
fn bump_generation_increments() {
    let mut cs = CSpace::new();
    assert_eq!(cs.bump_generation(5), 1);
    assert_eq!(cs.bump_generation(5), 2);
    assert_eq!(cs.bump_generation(5), 3);
    assert_eq!(cs.generation(5), 3);
}

#[test]
fn bump_generation_isolates_slots() {
    let mut cs = CSpace::new();
    cs.bump_generation(1);
    cs.bump_generation(1);
    cs.bump_generation(2);
    assert_eq!(cs.generation(1), 2);
    assert_eq!(cs.generation(2), 1);
    assert_eq!(cs.generation(3), 0);
}

#[test]
fn bump_generation_saturates_at_u16_max() {
    let mut cs = CSpace::new();
    cs.generations[0] = u16::MAX;
    assert_eq!(cs.bump_generation(0), u16::MAX);
    assert_eq!(cs.generation(0), u16::MAX);
}

#[test]
fn find_empty_returns_first_empty_slot() {
    let mut cs = CSpace::new();
    cs.slots[0] = occupied_cap(ObjectKind::Endpoint);
    cs.slots[1] = occupied_cap(ObjectKind::Frame);
    assert_eq!(cs.find_empty().unwrap(), 2);
}

#[test]
fn find_empty_in_full_cspace_errors() {
    let mut cs = CSpace::new();
    for i in 0..CSPACE_SLOTS {
        cs.slots[i] = occupied_cap(ObjectKind::Endpoint);
    }
    assert_eq!(cs.find_empty(), Err(KernelError::OutOfHandles));
}

#[test]
fn find_empty_in_fresh_cspace_returns_zero() {
    let cs = CSpace::new();
    assert_eq!(cs.find_empty().unwrap(), 0);
}

#[test]
fn errno_values_distinct() {
    assert_ne!(E_PERM, E_INVAL);
    assert_ne!(E_PERM, E_NOMEM);
    assert_ne!(E_INVAL, E_NOMEM);
}

#[test]
fn errno_values_are_negative() {
    assert!(E_PERM < 0);
    assert!(E_INVAL < 0);
    assert!(E_NOMEM < 0);
}

#[test]
fn cap_mint_rejects_oob_proc_id() {
    let mut sys = CapSystem::new();
    let r = cap_mint_impl(&mut sys, MAX_PROCS as u8, 0, 1, CAP_RIGHT_READ as u32, 0);
    assert_eq!(r, E_INVAL);
}

#[test]
fn cap_mint_rejects_oob_parent_slot() {
    let mut sys = CapSystem::new();
    let r = cap_mint_impl(&mut sys, 0, CSPACE_SLOTS as u32, 1, CAP_RIGHT_READ as u32, 0);
    assert_eq!(r, E_INVAL);
}

#[test]
fn cap_mint_rejects_oob_target_slot() {
    let mut sys = CapSystem::new();
    let r = cap_mint_impl(&mut sys, 0, 0, CSPACE_SLOTS as u32, CAP_RIGHT_READ as u32, 0);
    assert_eq!(r, E_INVAL);
}

#[test]
fn cap_mint_rejects_oversize_rights() {
    let mut sys = CapSystem::new();
    let r = cap_mint_impl(&mut sys, 0, 0, 1, 0xDEAD_BEEF, 0);
    assert_eq!(r, E_INVAL);
}

#[test]
fn cap_copy_rejects_oob_proc_id() {
    let mut sys = CapSystem::new();
    let r = cap_copy_impl(&mut sys, MAX_PROCS as u8, 0, 1);
    assert_eq!(r, E_INVAL);
}

#[test]
fn cap_revoke_rejects_oob_slot() {
    let mut sys = CapSystem::new();
    let r = cap_revoke_impl(&mut sys, 0, CSPACE_SLOTS as u32);
    assert_eq!(r, E_INVAL);
}

#[test]
fn cap_delete_rejects_oob_proc_id() {
    let mut sys = CapSystem::new();
    let r = cap_delete_impl(&mut sys, MAX_PROCS as u8, 0);
    assert_eq!(r, E_INVAL);
}

#[test]
fn cap_is_16_bytes() {
    assert_eq!(core::mem::size_of::<Cap>(), 16);
}

#[test]
fn capid_is_4_bytes() {
    assert_eq!(core::mem::size_of::<CapId>(), 4);
}

#[test]
fn objectkind_is_1_byte() {
    assert_eq!(core::mem::size_of::<ObjectKind>(), 1);
}

#[test]
fn empty_cap_is_empty() {
    let c = Cap::empty();
    assert!(c.is_empty());
    assert_eq!(c.kind, ObjectKind::Empty);
    assert_eq!(c.rights, 0);
    assert_eq!(c.badge, 0);
    assert_eq!(c.pool_index, u16::MAX);
    assert!(c.parent.is_root());
}

#[test]
fn non_empty_cap_is_not_empty() {
    let c = parent_with(ObjectKind::Endpoint, CAP_RIGHT_READ | CAP_RIGHT_WRITE);
    assert!(!c.is_empty());
}

#[test]
fn capid_round_trips() {
    let id = CapId::new(7, 42, 1234);
    assert_eq!(id.proc_id(), 7);
    assert_eq!(id.slot(), 42);
    assert_eq!(id.generation(), 1234);
    assert!(!id.is_root());
}

#[test]
fn capid_root_recognized() {
    assert!(CapId::root().is_root());
}

#[test]
fn capid_zero_is_not_root() {
    let id = CapId::new(0, 0, 0);
    assert!(!id.is_root());
}

#[test]
fn derive_with_subset_rights_succeeds() {
    let parent = parent_with(ObjectKind::Endpoint, CAP_RIGHT_READ | CAP_RIGHT_WRITE | CAP_RIGHT_GRANT);
    let parent_id = CapId::new(0, 1, 1);
    let child = Cap::derive(&parent, parent_id, CAP_RIGHT_READ | CAP_RIGHT_WRITE, 0).unwrap();
    assert_eq!(child.rights, CAP_RIGHT_READ | CAP_RIGHT_WRITE);
    assert_eq!(child.kind, ObjectKind::Endpoint);
    assert_eq!(child.pool_index, parent.pool_index);
    assert_eq!(child.parent, parent_id);
}

#[test]
fn derive_with_equal_rights_succeeds() {
    let parent = parent_with(ObjectKind::Endpoint, CAP_RIGHT_READ | CAP_RIGHT_WRITE);
    let parent_id = CapId::new(0, 1, 1);
    let child = Cap::derive(&parent, parent_id, CAP_RIGHT_READ | CAP_RIGHT_WRITE, 0).unwrap();
    assert_eq!(child.rights, parent.rights);
}

#[test]
fn derive_with_superset_rights_rejected() {
    let parent = parent_with(ObjectKind::Endpoint, CAP_RIGHT_READ);
    let parent_id = CapId::new(0, 1, 1);
    let result = Cap::derive(&parent, parent_id, CAP_RIGHT_READ | CAP_RIGHT_WRITE, 0);
    assert_eq!(result, Err(KernelError::PermissionDenied));
}

#[test]
fn derive_with_disjoint_rights_rejected() {
    let parent = parent_with(ObjectKind::Endpoint, CAP_RIGHT_READ);
    let parent_id = CapId::new(0, 1, 1);
    let result = Cap::derive(&parent, parent_id, CAP_RIGHT_WRITE, 0);
    assert_eq!(result, Err(KernelError::PermissionDenied));
}

#[test]
fn derive_preserves_kind() {
    for kind in [ObjectKind::Endpoint, ObjectKind::Notification, ObjectKind::Untyped, ObjectKind::Frame] {
        let parent = parent_with(kind, CAP_RIGHT_READ);
        let parent_id = CapId::new(0, 1, 1);
        let child = Cap::derive(&parent, parent_id, CAP_RIGHT_READ, 0).unwrap();
        assert_eq!(child.kind, kind);
    }
}

#[test]
fn derive_preserves_pool_index() {
    let mut parent = parent_with(ObjectKind::Endpoint, CAP_RIGHT_READ);
    parent.pool_index = 31337;
    let parent_id = CapId::new(0, 1, 1);
    let child = Cap::derive(&parent, parent_id, CAP_RIGHT_READ, 0).unwrap();
    assert_eq!(child.pool_index, 31337);
}

#[test]
fn derive_from_empty_parent_rejected() {
    let parent = Cap::empty();
    let parent_id = CapId::new(0, 1, 1);
    let result = Cap::derive(&parent, parent_id, 0, 0);
    assert_eq!(result, Err(KernelError::InvalidArgument));
}

#[test]
fn derive_with_reserved_bits_rejected() {
    let parent = parent_with(ObjectKind::Endpoint, 0xFF);
    let parent_id = CapId::new(0, 1, 1);
    let result = Cap::derive(&parent, parent_id, 1 << 4, 0);
    assert_eq!(result, Err(KernelError::InvalidArgument));
}

#[test]
fn derive_endpoint_carries_badge() {
    let parent = parent_with(ObjectKind::Endpoint, CAP_RIGHT_WRITE);
    let parent_id = CapId::new(0, 1, 1);
    let child = Cap::derive(&parent, parent_id, CAP_RIGHT_WRITE, 0xCAFEBABE).unwrap();
    assert_eq!(child.badge, 0xCAFEBABE);
}

#[test]
fn derive_non_endpoint_drops_badge() {
    let parent = parent_with(ObjectKind::Frame, CAP_RIGHT_READ);
    let parent_id = CapId::new(0, 1, 1);
    let child = Cap::derive(&parent, parent_id, CAP_RIGHT_READ, 0xCAFEBABE).unwrap();
    assert_eq!(child.badge, 0);
}
