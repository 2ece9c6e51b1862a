//! Boot-time root-capability construction: the kernel-resident
//! endpoints, the NIC and its notification, and the root caps each
//! boot module starts with.

use vstd::prelude::*;
use crate::sched::{ModuleId, Tier};
use crate::error::KernelError;
use crate::cap::types::{Cap, CapId, ObjectKind, CAP_RIGHT_READ, CAP_RIGHT_WRITE, empty_cap};
use crate::cap::cspace::MAX_PROCS;
use crate::cap::objects::{Endpoint, Net, Notification, ObjectPools, RefCounted};
use crate::cap::storage::{CapSystem, SysView, with_slot};
use crate::cap::grants::{GrantSpec, GRANT_EVENTLOG, GRANT_NET};

verus! {

/// Process id reserved for the kernel itself.
pub const PROC_ID_RESERVED: u8 = 0;
/// Process id of the signed Tier-2 UART driver.
pub const PROC_ID_TIER2_UART: u8 = 1;
/// Process id of the first Tier-1 hello instance.
pub const PROC_ID_TIER1_HELLO: u8 = 2;
/// Process id of the second Tier-1 hello instance.
pub const PROC_ID_TIER1_HELLO_B: u8 = 3;
/// Process id of the Tier-2 net driver.
pub const PROC_ID_TIER2_NET: u8 = 4;

/// Slot of a module's primary cap (UART receive on Tier-2, stdout on
/// Tier-1, the NIC on the net driver).
pub const SLOT_PRIMARY: u8 = 0;
/// Slot of the exit cap (Tier-1), or of the NIC notification (net
/// driver).
pub const SLOT_EXIT: u8 = 1;
/// Slot of a Tier-1 module's Net cap.
pub const SLOT_NET: u8 = 2;
/// Slot of the Tier-1 demo IPC endpoint.
pub const SLOT_IPC: u8 = 3;
/// Slot of a granted audit-stream cap.
pub const SLOT_EVENTLOG: u8 = 4;

/// Pool index of the UART IPC endpoint after boot.
pub const UART_EP: u16 = 0;
/// Pool index of the kernel exit endpoint after boot.
pub const EXIT_EP: u16 = 1;
/// Pool index of the shared Tier-1 demo endpoint after boot.
pub const DEMO_EP: u16 = 2;

/// Static per-module capability flags.
#[derive(Debug, Clone, Copy, PartialEq, Eq, Structural)]
pub struct Caps {
    /// May write to the console.
    pub stdout: bool,
    /// May drive the UART registers.
    pub mmio_uart: bool,
    /// May request exit.
    pub exit: bool,
}

/// The static flags a module is loaded with: the Tier-2 UART driver may
/// drive the UART registers; a Tier-1 tenant may write to the console
/// and exit; anything else gets none.
pub open spec fn caps_for_spec(tier: Tier, module_id: ModuleId) -> Caps {
    match (tier, module_id) {
        (Tier::Two, ModuleId::Tier2Uart) => Caps { stdout: false, mmio_uart: true, exit: false },
        (Tier::One, _) => Caps { stdout: true, mmio_uart: false, exit: true },
        _ => Caps { stdout: false, mmio_uart: false, exit: false },
    }
}

/// The static flags of a module of `tier` running `module_id`.
pub fn caps_for(tier: Tier, module_id: ModuleId) -> (r: Caps)
    ensures
        r == caps_for_spec(tier, module_id),
{
    match (tier, module_id) {
        (Tier::Two, ModuleId::Tier2Uart) => Caps { stdout: false, mmio_uart: true, exit: false },
        (Tier::One, _) => Caps { stdout: true, mmio_uart: false, exit: true },
        _ => Caps { stdout: false, mmio_uart: false, exit: false },
    }
}

/// A root cap: no parent, generation 0, no badge.
pub open spec fn root_cap(kind: ObjectKind, pool_index: u16, rights: u8) -> Cap {
    Cap { badge: 0, parent: CapId(0xFFFF_FFFFu32), generation: 0, pool_index, kind, rights }
}

/// The cap each CSpace position holds after boot, given the NIC pool
/// index and the NIC notification index.
pub open spec fn boot_cap(p: int, s: int, net: u16, notif: u16) -> Cap {
    let rw = (CAP_RIGHT_READ | CAP_RIGHT_WRITE) as u8;
    if p == PROC_ID_TIER2_UART && s == SLOT_PRIMARY {
        root_cap(ObjectKind::Endpoint, UART_EP, CAP_RIGHT_READ)
    } else if (p == PROC_ID_TIER1_HELLO || p == PROC_ID_TIER1_HELLO_B) && s == SLOT_PRIMARY {
        root_cap(ObjectKind::Endpoint, UART_EP, CAP_RIGHT_WRITE)
    } else if (p == PROC_ID_TIER1_HELLO || p == PROC_ID_TIER1_HELLO_B) && s == SLOT_EXIT {
        root_cap(ObjectKind::Endpoint, EXIT_EP, CAP_RIGHT_WRITE)
    } else if (p == PROC_ID_TIER1_HELLO || p == PROC_ID_TIER1_HELLO_B) && s == SLOT_NET {
        root_cap(ObjectKind::Net, net, rw)
    } else if (p == PROC_ID_TIER1_HELLO || p == PROC_ID_TIER1_HELLO_B) && s == SLOT_IPC {
        root_cap(ObjectKind::Endpoint, DEMO_EP, rw)
    } else if p == PROC_ID_TIER2_NET && s == SLOT_PRIMARY {
        root_cap(ObjectKind::Net, net, rw)
    } else if p == PROC_ID_TIER2_NET && s == SLOT_EXIT {
        root_cap(ObjectKind::Notification, notif, rw)
    } else {
        empty_cap()
    }
}

/// Process `p` holds, at slot `s`, a root cap (no parent, no badge) on
/// object `idx` of kind `kind` with exactly `rights`.
pub open spec fn holds_root(v: SysView, p: u8, s: u8, kind: ObjectKind, idx: u16, rights: u8) -> bool {
    let c = v.slots[p as int][s as int];
    &&& c.kind == kind
    &&& c.pool_index == idx
    &&& c.rights == rights
    &&& c.badge == 0
    &&& c.parent == CapId(0xFFFF_FFFFu32)
}

/// Both hello tenants boot with the same caps in every slot, and each
/// can exit: its exit slot holds a write cap on the kernel's exit
/// endpoint, beside a write cap on the UART endpoint for stdout.
pub proof fn lemma_boot_tenants_alike(net: u16, notif: u16)
    ensures
        forall|s: int| #[trigger] boot_cap(PROC_ID_TIER1_HELLO as int, s, net, notif) == boot_cap(
            PROC_ID_TIER1_HELLO_B as int,
            s,
            net,
            notif,
        ),
        forall|p: int| p == PROC_ID_TIER1_HELLO || p == PROC_ID_TIER1_HELLO_B ==> {
            let c = #[trigger] boot_cap(p, SLOT_EXIT as int, net, notif);
            let o = boot_cap(p, SLOT_PRIMARY as int, net, notif);
            &&& c.kind == ObjectKind::Endpoint && c.pool_index == EXIT_EP && c.rights == CAP_RIGHT_WRITE
            &&& o.kind == ObjectKind::Endpoint && o.pool_index == UART_EP && o.rights == CAP_RIGHT_WRITE
        },
{
}

/// Is `v` the state a fresh `CapSystem::new` produces?
pub open spec fn is_boot_state(sys: &CapSystem) -> bool {
    &&& sys.wf()
    &&& forall|p: int, s: int|
        0 <= p < MAX_PROCS && 0 <= s < 256 ==> #[trigger] sys@.slots[p][s] == empty_cap()
    &&& sys@.pools == ObjectPools::new_view()
}

/// Store a root cap in slot `(p, s)`.
fn install_root_cap(sys: &mut CapSystem, p: u8, s: u8, kind: ObjectKind, pool_index: u16, rights: u8)
    requires
        old(sys).wf(),
        p < MAX_PROCS,
    ensures
        final(sys).wf(),
        final(sys)@ == crate::cap::storage::with_slot(old(sys)@, p as int, s as int, root_cap(kind, pool_index, rights)),
{
    sys.set_slot(p, s, Cap { badge: 0, parent: CapId::root(), generation: 0, pool_index, kind, rights });
}

/// Allocate the kernel-resident objects and populate the boot modules'
/// CSpaces with their root caps. `nic_kind` selects the NIC family.
/// On success returns the pool index of the NIC notification, which the
/// caller binds to the NIC's interrupt line.
pub fn init_root_caps(sys: &mut CapSystem, nic_kind: u8) -> (r: Result<u16, KernelError>)
    requires
        is_boot_state(old(sys)),
    ensures
        final(sys).wf(),
        r == Ok::<u16, KernelError>(0),
        forall|p: int, s: int|
            0 <= p < MAX_PROCS && 0 <= s < 256 ==> #[trigger] final(sys)@.slots[p][s] == boot_cap(p, s, 0, 0),
        final(sys)@.gens == old(sys)@.gens,
        final(sys)@.pools.endpoints[UART_EP as int] matches Some(e) && e.refcount == 3,
        final(sys)@.pools.endpoints[EXIT_EP as int] matches Some(e) && e.refcount == 2,
        final(sys)@.pools.endpoints[DEMO_EP as int] matches Some(e) && e.refcount == 2,
        final(sys)@.pools.nets[0] matches Some(n) && n.refcount == 3 && n.nic_kind == nic_kind
            && !n.initialized,
        final(sys)@.pools.notifications[0] matches Some(n) && n.refcount == 1 && n.signals == 0,
        forall|i: int| 3 <= i < final(sys)@.pools.endpoints.len() ==> final(sys)@.pools.endpoints[i] is None,
        forall|i: int| 1 <= i < final(sys)@.pools.nets.len() ==> final(sys)@.pools.nets[i] is None,
        forall|i: int|
            1 <= i < final(sys)@.pools.notifications.len() ==> final(sys)@.pools.notifications[i] is None,
        final(sys)@.pools.untypeds == ObjectPools::new_view().untypeds,
        final(sys)@.pools.frames == ObjectPools::new_view().frames,
        final(sys)@.pools.sockets == ObjectPools::new_view().sockets,
        crate::cap::refcount::refcounts_consistent(final(sys)@),
        forall|s: int| 0 <= s < 256 ==> #[trigger] final(sys)@.slots[PROC_ID_TIER1_HELLO as int][s] == final(sys)@.slots[PROC_ID_TIER1_HELLO_B as int][s],
        holds_root(final(sys)@, PROC_ID_TIER2_UART, SLOT_PRIMARY, ObjectKind::Endpoint, UART_EP, CAP_RIGHT_READ),
        holds_root(final(sys)@, PROC_ID_TIER2_NET, SLOT_PRIMARY, ObjectKind::Net, 0, CAP_RIGHT_READ | CAP_RIGHT_WRITE),
        holds_root(final(sys)@, PROC_ID_TIER2_NET, SLOT_EXIT, ObjectKind::Notification, 0, CAP_RIGHT_READ | CAP_RIGHT_WRITE),
        forall|p: u8| p == PROC_ID_TIER1_HELLO || p == PROC_ID_TIER1_HELLO_B ==> {
            &&& holds_root(final(sys)@, p, SLOT_PRIMARY, ObjectKind::Endpoint, UART_EP, CAP_RIGHT_WRITE)
            &&& holds_root(final(sys)@, p, SLOT_EXIT, ObjectKind::Endpoint, EXIT_EP, CAP_RIGHT_WRITE)
            &&& holds_root(final(sys)@, p, SLOT_NET, ObjectKind::Net, 0, CAP_RIGHT_READ | CAP_RIGHT_WRITE)
            &&& holds_root(final(sys)@, p, SLOT_IPC, ObjectKind::Endpoint, DEMO_EP, CAP_RIGHT_READ | CAP_RIGHT_WRITE)
        },
{
    let ghost pre = sys@;
    assert(sys.pools.endpoints.slots@[0] is None);
    assert(sys.pools.endpoints.slots@[1] is None);
    assert(sys.pools.endpoints.slots@[2] is None);
    assert(sys.pools.nets.slots@[0] is None);
    assert(sys.pools.notifications.slots@[0] is None);
    let uart_ep = match sys.pools.endpoints.allocate(Endpoint::new()) {
        Ok(i) => i,
        Err(e) => return Err(e),
    };
    assert(sys.pools.endpoints.slots@[1] is None);
    let exit_ep = match sys.pools.endpoints.allocate(Endpoint::new()) {
        Ok(i) => i,
        Err(e) => return Err(e),
    };
    assert(uart_ep == 0 && exit_ep == 1);

    let rw: u8 = CAP_RIGHT_READ | CAP_RIGHT_WRITE;
    install_root_cap(sys, PROC_ID_TIER2_UART, SLOT_PRIMARY, ObjectKind::Endpoint, uart_ep, CAP_RIGHT_READ);
    install_root_cap(sys, PROC_ID_TIER1_HELLO, SLOT_PRIMARY, ObjectKind::Endpoint, uart_ep, CAP_RIGHT_WRITE);
    install_root_cap(sys, PROC_ID_TIER1_HELLO, SLOT_EXIT, ObjectKind::Endpoint, exit_ep, CAP_RIGHT_WRITE);
    install_root_cap(sys, PROC_ID_TIER1_HELLO_B, SLOT_PRIMARY, ObjectKind::Endpoint, uart_ep, CAP_RIGHT_WRITE);
    install_root_cap(sys, PROC_ID_TIER1_HELLO_B, SLOT_EXIT, ObjectKind::Endpoint, exit_ep, CAP_RIGHT_WRITE);

    let net_idx = match sys.pools.nets.allocate(Net::new(nic_kind)) {
        Ok(i) => i,
        Err(e) => return Err(e),
    };
    assert(net_idx == 0);
    let mut net = Net::new(nic_kind);
    net.set_refcount(3);
    sys.pools.nets.put(net_idx, net);
    install_root_cap(sys, PROC_ID_TIER2_NET, SLOT_PRIMARY, ObjectKind::Net, net_idx, rw);
    install_root_cap(sys, PROC_ID_TIER1_HELLO, SLOT_NET, ObjectKind::Net, net_idx, rw);
    install_root_cap(sys, PROC_ID_TIER1_HELLO_B, SLOT_NET, ObjectKind::Net, net_idx, rw);

    assert(sys.pools.endpoints.slots@[2] is None);
    assert(sys.pools.endpoints.slots@[0] is Some);
    assert(sys.pools.endpoints.slots@[1] is Some);
    let demo_ep = match sys.pools.endpoints.allocate(Endpoint::new()) {
        Ok(i) => i,
        Err(e) => return Err(e),
    };
    assert(demo_ep == 2);
    let mut demo = Endpoint::new();
    demo.set_refcount(2);
    sys.pools.endpoints.put(demo_ep, demo);
    install_root_cap(sys, PROC_ID_TIER1_HELLO, SLOT_IPC, ObjectKind::Endpoint, demo_ep, rw);
    install_root_cap(sys, PROC_ID_TIER1_HELLO_B, SLOT_IPC, ObjectKind::Endpoint, demo_ep, rw);

    let notif_idx = match sys.pools.notifications.allocate(Notification::new()) {
        Ok(i) => i,
        Err(e) => return Err(e),
    };
    assert(notif_idx == 0);
    let mut notif = Notification::new();
    notif.set_refcount(1);
    sys.pools.notifications.put(notif_idx, notif);
    install_root_cap(sys, PROC_ID_TIER2_NET, SLOT_EXIT, ObjectKind::Notification, notif_idx, rw);

    let mut uart = Endpoint::new();
    uart.set_refcount(3);
    sys.pools.endpoints.put(uart_ep, uart);
    let mut exit = Endpoint::new();
    exit.set_refcount(2);
    sys.pools.endpoints.put(exit_ep, exit);

    assert forall|p: int, s: int|
        0 <= p < MAX_PROCS && 0 <= s < 256 implies #[trigger] sys@.slots[p][s] == boot_cap(p, s, 0, 0) by {
        assert(pre.slots[p][s] == empty_cap());
    }
    proof {
        crate::cap::revoke::lemma_view_wf(sys);
        crate::cap::refcount::lemma_boot_refcounts(sys@);
        assert forall|s: int| 0 <= s < 256 implies #[trigger] sys@.slots[PROC_ID_TIER1_HELLO as int][s]
            == sys@.slots[PROC_ID_TIER1_HELLO_B as int][s] by {
            assert(sys@.slots[2][s] == boot_cap(2, s, 0, 0));
            assert(sys@.slots[3][s] == boot_cap(3, s, 0, 0));
        }
        assert(sys@.slots[1][0] == boot_cap(1, 0, 0, 0));
        assert(sys@.slots[4][0] == boot_cap(4, 0, 0, 0));
        assert(sys@.slots[4][1] == boot_cap(4, 1, 0, 0));
        assert forall|p: u8| p == PROC_ID_TIER1_HELLO || p == PROC_ID_TIER1_HELLO_B implies {
            &&& holds_root(sys@, p, SLOT_PRIMARY, ObjectKind::Endpoint, UART_EP, CAP_RIGHT_WRITE)
            &&& holds_root(sys@, p, SLOT_EXIT, ObjectKind::Endpoint, EXIT_EP, CAP_RIGHT_WRITE)
            &&& holds_root(sys@, p, SLOT_NET, ObjectKind::Net, 0, CAP_RIGHT_READ | CAP_RIGHT_WRITE)
            &&& holds_root(sys@, p, SLOT_IPC, ObjectKind::Endpoint, DEMO_EP, CAP_RIGHT_READ | CAP_RIGHT_WRITE)
        } by {
            assert(sys@.slots[p as int][0] == boot_cap(p as int, 0, 0, 0));
            assert(sys@.slots[p as int][1] == boot_cap(p as int, 1, 0, 0));
            assert(sys@.slots[p as int][2] == boot_cap(p as int, 2, 0, 0));
            assert(sys@.slots[p as int][3] == boot_cap(p as int, 3, 0, 0));
        }
    }
    Ok(notif_idx)
}

/// The state after installing a runtime-loaded tenant's caps in
/// process `p`: stdout and exit always, plus the Net cap and the
/// audit-stream cap when granted.
pub open spec fn grants_state(v: SysView, p: u8, granted: u32) -> SysView {
    let rw = (CAP_RIGHT_READ | CAP_RIGHT_WRITE) as u8;
    let v1 = with_slot(v, p as int, SLOT_PRIMARY as int, root_cap(ObjectKind::Endpoint, UART_EP, CAP_RIGHT_WRITE));
    let v2 = with_slot(v1, p as int, SLOT_EXIT as int, root_cap(ObjectKind::Endpoint, EXIT_EP, CAP_RIGHT_WRITE));
    let v3 = if granted & GRANT_NET != 0 {
        with_slot(v2, p as int, SLOT_NET as int, root_cap(ObjectKind::Net, 0, rw))
    } else {
        v2
    };
    if granted & GRANT_EVENTLOG != 0 {
        with_slot(v3, p as int, SLOT_EVENTLOG as int, root_cap(ObjectKind::EventLog, 0, CAP_RIGHT_READ))
    } else {
        v3
    }
}

/// Install a runtime-loaded tenant's caps: the baseline stdout and exit
/// caps, plus one cap per granted optional authority.
/// `InvalidArgument` for an out-of-range process.
pub fn install_tier1_grants(sys: &mut CapSystem, proc_id: u8, granted: GrantSpec) -> (r: Result<(), KernelError>)
    requires
        old(sys).wf(),
    ensures
        final(sys).wf(),
        proc_id >= MAX_PROCS ==> r == Err::<(), KernelError>(KernelError::InvalidArgument)
            && final(sys)@ == old(sys)@,
        proc_id < MAX_PROCS ==> r is Ok && final(sys)@ == grants_state(old(sys)@, proc_id, granted.0),
{
    if proc_id as usize >= MAX_PROCS {
        return Err(KernelError::InvalidArgument);
    }
    let rw: u8 = CAP_RIGHT_READ | CAP_RIGHT_WRITE;
    install_root_cap(sys, proc_id, SLOT_PRIMARY, ObjectKind::Endpoint, UART_EP, CAP_RIGHT_WRITE);
    install_root_cap(sys, proc_id, SLOT_EXIT, ObjectKind::Endpoint, EXIT_EP, CAP_RIGHT_WRITE);
    if granted.0 & GRANT_NET != 0 {
        install_root_cap(sys, proc_id, SLOT_NET, ObjectKind::Net, 0, rw);
    }
    if granted.0 & GRANT_EVENTLOG != 0 {
        install_root_cap(sys, proc_id, SLOT_EVENTLOG, ObjectKind::EventLog, 0, CAP_RIGHT_READ);
    }
    Ok(())
}

} // verus!
