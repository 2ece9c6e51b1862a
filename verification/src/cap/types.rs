//! Capability primitive types: `ObjectKind`, `CapId`, `Cap`, and the
//! pure mint operation `Cap::derive` that enforces rights monotonicity
//! and kind/pool preservation.

use vstd::prelude::*;
use crate::error::KernelError;

verus! {

/// Kind of kernel object a capability refers to; `Empty` marks an
/// unused CSpace slot.
#[derive(Debug, Clone, Copy, PartialEq, Eq, Structural)]
pub enum ObjectKind {
    /// Slot is unoccupied.
    Empty,
    /// Synchronous IPC rendezvous point.
    Endpoint,
    /// Asynchronous binary signal.
    Notification,
    /// Untyped memory, retypable into other objects.
    Untyped,
    /// A 4 KiB physical page.
    Frame,
    /// NIC handle (driver-only).
    Net,
    /// Per-tenant TCP/UDP socket.
    Socket,
    /// Read access to the kernel audit stream.
    EventLog,
}

/// The stable one-byte discriminant of each kind.
pub open spec fn object_kind_code(k: ObjectKind) -> u8 {
    match k {
        ObjectKind::Empty => 0,
        ObjectKind::Endpoint => 1,
        ObjectKind::Notification => 2,
        ObjectKind::Untyped => 3,
        ObjectKind::Frame => 4,
        ObjectKind::Net => 5,
        ObjectKind::Socket => 6,
        ObjectKind::EventLog => 7,
    }
}

impl ObjectKind {
    /// The one-byte discriminant of this kind.
    pub fn to_raw(self) -> (r: u8)
        ensures
            r == object_kind_code(self),
    {
        match self {
            ObjectKind::Empty => 0,
            ObjectKind::Endpoint => 1,
            ObjectKind::Notification => 2,
            ObjectKind::Untyped => 3,
            ObjectKind::Frame => 4,
            ObjectKind::Net => 5,
            ObjectKind::Socket => 6,
            ObjectKind::EventLog => 7,
        }
    }
}

/// Globally-unique reference to a CSpace slot:
/// `generation << 16 | proc_id << 8 | slot`. `u32::MAX` is the root
/// sentinel carried by the caps the kernel issues at boot.
#[derive(Debug, Clone, Copy, PartialEq, Eq, Structural)]
pub struct CapId(pub u32);

/// The encoding of a `(proc_id, slot, generation)` triple.
pub open spec fn cap_id_value(proc_id: u8, slot: u8, generation: u16) -> u32 {
    (generation * 65536 + proc_id * 256 + slot) as u32
}

impl CapId {
    /// The root sentinel, carried by the caps the kernel issues at boot,
    /// which have no parent.
    pub fn root() -> (r: Self)
        ensures
            r.0 == u32::MAX,
    {
        CapId(0xFFFF_FFFFu32)
    }

    /// Construct a `CapId` from its three components.
    pub fn new(proc_id: u8, slot: u8, generation: u16) -> (r: Self)
        ensures
            r.0 == cap_id_value(proc_id, slot, generation),
    {
        let g = generation as u32;
        let p = proc_id as u32;
        let s = slot as u32;
        let val: u32 = (g << 16) | (p << 8) | s;
        assert(((g << 16) | (p << 8) | s) == g * 65536 + p * 256 + s) by (bit_vector)
            requires
                g < 65536,
                p < 256,
                s < 256,
        ;
        CapId(val)
    }

    /// Process id encoded in this id.
    pub fn proc_id(self) -> (r: u8)
        ensures
            r == (self.0 / 256) % 256,
    {
        let v = self.0;
        assert(((v >> 8) & 0xFF) == (v / 256) % 256) by (bit_vector);
        ((v >> 8) & 0xFF) as u8
    }

    /// Slot index encoded in this id.
    pub fn slot(self) -> (r: u8)
        ensures
            r == self.0 % 256,
    {
        let v = self.0;
        assert((v & 0xFF) == v % 256) by (bit_vector);
        (v & 0xFF) as u8
    }

    /// Generation counter encoded in this id.
    pub fn generation(self) -> (r: u16)
        ensures
            r == self.0 / 65536,
    {
        let v = self.0;
        assert(((v >> 16) & 0xFFFF) == v / 65536) by (bit_vector);
        ((v >> 16) & 0xFFFF) as u16
    }

    /// `true` if this id is the root sentinel.
    pub fn is_root(self) -> (r: bool)
        ensures
            r == (self.0 == u32::MAX),
    {
        self.0 == u32::MAX
    }
}

/// Decoding the components of a constructed id gives back the
/// components; the id is the root sentinel only for the all-ones triple.
pub proof fn lemma_cap_id_round_trip(proc_id: u8, slot: u8, generation: u16)
    ensures
        ({
            let v = cap_id_value(proc_id, slot, generation);
            &&& (v / 256) % 256 == proc_id
            &&& v % 256 == slot
            &&& v / 65536 == generation
            &&& (v == u32::MAX) == (proc_id == 255 && slot == 255 && generation == 65535)
        }),
{
    let v = cap_id_value(proc_id, slot, generation);
    assert(v == generation * 65536 + proc_id * 256 + slot);
    assert((generation * 65536 + proc_id * 256 + slot) % 256 == slot) by (nonlinear_arith)
        requires
            slot < 256,
            proc_id < 256,
    ;
    assert((generation * 65536 + proc_id * 256 + slot) / 256 == generation * 256 + proc_id)
        by (nonlinear_arith)
        requires
            slot < 256,
            proc_id < 256,
    ;
    assert((generation * 256 + proc_id) % 256 == proc_id) by (nonlinear_arith)
        requires
            proc_id < 256,
    ;
    assert((generation * 65536 + proc_id * 256 + slot) / 65536 == generation) by (nonlinear_arith)
        requires
            slot < 256,
            proc_id < 256,
    ;
}

/// May read object state (e.g. recv on an Endpoint).
pub const CAP_RIGHT_READ: u8 = 1;
/// May modify object state (e.g. send on an Endpoint).
pub const CAP_RIGHT_WRITE: u8 = 2;
/// May pass this cap to other processes via IPC.
pub const CAP_RIGHT_GRANT: u8 = 4;
/// May pass via the reply path of a synchronous IPC.
pub const CAP_RIGHT_GRANT_REPLY: u8 = 8;
/// The rights bits in use; bits 4 to 7 are reserved.
pub const CAP_RIGHTS_PHASE_1B_MASK: u8 = 15;

/// Every bit set in `a` is set in `b`.
pub open spec fn rights_subset(a: u8, b: u8) -> bool {
    a & !b == 0
}

/// Rights inclusion is transitive, so a chain of derivations never
/// gains a right its root lacked.
pub proof fn lemma_rights_subset_transitive(a: u8, b: u8, c: u8)
    requires
        rights_subset(a, b),
        rights_subset(b, c),
    ensures
        rights_subset(a, c),
{
    assert(a & !b == 0 && b & !c == 0 ==> a & !c == 0) by (bit_vector);
}

/// A 16-byte runtime capability.
#[derive(Debug, Clone, Copy, PartialEq, Eq, Structural)]
pub struct Cap {
    /// Endpoint badge (caller id); zero for other kinds.
    pub badge: u32,
    /// Parent cap reference; `CapId::root()` for caps the kernel issues
    /// at boot.
    pub parent: CapId,
    /// Generation of the holder slot at mint time.
    pub generation: u32,
    /// Index into the per-kind kernel object pool.
    pub pool_index: u16,
    /// Kind of kernel object this cap references.
    pub kind: ObjectKind,
    /// Rights bitmap.
    pub rights: u8,
}

/// The unoccupied cap.
pub open spec fn empty_cap() -> Cap {
    Cap {
        badge: 0,
        parent: CapId(0xFFFF_FFFFu32),
        generation: 0,
        pool_index: 0xFFFF,
        kind: ObjectKind::Empty,
        rights: 0,
    }
}

/// What `Cap::derive` produces from a parent: an error when the parent
/// is empty or reserved rights bits are requested (`InvalidArgument`),
/// or the requested rights are not a subset of the parent's
/// (`PermissionDenied`); otherwise a child with the parent's kind and
/// pool index, the requested rights, the badge for Endpoints only, the
/// given parent id, and generation 0.
pub open spec fn derive_spec(parent: Cap, parent_id: CapId, requested_rights: u8, badge: u32) -> Result<
    Cap,
    KernelError,
> {
    if parent.kind == ObjectKind::Empty {
        Err(KernelError::InvalidArgument)
    } else if !rights_subset(requested_rights, CAP_RIGHTS_PHASE_1B_MASK) {
        Err(KernelError::InvalidArgument)
    } else if !rights_subset(requested_rights, parent.rights) {
        Err(KernelError::PermissionDenied)
    } else {
        Ok(
            Cap {
                badge: if parent.kind == ObjectKind::Endpoint {
                    badge
                } else {
                    0
                },
                parent: parent_id,
                generation: 0,
                pool_index: parent.pool_index,
                kind: parent.kind,
                rights: requested_rights,
            },
        )
    }
}

impl Cap {
    /// The unoccupied cap, the initial value of every CSpace slot.
    pub fn empty() -> (r: Self)
        ensures
            r == empty_cap(),
    {
        Cap {
            badge: 0,
            parent: CapId(0xFFFF_FFFFu32),
            generation: 0,
            pool_index: 0xFFFF,
            kind: ObjectKind::Empty,
            rights: 0,
        }
    }

    /// `true` if this cap is unoccupied.
    pub fn is_empty(&self) -> (r: bool)
        ensures
            r == (self.kind == ObjectKind::Empty),
    {
        match self.kind {
            ObjectKind::Empty => true,
            _ => false,
        }
    }

    /// Derive a child cap from a parent (the pure core of mint).
    pub fn derive(parent: &Cap, parent_id: CapId, requested_rights: u8, badge: u32) -> (r: Result<
        Cap,
        KernelError,
    >)
        ensures
            r == derive_spec(*parent, parent_id, requested_rights, badge),
            r is Ok <==> parent.kind != ObjectKind::Empty && requested_rights & !CAP_RIGHTS_PHASE_1B_MASK == 0
                && requested_rights & !parent.rights == 0,
            r matches Ok(c) ==> {
                &&& c.rights == requested_rights
                &&& c.kind == parent.kind
                &&& c.pool_index == parent.pool_index
                &&& c.parent == parent_id
                &&& c.generation == 0
                &&& parent.kind == ObjectKind::Endpoint ==> c.badge == badge
                &&& parent.kind != ObjectKind::Endpoint ==> c.badge == 0
            },
    {
        if parent.is_empty() {
            return Err(KernelError::InvalidArgument);
        }
        if requested_rights & !CAP_RIGHTS_PHASE_1B_MASK != 0 {
            return Err(KernelError::InvalidArgument);
        }
        if requested_rights & !parent.rights != 0 {
            return Err(KernelError::PermissionDenied);
        }
        let b = match parent.kind {
            ObjectKind::Endpoint => badge,
            _ => 0,
        };
        Ok(
            Cap {
                badge: b,
                parent: parent_id,
                generation: 0,
                pool_index: parent.pool_index,
                kind: parent.kind,
                rights: requested_rights,
            },
        )
    }
}

/// A derived child never holds a right its parent lacks, never uses a
/// reserved bit, and refers to the same kernel object as its parent.
pub proof fn lemma_derive_monotone(parent: Cap, parent_id: CapId, requested_rights: u8, badge: u32)
    ensures
        derive_spec(parent, parent_id, requested_rights, badge) matches Ok(child) ==> {
            &&& rights_subset(child.rights, parent.rights)
            &&& rights_subset(child.rights, CAP_RIGHTS_PHASE_1B_MASK)
            &&& child.kind == parent.kind
            &&& child.pool_index == parent.pool_index
            &&& child.kind != ObjectKind::Empty
            &&& parent.kind == ObjectKind::Endpoint ==> child.badge == badge
            &&& parent.kind != ObjectKind::Endpoint ==> child.badge == 0
        },
{
}

} // verus!
