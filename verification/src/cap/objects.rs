//! Kernel objects that capabilities refer to, the fixed-capacity pools
//! that hold them, and their reference counts.

use vstd::prelude::*;
use crate::error::KernelError;
use crate::cap::types::ObjectKind;

verus! {

/// Capacity of the endpoint pool.
pub const ENDPOINT_POOL_CAPACITY: usize = 64;
/// Capacity of the notification pool.
pub const NOTIFICATION_POOL_CAPACITY: usize = 64;
/// Capacity of the untyped-memory pool.
pub const UNTYPED_POOL_CAPACITY: usize = 64;
/// Capacity of the frame pool.
pub const FRAME_POOL_CAPACITY: usize = 64;
/// Capacity of the NIC pool.
pub const NET_POOL_CAPACITY: usize = 4;
/// Capacity of the socket pool.
pub const SOCKET_POOL_CAPACITY: usize = 64;
/// Capacity of each endpoint wait queue.
pub const QUEUE_CAPACITY: usize = 16;

/// A FIFO of process ids waiting on an endpoint, bounded by
/// `QUEUE_CAPACITY`.
#[derive(Clone, Copy)]
pub struct BoundedQueue {
    /// Queue storage, front first.
    pub items: [u8; 16],
    /// Number of queued entries; a value above 16 counts as 16.
    pub len: u8,
}

/// The number of meaningful entries of a queue.
pub open spec fn queue_len(q: BoundedQueue) -> int {
    if q.len <= 16 {
        q.len as int
    } else {
        16
    }
}

impl View for BoundedQueue {
    type V = Seq<u8>;

    open spec fn view(&self) -> Seq<u8> {
        self.items@.subrange(0, queue_len(*self))
    }
}

impl BoundedQueue {
    /// An empty queue.
    pub fn new() -> (r: Self)
        ensures
            r@ == Seq::<u8>::empty(),
    {
        let r = BoundedQueue { items: [0u8; 16], len: 0 };
        assert(r@ =~= Seq::<u8>::empty());
        r
    }

    /// Append `pid` at the back; `Err(())` when the queue is full.
    pub fn push(&mut self, pid: u8) -> (r: Result<(), ()>)
        ensures
            r is Ok <==> old(self)@.len() < 16,
            r is Ok ==> final(self)@ == old(self)@.push(pid),
            r is Err ==> *final(self) == *old(self),
    {
        if self.len >= 16 {
            return Err(());
        }
        let n = self.len as usize;
        self.items[n] = pid;
        self.len = self.len + 1;
        assert(self@ =~= old(self)@.push(pid));
        Ok(())
    }

    /// Remove and return the front entry, if any.
    pub fn pop(&mut self) -> (r: Option<u8>)
        ensures
            old(self)@.len() == 0 ==> r is None && *final(self) == *old(self),
            old(self)@.len() > 0 ==> r == Some(old(self)@[0]) && final(self)@ == old(self)@.drop_first(),
    {
        if self.len == 0 {
            return None;
        }
        let front = self.items[0];
        let n: usize = if self.len > 16 {
            16
        } else {
            self.len as usize
        };
        let mut i: usize = 0;
        while i + 1 < n
            invariant
                n == queue_len(*old(self)),
                1 <= n <= 16,
                i < n,
                forall|j: int| 0 <= j < i ==> #[trigger] self.items@[j] == old(self).items@[j + 1],
                forall|j: int| i <= j < 16 ==> #[trigger] self.items@[j] == old(self).items@[j],
            decreases n - i,
        {
            let next = self.items[i + 1];
            self.items[i] = next;
            i = i + 1;
        }
        self.len = (n - 1) as u8;
        assert(self@ =~= old(self)@.drop_first());
        Some(front)
    }
}

/// Synchronous IPC rendezvous point.
#[derive(Clone, Copy)]
pub struct Endpoint {
    /// Number of caps referring to this endpoint.
    pub refcount: u16,
    /// Processes blocked sending on this endpoint.
    pub senders: BoundedQueue,
    /// Processes blocked receiving on this endpoint.
    pub receivers: BoundedQueue,
}

impl Endpoint {
    /// A fresh endpoint with no references and empty queues.
    pub fn new() -> (r: Self)
        ensures
            r.refcount == 0,
            r.senders@ == Seq::<u8>::empty(),
            r.receivers@ == Seq::<u8>::empty(),
    {
        Endpoint { refcount: 0, senders: BoundedQueue::new(), receivers: BoundedQueue::new() }
    }
}

/// Asynchronous signal word.
#[derive(Clone, Copy)]
pub struct Notification {
    /// Pending signal bits.
    pub signals: u32,
    /// Number of caps referring to this notification.
    pub refcount: u16,
}

impl Notification {
    /// A fresh notification with no pending signals.
    pub fn new() -> (r: Self)
        ensures
            r.signals == 0,
            r.refcount == 0,
    {
        Notification { signals: 0, refcount: 0 }
    }
}

/// Untyped memory.
#[derive(Clone, Copy)]
pub struct Untyped {
    /// Number of caps referring to this object.
    pub refcount: u16,
}

/// A physical page.
#[derive(Clone, Copy)]
pub struct Frame {
    /// Number of caps referring to this object.
    pub refcount: u16,
}

/// A network interface.
#[derive(Clone, Copy)]
pub struct Net {
    /// MAC address reported by the driver.
    pub mac: [u8; 6],
    /// Set once the driver has brought the NIC up.
    pub initialized: bool,
    /// Which NIC family (0 = VirtIO, 1 = GMAC).
    pub nic_kind: u8,
    /// Number of caps referring to this NIC.
    pub refcount: u16,
}

impl Net {
    /// A NIC of the given family, not yet initialized.
    pub fn new(nic_kind: u8) -> (r: Self)
        ensures
            r.nic_kind == nic_kind,
            !r.initialized,
            r.refcount == 0,
            r.mac@ == seq![0u8, 0u8, 0u8, 0u8, 0u8, 0u8],
    {
        Net { mac: [0u8; 6], initialized: false, nic_kind, refcount: 0 }
    }
}

/// A tenant socket backed by a socket inside the net driver.
#[derive(Clone, Copy)]
pub struct Socket {
    /// Pool index of the NIC the socket lives on.
    pub net_pool_idx: u16,
    /// The driver-side socket handle.
    pub smoltcp_handle: u32,
    /// Number of caps referring to this socket.
    pub refcount: u16,
}

impl Socket {
    /// A socket record for driver handle `smoltcp_handle` on NIC
    /// `net_pool_idx`.
    pub fn new(net_pool_idx: u16, smoltcp_handle: u32) -> (r: Self)
        ensures
            r.net_pool_idx == net_pool_idx,
            r.smoltcp_handle == smoltcp_handle,
            r.refcount == 0,
    {
        Socket { net_pool_idx, smoltcp_handle, refcount: 0 }
    }
}

/// An object whose lifetime is governed by a reference count.
pub trait RefCounted: Sized + Copy {
    /// The object's reference count.
    spec fn rc(&self) -> u16;

    /// The object with its reference count replaced by `n`.
    spec fn with_rc(&self, n: u16) -> Self;

    /// Replacing the count gives an object with that count.
    proof fn lemma_with_rc(&self, n: u16)
        ensures
            self.with_rc(n).rc() == n,
    ;

    /// Read the reference count.
    fn refcount(&self) -> (r: u16)
        ensures
            r == self.rc(),
    ;

    /// Replace the reference count.
    fn set_refcount(&mut self, n: u16)
        ensures
            *final(self) == old(self).with_rc(n),
    ;
}

impl RefCounted for Endpoint {
    open spec fn rc(&self) -> u16 {
        self.refcount
    }

    open spec fn with_rc(&self, n: u16) -> Self {
        Endpoint { refcount: n, ..*self }
    }

    fn refcount(&self) -> (r: u16) {
        self.refcount
    }

    fn set_refcount(&mut self, n: u16) {
        self.refcount = n;
    }

    proof fn lemma_with_rc(&self, n: u16) {
    }
}

impl RefCounted for Notification {
    open spec fn rc(&self) -> u16 {
        self.refcount
    }

    open spec fn with_rc(&self, n: u16) -> Self {
        Notification { refcount: n, ..*self }
    }

    fn refcount(&self) -> (r: u16) {
        self.refcount
    }

    fn set_refcount(&mut self, n: u16) {
        self.refcount = n;
    }

    proof fn lemma_with_rc(&self, n: u16) {
    }
}

impl RefCounted for Untyped {
    open spec fn rc(&self) -> u16 {
        self.refcount
    }

    open spec fn with_rc(&self, n: u16) -> Self {
        Untyped { refcount: n }
    }

    fn refcount(&self) -> (r: u16) {
        self.refcount
    }

    fn set_refcount(&mut self, n: u16) {
        self.refcount = n;
    }

    proof fn lemma_with_rc(&self, n: u16) {
    }
}

impl RefCounted for Frame {
    open spec fn rc(&self) -> u16 {
        self.refcount
    }

    open spec fn with_rc(&self, n: u16) -> Self {
        Frame { refcount: n }
    }

    fn refcount(&self) -> (r: u16) {
        self.refcount
    }

    fn set_refcount(&mut self, n: u16) {
        self.refcount = n;
    }

    proof fn lemma_with_rc(&self, n: u16) {
    }
}

impl RefCounted for Net {
    open spec fn rc(&self) -> u16 {
        self.refcount
    }

    open spec fn with_rc(&self, n: u16) -> Self {
        Net { refcount: n, ..*self }
    }

    fn refcount(&self) -> (r: u16) {
        self.refcount
    }

    fn set_refcount(&mut self, n: u16) {
        self.refcount = n;
    }

    proof fn lemma_with_rc(&self, n: u16) {
    }
}

impl RefCounted for Socket {
    open spec fn rc(&self) -> u16 {
        self.refcount
    }

    open spec fn with_rc(&self, n: u16) -> Self {
        Socket { refcount: n, ..*self }
    }

    fn refcount(&self) -> (r: u16) {
        self.refcount
    }

    fn set_refcount(&mut self, n: u16) {
        self.refcount = n;
    }

    proof fn lemma_with_rc(&self, n: u16) {
    }
}

/// The pool contents after one more reference to entry `idx`: its
/// count grows by one, saturating; a free or absent entry is left alone.
pub open spec fn pool_inc<T: RefCounted>(s: Seq<Option<T>>, idx: int) -> Seq<Option<T>> {
    if 0 <= idx < s.len() && s[idx] is Some {
        let o = s[idx]->Some_0;
        let n: u16 = if o.rc() == u16::MAX {
            u16::MAX
        } else {
            (o.rc() + 1) as u16
        };
        s.update(idx, Some(o.with_rc(n)))
    } else {
        s
    }
}

/// The pool contents after one reference to entry `idx` is dropped:
/// its count falls by one, saturating at zero, and the entry is freed
/// when the count reaches zero; a free or absent entry is left alone.
pub open spec fn pool_dec<T: RefCounted>(s: Seq<Option<T>>, idx: int) -> Seq<Option<T>> {
    if 0 <= idx < s.len() && s[idx] is Some {
        let o = s[idx]->Some_0;
        if o.rc() <= 1 {
            s.update(idx, None)
        } else {
            s.update(idx, Some(o.with_rc((o.rc() - 1) as u16)))
        }
    } else {
        s
    }
}

/// A fixed-capacity slab of kernel objects, addressed by `u16` index.
pub struct Pool<T> {
    /// The slots; `None` marks a free slot.
    pub slots: Vec<Option<T>>,
}

impl<T: RefCounted> Pool<T> {
    /// An empty pool of `capacity` slots.
    pub fn new(capacity: usize) -> (r: Self)
        requires
            capacity <= 65535,
        ensures
            r.slots@.len() == capacity,
            forall|i: int| 0 <= i < capacity ==> #[trigger] r.slots@[i] is None,
    {
        let mut slots: Vec<Option<T>> = Vec::new();
        let mut i: usize = 0;
        while i < capacity
            invariant
                i <= capacity,
                slots@.len() == i,
                forall|j: int| 0 <= j < i ==> #[trigger] slots@[j] is None,
            decreases capacity - i,
        {
            slots.push(None);
            i = i + 1;
        }
        Pool { slots }
    }

    /// Store `item` in the first free slot and return its index;
    /// `OutOfHandles` when the pool is full.
    pub fn allocate(&mut self, item: T) -> (r: Result<u16, KernelError>)
        requires
            old(self).slots@.len() <= 65535,
        ensures
            match r {
                Ok(i) => {
                    &&& i < old(self).slots@.len()
                    &&& old(self).slots@[i as int] is None
                    &&& forall|j: int| 0 <= j < i ==> #[trigger] old(self).slots@[j] is Some
                    &&& final(self).slots@ == old(self).slots@.update(i as int, Some(item))
                },
                Err(e) => {
                    &&& e == KernelError::OutOfHandles
                    &&& forall|j: int| 0 <= j < old(self).slots@.len() ==> #[trigger] old(self).slots@[j] is Some
                    &&& final(self).slots@ == old(self).slots@
                },
            },
    {
        let n = self.slots.len();
        let mut i: usize = 0;
        while i < n
            invariant
                n == self.slots@.len(),
                n <= 65535,
                i <= n,
                self.slots@ == old(self).slots@,
                forall|j: int| 0 <= j < i ==> #[trigger] self.slots@[j] is Some,
            decreases n - i,
        {
            if self.slots[i].is_none() {
                self.slots.set(i, Some(item));
                return Ok(i as u16);
            }
            i = i + 1;
        }
        Err(KernelError::OutOfHandles)
    }

    /// The object at `idx`, if that slot is allocated.
    pub fn get(&self, idx: u16) -> (r: Option<&T>)
        ensures
            (idx < self.slots@.len() && self.slots@[idx as int] is Some) ==> (r matches Some(o)
                && *o == self.slots@[idx as int]->Some_0),
            !(idx < self.slots@.len() && self.slots@[idx as int] is Some) ==> r is None,
    {
        let i = idx as usize;
        if i < self.slots.len() {
            match &self.slots[i] {
                Some(o) => Some(o),
                None => None,
            }
        } else {
            None
        }
    }

    /// Replace the object at an allocated slot `idx`.
    pub fn put(&mut self, idx: u16, o: T)
        requires
            idx < old(self).slots@.len(),
        ensures
            final(self).slots@ == old(self).slots@.update(idx as int, Some(o)),
    {
        self.slots.set(idx as usize, Some(o));
    }

    /// Take one more reference to entry `idx` (saturating).
    pub fn inc(&mut self, idx: u16)
        ensures
            final(self).slots@ == pool_inc(old(self).slots@, idx as int),
    {
        let i = idx as usize;
        if i < self.slots.len() {
            match self.slots[i] {
                Some(o) => {
                    let mut o2 = o;
                    let c = o2.refcount();
                    o2.set_refcount(c.saturating_add(1));
                    self.slots.set(i, Some(o2));
                },
                None => {},
            }
        }
    }

    /// Drop one reference to entry `idx`, freeing the entry when its
    /// count reaches zero.
    pub fn dec(&mut self, idx: u16)
        ensures
            final(self).slots@ == pool_dec(old(self).slots@, idx as int),
    {
        let i = idx as usize;
        if i < self.slots.len() {
            match self.slots[i] {
                Some(o) => {
                    let c = o.refcount();
                    if c <= 1 {
                        self.slots.set(i, None);
                    } else {
                        let mut o2 = o;
                        o2.set_refcount(c - 1);
                        self.slots.set(i, Some(o2));
                    }
                },
                None => {},
            }
        }
    }
}

/// The contents of every object pool.
pub struct PoolsView {
    pub endpoints: Seq<Option<Endpoint>>,
    pub notifications: Seq<Option<Notification>>,
    pub untypeds: Seq<Option<Untyped>>,
    pub frames: Seq<Option<Frame>>,
    pub nets: Seq<Option<Net>>,
    pub sockets: Seq<Option<Socket>>,
}

/// The pools after one reference to `(kind, idx)` is taken.
pub open spec fn pools_inc(v: PoolsView, kind: ObjectKind, idx: u16) -> PoolsView {
    match kind {
        ObjectKind::Empty => v,
        ObjectKind::Endpoint => PoolsView { endpoints: pool_inc(v.endpoints, idx as int), ..v },
        ObjectKind::Notification => PoolsView {
            notifications: pool_inc(v.notifications, idx as int),
            ..v
        },
        ObjectKind::Untyped => PoolsView { untypeds: pool_inc(v.untypeds, idx as int), ..v },
        ObjectKind::Frame => PoolsView { frames: pool_inc(v.frames, idx as int), ..v },
        ObjectKind::Net => PoolsView { nets: pool_inc(v.nets, idx as int), ..v },
        ObjectKind::Socket => PoolsView { sockets: pool_inc(v.sockets, idx as int), ..v },
        ObjectKind::EventLog => v,
    }
}

/// The pools after one reference to `(kind, idx)` is dropped.
pub open spec fn pools_dec(v: PoolsView, kind: ObjectKind, idx: u16) -> PoolsView {
    match kind {
        ObjectKind::Empty => v,
        ObjectKind::Endpoint => PoolsView { endpoints: pool_dec(v.endpoints, idx as int), ..v },
        ObjectKind::Notification => PoolsView {
            notifications: pool_dec(v.notifications, idx as int),
            ..v
        },
        ObjectKind::Untyped => PoolsView { untypeds: pool_dec(v.untypeds, idx as int), ..v },
        ObjectKind::Frame => PoolsView { frames: pool_dec(v.frames, idx as int), ..v },
        ObjectKind::Net => PoolsView { nets: pool_dec(v.nets, idx as int), ..v },
        ObjectKind::Socket => PoolsView { sockets: pool_dec(v.sockets, idx as int), ..v },
        ObjectKind::EventLog => v,
    }
}

/// The global per-kind object pools.
pub struct ObjectPools {
    pub endpoints: Pool<Endpoint>,
    pub notifications: Pool<Notification>,
    pub untypeds: Pool<Untyped>,
    pub frames: Pool<Frame>,
    pub nets: Pool<Net>,
    pub sockets: Pool<Socket>,
}

impl View for ObjectPools {
    type V = PoolsView;

    open spec fn view(&self) -> PoolsView {
        PoolsView {
            endpoints: self.endpoints.slots@,
            notifications: self.notifications.slots@,
            untypeds: self.untypeds.slots@,
            frames: self.frames.slots@,
            nets: self.nets.slots@,
            sockets: self.sockets.slots@,
        }
    }
}

impl ObjectPools {
    /// Every pool has its fixed capacity.
    pub open spec fn wf(&self) -> bool {
        &&& self.endpoints.slots@.len() == ENDPOINT_POOL_CAPACITY
        &&& self.notifications.slots@.len() == NOTIFICATION_POOL_CAPACITY
        &&& self.untypeds.slots@.len() == UNTYPED_POOL_CAPACITY
        &&& self.frames.slots@.len() == FRAME_POOL_CAPACITY
        &&& self.nets.slots@.len() == NET_POOL_CAPACITY
        &&& self.sockets.slots@.len() == SOCKET_POOL_CAPACITY
    }

    /// Empty pools of the fixed capacities.
    pub open spec fn new_view() -> PoolsView {
        PoolsView {
            endpoints: Seq::new(ENDPOINT_POOL_CAPACITY as nat, |i: int| None),
            notifications: Seq::new(NOTIFICATION_POOL_CAPACITY as nat, |i: int| None),
            untypeds: Seq::new(UNTYPED_POOL_CAPACITY as nat, |i: int| None),
            frames: Seq::new(FRAME_POOL_CAPACITY as nat, |i: int| None),
            nets: Seq::new(NET_POOL_CAPACITY as nat, |i: int| None),
            sockets: Seq::new(SOCKET_POOL_CAPACITY as nat, |i: int| None),
        }
    }

    /// Empty pools of the fixed capacities.
    pub fn new() -> (r: Self)
        ensures
            r.wf(),
            r@ == Self::new_view(),
    {
        let r = ObjectPools {
            endpoints: Pool::new(ENDPOINT_POOL_CAPACITY),
            notifications: Pool::new(NOTIFICATION_POOL_CAPACITY),
            untypeds: Pool::new(UNTYPED_POOL_CAPACITY),
            frames: Pool::new(FRAME_POOL_CAPACITY),
            nets: Pool::new(NET_POOL_CAPACITY),
            sockets: Pool::new(SOCKET_POOL_CAPACITY),
        };
        assert(r@.endpoints =~= Self::new_view().endpoints);
        assert(r@.notifications =~= Self::new_view().notifications);
        assert(r@.untypeds =~= Self::new_view().untypeds);
        assert(r@.frames =~= Self::new_view().frames);
        assert(r@.nets =~= Self::new_view().nets);
        assert(r@.sockets =~= Self::new_view().sockets);
        r
    }

    /// Take one more reference to the object `(kind, pool_index)`
    /// (saturating); an `Empty` or `EventLog` kind (which has no pool)
    /// or a free slot is left alone.
    pub fn inc_refcount(&mut self, kind: ObjectKind, pool_index: u16)
        ensures
            final(self)@ == pools_inc(old(self)@, kind, pool_index),
    {
        match kind {
            ObjectKind::Empty => {},
            ObjectKind::Endpoint => self.endpoints.inc(pool_index),
            ObjectKind::Notification => self.notifications.inc(pool_index),
            ObjectKind::Untyped => self.untypeds.inc(pool_index),
            ObjectKind::Frame => self.frames.inc(pool_index),
            ObjectKind::Net => self.nets.inc(pool_index),
            ObjectKind::Socket => self.sockets.inc(pool_index),
            ObjectKind::EventLog => {},
        }
    }

    /// Drop one reference to the object `(kind, pool_index)`, freeing
    /// it when its count reaches zero.
    pub fn dec_refcount(&mut self, kind: ObjectKind, pool_index: u16)
        ensures
            final(self)@ == pools_dec(old(self)@, kind, pool_index),
    {
        match kind {
            ObjectKind::Empty => {},
            ObjectKind::Endpoint => self.endpoints.dec(pool_index),
            ObjectKind::Notification => self.notifications.dec(pool_index),
            ObjectKind::Untyped => self.untypeds.dec(pool_index),
            ObjectKind::Frame => self.frames.dec(pool_index),
            ObjectKind::Net => self.nets.dec(pool_index),
            ObjectKind::Socket => self.sockets.dec(pool_index),
            ObjectKind::EventLog => {},
        }
    }
}

} // verus!
