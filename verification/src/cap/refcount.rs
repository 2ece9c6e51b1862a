//! Reference counts against capabilities: an object's recorded count is
//! the number of capabilities, over every CSpace, that name it. Minting,
//! copying, deleting and revoking keep that so, which is why an object
//! is freed exactly when its last capability goes.

use vstd::prelude::*;
use crate::cap::cspace::MAX_PROCS;
use crate::cap::objects::{pool_dec, pool_inc, pools_dec, pools_inc, PoolsView, RefCounted};
use crate::cap::revoke::{cap_at, vacate_all, valid_pos, view_wf};
use crate::cap::storage::SysView;
use crate::cap::syscall::{copy_cap, delete_target, install_state, mint_child, vacate_state};
use crate::cap::types::{Cap, ObjectKind};
use crate::cap::boot::boot_cap;

verus! {

/// Does `c` name object `(k, i)`?
pub open spec fn names(c: Cap, k: ObjectKind, i: u16) -> bool {
    c.kind == k && c.pool_index == i
}

/// `1` when `c` names `(k, i)`, else `0`.
pub open spec fn ind(c: Cap, k: ObjectKind, i: u16) -> nat {
    if names(c, k, i) {
        1
    } else {
        0
    }
}

/// How many caps of `caps` name `(k, i)`.
pub open spec fn count_in(caps: Seq<Cap>, k: ObjectKind, i: u16) -> nat
    decreases caps.len(),
{
    if caps.len() == 0 {
        0
    } else {
        count_in(caps.drop_last(), k, i) + ind(caps.last(), k, i)
    }
}

/// How many caps of the CSpaces `0..n` name `(k, i)`.
pub open spec fn holders_upto(slots: Seq<Seq<Cap>>, n: int, k: ObjectKind, i: u16) -> nat
    decreases n,
{
    if n <= 0 {
        0
    } else {
        holders_upto(slots, n - 1, k, i) + count_in(slots[n - 1], k, i)
    }
}

/// How many caps in the system name `(k, i)`.
pub open spec fn holders(v: SysView, k: ObjectKind, i: u16) -> nat {
    holders_upto(v.slots, MAX_PROCS as int, k, i)
}

/// The count of entry `i` of a pool, `0` for a free or absent entry.
pub open spec fn rc_at<T: RefCounted>(s: Seq<Option<T>>, i: int) -> nat {
    if 0 <= i < s.len() && s[i] is Some {
        s[i]->Some_0.rc() as nat
    } else {
        0
    }
}

/// The count the pools record for object `(k, i)`.
pub open spec fn recorded(p: PoolsView, k: ObjectKind, i: u16) -> nat {
    match k {
        ObjectKind::Endpoint => rc_at(p.endpoints, i as int),
        ObjectKind::Notification => rc_at(p.notifications, i as int),
        ObjectKind::Untyped => rc_at(p.untypeds, i as int),
        ObjectKind::Frame => rc_at(p.frames, i as int),
        ObjectKind::Net => rc_at(p.nets, i as int),
        ObjectKind::Socket => rc_at(p.sockets, i as int),
        _ => 0,
    }
}

/// Kinds whose objects live in a pool and are reference counted.
pub open spec fn counted(k: ObjectKind) -> bool {
    k != ObjectKind::Empty && k != ObjectKind::EventLog
}

/// Every pooled object's recorded count is the number of caps naming it.
pub open spec fn refcounts_consistent(v: SysView) -> bool {
    forall|k: ObjectKind, i: u16|
        #![trigger recorded(v.pools, k, i)]
        #![trigger holders(v, k, i)]
        counted(k) ==> recorded(v.pools, k, i) == holders(v, k, i)
}

proof fn lemma_count_in_bound(caps: Seq<Cap>, k: ObjectKind, i: u16)
    ensures
        count_in(caps, k, i) <= caps.len(),
    decreases caps.len(),
{
    if caps.len() > 0 {
        lemma_count_in_bound(caps.drop_last(), k, i);
    }
}

proof fn lemma_count_in_update(caps: Seq<Cap>, j: int, x: Cap, k: ObjectKind, i: u16)
    requires
        0 <= j < caps.len(),
    ensures
        count_in(caps.update(j, x), k, i) + ind(caps[j], k, i) == count_in(caps, k, i) + ind(x, k, i),
    decreases caps.len(),
{
    let u = caps.update(j, x);
    if j == caps.len() - 1 {
        assert(u.drop_last() =~= caps.drop_last());
    } else {
        assert(u.drop_last() =~= caps.drop_last().update(j, x));
        lemma_count_in_update(caps.drop_last(), j, x, k, i);
    }
}

proof fn lemma_holders_bound(slots: Seq<Seq<Cap>>, n: int, k: ObjectKind, i: u16)
    requires
        0 <= n <= slots.len(),
        forall|q: int| 0 <= q < n ==> (#[trigger] slots[q]).len() == 256,
    ensures
        holders_upto(slots, n, k, i) <= n * 256,
    decreases n,
{
    if n > 0 {
        lemma_holders_bound(slots, n - 1, k, i);
        lemma_count_in_bound(slots[n - 1], k, i);
    }
}

proof fn lemma_holders_update(slots: Seq<Seq<Cap>>, n: int, p: int, s: int, x: Cap, k: ObjectKind, i: u16)
    requires
        0 <= p < slots.len(),
        0 <= s < slots[p].len(),
        0 <= n <= slots.len(),
    ensures
        p < n ==> holders_upto(slots.update(p, slots[p].update(s, x)), n, k, i) + ind(slots[p][s], k, i)
            == holders_upto(slots, n, k, i) + ind(x, k, i),
        p >= n ==> holders_upto(slots.update(p, slots[p].update(s, x)), n, k, i) == holders_upto(slots, n, k, i),
    decreases n,
{
    let u = slots.update(p, slots[p].update(s, x));
    if n > 0 {
        lemma_holders_update(slots, n - 1, p, s, x, k, i);
        if p == n - 1 {
            lemma_count_in_update(slots[p], s, x, k, i);
        } else {
            assert(u[n - 1] == slots[n - 1]);
        }
    }
}

/// The number of holders of `(k, i)` fits well within a `u16` count.
proof fn lemma_holders_small(v: SysView, k: ObjectKind, i: u16)
    requires
        view_wf(v),
    ensures
        holders(v, k, i) <= MAX_PROCS * 256,
{
    lemma_holders_bound(v.slots, MAX_PROCS as int, k, i);
}

proof fn lemma_rc_inc<T: RefCounted>(s: Seq<Option<T>>, idx: int, i: int)
    requires
        rc_at(s, idx) >= 1,
        rc_at(s, idx) < 0xFFFF,
    ensures
        rc_at(pool_inc(s, idx), i) == rc_at(s, i) + if i == idx { 1nat } else { 0nat },
{
    let o = s[idx]->Some_0;
    o.lemma_with_rc((o.rc() + 1) as u16);
}

proof fn lemma_rc_dec<T: RefCounted>(s: Seq<Option<T>>, idx: int, i: int)
    requires
        rc_at(s, idx) >= 1,
    ensures
        rc_at(pool_dec(s, idx), i) + (if i == idx { 1nat } else { 0nat }) == rc_at(s, i),
{
    let o = s[idx]->Some_0;
    if o.rc() > 1 {
        o.lemma_with_rc((o.rc() - 1) as u16);
    }
}

/// Taking a reference to a held object `(ck, ci)` adds one to its
/// recorded count and leaves every other count alone.
proof fn lemma_recorded_inc(p: PoolsView, ck: ObjectKind, ci: u16, k: ObjectKind, i: u16)
    requires
        counted(ck),
        recorded(p, ck, ci) >= 1,
        recorded(p, ck, ci) < 0xFFFF,
    ensures
        recorded(pools_inc(p, ck, ci), k, i) == recorded(p, k, i) + if ck == k && ci == i { 1nat } else { 0nat },
{
    match ck {
        ObjectKind::Endpoint => lemma_rc_inc(p.endpoints, ci as int, i as int),
        ObjectKind::Notification => lemma_rc_inc(p.notifications, ci as int, i as int),
        ObjectKind::Untyped => lemma_rc_inc(p.untypeds, ci as int, i as int),
        ObjectKind::Frame => lemma_rc_inc(p.frames, ci as int, i as int),
        ObjectKind::Net => lemma_rc_inc(p.nets, ci as int, i as int),
        ObjectKind::Socket => lemma_rc_inc(p.sockets, ci as int, i as int),
        _ => {},
    }
}

/// Dropping a reference to a held object `(ck, ci)` takes one from its
/// recorded count and leaves every other count alone.
proof fn lemma_recorded_dec(p: PoolsView, ck: ObjectKind, ci: u16, k: ObjectKind, i: u16)
    requires
        counted(ck),
        recorded(p, ck, ci) >= 1,
    ensures
        recorded(pools_dec(p, ck, ci), k, i) + (if ck == k && ci == i { 1nat } else { 0nat }) == recorded(p, k, i),
{
    match ck {
        ObjectKind::Endpoint => lemma_rc_dec(p.endpoints, ci as int, i as int),
        ObjectKind::Notification => lemma_rc_dec(p.notifications, ci as int, i as int),
        ObjectKind::Untyped => lemma_rc_dec(p.untypeds, ci as int, i as int),
        ObjectKind::Frame => lemma_rc_dec(p.frames, ci as int, i as int),
        ObjectKind::Net => lemma_rc_dec(p.nets, ci as int, i as int),
        ObjectKind::Socket => lemma_rc_dec(p.sockets, ci as int, i as int),
        _ => {},
    }
}

/// A cap held in slot `(p, s)` counts among its object's holders.
proof fn lemma_held_counts(v: SysView, p: int, s: int)
    requires
        view_wf(v),
        0 <= p < MAX_PROCS,
        0 <= s < 256,
        counted(v.slots[p][s].kind),
    ensures
        holders(v, v.slots[p][s].kind, v.slots[p][s].pool_index) >= 1,
{
    let c = v.slots[p][s];
    let e = crate::cap::types::empty_cap();
    lemma_holders_update(v.slots, MAX_PROCS as int, p, s, e, c.kind, c.pool_index);
    assert(ind(c, c.kind, c.pool_index) == 1);
    assert(ind(e, c.kind, c.pool_index) == 0);
}

/// Installing `c` in an empty slot, with a reference taken to its
/// object, keeps the counts consistent when `c` names an object that is
/// already held (as a mint or copy from a held cap does).
pub proof fn lemma_install_keeps_refcounts(v: SysView, p: u8, s: u8, c: Cap)
    requires
        view_wf(v),
        refcounts_consistent(v),
        p < MAX_PROCS,
        v.slots[p as int][s as int].kind == ObjectKind::Empty,
        counted(c.kind) ==> holders(v, c.kind, c.pool_index) >= 1,
    ensures
        refcounts_consistent(install_state(v, p, s, c)),
        view_wf(install_state(v, p, s, c)),
{
    let w = install_state(v, p, s, c);
    assert forall|k: ObjectKind, i: u16| counted(k) implies #[trigger] recorded(w.pools, k, i) == holders(w, k, i) by {
        lemma_holders_update(v.slots, MAX_PROCS as int, p as int, s as int, c, k, i);
        assert(ind(v.slots[p as int][s as int], k, i) == 0);
        if counted(c.kind) {
            lemma_holders_small(v, c.kind, c.pool_index);
            assert(recorded(v.pools, c.kind, c.pool_index) == holders(v, c.kind, c.pool_index));
            lemma_recorded_inc(v.pools, c.kind, c.pool_index, k, i);
        } else {
            assert(pools_inc(v.pools, c.kind, c.pool_index) == v.pools);
            assert(ind(c, k, i) == 0);
        }
        assert(recorded(v.pools, k, i) == holders(v, k, i));
    }
}

/// Vacating slot `(p, s)` and dropping the reference its cap held keeps
/// the counts consistent.
pub proof fn lemma_vacate_keeps_refcounts(v: SysView, p: u8, s: u8)
    requires
        view_wf(v),
        refcounts_consistent(v),
        p < MAX_PROCS,
    ensures
        refcounts_consistent(vacate_state(v, p, s, v.slots[p as int][s as int])),
        view_wf(vacate_state(v, p, s, v.slots[p as int][s as int])),
{
    let c = v.slots[p as int][s as int];
    let w = vacate_state(v, p, s, c);
    let e = crate::cap::types::empty_cap();
    assert forall|k: ObjectKind, i: u16| counted(k) implies #[trigger] recorded(w.pools, k, i) == holders(w, k, i) by {
        lemma_holders_update(v.slots, MAX_PROCS as int, p as int, s as int, e, k, i);
        assert(ind(e, k, i) == 0);
        if counted(c.kind) {
            lemma_held_counts(v, p as int, s as int);
            assert(recorded(v.pools, c.kind, c.pool_index) == holders(v, c.kind, c.pool_index));
            lemma_recorded_dec(v.pools, c.kind, c.pool_index, k, i);
        } else {
            assert(pools_dec(v.pools, c.kind, c.pool_index) == v.pools);
            assert(ind(c, k, i) == 0);
        }
        assert(recorded(v.pools, k, i) == holders(v, k, i));
    }
}

/// `cap_mint` keeps every object's count equal to its number of caps.
pub proof fn lemma_mint_keeps_refcounts(v: SysView, p: u8, ps: u32, ts: u32, rights: u32, badge: u32)
    requires
        view_wf(v),
        refcounts_consistent(v),
    ensures
        mint_child(v, p, ps, ts, rights, badge) matches Ok(c) ==> refcounts_consistent(
            install_state(v, p, ts as u8, c),
        ),
{
    if let Ok(c) = mint_child(v, p, ps, ts, rights, badge) {
        if counted(c.kind) {
            lemma_held_counts(v, p as int, ps as int);
        }
        lemma_install_keeps_refcounts(v, p, ts as u8, c);
    }
}

/// `cap_copy` keeps every object's count equal to its number of caps.
pub proof fn lemma_copy_keeps_refcounts(v: SysView, p: u8, src: u32, ts: u32)
    requires
        view_wf(v),
        refcounts_consistent(v),
    ensures
        copy_cap(v, p, src, ts) matches Ok(c) ==> refcounts_consistent(install_state(v, p, ts as u8, c)),
{
    if let Ok(c) = copy_cap(v, p, src, ts) {
        if counted(c.kind) {
            lemma_held_counts(v, p as int, src as int);
        }
        lemma_install_keeps_refcounts(v, p, ts as u8, c);
    }
}

/// `cap_delete` keeps every object's count equal to its number of caps.
pub proof fn lemma_delete_keeps_refcounts(v: SysView, p: u8, s: u32)
    requires
        view_wf(v),
        refcounts_consistent(v),
    ensures
        delete_target(v, p, s) matches Ok(c) ==> refcounts_consistent(vacate_state(v, p, s as u8, c)),
{
    if let Ok(c) = delete_target(v, p, s) {
        lemma_vacate_keeps_refcounts(v, p, s as u8);
    }
}

/// Revoking (vacating every position of a cascade in turn) keeps every
/// object's count equal to its number of caps.
pub proof fn lemma_revoke_keeps_refcounts(v: SysView, t: Seq<(u8, u8)>)
    requires
        view_wf(v),
        refcounts_consistent(v),
        forall|j: int| 0 <= j < t.len() ==> #[trigger] valid_pos(t[j]),
    ensures
        refcounts_consistent(vacate_all(v, t)),
        view_wf(vacate_all(v, t)),
    decreases t.len(),
{
    if t.len() > 0 {
        let t0 = t.drop_last();
        assert forall|j: int| 0 <= j < t0.len() implies #[trigger] valid_pos(t0[j]) by {
            assert(t0[j] == t[j]);
            assert(valid_pos(t[j]));
        }
        lemma_revoke_keeps_refcounts(v, t0);
        let w = vacate_all(v, t0);
        let x = t[t.len() - 1];
        assert(valid_pos(t[t.len() - 1]));
        lemma_vacate_keeps_refcounts(w, x.0, x.1);
        assert(cap_at(w, x) == w.slots[x.0 as int][x.1 as int]);
    }
}


proof fn lemma_count_in_concat(a: Seq<Cap>, b: Seq<Cap>, k: ObjectKind, i: u16)
    ensures
        count_in(a + b, k, i) == count_in(a, k, i) + count_in(b, k, i),
    decreases b.len(),
{
    if b.len() == 0 {
        assert(a + b =~= a);
    } else {
        lemma_count_in_concat(a, b.drop_last(), k, i);
        assert((a + b).drop_last() =~= a + b.drop_last());
    }
}

proof fn lemma_count_in_none(row: Seq<Cap>, k: ObjectKind, i: u16)
    requires
        forall|j: int| 0 <= j < row.len() ==> !names(#[trigger] row[j], k, i),
    ensures
        count_in(row, k, i) == 0,
    decreases row.len(),
{
    if row.len() > 0 {
        lemma_count_in_none(row.drop_last(), k, i);
    }
}

/// How many of the four boot caps of process `p` name `(k, i)`.
pub open spec fn boot_row_count(p: int, k: ObjectKind, i: u16) -> nat {
    ind(boot_cap(p, 0, 0, 0), k, i) + ind(boot_cap(p, 1, 0, 0), k, i) + ind(boot_cap(p, 2, 0, 0), k, i)
        + ind(boot_cap(p, 3, 0, 0), k, i)
}

proof fn lemma_boot_row(v: SysView, p: int, k: ObjectKind, i: u16)
    requires
        view_wf(v),
        forall|q: int, s: int| 0 <= q < MAX_PROCS && 0 <= s < 256 ==> #[trigger] v.slots[q][s] == boot_cap(q, s, 0, 0),
        0 <= p < MAX_PROCS,
        counted(k),
    ensures
        count_in(v.slots[p], k, i) == boot_row_count(p, k, i),
{
    let row = v.slots[p];
    let head = row.subrange(0, 4);
    let tail = row.subrange(4, 256);
    assert(row =~= head + tail);
    lemma_count_in_concat(head, tail, k, i);
    assert forall|j: int| 0 <= j < tail.len() implies !names(#[trigger] tail[j], k, i) by {
        assert(tail[j] == v.slots[p][j + 4]);
    }
    lemma_count_in_none(tail, k, i);
    reveal_with_fuel(count_in, 5);
    assert(head[0] == boot_cap(p, 0, 0, 0));
    assert(head[1] == boot_cap(p, 1, 0, 0));
    assert(head[2] == boot_cap(p, 2, 0, 0));
    assert(head[3] == boot_cap(p, 3, 0, 0));
    assert(head.drop_last().drop_last().drop_last().drop_last() =~= Seq::<Cap>::empty());
}

/// The caps and reference counts boot establishes are consistent: the
/// UART endpoint is named three times, the exit and demo endpoints
/// twice, the NIC three times, its notification once, and nothing else.
pub proof fn lemma_boot_refcounts(v: SysView)
    requires
        view_wf(v),
        forall|q: int, s: int| 0 <= q < MAX_PROCS && 0 <= s < 256 ==> #[trigger] v.slots[q][s] == boot_cap(q, s, 0, 0),
        v.pools.endpoints.len() > 2,
        v.pools.nets.len() > 0,
        v.pools.notifications.len() > 0,
        v.pools.endpoints[0] matches Some(e) && e.refcount == 3,
        v.pools.endpoints[1] matches Some(e) && e.refcount == 2,
        v.pools.endpoints[2] matches Some(e) && e.refcount == 2,
        v.pools.nets[0] matches Some(n) && n.refcount == 3,
        v.pools.notifications[0] matches Some(n) && n.refcount == 1,
        forall|j: int| 3 <= j < v.pools.endpoints.len() ==> v.pools.endpoints[j] is None,
        forall|j: int| 1 <= j < v.pools.nets.len() ==> v.pools.nets[j] is None,
        forall|j: int| 1 <= j < v.pools.notifications.len() ==> v.pools.notifications[j] is None,
        forall|j: int| 0 <= j < v.pools.untypeds.len() ==> v.pools.untypeds[j] is None,
        forall|j: int| 0 <= j < v.pools.frames.len() ==> v.pools.frames[j] is None,
        forall|j: int| 0 <= j < v.pools.sockets.len() ==> v.pools.sockets[j] is None,
    ensures
        refcounts_consistent(v),
{
    assert forall|k: ObjectKind, i: u16| counted(k) implies #[trigger] recorded(v.pools, k, i) == holders(v, k, i) by {
        assert forall|p: int| 0 <= p < MAX_PROCS implies #[trigger] count_in(v.slots[p], k, i) == boot_row_count(p, k, i) by {
            lemma_boot_row(v, p, k, i);
        }
        reveal_with_fuel(holders_upto, 17);
        assert(holders(v, k, i) == boot_row_count(0, k, i) + boot_row_count(1, k, i) + boot_row_count(2, k, i)
            + boot_row_count(3, k, i) + boot_row_count(4, k, i) + boot_row_count(5, k, i) + boot_row_count(6, k, i)
            + boot_row_count(7, k, i) + boot_row_count(8, k, i) + boot_row_count(9, k, i) + boot_row_count(10, k, i)
            + boot_row_count(11, k, i) + boot_row_count(12, k, i) + boot_row_count(13, k, i) + boot_row_count(14, k, i)
            + boot_row_count(15, k, i));
    }
}


/// Consistency depends on the caps and the pools only.
pub proof fn lemma_consistency_by_parts(v: SysView, w: SysView)
    requires
        v.slots == w.slots,
        v.pools == w.pools,
    ensures
        refcounts_consistent(v) <==> refcounts_consistent(w),
{
    assert forall|k: ObjectKind, i: u16| holders(v, k, i) == holders(w, k, i) && recorded(v.pools, k, i) == recorded(
        w.pools,
        k,
        i,
    ) by {}
    if refcounts_consistent(v) {
        assert forall|k: ObjectKind, i: u16| counted(k) implies #[trigger] recorded(w.pools, k, i) == holders(w, k, i) by {
            assert(recorded(v.pools, k, i) == holders(v, k, i));
        }
    }
    if refcounts_consistent(w) {
        assert forall|k: ObjectKind, i: u16| counted(k) implies #[trigger] recorded(v.pools, k, i) == holders(v, k, i) by {
            assert(recorded(w.pools, k, i) == holders(w, k, i));
        }
    }
}

/// Recording a new Socket object with no references in a free pool
/// entry, then installing the first cap naming it in an empty slot,
/// keeps the counts consistent.
pub proof fn lemma_new_socket_keeps_refcounts(v: SysView, i: u16, sock: crate::cap::objects::Socket, p: u8, s: u8, c: Cap)
    requires
        view_wf(v),
        refcounts_consistent(v),
        p < MAX_PROCS,
        v.slots[p as int][s as int].kind == ObjectKind::Empty,
        i < v.pools.sockets.len(),
        v.pools.sockets[i as int] is None,
        sock.refcount == 0,
        c.kind == ObjectKind::Socket,
        c.pool_index == i,
    ensures
        refcounts_consistent(
            install_state(
                crate::cap::storage::with_pools(
                    v,
                    PoolsView { sockets: v.pools.sockets.update(i as int, Some(sock)), ..v.pools },
                ),
                p,
                s,
                c,
            ),
        ),
{
    let w = crate::cap::storage::with_pools(v, PoolsView { sockets: v.pools.sockets.update(i as int, Some(sock)), ..v.pools });
    let f = install_state(w, p, s, c);
    sock.lemma_with_rc(1);
    assert forall|k: ObjectKind, j: u16| counted(k) implies #[trigger] recorded(f.pools, k, j) == holders(f, k, j) by {
        lemma_holders_update(w.slots, MAX_PROCS as int, p as int, s as int, c, k, j);
        assert(ind(w.slots[p as int][s as int], k, j) == 0);
        assert(recorded(v.pools, k, j) == holders(v, k, j));
        assert(holders(w, k, j) == holders(v, k, j));
        if k == ObjectKind::Socket && j == i {
            assert(recorded(v.pools, k, j) == 0);
            assert(recorded(f.pools, k, j) == 1);
        }
    }
}

} // verus!
