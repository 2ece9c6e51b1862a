//! The revocation cascade: clearing a cap together with every cap
//! derived from it, directly or transitively.
//!
//! A cap is a child of slot `(p, s)` when its `parent` field names that
//! slot at the slot's current generation. Revoking `(p, s)` vacates the
//! slot and every slot reachable from it by the child relation; each
//! vacated slot has its generation bumped and its object's reference
//! dropped.

use vstd::prelude::*;
use crate::error::KernelError;
use crate::cap::types::{Cap, CapId, ObjectKind, cap_id_value, empty_cap};
use crate::cap::cspace::{MAX_PROCS, next_generation};
use crate::cap::storage::{CapSystem, SysView};
use crate::cap::syscall::{vacate_slot, vacate_state, slot_id, mint_child, install_state};
use crate::cap::types::{rights_subset, lemma_cap_id_round_trip};

verus! {

/// A CSpace position `(process, slot)` that names a real process.
pub open spec fn valid_pos(x: (u8, u8)) -> bool {
    x.0 < MAX_PROCS
}

/// The cap at position `x`.
pub open spec fn cap_at(v: SysView, x: (u8, u8)) -> Cap {
    v.slots[x.0 as int][x.1 as int]
}

/// The cap at `y` is a direct child of the slot `x`.
pub open spec fn child_of(v: SysView, y: (u8, u8), x: (u8, u8)) -> bool {
    &&& valid_pos(y)
    &&& cap_at(v, y).kind != ObjectKind::Empty
    &&& cap_at(v, y).parent == slot_id(v, x.0, x.1)
}

/// Each position of `path` holds a child of the one before it.
pub open spec fn is_chain(v: SysView, path: Seq<(u8, u8)>) -> bool {
    &&& path.len() >= 1
    &&& forall|i: int, j: int|
        0 <= i && j == i + 1 && j < path.len() ==> #[trigger] child_of(v, path[j], path[i])
}

/// `x` is reachable from `root` through the child relation.
pub open spec fn descends(v: SysView, root: (u8, u8), x: (u8, u8)) -> bool {
    exists|path: Seq<(u8, u8)>|
        #![trigger is_chain(v, path)]
        is_chain(v, path) && path[0] == root && path[path.len() - 1] == x
}

/// `t` lists, without repetition, exactly the positions that revoking
/// `root` clears: the occupied root, every listed position descends
/// from it, and every child of a listed position is listed.
pub open spec fn revoke_set(v: SysView, root: (u8, u8), t: Seq<(u8, u8)>) -> bool {
    &&& t.len() >= 1
    &&& t[0] == root
    &&& t.no_duplicates()
    &&& forall|j: int| 0 <= j < t.len() ==> #[trigger] valid_pos(t[j])
    &&& forall|j: int| 0 <= j < t.len() ==> (#[trigger] cap_at(v, t[j])).kind != ObjectKind::Empty
    &&& forall|j: int| 0 <= j < t.len() ==> #[trigger] descends(v, root, t[j])
    &&& forall|j: int, y: (u8, u8)| 0 <= j < t.len() && #[trigger] child_of(v, y, t[j]) ==> t.contains(y)
}

/// The state after vacating the positions of `t` in order.
pub open spec fn vacate_all(v: SysView, t: Seq<(u8, u8)>) -> SysView
    decreases t.len(),
{
    if t.len() == 0 {
        v
    } else {
        let w = vacate_all(v, t.drop_last());
        let x = t[t.len() - 1];
        vacate_state(w, x.0, x.1, cap_at(w, x))
    }
}

/// The index of position `x` in a flat table of `MAX_PROCS * 256`.
pub open spec fn enc(x: (u8, u8)) -> int {
    x.0 * 256 + x.1
}

/// The position stored at flat index `k`.
pub open spec fn pos_of(k: int) -> (u8, u8) {
    ((k / 256) as u8, (k % 256) as u8)
}

proof fn lemma_enc_pos(k: int, x: (u8, u8))
    ensures
        0 <= k < 4096 ==> enc(pos_of(k)) == k && valid_pos(pos_of(k)),
        valid_pos(x) ==> 0 <= enc(x) < 4096 && pos_of(enc(x)) == x,
{
    if 0 <= k < 4096 {
        assert(k == (k / 256) * 256 + k % 256);
        assert(0 <= k / 256 < 16);
    }
    if valid_pos(x) {
        let e = x.0 * 256 + x.1;
        assert(e / 256 == x.0 as int && e % 256 == x.1 as int) by (nonlinear_arith)
            requires
                e == x.0 * 256 + x.1,
                0 <= x.1 < 256,
                0 <= x.0,
        ;
    }
}

/// Number of `true` entries.
pub open spec fn count_true(s: Seq<bool>) -> nat
    decreases s.len(),
{
    if s.len() == 0 {
        0
    } else {
        count_true(s.drop_last()) + if s[s.len() - 1] {
            1nat
        } else {
            0nat
        }
    }
}

proof fn lemma_count_true_bound(s: Seq<bool>)
    ensures
        count_true(s) <= s.len(),
    decreases s.len(),
{
    if s.len() > 0 {
        lemma_count_true_bound(s.drop_last());
    }
}

proof fn lemma_count_true_set(s: Seq<bool>, k: int)
    requires
        0 <= k < s.len(),
        !s[k],
    ensures
        count_true(s.update(k, true)) == count_true(s) + 1,
    decreases s.len(),
{
    let u = s.update(k, true);
    if k == s.len() - 1 {
        assert(u.drop_last() =~= s.drop_last());
    } else {
        assert(u.drop_last() =~= s.drop_last().update(k, true));
        lemma_count_true_set(s.drop_last(), k);
    }
}

/// Collect, without repetition, the root and every position reachable
/// from it in the current state.
fn revoke_targets(sys: &CapSystem, proc_id: u8, slot: u8) -> (t: Vec<(u8, u8)>)
    requires
        sys.wf(),
        proc_id < MAX_PROCS,
        sys@.slots[proc_id as int][slot as int].kind != ObjectKind::Empty,
    ensures
        revoke_set(sys@, (proc_id, slot), t@),
{
    let ghost v = sys@;
    let root: (u8, u8) = (proc_id, slot);
    let mut marked: Vec<bool> = Vec::new();
    let mut k: usize = 0;
    while k < 4096
        invariant
            k <= 4096,
            marked@.len() == k,
            forall|j: int| 0 <= j < k ==> !(#[trigger] marked@[j]),
            count_true(marked@) == 0,
        decreases 4096 - k,
    {
        proof {
            assert(marked@.push(false).drop_last() =~= marked@);
        }
        marked.push(false);
        k = k + 1;
    }
    proof {
        lemma_enc_pos(0, root);
    }
    let root_k: usize = proc_id as usize * 256 + slot as usize;
    proof {
        lemma_count_true_set(marked@, root_k as int);
    }
    marked.set(root_k, true);
    let mut t: Vec<(u8, u8)> = Vec::new();
    t.push(root);
    let ghost mut paths: Seq<Seq<(u8, u8)>> = seq![seq![root]];
    proof {
        assert(is_chain(v, paths[0]));
        assert(descends(v, root, t@[0]));
    }
    let mut i: usize = 0;
    while i < t.len()
        invariant
            sys@ == v,
            sys.wf(),
            t@.len() >= 1,
            t@[0] == root,
            i <= t@.len(),
            marked@.len() == 4096,
            count_true(marked@) == t@.len(),
            t@.len() <= 4096,
            forall|j: int| 0 <= j < t@.len() ==> #[trigger] valid_pos(t@[j]),
            forall|j: int| 0 <= j < t@.len() ==> (#[trigger] cap_at(v, t@[j])).kind != ObjectKind::Empty,
            forall|j: int| 0 <= j < t@.len() ==> #[trigger] marked@[enc(t@[j])],
            forall|kk: int|
                0 <= kk < 4096 && #[trigger] marked@[kk] ==> exists|j: int|
                    0 <= j < t@.len() && enc(t@[j]) == kk,
            forall|a: int, b: int|
                0 <= a < t@.len() && 0 <= b < t@.len() && a != b ==> #[trigger] t@[a] != #[trigger] t@[b],
            paths.len() == t@.len(),
            forall|j: int|
                0 <= j < t@.len() ==> is_chain(v, #[trigger] paths[j]) && paths[j][0] == root
                    && paths[j][paths[j].len() - 1] == t@[j],
            forall|j: int, y: (u8, u8)|
                0 <= j < i && #[trigger] child_of(v, y, t@[j]) ==> marked@[enc(y)],
        decreases 4096 - t@.len(), t@.len() - i,
    {
        let x = t[i];
        proof {
            assert(valid_pos(t@[i as int]));
        }
        let id = CapId::new(x.0, x.1, sys.gen(x.0, x.1));
        let ghost ti = i as int;
        let ghost t_len0 = t@.len();
        let mut kk: usize = 0;
        while kk < 4096
            invariant
                sys@ == v,
                sys.wf(),
                ti == i,
                t@.len() >= t_len0,
                x == t@[ti],
                0 <= ti < t@.len(),
                id == slot_id(v, x.0, x.1),
                t@.len() >= 1,
                t@[0] == root,
                kk <= 4096,
                marked@.len() == 4096,
                count_true(marked@) == t@.len(),
                t@.len() <= 4096,
                forall|j: int| 0 <= j < t@.len() ==> #[trigger] valid_pos(t@[j]),
                forall|j: int|
                    0 <= j < t@.len() ==> (#[trigger] cap_at(v, t@[j])).kind != ObjectKind::Empty,
                forall|j: int| 0 <= j < t@.len() ==> #[trigger] marked@[enc(t@[j])],
                forall|m: int|
                    0 <= m < 4096 && #[trigger] marked@[m] ==> exists|j: int|
                        0 <= j < t@.len() && enc(t@[j]) == m,
                forall|a: int, b: int|
                    0 <= a < t@.len() && 0 <= b < t@.len() && a != b ==> #[trigger] t@[a]
                        != #[trigger] t@[b],
                paths.len() == t@.len(),
                forall|j: int|
                    0 <= j < t@.len() ==> is_chain(v, #[trigger] paths[j]) && paths[j][0] == root
                        && paths[j][paths[j].len() - 1] == t@[j],
                forall|j: int, y: (u8, u8)|
                    0 <= j < i && #[trigger] child_of(v, y, t@[j]) ==> marked@[enc(y)],
                forall|m: int| 0 <= m < kk && #[trigger] child_of(v, pos_of(m), x) ==> marked@[m],
            decreases 4096 - kk,
        {
            let q: u8 = (kk / 256) as u8;
            let sl: u8 = (kk % 256) as u8;
            proof {
                lemma_enc_pos(kk as int, x);
                assert(pos_of(kk as int) == (q, sl));
            }
            let c = sys.slot(q, sl);
            if !marked[kk] && !c.is_empty() && c.parent == id {
                let y: (u8, u8) = (q, sl);
                proof {
                    assert(child_of(v, y, x));
                    lemma_count_true_set(marked@, kk as int);
                    lemma_count_true_bound(marked@.update(kk as int, true));
                    let pj = paths[ti];
                    let np = pj.push(y);
                    assert forall|a: int, b: int|
                        0 <= a && b == a + 1 && b < np.len() implies #[trigger] child_of(v, np[b], np[a]) by {
                        if b < pj.len() {
                            assert(child_of(v, pj[b], pj[a]));
                        } else {
                            assert(np[a] == x);
                        }
                    }
                    assert(is_chain(v, np));
                    paths = paths.push(np);
                    assert forall|a: int, b: int|
                        0 <= a < t@.len() + 1 && 0 <= b < t@.len() + 1 && a != b implies #[trigger] t@.push(y)[a]
                        != #[trigger] t@.push(y)[b] by {
                        if a == t@.len() as int {
                            if t@[b] == y {
                                lemma_enc_pos(0, y);
                                assert(marked@[enc(t@[b])]);
                            }
                        } else if b == t@.len() as int {
                            if t@[a] == y {
                                lemma_enc_pos(0, y);
                                assert(marked@[enc(t@[a])]);
                            }
                        }
                    }
                }
                let ghost om = marked@;
                let ghost ot = t@;
                marked.set(kk, true);
                t.push(y);
                proof {
                    assert forall|j: int| 0 <= j < t@.len() implies #[trigger] marked@[enc(t@[j])] by {
                        if j == t@.len() - 1 {
                            assert(enc(y) == kk as int);
                        } else {
                            assert(t@[j] == ot[j]);
                            assert(valid_pos(ot[j]));
                            lemma_enc_pos(0, ot[j]);
                            assert(om[enc(ot[j])]);
                        }
                    }
                    assert forall|m: int|
                        0 <= m < 4096 && #[trigger] marked@[m] implies exists|j: int|
                            0 <= j < t@.len() && enc(t@[j]) == m by {
                        if m == kk as int {
                            assert(enc(t@[t@.len() - 1]) == m);
                        } else {
                            assert(om[m]);
                            let j = choose|j: int| 0 <= j < ot.len() && enc(ot[j]) == m;
                            assert(t@[j] == ot[j]);
                        }
                    }
                }
            }
            kk = kk + 1;
        }
        proof {
            assert forall|j: int, y: (u8, u8)| 0 <= j < i + 1 && #[trigger] child_of(v, y, t@[j]) implies marked@[enc(y)] by {
                if j == i as int {
                    lemma_enc_pos(0, y);
                    assert(child_of(v, pos_of(enc(y)), x));
                }
            }
        }
        i = i + 1;
    }
    proof {
        assert forall|j: int, y: (u8, u8)| 0 <= j < t@.len() && #[trigger] child_of(v, y, t@[j]) implies t@.contains(y) by {
            lemma_enc_pos(0, y);
            let jj = choose|jj: int| 0 <= jj < t@.len() && enc(t@[jj]) == enc(y);
            lemma_enc_pos(0, t@[jj]);
            assert(t@[jj] == y);
        }
        assert forall|j: int| 0 <= j < t@.len() implies #[trigger] descends(v, root, t@[j]) by {
            assert(is_chain(v, paths[j]));
        }
    }
    t
}


/// The shape of a well-formed state: `MAX_PROCS` CSpaces of 256 slots.
pub open spec fn view_wf(v: SysView) -> bool {
    &&& v.slots.len() == MAX_PROCS
    &&& v.gens.len() == MAX_PROCS
    &&& forall|p: int| 0 <= p < MAX_PROCS ==> (#[trigger] v.slots[p]).len() == 256
    &&& forall|p: int| 0 <= p < MAX_PROCS ==> (#[trigger] v.gens[p]).len() == 256
}

/// A well-formed system has a well-formed view.
pub proof fn lemma_view_wf(sys: &CapSystem)
    requires
        sys.wf(),
    ensures
        view_wf(sys@),
{
    assert forall|p: int| 0 <= p < MAX_PROCS implies (#[trigger] sys@.slots[p]).len() == 256 by {
        assert(sys@.slots[p] == sys.cspaces@[p].slots@);
    }
    assert forall|p: int| 0 <= p < MAX_PROCS implies (#[trigger] sys@.gens[p]).len() == 256 by {
        assert(sys@.gens[p] == sys.cspaces@[p].generations@);
    }
}

/// Vacating one slot changes that slot (now empty, generation bumped)
/// and no other.
pub proof fn lemma_vacate_state_at(w: SysView, x: (u8, u8), c: Cap, y: (u8, u8))
    requires
        view_wf(w),
        valid_pos(x),
        valid_pos(y),
    ensures
        view_wf(vacate_state(w, x.0, x.1, c)),
        cap_at(vacate_state(w, x.0, x.1, c), y) == if y == x {
            empty_cap()
        } else {
            cap_at(w, y)
        },
        vacate_state(w, x.0, x.1, c).gens[y.0 as int][y.1 as int] == if y == x {
            next_generation(w.gens[x.0 as int][x.1 as int])
        } else {
            w.gens[y.0 as int][y.1 as int]
        },
{
    let r = vacate_state(w, x.0, x.1, c);
    assert(w.slots[x.0 as int].len() == 256);
    assert(w.gens[x.0 as int].len() == 256);
    assert(w.slots[y.0 as int].len() == 256);
    assert(w.gens[y.0 as int].len() == 256);
    assert forall|p: int| 0 <= p < MAX_PROCS implies (#[trigger] r.slots[p]).len() == 256 by {
        assert(w.slots[p].len() == 256);
    }
    assert forall|p: int| 0 <= p < MAX_PROCS implies (#[trigger] r.gens[p]).len() == 256 by {
        assert(w.gens[p].len() == 256);
    }
}

/// Vacating the distinct positions of `t` empties each of them, bumps
/// each one's generation once, and leaves every other slot and
/// generation as it was.
pub proof fn lemma_vacate_all(v: SysView, t: Seq<(u8, u8)>)
    requires
        view_wf(v),
        t.no_duplicates(),
        forall|j: int| 0 <= j < t.len() ==> #[trigger] valid_pos(t[j]),
    ensures
        view_wf(vacate_all(v, t)),
        forall|j: int| 0 <= j < t.len() ==> #[trigger] cap_at(vacate_all(v, t), t[j]) == empty_cap(),
        forall|j: int|
            0 <= j < t.len() ==> #[trigger] vacate_all(v, t).gens[t[j].0 as int][t[j].1 as int]
                == next_generation(v.gens[t[j].0 as int][t[j].1 as int]),
        forall|y: (u8, u8)| valid_pos(y) && !t.contains(y) ==> #[trigger] cap_at(vacate_all(v, t), y) == cap_at(v, y),
        forall|y: (u8, u8)|
            valid_pos(y) && !t.contains(y) ==> #[trigger] vacate_all(v, t).gens[y.0 as int][y.1 as int]
                == v.gens[y.0 as int][y.1 as int],
    decreases t.len(),
{
    if t.len() > 0 {
        let t0 = t.drop_last();
        let x = t[t.len() - 1];
        assert forall|a: int, b: int| 0 <= a < t0.len() && 0 <= b < t0.len() && a != b implies t0[a] != t0[b] by {
            assert(t[a] != t[b]);
        }
        assert forall|j: int| 0 <= j < t0.len() implies #[trigger] valid_pos(t0[j]) by {
            assert(valid_pos(t[j]));
        }
        lemma_vacate_all(v, t0);
        let w = vacate_all(v, t0);
        assert(valid_pos(x));
        assert(!t0.contains(x)) by {
            if t0.contains(x) {
                let j = choose|j: int| 0 <= j < t0.len() && t0[j] == x;
                assert(t[j] == t[t.len() - 1]);
            }
        }
        let c = cap_at(w, x);
        let r = vacate_all(v, t);
        assert(r == vacate_state(w, x.0, x.1, c));
        lemma_vacate_state_at(w, x, c, x);
        assert forall|j: int| 0 <= j < t.len() implies #[trigger] cap_at(r, t[j]) == empty_cap() by {
            assert(valid_pos(t[j]));
            lemma_vacate_state_at(w, x, c, t[j]);
            if j < t.len() - 1 {
                assert(t[j] == t0[j]);
                assert(cap_at(w, t0[j]) == empty_cap());
            }
        }
        assert forall|j: int|
            0 <= j < t.len() implies #[trigger] r.gens[t[j].0 as int][t[j].1 as int]
                == next_generation(v.gens[t[j].0 as int][t[j].1 as int]) by {
            assert(valid_pos(t[j]));
            lemma_vacate_state_at(w, x, c, t[j]);
            if j < t.len() - 1 {
                assert(t[j] == t0[j]);
                assert(t[j] != x) by {
                    assert(t[j] != t[t.len() - 1]);
                }
                assert(w.gens[t0[j].0 as int][t0[j].1 as int] == next_generation(
                    v.gens[t0[j].0 as int][t0[j].1 as int],
                ));
            } else {
                assert(w.gens[x.0 as int][x.1 as int] == v.gens[x.0 as int][x.1 as int]);
            }
        }
        assert forall|y: (u8, u8)| valid_pos(y) && !t.contains(y) implies #[trigger] cap_at(r, y) == cap_at(v, y) by {
            assert(!t0.contains(y)) by {
                if t0.contains(y) {
                    let j = choose|j: int| 0 <= j < t0.len() && t0[j] == y;
                    assert(t[j] == y);
                }
            }
            assert(y != x) by {
                if y == x {
                    assert(t[t.len() - 1] == y);
                }
            }
            lemma_vacate_state_at(w, x, c, y);
            assert(cap_at(w, y) == cap_at(v, y));
        }
        assert forall|y: (u8, u8)|
            valid_pos(y) && !t.contains(y) implies #[trigger] r.gens[y.0 as int][y.1 as int] == v.gens[y.0 as int][y.1 as int] by {
            assert(!t0.contains(y)) by {
                if t0.contains(y) {
                    let j = choose|j: int| 0 <= j < t0.len() && t0[j] == y;
                    assert(t[j] == y);
                }
            }
            assert(y != x) by {
                if y == x {
                    assert(t[t.len() - 1] == y);
                }
            }
            lemma_vacate_state_at(w, x, c, y);
            assert(w.gens[y.0 as int][y.1 as int] == v.gens[y.0 as int][y.1 as int]);
        }
    }
}

proof fn lemma_chain_listed(v: SysView, root: (u8, u8), t: Seq<(u8, u8)>, path: Seq<(u8, u8)>, k: int)
    requires
        revoke_set(v, root, t),
        is_chain(v, path),
        path[0] == root,
        0 <= k < path.len(),
    ensures
        t.contains(path[k]),
    decreases k,
{
    if k == 0 {
        assert(t[0] == root);
    } else {
        lemma_chain_listed(v, root, t, path, k - 1);
        assert(child_of(v, path[k], path[k - 1]));
        let j = choose|j: int| 0 <= j < t.len() && t[j] == path[k - 1];
        assert(child_of(v, path[k], t[j]));
    }
}

/// Every position that descends from the root is in a revoke set of
/// that root.
pub proof fn lemma_descends_listed(v: SysView, root: (u8, u8), t: Seq<(u8, u8)>, y: (u8, u8))
    requires
        revoke_set(v, root, t),
        descends(v, root, y),
    ensures
        t.contains(y),
{
    let path = choose|path: Seq<(u8, u8)>|
        #![trigger is_chain(v, path)]
        is_chain(v, path) && path[0] == root && path[path.len() - 1] == y;
    lemma_chain_listed(v, root, t, path, path.len() - 1);
}

/// Revoke the cap at `(proc_id, slot)` and every cap derived from it:
/// `InvalidArgument` when the process is out of range or the slot is
/// empty; otherwise every position of the revoke set is vacated.
pub fn revoke(sys: &mut CapSystem, proc_id: u8, slot: u8) -> (r: Result<(), KernelError>)
    requires
        old(sys).wf(),
    ensures
        final(sys).wf(),
        (proc_id >= MAX_PROCS || old(sys)@.slots[proc_id as int][slot as int].kind == ObjectKind::Empty)
            ==> r == Err::<(), KernelError>(KernelError::InvalidArgument) && final(sys)@ == old(sys)@,
        (proc_id < MAX_PROCS && old(sys)@.slots[proc_id as int][slot as int].kind != ObjectKind::Empty)
            ==> r is Ok && exists|t: Seq<(u8, u8)>|
            revoke_set(old(sys)@, (proc_id, slot), t) && final(sys)@ == vacate_all(old(sys)@, t),
{
    if proc_id as usize >= MAX_PROCS {
        return Err(KernelError::InvalidArgument);
    }
    if sys.slot(proc_id, slot).is_empty() {
        return Err(KernelError::InvalidArgument);
    }
    let ghost pre = sys@;
    let t = revoke_targets(sys, proc_id, slot);
    let mut j: usize = 0;
    while j < t.len()
        invariant
            sys.wf(),
            j <= t@.len(),
            revoke_set(pre, (proc_id, slot), t@),
            sys@ == vacate_all(pre, t@.take(j as int)),
        decreases t@.len() - j,
    {
        let x = t[j];
        proof {
            assert(valid_pos(t@[j as int]));
            assert(t@.take(j as int + 1).drop_last() =~= t@.take(j as int));
        }
        let _ = vacate_slot(sys, x.0, x.1);
        j = j + 1;
    }
    proof {
        assert(t@.take(t@.len() as int) =~= t@);
    }
    Ok(())
}

/// Revocation clears exactly the descendants: after vacating a revoke
/// set of `root`, every slot descending from `root` (the root
/// included) is empty with its generation bumped, and every other slot
/// keeps its cap and generation.
pub proof fn lemma_revoke_clears_exactly_descendants(v: SysView, root: (u8, u8), t: Seq<(u8, u8)>)
    requires
        view_wf(v),
        revoke_set(v, root, t),
    ensures
        forall|y: (u8, u8)|
            valid_pos(y) && descends(v, root, y) ==> #[trigger] cap_at(vacate_all(v, t), y) == empty_cap()
                && vacate_all(v, t).gens[y.0 as int][y.1 as int] == next_generation(
                v.gens[y.0 as int][y.1 as int],
            ),
        forall|y: (u8, u8)|
            valid_pos(y) && !descends(v, root, y) ==> #[trigger] cap_at(vacate_all(v, t), y) == cap_at(v, y)
                && vacate_all(v, t).gens[y.0 as int][y.1 as int] == v.gens[y.0 as int][y.1 as int],
        descends(v, root, root),
{
    lemma_vacate_all(v, t);
    assert forall|y: (u8, u8)| valid_pos(y) && descends(v, root, y) implies #[trigger] cap_at(vacate_all(v, t), y)
        == empty_cap() && vacate_all(v, t).gens[y.0 as int][y.1 as int] == next_generation(
        v.gens[y.0 as int][y.1 as int],
    ) by {
        lemma_descends_listed(v, root, t, y);
        let j = choose|j: int| 0 <= j < t.len() && t[j] == y;
        assert(cap_at(vacate_all(v, t), t[j]) == empty_cap());
    }
    assert forall|y: (u8, u8)| valid_pos(y) && !descends(v, root, y) implies #[trigger] cap_at(vacate_all(v, t), y)
        == cap_at(v, y) && vacate_all(v, t).gens[y.0 as int][y.1 as int] == v.gens[y.0 as int][y.1 as int] by {
        if t.contains(y) {
            let j = choose|j: int| 0 <= j < t.len() && t[j] == y;
            assert(descends(v, root, t[j]));
        }
    }
    assert(descends(v, root, t[0]));
}

/// A cap minted from slot `ps` is a child of that slot in the state
/// the mint leaves behind, carries no right the parent lacks, and names
/// the parent's object; so revoking the parent revokes it.
pub proof fn lemma_mint_links_child(v: SysView, p: u8, ps: u32, ts: u32, rights: u32, badge: u32)
    requires
        view_wf(v),
        mint_child(v, p, ps, ts, rights, badge) is Ok,
    ensures
        ({
            let c = mint_child(v, p, ps, ts, rights, badge)->Ok_0;
            let w = install_state(v, p, ts as u8, c);
            let parent = v.slots[p as int][ps as int];
            &&& child_of(w, (p, ts as u8), (p, ps as u8))
            &&& rights_subset(c.rights, parent.rights)
            &&& c.kind == parent.kind
            &&& c.pool_index == parent.pool_index
        }),
{
    let c = mint_child(v, p, ps, ts, rights, badge)->Ok_0;
    let w = install_state(v, p, ts as u8, c);
    assert(v.slots[p as int].len() == 256);
    assert(v.gens[p as int].len() == 256);
    assert(ps != ts);
    assert(cap_at(w, (p, ts as u8)) == c);
    assert(w.gens == v.gens);
}

/// Deleting a cap orphans its children: once the slot's generation has
/// moved on, no cap that was a child of the slot is a child of it any
/// more (unless the generation counter was already saturated).
pub proof fn lemma_delete_orphans_children(v: SysView, p: u8, s: u8, y: (u8, u8))
    requires
        view_wf(v),
        p < MAX_PROCS,
        v.gens[p as int][s as int] < u16::MAX,
        child_of(v, y, (p, s)),
        y != (p, s),
    ensures
        !child_of(vacate_state(v, p, s, v.slots[p as int][s as int]), y, (p, s)),
{
    let w = vacate_state(v, p, s, v.slots[p as int][s as int]);
    lemma_vacate_state_at(v, (p, s), v.slots[p as int][s as int], y);
    lemma_vacate_state_at(v, (p, s), v.slots[p as int][s as int], (p, s));
    let g0 = v.gens[p as int][s as int];
    let g1 = w.gens[p as int][s as int];
    assert(g1 == g0 + 1);
    lemma_cap_id_round_trip(p, s, g0);
    lemma_cap_id_round_trip(p, s, g1);
}

} // verus!
