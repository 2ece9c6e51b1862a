//! The kernel's Sv39 page tables: three levels of 512-entry tables,
//! tables allocated from a bounded pool of pages, and the identity
//! mappings the kernel installs for its image, heap and device windows.
//! Page `t` of the pool has physical page number `pool_ppn + t`; page 0
//! is the root. Writing `satp` and zeroing physical memory are the
//! caller's.

use vstd::prelude::*;
use crate::error::KernelError;

verus! {

/// Bytes per page.
pub const PAGE_SIZE: u64 = 4096;
/// Entries per table.
pub const PT_ENTRIES: usize = 512;
/// PTE bit: valid.
pub const PTE_V: u64 = 0x1;
/// PTE bit: readable.
pub const PTE_R: u64 = 0x2;
/// PTE bit: writable.
pub const PTE_W: u64 = 0x4;
/// PTE bit: executable.
pub const PTE_X: u64 = 0x8;
/// PTE bit: accessed.
pub const PTE_A: u64 = 0x40;
/// PTE bit: dirty.
pub const PTE_D: u64 = 0x80;
/// Leaf flags of kernel text.
pub const KERNEL_RX: u64 = 0x4A;
/// Leaf flags of kernel read-only data.
pub const KERNEL_RO: u64 = 0x42;
/// Leaf flags of kernel data, stacks, heaps and device windows.
pub const KERNEL_RW: u64 = 0xC6;
/// Size of the Sv39 virtual address space.
pub const VA_SPACE: u64 = 0x80_0000_0000;

/// Is the entry valid?
pub open spec fn pte_valid(e: u64) -> bool {
    e % 2 == 1
}

/// Is the entry a pointer to a next-level table (valid, no R/W/X)?
pub open spec fn pte_is_branch(e: u64) -> bool {
    pte_valid(e) && (e / 2) % 8 == 0
}

/// Is the entry a mapping (valid, some of R/W/X)?
pub open spec fn pte_is_leaf(e: u64) -> bool {
    pte_valid(e) && (e / 2) % 8 != 0
}

/// Physical page number an entry holds.
pub open spec fn pte_ppn(e: u64) -> int {
    (e / 1024) as int
}

/// The leaf mapping physical address `pa` with `flags`.
pub open spec fn leaf_pte(pa: u64, flags: u64) -> int {
    (pa / 4096) * 1024 + flags + 1
}

/// Flags a leaf may carry: below the PPN field, V left to the encoder,
/// and at least one of R/W/X.
pub open spec fn leaf_flags_ok(flags: u64) -> bool {
    flags < 1024 && flags % 2 == 0 && (flags / 2) % 8 != 0
}

/// Level-2, level-1 and level-0 indices of `va`.
pub open spec fn vpn2(va: u64) -> int {
    ((va / 0x4000_0000) % 512) as int
}

/// See `vpn2`.
pub open spec fn vpn1(va: u64) -> int {
    ((va / 0x20_0000) % 512) as int
}

/// See `vpn2`.
pub open spec fn vpn0(va: u64) -> int {
    ((va / 0x1000) % 512) as int
}

/// The tables.
pub struct PageTables {
    /// Pool pages in allocation order; page 0 is the root.
    pub pages: Vec<[u64; 512]>,
    /// Physical page number of pool page 0.
    pub pool_ppn: u64,
    /// Number of pages the pool can hand out.
    pub capacity: usize,
}

/// Entry `j` of table `t`.
pub open spec fn entry(pt: PageTables, t: int, j: int) -> u64 {
    pt.pages@[t]@[j]
}

/// The pool page a branch entry points at.
pub open spec fn target(pt: PageTables, e: u64) -> int {
    pte_ppn(e) - pt.pool_ppn
}

/// The branch entry pointing at pool page `t`.
pub open spec fn branch_pte(pt: PageTables, t: int) -> int {
    (pt.pool_ppn + t) * 1024 + 1
}

/// The level-0 leaf `va` resolves to through 4 KiB tables, if any.
pub open spec fn translate(pt: PageTables, va: u64) -> Option<u64> {
    let e2 = entry(pt, 0, vpn2(va));
    if !pte_is_branch(e2) {
        None
    } else {
        let e1 = entry(pt, target(pt, e2), vpn1(va));
        if !pte_is_branch(e1) {
            None
        } else {
            let e0 = entry(pt, target(pt, e1), vpn0(va));
            if pte_is_leaf(e0) {
                Some(e0)
            } else {
                None
            }
        }
    }
}

/// Do `a` and `b` use the same entries at every level?
pub open spec fn same_vpns(a: u64, b: u64) -> bool {
    vpn2(a) == vpn2(b) && vpn1(a) == vpn1(b) && vpn0(a) == vpn0(b)
}


/// `new` is `old` with entry `j` of table `t` set to `val`.
pub open spec fn set_entry(old: PageTables, new: PageTables, t: int, j: int, val: u64) -> bool {
    &&& new.pool_ppn == old.pool_ppn
    &&& new.capacity == old.capacity
    &&& new.pages@.len() == old.pages@.len()
    &&& entry(new, t, j) == val
    &&& forall|t2: int, j2: int|
        0 <= t2 < old.pages@.len() && 0 <= j2 < 512 && (t2 != t || j2 != j) ==> #[trigger] entry(new, t2, j2)
            == entry(old, t2, j2)
}

/// `new` is `old` with a zeroed page appended and entry `j` of table `t`
/// pointing at it.
pub open spec fn grew(old: PageTables, new: PageTables, t: int, j: int) -> bool {
    &&& new.pool_ppn == old.pool_ppn
    &&& new.capacity == old.capacity
    &&& new.pages@.len() == old.pages@.len() + 1
    &&& entry(new, t, j) == branch_pte(old, old.pages@.len() as int)
    &&& forall|t2: int, j2: int|
        0 <= t2 < old.pages@.len() && 0 <= j2 < 512 && (t2 != t || j2 != j) ==> #[trigger] entry(new, t2, j2)
            == entry(old, t2, j2)
    &&& forall|j2: int| 0 <= j2 < 512 ==> #[trigger] entry(new, old.pages@.len() as int, j2) == 0
}

/// The branch entry for pool page `n` is a branch pointing at `n`.
proof fn lemma_branch_pte(pt: PageTables, n: int)
    requires
        0 <= n,
        pt.pool_ppn + n < 0x1000_0000_0000,
    ensures
        branch_pte(pt, n) < 0x40_0000_0000_0000,
        pte_is_branch(branch_pte(pt, n) as u64),
        target(pt, branch_pte(pt, n) as u64) == n,
{
    let x = pt.pool_ppn + n;
    assert((x * 1024 + 1) % 2 == 1);
    assert((x * 1024 + 1) / 2 == x * 512);
    assert((x * 512) % 8 == 0);
    assert((x * 1024 + 1) / 1024 == x);
}

/// Growing the tables through an invalid entry keeps them well formed,
/// free of superpages if they were, and changes no translation.
proof fn lemma_grow(old: PageTables, new: PageTables, t: int, j: int)
    requires
        old.wf(),
        0 <= t < old.pages@.len(),
        0 <= j < 512,
        !pte_valid(entry(old, t, j)),
        old.pages@.len() < old.capacity,
        grew(old, new, t, j),
        forall|t2: int| 0 <= t2 < new.pages@.len() ==> (#[trigger] new.pages@[t2])@.len() == 512,
    ensures
        new.wf(),
        old.no_superpages() ==> new.no_superpages(),
        forall|va: u64| #[trigger] translate(new, va) == translate(old, va),
{
    let n = old.pages@.len() as int;
    lemma_branch_pte(old, n);
    assert(entry(new, n, 0) == 0);
    assert forall|t1: int, j1: int|
        0 <= t1 < new.pages@.len() && 0 <= j1 < 512 && #[trigger] pte_is_branch(entry(new, t1, j1)) implies 0 < target(
            new,
            entry(new, t1, j1),
        ) < new.pages@.len() by {
        if t1 == n {
            assert(entry(new, t1, j1) == 0);
        } else if t1 != t || j1 != j {
            assert(entry(new, t1, j1) == entry(old, t1, j1));
        }
    }
    assert forall|t1: int, j1: int, t2: int, j2: int|
        0 <= t1 < new.pages@.len() && 0 <= j1 < 512 && 0 <= t2 < new.pages@.len() && 0 <= j2 < 512
            && #[trigger] pte_is_branch(entry(new, t1, j1)) && #[trigger] pte_is_branch(entry(new, t2, j2))
            && target(new, entry(new, t1, j1)) == target(new, entry(new, t2, j2)) implies t1 == t2 && j1 == j2 by {
        if t1 == n {
            assert(entry(new, t1, j1) == 0);
        }
        if t2 == n {
            assert(entry(new, t2, j2) == 0);
        }
        if (t1 != t || j1 != j) && t1 != n {
            assert(entry(new, t1, j1) == entry(old, t1, j1));
        }
        if (t2 != t || j2 != j) && t2 != n {
            assert(entry(new, t2, j2) == entry(old, t2, j2));
        }
    }
    if old.no_superpages() {
        assert forall|j1: int| 0 <= j1 < 512 implies !#[trigger] pte_is_leaf(entry(new, 0, j1)) by {
            if t != 0 || j1 != j {
                assert(entry(new, 0, j1) == entry(old, 0, j1));
            }
        }
        assert forall|j1: int, k: int|
            0 <= j1 < 512 && 0 <= k < 512 && #[trigger] pte_is_branch(entry(new, 0, j1)) implies !#[trigger] pte_is_leaf(
            entry(new, target(new, entry(new, 0, j1)), k),
        ) by {
            if t == 0 && j1 == j {
                assert(entry(new, n, k) == 0);
            } else {
                assert(entry(new, 0, j1) == entry(old, 0, j1));
                let t1 = target(old, entry(old, 0, j1));
                if t1 == t && k == j {
                } else {
                    assert(entry(new, t1, k) == entry(old, t1, k));
                }
            }
        }
    }
    assert forall|va: u64| #[trigger] translate(new, va) == translate(old, va) by {
        let a = vpn2(va);
        let b = vpn1(va);
        let c = vpn0(va);
        let e2 = entry(old, 0, a);
        if t == 0 && j == a {
            assert(!pte_is_branch(e2));
            assert(entry(new, n, b) == 0);
        } else {
            assert(entry(new, 0, a) == e2);
            if pte_is_branch(e2) {
                let t1 = target(old, e2);
                let e1 = entry(old, t1, b);
                if t1 == t && b == j {
                    assert(entry(new, n, c) == 0);
                } else {
                    assert(entry(new, t1, b) == e1);
                    if pte_is_branch(e1) {
                        let t0 = target(old, e1);
                        if !(t0 == t && c == j) {
                            assert(entry(new, t0, c) == entry(old, t0, c));
                        }
                    }
                }
            }
        }
    }
}


/// Writing leaf `val` into the level-0 entry of `va`'s path keeps the
/// tables well formed and free of superpages if they were, maps `va` to
/// `val`, and changes no other translation.
proof fn lemma_leaf(old: PageTables, new: PageTables, va: u64, val: u64)
    requires
        old.wf(),
        pte_is_branch(entry(old, 0, vpn2(va))),
        pte_is_branch(entry(old, target(old, entry(old, 0, vpn2(va))), vpn1(va))),
        pte_is_leaf(val),
        set_entry(
            old,
            new,
            target(old, entry(old, target(old, entry(old, 0, vpn2(va))), vpn1(va))),
            vpn0(va),
            val,
        ),
        forall|t2: int| 0 <= t2 < new.pages@.len() ==> (#[trigger] new.pages@[t2])@.len() == 512,
    ensures
        new.wf(),
        old.no_superpages() ==> new.no_superpages(),
        translate(new, va) == Some(val),
        forall|va2: u64| !same_vpns(va2, va) ==> #[trigger] translate(new, va2) == translate(old, va2),
{
    let a = vpn2(va);
    let b = vpn1(va);
    let c = vpn0(va);
    let t1 = target(old, entry(old, 0, a));
    let t0 = target(old, entry(old, t1, b));
    assert(0 < t1 < old.pages@.len());
    assert(0 < t0 < old.pages@.len());
    // t0 is neither the root nor a level-1 table.
    assert(t1 != 0);
    assert forall|t2: int, j2: int|
        0 <= t2 < new.pages@.len() && 0 <= j2 < 512 && #[trigger] pte_is_branch(entry(new, t2, j2)) implies 0 < target(
            new,
            entry(new, t2, j2),
        ) < new.pages@.len() by {
        if t2 != t0 || j2 != c {
            assert(entry(new, t2, j2) == entry(old, t2, j2));
        }
    }
    assert forall|t2: int, j2: int, t3: int, j3: int|
        0 <= t2 < new.pages@.len() && 0 <= j2 < 512 && 0 <= t3 < new.pages@.len() && 0 <= j3 < 512
            && #[trigger] pte_is_branch(entry(new, t2, j2)) && #[trigger] pte_is_branch(entry(new, t3, j3))
            && target(new, entry(new, t2, j2)) == target(new, entry(new, t3, j3)) implies t2 == t3 && j2 == j3 by {
        if t2 != t0 || j2 != c {
            assert(entry(new, t2, j2) == entry(old, t2, j2));
        }
        if t3 != t0 || j3 != c {
            assert(entry(new, t3, j3) == entry(old, t3, j3));
        }
    }
    if old.no_superpages() {
        assert forall|j1: int| 0 <= j1 < 512 implies !#[trigger] pte_is_leaf(entry(new, 0, j1)) by {
            assert(entry(new, 0, j1) == entry(old, 0, j1));
        }
        assert forall|j1: int, k: int|
            0 <= j1 < 512 && 0 <= k < 512 && #[trigger] pte_is_branch(entry(new, 0, j1)) implies !#[trigger] pte_is_leaf(
            entry(new, target(new, entry(new, 0, j1)), k),
        ) by {
            assert(entry(new, 0, j1) == entry(old, 0, j1));
            let u = target(old, entry(old, 0, j1));
            if u == t0 {
                // The root would point at t0, whose only parent is entry b of t1.
                assert(pte_is_branch(entry(old, t1, b)));
                assert(false);
            }
            assert(entry(new, u, k) == entry(old, u, k));
        }
    }
    assert(entry(new, 0, a) == entry(old, 0, a));
    assert(entry(new, t1, b) == entry(old, t1, b));
    assert forall|va2: u64| !same_vpns(va2, va) implies #[trigger] translate(new, va2) == translate(old, va2) by {
        let a2 = vpn2(va2);
        let b2 = vpn1(va2);
        let c2 = vpn0(va2);
        let e2 = entry(old, 0, a2);
        assert(entry(new, 0, a2) == e2);
        if pte_is_branch(e2) {
            let u1 = target(old, e2);
            let e1 = entry(old, u1, b2);
            if u1 == t0 {
                assert(pte_is_branch(entry(old, t1, b)));
                assert(false);
            }
            assert(entry(new, u1, b2) == e1);
            if pte_is_branch(e1) {
                let u0 = target(old, e1);
                if u0 == t0 && c2 == c {
                    assert(pte_is_branch(entry(old, t1, b)));
                    assert(u1 == t1 && b2 == b);
                    assert(a2 == a);
                    assert(false);
                }
                if !(u0 == t0 && c2 == c) {
                    assert(entry(new, u0, c2) == entry(old, u0, c2));
                }
            }
        }
    }
}


/// Below the Sv39 limit, two addresses use the same entries exactly when
/// they lie in the same 4 KiB page.
proof fn lemma_same_page(x: u64, y: u64)
    requires
        x < VA_SPACE,
        y < VA_SPACE,
    ensures
        same_vpns(x, y) <==> x / 4096 == y / 4096,
{
    vstd::arithmetic::div_mod::lemma_div_denominator(x as int, 4096, 512);
    vstd::arithmetic::div_mod::lemma_div_denominator(x as int, 4096, 262144);
    vstd::arithmetic::div_mod::lemma_div_denominator(y as int, 4096, 512);
    vstd::arithmetic::div_mod::lemma_div_denominator(y as int, 4096, 262144);
    let qx = x as int / 4096;
    let qy = y as int / 4096;
    assert(qx < 134217728 && qy < 134217728);
    assert(qx == (qx / 262144) * 262144 + ((qx / 512) % 512) * 512 + qx % 512) by (nonlinear_arith)
        requires
            0 <= qx < 134217728,
    ;
    assert(qy == (qy / 262144) * 262144 + ((qy / 512) % 512) * 512 + qy % 512) by (nonlinear_arith)
        requires
            0 <= qy < 134217728,
    ;
    assert(qx / 262144 < 512 && qy / 262144 < 512);
}

/// Addresses using the same entries translate alike.
proof fn lemma_translate_by_vpns(pt: PageTables, x: u64, y: u64)
    requires
        same_vpns(x, y),
    ensures
        translate(pt, x) == translate(pt, y),
{
}


/// The page-aligned range `[lo, hi)` a region `(start, end, flags)`
/// covers.
pub open spec fn region_lo(r: (u64, u64, u64)) -> int {
    r.0 as int / 4096 * 4096
}

/// See `region_lo`.
pub open spec fn region_hi(r: (u64, u64, u64)) -> int {
    (r.1 as int + 4095) / 4096 * 4096
}

/// Does region `r` cover `va`?
pub open spec fn covers(r: (u64, u64, u64), va: u64) -> bool {
    region_lo(r) <= va < region_hi(r)
}

/// The flags of the last region of `rs` covering `va`, if any.
pub open spec fn last_flags(rs: Seq<(u64, u64, u64)>, va: u64) -> Option<u64>
    decreases rs.len(),
{
    if rs.len() == 0 {
        None
    } else if covers(rs.last(), va) {
        Some(rs.last().2)
    } else {
        last_flags(rs.drop_last(), va)
    }
}

/// Pool pages mapping the regions of `rs` may take: two per page.
pub open spec fn pages_needed(rs: Seq<(u64, u64, u64)>) -> int
    decreases rs.len(),
{
    if rs.len() == 0 {
        0
    } else {
        pages_needed(rs.drop_last()) + if region_hi(rs.last()) > region_lo(rs.last()) {
            2 * ((region_hi(rs.last()) - region_lo(rs.last())) / 4096)
        } else {
            0
        }
    }
}

/// Regions every mapping call accepts.
pub open spec fn regions_ok(rs: Seq<(u64, u64, u64)>) -> bool {
    forall|i: int| 0 <= i < rs.len() ==> #[trigger] rs[i].1 <= VA_SPACE && leaf_flags_ok(rs[i].2)
}

proof fn lemma_pages_needed_nonneg(rs: Seq<(u64, u64, u64)>)
    ensures
        pages_needed(rs) >= 0,
    decreases rs.len(),
{
    if rs.len() > 0 {
        lemma_pages_needed_nonneg(rs.drop_last());
    }
}

/// The pages needed by a prefix plus those of the next region.
proof fn lemma_pages_needed_step(rs: Seq<(u64, u64, u64)>, i: int)
    requires
        0 <= i < rs.len(),
    ensures
        pages_needed(rs.subrange(0, i + 1)) == pages_needed(rs.subrange(0, i)) + if region_hi(rs[i]) > region_lo(rs[i]) {
            2 * ((region_hi(rs[i]) - region_lo(rs[i])) / 4096)
        } else {
            0
        },
{
    assert(rs.subrange(0, i + 1).drop_last() =~= rs.subrange(0, i));
}

proof fn lemma_pages_needed_mono(rs: Seq<(u64, u64, u64)>, i: int)
    requires
        0 <= i <= rs.len(),
    ensures
        pages_needed(rs.subrange(0, i)) <= pages_needed(rs),
    decreases rs.len() - i,
{
    if i < rs.len() {
        lemma_pages_needed_mono(rs, i + 1);
        lemma_pages_needed_step(rs, i);
    } else {
        assert(rs.subrange(0, i) =~= rs);
    }
}


/// No region covering `va` means no region of a prefix covers it either.
proof fn lemma_last_flags_none(rs: Seq<(u64, u64, u64)>, i: int, va: u64)
    requires
        0 <= i <= rs.len(),
        last_flags(rs, va) is None,
    ensures
        last_flags(rs.subrange(0, i), va) is None,
        forall|j: int| 0 <= j < rs.len() ==> !covers(#[trigger] rs[j], va),
    decreases rs.len(),
{
    if rs.len() > 0 {
        let d = rs.drop_last();
        lemma_last_flags_none(d, if i == rs.len() { d.len() as int } else { i }, va);
        if i == rs.len() {
            assert(rs.subrange(0, i) =~= rs);
        } else {
            assert(d.subrange(0, i) =~= rs.subrange(0, i));
        }
        assert forall|j: int| 0 <= j < rs.len() implies !covers(#[trigger] rs[j], va) by {
            if j < d.len() {
                assert(rs[j] == d[j]);
            }
        }
    }
}


/// UART register page.
pub const UART_MMIO_BASE: u64 = 0x1000_0000;
/// PLIC register window.
pub const PLIC_MMIO_BASE: u64 = 0x0c00_0000;
/// Length of the PLIC window.
pub const PLIC_MMIO_LEN: u64 = 0x40_0000;
/// VirtIO MMIO window (QEMU `virt`).
pub const VIRTIO_MMIO_BASE: u64 = 0x1000_1000;
/// Length of the VirtIO window.
pub const VIRTIO_MMIO_LEN: u64 = 0x8000;

/// The kernel image's sections and memory, as the linker lays them out:
/// each a `[start, end)` pair.
#[derive(Clone, Copy)]
pub struct KernelLayout {
    /// Code.
    pub text: (u64, u64),
    /// Read-only data.
    pub rodata: (u64, u64),
    /// Initialised data.
    pub data: (u64, u64),
    /// Zeroed data.
    pub bss: (u64, u64),
    /// Boot stack.
    pub stack: (u64, u64),
    /// Page-allocator pool.
    pub heap: (u64, u64),
    /// Heap of the WASM runtime.
    pub runtime_heap: (u64, u64),
}

/// The identity mappings the kernel needs, in the order it installs
/// them: code RX, read-only data RO, everything else of the image and
/// the device windows RW.
pub open spec fn kernel_regions_spec(l: KernelLayout) -> Seq<(u64, u64, u64)> {
    seq![
        (l.text.0, l.text.1, KERNEL_RX),
        (l.rodata.0, l.rodata.1, KERNEL_RO),
        (l.data.0, l.data.1, KERNEL_RW),
        (l.bss.0, l.bss.1, KERNEL_RW),
        (l.stack.0, l.stack.1, KERNEL_RW),
        (l.heap.0, l.heap.1, KERNEL_RW),
        (l.runtime_heap.0, l.runtime_heap.1, KERNEL_RW),
        (UART_MMIO_BASE, (UART_MMIO_BASE + 4096) as u64, KERNEL_RW),
        (PLIC_MMIO_BASE, (PLIC_MMIO_BASE + PLIC_MMIO_LEN) as u64, KERNEL_RW),
        (VIRTIO_MMIO_BASE, (VIRTIO_MMIO_BASE + VIRTIO_MMIO_LEN) as u64, KERNEL_RW),
    ]
}

/// Build the kernel's mapping list for layout `l`.
pub fn kernel_regions(l: &KernelLayout) -> (r: Vec<(u64, u64, u64)>)
    ensures
        r@ == kernel_regions_spec(*l),
        r@.len() == 10,
        r@[0] == (l.text.0, l.text.1, KERNEL_RX),
        r@[1] == (l.rodata.0, l.rodata.1, KERNEL_RO),
        r@[2] == (l.data.0, l.data.1, KERNEL_RW),
        r@[3] == (l.bss.0, l.bss.1, KERNEL_RW),
        r@[4] == (l.stack.0, l.stack.1, KERNEL_RW),
        r@[5] == (l.heap.0, l.heap.1, KERNEL_RW),
        r@[6] == (l.runtime_heap.0, l.runtime_heap.1, KERNEL_RW),
        r@[7] == (UART_MMIO_BASE, (UART_MMIO_BASE + 4096) as u64, KERNEL_RW),
        r@[8] == (PLIC_MMIO_BASE, (PLIC_MMIO_BASE + PLIC_MMIO_LEN) as u64, KERNEL_RW),
        r@[9] == (VIRTIO_MMIO_BASE, (VIRTIO_MMIO_BASE + VIRTIO_MMIO_LEN) as u64, KERNEL_RW),
{
    let mut v: Vec<(u64, u64, u64)> = Vec::new();
    v.push((l.text.0, l.text.1, KERNEL_RX));
    v.push((l.rodata.0, l.rodata.1, KERNEL_RO));
    v.push((l.data.0, l.data.1, KERNEL_RW));
    v.push((l.bss.0, l.bss.1, KERNEL_RW));
    v.push((l.stack.0, l.stack.1, KERNEL_RW));
    v.push((l.heap.0, l.heap.1, KERNEL_RW));
    v.push((l.runtime_heap.0, l.runtime_heap.1, KERNEL_RW));
    v.push((UART_MMIO_BASE, UART_MMIO_BASE + 4096, KERNEL_RW));
    v.push((PLIC_MMIO_BASE, PLIC_MMIO_BASE + PLIC_MMIO_LEN, KERNEL_RW));
    v.push((VIRTIO_MMIO_BASE, VIRTIO_MMIO_BASE + VIRTIO_MMIO_LEN, KERNEL_RW));
    assert(v@ =~= kernel_regions_spec(*l));
    v
}

/// The kernel's flags are leaf flags.
pub proof fn lemma_kernel_flags()
    ensures
        leaf_flags_ok(KERNEL_RX) && leaf_flags_ok(KERNEL_RO) && leaf_flags_ok(KERNEL_RW),
{
}

/// The number of pool pages between `heap_start` and `heap_end`: the
/// pool must be a non-empty, page-aligned range (`InvalidArgument`
/// otherwise) holding at least one page (`OutOfPages` otherwise).
pub fn heap_pages(heap_start: u64, heap_end: u64) -> (r: Result<u64, KernelError>)
    ensures
        (heap_end <= heap_start || heap_start % 4096 != 0) ==> r == Err::<u64, KernelError>(
            KernelError::InvalidArgument,
        ),
        !(heap_end <= heap_start || heap_start % 4096 != 0) && (heap_end - heap_start) / 4096 == 0 ==> r == Err::<
            u64,
            KernelError,
        >(KernelError::OutOfPages),
        !(heap_end <= heap_start || heap_start % 4096 != 0) && (heap_end - heap_start) / 4096 > 0 ==> r == Ok::<
            u64,
            KernelError,
        >(((heap_end - heap_start) / 4096) as u64),
{
    if heap_end <= heap_start || heap_start % 4096 != 0 {
        return Err(KernelError::InvalidArgument);
    }
    let n = (heap_end - heap_start) / 4096;
    if n == 0 {
        return Err(KernelError::OutOfPages);
    }
    Ok(n)
}

/// The `satp` value selecting Sv39 translation (mode 8) rooted at
/// physical page `root_ppn` for address space `asid`.
pub fn make_satp(root_ppn: u64, asid: u16) -> (r: u64)
    requires
        root_ppn < 0x1000_0000_0000,
    ensures
        r == 8 * 0x1000_0000_0000_0000 + asid * 0x1000_0000_0000 + root_ppn,
{
    0x8000_0000_0000_0000u64 + (asid as u64) * 0x1000_0000_0000 + root_ppn
}

impl PageTables {
    /// The tables form a tree rooted at page 0: every branch points at
    /// a non-root pool page, and no page is pointed at twice.
    pub open spec fn wf(&self) -> bool {
        &&& 1 <= self.pages@.len() <= self.capacity
        &&& self.pool_ppn + self.capacity < 0x1000_0000_0000
        &&& forall|t: int, j: int|
            0 <= t < self.pages@.len() && 0 <= j < 512 && #[trigger] pte_is_branch(entry(*self, t, j)) ==> 0 < target(
                *self,
                entry(*self, t, j),
            ) < self.pages@.len()
        &&& forall|t1: int, j1: int, t2: int, j2: int|
            0 <= t1 < self.pages@.len() && 0 <= j1 < 512 && 0 <= t2 < self.pages@.len() && 0 <= j2 < 512
                && #[trigger] pte_is_branch(entry(*self, t1, j1)) && #[trigger] pte_is_branch(entry(*self, t2, j2))
                && target(*self, entry(*self, t1, j1)) == target(*self, entry(*self, t2, j2)) ==> t1 == t2 && j1
                == j2
    }

    /// No mapping sits above level 0 on any path (no superpages).
    pub open spec fn no_superpages(&self) -> bool {
        &&& forall|j: int| 0 <= j < 512 ==> !#[trigger] pte_is_leaf(entry(*self, 0, j))
        &&& forall|j: int, k: int|
            0 <= j < 512 && 0 <= k < 512 && #[trigger] pte_is_branch(entry(*self, 0, j)) ==> !#[trigger] pte_is_leaf(
                entry(*self, target(*self, entry(*self, 0, j)), k),
            )
    }

    /// Fresh tables: an empty root taken from a pool of `capacity` pages
    /// whose first page has physical page number `pool_ppn`.
    /// `OutOfPages` for an empty pool.
    pub fn new(pool_ppn: u64, capacity: usize) -> (r: Result<Self, KernelError>)
        requires
            pool_ppn + capacity < 0x1000_0000_0000,
        ensures
            capacity == 0 ==> r == Err::<Self, KernelError>(KernelError::OutOfPages),
            capacity > 0 ==> (r matches Ok(pt) && pt.wf() && pt.no_superpages() && pt.pages@.len() == 1
                && pt.pool_ppn == pool_ppn && pt.capacity == capacity && forall|va: u64| #[trigger]
                translate(pt, va) is None),
    {
        if capacity == 0 {
            return Err(KernelError::OutOfPages);
        }
        let mut pages: Vec<[u64; 512]> = Vec::new();
        pages.push([0u64; 512]);
        let pt = PageTables { pages, pool_ppn, capacity };
        assert forall|j: int| 0 <= j < 512 implies entry(pt, 0, j) == 0 by {
            assert(pt.pages@[0]@[j] == 0);
        }
        Ok(pt)
    }

    /// Entry `j` of table `t`.
    fn read_pte(&self, t: usize, j: usize) -> (r: u64)
        requires
            t < self.pages@.len(),
            j < 512,
        ensures
            r == entry(*self, t as int, j as int),
    {
        self.pages[t][j]
    }

    /// Set entry `j` of table `t` to `val`.
    fn write_pte(&mut self, t: usize, j: usize, val: u64)
        requires
            t < old(self).pages@.len(),
            j < 512,
        ensures
            set_entry(*old(self), *final(self), t as int, j as int, val),
            forall|t2: int| 0 <= t2 < final(self).pages@.len() ==> (#[trigger] final(self).pages@[t2])@.len() == 512,
    {
        let mut pg = self.pages[t];
        pg[j] = val;
        self.pages.set(t, pg);
    }

    /// The next-level table behind entry `index` of table `t`: an
    /// existing branch is followed; an invalid entry gets a fresh zeroed
    /// table (`OutOfPages` when the pool is exhausted); a mapping where a
    /// table was expected is `InvalidArgument`. No translation changes.
    fn walk_or_create(&mut self, t: usize, index: usize) -> (r: Result<usize, KernelError>)
        requires
            old(self).wf(),
            t < old(self).pages@.len(),
            index < 512,
        ensures
            final(self).wf(),
            old(self).no_superpages() ==> final(self).no_superpages(),
            forall|va: u64| #[trigger] translate(*final(self), va) == translate(*old(self), va),
            ({
                let e = entry(*old(self), t as int, index as int);
                if pte_is_leaf(e) {
                    r == Err::<usize, KernelError>(KernelError::InvalidArgument) && *final(self) == *old(self)
                } else if pte_is_branch(e) {
                    r == Ok::<usize, KernelError>(target(*old(self), e) as usize) && *final(self) == *old(self)
                } else if old(self).pages@.len() >= old(self).capacity {
                    r == Err::<usize, KernelError>(KernelError::OutOfPages) && *final(self) == *old(self)
                } else {
                    r == Ok::<usize, KernelError>(old(self).pages@.len() as usize) && grew(
                        *old(self),
                        *final(self),
                        t as int,
                        index as int,
                    )
                }
            }),
    {
        let e = self.read_pte(t, index);
        if e % 2 == 1 {
            if (e / 2) % 8 != 0 {
                return Err(KernelError::InvalidArgument);
            }
            proof {
                assert(pte_is_branch(e));
            }
            return Ok((e / 1024 - self.pool_ppn) as usize);
        }
        if self.pages.len() >= self.capacity {
            return Err(KernelError::OutOfPages);
        }
        let ghost old_pt = *self;
        let n = self.pages.len();
        let zero: [u64; 512] = [0u64; 512];
        assert(forall|j2: int| 0 <= j2 < 512 ==> zero@[j2] == 0);
        self.pages.push(zero);
        proof {
            lemma_branch_pte(old_pt, n as int);
        }
        let val: u64 = (self.pool_ppn + n as u64) * 1024 + 1;
        let ghost mid = *self;
        self.write_pte(t, index, val);
        proof {
            assert forall|j2: int| 0 <= j2 < 512 implies #[trigger] entry(mid, n as int, j2) == 0 by {
                assert(mid.pages@[n as int] == zero);
            }
            assert(grew(old_pt, *self, t as int, index as int));
            lemma_grow(old_pt, *self, t as int, index as int);
        }
        Ok(n)
    }

    /// Map the 4 KiB page of `va` to physical address `pa` with leaf
    /// `flags`, creating the intermediate tables it lacks. Fails with
    /// `InvalidArgument` when a mapping sits where a table is needed, and
    /// with `OutOfPages` when the tables it needs (`need` of them) do not
    /// fit in the pool; either way no translation changes. On success
    /// `va` resolves to the new leaf; no address using other entries is
    /// affected.
    pub fn map_page(&mut self, va: u64, pa: u64, flags: u64) -> (r: Result<(), KernelError>)
        requires
            old(self).wf(),
            leaf_flags_ok(flags),
            pa < 0x10_0000_0000_0000,
        ensures
            final(self).wf(),
            final(self).pool_ppn == old(self).pool_ppn,
            final(self).capacity == old(self).capacity,
            old(self).no_superpages() ==> final(self).no_superpages(),
            forall|va2: u64| !same_vpns(va2, va) ==> #[trigger] translate(*final(self), va2) == translate(*old(self), va2),
            r is Err ==> forall|va2: u64| #[trigger] translate(*final(self), va2) == translate(*old(self), va2),
            r is Err ==> r == Err::<(), KernelError>(KernelError::InvalidArgument) || r == Err::<(), KernelError>(
                KernelError::OutOfPages,
            ),
            r is Ok ==> translate(*final(self), va) == Some(leaf_pte(pa, flags) as u64),
            ({
                let e2 = entry(*old(self), 0, vpn2(va));
                let e1 = if pte_is_branch(e2) {
                    entry(*old(self), target(*old(self), e2), vpn1(va))
                } else {
                    0
                };
                let conflict = pte_is_leaf(e2) || pte_is_leaf(e1);
                let need: int = if !pte_valid(e2) {
                    2
                } else if !pte_valid(e1) {
                    1
                } else {
                    0
                };
                &&& conflict <==> r == Err::<(), KernelError>(KernelError::InvalidArgument)
                &&& (!conflict && old(self).pages@.len() + need > old(self).capacity) <==> r == Err::<
                    (),
                    KernelError,
                >(KernelError::OutOfPages)
                &&& r is Ok ==> final(self).pages@.len() == old(self).pages@.len() + need
                &&& final(self).pages@.len() <= old(self).pages@.len() + need
            }),
    {
        let ghost pre = *self;
        let a = ((va / 0x4000_0000) % 512) as usize;
        let b = ((va / 0x20_0000) % 512) as usize;
        let c = ((va / 0x1000) % 512) as usize;
        let l1 = match self.walk_or_create(0, a) {
            Ok(x) => x,
            Err(e) => return Err(e),
        };
        let ghost mid = *self;
        proof {
            if !pte_valid(entry(pre, 0, a as int)) {
                lemma_branch_pte(pre, pre.pages@.len() as int);
                assert(entry(mid, l1 as int, b as int) == 0);
            }
        }
        let l0 = match self.walk_or_create(l1, b) {
            Ok(x) => x,
            Err(e) => return Err(e),
        };
        let ghost mid2 = *self;
        proof {
            if !pte_valid(entry(mid, l1 as int, b as int)) {
                lemma_branch_pte(mid, mid.pages@.len() as int);
            }
            assert(entry(mid2, 0, a as int) == entry(mid, 0, a as int));
            assert(pte_is_branch(entry(mid2, 0, a as int)));
            assert(target(mid2, entry(mid2, 0, a as int)) == l1);
            assert(pte_is_branch(entry(mid2, l1 as int, b as int)));
            assert(target(mid2, entry(mid2, l1 as int, b as int)) == l0);
        }
        let val: u64 = (pa / 4096) * 1024 + flags + 1;
        proof {
            assert((val as int) % 2 == 1);
            assert((val as int) / 2 == (pa / 4096) * 512 + flags / 2);
            assert(((pa / 4096) * 512 + flags / 2) % 8 == (flags / 2) % 8);
        }
        self.write_pte(l0, c, val);
        proof {
            lemma_leaf(mid2, *self, va, val);
        }
        Ok(())
    }

    /// Identity-map every page overlapping `[start, end)` with `flags`,
    /// page by page, stopping at the first failure. Addresses outside the
    /// page-aligned range keep their translations either way; on success
    /// every address in it resolves to its own page. Success is certain
    /// when there are no superpages and the pool has two pages to spare
    /// per page mapped.
    pub fn map_range(&mut self, start: u64, end: u64, flags: u64) -> (r: Result<(), KernelError>)
        requires
            old(self).wf(),
            leaf_flags_ok(flags),
            end <= VA_SPACE,
        ensures
            final(self).wf(),
            final(self).pool_ppn == old(self).pool_ppn,
            final(self).capacity == old(self).capacity,
            old(self).no_superpages() ==> final(self).no_superpages(),
            ({
                let lo = start as int / 4096 * 4096;
                let hi = (end as int + 4095) / 4096 * 4096;
                &&& forall|va: u64|
                    va < VA_SPACE && !(lo <= va < hi) ==> #[trigger] translate(*final(self), va) == translate(
                        *old(self),
                        va,
                    )
                &&& r is Ok ==> forall|va: u64|
                    lo <= va < hi ==> #[trigger] translate(*final(self), va) == Some(
                        leaf_pte((va as int / 4096 * 4096) as u64, flags) as u64,
                    )
                &&& (old(self).no_superpages() && old(self).pages@.len() + 2 * ((hi - lo) / 4096) <= old(
                    self,
                ).capacity) ==> r is Ok
                &&& final(self).pages@.len() <= old(self).pages@.len() + if hi > lo {
                    2 * ((hi - lo) / 4096)
                } else {
                    0
                }
            }),
    {
        let ghost pre = *self;
        let lo: u64 = start / 4096 * 4096;
        let hi: u64 = (end + 4095) / 4096 * 4096;
        let ghost total: int = if hi > lo { (hi - lo) / 4096 } else { 0 };
        proof {
            if hi > lo {
                assert(hi - lo == 4096 * total) by {
                    assert(lo % 4096 == 0 && hi % 4096 == 0);
                }
            }
        }
        let ghost budget = pre.no_superpages() && pre.pages@.len() + 2 * ((hi - lo) / 4096) <= pre.capacity;
        let mut addr: u64 = lo;
        let ghost mut k: int = 0;
        while addr < hi
            invariant
                self.wf(),
                pre == *old(self),
                self.pool_ppn == pre.pool_ppn,
                self.capacity == pre.capacity,
                pre.no_superpages() ==> self.no_superpages(),
                leaf_flags_ok(flags),
                lo % 4096 == 0,
                hi <= VA_SPACE,
                lo == start as int / 4096 * 4096,
                hi == (end as int + 4095) / 4096 * 4096,
                0 <= k,
                addr == lo + 4096 * k,
                hi > lo ==> hi - lo == 4096 * total && k <= total,
                hi <= lo ==> k == 0 && total == 0,
                budget == (pre.no_superpages() && pre.pages@.len() + 2 * ((hi - lo) / 4096) <= pre.capacity),
                budget ==> self.pages@.len() + 2 * (total - k) <= self.capacity,
                self.pages@.len() <= pre.pages@.len() + 2 * k,
                forall|va: u64|
                    va < VA_SPACE && !(lo <= va < addr) ==> #[trigger] translate(*self, va) == translate(pre, va),
                forall|va: u64|
                    lo <= va < addr ==> #[trigger] translate(*self, va) == Some(
                        leaf_pte((va as int / 4096 * 4096) as u64, flags) as u64,
                    ),
            decreases hi - addr,
        {
            let ghost before = *self;
            proof {
                assert(k < total);
                if budget {
                    assert(before.pages@.len() + 2 <= before.capacity);
                }
            }
            let res = self.map_page(addr, addr, flags);
            match res {
                Ok(()) => {},
                Err(e) => {
                    proof {
                        if budget {
                            assert(before.no_superpages());
                            let e2 = entry(before, 0, vpn2(addr));
                            assert(!pte_is_leaf(e2));
                            if pte_is_branch(e2) {
                                assert(!pte_is_leaf(entry(before, target(before, e2), vpn1(addr))));
                            }
                            assert(false);
                        }
                        assert forall|va: u64| va < VA_SPACE && !(lo <= va < hi) implies #[trigger] translate(
                            *self,
                            va,
                        ) == translate(pre, va) by {
                            assert(translate(*self, va) == translate(before, va));
                        }
                    }
                    return Err(e);
                },
            }
            proof {
                assert(addr % 4096 == 0);
                assert forall|va: u64| va < VA_SPACE && !(lo <= va < addr + 4096) implies #[trigger] translate(
                    *self,
                    va,
                ) == translate(pre, va) by {
                    lemma_same_page(va, addr);
                    assert(!same_vpns(va, addr));
                }
                assert forall|va: u64| lo <= va < addr + 4096 implies #[trigger] translate(*self, va) == Some(
                    leaf_pte((va as int / 4096 * 4096) as u64, flags) as u64,
                ) by {
                    lemma_same_page(va, addr);
                    if va < addr {
                        assert(!same_vpns(va, addr));
                    } else {
                        assert(va as int / 4096 == addr as int / 4096);
                        assert(same_vpns(va, addr));
                        lemma_translate_by_vpns(*self, va, addr);
                        assert((va as int / 4096 * 4096) / 4096 == va as int / 4096);
                        assert((addr as int) / 4096 == (va as int / 4096 * 4096) / 4096);
                    }
                }
                k = k + 1;
            }
            addr = addr + 4096;
        }
        Ok(())
    }

    /// Identity-map the regions `(start, end, flags)` of `rs` in order,
    /// stopping at the first failure. On success every address resolves
    /// to its own page with the flags of the last region covering it, and
    /// an address no region covers keeps its translation; on failure only
    /// covered addresses may have changed. Success is certain when there
    /// are no superpages and the pool has `pages_needed(rs)` pages spare.
    pub fn map_regions(&mut self, rs: &[(u64, u64, u64)]) -> (r: Result<(), KernelError>)
        requires
            old(self).wf(),
            regions_ok(rs@),
        ensures
            final(self).wf(),
            final(self).pool_ppn == old(self).pool_ppn,
            final(self).capacity == old(self).capacity,
            old(self).no_superpages() ==> final(self).no_superpages(),
            r is Ok ==> forall|va: u64|
                va < VA_SPACE ==> #[trigger] translate(*final(self), va) == match last_flags(rs@, va) {
                    Some(f) => Some(leaf_pte((va as int / 4096 * 4096) as u64, f) as u64),
                    None => translate(*old(self), va),
                },
            forall|va: u64|
                va < VA_SPACE && last_flags(rs@, va) is None ==> #[trigger] translate(*final(self), va) == translate(
                    *old(self),
                    va,
                ),
            (old(self).no_superpages() && old(self).pages@.len() + pages_needed(rs@) <= old(self).capacity) ==> r is Ok,
    {
        let ghost pre = *self;
        let ghost budget = pre.no_superpages() && pre.pages@.len() + pages_needed(rs@) <= pre.capacity;
        let n = rs.len();
        let mut i: usize = 0;
        while i < n
            invariant
                n == rs@.len(),
                i <= n,
                regions_ok(rs@),
                self.wf(),
                pre == *old(self),
                self.capacity == pre.capacity,
                self.pool_ppn == pre.pool_ppn,
                pre.no_superpages() ==> self.no_superpages(),
                budget == (pre.no_superpages() && pre.pages@.len() + pages_needed(rs@) <= pre.capacity),
                budget ==> self.pages@.len() + pages_needed(rs@) - pages_needed(rs@.subrange(0, i as int))
                    <= self.capacity,
                forall|va: u64|
                    va < VA_SPACE ==> #[trigger] translate(*self, va) == match last_flags(rs@.subrange(0, i as int), va) {
                        Some(f) => Some(leaf_pte((va as int / 4096 * 4096) as u64, f) as u64),
                        None => translate(pre, va),
                    },
            decreases n - i,
        {
            let (start, end, flags) = rs[i];
            proof {
                assert(rs@[i as int].1 <= VA_SPACE && leaf_flags_ok(rs@[i as int].2));
                lemma_pages_needed_step(rs@, i as int);
                lemma_pages_needed_mono(rs@, i as int + 1);
                lemma_pages_needed_nonneg(rs@.subrange(0, i as int));
            }
            let ghost before = *self;
            let res = self.map_range(start, end, flags);
            let ghost sub1 = rs@.subrange(0, i as int + 1);
            proof {
                assert(sub1.drop_last() =~= rs@.subrange(0, i as int));
                assert(sub1.last() == rs@[i as int]);
            }
            match res {
                Ok(()) => {},
                Err(e) => {
                    proof {
                        assert forall|va: u64| va < VA_SPACE && last_flags(rs@, va) is None implies #[trigger] translate(
                            *self,
                            va,
                        ) == translate(pre, va) by {
                            lemma_last_flags_none(rs@, i as int + 1, va);
                            assert(!covers(rs@[i as int], va));
                            assert(translate(*self, va) == translate(before, va));
                        }
                    }
                    return Err(e);
                },
            }
            i = i + 1;
        }
        proof {
            assert(rs@.subrange(0, n as int) =~= rs@);
        }
        Ok(())
    }
}


/// Does the page-rounded range of section `sec` cover `va`?
pub open spec fn in_section(sec: (u64, u64), va: u64) -> bool {
    sec.0 as int / 4096 * 4096 <= va < (sec.1 as int + 4095) / 4096 * 4096
}

/// Is `va` in memory the kernel writes: initialised or zeroed data, the
/// boot stack, either heap, or a device window?
pub open spec fn writable_section(l: KernelLayout, va: u64) -> bool {
    ||| in_section(l.data, va)
    ||| in_section(l.bss, va)
    ||| in_section(l.stack, va)
    ||| in_section(l.heap, va)
    ||| in_section(l.runtime_heap, va)
    ||| in_section((UART_MMIO_BASE, (UART_MMIO_BASE + 4096) as u64), va)
    ||| in_section((PLIC_MMIO_BASE, (PLIC_MMIO_BASE + PLIC_MMIO_LEN) as u64), va)
    ||| in_section((VIRTIO_MMIO_BASE, (VIRTIO_MMIO_BASE + VIRTIO_MMIO_LEN) as u64), va)
}

/// How the kernel's tables map `va`, by section: read-write in writable
/// memory (data, bss, stack, heaps, devices), otherwise read-only in
/// read-only data, otherwise executable in code, otherwise unmapped.
pub open spec fn section_flags(l: KernelLayout, va: u64) -> Option<u64> {
    if writable_section(l, va) {
        Some(KERNEL_RW)
    } else if in_section(l.rodata, va) {
        Some(KERNEL_RO)
    } else if in_section(l.text, va) {
        Some(KERNEL_RX)
    } else {
        None
    }
}

/// The kernel's regions give every address the flags of its section:
/// writable memory is `KERNEL_RW` whatever else covers it, only read-only
/// data is `KERNEL_RO`, only code is `KERNEL_RX`.
pub proof fn lemma_kernel_section_flags(l: KernelLayout, va: u64)
    ensures
        last_flags(kernel_regions_spec(l), va) == section_flags(l, va),
{
    let rs = kernel_regions_spec(l);
    reveal_with_fuel(last_flags, 11);
    assert(rs.drop_last() =~= rs.subrange(0, 9));
    assert(rs.subrange(0, 9).drop_last() =~= rs.subrange(0, 8));
    assert(rs.subrange(0, 8).drop_last() =~= rs.subrange(0, 7));
    assert(rs.subrange(0, 7).drop_last() =~= rs.subrange(0, 6));
    assert(rs.subrange(0, 6).drop_last() =~= rs.subrange(0, 5));
    assert(rs.subrange(0, 5).drop_last() =~= rs.subrange(0, 4));
    assert(rs.subrange(0, 4).drop_last() =~= rs.subrange(0, 3));
    assert(rs.subrange(0, 3).drop_last() =~= rs.subrange(0, 2));
    assert(rs.subrange(0, 2).drop_last() =~= rs.subrange(0, 1));
    assert(rs.subrange(0, 1).drop_last() =~= rs.subrange(0, 0));
}

/// The kernel's tables for layout `l`, built in its page-allocator pool
/// (the heap range), with every kernel region identity mapped, and the
/// `satp` value that activates them. Fails as `heap_pages` does, or with
/// `OutOfPages` when the pool cannot hold the tables; a pool of
/// `1 + pages_needed` pages always suffices.
pub fn build_kernel_tables(l: &KernelLayout) -> (r: Result<(PageTables, u64), KernelError>)
    requires
        l.text.1 <= VA_SPACE && l.rodata.1 <= VA_SPACE && l.data.1 <= VA_SPACE && l.bss.1 <= VA_SPACE && l.stack.1
            <= VA_SPACE && l.heap.1 <= VA_SPACE && l.runtime_heap.1 <= VA_SPACE,
    ensures
        heap_pages_ok(*l) is Err ==> r == Err::<(PageTables, u64), KernelError>(heap_pages_ok(*l)->Err_0),
        heap_pages_ok(*l) matches Ok(n) && n >= 1 + pages_needed(kernel_regions_spec(*l)) ==> r is Ok,
        r matches Ok((pt, satp)) ==> {
            &&& pt.wf()
            &&& pt.pool_ppn == l.heap.0 / 4096
            &&& satp == 8 * 0x1000_0000_0000_0000 + pt.pool_ppn
            &&& forall|va: u64|
                va < VA_SPACE ==> #[trigger] translate(pt, va) == match last_flags(kernel_regions_spec(*l), va) {
                    Some(f) => Some(leaf_pte((va as int / 4096 * 4096) as u64, f) as u64),
                    None => None,
                }
            &&& forall|va: u64|
                va < VA_SPACE ==> #[trigger] translate(pt, va) == match section_flags(*l, va) {
                    Some(f) => Some(leaf_pte((va as int / 4096 * 4096) as u64, f) as u64),
                    None => None,
                }
        },
{
    let n = match heap_pages(l.heap.0, l.heap.1) {
        Ok(n) => n,
        Err(e) => return Err(e),
    };
    let pool_ppn = l.heap.0 / 4096;
    let mut pt = match PageTables::new(pool_ppn, n as usize) {
        Ok(pt) => pt,
        Err(e) => return Err(e),
    };
    let rs = kernel_regions(l);
    proof {
        lemma_kernel_flags();
        assert forall|i: int| 0 <= i < rs@.len() implies #[trigger] rs@[i].1 <= VA_SPACE && leaf_flags_ok(
            rs@[i].2,
        ) by {
            assert(rs@ == kernel_regions_spec(*l));
        }
    }
    let ghost fresh = pt;
    match pt.map_regions(rs.as_slice()) {
        Ok(()) => {},
        Err(e) => return Err(e),
    }
    let satp = make_satp(pool_ppn, 0);
    proof {
        assert forall|va: u64| va < VA_SPACE implies #[trigger] translate(pt, va) == match last_flags(
            kernel_regions_spec(*l),
            va,
        ) {
            Some(f) => Some(leaf_pte((va as int / 4096 * 4096) as u64, f) as u64),
            None => None,
        } by {
            assert(translate(fresh, va) is None);
            assert(rs@ == kernel_regions_spec(*l));
        }
        assert forall|va: u64| va < VA_SPACE implies #[trigger] translate(pt, va) == match section_flags(*l, va) {
            Some(f) => Some(leaf_pte((va as int / 4096 * 4096) as u64, f) as u64),
            None => None,
        } by {
            lemma_kernel_section_flags(*l, va);
        }
    }
    Ok((pt, satp))
}

/// The pool size `build_kernel_tables` takes from the layout.
pub open spec fn heap_pages_ok(l: KernelLayout) -> Result<u64, KernelError> {
    if l.heap.1 <= l.heap.0 || l.heap.0 % 4096 != 0 {
        Err(KernelError::InvalidArgument)
    } else if (l.heap.1 - l.heap.0) / 4096 == 0 {
        Err(KernelError::OutOfPages)
    } else {
        Ok(((l.heap.1 - l.heap.0) / 4096) as u64)
    }
}

} // verus!
