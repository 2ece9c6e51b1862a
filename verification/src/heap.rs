//! The kernel's bump allocator: an arena `[cursor, end)` handed out in
//! aligned, increasing, never-freed pieces.

use vstd::prelude::*;

verus! {

/// The bump allocator's state.
pub struct BumpAllocator {
    /// Next free address.
    pub cursor: usize,
    /// Exclusive end of the arena.
    pub end: usize,
}

/// `x` rounded up to a multiple of `align`.
pub open spec fn round_up(x: int, align: int) -> int {
    ((x + align - 1) / align) * align
}

/// Is `a` a power of two?
pub open spec fn is_power_of_two(a: usize) -> bool {
    a != 0 && a & ((a - 1) as usize) == 0
}

impl BumpAllocator {
    /// Well-formed: the cursor never passes the end.
    pub open spec fn wf(&self) -> bool {
        self.cursor <= self.end
    }

    /// An arena over `[start, end)`.
    pub fn new(start: usize, end: usize) -> (r: Self)
        requires
            start <= end,
        ensures
            r.wf(),
            r.cursor == start,
            r.end == end,
    {
        BumpAllocator { cursor: start, end }
    }

    /// Carve `size` bytes aligned to `align` (a power of two) from the
    /// arena: the cursor is rounded up to the alignment, and the piece
    /// is handed out when it fits below `end`, the cursor moving past
    /// it. `None` (nothing changes) when it does not fit.
    pub fn allocate(&mut self, size: usize, align: usize) -> (r: Option<usize>)
        requires
            old(self).wf(),
            is_power_of_two(align),
            old(self).cursor + align - 1 <= usize::MAX,
        ensures
            final(self).wf(),
            final(self).end == old(self).end,
            ({
                let a = round_up(old(self).cursor as int, align as int);
                if a + size <= old(self).end {
                    r == Some(a as usize) && final(self).cursor == a + size
                } else {
                    r is None && final(self).cursor == old(self).cursor
                }
            }),
    {
        let cursor = self.cursor;
        let t = cursor + (align - 1);
        let q = t / align;
        proof {
            assert(q * align <= t) by (nonlinear_arith)
                requires
                    align > 0,
                    q == t / align,
            ;
        }
        let aligned = q * align;
        let new_cursor = match aligned.checked_add(size) {
            Some(v) => v,
            None => return None,
        };
        if new_cursor > self.end {
            return None;
        }
        self.cursor = new_cursor;
        Some(aligned)
    }
}

/// Two pieces handed out one after the other do not overlap, and both
/// lie inside the arena.
pub proof fn lemma_allocations_disjoint(cursor: int, end: int, s1: int, a1: int, s2: int, a2: int)
    requires
        0 <= cursor,
        a1 > 0,
        a2 > 0,
        s1 >= 0,
        s2 >= 0,
        round_up(cursor, a1) + s1 <= end,
        round_up(round_up(cursor, a1) + s1, a2) + s2 <= end,
    ensures
        cursor <= round_up(cursor, a1),
        round_up(cursor, a1) + s1 <= round_up(round_up(cursor, a1) + s1, a2),
{
    lemma_round_up_ge(cursor, a1);
    lemma_round_up_ge(round_up(cursor, a1) + s1, a2);
}

/// Rounding up never goes down.
pub proof fn lemma_round_up_ge(x: int, a: int)
    requires
        0 <= x,
        a > 0,
    ensures
        x <= round_up(x, a),
        round_up(x, a) < x + a,
{
    let q = (x + a - 1) / a;
    let r = (x + a - 1) % a;
    assert(x + a - 1 == q * a + r) by (nonlinear_arith)
        requires
            a > 0,
            q == (x + a - 1) / a,
            r == (x + a - 1) % a,
    ;
    assert(0 <= r < a);
}

} // verus!
