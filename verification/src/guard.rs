//! The guard agent that watches the audit stream: decoding the 16-byte
//! audit record, rendering it as a console line, and the decisions of
//! its watch loop. Reading the stream and printing are the agent's
//! host calls.

use vstd::prelude::*;
use vstd::bytes::{spec_u64_from_le_bytes, u64_from_le_bytes, spec_u16_from_le_bytes, u16_from_le_bytes,
    spec_u32_from_le_bytes, u32_from_le_bytes};
use vstd::string::*;

verus! {

/// One audit record.
#[derive(Debug, Clone, Copy, PartialEq, Eq, Structural)]
pub struct Event {
    /// Sequence number.
    pub seq: u64,
    /// Event kind.
    pub kind: u16,
    /// First argument.
    pub a: u16,
    /// Second argument.
    pub b: u32,
}

/// Decode a record from its 16 little-endian bytes: `seq`, `kind`,
/// `a`, `b`.
pub fn decode(buf: &[u8; 16]) -> (r: Event)
    ensures
        r.seq == spec_u64_from_le_bytes(buf@.subrange(0, 8)),
        r.kind == spec_u16_from_le_bytes(buf@.subrange(8, 10)),
        r.a == spec_u16_from_le_bytes(buf@.subrange(10, 12)),
        r.b == spec_u32_from_le_bytes(buf@.subrange(12, 16)),
{
    let s = buf.as_slice();
    Event {
        seq: u64_from_le_bytes(vstd::slice::slice_subrange(s, 0, 8)),
        kind: u16_from_le_bytes(vstd::slice::slice_subrange(s, 8, 10)),
        a: u16_from_le_bytes(vstd::slice::slice_subrange(s, 10, 12)),
        b: u32_from_le_bytes(vstd::slice::slice_subrange(s, 12, 16)),
    }
}

/// The decimal digits of `v`, most significant first, with no leading
/// zero (`"0"` for zero).
pub open spec fn decimal(v: nat) -> Seq<u8>
    decreases v,
{
    if v < 10 {
        seq![(48 + v) as u8]
    } else {
        decimal(v / 10).push((48 + v % 10) as u8)
    }
}

proof fn lemma_decimal_bound(v: nat)
    ensures
        v < 10 ==> decimal(v).len() == 1,
        forall|k: nat| v < pow10(k) && k >= 1 ==> #[trigger] decimal(v).len() <= k,
    decreases v,
{
    if v >= 10 {
        lemma_decimal_bound(v / 10);
        assert forall|k: nat| v < pow10(k) && k >= 1 implies #[trigger] decimal(v).len() <= k by {
            if k == 1 {
                assert(pow10(1) == 10) by {
                    reveal_with_fuel(pow10, 2);
                }
            } else {
                let k1 = (k - 1) as nat;
                assert(pow10(k) == 10 * pow10(k1));
                assert(v / 10 < pow10(k1));
            }
        }
    }
}

/// Ten to the power `k`.
pub open spec fn pow10(k: nat) -> nat
    decreases k,
{
    if k == 0 {
        1
    } else {
        10 * pow10((k - 1) as nat)
    }
}

/// Write `v` as decimal into `out[at..]` and return the index just past
/// the digits; the rest of `out` is unchanged.
pub fn format_u64(out: &mut [u8], at: usize, v: u64) -> (r: usize)
    requires
        at + 20 <= old(out)@.len(),
    ensures
        r == at + decimal(v as nat).len(),
        r <= at + 20,
        final(out)@.len() == old(out)@.len(),
        final(out)@.subrange(at as int, r as int) == decimal(v as nat),
        forall|j: int| 0 <= j < at ==> final(out)@[j] == old(out)@[j],
        forall|j: int| r <= j < old(out)@.len() ==> final(out)@[j] == old(out)@[j],
{
    let mut tmp = [0u8; 20];
    let mut i: usize = 20;
    let mut n = v;
    proof {
        assert(pow10(20) == 100000000000000000000) by {
            reveal_with_fuel(pow10, 21);
        }
        lemma_decimal_bound(v as nat);
        assert(decimal(v as nat).len() <= 20);
        assert(tmp@.subrange(20, 20) =~= Seq::<u8>::empty());
        assert(decimal(v as nat) =~= decimal(n as nat) + tmp@.subrange(20, 20));
    }
    loop
        invariant_except_break
            0 < i <= 20,
            decimal(v as nat) == decimal(n as nat) + tmp@.subrange(i as int, 20),
        invariant
            decimal(v as nat).len() <= 20,
        ensures
            i < 20,
            decimal(v as nat) == tmp@.subrange(i as int, 20),
        decreases i,
    {
        let ghost pre_tmp = tmp@;
        let ghost pre_n = n;
        i = i - 1;
        let d: u8 = 48u8 + (n % 10) as u8;
        tmp[i] = d;
        n = n / 10;
        proof {
            assert(tmp@.subrange(i as int, 20) =~= seq![d] + pre_tmp.subrange(i as int + 1, 20));
            if pre_n < 10 {
                assert(decimal(pre_n as nat) == seq![d]);
            } else {
                assert(decimal(pre_n as nat) == decimal(n as nat).push(d));
                assert(decimal(pre_n as nat) + pre_tmp.subrange(i as int + 1, 20) =~= decimal(n as nat) + (seq![d]
                    + pre_tmp.subrange(i as int + 1, 20)));
            }
        }
        if n == 0 {
            proof {
                assert(pre_n < 10);
            }
            break;
        }
        proof {
            assert(decimal(n as nat).len() >= 1) by {
                if n >= 10 {
                    assert(decimal(n as nat) == decimal((n / 10) as nat).push((48 + n % 10) as u8));
                }
            }
        }
    }
    let len = 20 - i;
    let olen = out.len();
    let mut k: usize = 0;
    while k < len
        invariant
            i < 20,
            len == 20 - i,
            at + 20 <= old(out)@.len(),
            olen == old(out)@.len(),
            k <= len,
            out@.len() == old(out)@.len(),
            forall|j: int| at <= j < at + k ==> #[trigger] out@[j] == tmp@[i + j - at],
            forall|j: int| 0 <= j < at ==> out@[j] == old(out)@[j],
            forall|j: int| at + k <= j < old(out)@.len() ==> out@[j] == old(out)@[j],
        decreases len - k,
    {
        out[at + k] = tmp[i + k];
        k = k + 1;
    }
    proof {
        assert forall|j: int| 0 <= j < len implies #[trigger] out@.subrange(at as int, (at + len) as int)[j]
            == tmp@.subrange(i as int, 20)[j] by {
            assert(out@[at + j] == tmp@[i + (at + j) - at]);
        }
        assert(out@.subrange(at as int, (at + len) as int) =~= tmp@.subrange(i as int, 20));
    }
    at + len
}


/// The bytes of an ASCII text.
pub open spec fn ascii(s: Seq<char>) -> Seq<u8> {
    s.map_values(|c: char| c as u8)
}

/// Append the ASCII text `s` to `out`.
pub(crate) fn push_text(out: &mut Vec<u8>, s: &str)
    requires
        s.is_ascii(),
    ensures
        final(out)@ == old(out)@ + ascii(s@),
{
    broadcast use is_ascii_spec_bytes;
    let b = s.as_bytes_vec();
    assert(b@ =~= ascii(s@));
    let n = b.len();
    let mut k: usize = 0;
    while k < n
        invariant
            n == b@.len(),
            k <= n,
            out@ == old(out)@ + b@.subrange(0, k as int),
        decreases n - k,
    {
        out.push(b[k]);
        k = k + 1;
        assert(b@.subrange(0, k as int) =~= b@.subrange(0, k - 1).push(b@[k - 1]));
    }
    assert(b@.subrange(0, n as int) =~= b@);
}

/// Append the decimal digits of `v` to `out`.
fn push_decimal(out: &mut Vec<u8>, v: u64)
    ensures
        final(out)@ == old(out)@ + decimal(v as nat),
{
    let mut tmp = [0u8; 20];
    let end = format_u64(&mut tmp, 0, v);
    let mut k: usize = 0;
    while k < end
        invariant
            end <= 20,
            tmp@.len() == 20,
            tmp@.subrange(0, end as int) == decimal(v as nat),
            k <= end,
            out@ == old(out)@ + tmp@.subrange(0, k as int),
        decreases end - k,
    {
        out.push(tmp[k]);
        k = k + 1;
        assert(tmp@.subrange(0, k as int) =~= tmp@.subrange(0, k - 1).push(tmp@[k - 1]));
    }
}

/// The guard's name for event kind code `kind`.
pub open spec fn kind_label(kind: u16) -> Seq<char> {
    if kind == 0 {
        "module-staged"@
    } else if kind == 1 {
        "spawn-verified"@
    } else if kind == 2 {
        "SPAWN-REJECTED"@
    } else if kind == 3 {
        "tenant-exited"@
    } else if kind == 4 {
        "TENANT-FAULTED"@
    } else {
        "unknown-kind"@
    }
}

/// Append the guard's name for event kind code `kind` to `out`.
fn push_kind_label(out: &mut Vec<u8>, kind: u16)
    ensures
        final(out)@ == old(out)@ + ascii(kind_label(kind)),
{
    if kind == 0 {
        proof { reveal_strlit("module-staged"); }
        push_text(out, "module-staged");
    } else if kind == 1 {
        proof { reveal_strlit("spawn-verified"); }
        push_text(out, "spawn-verified");
    } else if kind == 2 {
        proof { reveal_strlit("SPAWN-REJECTED"); }
        push_text(out, "SPAWN-REJECTED");
    } else if kind == 3 {
        proof { reveal_strlit("tenant-exited"); }
        push_text(out, "tenant-exited");
    } else if kind == 4 {
        proof { reveal_strlit("TENANT-FAULTED"); }
        push_text(out, "TENANT-FAULTED");
    } else {
        proof { reveal_strlit("unknown-kind"); }
        push_text(out, "unknown-kind");
    }
}

/// The console line for record `e`:
/// `[guard] #<seq> <kind> a=<a> b=<b>` and CR LF.
pub open spec fn record_line(e: Event) -> Seq<u8> {
    ascii("[guard] #"@) + decimal(e.seq as nat) + ascii(" "@) + ascii(kind_label(e.kind)) + ascii(" a="@)
        + decimal(e.a as nat) + ascii(" b="@) + decimal(e.b as nat) + ascii("\r\n"@)
}

/// Render record `e` as its console line.
pub fn render_record(e: &Event) -> (r: Vec<u8>)
    ensures
        r@ == record_line(*e),
{
    let mut out: Vec<u8> = Vec::new();
    proof {
        reveal_strlit("[guard] #");
        reveal_strlit(" ");
        reveal_strlit(" a=");
        reveal_strlit(" b=");
        reveal_strlit("\r\n");
    }
    push_text(&mut out, "[guard] #");
    push_decimal(&mut out, e.seq);
    push_text(&mut out, " ");
    push_kind_label(&mut out, e.kind);
    push_text(&mut out, " a=");
    push_decimal(&mut out, e.a as u64);
    push_text(&mut out, " b=");
    push_decimal(&mut out, e.b as u64);
    push_text(&mut out, "\r\n");
    out
}

/// The line reporting `gap` records lost to ring overwrite.
pub open spec fn lost_line(gap: u64) -> Seq<u8> {
    ascii("[guard] LOST "@) + decimal(gap as nat) + ascii(" records\r\n"@)
}

/// Render the lost-records line.
pub fn render_lost(gap: u64) -> (r: Vec<u8>)
    ensures
        r@ == lost_line(gap),
{
    let mut out: Vec<u8> = Vec::new();
    proof {
        reveal_strlit("[guard] LOST ");
        reveal_strlit(" records\r\n");
    }
    push_text(&mut out, "[guard] LOST ");
    push_decimal(&mut out, gap);
    push_text(&mut out, " records\r\n");
    out
}

/// The line the guard prints when it starts watching.
pub fn banner() -> (r: Vec<u8>)
    ensures
        r@ == ascii("[guard] watching the audit stream\r\n"@),
{
    let mut out: Vec<u8> = Vec::new();
    proof {
        reveal_strlit("[guard] watching the audit stream\r\n");
    }
    push_text(&mut out, "[guard] watching the audit stream\r\n");
    out
}

/// `event_read` result: a record at the cursor was read.
pub const READ_RECORD: i32 = 0;
/// `event_read` result: nothing new yet.
pub const READ_UP_TO_DATE: i32 = 1;
/// `event_read` result: the cursor fell behind; the oldest record still
/// held was read instead.
pub const READ_LAGGED: i32 = 2;

/// The arguments of `wari::event_read` for `cursor`: its low and high
/// words.
pub fn cursor_words(cursor: u64) -> (r: (u32, u32))
    ensures
        r.0 == cursor % 0x1_0000_0000,
        r.1 == cursor / 0x1_0000_0000,
{
    assert((cursor as u32) == cursor % 0x1_0000_0000) by (bit_vector);
    assert(((cursor >> 32) as u32) == cursor / 0x1_0000_0000) by (bit_vector);
    (cursor as u32, (cursor >> 32) as u32)
}

/// What the guard does after one `event_read`.
pub enum GuardStep {
    /// Print these lines and read again.
    Print { lines: Vec<Vec<u8>> },
    /// Print this line and exit with status 0.
    Exit { line: Vec<u8> },
}

/// The record following `seq` (wrapping at the end of `u64`).
pub open spec fn next_cursor(seq: u64) -> u64 {
    if seq == u64::MAX {
        0
    } else {
        (seq + 1) as u64
    }
}

/// React to `event_read` answering `rc` with record bytes `buf`, reading
/// at `cursor`. A record (or, after a lag, the oldest record kept, with
/// a LOST line for the skipped records first) is printed and the cursor
/// moves past it; up to date prints nothing; any other answer ends the
/// watch.
pub fn on_read(cursor: &mut u64, rc: i32, buf: &[u8; 16]) -> (r: GuardStep)
    ensures
        rc == READ_UP_TO_DATE ==> (r matches GuardStep::Print { lines } && lines@.len() == 0)
            && *final(cursor) == *old(cursor),
        rc != READ_RECORD && rc != READ_UP_TO_DATE && rc != READ_LAGGED ==> (r matches GuardStep::Exit { line }
            && line@ == ascii("[guard] read err, exiting\r\n"@)) && *final(cursor) == *old(cursor),
        rc == READ_RECORD || rc == READ_LAGGED ==> ({
            let e = Event {
                seq: spec_u64_from_le_bytes(buf@.subrange(0, 8)),
                kind: spec_u16_from_le_bytes(buf@.subrange(8, 10)),
                a: spec_u16_from_le_bytes(buf@.subrange(10, 12)),
                b: spec_u32_from_le_bytes(buf@.subrange(12, 16)),
            };
            let gap: u64 = if e.seq >= *old(cursor) { (e.seq - *old(cursor)) as u64 } else { 0 };
            &&& r matches GuardStep::Print { lines }
            &&& rc == READ_RECORD ==> lines@.len() == 1 && lines@[0]@ == record_line(e)
            &&& rc == READ_LAGGED ==> lines@.len() == 2 && lines@[0]@ == lost_line(gap)
                && lines@[1]@ == record_line(e)
            &&& *final(cursor) == next_cursor(e.seq)
        }),
{
    if rc == READ_UP_TO_DATE {
        return GuardStep::Print { lines: Vec::new() };
    }
    if rc != READ_RECORD && rc != READ_LAGGED {
        let mut line: Vec<u8> = Vec::new();
        proof {
            reveal_strlit("[guard] read err, exiting\r\n");
        }
        push_text(&mut line, "[guard] read err, exiting\r\n");
        return GuardStep::Exit { line };
    }
    let e = decode(buf);
    let mut lines: Vec<Vec<u8>> = Vec::new();
    if rc == READ_LAGGED {
        let gap = e.seq.saturating_sub(*cursor);
        lines.push(render_lost(gap));
    }
    lines.push(render_record(&e));
    *cursor = e.seq.wrapping_add(1);
    GuardStep::Print { lines }
}

} // verus!
