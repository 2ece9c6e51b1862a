//! Driver-manifest parser: a WASM section walker that finds the
//! `wari_driver_manifest` custom section, and a bounds-checked decoder
//! of the manifest it carries. Total on every input: every outcome is an
//! `Ok` view or a precise `DriverManifestError`.

use vstd::prelude::*;
use vstd::arithmetic::power2::{pow2, lemma2_to64};
use vstd::slice::slice_subrange;
use crate::driver_iface::{
    export_spec, exports_spec, header_spec, import_spec, imports_spec, manifest_spec, nul_padded,
    func_sig_code, u16_le, NAME_MAX, MODULE_MAX, driver_kind_code, func_sig_known, le16, magic_spec, manifest_size_spec, section_name,
    section_name_spec, DriverKind, DriverManifestError, ExportDecl, FuncSig, ImportDecl,
    ManifestHeader, MANIFEST_ABI_VERSION,
};

verus! {

// ── LEB128 ───────────────────────────────────────────────────────

/// An unsigned LEB128 number starting at `off` ends with its byte `k`
/// (`k < 5`): that byte has its high bit clear and every earlier one set.
pub open spec fn leb_done(s: Seq<u8>, off: int, k: int) -> bool {
    &&& 0 <= k < 5
    &&& 0 <= off
    &&& off + k < s.len()
    &&& s[off + k] < 128
    &&& forall|j: int| off <= j < off + k ==> s[j] >= 128
}

/// Sum of the low seven bits of the first `k` bytes from `off`, each
/// weighted by `2^(7j)`.
pub open spec fn leb_sum(s: Seq<u8>, off: int, k: nat) -> nat
    decreases k,
{
    if k == 0 {
        0
    } else {
        leb_sum(s, off, (k - 1) as nat) + ((s[off + k - 1] % 128) as nat) * pow2((7 * (k - 1))
            as nat)
    }
}

/// The LEB128 `u32` at `off`: its value (modulo `2^32`) and its length
/// in bytes, or `None` when no terminating byte is found within five
/// in-bounds bytes.
pub open spec fn leb_decode(s: Seq<u8>, off: int) -> Option<(nat, nat)> {
    if exists|k: int| leb_done(s, off, k) {
        let k = choose|k: int| leb_done(s, off, k);
        Some((leb_sum(s, off, (k + 1) as nat) % pow2(32), (k + 1) as nat))
    } else {
        None
    }
}

/// A LEB128 `u32` that decodes spans one to five bytes, all inside the
/// input.
pub proof fn lemma_leb_within_five(s: Seq<u8>, off: int)
    ensures
        leb_decode(s, off) matches Some((v, len)) ==> 1 <= len <= 5 && off + len <= s.len() && v < pow2(32),
{
    if exists|k: int| leb_done(s, off, k) {
        let k = choose|k: int| leb_done(s, off, k);
        assert(leb_done(s, off, k));
        vstd::arithmetic::power2::lemma_pow2_pos(32);
    }
}

proof fn lemma_leb_least_end(s: Seq<u8>, off: int, k: int)
    requires
        0 <= off,
        0 <= k < 5,
        off + k < s.len(),
        s[off + k] < 128,
    ensures
        exists|k0: int| leb_done(s, off, k0),
    decreases k,
{
    if forall|j: int| off <= j < off + k ==> s[j] >= 128 {
        assert(leb_done(s, off, k));
    } else {
        let j = choose|j: int| off <= j < off + k && !(s[j] >= 128);
        lemma_leb_least_end(s, off, j - off);
    }
}

/// The LEB128 decoding in the reader's terms: a number is read exactly
/// when one of the five bytes from `off` inside the input has its high
/// bit clear (`b < 128`, that is `b & 0x80 == 0`); it then ends at the
/// first such byte, every byte before it has the high bit set, and its
/// value is the sum of the low seven bits of each byte `j` times
/// `2^(7j)`, modulo `2^32`.
pub proof fn lemma_leb_decode_least(s: Seq<u8>, off: int)
    requires
        0 <= off,
    ensures
        leb_decode(s, off) is Some <==> exists|k: int| 0 <= k < 5 && off + k < s.len() && #[trigger] s[off + k] < 128,
        leb_decode(s, off) matches Some((v, len)) ==> ({
            &&& 1 <= len <= 5
            &&& off + len <= s.len()
            &&& s[off + len - 1] < 128
            &&& forall|j: int| 0 <= j < len - 1 ==> #[trigger] s[off + j] >= 128
            &&& v == leb_sum(s, off, len) % pow2(32)
        }),
{
    if exists|k: int| 0 <= k < 5 && off + k < s.len() && #[trigger] s[off + k] < 128 {
        let k = choose|k: int| 0 <= k < 5 && off + k < s.len() && #[trigger] s[off + k] < 128;
        lemma_leb_least_end(s, off, k);
    }
    if exists|k: int| leb_done(s, off, k) {
        let k = choose|k: int| leb_done(s, off, k);
        assert(leb_done(s, off, k));
        assert(s[off + k] < 128);
        assert forall|j: int| 0 <= j < k implies #[trigger] s[off + j] >= 128 by {
            assert(off <= off + j < off + k);
        }
    }
}

proof fn lemma_leb_done_unique(s: Seq<u8>, off: int, k1: int, k2: int)
    requires
        leb_done(s, off, k1),
        leb_done(s, off, k2),
    ensures
        k1 == k2,
{
    if k1 < k2 {
        assert(s[off + k1] >= 128);
    } else if k2 < k1 {
        assert(s[off + k2] >= 128);
    }
}

proof fn lemma_leb_step(r: u32, c: u32, j: u32, sum: nat) -> (out: u32)
    requires
        j < 5,
        c < 128,
        r as nat == sum % pow2(32),
        j <= 4 ==> sum < pow2((7 * j) as nat),
    ensures
        out == (r | (c << (7 * j))),
        out as nat == (sum + c * pow2((7 * j) as nat)) as nat % pow2(32),
        j < 4 ==> sum + c * pow2((7 * j) as nat) < pow2((7 * (j + 1)) as nat),
{
    lemma2_to64();
    let out = r | (c << (7 * j));
    assert(sum < pow2(32));
    assert(r == sum);
    if j == 0 {
        assert(r == 0);
        assert((0u32 | (c << 0u32)) == c) by (bit_vector);
    } else if j == 1 {
        assert((r | (c << 7u32)) == r + c * 128) by (bit_vector)
            requires
                r < 128,
                c < 128,
        ;
    } else if j == 2 {
        assert((r | (c << 14u32)) == r + c * 16384) by (bit_vector)
            requires
                r < 16384,
                c < 128,
        ;
    } else if j == 3 {
        assert((r | (c << 21u32)) == r + c * 2097152) by (bit_vector)
            requires
                r < 2097152,
                c < 128,
        ;
    } else {
        assert((r | (c << 28u32)) == (r + c * 268435456) % 4294967296) by (bit_vector)
            requires
                r < 268435456,
                c < 128,
        ;
    }
    out
}

/// The unsigned LEB128 encoding of `v`: seven bits per byte, least
/// significant first, the high bit set on every byte but the last.
pub open spec fn leb_encode(v: nat) -> Seq<u8>
    decreases v,
{
    if v < 128 {
        seq![v as u8]
    } else {
        seq![(v % 128 + 128) as u8] + leb_encode(v / 128)
    }
}

proof fn lemma_leb_sum_shift(s: Seq<u8>, off: int, n: nat)
    requires
        n >= 1,
    ensures
        leb_sum(s, off, n) == (s[off] % 128) as nat + 128 * leb_sum(s, off + 1, (n - 1) as nat),
    decreases n,
{
    lemma2_to64();
    if n > 1 {
        lemma_leb_sum_shift(s, off, (n - 1) as nat);
        let c = (s[off + n - 1] % 128) as nat;
        let p = pow2((7 * (n - 2)) as nat);
        vstd::arithmetic::power2::lemma_pow2_adds((7 * (n - 2)) as nat, 7);
        assert((7 * (n - 2)) as nat + 7 == (7 * (n - 1)) as nat);
        let l = leb_sum(s, off + 1, (n - 2) as nat);
        assert(leb_sum(s, off, n) == leb_sum(s, off, (n - 1) as nat) + c * pow2((7 * (n - 1)) as nat));
        assert(leb_sum(s, off + 1, (n - 1) as nat) == l + c * p);
        assert(pow2((7 * (n - 1)) as nat) == p * 128);
        assert(128 * (l + c * p) == 128 * l + c * (p * 128)) by (nonlinear_arith);
    } else {
        assert(leb_sum(s, off, 1) == leb_sum(s, off, 0) + ((s[off] % 128) as nat) * pow2(0));
    }
}

proof fn lemma_leb_encode_bytes(s: Seq<u8>, off: int, v: nat)
    requires
        0 <= off,
        off + leb_encode(v).len() <= s.len(),
        s.subrange(off, off + leb_encode(v).len()) == leb_encode(v),
    ensures
        leb_encode(v).len() >= 1,
        forall|j: int| off <= j < off + leb_encode(v).len() - 1 ==> s[j] >= 128,
        s[off + leb_encode(v).len() - 1] < 128,
        leb_sum(s, off, leb_encode(v).len()) == v,
    decreases v,
{
    let e = leb_encode(v);
    lemma2_to64();
    assert(s[off] == e[0]);
    if v < 128 {
        assert(leb_sum(s, off, 1) == leb_sum(s, off, 0) + ((s[off] % 128) as nat) * pow2(0));
    } else {
        let t = leb_encode(v / 128);
        assert(e == seq![(v % 128 + 128) as u8] + t);
        assert(s.subrange(off + 1, off + 1 + t.len()) =~= t) by {
            assert forall|j: int| 0 <= j < t.len() implies s.subrange(off + 1, off + 1 + t.len())[j] == t[j] by {
                assert(s.subrange(off, off + e.len())[j + 1] == e[j + 1]);
            }
        }
        lemma_leb_encode_bytes(s, off + 1, v / 128);
        lemma_leb_sum_shift(s, off, e.len());
        assert forall|j: int| off <= j < off + e.len() - 1 implies s[j] >= 128 by {
            if j > off {
                assert(s[j] >= 128);
            }
        }
        assert(s[off] as nat % 128 == v % 128);
    }
}

proof fn lemma_leb_encode_len(v: nat, k: nat)
    requires
        k >= 1,
        v < pow2(7 * k),
    ensures
        leb_encode(v).len() <= k,
    decreases v,
{
    lemma2_to64();
    if v >= 128 {
        if k == 1 {
            assert(false);
        }
        vstd::arithmetic::power2::lemma_pow2_adds((7 * (k - 1)) as nat, 7);
        assert((7 * (k - 1)) as nat + 7 == 7 * k);
        let p = pow2((7 * (k - 1)) as nat);
        assert(v / 128 < p) by (nonlinear_arith)
            requires
                v < p * 128,
        ;
        lemma_leb_encode_len(v / 128, (k - 1) as nat);
    }
}

/// A `u32` LEB128-encoded at `off` decodes to itself, over exactly the
/// bytes of its encoding.
pub proof fn lemma_leb_decode_encoded(s: Seq<u8>, off: int, v: nat)
    requires
        v < pow2(32),
        0 <= off,
        off + leb_encode(v).len() <= s.len(),
        s.subrange(off, off + leb_encode(v).len()) == leb_encode(v),
    ensures
        leb_decode(s, off) == Some((v, leb_encode(v).len())),
{
    let e = leb_encode(v);
    lemma2_to64();
    lemma_leb_encode_bytes(s, off, v);
    vstd::arithmetic::power2::lemma_pow2_strictly_increases(32, 35);
    lemma_leb_encode_len(v, 5);
    let k = e.len() - 1;
    assert(leb_done(s, off, k));
    let c = choose|k: int| leb_done(s, off, k);
    lemma_leb_done_unique(s, off, k, c);
    vstd::arithmetic::div_mod::lemma_small_mod(v, pow2(32));
}

/// Read an unsigned LEB128 `u32` at `wasm[off]`, returning the value and
/// the offset just past it. At most five bytes are read; a number that
/// does not end within them, or runs off the input, is `Truncated`.
pub fn read_leb128_u32(wasm: &[u8], off: usize) -> (r: Result<(u32, usize), DriverManifestError>)
    ensures
        match r {
            Ok((v, next)) => leb_decode(wasm@, off as int) matches Some((dv, len)) && v as nat
                == dv && next as int == off + len,
            Err(e) => e == DriverManifestError::Truncated && leb_decode(wasm@, off as int) is None,
        },
{
    let mut result: u32 = 0;
    let mut shift: u32 = 0;
    let mut i: usize = off;
    let mut bytes_read: usize = 0;
    proof {
        lemma2_to64();
    }
    loop
        invariant
            bytes_read <= 5,
            i == off + bytes_read,
            shift == 7 * bytes_read,
            bytes_read > 0 ==> off + bytes_read <= wasm@.len(),
            forall|j: int| off <= j < off + bytes_read ==> wasm@[j] >= 128,
            result as nat == leb_sum(wasm@, off as int, bytes_read as nat) % pow2(32),
            bytes_read <= 4 ==> leb_sum(wasm@, off as int, bytes_read as nat) < pow2(
                (7 * bytes_read) as nat,
            ),
        decreases 5 - bytes_read,
    {
        if i >= wasm.len() {
            proof {
                if exists|k: int| leb_done(wasm@, off as int, k) {
                    let k = choose|k: int| leb_done(wasm@, off as int, k);
                    if k >= bytes_read {
                        assert(off + k >= wasm@.len());
                    } else {
                        assert(wasm@[off + k] >= 128);
                    }
                }
            }
            return Err(DriverManifestError::Truncated);
        }
        if bytes_read >= 5 {
            proof {
                if exists|k: int| leb_done(wasm@, off as int, k) {
                    let k = choose|k: int| leb_done(wasm@, off as int, k);
                    assert(wasm@[off + k] >= 128);
                }
            }
            return Err(DriverManifestError::Truncated);
        }
        let b = wasm[i];
        let chunk = (b & 0x7f) as u32;
        assert((b & 0x7f) == b % 128) by (bit_vector);
        let ghost old_sum = leb_sum(wasm@, off as int, bytes_read as nat);
        let ghost j = bytes_read;
        proof {
            let _ = lemma_leb_step(result, chunk, shift / 7, old_sum);
            assert(shift / 7 == bytes_read);
        }
        result = result | (chunk << shift);
        i = i + 1;
        bytes_read = bytes_read + 1;
        proof {
            assert(leb_sum(wasm@, off as int, bytes_read as nat) == old_sum + chunk * pow2(
                (7 * j) as nat,
            ));
        }
        if b & 0x80 == 0 {
            proof {
                assert((b & 0x80 == 0) == (b < 128)) by (bit_vector);
                assert(leb_done(wasm@, off as int, j as int));
                let k = choose|k: int| leb_done(wasm@, off as int, k);
                lemma_leb_done_unique(wasm@, off as int, k, j as int);
            }
            return Ok((result, i));
        }
        proof {
            assert((b & 0x80 != 0) == (b >= 128)) by (bit_vector);
        }
        shift = shift + 7;
    }
}

// ── Name trimming ────────────────────────────────────────────────

/// `r` is `buf` with its trailing NUL bytes removed: a prefix of `buf`,
/// followed in `buf` by NULs only, and not itself ending in a NUL.
pub open spec fn nul_trims_to(buf: Seq<u8>, r: Seq<u8>) -> bool {
    &&& r.len() <= buf.len()
    &&& r == buf.subrange(0, r.len() as int)
    &&& forall|j: int| r.len() <= j < buf.len() ==> buf[j] == 0
    &&& r.len() == 0 || buf[r.len() - 1] != 0
}

/// Trimming has one result.
pub proof fn lemma_nul_trim_unique(buf: Seq<u8>, r1: Seq<u8>, r2: Seq<u8>)
    requires
        nul_trims_to(buf, r1),
        nul_trims_to(buf, r2),
    ensures
        r1 == r2,
{
    if r1.len() < r2.len() {
        assert(buf[r2.len() - 1] == 0);
    } else if r2.len() < r1.len() {
        assert(buf[r1.len() - 1] == 0);
    }
    assert(r1 =~= r2);
}

/// A name that does not end in NUL, padded with NULs, trims back to itself.
pub proof fn lemma_nul_padded_trims(name: Seq<u8>, n: nat)
    requires
        name.len() <= n,
        name.len() == 0 || name.last() != 0,
    ensures
        nul_trims_to(nul_padded(name, n), name),
{
    let b = nul_padded(name, n);
    assert(b.subrange(0, name.len() as int) =~= name);
}

/// `buf` with its trailing NUL bytes removed.
pub fn trim_nul(buf: &[u8]) -> (r: &[u8])
    ensures
        nul_trims_to(buf@, r@),
{
    let mut end = buf.len();
    while end > 0 && buf[end - 1] == 0
        invariant
            end <= buf@.len(),
            forall|j: int| end <= j < buf@.len() ==> buf@[j] == 0,
        decreases end,
    {
        end = end - 1;
    }
    slice_subrange(buf, 0, end)
}

// ── WASM section walker ──────────────────────────────────────────

/// The eight-byte WASM preamble: `"\0asm"` then version 1.
pub open spec fn wasm_preamble() -> Seq<u8> {
    seq![0x00u8, 0x61u8, 0x73u8, 0x6du8, 0x01u8, 0x00u8, 0x00u8, 0x00u8]
}

/// Walk the section list from offset `i`: each section is an id byte,
/// a LEB128 size, then the body; a custom section (id 0) starts with a
/// LEB128 name length and the name. Yields the payload range
/// `(start, end)` of the first custom section named `target`.
pub open spec fn walk_sections(s: Seq<u8>, target: Seq<u8>, i: int) -> Result<
    Option<(int, int)>,
    DriverManifestError,
>
    decreases s.len() - i,
{
    if i < 0 || i >= s.len() {
        Ok(None)
    } else {
        match leb_decode(s, i + 1) {
            None => Err(DriverManifestError::Truncated),
            Some((size, len)) => {
                let after = i + 1 + len;
                let sec_end = after + size;
                if sec_end > s.len() {
                    Err(DriverManifestError::Truncated)
                } else if s[i] == 0 {
                    match leb_decode(s, after) {
                        None => Err(DriverManifestError::Truncated),
                        Some((name_len, nlen)) => {
                            let name_start = after + nlen;
                            let name_end = name_start + name_len;
                            if name_end > sec_end {
                                Err(DriverManifestError::Truncated)
                            } else if s.subrange(name_start, name_end) == target {
                                Ok(Some((name_end, sec_end)))
                            } else {
                                walk_sections(s, target, sec_end)
                            }
                        }
                    }
                } else {
                    walk_sections(s, target, sec_end)
                }
            }
        }
    }
}

/// Where the payload of the custom section named `target` lies, after
/// checking the preamble (`Truncated` when shorter, `Missing` when wrong).
pub open spec fn section_payload_spec(s: Seq<u8>, target: Seq<u8>) -> Result<
    Option<(int, int)>,
    DriverManifestError,
> {
    if s.len() < 8 {
        Err(DriverManifestError::Truncated)
    } else if s.subrange(0, 8) != wasm_preamble() {
        Err(DriverManifestError::Missing)
    } else {
        walk_sections(s, target, 8)
    }
}

fn bytes_equal(s: &[u8], start: usize, end: usize, target: &[u8]) -> (r: bool)
    requires
        start <= end <= s@.len(),
    ensures
        r == (s@.subrange(start as int, end as int) == target@),
{
    if end - start != target.len() {
        proof {
            assert(s@.subrange(start as int, end as int).len() != target@.len());
        }
        return false;
    }
    let mut k: usize = 0;
    while k < target.len()
        invariant
            k <= target@.len(),
            end - start == target@.len(),
            start <= end <= s@.len(),
            forall|j: int| 0 <= j < k ==> s@[start + j] == target@[j],
        decreases target@.len() - k,
    {
        if s[start + k] != target[k] {
            proof {
                assert(s@.subrange(start as int, end as int)[k as int] != target@[k as int]);
            }
            return false;
        }
        k = k + 1;
    }
    assert(s@.subrange(start as int, end as int) =~= target@);
    true
}

/// Find the payload range of the custom section named `target`.
pub fn find_section_payload(wasm: &[u8], target: &[u8]) -> (r: Result<
    Option<(usize, usize)>,
    DriverManifestError,
>)
    ensures
        match (r, section_payload_spec(wasm@, target@)) {
            (Ok(None), Ok(None)) => true,
            (Ok(Some((a, b))), Ok(Some((sa, sb)))) => a == sa && b == sb && a <= b <= wasm@.len(),
            (Err(e), Err(se)) => e == se,
            _ => false,
        },
{
    if wasm.len() < 8 {
        return Err(DriverManifestError::Truncated);
    }
    if wasm[0] != 0x00 || wasm[1] != 0x61 || wasm[2] != 0x73 || wasm[3] != 0x6d || wasm[4] != 0x01
        || wasm[5] != 0x00 || wasm[6] != 0x00 || wasm[7] != 0x00 {
        proof {
            assert(wasm@.subrange(0, 8) != wasm_preamble()) by {
                if wasm@.subrange(0, 8) == wasm_preamble() {
                    assert(wasm@.subrange(0, 8)[0] == wasm@[0]);
                    assert(wasm@.subrange(0, 8)[1] == wasm@[1]);
                    assert(wasm@.subrange(0, 8)[2] == wasm@[2]);
                    assert(wasm@.subrange(0, 8)[3] == wasm@[3]);
                    assert(wasm@.subrange(0, 8)[4] == wasm@[4]);
                    assert(wasm@.subrange(0, 8)[5] == wasm@[5]);
                    assert(wasm@.subrange(0, 8)[6] == wasm@[6]);
                    assert(wasm@.subrange(0, 8)[7] == wasm@[7]);
                }
            }
        }
        return Err(DriverManifestError::Missing);
    }
    assert(wasm@.subrange(0, 8) =~= wasm_preamble());
    let mut i: usize = 8;
    while i < wasm.len()
        invariant
            8 <= i,
            8 <= wasm@.len(),
            wasm@.subrange(0, 8) == wasm_preamble(),
            walk_sections(wasm@, target@, 8) == walk_sections(wasm@, target@, i as int),
        decreases wasm@.len() - i,
    {
        let id = wasm[i];
        let (sec_size, after_size) = match read_leb128_u32(wasm, i + 1) {
            Ok(p) => p,
            Err(e) => {
                assert(walk_sections(wasm@, target@, i as int) == Err::<Option<(int, int)>, DriverManifestError>(DriverManifestError::Truncated));
                return Err(e);
            },
        };
        let sec_end = match after_size.checked_add(sec_size as usize) {
            Some(v) => v,
            None => return Err(DriverManifestError::Truncated),
        };
        if sec_end > wasm.len() {
            return Err(DriverManifestError::Truncated);
        }
        if id == 0 {
            let (name_len, after_name_len) = match read_leb128_u32(wasm, after_size) {
                Ok(p) => p,
                Err(e) => return Err(e),
            };
            let name_end = match after_name_len.checked_add(name_len as usize) {
                Some(v) => v,
                None => return Err(DriverManifestError::Truncated),
            };
            if name_end > sec_end {
                return Err(DriverManifestError::Truncated);
            }
            if bytes_equal(wasm, after_name_len, name_end, target) {
                return Ok(Some((name_end, sec_end)));
            }
        }
        i = sec_end;
    }
    Ok(None)
}

// ── Manifest payload ─────────────────────────────────────────────

/// Little-endian `u16` at `off`.
pub open spec fn le16_at(p: Seq<u8>, off: int) -> u16 {
    le16(p[off], p[off + 1])
}

/// Offset of export declaration `i`.
pub open spec fn export_off(i: int) -> int {
    16 + 36 * i
}

/// Offset of import declaration `j` when there are `ec` exports.
pub open spec fn import_off(ec: int, j: int) -> int {
    16 + 36 * ec + 52 * j
}

/// Why a manifest payload is rejected, in the order the checks run:
/// short header, magic, ABI version, declared arrays past the end, an
/// unknown signature byte in any declaration. `None` when it is accepted.
pub open spec fn payload_error(p: Seq<u8>) -> Option<DriverManifestError> {
    if p.len() < 16 {
        Some(DriverManifestError::Truncated)
    } else if p.subrange(0, 4) != magic_spec() {
        Some(DriverManifestError::BadMagic)
    } else if le16_at(p, 4) != MANIFEST_ABI_VERSION {
        Some(DriverManifestError::UnsupportedAbiVersion)
    } else if manifest_size_spec(le16_at(p, 8) as int, le16_at(p, 10) as int) > p.len() {
        Some(DriverManifestError::Truncated)
    } else if (exists|i: int|
        0 <= i < le16_at(p, 8) && !func_sig_known(#[trigger] p[export_off(i) + 32])) || (exists|
        j: int,
    |
        0 <= j < le16_at(p, 10) && !func_sig_known(
            #[trigger] p[import_off(le16_at(p, 8) as int, j) + 48],
        )) {
        Some(DriverManifestError::UnknownSig)
    } else {
        None
    }
}

/// A parsed manifest: its header and declaration arrays, decoded.
pub struct DriverManifestView {
    /// The 16-byte fixed header.
    pub header: ManifestHeader,
    /// `export_count` export declarations.
    pub exports: Vec<ExportDecl>,
    /// `import_count` import declarations.
    pub imports: Vec<ImportDecl>,
}

/// `v` holds exactly the header and declarations laid out in `p`.
pub open spec fn view_matches(v: DriverManifestView, p: Seq<u8>) -> bool {
    let ec = le16_at(p, 8) as int;
    let ic = le16_at(p, 10) as int;
    &&& v.header.bytes() == p.subrange(0, 16)
    &&& v.exports@.len() == ec
    &&& v.imports@.len() == ic
    &&& forall|i: int|
        0 <= i < ec ==> (#[trigger] v.exports@[i]).bytes() == p.subrange(
            export_off(i),
            export_off(i) + 36,
        )
    &&& forall|j: int|
        0 <= j < ic ==> (#[trigger] v.imports@[j]).bytes() == p.subrange(
            import_off(ec, j),
            import_off(ec, j) + 52,
        )
}

fn copy_array<const N: usize>(s: &[u8], off: usize) -> (r: [u8; N])
    requires
        off + N <= s@.len(),
    ensures
        r@ == s@.subrange(off as int, off + N),
{
    let _len = s.len();
    let mut a: [u8; N] = [0u8; N];
    let mut k: usize = 0;
    while k < N
        invariant
            k <= N,
            off + N <= s@.len(),
            _len == s@.len(),
            a@.len() == N,
            forall|j: int| 0 <= j < k ==> a@[j] == s@[off + j],
        decreases N - k,
    {
        a[k] = s[off + k];
        k = k + 1;
    }
    assert(a@ =~= s@.subrange(off as int, off + N));
    a
}

fn read_le16(p: &[u8], off: usize) -> (r: u16)
    requires
        off + 1 < p@.len(),
    ensures
        r == le16_at(p@, off as int),
{
    p[off] as u16 + (p[off + 1] as u16) * 256
}

/// Decode and bounds-check a manifest payload.
pub fn parse_payload(payload: &[u8]) -> (r: Result<DriverManifestView, DriverManifestError>)
    ensures
        match r {
            Ok(v) => payload_error(payload@) is None && view_matches(v, payload@),
            Err(e) => payload_error(payload@) == Some(e),
        },
{
    let p = payload;
    if p.len() < 16 {
        return Err(DriverManifestError::Truncated);
    }
    if p[0] != 0x57 || p[1] != 0x44 || p[2] != 0x4d || p[3] != 0 {
        proof {
            if p@.subrange(0, 4) == magic_spec() {
                assert(p@.subrange(0, 4)[0] == p@[0]);
                assert(p@.subrange(0, 4)[1] == p@[1]);
                assert(p@.subrange(0, 4)[2] == p@[2]);
                assert(p@.subrange(0, 4)[3] == p@[3]);
            }
        }
        return Err(DriverManifestError::BadMagic);
    }
    assert(p@.subrange(0, 4) =~= magic_spec());
    if read_le16(p, 4) != MANIFEST_ABI_VERSION {
        return Err(DriverManifestError::UnsupportedAbiVersion);
    }
    let ec = read_le16(p, 8) as usize;
    let ic = read_le16(p, 10) as usize;
    let total = 16 + ec * 36 + ic * 52;
    if total > p.len() {
        return Err(DriverManifestError::Truncated);
    }
    let mut i: usize = 0;
    while i < ec
        invariant
            p@ == payload@,
            i <= ec,
            p@.len() >= 16,
            p@.subrange(0, 4) == magic_spec(),
            le16_at(p@, 4) == MANIFEST_ABI_VERSION,
            ec == le16_at(p@, 8),
            ic == le16_at(p@, 10),
            16 + ec * 36 + ic * 52 <= p@.len(),
            forall|k: int| 0 <= k < i ==> func_sig_known(#[trigger] p@[export_off(k) + 32]),
        decreases ec - i,
    {
        if FuncSig::from_raw(p[16 + 36 * i + 32]).is_none() {
            assert(!func_sig_known(p@[export_off(i as int) + 32]));
            return Err(DriverManifestError::UnknownSig);
        }
        i = i + 1;
    }
    let mut j: usize = 0;
    while j < ic
        invariant
            p@ == payload@,
            j <= ic,
            p@.len() >= 16,
            p@.subrange(0, 4) == magic_spec(),
            le16_at(p@, 4) == MANIFEST_ABI_VERSION,
            ec == le16_at(p@, 8),
            ic == le16_at(p@, 10),
            16 + ec * 36 + ic * 52 <= p@.len(),
            forall|k: int| 0 <= k < ec ==> func_sig_known(#[trigger] p@[export_off(k) + 32]),
            forall|k: int|
                0 <= k < j ==> func_sig_known(#[trigger] p@[import_off(ec as int, k) + 48]),
        decreases ic - j,
    {
        if FuncSig::from_raw(p[16 + 36 * ec + 52 * j + 48]).is_none() {
            assert(!func_sig_known(p@[import_off(ec as int, j as int) + 48]));
            return Err(DriverManifestError::UnknownSig);
        }
        j = j + 1;
    }
    let header = ManifestHeader {
        magic: copy_array::<4>(p, 0),
        abi_version: copy_array::<2>(p, 4),
        kind: copy_array::<2>(p, 6),
        export_count: copy_array::<2>(p, 8),
        import_count: copy_array::<2>(p, 10),
        flags: copy_array::<4>(p, 12),
    };
    assert(header.bytes() =~= p@.subrange(0, 16));
    let mut exports: Vec<ExportDecl> = Vec::new();
    let mut e: usize = 0;
    while e < ec
        invariant
            p@ == payload@,
            e <= ec,
            ec == le16_at(p@, 8),
            16 + ec * 36 + ic * 52 <= p@.len(),
            exports@.len() == e,
            forall|k: int|
                0 <= k < e ==> (#[trigger] exports@[k]).bytes() == p@.subrange(
                    export_off(k),
                    export_off(k) + 36,
                ),
        decreases ec - e,
    {
        let off = 16 + 36 * e;
        let d = ExportDecl {
            name: copy_array::<32>(p, off),
            sig: p[off + 32],
            _pad: copy_array::<3>(p, off + 33),
        };
        assert(d.bytes() =~= p@.subrange(off as int, off + 36));
        exports.push(d);
        e = e + 1;
    }
    let mut imports: Vec<ImportDecl> = Vec::new();
    let mut m: usize = 0;
    while m < ic
        invariant
            p@ == payload@,
            m <= ic,
            ec == le16_at(p@, 8),
            ic == le16_at(p@, 10),
            16 + ec * 36 + ic * 52 <= p@.len(),
            imports@.len() == m,
            forall|k: int|
                0 <= k < m ==> (#[trigger] imports@[k]).bytes() == p@.subrange(
                    import_off(ec as int, k),
                    import_off(ec as int, k) + 52,
                ),
        decreases ic - m,
    {
        let off = 16 + 36 * ec + 52 * m;
        let d = ImportDecl {
            module: copy_array::<16>(p, off),
            name: copy_array::<32>(p, off + 16),
            sig: p[off + 48],
            _pad: copy_array::<3>(p, off + 49),
        };
        assert(d.bytes() =~= p@.subrange(off as int, off + 52));
        imports.push(d);
        m = m + 1;
    }
    Ok(DriverManifestView { header, exports, imports })
}

/// The outcome of parsing a whole WASM binary for its driver manifest.
pub open spec fn parse_from_wasm_outcome(s: Seq<u8>) -> Result<Seq<u8>, DriverManifestError> {
    match section_payload_spec(s, section_name_spec()) {
        Err(e) => Err(e),
        Ok(None) => Err(DriverManifestError::Missing),
        Ok(Some((a, b))) => {
            let p = s.subrange(a, b);
            match payload_error(p) {
                Some(e) => Err(e),
                None => Ok(p),
            }
        }
    }
}

/// Parse a WASM binary, find the `wari_driver_manifest` custom section
/// and decode the manifest it carries. Does not check the driver kind.
pub fn parse_from_wasm(wasm: &[u8]) -> (r: Result<DriverManifestView, DriverManifestError>)
    ensures
        match (r, parse_from_wasm_outcome(wasm@)) {
            (Ok(v), Ok(p)) => view_matches(v, p),
            (Err(e), Err(se)) => e == se,
            _ => false,
        },
{
    let name = section_name();
    let found = find_section_payload(wasm, name.as_slice());
    match found {
        Err(e) => Err(e),
        Ok(None) => Err(DriverManifestError::Missing),
        Ok(Some((a, b))) => {
            let payload = slice_subrange(wasm, a, b);
            parse_payload(payload)
        }
    }
}

impl DriverManifestView {
    /// Driver kind decoded from the header; `UnknownKind` when the
    /// discriminant names no kind.
    pub fn kind(&self) -> (r: Result<DriverKind, DriverManifestError>)
        ensures
            match r {
                Ok(k) => driver_kind_code(k) == le16(self.header.kind@[0], self.header.kind@[1]),
                Err(e) => e == DriverManifestError::UnknownKind && !(1 <= le16(
                    self.header.kind@[0],
                    self.header.kind@[1],
                ) <= 3),
            },
    {
        let raw = self.header.kind[0] as u16 + (self.header.kind[1] as u16) * 256;
        match DriverKind::from_raw(raw) {
            Some(k) => Ok(k),
            None => Err(DriverManifestError::UnknownKind),
        }
    }

    /// ABI version from the header.
    pub fn abi_version(&self) -> (r: u16)
        ensures
            r == le16(self.header.abi_version@[0], self.header.abi_version@[1]),
    {
        self.header.abi_version[0] as u16 + (self.header.abi_version[1] as u16) * 256
    }
}

proof fn lemma_nul_padded_len(name: Seq<u8>, n: nat)
    requires
        name.len() <= n,
    ensures
        nul_padded(name, n).len() == n,
{
}

proof fn lemma_exports_layout(ex: Seq<(Seq<u8>, FuncSig)>)
    requires
        forall|i: int| 0 <= i < ex.len() ==> (#[trigger] ex[i]).0.len() < NAME_MAX,
    ensures
        exports_spec(ex).len() == 36 * ex.len(),
        forall|i: int|
            0 <= i < ex.len() ==> exports_spec(ex).subrange(36 * i, 36 * i + 36) == export_spec(
                (#[trigger] ex[i]).0,
                ex[i].1,
            ),
    decreases ex.len(),
{
    if ex.len() > 0 {
        let init = ex.drop_last();
        assert forall|i: int| 0 <= i < init.len() implies (#[trigger] init[i]).0.len()
            < NAME_MAX by {
            assert(init[i] == ex[i]);
        }
        lemma_exports_layout(init);
        let last = ex.last();
        lemma_nul_padded_len(last.0, 32);
        let e = exports_spec(init);
        let x = export_spec(last.0, last.1);
        assert(exports_spec(ex) == e + x);
        assert forall|i: int| 0 <= i < ex.len() implies exports_spec(ex).subrange(
            36 * i,
            36 * i + 36,
        ) == export_spec((#[trigger] ex[i]).0, ex[i].1) by {
            if i < init.len() {
                assert(init[i] == ex[i]);
                assert((e + x).subrange(36 * i, 36 * i + 36) =~= e.subrange(36 * i, 36 * i + 36));
            } else {
                assert((e + x).subrange(36 * i, 36 * i + 36) =~= x);
            }
        }
    }
}

proof fn lemma_imports_layout(im: Seq<(Seq<u8>, Seq<u8>, FuncSig)>)
    requires
        forall|i: int|
            0 <= i < im.len() ==> (#[trigger] im[i]).0.len() < MODULE_MAX && im[i].1.len()
                < NAME_MAX,
    ensures
        imports_spec(im).len() == 52 * im.len(),
        forall|i: int|
            0 <= i < im.len() ==> imports_spec(im).subrange(52 * i, 52 * i + 52) == import_spec(
                (#[trigger] im[i]).0,
                im[i].1,
                im[i].2,
            ),
    decreases im.len(),
{
    if im.len() > 0 {
        let init = im.drop_last();
        assert forall|i: int| 0 <= i < init.len() implies (#[trigger] init[i]).0.len()
            < MODULE_MAX && init[i].1.len() < NAME_MAX by {
            assert(init[i] == im[i]);
        }
        lemma_imports_layout(init);
        let last = im.last();
        lemma_nul_padded_len(last.0, 16);
        lemma_nul_padded_len(last.1, 32);
        let e = imports_spec(init);
        let x = import_spec(last.0, last.1, last.2);
        assert(imports_spec(im) == e + x);
        assert forall|i: int| 0 <= i < im.len() implies imports_spec(im).subrange(
            52 * i,
            52 * i + 52,
        ) == import_spec((#[trigger] im[i]).0, im[i].1, im[i].2) by {
            if i < init.len() {
                assert(init[i] == im[i]);
                assert((e + x).subrange(52 * i, 52 * i + 52) =~= e.subrange(52 * i, 52 * i + 52));
            } else {
                assert((e + x).subrange(52 * i, 52 * i + 52) =~= x);
            }
        }
    }
}

proof fn lemma_u16_le_round_trip(v: u16)
    ensures
        le16(u16_le(v)[0], u16_le(v)[1]) == v,
{
    assert(v % 256 + (v / 256) * 256 == v);
}

/// A manifest built from declarations whose names fit is accepted by the
/// parser, and its header and declaration slots carry exactly those
/// declarations: the kind, both counts, and each export and import in order.
pub proof fn lemma_manifest_round_trip(
    kind: DriverKind,
    ex: Seq<(Seq<u8>, FuncSig)>,
    im: Seq<(Seq<u8>, Seq<u8>, FuncSig)>,
)
    requires
        ex.len() < 65536,
        im.len() < 65536,
        forall|i: int| 0 <= i < ex.len() ==> (#[trigger] ex[i]).0.len() < NAME_MAX,
        forall|i: int|
            0 <= i < im.len() ==> (#[trigger] im[i]).0.len() < MODULE_MAX && im[i].1.len()
                < NAME_MAX,
    ensures
        ({
            let m = manifest_spec(kind, ex, im);
            &&& payload_error(m) is None
            &&& le16_at(m, 6) == driver_kind_code(kind)
            &&& le16_at(m, 8) == ex.len()
            &&& le16_at(m, 10) == im.len()
            &&& m.len() == manifest_size_spec(ex.len() as int, im.len() as int)
            &&& forall|i: int|
                0 <= i < ex.len() ==> m.subrange(export_off(i), export_off(i) + 36)
                    == export_spec((#[trigger] ex[i]).0, ex[i].1)
            &&& forall|j: int|
                0 <= j < im.len() ==> m.subrange(
                    import_off(ex.len() as int, j),
                    import_off(ex.len() as int, j) + 52,
                ) == import_spec((#[trigger] im[j]).0, im[j].1, im[j].2)
        }),
{
    let m = manifest_spec(kind, ex, im);
    let ec = (ex.len() % 65536) as u16;
    let ic = (im.len() % 65536) as u16;
    let h = header_spec(kind, ec, ic);
    let e = exports_spec(ex);
    let x = imports_spec(im);
    lemma_exports_layout(ex);
    lemma_imports_layout(im);
    assert(m == h + e + x);
    assert(h.len() == 16);
    lemma_u16_le_round_trip(MANIFEST_ABI_VERSION);
    lemma_u16_le_round_trip(driver_kind_code(kind));
    lemma_u16_le_round_trip(ec);
    lemma_u16_le_round_trip(ic);
    assert(m[4] == h[4] && m[5] == h[5] && m[6] == h[6] && m[7] == h[7]);
    assert(m[8] == h[8] && m[9] == h[9] && m[10] == h[10] && m[11] == h[11]);
    assert(h[4] == u16_le(MANIFEST_ABI_VERSION)[0] && h[5] == u16_le(MANIFEST_ABI_VERSION)[1]);
    assert(h[6] == u16_le(driver_kind_code(kind))[0] && h[7] == u16_le(driver_kind_code(kind))[1]);
    assert(h[8] == u16_le(ec)[0] && h[9] == u16_le(ec)[1]);
    assert(h[10] == u16_le(ic)[0] && h[11] == u16_le(ic)[1]);
    assert(ec == ex.len() && ic == im.len());
    assert(m.subrange(0, 4) =~= magic_spec());
    assert forall|i: int| 0 <= i < ex.len() implies m.subrange(export_off(i), export_off(i) + 36)
        == export_spec((#[trigger] ex[i]).0, ex[i].1) by {
        assert(m.subrange(export_off(i), export_off(i) + 36) =~= e.subrange(36 * i, 36 * i + 36));
    }
    assert forall|j: int| 0 <= j < im.len() implies m.subrange(
        import_off(ex.len() as int, j),
        import_off(ex.len() as int, j) + 52,
    ) == import_spec((#[trigger] im[j]).0, im[j].1, im[j].2) by {
        assert(m.subrange(import_off(ex.len() as int, j), import_off(ex.len() as int, j) + 52)
            =~= x.subrange(52 * j, 52 * j + 52));
    }
    assert forall|i: int| 0 <= i < le16_at(m, 8) implies func_sig_known(
        #[trigger] m[export_off(i) + 32],
    ) by {
        lemma_nul_padded_len(ex[i].0, 32);
        assert(m[export_off(i) + 32] == m.subrange(export_off(i), export_off(i) + 36)[32]);
        assert(export_spec(ex[i].0, ex[i].1)[32] == func_sig_code(ex[i].1));
    }
    assert forall|j: int| 0 <= j < le16_at(m, 10) implies func_sig_known(
        #[trigger] m[import_off(le16_at(m, 8) as int, j) + 48],
    ) by {
        lemma_nul_padded_len(im[j].0, 16);
        lemma_nul_padded_len(im[j].1, 32);
        let off = import_off(ex.len() as int, j);
        assert(m[off + 48] == m.subrange(off, off + 52)[48]);
        assert(import_spec(im[j].0, im[j].1, im[j].2)[48] == func_sig_code(im[j].2));
    }
}


/// A WASM module holding only a custom section named
/// `wari_driver_manifest` whose payload is `m`: the preamble, section id
/// 0, the section size and the name length as LEB128, the name, `m`.
pub open spec fn wasm_with_manifest(m: Seq<u8>) -> Seq<u8> {
    let name = section_name_spec();
    let body_len = leb_encode(name.len()).len() + name.len() + m.len();
    wasm_preamble() + seq![0u8] + leb_encode(body_len) + leb_encode(name.len()) + name + m
}

proof fn lemma_wasm_with_manifest_section(m: Seq<u8>)
    requires
        m.len() < 0x1000_0000,
    ensures
        ({
            let w = wasm_with_manifest(m);
            &&& w.len() >= m.len() + 29
            &&& section_payload_spec(w, section_name_spec()) == Ok::<Option<(int, int)>, DriverManifestError>(
                Some(((w.len() - m.len()) as int, w.len() as int)),
            )
            &&& w.subrange(w.len() - m.len(), w.len() as int) == m
        }),
{
    lemma2_to64();
    let name = section_name_spec();
    let ne = leb_encode(name.len());
    assert(ne =~= seq![20u8]);
    let body_len = ne.len() + name.len() + m.len();
    assert(body_len < pow2(32));
    let be = leb_encode(body_len);
    let w = wasm_with_manifest(m);
    let after: int = 9 + be.len() as int;
    assert(w == wasm_preamble() + seq![0u8] + be + ne + name + m);
    assert(w.len() == after + body_len);
    assert(w.subrange(0, 8) =~= wasm_preamble());
    assert(w[8] == 0);
    assert(w.subrange(9, 9 + be.len() as int) =~= be);
    lemma_leb_decode_encoded(w, 9, body_len);
    assert(w.subrange(after, after + 1) =~= ne);
    lemma_leb_decode_encoded(w, after, name.len());
    assert(w.subrange(after + 1, after + 21) =~= name);
    assert(w.subrange(after + 21, w.len() as int) =~= m);
    assert(walk_sections(w, name, 8) == Ok::<Option<(int, int)>, DriverManifestError>(
        Some((after + 21, w.len() as int)),
    ));
}

proof fn lemma_export_decl(d: ExportDecl, name: Seq<u8>, sig: FuncSig)
    requires
        d.bytes() == export_spec(name, sig),
        name.len() < NAME_MAX,
        name.len() == 0 || name.last() != 0,
    ensures
        nul_trims_to(d.name@, name),
        d.sig == func_sig_code(sig),
{
    let sp = export_spec(name, sig);
    lemma_nul_padded_len(name, 32);
    assert(d.name@ =~= d.bytes().subrange(0, 32));
    assert(nul_padded(name, 32) =~= sp.subrange(0, 32));
    assert(d.sig == d.bytes()[32]);
    lemma_nul_padded_trims(name, 32);
}

proof fn lemma_import_decl(d: ImportDecl, module: Seq<u8>, name: Seq<u8>, sig: FuncSig)
    requires
        d.bytes() == import_spec(module, name, sig),
        module.len() < MODULE_MAX,
        name.len() < NAME_MAX,
        module.len() == 0 || module.last() != 0,
        name.len() == 0 || name.last() != 0,
    ensures
        nul_trims_to(d.module@, module),
        nul_trims_to(d.name@, name),
        d.sig == func_sig_code(sig),
{
    let sp = import_spec(module, name, sig);
    lemma_nul_padded_len(module, 16);
    lemma_nul_padded_len(name, 32);
    assert(d.module@ =~= d.bytes().subrange(0, 16));
    assert(d.name@ =~= d.bytes().subrange(16, 48));
    assert(nul_padded(module, 16) =~= sp.subrange(0, 16));
    assert(nul_padded(name, 32) =~= sp.subrange(16, 48));
    assert(d.sig == d.bytes()[48]);
    lemma_nul_padded_trims(module, 16);
    lemma_nul_padded_trims(name, 32);
}

/// A module built around a manifest parses back to its declarations:
/// the parser finds exactly that manifest and accepts it, and any view
/// it yields has the built kind and counts, each export's and import's
/// signature, and names that trim back to the declared ones.
pub proof fn lemma_module_round_trip(
    kind: DriverKind,
    ex: Seq<(Seq<u8>, FuncSig)>,
    im: Seq<(Seq<u8>, Seq<u8>, FuncSig)>,
)
    requires
        ex.len() < 65536,
        im.len() < 65536,
        forall|i: int|
            0 <= i < ex.len() ==> (#[trigger] ex[i]).0.len() < NAME_MAX && (ex[i].0.len() == 0
                || ex[i].0.last() != 0),
        forall|i: int|
            0 <= i < im.len() ==> (#[trigger] im[i]).0.len() < MODULE_MAX && im[i].1.len()
                < NAME_MAX && (im[i].0.len() == 0 || im[i].0.last() != 0) && (im[i].1.len() == 0
                || im[i].1.last() != 0),
    ensures
        parse_from_wasm_outcome(wasm_with_manifest(manifest_spec(kind, ex, im))) == Ok::<
            Seq<u8>,
            DriverManifestError,
        >(manifest_spec(kind, ex, im)),
        forall|v: DriverManifestView|
            #[trigger] view_matches(v, manifest_spec(kind, ex, im)) ==> ({
                &&& le16(v.header.kind@[0], v.header.kind@[1]) == driver_kind_code(kind)
                &&& v.exports@.len() == ex.len()
                &&& v.imports@.len() == im.len()
                &&& forall|i: int|
                    0 <= i < ex.len() ==> nul_trims_to((#[trigger] v.exports@[i]).name@, ex[i].0)
                        && v.exports@[i].sig == func_sig_code(ex[i].1)
                &&& forall|j: int|
                    0 <= j < im.len() ==> nul_trims_to((#[trigger] v.imports@[j]).module@, im[j].0)
                        && nul_trims_to(v.imports@[j].name@, im[j].1) && v.imports@[j].sig
                        == func_sig_code(im[j].2)
            }),
{
    let m = manifest_spec(kind, ex, im);
    lemma_manifest_round_trip(kind, ex, im);
    assert(m.len() == 16 + 36 * ex.len() + 52 * im.len());
    lemma_wasm_with_manifest_section(m);
    assert forall|v: DriverManifestView| #[trigger] view_matches(v, m) implies {
        &&& le16(v.header.kind@[0], v.header.kind@[1]) == driver_kind_code(kind)
        &&& v.exports@.len() == ex.len()
        &&& v.imports@.len() == im.len()
        &&& forall|i: int|
            0 <= i < ex.len() ==> nul_trims_to((#[trigger] v.exports@[i]).name@, ex[i].0)
                && v.exports@[i].sig == func_sig_code(ex[i].1)
        &&& forall|j: int|
            0 <= j < im.len() ==> nul_trims_to((#[trigger] v.imports@[j]).module@, im[j].0)
                && nul_trims_to(v.imports@[j].name@, im[j].1) && v.imports@[j].sig == func_sig_code(
                im[j].2,
            )
    } by {
        let hb = v.header.bytes();
        assert(hb[6] == m[6] && hb[7] == m[7]);
        assert(hb[6] == v.header.kind@[0] && hb[7] == v.header.kind@[1]);
        assert forall|i: int| 0 <= i < ex.len() implies nul_trims_to(
            (#[trigger] v.exports@[i]).name@,
            ex[i].0,
        ) && v.exports@[i].sig == func_sig_code(ex[i].1) by {
            lemma_export_decl(v.exports@[i], ex[i].0, ex[i].1);
        }
        assert forall|j: int| 0 <= j < im.len() implies nul_trims_to(
            (#[trigger] v.imports@[j]).module@,
            im[j].0,
        ) && nul_trims_to(v.imports@[j].name@, im[j].1) && v.imports@[j].sig == func_sig_code(
            im[j].2,
        ) by {
            lemma_import_decl(v.imports@[j], im[j].0, im[j].1, im[j].2);
        }
    }
}

} // verus!
