//! The net driver's split virtqueues (VirtIO 1.2 §2.6): descriptor
//! table, available ring and used ring as the byte images the device
//! reads and writes, and the driver-side bookkeeping of receive buffers
//! and transmissions. Kicking the device and learning the linear-memory
//! base are the caller's.

use vstd::prelude::*;
use vstd::bytes::{
    spec_u16_to_le_bytes, spec_u32_to_le_bytes, spec_u64_to_le_bytes, spec_u16_from_le_bytes,
    spec_u32_from_le_bytes, u16_to_le_bytes, u32_to_le_bytes, u64_to_le_bytes, u16_from_le_bytes,
    u32_from_le_bytes,
};

verus! {

/// Entries per virtqueue.
pub const QUEUE_SIZE: u16 = 8;
/// Bytes reserved per packet buffer.
pub const ETH_FRAME_MAX: u32 = 1536;
/// Descriptor flag: the device writes the buffer (receive).
pub const VIRTQ_DESC_F_WRITE: u16 = 2;

/// One packet buffer, as the descriptors point at it.
pub struct PacketBuffer {
    /// The frame bytes, VirtIO-net header first.
    pub bytes: [u8; 1536],
}

/// One virtqueue's three rings as byte images.
#[derive(Clone, Copy)]
pub struct VirtQueue {
    /// Descriptor table: `QUEUE_SIZE` entries of 16 bytes.
    pub desc: [u8; 128],
    /// Available ring: flags, index, `QUEUE_SIZE` entries of 2 bytes.
    pub avail: [u8; 20],
    /// Used ring: flags, index, `QUEUE_SIZE` entries of 8 bytes.
    pub used: [u8; 68],
}

/// The driver's ring cursors.
#[derive(Clone, Copy)]
pub struct RingCursors {
    /// Used-ring entries of the receive queue consumed so far.
    pub rx_used_seen: u16,
    /// Next free receive available-ring position.
    pub rx_avail_next: u16,
    /// Used-ring entries of the transmit queue consumed so far.
    pub tx_used_seen: u16,
}

/// The wire bytes of one descriptor.
pub open spec fn desc_bytes(addr: u64, len: u32, flags: u16, next: u16) -> Seq<u8> {
    spec_u64_to_le_bytes(addr) + spec_u32_to_le_bytes(len) + spec_u16_to_le_bytes(flags)
        + spec_u16_to_le_bytes(next)
}

/// `s` with `bytes` written at `off`.
pub open spec fn splice(s: Seq<u8>, off: int, bytes: Seq<u8>) -> Seq<u8> {
    s.subrange(0, off) + bytes + s.subrange(off + bytes.len(), s.len() as int)
}

/// Copy `bytes` into `buf` at `off`.
fn put_bytes<const N: usize>(buf: &mut [u8; N], off: usize, bytes: &Vec<u8>)
    requires
        off + bytes@.len() <= N,
    ensures
        final(buf)@ == splice(old(buf)@, off as int, bytes@),
{
    let n = bytes.len();
    let mut k: usize = 0;
    while k < n
        invariant
            n == bytes@.len(),
            off + n <= N,
            k <= n,
            buf@.len() == N,
            forall|j: int| 0 <= j < off ==> buf@[j] == old(buf)@[j],
            forall|j: int| off <= j < off + k ==> #[trigger] buf@[j] == bytes@[j - off],
            forall|j: int| off + k <= j < N ==> buf@[j] == old(buf)@[j],
        decreases n - k,
    {
        buf[off + k] = bytes[k];
        k = k + 1;
    }
    assert(buf@ =~= splice(old(buf)@, off as int, bytes@));
}

/// Write descriptor `idx`: buffer address, length, flags and next.
pub fn write_desc(q: &mut VirtQueue, idx: u16, buf_pa: u64, len: u32, flags: u16, next: u16)
    requires
        idx < QUEUE_SIZE,
    ensures
        final(q).desc@ == splice(old(q).desc@, idx * 16, desc_bytes(buf_pa, len, flags, next)),
        final(q).avail == old(q).avail,
        final(q).used == old(q).used,
{
    proof {
        vstd::bytes::lemma_auto_spec_u64_to_from_le_bytes();
        vstd::bytes::lemma_auto_spec_u32_to_from_le_bytes();
        vstd::bytes::lemma_auto_spec_u16_to_from_le_bytes();
    }
    let off = idx as usize * 16;
    let a = u64_to_le_bytes(buf_pa);
    let l = u32_to_le_bytes(len);
    let f = u16_to_le_bytes(flags);
    let n = u16_to_le_bytes(next);
    let ghost d0 = q.desc@;
    put_bytes(&mut q.desc, off, &a);
    put_bytes(&mut q.desc, off + 8, &l);
    put_bytes(&mut q.desc, off + 12, &f);
    put_bytes(&mut q.desc, off + 14, &n);
    assert(q.desc@ =~= splice(d0, off as int, desc_bytes(buf_pa, len, flags, next)));
}

/// Write available-ring field `pos` (0 = flags, 1 = index, `2 + i` =
/// entry `i`).
fn write_avail(q: &mut VirtQueue, pos: usize, val: u16)
    requires
        pos < 10,
    ensures
        final(q).avail@ == splice(old(q).avail@, pos * 2, spec_u16_to_le_bytes(val)),
        final(q).desc == old(q).desc,
        final(q).used == old(q).used,
{
    proof {
        vstd::bytes::lemma_auto_spec_u16_to_from_le_bytes();
    }
    let b = u16_to_le_bytes(val);
    put_bytes(&mut q.avail, pos * 2, &b);
}

/// The bus address of receive buffer `i`.
pub open spec fn rx_buf_pa(lin_base: u64, buf0_off: u32, i: int) -> int {
    lin_base + buf0_off + i * ETH_FRAME_MAX
}

/// The available-ring 16-bit field at position `pos`.
pub open spec fn avail_field(q: VirtQueue, pos: int) -> u16 {
    spec_u16_from_le_bytes(q.avail@.subrange(pos * 2, pos * 2 + 2))
}

/// The descriptor at `idx` decoded as bytes.
pub open spec fn desc_at(q: VirtQueue, idx: int) -> Seq<u8> {
    q.desc@.subrange(idx * 16, idx * 16 + 16)
}

/// Hand every receive buffer to the device: descriptor `i` points at
/// buffer `i` (device-writable, a full frame long), the available ring
/// lists descriptors `0..QUEUE_SIZE` and its index is `QUEUE_SIZE`.
/// The caller kicks queue 0 afterwards.
pub fn populate_rx(q: &mut VirtQueue, cur: &mut RingCursors, lin_base: u64, buf0_off: u32)
    requires
        lin_base + buf0_off + 8 * ETH_FRAME_MAX <= u64::MAX,
    ensures
        forall|i: int|
            0 <= i < QUEUE_SIZE ==> #[trigger] desc_at(*final(q), i) == desc_bytes(
                rx_buf_pa(lin_base, buf0_off, i) as u64,
                ETH_FRAME_MAX,
                VIRTQ_DESC_F_WRITE,
                0,
            ),
        avail_field(*final(q), 0) == 0,
        avail_field(*final(q), 1) == QUEUE_SIZE,
        forall|i: int| 0 <= i < QUEUE_SIZE ==> #[trigger] avail_field(*final(q), 2 + i) == i,
        final(q).used == old(q).used,
        *final(cur) == (RingCursors { rx_avail_next: QUEUE_SIZE, ..*old(cur) }),
{
    proof {
        vstd::bytes::lemma_auto_spec_u64_to_from_le_bytes();
        vstd::bytes::lemma_auto_spec_u32_to_from_le_bytes();
        vstd::bytes::lemma_auto_spec_u16_to_from_le_bytes();
    }
    let mut i: u16 = 0;
    while i < QUEUE_SIZE
        invariant
            i <= QUEUE_SIZE,
            lin_base + buf0_off + 8 * ETH_FRAME_MAX <= u64::MAX,
            q.used == old(q).used,
            q.desc@.len() == 128,
            forall|k: int|
                0 <= k < i ==> #[trigger] desc_at(*q, k) == desc_bytes(
                    rx_buf_pa(lin_base, buf0_off, k) as u64,
                    ETH_FRAME_MAX,
                    VIRTQ_DESC_F_WRITE,
                    0,
                ),
        decreases QUEUE_SIZE - i,
    {
        let pa = lin_base + buf0_off as u64 + i as u64 * ETH_FRAME_MAX as u64;
        let ghost before = *q;
        write_desc(q, i, pa, ETH_FRAME_MAX, VIRTQ_DESC_F_WRITE, 0);
        proof {
            vstd::bytes::lemma_auto_spec_u64_to_from_le_bytes();
            vstd::bytes::lemma_auto_spec_u32_to_from_le_bytes();
            vstd::bytes::lemma_auto_spec_u16_to_from_le_bytes();
            assert(desc_bytes(pa, ETH_FRAME_MAX, VIRTQ_DESC_F_WRITE, 0).len() == 16);
            assert forall|k: int|
                0 <= k < i + 1 implies #[trigger] desc_at(*q, k) == desc_bytes(
                rx_buf_pa(lin_base, buf0_off, k) as u64,
                ETH_FRAME_MAX,
                VIRTQ_DESC_F_WRITE,
                0,
            ) by {
                if k < i {
                    assert(desc_at(*q, k) =~= desc_at(before, k));
                } else {
                    assert(desc_at(*q, k) =~= desc_bytes(pa, ETH_FRAME_MAX, VIRTQ_DESC_F_WRITE, 0));
                }
            }
        }
        i = i + 1;
    }
    let ghost d_final = q.desc@;
    let ghost q1 = *q;
    write_avail(q, 0, 0);
    proof {
        assert forall|k: int| 0 <= k < QUEUE_SIZE implies #[trigger] desc_at(*q, k) == desc_bytes(
            rx_buf_pa(lin_base, buf0_off, k) as u64,
            ETH_FRAME_MAX,
            VIRTQ_DESC_F_WRITE,
            0,
        ) by {
            assert(desc_at(q1, k) == desc_bytes(
                rx_buf_pa(lin_base, buf0_off, k) as u64,
                ETH_FRAME_MAX,
                VIRTQ_DESC_F_WRITE,
                0,
            ));
        }
        vstd::bytes::lemma_auto_spec_u16_to_from_le_bytes();
        assert(q.avail@.subrange(0, 2) =~= spec_u16_to_le_bytes(0));
    }
    let mut j: u16 = 0;
    while j < QUEUE_SIZE
        invariant
            j <= QUEUE_SIZE,
            q.used == old(q).used,
            q.desc@ == d_final,
            q.avail@.len() == 20,
            forall|k: int|
                0 <= k < QUEUE_SIZE ==> #[trigger] desc_at(*q, k) == desc_bytes(
                    rx_buf_pa(lin_base, buf0_off, k) as u64,
                    ETH_FRAME_MAX,
                    VIRTQ_DESC_F_WRITE,
                    0,
                ),
            avail_field(*q, 0) == 0,
            forall|k: int| 0 <= k < j ==> #[trigger] avail_field(*q, 2 + k) == k,
        decreases QUEUE_SIZE - j,
    {
        let ghost before = *q;
        write_avail(q, 2 + j as usize, j);
        proof {
            assert forall|k: int| 0 <= k < QUEUE_SIZE implies #[trigger] desc_at(*q, k) == desc_bytes(
                rx_buf_pa(lin_base, buf0_off, k) as u64,
                ETH_FRAME_MAX,
                VIRTQ_DESC_F_WRITE,
                0,
            ) by {
                assert(desc_at(before, k) == desc_bytes(
                    rx_buf_pa(lin_base, buf0_off, k) as u64,
                    ETH_FRAME_MAX,
                    VIRTQ_DESC_F_WRITE,
                    0,
                ));
            }
            vstd::bytes::lemma_auto_spec_u16_to_from_le_bytes();
            assert(spec_u16_to_le_bytes(j).len() == 2);
            assert(avail_field(*q, 0) == avail_field(before, 0)) by {
                assert(q.avail@.subrange(0, 2) =~= before.avail@.subrange(0, 2));
            }
            assert forall|k: int| 0 <= k < j + 1 implies #[trigger] avail_field(*q, 2 + k) == k by {
                if k < j {
                    assert(q.avail@.subrange((2 + k) * 2, (2 + k) * 2 + 2) =~= before.avail@.subrange(
                        (2 + k) * 2,
                        (2 + k) * 2 + 2,
                    ));
                    assert(avail_field(before, 2 + k) == k);
                } else {
                    assert(q.avail@.subrange((2 + k) * 2, (2 + k) * 2 + 2) =~= spec_u16_to_le_bytes(j));
                }
            }
        }
        j = j + 1;
    }
    let ghost before = *q;
    write_avail(q, 1, QUEUE_SIZE);
    proof {
        vstd::bytes::lemma_auto_spec_u16_to_from_le_bytes();
        assert(spec_u16_to_le_bytes(QUEUE_SIZE).len() == 2);
        assert(avail_field(*q, 1) == QUEUE_SIZE) by {
            assert(q.avail@.subrange(2, 4) =~= spec_u16_to_le_bytes(QUEUE_SIZE));
        }
        assert(avail_field(*q, 0) == 0) by {
            assert(q.avail@.subrange(0, 2) =~= before.avail@.subrange(0, 2));
        }
        assert forall|k: int| 0 <= k < QUEUE_SIZE implies #[trigger] avail_field(*q, 2 + k) == k by {
            assert(q.avail@.subrange((2 + k) * 2, (2 + k) * 2 + 2) =~= before.avail@.subrange(
                (2 + k) * 2,
                (2 + k) * 2 + 2,
            ));
            assert(avail_field(before, 2 + k) == k);
        }
        assert forall|k: int| 0 <= k < QUEUE_SIZE implies #[trigger] desc_at(*q, k) == desc_bytes(
            rx_buf_pa(lin_base, buf0_off, k) as u64,
            ETH_FRAME_MAX,
            VIRTQ_DESC_F_WRITE,
            0,
        ) by {
            assert(desc_at(*q, k) == desc_at(before, k));
        }
    }
    cur.rx_avail_next = QUEUE_SIZE;
}

/// The used-ring index the device has published.
pub open spec fn used_idx(q: VirtQueue) -> u16 {
    spec_u16_from_le_bytes(q.used@.subrange(2, 4))
}

/// The `id` and `len` fields of used-ring entry `slot`.
pub open spec fn used_elem(q: VirtQueue, slot: int) -> (u32, u32) {
    (
        spec_u32_from_le_bytes(q.used@.subrange(4 + slot * 8, 8 + slot * 8)),
        spec_u32_from_le_bytes(q.used@.subrange(8 + slot * 8, 12 + slot * 8)),
    )
}

/// Take the next received frame from the receive used ring: `0` when
/// the device has published nothing new; otherwise the entry is
/// consumed and, when it names one of our buffers, the result packs the
/// buffer's linear-memory offset in the low 32 bits and the frame
/// length in the high 32 bits (`0` for a descriptor id that is not
/// ours).
pub fn rx_pop(q: &VirtQueue, cur: &mut RingCursors, buf0_off: u32) -> (r: u64)
    requires
        buf0_off + 8 * ETH_FRAME_MAX <= u32::MAX,
    ensures
        used_idx(*q) == old(cur).rx_used_seen ==> r == 0 && *final(cur) == *old(cur),
        used_idx(*q) != old(cur).rx_used_seen ==> {
            let (id, len) = used_elem(*q, old(cur).rx_used_seen as int % QUEUE_SIZE as int);
            &&& *final(cur) == (RingCursors {
                rx_used_seen: (if old(cur).rx_used_seen == u16::MAX {
                    0
                } else {
                    old(cur).rx_used_seen + 1
                }) as u16,
                ..*old(cur)
            })
            &&& id >= QUEUE_SIZE ==> r == 0
            &&& id < QUEUE_SIZE ==> r == (buf0_off + id * ETH_FRAME_MAX) + len * 0x1_0000_0000
        },
{
    let s = q.used.as_slice();
    let device_idx = u16_from_le_bytes(vstd::slice::slice_subrange(s, 2, 4));
    let seen = cur.rx_used_seen;
    if device_idx == seen {
        return 0;
    }
    let slot = (seen % QUEUE_SIZE) as usize;
    let e = 4 + slot * 8;
    let desc_id = u32_from_le_bytes(vstd::slice::slice_subrange(s, e, e + 4));
    let used_len = u32_from_le_bytes(vstd::slice::slice_subrange(s, e + 4, e + 8));
    cur.rx_used_seen = seen.wrapping_add(1);
    if desc_id >= QUEUE_SIZE as u32 {
        return 0;
    }
    let buf_off: u32 = buf0_off + desc_id * ETH_FRAME_MAX;
    let lo = buf_off as u64;
    let hi = used_len as u64;
    assert(lo | (hi << 32) == lo + hi * 0x1_0000_0000) by (bit_vector)
        requires
            lo < 0x1_0000_0000,
            hi < 0x1_0000_0000,
    ;
    lo | (hi << 32)
}

/// Give receive buffer `desc_idx` back to the device: rewrite its
/// descriptor and append it to the available ring, advancing the ring
/// index. `Err(())` for a descriptor that is not ours. The caller kicks
/// queue 0 afterwards.
pub fn rx_recycle(q: &mut VirtQueue, cur: &mut RingCursors, desc_idx: u32, lin_base: u64, buf0_off: u32) -> (r:
    Result<(), ()>)
    requires
        lin_base + buf0_off + 8 * ETH_FRAME_MAX <= u64::MAX,
    ensures
        desc_idx >= QUEUE_SIZE ==> r is Err && *final(q) == *old(q) && *final(cur) == *old(cur),
        desc_idx < QUEUE_SIZE ==> {
            let next = old(cur).rx_avail_next;
            let new_next = (if next == u16::MAX {
                0
            } else {
                next + 1
            }) as u16;
            &&& r is Ok
            &&& final(q).desc@ == splice(
                old(q).desc@,
                desc_idx * 16,
                desc_bytes(
                    rx_buf_pa(lin_base, buf0_off, desc_idx as int) as u64,
                    ETH_FRAME_MAX,
                    VIRTQ_DESC_F_WRITE,
                    0,
                ),
            )
            &&& final(q).avail@ == splice(
                splice(old(q).avail@, (2 + next % QUEUE_SIZE) * 2, spec_u16_to_le_bytes(desc_idx as u16)),
                2,
                spec_u16_to_le_bytes(new_next),
            )
            &&& final(q).used == old(q).used
            &&& *final(cur) == (RingCursors { rx_avail_next: new_next, ..*old(cur) })
        },
{
    if desc_idx >= QUEUE_SIZE as u32 {
        return Err(());
    }
    let pa = lin_base + buf0_off as u64 + desc_idx as u64 * ETH_FRAME_MAX as u64;
    write_desc(q, desc_idx as u16, pa, ETH_FRAME_MAX, VIRTQ_DESC_F_WRITE, 0);
    let next = cur.rx_avail_next;
    write_avail(q, 2 + (next % QUEUE_SIZE) as usize, desc_idx as u16);
    let new_next = next.wrapping_add(1);
    cur.rx_avail_next = new_next;
    write_avail(q, 1, new_next);
    Ok(())
}

/// Publish the frame at `buf_off` of `len` bytes for transmission
/// through descriptor 0 (one transmission in flight at a time): the
/// descriptor is device-readable, the available ring entry after the
/// last retired one names it, and the ring index moves one past that
/// entry. `Err(())` for a frame longer than a buffer. The caller kicks
/// queue 1 afterwards.
pub fn tx_send(q: &mut VirtQueue, cur: &RingCursors, buf_off: u32, len: u32, lin_base: u64) -> (r: Result<(), ()>)
    requires
        lin_base + buf_off <= u64::MAX,
    ensures
        len > ETH_FRAME_MAX ==> r is Err && *final(q) == *old(q),
        len <= ETH_FRAME_MAX ==> {
            let seen1 = (if cur.tx_used_seen == u16::MAX {
                0
            } else {
                cur.tx_used_seen + 1
            }) as u16;
            let new_idx = (seen1 % QUEUE_SIZE) as u16;
            &&& r is Ok
            &&& final(q).desc@ == splice(old(q).desc@, 0, desc_bytes((lin_base + buf_off) as u64, len, 0, 0))
            &&& final(q).avail@ == splice(
                splice(old(q).avail@, (2 + new_idx) * 2, spec_u16_to_le_bytes(0)),
                2,
                spec_u16_to_le_bytes((new_idx + 1) as u16),
            )
            &&& final(q).used == old(q).used
        },
{
    if len > ETH_FRAME_MAX {
        return Err(());
    }
    let pa = lin_base + buf_off as u64;
    write_desc(q, 0, pa, len, 0, 0);
    let new_idx = cur.tx_used_seen.wrapping_add(1) % QUEUE_SIZE;
    write_avail(q, 2 + new_idx as usize, 0);
    write_avail(q, 1, new_idx + 1);
    Ok(())
}

} // verus!
