//! The VisionFive 2 GMAC (DWMAC4): its DMA descriptor rings, 16
//! four-word descriptors per direction handed between driver and DMA
//! engine by the OWN bit and walked round-robin, and the MDIO commands
//! that reach the PHY. Programming the engine's registers and moving
//! frame bytes are the caller's.

use vstd::prelude::*;

verus! {

/// Descriptors per ring.
pub const VF2_RING_LEN: usize = 16;
/// Bytes per packet buffer.
pub const VF2_BUF_LEN: usize = 1536;
/// Bytes per descriptor.
pub const VF2_DESC_BYTES: usize = 16;
/// RDES3: the DMA engine owns the descriptor.
pub const RDES3_OWN: u32 = 0x8000_0000;
/// RDES3: interrupt on completion.
pub const RDES3_IOC: u32 = 0x4000_0000;
/// RDES3: buffer 1 address valid.
pub const RDES3_BUF1V: u32 = 0x0100_0000;
/// RDES3 bits holding a received frame's length.
pub const RDES3_LEN_MASK: u32 = 0x7FFF;
/// RDES3 of a descriptor armed for reception.
pub const RDES3_ARMED: u32 = 0xC100_0000;
/// TDES3: the DMA engine owns the descriptor.
pub const TDES3_OWN: u32 = 0x8000_0000;
/// TDES3: last descriptor of the frame.
pub const TDES3_LD: u32 = 0x2000_0000;
/// TDES3: first descriptor of the frame.
pub const TDES3_FD: u32 = 0x1000_0000;

/// One descriptor ring.
#[derive(Clone, Copy)]
pub struct VF2DmaRing {
    /// The descriptors, four words each.
    pub descs: [[u32; 4]; 16],
}

/// The transmit buffers, one per transmit descriptor.
pub struct VF2TxBuffers {
    /// Buffer `i` belongs to transmit descriptor `i`.
    pub bufs: [[u8; 1536]; 16],
}

/// The receive buffers, one per receive descriptor.
pub struct VF2RxBuffers {
    /// Buffer `i` belongs to receive descriptor `i`.
    pub bufs: [[u8; 1536]; 16],
}

/// The driver's round-robin positions.
#[derive(Clone, Copy)]
pub struct Vf2Cursors {
    /// Next transmit descriptor to fill.
    pub tx_next: usize,
    /// Receive descriptor the next scan starts at.
    pub rx_next: usize,
}

impl Vf2Cursors {
    /// Both positions are ring indices.
    pub open spec fn wf(&self) -> bool {
        self.tx_next < VF2_RING_LEN && self.rx_next < VF2_RING_LEN
    }

    /// Both walks start at descriptor 0.
    pub fn new() -> (r: Self)
        ensures
            r.wf(),
            r.tx_next == 0 && r.rx_next == 0,
    {
        Vf2Cursors { tx_next: 0, rx_next: 0 }
    }
}

/// The descriptor pointing the DMA engine at buffer address `bp`:
/// address low, address high, `w2`, `w3`.
pub open spec fn desc(bp: u64, w2: u32, w3: u32) -> Seq<u32> {
    seq![bp as u32, (bp >> 32) as u32, w2, w3]
}

/// Has the DMA engine released receive descriptor `i` (a frame is in
/// its buffer)?
pub open spec fn rx_ready(r: VF2DmaRing, i: int) -> bool {
    r.descs@[i]@[3] & RDES3_OWN == 0
}

/// The first receive descriptor with a frame, scanning `start + n`,
/// `start + n + 1`, ... (mod 16) for the remaining `16 - n` positions.
pub open spec fn first_rx_ready(r: VF2DmaRing, start: int, n: int) -> Option<int>
    decreases VF2_RING_LEN - n,
{
    if n < 0 || n >= VF2_RING_LEN {
        None
    } else if rx_ready(r, (start + n) % (VF2_RING_LEN as int)) {
        Some((start + n) % (VF2_RING_LEN as int))
    } else {
        first_rx_ready(r, start, n + 1)
    }
}

/// Physical address of buffer `i` of a buffer pool at linear-memory
/// offset `bufs_off`, given the linear memory's physical base.
pub fn buf_pa(lin_base: u64, bufs_off: u32, i: usize) -> (r: u64)
    requires
        i < VF2_RING_LEN,
        lin_base + bufs_off + VF2_RING_LEN * VF2_BUF_LEN <= u64::MAX,
    ensures
        r == lin_base + bufs_off + i * VF2_BUF_LEN,
{
    lin_base + bufs_off as u64 + (i as u64) * 1536
}

/// Physical address of descriptor `i` of a ring at linear-memory offset
/// `ring_off`, cut to the 32 bits of the tail-pointer register.
pub fn desc_pa32(lin_base: u64, ring_off: u32, i: usize) -> (r: u32)
    requires
        i < VF2_RING_LEN,
        lin_base + ring_off + VF2_RING_LEN * VF2_DESC_BYTES <= u64::MAX,
    ensures
        r == (lin_base + ring_off + i * VF2_DESC_BYTES) as u32,
{
    (lin_base + ring_off as u64 + (i as u64) * 16) as u32
}

/// Arm every receive descriptor: descriptor `i` points at buffer `i`
/// of the pool whose buffer 0 is at physical address `bufs_pa`, owned
/// by the DMA engine with interrupt on completion.
pub fn rx_ring_init(ring: &mut VF2DmaRing, bufs_pa: u64)
    requires
        bufs_pa + VF2_RING_LEN * VF2_BUF_LEN <= u64::MAX,
    ensures
        forall|i: int|
            0 <= i < VF2_RING_LEN ==> #[trigger] final(ring).descs@[i]@ == desc(
                (bufs_pa + i * VF2_BUF_LEN) as u64,
                0,
                RDES3_ARMED,
            ),
{
    let mut i: usize = 0;
    while i < 16
        invariant
            i <= VF2_RING_LEN,
            bufs_pa + VF2_RING_LEN * VF2_BUF_LEN <= u64::MAX,
            forall|j: int|
                0 <= j < i ==> #[trigger] ring.descs@[j]@ == desc(
                    (bufs_pa + j * VF2_BUF_LEN) as u64,
                    0,
                    RDES3_ARMED,
                ),
        decreases VF2_RING_LEN - i,
    {
        let bp: u64 = bufs_pa + (i as u64) * 1536;
        let d: [u32; 4] = [bp as u32, (bp >> 32) as u32, 0, RDES3_OWN | RDES3_IOC | RDES3_BUF1V];
        assert(RDES3_OWN | RDES3_IOC | RDES3_BUF1V == RDES3_ARMED) by (bit_vector);
        assert(d@ =~= desc(bp, 0, RDES3_ARMED));
        ring.descs[i] = d;
        i = i + 1;
    }
}

/// Find the next received frame: scanning round-robin from
/// `rx_next`, the first descriptor the DMA engine released; returns its
/// index and the frame length from RDES3, and moves `rx_next` past it.
/// With every descriptor still owned by the engine, `None` and nothing
/// moves.
pub fn rx_find(ring: &VF2DmaRing, cur: &mut Vf2Cursors) -> (r: Option<(usize, u16)>)
    requires
        old(cur).wf(),
    ensures
        final(cur).wf(),
        final(cur).tx_next == old(cur).tx_next,
        match first_rx_ready(*ring, old(cur).rx_next as int, 0) {
            None => r is None && final(cur).rx_next == old(cur).rx_next,
            Some(i) => r == Some((i as usize, (ring.descs@[i]@[3] & RDES3_LEN_MASK) as u16))
                && final(cur).rx_next == (i + 1) % (VF2_RING_LEN as int),
        },
{
    let start = cur.rx_next;
    let mut n: usize = 0;
    while n < 16
        invariant
            n <= VF2_RING_LEN,
            start < VF2_RING_LEN,
            start == cur.rx_next,
            cur.wf(),
            cur.tx_next == old(cur).tx_next,
            old(cur).rx_next == start,
            first_rx_ready(*ring, start as int, 0) == first_rx_ready(*ring, start as int, n as int),
        decreases VF2_RING_LEN - n,
    {
        let i = (start + n) % 16;
        let rdes3 = ring.descs[i][3];
        if rdes3 & RDES3_OWN == 0 {
            cur.rx_next = (i + 1) % 16;
            return Some((i, (rdes3 & RDES3_LEN_MASK) as u16));
        }
        n = n + 1;
    }
    None
}

/// Give receive descriptor `idx` back to the DMA engine, pointing at
/// buffer address `bp` again. The other descriptors are unchanged.
pub fn rx_rearm(ring: &mut VF2DmaRing, idx: usize, bp: u64)
    requires
        idx < VF2_RING_LEN,
    ensures
        final(ring).descs@[idx as int]@ == desc(bp, 0, RDES3_ARMED),
        forall|j: int| 0 <= j < VF2_RING_LEN && j != idx ==> final(ring).descs@[j] == old(ring).descs@[j],
{
    let d: [u32; 4] = [bp as u32, (bp >> 32) as u32, 0, RDES3_ARMED];
    assert(d@ =~= desc(bp, 0, RDES3_ARMED));
    ring.descs[idx] = d;
}

/// The transmit descriptor to fill next, unless the DMA engine still
/// owns it (back-pressure).
pub fn tx_slot(ring: &VF2DmaRing, cur: &Vf2Cursors) -> (r: Option<usize>)
    requires
        cur.wf(),
    ensures
        r == if ring.descs@[cur.tx_next as int]@[3] & TDES3_OWN != 0 {
            None
        } else {
            Some(cur.tx_next)
        },
{
    if ring.descs[cur.tx_next][3] & TDES3_OWN != 0 {
        None
    } else {
        Some(cur.tx_next)
    }
}

/// Publish a `len`-byte frame in the buffer at address `bp` on transmit
/// descriptor `i`: a single-descriptor frame (first and last) handed to
/// the DMA engine, after which `tx_next` is the following descriptor,
/// which is returned for the tail pointer. The other descriptors are
/// unchanged.
pub fn tx_publish(ring: &mut VF2DmaRing, cur: &mut Vf2Cursors, i: usize, bp: u64, len: u32) -> (r: usize)
    requires
        old(cur).wf(),
        i < VF2_RING_LEN,
        len <= VF2_BUF_LEN,
    ensures
        final(cur).wf(),
        final(ring).descs@[i as int]@ == desc(bp, len, TDES3_OWN | TDES3_LD | TDES3_FD | len),
        forall|j: int| 0 <= j < VF2_RING_LEN && j != i ==> final(ring).descs@[j] == old(ring).descs@[j],
        r == (i + 1) % (VF2_RING_LEN as int),
        final(cur).tx_next == r,
        final(cur).rx_next == old(cur).rx_next,
{
    assert(len & RDES3_LEN_MASK == len) by (bit_vector)
        requires
            len <= 1536u32,
    ;
    let w3 = TDES3_OWN | TDES3_LD | TDES3_FD | (len & RDES3_LEN_MASK);
    let d: [u32; 4] = [bp as u32, (bp >> 32) as u32, len, w3];
    assert(d@ =~= desc(bp, len, TDES3_OWN | TDES3_LD | TDES3_FD | len));
    ring.descs[i] = d;
    let next = (i + 1) % 16;
    cur.tx_next = next;
    next
}


/// MDIO address register, relative to the GMAC base.
pub const MAC_MDIO_ADDRESS_OFFSET: u32 = 0x200;
/// MDIO data register, relative to the GMAC base.
pub const MAC_MDIO_DATA_OFFSET: u32 = 0x204;
/// MDIO busy bit: set to start, cleared by the MAC when done.
pub const MDIO_GB: u32 = 0x1;
/// MDIO clause-22 read operation.
pub const MDIO_GOC_READ: u32 = 0xC;
/// MDIO clause-22 write operation.
pub const MDIO_GOC_WRITE: u32 = 0x4;
/// MDIO clock: CSR clock / 26.
pub const MDIO_CR_CSR_DIV_26: u32 = 0x400;
/// Polls of the busy bit before giving up.
pub const MDIO_MAX_TRIES: u32 = 100_000;
/// What an MDIO read returns after timing out.
pub const MDIO_READ_TIMEOUT: u32 = 0xFFFF_FFFE;

/// The MDIO address-register command for register `reg` of PHY
/// `phy_addr`: busy, read or write, CSR/26 clock, register in bits
/// 16..21, PHY in bits 21..26.
pub open spec fn mdio_cmd_spec(phy_addr: u32, reg: u32, write: bool) -> int {
    MDIO_GB + (if write { MDIO_GOC_WRITE } else { MDIO_GOC_READ }) + MDIO_CR_CSR_DIV_26 + (reg % 32) * 0x1_0000 + (
    phy_addr % 32) * 0x20_0000
}

/// Build the MDIO command word.
pub fn mdio_cmd(phy_addr: u32, reg: u32, write: bool) -> (r: u32)
    ensures
        r == mdio_cmd_spec(phy_addr, reg, write),
{
    let goc: u32 = if write { MDIO_GOC_WRITE } else { MDIO_GOC_READ };
    MDIO_GB + goc + MDIO_CR_CSR_DIV_26 + (reg % 32) * 0x1_0000 + (phy_addr % 32) * 0x20_0000
}

/// The next step of polling the MDIO busy bit.
#[derive(Debug, Clone, Copy, PartialEq, Eq, Structural)]
pub enum MdioPoll {
    /// The MAC finished the transfer.
    Done,
    /// Still busy: poll again; this many polls have failed so far.
    Again { tries: u32 },
    /// Still busy after `MDIO_MAX_TRIES` polls: give up.
    TimedOut,
}

/// Decide after reading address-register value `status`, with `tries`
/// busy polls so far.
pub fn mdio_poll(status: u32, tries: u32) -> (r: MdioPoll)
    requires
        tries <= MDIO_MAX_TRIES,
    ensures
        status % 2 == 0 ==> r == MdioPoll::Done,
        status % 2 == 1 && tries + 1 > MDIO_MAX_TRIES ==> r == MdioPoll::TimedOut,
        status % 2 == 1 && tries + 1 <= MDIO_MAX_TRIES ==> r == (MdioPoll::Again { tries: (tries + 1) as u32 }),
{
    if status % 2 == 0 {
        return MdioPoll::Done;
    }
    let t = tries + 1;
    if t > MDIO_MAX_TRIES {
        MdioPoll::TimedOut
    } else {
        MdioPoll::Again { tries: t }
    }
}

/// The PHY register value in MDIO data-register value `data`: its low
/// half.
pub fn mdio_data(data: u32) -> (r: u32)
    ensures
        r == data % 0x1_0000,
{
    data % 0x1_0000
}


/// PHY Basic Status: link up.
pub const BS_LINK_UP: u32 = 0x4;
/// PHY Basic Status: auto-negotiation complete.
pub const BS_AN_COMPLETE: u32 = 0x20;
/// PHY Basic Control value that enables and restarts auto-negotiation.
pub const BC_AN_RESTART: u16 = 0x1200;
/// Reads of Basic Status while waiting for negotiation to finish.
pub const AN_MAX_TRIES: u32 = 500_000;

/// Is the link up with auto-negotiation complete, by Basic Status `bs`?
/// Then negotiation is not restarted (that would drop the link).
pub open spec fn link_ready_spec(bs: u32) -> bool {
    bs & BS_LINK_UP != 0 && bs & BS_AN_COMPLETE != 0
}

/// Decide whether the link is ready by Basic Status `bs`.
pub fn phy_link_ready(bs: u32) -> (r: bool)
    ensures
        r == link_ready_spec(bs),
{
    bs & BS_LINK_UP != 0 && bs & BS_AN_COMPLETE != 0
}

/// The next step of waiting for auto-negotiation.
#[derive(Debug, Clone, Copy, PartialEq, Eq, Structural)]
pub enum AnPoll {
    /// Link up and negotiated: the final status, and the failed reads
    /// before it.
    Settled { status: u32, tries: u32 },
    /// Not yet: read again; this many reads have failed so far.
    Again { tries: u32 },
    /// Still not after `AN_MAX_TRIES` failed reads: the last status,
    /// and the number of failed reads.
    GaveUp { status: u32, tries: u32 },
}

/// Decide after reading Basic Status `status`, with `tries` failed
/// reads so far.
pub fn an_poll(status: u32, tries: u32) -> (r: AnPoll)
    requires
        tries <= AN_MAX_TRIES,
    ensures
        link_ready_spec(status) ==> r == (AnPoll::Settled { status, tries }),
        !link_ready_spec(status) && tries + 1 > AN_MAX_TRIES ==> r == (AnPoll::GaveUp {
            status,
            tries: (tries + 1) as u32,
        }),
        !link_ready_spec(status) && tries + 1 <= AN_MAX_TRIES ==> r == (AnPoll::Again { tries: (tries + 1) as u32 }),
{
    if phy_link_ready(status) {
        return AnPoll::Settled { status, tries };
    }
    let t = tries + 1;
    if t > AN_MAX_TRIES {
        AnPoll::GaveUp { status, tries: t }
    } else {
        AnPoll::Again { tries: t }
    }
}

/// AON SYSCON PHY-interface field: bits 18..21.
pub const PHY_INTF_MASK: u32 = 0x001C_0000;
/// PHY-interface value selecting RGMII, in place.
pub const PHY_INTF_RGMII: u32 = 0x0004_0000;

/// The AON SYSCON word `pi` with its PHY-interface field set to RGMII
/// and every other bit kept.
pub fn phy_intf_rgmii(pi: u32) -> (r: u32)
    ensures
        r == (pi & !PHY_INTF_MASK) | PHY_INTF_RGMII,
        r & PHY_INTF_MASK == PHY_INTF_RGMII,
        r & !PHY_INTF_MASK == pi & !PHY_INTF_MASK,
{
    let r = (pi & !PHY_INTF_MASK) | PHY_INTF_RGMII;
    assert(r & 0x001C_0000u32 == 0x0004_0000u32 && r & !0x001C_0000u32 == pi & !0x001C_0000u32) by (bit_vector)
        requires
            r == (pi & !0x001C_0000u32) | 0x0004_0000u32,
    ;
    r
}

/// AON reset word: the GMAC0 AXI and AHB reset bits.
pub const GMAC0_RESET_BITS: u32 = 0x3;

/// The AON reset word `cur` with the GMAC0 resets released and every
/// other bit kept.
pub fn gmac0_reset_release(cur: u32) -> (r: u32)
    ensures
        r == cur & !GMAC0_RESET_BITS,
        r & GMAC0_RESET_BITS == 0,
        r & !GMAC0_RESET_BITS == cur & !GMAC0_RESET_BITS,
{
    let r = cur & !GMAC0_RESET_BITS;
    assert(r & 3u32 == 0 && r & !3u32 == cur & !3u32) by (bit_vector)
        requires
            r == cur & !3u32,
    ;
    r
}

/// DMA bus mode: software reset in progress.
pub const DMA_SWR: u32 = 0x1;
/// Reads of the bus mode while waiting for a software reset to finish.
pub const SWR_MAX_TRIES: u32 = 100_000;

/// Keep waiting for the DMA software reset, given bus mode `bm` and
/// `iters` reads so far?
pub fn swr_wait(bm: u32, iters: u32) -> (r: bool)
    ensures
        r == (bm & DMA_SWR != 0 && iters < SWR_MAX_TRIES),
{
    bm & DMA_SWR != 0 && iters < SWR_MAX_TRIES
}

/// Length of the first frame sent on bring-up (a broadcast ARP).
pub const FIRST_FRAME_LEN: u32 = 64;

/// The transmit descriptor for the first frame, at physical address
/// `pkt_pa`: one buffer of `FIRST_FRAME_LEN` bytes, first and last
/// descriptor of the frame, owned by the DMA engine.
pub fn first_frame_desc(pkt_pa: u64) -> (r: [u32; 4])
    ensures
        r@ == desc(pkt_pa, FIRST_FRAME_LEN, TDES3_OWN | TDES3_LD | TDES3_FD | FIRST_FRAME_LEN),
{
    let r: [u32; 4] = [pkt_pa as u32, (pkt_pa >> 32) as u32, FIRST_FRAME_LEN, TDES3_OWN | TDES3_LD | TDES3_FD
        | FIRST_FRAME_LEN];
    assert(r@ =~= desc(pkt_pa, FIRST_FRAME_LEN, TDES3_OWN | TDES3_LD | TDES3_FD | FIRST_FRAME_LEN));
    r
}

} // verus!
