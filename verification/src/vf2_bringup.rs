//! The VisionFive 2 GMAC0 bring-up as a state machine: clock gates and
//! reset, PHY auto-negotiation, the DMA software reset, upstream and
//! datapath clocks, RGMII selection, then ring setup, the first frame,
//! receive arming, the address filter, the MTL queues and interrupts.
//! Each step names the access the driver performs next, given the value
//! the previous read returned. Register dumps and trace logs taken along
//! the way only observe and are the driver's own.

use vstd::prelude::*;
use crate::vf2::{
    an_poll, gmac0_reset_release, link_ready_spec, phy_intf_rgmii, swr_wait, AnPoll, AN_MAX_TRIES,
    BC_AN_RESTART, DMA_SWR, GMAC0_RESET_BITS, PHY_INTF_MASK, PHY_INTF_RGMII, SWR_MAX_TRIES,
};

verus! {

/// JH7110 always-on clock and reset generator.
pub const AONCRG_BASE: u32 = 0x1700_0000;
/// JH7110 system clock and reset generator.
pub const SYSCRG_BASE: u32 = 0x1302_0000;
/// JH7110 always-on system controller.
pub const AON_SYSCON_BASE: u32 = 0x1701_0000;
/// GMAC0 register window.
pub const GMAC0_BASE: u32 = 0x1603_0000;
/// Clock-gate enable bit.
pub const CLK_ENABLE: u32 = 0x8000_0000;
/// DMA bus-mode register.
pub const DMA_BUS_MODE: u32 = 0x1603_1000;
/// PHY Basic Control register.
pub const PHY_BASIC_CONTROL: u32 = 0;
/// PHY Basic Status register.
pub const PHY_BASIC_STATUS: u32 = 1;

/// Where the driver's rings lie, by physical address.
#[derive(Debug, Clone, Copy, PartialEq, Eq, Structural)]
pub struct Vf2Layout {
    /// Transmit descriptor ring.
    pub tx_ring_pa: u64,
    /// Receive descriptor ring.
    pub rx_ring_pa: u64,
}

impl Vf2Layout {
    /// A whole ring fits below the top of the address space.
    pub open spec fn wf(&self) -> bool {
        self.tx_ring_pa <= u64::MAX - 256 && self.rx_ring_pa <= u64::MAX - 256
    }
}

/// What the driver does next.
#[derive(Debug, Clone, Copy, PartialEq, Eq, Structural)]
pub enum Vf2Op {
    /// Read the register at `addr`; its value feeds the next step.
    Read { addr: u32 },
    /// Write `value` to the register at `addr`.
    Write { addr: u32, value: u32 },
    /// Read PHY register `reg` over MDIO; its value feeds the next step.
    PhyRead { reg: u32 },
    /// Write `value` to PHY register `reg` over MDIO.
    PhyWrite { reg: u32, value: u16 },
    /// Put the bring-up frame in transmit descriptor `idx`
    /// (`first_frame_desc`).
    FillTxDesc { idx: u8 },
    /// Arm every receive descriptor (`rx_ring_init`).
    ArmRxRing,
    /// Busy-wait `iters` iterations for traffic to arrive.
    Spin { iters: u32 },
    /// The bring-up is complete.
    Done,
}

/// Where the bring-up stands: a phase, a position in it, and the reads
/// made so far by the loop of that phase.
#[derive(Debug, Clone, Copy, PartialEq, Eq, Structural)]
pub struct Vf2Bringup {
    /// 0 clocks and reset, 1 PHY, 2 DMA reset, 3 upstream clocks,
    /// 4 RGMII selection, 5 datapath clocks, 6 DMA reset again,
    /// 7 rings and MAC set-up, 8 done.
    pub phase: u8,
    /// Position within the phase.
    pub idx: u8,
    /// Failed polls so far in the phase's loop.
    pub tries: u32,
    /// The ring addresses.
    pub layout: Vf2Layout,
}

impl Vf2Bringup {
    /// The ring addresses fit and a poll count stays within its budget.
    pub open spec fn wf(&self) -> bool {
        self.layout.wf() && self.tries <= AN_MAX_TRIES
    }

    /// The bring-up at its start.
    pub fn new(layout: Vf2Layout) -> (r: Self)
        requires
            layout.wf(),
        ensures
            r.wf(),
            r == (Vf2Bringup { phase: 0, idx: 0, tries: 0, layout }),
    {
        Vf2Bringup { phase: 0, idx: 0, tries: 0, layout }
    }
}

/// `s` moved to `phase`, position `idx`, `tries` polls.
pub open spec fn go(s: Vf2Bringup, phase: u8, idx: u8, tries: u32) -> Vf2Bringup {
    Vf2Bringup { phase, idx, tries, layout: s.layout }
}

/// The datapath clocks, in order: the AON transmit and receive clock
/// muxes, receive clock inversion for RGMII, then the system GTX clock
/// (divider 5), PTP clock (divider 10), PHY MDC clock (divider 30) and
/// GTXC gate.
pub open spec fn datapath_clocks() -> Seq<Vf2Op> {
    seq![
        Vf2Op::Write { addr: (AONCRG_BASE + 0x14) as u32, value: CLK_ENABLE },
        Vf2Op::Write { addr: (AONCRG_BASE + 0x1C) as u32, value: CLK_ENABLE },
        Vf2Op::Write { addr: (AONCRG_BASE + 0x20) as u32, value: 0x4000_0000 },
        Vf2Op::Write { addr: (SYSCRG_BASE + 0x1B0) as u32, value: CLK_ENABLE | 0x5 },
        Vf2Op::Write { addr: (SYSCRG_BASE + 0x1B4) as u32, value: CLK_ENABLE | 0xA },
        Vf2Op::Write { addr: (SYSCRG_BASE + 0x1B8) as u32, value: CLK_ENABLE | 0x1E },
        Vf2Op::Write { addr: (SYSCRG_BASE + 0x1BC) as u32, value: CLK_ENABLE },
    ]
}

/// After the DMA engine is out of reset: the ring base addresses (high
/// word first) and lengths (16 entries, written as 15); the first frame
/// in transmit descriptor 0; MAC transmit and receive on; DMA transmit
/// and receive started; the transmit tail past descriptor 0; the receive
/// ring armed, receive control with 1536-byte buffers, receive tail past
/// all 16 descriptors; status cleared and a wait; the MAC address and
/// promiscuous filter; status cleared and a wait; the MTL transmit and
/// receive queues; status cleared and a wait; DMA interrupts on, receive
/// polling, a second frame in descriptor 1 and the transmit tail past
/// it; status cleared and a last wait.
pub open spec fn setup_ops(l: Vf2Layout) -> Seq<Vf2Op> {
    seq![
        Vf2Op::Write { addr: (GMAC0_BASE + 0x1110) as u32, value: (l.tx_ring_pa >> 32) as u32 },
        Vf2Op::Write { addr: (GMAC0_BASE + 0x1114) as u32, value: l.tx_ring_pa as u32 },
        Vf2Op::Write { addr: (GMAC0_BASE + 0x1118) as u32, value: (l.rx_ring_pa >> 32) as u32 },
        Vf2Op::Write { addr: (GMAC0_BASE + 0x111C) as u32, value: l.rx_ring_pa as u32 },
        Vf2Op::Write { addr: (GMAC0_BASE + 0x112C) as u32, value: 15 },
        Vf2Op::Write { addr: (GMAC0_BASE + 0x1130) as u32, value: 15 },
        Vf2Op::FillTxDesc { idx: 0 },
        Vf2Op::Write { addr: GMAC0_BASE, value: 0x3 },
        Vf2Op::Write { addr: (GMAC0_BASE + 0x1104) as u32, value: 0x0010_0001 },
        Vf2Op::Write { addr: (GMAC0_BASE + 0x1108) as u32, value: 0x0010_0001 },
        Vf2Op::Write { addr: (GMAC0_BASE + 0x1120) as u32, value: (l.tx_ring_pa + 16) as u32 },
        Vf2Op::ArmRxRing,
        Vf2Op::Write { addr: (GMAC0_BASE + 0x1108) as u32, value: 0x0001_0C01 },
        Vf2Op::Write { addr: (GMAC0_BASE + 0x1128) as u32, value: (l.rx_ring_pa + 256) as u32 },
        Vf2Op::Write { addr: (GMAC0_BASE + 0x1160) as u32, value: 0xFFFF },
        Vf2Op::Spin { iters: 5_000_000 },
        Vf2Op::Write { addr: (GMAC0_BASE + 0x300) as u32, value: 0x8000_8440 },
        Vf2Op::Write { addr: (GMAC0_BASE + 0x304) as u32, value: 0x0039_CF6C },
        Vf2Op::Write { addr: (GMAC0_BASE + 0x008) as u32, value: 0x1 },
        Vf2Op::Write { addr: (GMAC0_BASE + 0x1160) as u32, value: 0xFFFF },
        Vf2Op::Spin { iters: 20_000_000 },
        Vf2Op::Write { addr: (GMAC0_BASE + 0xD00) as u32, value: 0x007F_000A },
        Vf2Op::Write { addr: (GMAC0_BASE + 0xD30) as u32, value: 0x0000_0720 },
        Vf2Op::Write { addr: (GMAC0_BASE + 0x1160) as u32, value: 0xFFFF },
        Vf2Op::Spin { iters: 30_000_000 },
        Vf2Op::Write { addr: (GMAC0_BASE + 0x1134) as u32, value: 0xC041 },
        Vf2Op::Write { addr: (GMAC0_BASE + 0x1108) as u32, value: 0x8001_0C01 },
        Vf2Op::FillTxDesc { idx: 1 },
        Vf2Op::Write { addr: (GMAC0_BASE + 0x1120) as u32, value: (l.tx_ring_pa + 32) as u32 },
        Vf2Op::Write { addr: (GMAC0_BASE + 0x1160) as u32, value: 0xFFFF },
        Vf2Op::Spin { iters: 50_000_000 },
    ]
}

/// Start waiting for the DMA software reset in `phase`.
pub open spec fn swr_begin(s: Vf2Bringup, phase: u8) -> (Vf2Bringup, Vf2Op) {
    (go(s, phase, 1, 0), Vf2Op::Read { addr: DMA_BUS_MODE })
}

/// Start enabling the upstream clocks: read the AHB0 gate.
pub open spec fn upstream_begin(s: Vf2Bringup) -> (Vf2Bringup, Vf2Op) {
    (go(s, 3, 1, 0), Vf2Op::Read { addr: (SYSCRG_BASE + 0x24) as u32 })
}

/// Start selecting RGMII: read the AON system-controller word.
pub open spec fn intf_begin(s: Vf2Bringup) -> (Vf2Bringup, Vf2Op) {
    (go(s, 4, 1, 0), Vf2Op::Read { addr: (AON_SYSCON_BASE + 0x0C) as u32 })
}

/// Start the ring and MAC set-up.
pub open spec fn setup_begin(s: Vf2Bringup) -> (Vf2Bringup, Vf2Op) {
    (go(s, 7, 1, 0), setup_ops(s.layout)[0])
}

/// The transition table: from `s`, with `v` the value of the read the
/// previous step asked for, the next state and access.
/// - Clocks and reset: enable the AHB and AXI gates, read the reset
///   word and release GMAC0's two resets.
/// - PHY: read Basic Status; a link already up and negotiated is left
///   alone (restarting would drop it); otherwise restart
///   auto-negotiation and read Basic Status until it settles or
///   `AN_MAX_TRIES` reads failed.
/// - DMA reset: read the bus mode until the reset bit clears or
///   `SWR_MAX_TRIES` reads failed; if still set, clear it by writing.
/// - Upstream clocks: read the AHB0 and the bus AXI gates and enable
///   each that is off.
/// - Select RGMII, then the datapath clocks.
/// - DMA reset again: wait as before; if still set, trigger a fresh
///   reset and wait once more.
/// - Then `setup_ops`, then done.
pub open spec fn vf2_next(s: Vf2Bringup, v: u32) -> (Vf2Bringup, Vf2Op) {
    if s.phase == 0 {
        if s.idx == 0 {
            (go(s, 0, 1, 0), Vf2Op::Write { addr: (AONCRG_BASE + 0x08) as u32, value: CLK_ENABLE })
        } else if s.idx == 1 {
            (go(s, 0, 2, 0), Vf2Op::Write { addr: (AONCRG_BASE + 0x0C) as u32, value: CLK_ENABLE })
        } else if s.idx == 2 {
            (go(s, 0, 3, 0), Vf2Op::Read { addr: (AONCRG_BASE + 0x38) as u32 })
        } else {
            (go(s, 1, 0, 0), Vf2Op::Write { addr: (AONCRG_BASE + 0x38) as u32, value: v & !GMAC0_RESET_BITS })
        }
    } else if s.phase == 1 {
        if s.idx == 0 {
            (go(s, 1, 1, 0), Vf2Op::PhyRead { reg: PHY_BASIC_STATUS })
        } else if s.idx == 1 {
            if link_ready_spec(v) {
                swr_begin(s, 2)
            } else {
                (go(s, 1, 2, 0), Vf2Op::PhyWrite { reg: PHY_BASIC_CONTROL, value: BC_AN_RESTART })
            }
        } else if s.idx == 2 {
            (go(s, 1, 3, 0), Vf2Op::PhyRead { reg: PHY_BASIC_STATUS })
        } else if link_ready_spec(v) || s.tries + 1 > AN_MAX_TRIES {
            swr_begin(s, 2)
        } else {
            (go(s, 1, 3, (s.tries + 1) as u32), Vf2Op::PhyRead { reg: PHY_BASIC_STATUS })
        }
    } else if s.phase == 2 {
        if s.idx == 1 {
            if v & DMA_SWR != 0 && s.tries < SWR_MAX_TRIES {
                (go(s, 2, 1, (s.tries + 1) as u32), Vf2Op::Read { addr: DMA_BUS_MODE })
            } else if v & DMA_SWR != 0 {
                (go(s, 2, 2, 0), Vf2Op::Write { addr: DMA_BUS_MODE, value: v & !DMA_SWR })
            } else {
                upstream_begin(s)
            }
        } else {
            upstream_begin(s)
        }
    } else if s.phase == 3 {
        if s.idx == 1 {
            if v & CLK_ENABLE == 0 {
                (go(s, 3, 2, 0), Vf2Op::Write { addr: (SYSCRG_BASE + 0x24) as u32, value: v | CLK_ENABLE })
            } else {
                (go(s, 3, 3, 0), Vf2Op::Read { addr: (SYSCRG_BASE + 0x180) as u32 })
            }
        } else if s.idx == 2 {
            (go(s, 3, 3, 0), Vf2Op::Read { addr: (SYSCRG_BASE + 0x180) as u32 })
        } else if s.idx == 3 {
            if v & CLK_ENABLE == 0 {
                (go(s, 3, 4, 0), Vf2Op::Write { addr: (SYSCRG_BASE + 0x180) as u32, value: v | CLK_ENABLE })
            } else {
                intf_begin(s)
            }
        } else {
            intf_begin(s)
        }
    } else if s.phase == 4 {
        (go(s, 5, 0, 0), Vf2Op::Write {
            addr: (AON_SYSCON_BASE + 0x0C) as u32,
            value: (v & !PHY_INTF_MASK) | PHY_INTF_RGMII,
        })
    } else if s.phase == 5 {
        if s.idx < 6 {
            (go(s, 5, (s.idx + 1) as u8, 0), datapath_clocks()[s.idx as int])
        } else {
            (go(s, 6, 0, 0), datapath_clocks()[6])
        }
    } else if s.phase == 6 {
        if s.idx == 0 {
            swr_begin(s, 6)
        } else if s.idx == 1 {
            if v & DMA_SWR != 0 && s.tries < SWR_MAX_TRIES {
                (go(s, 6, 1, (s.tries + 1) as u32), Vf2Op::Read { addr: DMA_BUS_MODE })
            } else if v & DMA_SWR != 0 {
                (go(s, 6, 2, 0), Vf2Op::Write { addr: DMA_BUS_MODE, value: DMA_SWR })
            } else {
                setup_begin(s)
            }
        } else if s.idx == 2 {
            (go(s, 6, 3, 0), Vf2Op::Read { addr: DMA_BUS_MODE })
        } else if v & DMA_SWR != 0 && s.tries < SWR_MAX_TRIES {
            (go(s, 6, 3, (s.tries + 1) as u32), Vf2Op::Read { addr: DMA_BUS_MODE })
        } else {
            setup_begin(s)
        }
    } else if s.phase == 7 && s.idx < 31 {
        (go(s, 7, (s.idx + 1) as u8, 0), setup_ops(s.layout)[s.idx as int])
    } else {
        (go(s, 8, 0, 0), Vf2Op::Done)
    }
}

/// Run the bring-up from `s`, feeding step `i` the value `vs[i]`: the
/// final state and the accesses made, in order.
pub open spec fn vf2_run(s: Vf2Bringup, vs: Seq<u32>) -> (Vf2Bringup, Seq<Vf2Op>)
    decreases vs.len(),
{
    if vs.len() == 0 {
        (s, Seq::empty())
    } else {
        let (n, a) = vf2_next(s, vs[0]);
        let (f, rest) = vf2_run(n, vs.drop_first());
        (f, seq![a] + rest)
    }
}

/// What a board that U-Boot left running answers, step by step: the
/// reset word `rst`, Basic Status `bs`, the bus mode `bm`, the AHB0 and
/// bus AXI gates `ahb0` and `axi`, the system-controller word `pi`, and
/// the bus mode `bm2` after the datapath clocks (0 where the step reads
/// nothing). Fifty steps in all.
pub open spec fn board_answers(rst: u32, bs: u32, bm: u32, ahb0: u32, axi: u32, pi: u32, bm2: u32) -> Seq<u32> {
    Seq::new(50, |i: int|
        if i == 3 { rst } else if i == 5 { bs } else if i == 6 { bm } else if i == 7 { ahb0 }
        else if i == 8 { axi } else if i == 9 { pi } else if i == 18 { bm2 } else { 0 })
}

/// The whole bring-up on such a board, in order: enable the AHB and AXI
/// gates, read and release the GMAC0 resets, read Basic Status (link up,
/// so no renegotiation), read the bus mode (out of reset), read both
/// upstream gates (already on), select RGMII, the datapath clocks, read
/// the bus mode again (out of reset), the ring and MAC set-up, done.
pub open spec fn bringup_ops(l: Vf2Layout, rst: u32, pi: u32) -> Seq<Vf2Op> {
    seq![
        Vf2Op::Write { addr: (AONCRG_BASE + 0x08) as u32, value: CLK_ENABLE },
        Vf2Op::Write { addr: (AONCRG_BASE + 0x0C) as u32, value: CLK_ENABLE },
        Vf2Op::Read { addr: (AONCRG_BASE + 0x38) as u32 },
        Vf2Op::Write { addr: (AONCRG_BASE + 0x38) as u32, value: rst & !GMAC0_RESET_BITS },
        Vf2Op::PhyRead { reg: PHY_BASIC_STATUS },
        Vf2Op::Read { addr: DMA_BUS_MODE },
        Vf2Op::Read { addr: (SYSCRG_BASE + 0x24) as u32 },
        Vf2Op::Read { addr: (SYSCRG_BASE + 0x180) as u32 },
        Vf2Op::Read { addr: (AON_SYSCON_BASE + 0x0C) as u32 },
        Vf2Op::Write { addr: (AON_SYSCON_BASE + 0x0C) as u32, value: (pi & !PHY_INTF_MASK) | PHY_INTF_RGMII },
    ] + datapath_clocks() + seq![Vf2Op::Read { addr: DMA_BUS_MODE }] + setup_ops(l) + seq![Vf2Op::Done]
}

proof fn lemma_run_concat(s: Vf2Bringup, a: Seq<u32>, b: Seq<u32>)
    ensures
        ({
            let (m, x) = vf2_run(s, a);
            let (f, y) = vf2_run(m, b);
            vf2_run(s, a + b) == (f, x + y)
        }),
    decreases a.len(),
{
    if a.len() == 0 {
        assert(a + b =~= b);
        let (f, y) = vf2_run(s, b);
        assert(Seq::<Vf2Op>::empty() + y =~= y);
    } else {
        let (n, op) = vf2_next(s, a[0]);
        assert((a + b)[0] == a[0]);
        assert((a + b).drop_first() =~= a.drop_first() + b);
        lemma_run_concat(n, a.drop_first(), b);
        let (m, x) = vf2_run(n, a.drop_first());
        let (f, y) = vf2_run(m, b);
        assert(seq![op] + (x + y) =~= (seq![op] + x) + y);
    }
}

proof fn lemma_setup_run(l: Vf2Layout, k: u8, vs: Seq<u32>)
    requires
        k + vs.len() <= 31,
    ensures
        vf2_run(Vf2Bringup { phase: 7, idx: k, tries: 0, layout: l }, vs) == (
        Vf2Bringup { phase: 7, idx: (k + vs.len()) as u8, tries: 0, layout: l }, setup_ops(l).subrange(
            k as int,
            k + vs.len(),
        )),
    decreases vs.len(),
{
    if vs.len() == 0 {
        assert(setup_ops(l).subrange(k as int, k as int) =~= Seq::<Vf2Op>::empty());
    } else {
        let s = Vf2Bringup { phase: 7, idx: k, tries: 0, layout: l };
        lemma_setup_run(l, (k + 1) as u8, vs.drop_first());
        assert(seq![setup_ops(l)[k as int]] + setup_ops(l).subrange(k + 1, k + vs.len()) =~= setup_ops(l).subrange(
            k as int,
            k + vs.len(),
        ));
    }
}

/// On a board with the link up and negotiated, the DMA engine out of
/// reset and the upstream clocks on, the driver makes exactly the whole
/// bring-up, in order, and finishes.
pub proof fn lemma_bringup_sequence(l: Vf2Layout, rst: u32, bs: u32, bm: u32, ahb0: u32, axi: u32, pi: u32, bm2: u32)
    requires
        link_ready_spec(bs),
        bm & DMA_SWR == 0,
        ahb0 & CLK_ENABLE != 0,
        axi & CLK_ENABLE != 0,
        bm2 & DMA_SWR == 0,
    ensures
        vf2_run(Vf2Bringup { phase: 0, idx: 0, tries: 0, layout: l }, board_answers(rst, bs, bm, ahb0, axi, pi, bm2))
            == (Vf2Bringup { phase: 8, idx: 0, tries: 0, layout: l }, bringup_ops(l, rst, pi)),
{
    let vs = board_answers(rst, bs, bm, ahb0, axi, pi, bm2);
    let s0 = Vf2Bringup { phase: 0, idx: 0, tries: 0, layout: l };
    let a = vs.subrange(0, 10);
    let b = vs.subrange(10, 17);
    let c = vs.subrange(17, 19);
    let d = vs.subrange(19, 49);
    let e = vs.subrange(49, 50);
    assert(vs =~= a + b + c + d + e);
    reveal_with_fuel(vf2_run, 11);
    let s1 = Vf2Bringup { phase: 5, idx: 0, tries: 0, layout: l };
    let pre = bringup_ops(l, rst, pi).subrange(0, 10);
    assert(vf2_run(s0, a).0 == s1 && vf2_run(s0, a).1 =~= pre);
    let s2 = Vf2Bringup { phase: 6, idx: 0, tries: 0, layout: l };
    assert(vf2_run(s1, b).0 == s2 && vf2_run(s1, b).1 =~= datapath_clocks());
    let s3 = Vf2Bringup { phase: 7, idx: 1, tries: 0, layout: l };
    assert(vf2_run(s2, c).0 == s3 && vf2_run(s2, c).1 =~= seq![Vf2Op::Read { addr: DMA_BUS_MODE }, setup_ops(l)[0]]);
    lemma_setup_run(l, 1, d);
    let s4 = Vf2Bringup { phase: 7, idx: 31, tries: 0, layout: l };
    let s5 = Vf2Bringup { phase: 8, idx: 0, tries: 0, layout: l };
    assert(vf2_run(s4, e).0 == s5 && vf2_run(s4, e).1 =~= seq![Vf2Op::Done]);
    lemma_run_concat(s0, a, b);
    lemma_run_concat(s0, a + b, c);
    lemma_run_concat(s0, a + b + c, d);
    lemma_run_concat(s0, a + b + c + d, e);
    assert(pre + datapath_clocks() + seq![Vf2Op::Read { addr: DMA_BUS_MODE }, setup_ops(l)[0]] + setup_ops(l).subrange(1, 31)
        + seq![Vf2Op::Done] =~= bringup_ops(l, rst, pi));
}

/// Auto-negotiation is restarted only when the link was found down or
/// not negotiated, and the DMA engine is given its rings only after it
/// left reset or its reset waits ran out.
pub proof fn lemma_bringup_order(s: Vf2Bringup, v: u32)
    ensures
        ({
            let (n, a) = vf2_next(s, v);
            &&& (a matches Vf2Op::PhyWrite { .. }) ==> s.phase == 1 && s.idx == 1 && !link_ready_spec(v)
            &&& n.phase == 7 && s.phase != 7 ==> s.phase == 6 && (v & DMA_SWR == 0 || s.tries >= SWR_MAX_TRIES)
                && a == setup_ops(s.layout)[0]
        }),
{
}

/// Datapath clock write `idx`.
fn datapath_op(idx: u8) -> (r: Vf2Op)
    requires
        idx < 7,
    ensures
        r == datapath_clocks()[idx as int],
{
    match idx {
        0 => Vf2Op::Write { addr: AONCRG_BASE + 0x14, value: CLK_ENABLE },
        1 => Vf2Op::Write { addr: AONCRG_BASE + 0x1C, value: CLK_ENABLE },
        2 => Vf2Op::Write { addr: AONCRG_BASE + 0x20, value: 0x4000_0000 },
        3 => Vf2Op::Write { addr: SYSCRG_BASE + 0x1B0, value: CLK_ENABLE | 0x5 },
        4 => Vf2Op::Write { addr: SYSCRG_BASE + 0x1B4, value: CLK_ENABLE | 0xA },
        5 => Vf2Op::Write { addr: SYSCRG_BASE + 0x1B8, value: CLK_ENABLE | 0x1E },
        _ => Vf2Op::Write { addr: SYSCRG_BASE + 0x1BC, value: CLK_ENABLE },
    }
}

/// Set-up access `idx`.
fn setup_op(l: Vf2Layout, idx: u8) -> (r: Vf2Op)
    requires
        l.wf(),
        idx < 31,
    ensures
        r == setup_ops(l)[idx as int],
{
    match idx {
        0 => Vf2Op::Write { addr: GMAC0_BASE + 0x1110, value: (l.tx_ring_pa >> 32) as u32 },
        1 => Vf2Op::Write { addr: GMAC0_BASE + 0x1114, value: l.tx_ring_pa as u32 },
        2 => Vf2Op::Write { addr: GMAC0_BASE + 0x1118, value: (l.rx_ring_pa >> 32) as u32 },
        3 => Vf2Op::Write { addr: GMAC0_BASE + 0x111C, value: l.rx_ring_pa as u32 },
        4 => Vf2Op::Write { addr: GMAC0_BASE + 0x112C, value: 15 },
        5 => Vf2Op::Write { addr: GMAC0_BASE + 0x1130, value: 15 },
        6 => Vf2Op::FillTxDesc { idx: 0 },
        7 => Vf2Op::Write { addr: GMAC0_BASE, value: 0x3 },
        8 => Vf2Op::Write { addr: GMAC0_BASE + 0x1104, value: 0x0010_0001 },
        9 => Vf2Op::Write { addr: GMAC0_BASE + 0x1108, value: 0x0010_0001 },
        10 => Vf2Op::Write { addr: GMAC0_BASE + 0x1120, value: (l.tx_ring_pa + 16) as u32 },
        11 => Vf2Op::ArmRxRing,
        12 => Vf2Op::Write { addr: GMAC0_BASE + 0x1108, value: 0x0001_0C01 },
        13 => Vf2Op::Write { addr: GMAC0_BASE + 0x1128, value: (l.rx_ring_pa + 256) as u32 },
        14 => Vf2Op::Write { addr: GMAC0_BASE + 0x1160, value: 0xFFFF },
        15 => Vf2Op::Spin { iters: 5_000_000 },
        16 => Vf2Op::Write { addr: GMAC0_BASE + 0x300, value: 0x8000_8440 },
        17 => Vf2Op::Write { addr: GMAC0_BASE + 0x304, value: 0x0039_CF6C },
        18 => Vf2Op::Write { addr: GMAC0_BASE + 0x008, value: 0x1 },
        19 => Vf2Op::Write { addr: GMAC0_BASE + 0x1160, value: 0xFFFF },
        20 => Vf2Op::Spin { iters: 20_000_000 },
        21 => Vf2Op::Write { addr: GMAC0_BASE + 0xD00, value: 0x007F_000A },
        22 => Vf2Op::Write { addr: GMAC0_BASE + 0xD30, value: 0x0000_0720 },
        23 => Vf2Op::Write { addr: GMAC0_BASE + 0x1160, value: 0xFFFF },
        24 => Vf2Op::Spin { iters: 30_000_000 },
        25 => Vf2Op::Write { addr: GMAC0_BASE + 0x1134, value: 0xC041 },
        26 => Vf2Op::Write { addr: GMAC0_BASE + 0x1108, value: 0x8001_0C01 },
        27 => Vf2Op::FillTxDesc { idx: 1 },
        28 => Vf2Op::Write { addr: GMAC0_BASE + 0x1120, value: (l.tx_ring_pa + 32) as u32 },
        29 => Vf2Op::Write { addr: GMAC0_BASE + 0x1160, value: 0xFFFF },
        _ => Vf2Op::Spin { iters: 50_000_000 },
    }
}

/// Advance the bring-up by one step; `v` is the value of the read the
/// previous step asked for (ignored otherwise).
pub fn vf2_step(s: Vf2Bringup, v: u32) -> (r: (Vf2Bringup, Vf2Op))
    requires
        s.wf(),
    ensures
        r == vf2_next(s, v),
        r.0.wf(),
{
    let l = s.layout;
    let at = |phase: u8, idx: u8, tries: u32| -> (n: Vf2Bringup)
        ensures
            n == (Vf2Bringup { phase, idx, tries, layout: l }),
        { Vf2Bringup { phase, idx, tries, layout: l } };
    let swr_read = Vf2Op::Read { addr: DMA_BUS_MODE };
    if s.phase == 0 {
        if s.idx == 0 {
            (at(0, 1, 0), Vf2Op::Write { addr: AONCRG_BASE + 0x08, value: CLK_ENABLE })
        } else if s.idx == 1 {
            (at(0, 2, 0), Vf2Op::Write { addr: AONCRG_BASE + 0x0C, value: CLK_ENABLE })
        } else if s.idx == 2 {
            (at(0, 3, 0), Vf2Op::Read { addr: AONCRG_BASE + 0x38 })
        } else {
            (at(1, 0, 0), Vf2Op::Write { addr: AONCRG_BASE + 0x38, value: gmac0_reset_release(v) })
        }
    } else if s.phase == 1 {
        if s.idx == 0 {
            (at(1, 1, 0), Vf2Op::PhyRead { reg: PHY_BASIC_STATUS })
        } else if s.idx == 1 {
            if crate::vf2::phy_link_ready(v) {
                (at(2, 1, 0), swr_read)
            } else {
                (at(1, 2, 0), Vf2Op::PhyWrite { reg: PHY_BASIC_CONTROL, value: BC_AN_RESTART })
            }
        } else if s.idx == 2 {
            (at(1, 3, 0), Vf2Op::PhyRead { reg: PHY_BASIC_STATUS })
        } else {
            match an_poll(v, s.tries) {
                AnPoll::Again { tries } => (at(1, 3, tries), Vf2Op::PhyRead { reg: PHY_BASIC_STATUS }),
                _ => (at(2, 1, 0), swr_read),
            }
        }
    } else if s.phase == 2 {
        if s.idx == 1 {
            if swr_wait(v, s.tries) {
                (at(2, 1, s.tries + 1), swr_read)
            } else if v & DMA_SWR != 0 {
                (at(2, 2, 0), Vf2Op::Write { addr: DMA_BUS_MODE, value: v & !DMA_SWR })
            } else {
                (at(3, 1, 0), Vf2Op::Read { addr: SYSCRG_BASE + 0x24 })
            }
        } else {
            (at(3, 1, 0), Vf2Op::Read { addr: SYSCRG_BASE + 0x24 })
        }
    } else if s.phase == 3 {
        if s.idx == 1 {
            if v & CLK_ENABLE == 0 {
                (at(3, 2, 0), Vf2Op::Write { addr: SYSCRG_BASE + 0x24, value: v | CLK_ENABLE })
            } else {
                (at(3, 3, 0), Vf2Op::Read { addr: SYSCRG_BASE + 0x180 })
            }
        } else if s.idx == 2 {
            (at(3, 3, 0), Vf2Op::Read { addr: SYSCRG_BASE + 0x180 })
        } else if s.idx == 3 && v & CLK_ENABLE == 0 {
            (at(3, 4, 0), Vf2Op::Write { addr: SYSCRG_BASE + 0x180, value: v | CLK_ENABLE })
        } else {
            (at(4, 1, 0), Vf2Op::Read { addr: AON_SYSCON_BASE + 0x0C })
        }
    } else if s.phase == 4 {
        (at(5, 0, 0), Vf2Op::Write { addr: AON_SYSCON_BASE + 0x0C, value: phy_intf_rgmii(v) })
    } else if s.phase == 5 {
        if s.idx < 6 {
            (at(5, s.idx + 1, 0), datapath_op(s.idx))
        } else {
            (at(6, 0, 0), datapath_op(6))
        }
    } else if s.phase == 6 {
        if s.idx == 0 {
            (at(6, 1, 0), swr_read)
        } else if s.idx == 1 {
            if swr_wait(v, s.tries) {
                (at(6, 1, s.tries + 1), swr_read)
            } else if v & DMA_SWR != 0 {
                (at(6, 2, 0), Vf2Op::Write { addr: DMA_BUS_MODE, value: DMA_SWR })
            } else {
                (at(7, 1, 0), setup_op(l, 0))
            }
        } else if s.idx == 2 {
            (at(6, 3, 0), swr_read)
        } else if swr_wait(v, s.tries) {
            (at(6, 3, s.tries + 1), swr_read)
        } else {
            (at(7, 1, 0), setup_op(l, 0))
        }
    } else if s.phase == 7 && s.idx < 31 {
        (at(7, s.idx + 1, 0), setup_op(l, s.idx))
    } else {
        (at(8, 0, 0), Vf2Op::Done)
    }
}

} // verus!
