//! The VirtIO-net driver's device initialisation (VirtIO 1.2 §3.1.1
//! over the MMIO transport, §4.2.2) as a state machine: each step names
//! the register access or driver work to perform next, given the value
//! the previous register read returned. The driver performs the
//! accesses; any failed access ends the sequence. Also the packing of
//! the MAC into the two words `wari::nic_set_mac` takes.

use vstd::prelude::*;

verus! {

/// MMIO register: magic value.
pub const VIRTIO_MMIO_MAGIC_VALUE: u32 = 0x000;
/// MMIO register: transport version.
pub const VIRTIO_MMIO_VERSION: u32 = 0x004;
/// MMIO register: device type.
pub const VIRTIO_MMIO_DEVICE_ID: u32 = 0x008;
/// MMIO register: device feature word selected by `DEVICE_FEATURES_SEL`.
pub const VIRTIO_MMIO_DEVICE_FEATURES: u32 = 0x010;
/// MMIO register: device feature word selector.
pub const VIRTIO_MMIO_DEVICE_FEATURES_SEL: u32 = 0x014;
/// MMIO register: driver feature word selected by `DRIVER_FEATURES_SEL`.
pub const VIRTIO_MMIO_DRIVER_FEATURES: u32 = 0x020;
/// MMIO register: driver feature word selector.
pub const VIRTIO_MMIO_DRIVER_FEATURES_SEL: u32 = 0x024;
/// MMIO register: device status.
pub const VIRTIO_MMIO_STATUS: u32 = 0x070;
/// MMIO register: start of the device-specific configuration.
pub const VIRTIO_MMIO_CONFIG: u32 = 0x100;
/// Second word of the configuration (MAC bytes 4..6 in its low half).
pub const VIRTIO_MMIO_CONFIG_MAC_HI: u32 = 0x104;

/// The magic value ("virt").
pub const VIRTIO_MAGIC: u32 = 0x7472_6976;
/// The modern (non-legacy) transport version.
pub const VIRTIO_VERSION_MODERN: u32 = 2;
/// Device type of a network card.
pub const VIRTIO_DEVICE_ID_NET: u32 = 1;

/// Status bit: the guest noticed the device.
pub const VIRTIO_STATUS_ACKNOWLEDGE: u32 = 0x01;
/// Status bit: the guest knows how to drive it.
pub const VIRTIO_STATUS_DRIVER: u32 = 0x02;
/// Status bit: the driver is ready.
pub const VIRTIO_STATUS_DRIVER_OK: u32 = 0x04;
/// Status bit: feature negotiation is complete.
pub const VIRTIO_STATUS_FEATURES_OK: u32 = 0x08;

/// Feature word 0 bit `VIRTIO_NET_F_MAC` (bit 5): the device has a MAC.
pub const FEATURE_LO_NET_MAC: u32 = 0x20;
/// Feature word 1 bit `VIRTIO_F_VERSION_1` (bit 32): modern device.
pub const FEATURE_HI_VERSION_1: u32 = 0x1;

/// Where the init sequence stands.
#[derive(Debug, Clone, Copy, PartialEq, Eq, Structural)]
pub struct VirtioInit {
    /// Position in the sequence; `INIT_DONE` and `INIT_FAILED` end it.
    pub step: u8,
    /// Device feature word 0, once read.
    pub feat_lo: u32,
    /// First configuration word (MAC bytes 0..4), once read.
    pub mac01: u32,
}

/// Step after a successful sequence.
pub const INIT_DONE: u8 = 22;
/// Step after a refused device.
pub const INIT_FAILED: u8 = 23;

/// What the driver does next.
#[derive(Debug, Clone, Copy, PartialEq, Eq, Structural)]
pub enum InitAction {
    /// Read the register at `offset`; its value feeds the next step.
    Read { offset: u32 },
    /// Write `value` to the register at `offset`.
    Write { offset: u32, value: u32 },
    /// Attach the receive (0) and transmit (1) queues.
    AttachQueues,
    /// Hand the receive buffers to the device.
    PopulateRx,
    /// The device is live; its MAC is in the two configuration words.
    Done { mac01: u32, mac23: u32 },
    /// The device was refused.
    Fail,
}

/// The sequence at its start.
pub open spec fn init_start() -> VirtioInit {
    VirtioInit { step: 0, feat_lo: 0, mac01: 0 }
}

/// `s` moved to step `n`.
pub open spec fn at(s: VirtioInit, n: u8) -> VirtioInit {
    VirtioInit { step: n, ..s }
}

/// Refuse the device.
pub open spec fn refuse(s: VirtioInit) -> (VirtioInit, InitAction) {
    (at(s, INIT_FAILED), InitAction::Fail)
}

/// The transition table: from `s`, with `v` the value of the register
/// read the previous step asked for, the next state and action. Checks:
/// magic, modern version, network device, the device offers VERSION_1
/// and MAC, and keeps FEATURES_OK after the driver accepts exactly those
/// two. The status register goes through 0, ACK, ACK|DRIVER,
/// ACK|DRIVER|FEATURES_OK and finally ACK|DRIVER|FEATURES_OK|DRIVER_OK,
/// the last only after the queues are attached and the receive buffers
/// posted.
pub open spec fn init_next(s: VirtioInit, v: u32) -> (VirtioInit, InitAction) {
    let ack = VIRTIO_STATUS_ACKNOWLEDGE;
    let drv = VIRTIO_STATUS_ACKNOWLEDGE | VIRTIO_STATUS_DRIVER;
    let fok = VIRTIO_STATUS_ACKNOWLEDGE | VIRTIO_STATUS_DRIVER | VIRTIO_STATUS_FEATURES_OK;
    let dok = VIRTIO_STATUS_ACKNOWLEDGE | VIRTIO_STATUS_DRIVER | VIRTIO_STATUS_FEATURES_OK
        | VIRTIO_STATUS_DRIVER_OK;
    if s.step == 0 {
        (at(s, 1), InitAction::Read { offset: VIRTIO_MMIO_MAGIC_VALUE })
    } else if s.step == 1 {
        if v != VIRTIO_MAGIC { refuse(s) } else { (at(s, 2), InitAction::Read { offset: VIRTIO_MMIO_VERSION }) }
    } else if s.step == 2 {
        if v != VIRTIO_VERSION_MODERN { refuse(s) } else { (at(s, 3), InitAction::Read { offset: VIRTIO_MMIO_DEVICE_ID }) }
    } else if s.step == 3 {
        if v != VIRTIO_DEVICE_ID_NET { refuse(s) } else { (at(s, 4), InitAction::Write { offset: VIRTIO_MMIO_STATUS, value: 0 }) }
    } else if s.step == 4 {
        (at(s, 5), InitAction::Write { offset: VIRTIO_MMIO_STATUS, value: ack })
    } else if s.step == 5 {
        (at(s, 6), InitAction::Write { offset: VIRTIO_MMIO_STATUS, value: drv })
    } else if s.step == 6 {
        (at(s, 7), InitAction::Write { offset: VIRTIO_MMIO_DEVICE_FEATURES_SEL, value: 0 })
    } else if s.step == 7 {
        (at(s, 8), InitAction::Read { offset: VIRTIO_MMIO_DEVICE_FEATURES })
    } else if s.step == 8 {
        (VirtioInit { step: 9, feat_lo: v, ..s }, InitAction::Write { offset: VIRTIO_MMIO_DEVICE_FEATURES_SEL, value: 1 })
    } else if s.step == 9 {
        (at(s, 10), InitAction::Read { offset: VIRTIO_MMIO_DEVICE_FEATURES })
    } else if s.step == 10 {
        if v & FEATURE_HI_VERSION_1 == 0 || s.feat_lo & FEATURE_LO_NET_MAC == 0 {
            refuse(s)
        } else {
            (at(s, 11), InitAction::Write { offset: VIRTIO_MMIO_DRIVER_FEATURES_SEL, value: 0 })
        }
    } else if s.step == 11 {
        (at(s, 12), InitAction::Write { offset: VIRTIO_MMIO_DRIVER_FEATURES, value: FEATURE_LO_NET_MAC })
    } else if s.step == 12 {
        (at(s, 13), InitAction::Write { offset: VIRTIO_MMIO_DRIVER_FEATURES_SEL, value: 1 })
    } else if s.step == 13 {
        (at(s, 14), InitAction::Write { offset: VIRTIO_MMIO_DRIVER_FEATURES, value: FEATURE_HI_VERSION_1 })
    } else if s.step == 14 {
        (at(s, 15), InitAction::Write { offset: VIRTIO_MMIO_STATUS, value: fok })
    } else if s.step == 15 {
        (at(s, 16), InitAction::Read { offset: VIRTIO_MMIO_STATUS })
    } else if s.step == 16 {
        if v & VIRTIO_STATUS_FEATURES_OK == 0 { refuse(s) } else { (at(s, 17), InitAction::AttachQueues) }
    } else if s.step == 17 {
        (at(s, 18), InitAction::PopulateRx)
    } else if s.step == 18 {
        (at(s, 19), InitAction::Write { offset: VIRTIO_MMIO_STATUS, value: dok })
    } else if s.step == 19 {
        (at(s, 20), InitAction::Read { offset: VIRTIO_MMIO_CONFIG })
    } else if s.step == 20 {
        (VirtioInit { step: 21, mac01: v, ..s }, InitAction::Read { offset: VIRTIO_MMIO_CONFIG_MAC_HI })
    } else if s.step == 21 {
        (at(s, INIT_DONE), InitAction::Done { mac01: s.mac01, mac23: v })
    } else {
        refuse(s)
    }
}

impl VirtioInit {
    /// The sequence at its start.
    pub fn new() -> (r: Self)
        ensures
            r == init_start(),
    {
        VirtioInit { step: 0, feat_lo: 0, mac01: 0 }
    }
}

/// Advance the init sequence by one step; `v` is the value of the
/// register read the previous step asked for (ignored otherwise).
pub fn init_step(s: VirtioInit, v: u32) -> (r: (VirtioInit, InitAction))
    ensures
        r == init_next(s, v),
{
    let ack = VIRTIO_STATUS_ACKNOWLEDGE;
    let drv = VIRTIO_STATUS_ACKNOWLEDGE | VIRTIO_STATUS_DRIVER;
    let fok = VIRTIO_STATUS_ACKNOWLEDGE | VIRTIO_STATUS_DRIVER | VIRTIO_STATUS_FEATURES_OK;
    let dok = VIRTIO_STATUS_ACKNOWLEDGE | VIRTIO_STATUS_DRIVER | VIRTIO_STATUS_FEATURES_OK
        | VIRTIO_STATUS_DRIVER_OK;
    let fail = (VirtioInit { step: INIT_FAILED, ..s }, InitAction::Fail);
    match s.step {
        0 => (VirtioInit { step: 1, ..s }, InitAction::Read { offset: VIRTIO_MMIO_MAGIC_VALUE }),
        1 => if v != VIRTIO_MAGIC {
            fail
        } else {
            (VirtioInit { step: 2, ..s }, InitAction::Read { offset: VIRTIO_MMIO_VERSION })
        },
        2 => if v != VIRTIO_VERSION_MODERN {
            fail
        } else {
            (VirtioInit { step: 3, ..s }, InitAction::Read { offset: VIRTIO_MMIO_DEVICE_ID })
        },
        3 => if v != VIRTIO_DEVICE_ID_NET {
            fail
        } else {
            (VirtioInit { step: 4, ..s }, InitAction::Write { offset: VIRTIO_MMIO_STATUS, value: 0 })
        },
        4 => (VirtioInit { step: 5, ..s }, InitAction::Write { offset: VIRTIO_MMIO_STATUS, value: ack }),
        5 => (VirtioInit { step: 6, ..s }, InitAction::Write { offset: VIRTIO_MMIO_STATUS, value: drv }),
        6 => (VirtioInit { step: 7, ..s }, InitAction::Write { offset: VIRTIO_MMIO_DEVICE_FEATURES_SEL, value: 0 }),
        7 => (VirtioInit { step: 8, ..s }, InitAction::Read { offset: VIRTIO_MMIO_DEVICE_FEATURES }),
        8 => (
            VirtioInit { step: 9, feat_lo: v, ..s },
            InitAction::Write { offset: VIRTIO_MMIO_DEVICE_FEATURES_SEL, value: 1 },
        ),
        9 => (VirtioInit { step: 10, ..s }, InitAction::Read { offset: VIRTIO_MMIO_DEVICE_FEATURES }),
        10 => if v & FEATURE_HI_VERSION_1 == 0 || s.feat_lo & FEATURE_LO_NET_MAC == 0 {
            fail
        } else {
            (VirtioInit { step: 11, ..s }, InitAction::Write { offset: VIRTIO_MMIO_DRIVER_FEATURES_SEL, value: 0 })
        },
        11 => (
            VirtioInit { step: 12, ..s },
            InitAction::Write { offset: VIRTIO_MMIO_DRIVER_FEATURES, value: FEATURE_LO_NET_MAC },
        ),
        12 => (VirtioInit { step: 13, ..s }, InitAction::Write { offset: VIRTIO_MMIO_DRIVER_FEATURES_SEL, value: 1 }),
        13 => (
            VirtioInit { step: 14, ..s },
            InitAction::Write { offset: VIRTIO_MMIO_DRIVER_FEATURES, value: FEATURE_HI_VERSION_1 },
        ),
        14 => (VirtioInit { step: 15, ..s }, InitAction::Write { offset: VIRTIO_MMIO_STATUS, value: fok }),
        15 => (VirtioInit { step: 16, ..s }, InitAction::Read { offset: VIRTIO_MMIO_STATUS }),
        16 => if v & VIRTIO_STATUS_FEATURES_OK == 0 {
            fail
        } else {
            (VirtioInit { step: 17, ..s }, InitAction::AttachQueues)
        },
        17 => (VirtioInit { step: 18, ..s }, InitAction::PopulateRx),
        18 => (VirtioInit { step: 19, ..s }, InitAction::Write { offset: VIRTIO_MMIO_STATUS, value: dok }),
        19 => (VirtioInit { step: 20, ..s }, InitAction::Read { offset: VIRTIO_MMIO_CONFIG }),
        20 => (VirtioInit { step: 21, mac01: v, ..s }, InitAction::Read { offset: VIRTIO_MMIO_CONFIG_MAC_HI }),
        21 => (VirtioInit { step: INIT_DONE, ..s }, InitAction::Done { mac01: s.mac01, mac23: v }),
        _ => fail,
    }
}

/// The six MAC bytes held in configuration words `mac01` (bytes 0..4)
/// and `mac23` (bytes 4..6 in its low half), least significant first.
pub open spec fn mac_of(mac01: u32, mac23: u32) -> Seq<u8> {
    seq![
        (mac01 % 256) as u8,
        ((mac01 / 256) % 256) as u8,
        ((mac01 / 65536) % 256) as u8,
        ((mac01 / 16777216) % 256) as u8,
        (mac23 % 256) as u8,
        ((mac23 / 256) % 256) as u8,
    ]
}

/// The MAC bytes of configuration words `mac01` and `mac23`.
pub fn mac_bytes(mac01: u32, mac23: u32) -> (r: [u8; 6])
    ensures
        r@ == mac_of(mac01, mac23),
{
    assert((mac01 & 0xFF) == mac01 % 256 && ((mac01 >> 8) & 0xFF) == (mac01 / 256) % 256
        && ((mac01 >> 16) & 0xFF) == (mac01 / 65536) % 256 && ((mac01 >> 24) & 0xFF) == (mac01 / 16777216) % 256
        && (mac23 & 0xFF) == mac23 % 256 && ((mac23 >> 8) & 0xFF) == (mac23 / 256) % 256) by (bit_vector);
    let r: [u8; 6] = [
        (mac01 & 0xFF) as u8,
        ((mac01 >> 8) & 0xFF) as u8,
        ((mac01 >> 16) & 0xFF) as u8,
        ((mac01 >> 24) & 0xFF) as u8,
        (mac23 & 0xFF) as u8,
        ((mac23 >> 8) & 0xFF) as u8,
    ];
    assert(r@ =~= mac_of(mac01, mac23));
    r
}

/// Pack a MAC into the `(mac_low, mac_high)` words of
/// `wari::nic_set_mac`: bytes 0..4 little-endian, then bytes 4..6.
pub fn pack_mac(mac: &[u8; 6]) -> (r: (u32, u32))
    ensures
        r.0 == mac@[0] + mac@[1] * 256 + mac@[2] * 65536 + mac@[3] * 16777216,
        r.1 == mac@[4] + mac@[5] * 256,
{
    let (b0, b1, b2, b3, b4, b5) = (mac[0], mac[1], mac[2], mac[3], mac[4], mac[5]);
    assert((b0 as u32) | ((b1 as u32) << 8) | ((b2 as u32) << 16) | ((b3 as u32) << 24)
        == b0 + b1 * 256 + b2 * 65536 + b3 * 16777216) by (bit_vector);
    assert((b4 as u32) | ((b5 as u32) << 8) == b4 + b5 * 256) by (bit_vector);
    let lo = (b0 as u32) | ((b1 as u32) << 8) | ((b2 as u32) << 16) | ((b3 as u32) << 24);
    let hi = (b4 as u32) | ((b5 as u32) << 8);
    (lo, hi)
}

/// The words a MAC is packed into unpack to the same MAC: what the
/// driver hands `wari::nic_set_mac` is what the kernel records.
pub proof fn lemma_mac_round_trip(mac: Seq<u8>)
    requires
        mac.len() == 6,
    ensures
        mac_of(
            (mac[0] + mac[1] * 256 + mac[2] * 65536 + mac[3] * 16777216) as u32,
            (mac[4] + mac[5] * 256) as u32,
        ) == mac,
{
    let (b0, b1, b2, b3, b4, b5) = (mac[0], mac[1], mac[2], mac[3], mac[4], mac[5]);
    let lo = (b0 + b1 * 256 + b2 * 65536 + b3 * 16777216) as u32;
    let hi = (b4 + b5 * 256) as u32;
    assert(lo % 256 == b0 && (lo / 256) % 256 == b1 && (lo / 65536) % 256 == b2 && (lo / 16777216) % 256 == b3)
        by (nonlinear_arith)
        requires
            b0 < 256 && b1 < 256 && b2 < 256 && b3 < 256,
            lo == b0 + b1 * 256 + b2 * 65536 + b3 * 16777216,
    ;
    assert(hi % 256 == b4 && (hi / 256) % 256 == b5) by (nonlinear_arith)
        requires
            b4 < 256 && b5 < 256,
            hi == b4 + b5 * 256,
    ;
    assert(mac_of(lo, hi) =~= mac);
}

/// Reading a MAC from the configuration words and packing it gives the
/// first word and the low half of the second.
pub proof fn lemma_config_words_pack(mac01: u32, mac23: u32)
    ensures
        ({
            let m = mac_of(mac01, mac23);
            &&& m[0] + m[1] * 256 + m[2] * 65536 + m[3] * 16777216 == mac01
            &&& m[4] + m[5] * 256 == mac23 % 65536
        }),
{
    let m = mac_of(mac01, mac23);
    assert(m[0] + m[1] * 256 + m[2] * 65536 + m[3] * 16777216 == mac01) by (nonlinear_arith)
        requires
            m[0] == mac01 % 256,
            m[1] == (mac01 / 256) % 256,
            m[2] == (mac01 / 65536) % 256,
            m[3] == (mac01 / 16777216) % 256,
            mac01 < 0x1_0000_0000,
    ;
    assert(m[4] + m[5] * 256 == mac23 % 65536) by (nonlinear_arith)
        requires
            m[4] == mac23 % 256,
            m[5] == (mac23 / 256) % 256,
    ;
}


/// Ordering of the init sequence: DRIVER_OK is written only from the
/// step after the receive buffers were posted, which follows attaching
/// the queues, which follows reading FEATURES_OK back set; the driver
/// only ever accepts the VERSION_1 and MAC features; and a finished or
/// refused sequence stays refused.
pub proof fn lemma_init_order(s: VirtioInit, v: u32)
    ensures
        ({
            let (n, a) = init_next(s, v);
            &&& a matches InitAction::Write { offset, value } ==> (offset == VIRTIO_MMIO_STATUS
                && value & VIRTIO_STATUS_DRIVER_OK != 0 ==> s.step == 18)
            &&& n.step == 18 ==> s.step == 17 && a == InitAction::PopulateRx
            &&& n.step == 17 ==> s.step == 16 && v & VIRTIO_STATUS_FEATURES_OK != 0
                && a == InitAction::AttachQueues
            &&& a matches InitAction::Write { offset, value } ==> (offset == VIRTIO_MMIO_DRIVER_FEATURES
                ==> value == FEATURE_LO_NET_MAC || value == FEATURE_HI_VERSION_1)
            &&& (a is Done) ==> s.step == 21
            &&& s.step >= INIT_DONE ==> a == InitAction::Fail && n.step == INIT_FAILED
        }),
{
    assert(0u32 & VIRTIO_STATUS_DRIVER_OK == 0 && VIRTIO_STATUS_ACKNOWLEDGE & VIRTIO_STATUS_DRIVER_OK == 0
        && (VIRTIO_STATUS_ACKNOWLEDGE | VIRTIO_STATUS_DRIVER) & VIRTIO_STATUS_DRIVER_OK == 0
        && (VIRTIO_STATUS_ACKNOWLEDGE | VIRTIO_STATUS_DRIVER | VIRTIO_STATUS_FEATURES_OK)
        & VIRTIO_STATUS_DRIVER_OK == 0) by (bit_vector);
}


/// Run the sequence from `s`, feeding step `i` the value `vs[i]`: the
/// final state and the actions taken, in order.
pub open spec fn init_run(s: VirtioInit, vs: Seq<u32>) -> (VirtioInit, Seq<InitAction>)
    decreases vs.len(),
{
    if vs.len() == 0 {
        (s, Seq::empty())
    } else {
        let (n, a) = init_next(s, vs[0]);
        let (f, rest) = init_run(n, vs.drop_first());
        (f, seq![a] + rest)
    }
}

/// What a healthy network device answers, step by step: the magic,
/// version 2, device id 1, feature words `feat_lo` and `feat_hi`, the
/// status read back after FEATURES_OK, and the two configuration words
/// (0 where the step reads nothing).
pub open spec fn device_answers(feat_lo: u32, feat_hi: u32, status: u32, mac01: u32, mac23: u32) -> Seq<u32> {
    seq![
        0u32, VIRTIO_MAGIC, VIRTIO_VERSION_MODERN, VIRTIO_DEVICE_ID_NET, 0u32, 0u32, 0u32, 0u32,
        feat_lo, 0u32, feat_hi, 0u32, 0u32, 0u32, 0u32, 0u32, status, 0u32, 0u32, 0u32, mac01,
        mac23,
    ]
}

/// The whole initialisation of a device, in order: check magic, version
/// and device id; reset the status; ACKNOWLEDGE; DRIVER; read both
/// feature words; accept exactly MAC and VERSION_1; FEATURES_OK and read
/// it back; attach the queues; post the receive buffers; DRIVER_OK; read
/// the MAC.
pub open spec fn init_actions(mac01: u32, mac23: u32) -> Seq<InitAction> {
    let ack = VIRTIO_STATUS_ACKNOWLEDGE;
    let drv = VIRTIO_STATUS_ACKNOWLEDGE | VIRTIO_STATUS_DRIVER;
    let fok = VIRTIO_STATUS_ACKNOWLEDGE | VIRTIO_STATUS_DRIVER | VIRTIO_STATUS_FEATURES_OK;
    let dok = VIRTIO_STATUS_ACKNOWLEDGE | VIRTIO_STATUS_DRIVER | VIRTIO_STATUS_FEATURES_OK
        | VIRTIO_STATUS_DRIVER_OK;
    seq![
        InitAction::Read { offset: VIRTIO_MMIO_MAGIC_VALUE },
        InitAction::Read { offset: VIRTIO_MMIO_VERSION },
        InitAction::Read { offset: VIRTIO_MMIO_DEVICE_ID },
        InitAction::Write { offset: VIRTIO_MMIO_STATUS, value: 0 },
        InitAction::Write { offset: VIRTIO_MMIO_STATUS, value: ack },
        InitAction::Write { offset: VIRTIO_MMIO_STATUS, value: drv },
        InitAction::Write { offset: VIRTIO_MMIO_DEVICE_FEATURES_SEL, value: 0 },
        InitAction::Read { offset: VIRTIO_MMIO_DEVICE_FEATURES },
        InitAction::Write { offset: VIRTIO_MMIO_DEVICE_FEATURES_SEL, value: 1 },
        InitAction::Read { offset: VIRTIO_MMIO_DEVICE_FEATURES },
        InitAction::Write { offset: VIRTIO_MMIO_DRIVER_FEATURES_SEL, value: 0 },
        InitAction::Write { offset: VIRTIO_MMIO_DRIVER_FEATURES, value: FEATURE_LO_NET_MAC },
        InitAction::Write { offset: VIRTIO_MMIO_DRIVER_FEATURES_SEL, value: 1 },
        InitAction::Write { offset: VIRTIO_MMIO_DRIVER_FEATURES, value: FEATURE_HI_VERSION_1 },
        InitAction::Write { offset: VIRTIO_MMIO_STATUS, value: fok },
        InitAction::Read { offset: VIRTIO_MMIO_STATUS },
        InitAction::AttachQueues,
        InitAction::PopulateRx,
        InitAction::Write { offset: VIRTIO_MMIO_STATUS, value: dok },
        InitAction::Read { offset: VIRTIO_MMIO_CONFIG },
        InitAction::Read { offset: VIRTIO_MMIO_CONFIG_MAC_HI },
        InitAction::Done { mac01, mac23 },
    ]
}

/// A healthy network device that offers MAC and VERSION_1 and keeps
/// FEATURES_OK is driven through exactly the whole initialisation and
/// ends live, with the MAC it reports.
pub proof fn lemma_init_sequence(feat_lo: u32, feat_hi: u32, status: u32, mac01: u32, mac23: u32)
    requires
        feat_lo & FEATURE_LO_NET_MAC != 0,
        feat_hi & FEATURE_HI_VERSION_1 != 0,
        status & VIRTIO_STATUS_FEATURES_OK != 0,
    ensures
        init_run(init_start(), device_answers(feat_lo, feat_hi, status, mac01, mac23)) == (
        VirtioInit { step: INIT_DONE, feat_lo, mac01 }, init_actions(mac01, mac23)),
{
    let vs = device_answers(feat_lo, feat_hi, status, mac01, mac23);
    reveal_with_fuel(init_run, 23);
    assert(init_run(init_start(), vs).1 =~= init_actions(mac01, mac23));
}


/// A device is accepted only if it passed every check: when the
/// twenty-second action of a run from the start is `Done`, the device
/// answered the magic, version 2 and device id 1, offered MAC and
/// VERSION_1, and read FEATURES_OK back set.
pub proof fn lemma_accepted_only_if_checked(vs: Seq<u32>)
    requires
        vs.len() == 22,
        init_run(init_start(), vs).1[21] is Done,
    ensures
        vs[1] == VIRTIO_MAGIC,
        vs[2] == VIRTIO_VERSION_MODERN,
        vs[3] == VIRTIO_DEVICE_ID_NET,
        vs[8] & FEATURE_LO_NET_MAC != 0,
        vs[10] & FEATURE_HI_VERSION_1 != 0,
        vs[16] & VIRTIO_STATUS_FEATURES_OK != 0,
{
    reveal_with_fuel(init_run, 23);
}

} // verus!
