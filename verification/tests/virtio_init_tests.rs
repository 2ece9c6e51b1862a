use wari::cap::boot::{init_root_caps, PROC_ID_TIER2_NET};
use wari::cap::storage::CapSystem;
use wari::cap::syscall::nic_set_mac_impl;
use wari::virtio::{
    init_step, mac_bytes, pack_mac, InitAction, VirtioInit, INIT_DONE, INIT_FAILED, VIRTIO_MAGIC,
    VIRTIO_MMIO_CONFIG, VIRTIO_MMIO_CONFIG_MAC_HI, VIRTIO_MMIO_DEVICE_FEATURES, VIRTIO_MMIO_DEVICE_ID,
    VIRTIO_MMIO_DRIVER_FEATURES, VIRTIO_MMIO_STATUS, VIRTIO_MMIO_VERSION,
};

/// A register file standing for the device: answers reads, records writes.
struct FakeDevice {
    magic: u32,
    version: u32,
    device_id: u32,
    feat: [u32; 2],
    feat_sel: u32,
    status: u32,
    keep_features_ok: bool,
    config: [u32; 2],
    writes: Vec<(u32, u32)>,
}

impl FakeDevice {
    fn good() -> Self {
        FakeDevice {
            magic: VIRTIO_MAGIC,
            version: 2,
            device_id: 1,
            feat: [0x0000_0020 | 0x0001_0000, 0x1],
            feat_sel: 0,
            status: 0,
            keep_features_ok: true,
            config: [0x3412_5452, 0x5600_0056],
            writes: Vec::new(),
        }
    }

    fn read(&self, off: u32) -> u32 {
        match off {
            0x000 => self.magic,
            0x004 => self.version,
            0x008 => self.device_id,
            0x010 => self.feat[self.feat_sel as usize],
            0x070 => self.status,
            0x100 => self.config[0],
            0x104 => self.config[1],
            _ => 0,
        }
    }

    fn write(&mut self, off: u32, val: u32) {
        self.writes.push((off, val));
        match off {
            0x014 => self.feat_sel = val,
            0x070 => self.status = if self.keep_features_ok { val } else { val & !0x08 },
            _ => {}
        }
    }
}

/// Run the init sequence against `dev`; returns the final action and
/// the work actions seen.
fn run(dev: &mut FakeDevice) -> (InitAction, Vec<InitAction>) {
    let mut s = VirtioInit::new();
    let mut v = 0u32;
    let mut work = Vec::new();
    for _ in 0..64 {
        let (n, a) = init_step(s, v);
        s = n;
        match a {
            InitAction::Read { offset } => v = dev.read(offset),
            InitAction::Write { offset, value } => dev.write(offset, value),
            InitAction::AttachQueues | InitAction::PopulateRx => work.push(a),
            InitAction::Done { .. } => {
                assert_eq!(s.step, INIT_DONE);
                return (a, work);
            }
            InitAction::Fail => {
                assert_eq!(s.step, INIT_FAILED);
                return (a, work);
            }
        }
    }
    panic!("init sequence did not end");
}

#[test]
fn good_device_initialises_and_reports_mac() {
    let mut dev = FakeDevice::good();
    let (end, work) = run(&mut dev);
    assert_eq!(end, InitAction::Done { mac01: 0x3412_5452, mac23: 0x5600_0056 });
    assert_eq!(work, vec![InitAction::AttachQueues, InitAction::PopulateRx]);
    let status_writes: Vec<u32> =
        dev.writes.iter().filter(|(o, _)| *o == VIRTIO_MMIO_STATUS).map(|(_, v)| *v).collect();
    assert_eq!(status_writes, vec![0, 1, 3, 0x0B, 0x0F]);
    let feature_writes: Vec<u32> =
        dev.writes.iter().filter(|(o, _)| *o == VIRTIO_MMIO_DRIVER_FEATURES).map(|(_, v)| *v).collect();
    assert_eq!(feature_writes, vec![0x20, 0x1]);
    assert_eq!(mac_bytes(0x3412_5452, 0x5600_0056), [0x52, 0x54, 0x12, 0x34, 0x56, 0x00]);
}

#[test]
fn wrong_magic_is_refused_before_any_write() {
    let mut dev = FakeDevice::good();
    dev.magic = 0;
    assert_eq!(run(&mut dev).0, InitAction::Fail);
    assert!(dev.writes.is_empty());
}

#[test]
fn legacy_or_non_net_device_is_refused() {
    let mut dev = FakeDevice::good();
    dev.version = 1;
    assert_eq!(run(&mut dev).0, InitAction::Fail);
    let mut dev = FakeDevice::good();
    dev.device_id = 2;
    assert_eq!(run(&mut dev).0, InitAction::Fail);
    assert!(dev.writes.is_empty());
}

#[test]
fn missing_features_are_refused() {
    let mut dev = FakeDevice::good();
    dev.feat[1] = 0;
    assert_eq!(run(&mut dev).0, InitAction::Fail);
    let mut dev = FakeDevice::good();
    dev.feat[0] = 0xFFFF_FFDF;
    let (end, work) = run(&mut dev);
    assert_eq!(end, InitAction::Fail);
    assert!(work.is_empty());
    assert!(!dev.writes.iter().any(|(o, _)| *o == VIRTIO_MMIO_DRIVER_FEATURES));
}

#[test]
fn features_ok_cleared_by_device_is_refused() {
    let mut dev = FakeDevice::good();
    dev.keep_features_ok = false;
    let (end, work) = run(&mut dev);
    assert_eq!(end, InitAction::Fail);
    assert!(work.is_empty());
    assert!(!dev.writes.iter().any(|(o, v)| *o == VIRTIO_MMIO_STATUS && v & 0x04 != 0));
}

#[test]
fn init_reads_expected_registers_in_order() {
    let s = VirtioInit::new();
    let (s, a) = init_step(s, 0);
    assert_eq!(a, InitAction::Read { offset: 0 });
    let (s, a) = init_step(s, VIRTIO_MAGIC);
    assert_eq!(a, InitAction::Read { offset: VIRTIO_MMIO_VERSION });
    let (_, a) = init_step(s, 2);
    assert_eq!(a, InitAction::Read { offset: VIRTIO_MMIO_DEVICE_ID });
    let done = VirtioInit { step: 21, feat_lo: 0, mac01: 7 };
    assert_eq!(init_step(done, 9).1, InitAction::Done { mac01: 7, mac23: 9 });
    let finished = VirtioInit { step: INIT_DONE, feat_lo: 0, mac01: 0 };
    assert_eq!(init_step(finished, 0), (VirtioInit { step: INIT_FAILED, feat_lo: 0, mac01: 0 }, InitAction::Fail));
    assert_eq!(VIRTIO_MMIO_DEVICE_FEATURES, 0x10);
    assert_eq!(VIRTIO_MMIO_CONFIG, 0x100);
    assert_eq!(VIRTIO_MMIO_CONFIG_MAC_HI, 0x104);
}

#[test]
fn pack_mac_words() {
    assert_eq!(pack_mac(&[0x52, 0x54, 0x00, 0x12, 0x34, 0x56]), (0x1200_5452, 0x5634));
    assert_eq!(pack_mac(&[0xff; 6]), (0xFFFF_FFFF, 0xFFFF));
}

#[test]
fn packed_mac_is_recorded_by_kernel() {
    let mut sys = CapSystem::new();
    assert_eq!(init_root_caps(&mut sys, 0), Ok(0));
    let mac = [0x52, 0x54, 0x00, 0x12, 0x34, 0x56];
    let (lo, hi) = pack_mac(&mac);
    assert_eq!(nic_set_mac_impl(&mut sys, PROC_ID_TIER2_NET, lo, hi), 0);
    let net = sys.pools.nets.get(0).unwrap();
    assert_eq!(net.mac, mac);
    assert!(net.initialized);
}
