use wari::vf2::{
    an_poll, first_frame_desc, gmac0_reset_release, phy_intf_rgmii, phy_link_ready, swr_wait, AnPoll, AN_MAX_TRIES,
    SWR_MAX_TRIES, buf_pa, desc_pa32, mdio_cmd, mdio_data, mdio_poll, rx_find, rx_rearm, rx_ring_init, tx_publish, tx_slot, MdioPoll,
    VF2DmaRing, Vf2Cursors, RDES3_ARMED,
    RDES3_OWN, TDES3_FD, TDES3_LD, TDES3_OWN,
};

fn empty_ring() -> VF2DmaRing {
    VF2DmaRing { descs: [[0u32; 4]; 16] }
}

#[test]
fn rx_init_arms_every_descriptor() {
    let mut ring = empty_ring();
    rx_ring_init(&mut ring, 0x1_0000_2000);
    for i in 0..16usize {
        let bp = 0x1_0000_2000u64 + (i as u64) * 1536;
        assert_eq!(ring.descs[i], [bp as u32, 1, 0, RDES3_ARMED]);
    }
    assert_eq!(RDES3_ARMED, 0xC100_0000);
}

#[test]
fn rx_find_on_fully_owned_ring_finds_nothing() {
    let mut ring = empty_ring();
    rx_ring_init(&mut ring, 0x8000_0000);
    let mut cur = Vf2Cursors::new();
    cur.rx_next = 5;
    assert_eq!(rx_find(&ring, &mut cur), None);
    assert_eq!(cur.rx_next, 5);
}

#[test]
fn rx_find_scans_round_robin_from_cursor() {
    let mut ring = empty_ring();
    rx_ring_init(&mut ring, 0x8000_0000);
    // The engine released descriptors 2 and 12; descriptor 12 holds a
    // 60-byte frame, descriptor 2 a 100-byte one.
    ring.descs[2][3] = 100;
    ring.descs[12][3] = 0x0300_0000 | 60;
    let mut cur = Vf2Cursors::new();
    cur.rx_next = 10;
    assert_eq!(rx_find(&ring, &mut cur), Some((12, 60)));
    assert_eq!(cur.rx_next, 13);
    // Next scan wraps around to descriptor 2.
    assert_eq!(rx_find(&ring, &mut cur), Some((2, 100)));
    assert_eq!(cur.rx_next, 3);
}

#[test]
fn rx_find_wraps_cursor_after_last_descriptor() {
    let mut ring = empty_ring();
    rx_ring_init(&mut ring, 0x8000_0000);
    ring.descs[15][3] = 42;
    let mut cur = Vf2Cursors::new();
    cur.rx_next = 15;
    assert_eq!(rx_find(&ring, &mut cur), Some((15, 42)));
    assert_eq!(cur.rx_next, 0);
}

#[test]
fn rx_rearm_hands_descriptor_back() {
    let mut ring = empty_ring();
    ring.descs[3] = [1, 2, 3, 4];
    ring.descs[4] = [5, 6, 7, 8];
    rx_rearm(&mut ring, 3, 0x2_0000_0100);
    assert_eq!(ring.descs[3], [0x100, 2, 0, RDES3_ARMED]);
    assert_eq!(ring.descs[4], [5, 6, 7, 8]);
    assert!(ring.descs[3][3] & RDES3_OWN != 0);
}

#[test]
fn tx_slot_respects_dma_ownership() {
    let mut ring = empty_ring();
    let cur = Vf2Cursors::new();
    assert_eq!(tx_slot(&ring, &cur), Some(0));
    ring.descs[0][3] = TDES3_OWN;
    assert_eq!(tx_slot(&ring, &cur), None);
}

#[test]
fn tx_publish_builds_single_descriptor_frame() {
    let mut ring = empty_ring();
    let mut cur = Vf2Cursors::new();
    cur.tx_next = 15;
    let next = tx_publish(&mut ring, &mut cur, 15, 0x1_0000_4000, 64);
    assert_eq!(next, 0);
    assert_eq!(cur.tx_next, 0);
    assert_eq!(ring.descs[15], [0x4000, 1, 64, TDES3_OWN | TDES3_LD | TDES3_FD | 64]);
    assert_eq!(ring.descs[15][3], 0xB000_0040);
    assert_eq!(ring.descs[14], [0; 4]);
    // The slot just published is now the engine's.
    cur.tx_next = 15;
    assert_eq!(tx_slot(&ring, &cur), None);
}

#[test]
fn physical_addresses() {
    assert_eq!(buf_pa(0x8000_0000, 0x1000, 0), 0x8000_1000);
    assert_eq!(buf_pa(0x8000_0000, 0x1000, 2), 0x8000_1000 + 3072);
    assert_eq!(desc_pa32(0x1_8000_0000, 0x200, 3), 0x8000_0230);
}

fn original_cmd(phy: u32, reg: u32, goc: u32) -> u32 {
    1 | goc | (4 << 8) | ((reg & 0x1f) << 16) | ((phy & 0x1f) << 21)
}

#[test]
fn mdio_command_words() {
    assert_eq!(mdio_cmd(0, 1, false), 0x0001_040D);
    assert_eq!(mdio_cmd(0, 1, false), original_cmd(0, 1, 0b11 << 2));
    assert_eq!(mdio_cmd(3, 31, true), original_cmd(3, 31, 0b01 << 2));
    assert_eq!(mdio_cmd(0xFFFF_FFFF, 0xFFFF_FFFF, true), original_cmd(0xFFFF_FFFF, 0xFFFF_FFFF, 0b01 << 2));
}

#[test]
fn mdio_polling() {
    assert_eq!(mdio_poll(0x0001_040C, 5), MdioPoll::Done);
    assert_eq!(mdio_poll(0x0001_040D, 5), MdioPoll::Again { tries: 6 });
    assert_eq!(mdio_poll(1, 99_999), MdioPoll::Again { tries: 100_000 });
    assert_eq!(mdio_poll(1, 100_000), MdioPoll::TimedOut);
    assert_eq!(mdio_data(0xABCD_1234), 0x1234);
}

#[test]
fn link_already_up_is_not_renegotiated() {
    assert!(phy_link_ready(0x796D));
    assert!(!phy_link_ready(0x7949));
    assert!(!phy_link_ready(0x7929));
}

#[test]
fn negotiation_wait_settles_retries_and_gives_up() {
    assert_eq!(an_poll(0x796D, 7), AnPoll::Settled { status: 0x796D, tries: 7 });
    assert_eq!(an_poll(0x7949, 0), AnPoll::Again { tries: 1 });
    assert_eq!(an_poll(0x7949, AN_MAX_TRIES), AnPoll::GaveUp { status: 0x7949, tries: AN_MAX_TRIES + 1 });
}

#[test]
fn phy_interface_and_reset_words_keep_other_bits() {
    assert_eq!(phy_intf_rgmii(0xFFFF_FFFF), 0xFFE7_FFFF);
    assert_eq!(phy_intf_rgmii(0x0010_0000), 0x0004_0000);
    assert_eq!(gmac0_reset_release(0x7), 0x4);
    assert_eq!(gmac0_reset_release(0x3), 0x0);
}

#[test]
fn dma_reset_wait_stops_on_clear_or_budget() {
    assert!(swr_wait(0x1, 0));
    assert!(!swr_wait(0x0, 0));
    assert!(!swr_wait(0x1, SWR_MAX_TRIES));
}

#[test]
fn first_frame_descriptor_layout() {
    assert_eq!(first_frame_desc(0x1_2345_6780), [0x2345_6780, 0x1, 64, 0xB000_0040]);
}
