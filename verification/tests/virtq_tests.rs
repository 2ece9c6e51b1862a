use wari::virtq::{populate_rx, rx_pop, rx_recycle, tx_send, write_desc, RingCursors, VirtQueue};

fn fresh() -> (VirtQueue, RingCursors) {
    (
        VirtQueue { desc: [0; 128], avail: [0; 20], used: [0; 68] },
        RingCursors { rx_used_seen: 0, rx_avail_next: 0, tx_used_seen: 0 },
    )
}

#[test]
fn descriptor_layout_is_little_endian() {
    let (mut q, _) = fresh();
    write_desc(&mut q, 1, 0x1122_3344_5566_7788, 0xAABB_CCDD, 2, 7);
    assert_eq!(&q.desc[16..24], &0x1122_3344_5566_7788u64.to_le_bytes());
    assert_eq!(&q.desc[24..28], &0xAABB_CCDDu32.to_le_bytes());
    assert_eq!(&q.desc[28..30], &[2, 0]);
    assert_eq!(&q.desc[30..32], &[7, 0]);
    assert_eq!(&q.desc[0..16], &[0u8; 16]);
}

#[test]
fn populate_rx_hands_every_buffer_to_the_device() {
    let (mut q, mut c) = fresh();
    populate_rx(&mut q, &mut c, 0x8000_0000, 0x1000);
    for i in 0..8u64 {
        let o = (i as usize) * 16;
        let pa = 0x8000_0000u64 + 0x1000 + i * 1536;
        assert_eq!(&q.desc[o..o + 8], &pa.to_le_bytes());
        assert_eq!(&q.desc[o + 8..o + 12], &1536u32.to_le_bytes());
        assert_eq!(&q.desc[o + 12..o + 14], &[2, 0]);
        assert_eq!(u16::from_le_bytes([q.avail[4 + 2 * i as usize], q.avail[5 + 2 * i as usize]]), i as u16);
    }
    assert_eq!(u16::from_le_bytes([q.avail[2], q.avail[3]]), 8);
    assert_eq!(c.rx_avail_next, 8);
}

#[test]
fn rx_pop_reports_new_frames_only() {
    let (mut q, mut c) = fresh();
    assert_eq!(rx_pop(&q, &mut c, 0x1000), 0);
    q.used[2] = 1;
    q.used[4] = 3;
    q.used[8] = 60;
    let r = rx_pop(&q, &mut c, 0x1000);
    assert_eq!(r, (0x1000u64 + 3 * 1536) | (60u64 << 32));
    assert_eq!(c.rx_used_seen, 1);
    assert_eq!(rx_pop(&q, &mut c, 0x1000), 0);
    q.used[2] = 2;
    q.used[12] = 9;
    assert_eq!(rx_pop(&q, &mut c, 0x1000), 0);
    assert_eq!(c.rx_used_seen, 2);
}

#[test]
fn rx_recycle_appends_to_available_ring() {
    let (mut q, mut c) = fresh();
    populate_rx(&mut q, &mut c, 0, 0);
    assert_eq!(rx_recycle(&mut q, &mut c, 3, 0, 0), Ok(()));
    assert_eq!(u16::from_le_bytes([q.avail[4], q.avail[5]]), 3);
    assert_eq!(u16::from_le_bytes([q.avail[2], q.avail[3]]), 9);
    assert_eq!(c.rx_avail_next, 9);
    assert_eq!(rx_recycle(&mut q, &mut c, 8, 0, 0), Err(()));
}

#[test]
fn tx_send_publishes_descriptor_zero() {
    let (mut q, c) = fresh();
    assert_eq!(tx_send(&mut q, &c, 0x200, 100, 0x4000), Ok(()));
    assert_eq!(&q.desc[0..8], &0x4200u64.to_le_bytes());
    assert_eq!(&q.desc[8..12], &100u32.to_le_bytes());
    assert_eq!(u16::from_le_bytes([q.avail[6], q.avail[7]]), 0);
    assert_eq!(u16::from_le_bytes([q.avail[2], q.avail[3]]), 2);
    assert_eq!(tx_send(&mut q, &c, 0, 1537, 0), Err(()));
}
