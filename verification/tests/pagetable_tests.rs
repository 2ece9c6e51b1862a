use wari::error::KernelError;
use wari::pagetable::{
    build_kernel_tables, heap_pages, kernel_regions, make_satp, KernelLayout, PageTables, KERNEL_RO, KERNEL_RW,
    KERNEL_RX, PLIC_MMIO_BASE, UART_MMIO_BASE,
};

/// Walk the tables the way the MMU does for 4 KiB pages.
fn walk(pt: &PageTables, va: u64) -> Option<u64> {
    let e2 = pt.pages[0][((va >> 30) & 0x1ff) as usize];
    if e2 & 1 == 0 || e2 & 0xe != 0 {
        return None;
    }
    let t1 = ((e2 >> 10) - pt.pool_ppn) as usize;
    let e1 = pt.pages[t1][((va >> 21) & 0x1ff) as usize];
    if e1 & 1 == 0 || e1 & 0xe != 0 {
        return None;
    }
    let t0 = ((e1 >> 10) - pt.pool_ppn) as usize;
    let e0 = pt.pages[t0][((va >> 12) & 0x1ff) as usize];
    if e0 & 1 == 1 && e0 & 0xe != 0 {
        Some(e0)
    } else {
        None
    }
}

fn leaf(pa: u64, flags: u64) -> u64 {
    (pa >> 12) << 10 | flags | 1
}

#[test]
fn new_tables_need_a_page() {
    assert!(matches!(PageTables::new(0x80000, 0), Err(KernelError::OutOfPages)));
    let pt = PageTables::new(0x80000, 4).unwrap();
    assert_eq!(pt.pages.len(), 1);
    assert_eq!(walk(&pt, 0x8020_0000), None);
}

#[test]
fn map_page_creates_two_tables_then_reuses_them() {
    let mut pt = PageTables::new(0x80000, 8).unwrap();
    assert_eq!(pt.map_page(0x8020_0000, 0x8020_0000, KERNEL_RW), Ok(()));
    assert_eq!(pt.pages.len(), 3);
    assert_eq!(walk(&pt, 0x8020_0000), Some(leaf(0x8020_0000, KERNEL_RW)));
    assert_eq!(walk(&pt, 0x8020_0fff), Some(leaf(0x8020_0000, KERNEL_RW)));
    assert_eq!(walk(&pt, 0x8020_1000), None);
    assert_eq!(pt.map_page(0x8020_1000, 0x9000_0000, KERNEL_RO), Ok(()));
    assert_eq!(pt.pages.len(), 3);
    assert_eq!(walk(&pt, 0x8020_1000), Some(leaf(0x9000_0000, KERNEL_RO)));
    assert_eq!(walk(&pt, 0x8020_0000), Some(leaf(0x8020_0000, KERNEL_RW)));
}

#[test]
fn map_page_out_of_pages_changes_nothing_visible() {
    let mut pt = PageTables::new(0x80000, 2).unwrap();
    assert_eq!(pt.map_page(0x8020_0000, 0x8020_0000, KERNEL_RW), Err(KernelError::OutOfPages));
    assert_eq!(walk(&pt, 0x8020_0000), None);
}

#[test]
fn map_page_refuses_superpage_in_the_way() {
    let mut pt = PageTables::new(0x80000, 8).unwrap();
    // A 1 GiB leaf at the root entry of 0x8000_0000.
    pt.pages[0][2] = leaf(0x8000_0000, KERNEL_RW);
    assert_eq!(pt.map_page(0x8020_0000, 0x8020_0000, KERNEL_RW), Err(KernelError::InvalidArgument));
    assert_eq!(pt.pages.len(), 1);
}

#[test]
fn map_range_identity_maps_aligned_span() {
    let mut pt = PageTables::new(0x80000, 16).unwrap();
    assert_eq!(pt.map_range(0x8020_0800, 0x8020_2001, KERNEL_RX), Ok(()));
    for page in [0x8020_0000u64, 0x8020_1000, 0x8020_2000] {
        assert_eq!(walk(&pt, page + 0x123), Some(leaf(page, KERNEL_RX)));
    }
    assert_eq!(walk(&pt, 0x8020_3000), None);
    assert_eq!(walk(&pt, 0x801f_f000), None);
    // An empty range maps nothing.
    assert_eq!(pt.map_range(0x9000_0000, 0x9000_0000, KERNEL_RX), Ok(()));
    assert_eq!(walk(&pt, 0x9000_0000), None);
}

#[test]
fn heap_pool_checks() {
    assert_eq!(heap_pages(0x8040_0000, 0x8040_0000), Err(KernelError::InvalidArgument));
    assert_eq!(heap_pages(0x8040_0001, 0x8050_0000), Err(KernelError::InvalidArgument));
    assert_eq!(heap_pages(0x8040_0000, 0x8040_0800), Err(KernelError::OutOfPages));
    assert_eq!(heap_pages(0x8040_0000, 0x8040_3000), Ok(3));
}

#[test]
fn satp_value() {
    assert_eq!(make_satp(0x80400, 0), 0x8000_0000_0008_0400);
    assert_eq!(make_satp(0x80400, 1), 0x8000_1000_0008_0400);
}

fn layout() -> KernelLayout {
    KernelLayout {
        text: (0x8020_0000, 0x8020_3000),
        rodata: (0x8020_3000, 0x8020_4000),
        data: (0x8020_4000, 0x8020_5000),
        bss: (0x8020_5000, 0x8020_6000),
        stack: (0x8020_6000, 0x8021_6000),
        heap: (0x8040_0000, 0x8080_0000),
        runtime_heap: (0x8080_0000, 0x8090_0000),
    }
}

#[test]
fn kernel_tables_map_every_region() {
    let l = layout();
    assert_eq!(kernel_regions(&l).len(), 10);
    let (pt, satp) = build_kernel_tables(&l).unwrap();
    assert_eq!(satp, 0x8000_0000_0008_0400);
    assert_eq!(walk(&pt, 0x8020_1000), Some(leaf(0x8020_1000, KERNEL_RX)));
    assert_eq!(walk(&pt, 0x8020_3000), Some(leaf(0x8020_3000, KERNEL_RO)));
    assert_eq!(walk(&pt, 0x8020_4abc), Some(leaf(0x8020_4000, KERNEL_RW)));
    assert_eq!(walk(&pt, 0x8041_0000), Some(leaf(0x8041_0000, KERNEL_RW)));
    assert_eq!(walk(&pt, UART_MMIO_BASE + 5), Some(leaf(UART_MMIO_BASE, KERNEL_RW)));
    assert_eq!(walk(&pt, PLIC_MMIO_BASE + 0x20_0000), Some(leaf(PLIC_MMIO_BASE + 0x20_0000, KERNEL_RW)));
    assert_eq!(walk(&pt, 0x1000_1000 + 0x7fff), Some(leaf(0x1000_8000, KERNEL_RW)));
    assert_eq!(walk(&pt, 0x1000_9000), None);
    assert_eq!(walk(&pt, 0x8030_0000), None);
}

#[test]
fn kernel_tables_reject_bad_pool() {
    let mut l = layout();
    l.heap = (0x8040_0000, 0x8040_0000);
    assert!(matches!(build_kernel_tables(&l), Err(KernelError::InvalidArgument)));
    l.heap = (0x8040_0000, 0x8040_2000);
    assert!(matches!(build_kernel_tables(&l), Err(KernelError::OutOfPages)));
}
