use wari::vf2_bringup::{vf2_step, Vf2Bringup, Vf2Layout, Vf2Op, DMA_BUS_MODE};

fn layout() -> Vf2Layout {
    Vf2Layout { tx_ring_pa: 0x1_4000_0000, rx_ring_pa: 0x1_4000_0100 }
}

/// Drive the bring-up against a board answering reads with `answer`.
fn drive(answer: impl Fn(&Vf2Op, usize) -> u32) -> Vec<Vf2Op> {
    let mut s = Vf2Bringup::new(layout());
    let mut v = 0u32;
    let mut ops = Vec::new();
    for n in 0..2_000_000usize {
        let (next, op) = vf2_step(s, v);
        s = next;
        v = answer(&op, n);
        ops.push(op);
        if op == Vf2Op::Done {
            break;
        }
    }
    ops
}

fn warm_board(op: &Vf2Op, _: usize) -> u32 {
    match op {
        Vf2Op::PhyRead { .. } => 0x796D,
        Vf2Op::Read { addr } if *addr == DMA_BUS_MODE => 0,
        Vf2Op::Read { .. } => 0x8000_0000,
        _ => 0,
    }
}

#[test]
fn warm_board_runs_the_whole_bringup_once() {
    let ops = drive(warm_board);
    assert_eq!(ops.len(), 50);
    assert_eq!(ops[0], Vf2Op::Write { addr: 0x1700_0008, value: 0x8000_0000 });
    assert_eq!(ops[3], Vf2Op::Write { addr: 0x1700_0038, value: 0x8000_0000 });
    assert_eq!(ops[9], Vf2Op::Write { addr: 0x1701_000C, value: 0x8004_0000 });
    assert_eq!(ops[18], Vf2Op::Write { addr: 0x1603_1110, value: 0x1 });
    assert_eq!(ops[19], Vf2Op::Write { addr: 0x1603_1114, value: 0x4000_0000 });
    assert_eq!(ops[28], Vf2Op::Write { addr: 0x1603_1120, value: 0x4000_0010 });
    assert_eq!(ops[31], Vf2Op::Write { addr: 0x1603_1128, value: 0x4000_0200 });
    assert!(!ops.iter().any(|o| matches!(o, Vf2Op::PhyWrite { .. })));
    assert_eq!(*ops.last().unwrap(), Vf2Op::Done);
}

#[test]
fn link_down_restarts_negotiation_and_polls() {
    let ops = drive(|op, n| match op {
        Vf2Op::PhyRead { .. } => if n < 10 { 0x7949 } else { 0x796D },
        _ => warm_board(op, n),
    });
    assert_eq!(ops[5], Vf2Op::PhyWrite { reg: 0, value: 0x1200 });
    assert!(ops[6..10].iter().all(|o| *o == Vf2Op::PhyRead { reg: 1 }));
    assert_eq!(*ops.last().unwrap(), Vf2Op::Done);
}

#[test]
fn stuck_dma_reset_is_cleared_by_writing() {
    let ops = drive(|op, n| match op {
        Vf2Op::Read { addr } if *addr == DMA_BUS_MODE => 0x1,
        _ => warm_board(op, n),
    });
    assert!(ops.contains(&Vf2Op::Write { addr: DMA_BUS_MODE, value: 0x0 }));
    assert!(ops.contains(&Vf2Op::Write { addr: DMA_BUS_MODE, value: 0x1 }));
    assert_eq!(*ops.last().unwrap(), Vf2Op::Done);
}
