//! A device on a simulated card.

use core::time::Duration;
use ixgbe_driver::descriptor::AdvancedTxDescriptor;
use ixgbe_driver::init::Stage;
use ixgbe_driver::interrupts::Interrupts;
use ixgbe_driver::io::{Command, Event, IoOp, Sequence};
use ixgbe_driver::memory::{Dma, Packet};
use ixgbe_driver::ring::{IxgbeTxQueue, RxWriteback};
use ixgbe_driver::{
    alloc_pkt, IxgbeDevice, IxgbeError, IxgbeHal, MemPool, NicDevice, TxBuffer,
};
use std::collections::{HashMap, HashSet, VecDeque};
use std::marker::PhantomData;

/// A machine that hands out memory of its own for each request.
struct Machine;

const PHYS: usize = 0x10_0000_0000;

impl IxgbeHal for Machine {
    fn dma_alloc(size: usize) -> (usize, usize) {
        let memory: &'static mut [u64] = vec![0u64; size / 8 + 1].leak();
        let virt = memory.as_ptr() as usize;
        (virt + PHYS, virt)
    }

    fn dma_dealloc(_paddr: usize, _vaddr: usize, _size: usize) -> i32 {
        0
    }

    fn mmio_phys_to_virt(paddr: usize, _size: usize) -> usize {
        paddr.saturating_sub(PHYS).max(1)
    }

    fn mmio_virt_to_phys(vaddr: usize, size: usize) -> usize {
        vaddr.saturating_add(PHYS).min(usize::MAX - size)
    }

    fn get_tsc_frequency() -> u64 {
        1
    }

    fn wait_until(_duration: Duration) -> Result<(), &'static str> {
        Ok(())
    }
}

/// The registers of a card, and what was written to memory.
struct Card {
    regs: HashMap<u32, u32>,
    words: HashMap<usize, u64>,
    filled: Vec<(usize, usize, u8)>,
    slept: u64,
    secs: u64,
    read: Vec<u32>,
}

impl Card {
    fn new() -> Card {
        Card {
            // EEPROM read, DMA initialized, link up
            regs: [(0x1_0010, 0x200), (0x2F00, 0x8), (0x42A4, 0x7000_0000)]
                .into_iter()
                .collect(),
            words: HashMap::new(),
            filled: Vec::new(),
            slept: 0,
            secs: 50,
            read: Vec::new(),
        }
    }

    fn reg(&self, reg: u32) -> u32 {
        self.regs.get(&reg).copied().unwrap_or(0)
    }

    fn run(&mut self, ops: Vec<IoOp>) {
        let mut seq = Sequence::new(ops);
        let mut event = Event::Done;
        loop {
            match seq.step(event) {
                Command::ReadReg { reg } => {
                    self.read.push(reg);
                    event = Event::Value { value: self.reg(reg) };
                    continue;
                }
                Command::WriteReg { reg, value } => {
                    // a reset is over at once
                    let value = if reg == 0 { value & !0x0400_0008 } else { value };
                    self.regs.insert(reg, value);
                }
                Command::ReadClock => {
                    self.secs += 1;
                    event = Event::Clock { secs: self.secs };
                    continue;
                }
                Command::Sleep { millis } => self.slept += millis,
                Command::Fill { addr, len, byte } => self.filled.push((addr, len, byte)),
                Command::Store32 { addr, value } => {
                    self.words.insert(addr, value as u64);
                }
                Command::Store64 { addr, value } => {
                    self.words.insert(addr, value);
                }
                Command::Finished => return,
            }
            event = Event::Done;
        }
    }
}

/// Initializes a device on the card, and returns the stages that it went through.
fn initialize(
    rx: u16,
    tx: u16,
    pools: &mut Vec<MemPool>,
    card: &mut Card,
) -> (IxgbeDevice<Machine>, Vec<Stage>) {
    let mut ops = Vec::new();
    let (mut dev, mut stage) =
        IxgbeDevice::<Machine>::init(0xE000_0000, 0x2_0000, rx, tx, pools, &mut ops).unwrap();
    card.run(std::mem::take(&mut ops));
    let mut stages = vec![Stage::Reset];
    while stage != Stage::Done {
        stages.push(stage);
        stage = dev.reset_and_init(stage, pools, &mut ops).unwrap();
        card.run(std::mem::take(&mut ops));
    }
    (dev, stages)
}

fn ready(rx: u16, tx: u16) -> (IxgbeDevice<Machine>, Vec<MemPool>, Card) {
    let mut pools = Vec::new();
    let mut card = Card::new();
    let (dev, _) = initialize(rx, tx, &mut pools, &mut card);
    (dev, pools, card)
}

fn done(length: u16) -> RxWriteback {
    RxWriteback { status_error: 3, length }
}

/// In how many places each buffer of each pool is.
fn places(dev: &IxgbeDevice<Machine>, pools: &[MemPool]) -> HashMap<(usize, usize), usize> {
    let mut count = HashMap::new();
    for (p, pool) in pools.iter().enumerate() {
        for id in &pool.free_stack {
            *count.entry((p, *id)).or_insert(0) += 1;
        }
    }
    for q in &dev.rx_queues {
        for id in &q.bufs_in_use {
            *count.entry((q.pool, *id)).or_insert(0) += 1;
        }
    }
    for q in &dev.tx_queues {
        for id in &q.bufs_in_use {
            *count.entry((q.pool.unwrap(), *id)).or_insert(0) += 1;
        }
    }
    count
}

fn transmit_queue(num: usize) -> IxgbeTxQueue {
    IxgbeTxQueue {
        descriptors: 0x4000,
        ring_phys: 0x8000,
        num_descriptors: num,
        pool: None,
        bufs_in_use: VecDeque::new(),
        clean_index: 0,
        tx_index: 0,
    }
}

#[test]
fn initializing_goes_through_its_stages() {
    let mut pools = Vec::new();
    let (dev, stages) = initialize(2, 1, &mut pools, &mut Card::new());
    assert_eq!(stages.len(), 6 + 2 + 4 * 2);
    let ring = |q: usize| Dma {
        virt: dev.rx_queues[q].descriptors,
        phys: dev.rx_queues[q].ring_phys,
    };
    assert_eq!(
        stages,
        vec![
            Stage::Reset,
            Stage::RxBegin,
            Stage::RxQueue { queue: 0 },
            Stage::RxRing { queue: 0 },
            Stage::RxPool { queue: 0, ring: ring(0) },
            Stage::RxQueue { queue: 1 },
            Stage::RxRing { queue: 1 },
            Stage::RxPool { queue: 1, ring: ring(1) },
            Stage::RxEnd,
            Stage::TxBegin,
            Stage::TxRing { queue: 0 },
            Stage::TxEnd,
            Stage::StartRx { queue: 0 },
            Stage::StartRx { queue: 1 },
            Stage::StartTx { queue: 0 },
            Stage::Finish,
        ]
    );
    let (_, stages) = initialize(0, 0, &mut Vec::new(), &mut Card::new());
    assert_eq!(
        stages,
        vec![
            Stage::Reset,
            Stage::RxBegin,
            Stage::RxEnd,
            Stage::TxBegin,
            Stage::TxEnd,
            Stage::Finish,
        ]
    );
}

#[test]
fn memory_is_asked_for_between_accesses_to_the_card() {
    let mut pools = Vec::new();
    let mut ops = Vec::new();
    let (mut dev, stage) =
        IxgbeDevice::<Machine>::init(0xE000_0000, 0x2_0000, 1, 0, &mut pools, &mut ops).unwrap();
    assert_eq!(stage, Stage::RxBegin);
    assert_eq!(ops[3], IoOp::WriteReg { reg: 0, value: 0x0400_0008 });
    assert!(dev.rx_queues.is_empty());
    let stage = dev.reset_and_init(stage, &mut pools, &mut Vec::new()).unwrap();
    assert_eq!(stage, Stage::RxQueue { queue: 0 });
    let mut ops = Vec::new();
    let stage = dev.reset_and_init(stage, &mut pools, &mut ops).unwrap();
    assert_eq!(
        ops,
        vec![
            IoOp::ModifyReg { reg: 0x2100, clear: 0x0E00_0000, set: 0x0200_0000 },
            IoOp::ModifyReg { reg: 0x2100, clear: 0, set: 0x1000_0000 },
        ]
    );
    let mut ops = Vec::new();
    let stage = dev.reset_and_init(stage, &mut pools, &mut ops).unwrap();
    assert!(matches!(stage, Stage::RxPool { queue: 0, .. }));
    assert_eq!(ops.len(), 6);
    assert!(pools.is_empty());
    let mut ops = Vec::new();
    let stage = dev.reset_and_init(stage, &mut pools, &mut ops).unwrap();
    assert_eq!(stage, Stage::RxEnd);
    assert!(ops.is_empty());
    assert_eq!(pools.len(), 1);
    assert_eq!(dev.rx_queues.len(), 1);
    assert!(dev.rx_queues[0].bufs_in_use.is_empty());
}

#[test]
fn failing_to_start_a_queue_ends_initializing() {
    let (mut dev, mut pools, _) = ready(1, 1);
    let mut ops = Vec::new();
    dev.tx_queues[0].num_descriptors = 96;
    assert_eq!(
        dev.reset_and_init(Stage::StartTx { queue: 0 }, &mut pools, &mut ops),
        Err(IxgbeError::QueueNotAligned)
    );
    pools[0].free_stack.clear();
    assert_eq!(
        dev.reset_and_init(Stage::StartRx { queue: 0 }, &mut pools, &mut ops),
        Err(IxgbeError::NoMemory)
    );
    assert!(ops.is_empty());
}

#[test]
fn initialized_device_has_its_queues() {
    let (dev, pools, _) = ready(2, 3);
    assert_eq!(dev.num_rx_queues(), 2);
    assert_eq!(dev.num_tx_queues(), 3);
    assert_eq!(dev.rx_queues.len(), 2);
    assert_eq!(dev.tx_queues.len(), 3);
    assert_eq!(pools.len(), 2);
    for (i, q) in dev.rx_queues.iter().enumerate() {
        assert_eq!(q.pool, i);
        assert_eq!(q.num_descriptors, 512);
        assert_eq!(q.rx_index, 0);
        assert_eq!(q.bufs_in_use, (3584..4096).rev().collect::<Vec<usize>>());
        assert_eq!(pools[i].entry_size(), 2048);
        assert_eq!(pools[i].num_entries, 4096);
        assert_eq!(pools[i].free_stack, (0..3584).collect::<Vec<usize>>());
    }
    for q in &dev.tx_queues {
        assert_eq!(q.pool, None);
        assert_eq!(q.num_descriptors, 512);
        assert!(q.bufs_in_use.is_empty());
        assert_eq!((q.clean_index, q.tx_index), (0, 0));
    }
}

#[test]
fn initialized_card_knows_its_rings() {
    let (dev, pools, card) = ready(2, 2);
    for i in 0..2u32 {
        let q = &dev.rx_queues[i as usize];
        assert_eq!(card.reg(0x1000 + 0x40 * i), q.ring_phys as u32);
        assert_eq!(card.reg(0x1004 + 0x40 * i), (q.ring_phys as u64 >> 32) as u32);
        assert_eq!(card.reg(0x1008 + 0x40 * i), 8192);
        assert_eq!(card.reg(0x1010 + 0x40 * i), 0);
        assert_eq!(card.reg(0x1018 + 0x40 * i), 511);
        assert_eq!(card.reg(0x1028 + 0x40 * i), 0x0200_0000);
        assert_eq!(card.reg(0x2100 + 4 * i), 0x1200_0000);
        assert!(card.filled.contains(&(q.descriptors, 8192, 0xFF)));
        for (k, id) in q.bufs_in_use.iter().enumerate() {
            let desc = q.descriptors + 16 * k;
            let phys = pools[q.pool].get_phys_addr(*id) as u64;
            assert_eq!(card.words.get(&desc), Some(&phys));
            assert_eq!(card.words.get(&(desc + 8)), Some(&0));
        }
        let q = &dev.tx_queues[i as usize];
        assert_eq!(card.reg(0x6000 + 0x40 * i), q.ring_phys as u32);
        assert_eq!(card.reg(0x6004 + 0x40 * i), (q.ring_phys as u64 >> 32) as u32);
        assert_eq!(card.reg(0x6008 + 0x40 * i), 8192);
        assert_eq!(card.reg(0x6010 + 0x40 * i), 0);
        assert_eq!(card.reg(0x6018 + 0x40 * i), 0);
        assert_eq!(card.reg(0x6028 + 0x40 * i), 0x0204_0824);
        assert!(card.filled.contains(&(q.descriptors, 8192, 0xFF)));
    }
}

#[test]
fn initialized_card_has_its_settings() {
    let (_, _, card) = ready(1, 1);
    assert_eq!(card.reg(0x880), 0);
    assert_eq!(card.reg(0x888), 0xFFFF_FFFF);
    assert_eq!(card.reg(0x42A0), 0x7000);
    assert_eq!(card.reg(0x3000), 1);
    assert_eq!(card.reg(0x3C00), 0x2_0000);
    assert_eq!(card.reg(0x3C1C), 0);
    assert_eq!(card.reg(0x4240), 0x403);
    assert_eq!(card.reg(0x2F00), 0xA);
    assert_eq!(card.reg(0x5080), 0x700);
    assert_eq!(card.reg(0x18), 0x1_0000);
    assert_eq!(card.reg(0xCC00), 0xA000);
    assert_eq!(card.reg(0x8100), 0xFFFF);
    assert_eq!(card.reg(0x4900), 0);
    assert_eq!(card.reg(0x4A80), 1);
    assert_eq!(card.slept, 1000);
    assert_eq!(card.read.last(), Some(&0x42A4));
    assert!(card.read.contains(&0x5400));
    assert!(card.read.contains(&0x5404));
}

#[test]
fn initializing_stays_in_the_window() {
    let (_, _, card) = ready(64, 64);
    for reg in card.regs.keys() {
        assert!(*reg as usize + 4 <= 0x1_0014);
    }
    for reg in &card.read {
        assert!(*reg as usize + 4 <= 0x1_0014);
    }
}

#[test]
fn device_without_queues() {
    let (mut dev, mut pools, _) = ready(0, 0);
    let mut ops = Vec::new();
    assert!(matches!(
        dev.receive(&mut pools, 0, done(1), &mut ops),
        Err(IxgbeError::InvalidQueue)
    ));
    assert!(matches!(dev.can_send(0), Err(IxgbeError::InvalidQueue)));
    assert!(matches!(dev.can_receive(0, 1), Err(IxgbeError::InvalidQueue)));
    assert!(ops.is_empty());
}

#[test]
fn link_that_stays_down_does_not_stop_initializing() {
    let mut card = Card::new();
    card.regs.insert(0x42A4, 0);
    initialize(0, 0, &mut Vec::new(), &mut card);
    assert_eq!(card.secs, 50 + 11);
}

#[test]
fn every_buffer_is_in_one_place_at_first() {
    let (dev, pools, _) = ready(2, 1);
    let count = places(&dev, &pools);
    assert_eq!(count.len(), 2 * 4096);
    assert!(count.values().all(|n| *n == 1));
}

#[test]
fn received_packet_leaves_the_ring() {
    let (mut dev, mut pools, mut card) = ready(2, 1);
    let mut ops = Vec::new();
    let buf = dev.receive(&mut pools, 1, done(60), &mut ops).unwrap();
    let packet = buf.packet();
    assert_eq!(packet.pool, 1);
    assert_eq!(packet.pool_entry, 4095);
    assert_eq!(packet.len, 60);
    assert_eq!(packet.get_virt_addr(), pools[1].get_virt_addr(4095));
    assert_eq!(packet.get_phys_addr(), pools[1].get_phys_addr(4095));
    let q = &dev.rx_queues[1];
    assert_eq!(q.rx_index, 1);
    assert_eq!(q.bufs_in_use[0], 3583);
    assert_eq!(q.bufs_in_use[1], 4094);
    assert_eq!(
        ops,
        vec![
            IoOp::Store64 {
                addr: q.descriptors,
                value: pools[1].get_phys_addr(3583) as u64
            },
            IoOp::Store64 { addr: q.descriptors + 8, value: 0 },
            IoOp::WriteReg { reg: 0x1058, value: 0 },
        ]
    );
    card.run(ops);
    assert_eq!(card.reg(0x1058), 0);
    let count = places(&dev, &pools);
    assert_eq!(count.get(&(1, 4095)), None);
    assert_eq!(count.len(), 2 * 4096 - 1);
    assert!(count.values().all(|n| *n == 1));
}

#[test]
fn receiving_goes_round_the_ring() {
    let (mut dev, mut pools, _) = ready(1, 1);
    for i in 0..513u16 {
        let mut ops = Vec::new();
        let buf = dev.receive(&mut pools, 0, done(i), &mut ops).unwrap();
        assert_eq!(buf.packet().len, i as usize);
        assert_eq!(
            ops[2],
            IoOp::WriteReg { reg: 0x1018, value: (i % 512) as u32 }
        );
    }
    assert_eq!(dev.rx_queues[0].rx_index, 1);
}

#[test]
fn nothing_is_received_before_it_is_there() {
    let (mut dev, mut pools, _) = ready(1, 1);
    let mut ops = Vec::new();
    let head = RxWriteback { status_error: 2, length: 60 };
    assert!(matches!(
        dev.receive(&mut pools, 0, head, &mut ops),
        Err(IxgbeError::NotReady)
    ));
    assert!(ops.is_empty());
    assert_eq!(dev.rx_queues[0].rx_index, 0);
    assert_eq!(pools[0].free_stack.len(), 3584);
    assert_eq!(dev.can_receive(0, 2).unwrap(), false);
    assert_eq!(dev.can_receive(0, 1).unwrap(), true);
}

#[test]
fn receiving_needs_a_free_buffer() {
    let (mut dev, mut pools, _) = ready(1, 1);
    pools[0].free_stack.clear();
    let mut ops = Vec::new();
    assert!(matches!(
        dev.receive(&mut pools, 0, done(60), &mut ops),
        Err(IxgbeError::NoMemory)
    ));
    assert!(ops.is_empty());
    assert_eq!(dev.rx_queues[0].rx_index, 0);
}

#[test]
fn receiving_from_a_queue_that_does_not_exist() {
    let (mut dev, mut pools, _) = ready(1, 1);
    let mut ops = Vec::new();
    assert!(matches!(
        dev.receive(&mut pools, 1, done(60), &mut ops),
        Err(IxgbeError::InvalidQueue)
    ));
}

#[test]
fn several_packets_come_in_the_order_of_the_ring() {
    let (mut dev, mut pools, _) = ready(1, 1);
    let heads = [
        done(10),
        done(20),
        done(30),
        RxWriteback { status_error: 0, length: 0 },
        done(50),
    ];
    let mut ops = Vec::new();
    let bufs = dev.receive_packets(&mut pools, 0, 5, &heads, &mut ops).unwrap();
    let got: Vec<(usize, usize)> = bufs
        .iter()
        .map(|b| (b.packet().pool_entry, b.packet().len))
        .collect();
    assert_eq!(got, vec![(4095, 10), (4094, 20), (4093, 30)]);
    assert_eq!(dev.rx_queues[0].rx_index, 3);
    assert_eq!(ops.len(), 9);
    assert_eq!(ops[8], IoOp::WriteReg { reg: 0x1018, value: 2 });
    let count = places(&dev, &pools);
    assert_eq!(count.len(), 4096 - 3);
    assert!(count.values().all(|n| *n == 1));
}

#[test]
fn no_more_packets_are_received_than_asked() {
    let (mut dev, mut pools, _) = ready(1, 1);
    let mut ops = Vec::new();
    let bufs = dev
        .receive_packets(&mut pools, 0, 1, &[done(10), done(20)], &mut ops)
        .unwrap();
    assert_eq!(bufs.len(), 1);
    assert_eq!(dev.rx_queues[0].rx_index, 1);
    let bufs = dev
        .receive_packets(&mut pools, 0, 0, &[done(10)], &mut ops)
        .unwrap();
    assert!(bufs.is_empty());
}

#[test]
fn errors_of_receiving_several_packets() {
    let (mut dev, mut pools, _) = ready(1, 1);
    let mut ops = Vec::new();
    let idle = RxWriteback { status_error: 0, length: 0 };
    assert!(matches!(
        dev.receive_packets(&mut pools, 0, 4, &[idle], &mut ops),
        Err(IxgbeError::NotReady)
    ));
    assert!(matches!(
        dev.receive_packets(&mut pools, 3, 4, &[idle], &mut ops),
        Err(IxgbeError::InvalidQueue)
    ));
    pools[0].free_stack.truncate(1);
    let bufs = dev
        .receive_packets(&mut pools, 0, 4, &[done(1), done(2)], &mut ops)
        .unwrap();
    assert_eq!(bufs.len(), 1);
    assert!(matches!(
        dev.receive_packets(&mut pools, 0, 4, &[done(2)], &mut ops),
        Err(IxgbeError::NoMemory)
    ));
}

#[test]
fn sent_packet_is_in_the_ring() {
    let (mut dev, mut pools, mut card) = ready(1, 2);
    let buf = TxBuffer::allocate(&mut pools, 0, 60).unwrap();
    let phys = buf.packet.get_phys_addr();
    let entry = buf.packet.pool_entry;
    let mut ops = Vec::new();
    assert_eq!(dev.send(&mut pools, 1, buf, &[], &mut ops), Ok(()));
    let q = &dev.tx_queues[1];
    assert_eq!(
        ops,
        vec![
            IoOp::Store64 { addr: q.descriptors, value: phys as u64 },
            IoOp::Store32 { addr: q.descriptors + 8, value: 0x2B30_003C },
            IoOp::Store32 { addr: q.descriptors + 12, value: 60 << 14 },
            IoOp::WriteReg { reg: 0x6058, value: 1 },
        ]
    );
    assert_eq!(q.pool, Some(0));
    assert_eq!(q.tx_index, 1);
    assert_eq!(q.clean_index, 0);
    assert_eq!(q.bufs_in_use, vec![entry]);
    card.run(ops);
    assert_eq!(card.reg(0x6058), 1);
    let count = places(&dev, &pools);
    assert_eq!(count.len(), 4096);
    assert!(count.values().all(|n| *n == 1));
}

#[test]
fn sending_stops_when_the_queue_is_full() {
    let (mut dev, mut pools, _) = ready(1, 1);
    let mut ops = Vec::new();
    for _ in 0..511 {
        assert!(dev.can_send(0).unwrap());
        let statuses = vec![0; dev.tx_queues[0].clean_probes().len()];
        let buf = TxBuffer::allocate(&mut pools, 0, 60).unwrap();
        assert_eq!(dev.send(&mut pools, 0, buf, &statuses, &mut ops), Ok(()));
    }
    assert!(!dev.can_send(0).unwrap());
    let free = pools[0].free_stack.clone();
    let statuses = vec![0; dev.tx_queues[0].clean_probes().len()];
    assert_eq!(statuses.len(), 15);
    let buf = TxBuffer::allocate(&mut pools, 0, 60).unwrap();
    let before = ops.len();
    assert_eq!(
        dev.send(&mut pools, 0, buf, &statuses, &mut ops),
        Err(IxgbeError::QueueFull)
    );
    // the packet went back to its pool
    assert_eq!(pools[0].free_stack, free);
    assert_eq!(ops.len(), before);
    assert_eq!(dev.tx_queues[0].tx_index, 511);
    // the card gets on: the first batch is done
    let mut statuses = statuses;
    statuses[0] = 1;
    let buf = TxBuffer::allocate(&mut pools, 0, 60).unwrap();
    assert_eq!(dev.send(&mut pools, 0, buf, &statuses, &mut ops), Ok(()));
    assert_eq!(dev.tx_queues[0].tx_index, 0);
    assert_eq!(dev.tx_queues[0].clean_index, 32);
    assert_eq!(dev.tx_queues[0].bufs_in_use.len(), 480);
    let count = places(&dev, &pools);
    assert_eq!(count.len(), 4096);
    assert!(count.values().all(|n| *n == 1));
}

#[test]
fn packet_for_a_queue_that_does_not_exist_goes_back() {
    let (mut dev, mut pools, _) = ready(1, 1);
    let free = pools[0].free_stack.clone();
    let buf = TxBuffer::allocate(&mut pools, 0, 60).unwrap();
    let mut ops = Vec::new();
    assert_eq!(
        dev.send(&mut pools, 1, buf, &[], &mut ops),
        Err(IxgbeError::InvalidQueue)
    );
    assert_eq!(pools[0].free_stack, free);
    assert!(ops.is_empty());
}

#[test]
fn queue_changes_its_pool_when_it_is_empty() {
    let (mut dev, mut pools, _) = ready(2, 1);
    let mut ops = Vec::new();
    assert!(dev.tx_queues[0].takes_pool(1, &[]));
    for _ in 0..32 {
        let buf = TxBuffer::allocate(&mut pools, 0, 60).unwrap();
        assert_eq!(dev.send(&mut pools, 0, buf, &[], &mut ops), Ok(()));
    }
    assert_eq!(dev.tx_queues[0].pool, Some(0));
    assert!(dev.tx_queues[0].takes_pool(0, &[0]));
    assert!(!dev.tx_queues[0].takes_pool(1, &[0]));
    assert!(dev.tx_queues[0].takes_pool(1, &[1]));
    let buf = TxBuffer::allocate(&mut pools, 1, 60).unwrap();
    assert_eq!(dev.send(&mut pools, 0, buf, &[1], &mut ops), Ok(()));
    assert_eq!(dev.tx_queues[0].pool, Some(1));
    assert_eq!(dev.tx_queues[0].bufs_in_use, vec![3583]);
    assert_eq!(pools[0].free_stack.len(), 3584);
    let count = places(&dev, &pools);
    assert_eq!(count.len(), 2 * 4096);
    assert!(count.values().all(|n| *n == 1));
}

#[test]
fn queue_with_packets_left_keeps_its_pool() {
    let (mut dev, mut pools, _) = ready(2, 1);
    let mut ops = Vec::new();
    for _ in 0..33 {
        let statuses = vec![0; dev.tx_queues[0].clean_probes().len()];
        let buf = TxBuffer::allocate(&mut pools, 0, 60).unwrap();
        assert_eq!(dev.send(&mut pools, 0, buf, &statuses, &mut ops), Ok(()));
    }
    assert!(!dev.tx_queues[0].takes_pool(1, &[1]));
    assert!(dev.tx_queues[0].takes_pool(0, &[1]));
}

#[test]
fn each_queue_is_set_up_on_its_own_ring() {
    let mut dev: IxgbeDevice<Machine> = IxgbeDevice {
        addr: 0xE000_0000,
        len: 0x2_0000,
        num_rx_queues: 2,
        num_tx_queues: 2,
        rx_queues: Vec::new(),
        tx_queues: Vec::new(),
        interrupts: Interrupts::default(),
        marker: PhantomData,
    };
    let mut pools = vec![MemPool::from_parts(0x1000, 64, vec![0x9000])];
    let mempools = vec![
        MemPool::from_parts(0x2000, 64, vec![0xA000]),
        MemPool::from_parts(0x3000, 64, vec![0xB000]),
    ];
    let mut card = Card::new();
    let mut ops = Vec::new();
    let rings = [
        Dma { virt: 0x10_0000, phys: 0x1_0000_2000 },
        Dma { virt: 0x20_0000, phys: 0x2_0000_4000 },
        Dma { virt: 0x30_0000, phys: 0x3_0000_6000 },
        Dma { virt: 0x40_0000, phys: 0x4_0000_8000 },
    ];
    for (i, mempool) in mempools.into_iter().enumerate() {
        dev.init_rx_ring(i as u16, rings[i], &mut ops);
        dev.init_rx_pool(rings[i], mempool, &mut pools);
    }
    for i in 0..2 {
        dev.init_tx_ring(i as u16, rings[2 + i], &mut ops);
    }
    card.run(ops);
    assert_eq!(pools.len(), 3);
    assert_eq!(pools[1].base_addr, 0x2000);
    assert_eq!(pools[2].base_addr, 0x3000);
    let rx: Vec<(usize, usize, usize)> = dev
        .rx_queues
        .iter()
        .map(|q| (q.descriptors, q.ring_phys, q.pool))
        .collect();
    assert_eq!(
        rx,
        vec![(0x10_0000, 0x1_0000_2000, 1), (0x20_0000, 0x2_0000_4000, 2)]
    );
    let tx: Vec<(usize, usize)> = dev
        .tx_queues
        .iter()
        .map(|q| (q.descriptors, q.ring_phys))
        .collect();
    assert_eq!(tx, vec![(0x30_0000, 0x3_0000_6000), (0x40_0000, 0x4_0000_8000)]);
    assert_eq!((card.reg(0x1000), card.reg(0x1004)), (0x2000, 1));
    assert_eq!((card.reg(0x1040), card.reg(0x1044)), (0x4000, 2));
    assert_eq!((card.reg(0x6000), card.reg(0x6004)), (0x6000, 3));
    assert_eq!((card.reg(0x6040), card.reg(0x6044)), (0x8000, 4));
    assert_eq!(
        card.filled,
        vec![
            (0x10_0000, 8192, 0xFF),
            (0x20_0000, 8192, 0xFF),
            (0x30_0000, 8192, 0xFF),
            (0x40_0000, 8192, 0xFF)
        ]
    );
}

#[test]
fn received_packet_can_be_sent_on() {
    let (mut dev, mut pools, _) = ready(1, 1);
    let mut ops = Vec::new();
    let rx = dev.receive(&mut pools, 0, done(60), &mut ops).unwrap();
    let tx = TxBuffer { packet: rx.packet };
    assert_eq!(dev.send(&mut pools, 0, tx, &[], &mut ops), Ok(()));
    assert_eq!(dev.tx_queues[0].bufs_in_use, vec![4095]);
    let count = places(&dev, &pools);
    assert_eq!(count.len(), 4096);
    assert!(count.values().all(|n| *n == 1));
}

#[test]
fn several_packets_are_sent_from_the_front() {
    let (mut dev, mut pools, _) = ready(1, 1);
    let mut bufs: VecDeque<TxBuffer> = (0..3)
        .map(|i| TxBuffer::allocate(&mut pools, 0, 60 + i).unwrap())
        .collect();
    let mut ops = Vec::new();
    assert_eq!(dev.send_packets(&mut pools, 0, &mut bufs, &[], &mut ops), Ok(()));
    assert!(bufs.is_empty());
    assert_eq!(dev.tx_queues[0].bufs_in_use, vec![3583, 3582, 3581]);
    assert_eq!(ops.len(), 12);
    assert_eq!(ops[9], IoOp::Store32 {
        addr: dev.tx_queues[0].descriptors + 2 * 16 + 8,
        value: 0x2B30_003E
    });
    assert_eq!(ops[11], IoOp::WriteReg { reg: 0x6018, value: 3 });
}

#[test]
fn packets_that_find_no_room_are_left() {
    let (mut dev, mut pools, _) = ready(1, 1);
    dev.tx_queues[0] = transmit_queue(4);
    let mut bufs: VecDeque<TxBuffer> = (0..5)
        .map(|_| TxBuffer::allocate(&mut pools, 0, 60).unwrap())
        .collect();
    let mut ops = Vec::new();
    assert_eq!(
        dev.send_packets(&mut pools, 0, &mut bufs, &[], &mut ops),
        Err(IxgbeError::QueueFull)
    );
    let left: Vec<usize> = bufs.iter().map(|b| b.packet.pool_entry).collect();
    assert_eq!(left, vec![3580, 3579]);
    assert_eq!(dev.tx_queues[0].bufs_in_use, vec![3583, 3582, 3581]);
    assert_eq!(ops.len(), 12);
    assert_eq!(
        dev.send_packets(&mut pools, 2, &mut bufs, &[], &mut ops),
        Err(IxgbeError::InvalidQueue)
    );
    assert_eq!(bufs.len(), 2);
}

#[test]
fn sending_several_packets_cleans_first() {
    let (mut dev, mut pools, _) = ready(1, 1);
    dev.tx_queues[0] = transmit_queue(64);
    let mut ops = Vec::new();
    let mut bufs: VecDeque<TxBuffer> = (0..63)
        .map(|_| TxBuffer::allocate(&mut pools, 0, 60).unwrap())
        .collect();
    assert_eq!(dev.send_packets(&mut pools, 0, &mut bufs, &[], &mut ops), Ok(()));
    let mut more: VecDeque<TxBuffer> = (0..2)
        .map(|_| TxBuffer::allocate(&mut pools, 0, 60).unwrap())
        .collect();
    assert_eq!(
        dev.send_packets(&mut pools, 0, &mut more, &[1], &mut ops),
        Ok(())
    );
    assert_eq!(dev.tx_queues[0].clean_index, 32);
    assert_eq!(dev.tx_queues[0].tx_index, 1);
    assert_eq!(dev.tx_queues[0].bufs_in_use.len(), 33);
    // the buffers of the batch are free again, in the order in which they were sent
    let free = &pools[0].free_stack;
    assert_eq!(free[free.len() - 32..], (3552..3584).rev().collect::<Vec<usize>>());
}

#[test]
fn queue_must_have_a_power_of_two_of_descriptors() {
    let (mut dev, mut pools, _) = ready(1, 1);
    let mut ops = Vec::new();
    dev.tx_queues[0].num_descriptors = 96;
    assert_eq!(dev.start_tx_queue(0, &mut ops), Err(IxgbeError::QueueNotAligned));
    dev.rx_queues[0].num_descriptors = 500;
    assert_eq!(
        dev.start_rx_queue(&mut pools, 0, &mut ops),
        Err(IxgbeError::QueueNotAligned)
    );
    assert!(ops.is_empty());
    dev.tx_queues[0].num_descriptors = 128;
    assert_eq!(dev.start_tx_queue(0, &mut ops), Ok(()));
    assert_eq!(
        ops,
        vec![
            IoOp::WriteReg { reg: 0x6010, value: 0 },
            IoOp::WriteReg { reg: 0x6018, value: 0 },
            IoOp::ModifyReg { reg: 0x6028, clear: 0, set: 0x0200_0000 },
            IoOp::WaitSet { reg: 0x6028, mask: 0x0200_0000 },
        ]
    );
}

#[test]
fn receive_queue_needs_a_buffer_for_each_descriptor() {
    let (mut dev, mut pools, _) = ready(1, 1);
    dev.rx_queues[0].bufs_in_use.clear();
    dev.rx_queues[0].num_descriptors = 4;
    pools[0].free_stack = vec![7, 8, 9];
    let mut ops = Vec::new();
    assert_eq!(
        dev.start_rx_queue(&mut pools, 0, &mut ops),
        Err(IxgbeError::NoMemory)
    );
    assert_eq!(dev.rx_queues[0].bufs_in_use, vec![9, 8, 7]);
    assert!(pools[0].free_stack.is_empty());
    assert_eq!(ops.len(), 6);
}

#[test]
fn packets_of_a_busy_device_stay_apart() {
    let (mut dev, mut pools, _) = ready(1, 1);
    let mut ops = Vec::new();
    let mut held: Vec<Packet> = Vec::new();
    for round in 0..200usize {
        held.push(dev.receive(&mut pools, 0, done(64), &mut ops).unwrap().packet);
        if let Some(packet) = alloc_pkt(&mut pools, 0, 128) {
            held.push(packet);
        }
        if round % 3 == 0 {
            let packet = held.remove(round % held.len());
            let statuses = vec![(round % 2) as u32; dev.tx_queues[0].clean_probes().len()];
            assert_eq!(
                dev.send(&mut pools, 0, TxBuffer { packet }, &statuses, &mut ops),
                Ok(())
            );
        }
        if round % 5 == 0 {
            let packet = held.remove(0);
            packet.free(&mut pools);
        }
    }
    let count = places(&dev, &pools);
    assert!(count.values().all(|n| *n == 1));
    let mine: HashSet<usize> = held.iter().map(|p| p.pool_entry).collect();
    assert_eq!(mine.len(), held.len());
    assert!(mine.iter().all(|id| !count.contains_key(&(0, *id))));
    assert_eq!(count.len() + mine.len(), 4096);
}

#[test]
fn descriptor_words_are_the_fields_of_the_descriptor() {
    let (mut dev, mut pools, _) = ready(1, 1);
    let buf = TxBuffer::allocate(&mut pools, 0, 1514).unwrap();
    let mut desc = AdvancedTxDescriptor {
        packet_buffer_address: 0,
        data_len: 0,
        dtyp_mac_rsv: 0,
        dcmd: 0,
        paylen_popts_cc_idx_sta: 0,
    };
    desc.send(buf.packet.get_phys_addr() as u64, 1514);
    let mut ops = Vec::new();
    assert_eq!(dev.send(&mut pools, 0, buf, &[], &mut ops), Ok(()));
    let addr = dev.tx_queues[0].descriptors;
    let fields = u32::from(desc.data_len)
        | u32::from(desc.dtyp_mac_rsv) << 16
        | u32::from(desc.dcmd) << 24;
    assert_eq!(ops[0], IoOp::Store64 { addr, value: desc.packet_buffer_address });
    assert_eq!(ops[1], IoOp::Store32 { addr: addr + 8, value: fields });
    assert_eq!(
        ops[2],
        IoOp::Store32 { addr: addr + 12, value: desc.paylen_popts_cc_idx_sta }
    );
}

#[test]
fn disabling_an_interrupt_undoes_enabling_it() {
    let (dev, _, mut card) = ready(1, 1);
    card.regs.insert(0x880, 0x5);
    let mut ops = Vec::new();
    dev.enable_msix_interrupt(&mut ops, 1);
    card.run(ops);
    assert_eq!(card.reg(0x880), 0x7);
    let mut ops = Vec::new();
    dev.disable_interrupt(&mut ops, 1);
    card.run(ops);
    assert_eq!(card.reg(0x880), 0x5);
    assert_eq!(card.reg(0x888), 0x2);
}

#[test]
fn leaving_promiscuous_mode_undoes_entering_it() {
    let (dev, _, mut card) = ready(1, 1);
    let mut ops = Vec::new();
    dev.set_promisc(&mut ops, false);
    card.run(ops);
    assert_eq!(card.reg(0x5080), 0x400);
    let mut ops = Vec::new();
    dev.set_promisc(&mut ops, true);
    card.run(ops);
    assert_eq!(card.reg(0x5080), 0x700);
}
