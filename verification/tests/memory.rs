//! Pools and packets.

use core::time::Duration;
use ixgbe_driver::memory::{Dma, Packet, Prefetch, PACKET_HEADROOM};
use ixgbe_driver::{alloc_pkt, IxgbeError, IxgbeHal, MemPool, TxBuffer};

/// A machine whose memory is always in the same place.
struct Machine;

impl IxgbeHal for Machine {
    fn dma_alloc(size: usize) -> (usize, usize) {
        (0x9000_0000 + size % 0x1000, 0x1000_0000)
    }

    fn dma_dealloc(_paddr: usize, _vaddr: usize, _size: usize) -> i32 {
        0
    }

    fn mmio_phys_to_virt(paddr: usize, _size: usize) -> usize {
        paddr.max(1)
    }

    fn mmio_virt_to_phys(vaddr: usize, size: usize) -> usize {
        vaddr.saturating_add(0x5000_0000).min(usize::MAX - size)
    }

    fn get_tsc_frequency() -> u64 {
        1_000_000_000
    }

    fn wait_until(_duration: Duration) -> Result<(), &'static str> {
        Ok(())
    }
}

fn small_pool() -> Vec<MemPool> {
    vec![MemPool::from_parts(0x1000, 64, vec![0x9000, 0xA000, 0xB000])]
}

#[test]
fn dma_hands_on_both_addresses() {
    let dma = Dma::allocate::<Machine>(0x40, true).unwrap();
    assert_eq!(dma.virt, 0x1000_0000);
    assert_eq!(dma.phys, 0x9000_0040);
}

#[test]
fn pool_is_cut_into_entries() {
    let pool = MemPool::allocate::<Machine>(4, 1024).unwrap();
    assert_eq!(pool.entry_size(), 1024);
    assert_eq!(pool.num_entries, 4);
    assert_eq!(pool.get_virt_addr(0), 0x1000_0000);
    assert_eq!(pool.get_virt_addr(3), 0x1000_0C00);
    assert_eq!(pool.get_phys_addr(0), 0x6000_0000);
    assert_eq!(pool.get_phys_addr(3), 0x6000_0C00);
    assert_eq!(pool.free_stack, vec![0, 1, 2, 3]);
}

#[test]
fn pool_of_size_zero_has_default_entries() {
    let pool = MemPool::allocate::<Machine>(2, 0).unwrap();
    assert_eq!(pool.entry_size(), 2048);
    assert_eq!(pool.get_virt_addr(1), 0x1000_0800);
}

#[test]
fn pool_of_a_size_that_divides_the_page() {
    for size in [1, 16, 2048, 0x20_0000] {
        let pool = MemPool::allocate::<Machine>(2, size).unwrap();
        assert_eq!(pool.entry_size(), size);
        assert_eq!(pool.get_virt_addr(1), 0x1000_0000 + size);
    }
}

#[test]
fn entries_without_room_behind_the_headroom_hold_no_packet() {
    let mut pools = vec![MemPool::allocate::<Machine>(4, 16).unwrap()];
    assert!(alloc_pkt(&mut pools, 0, 8).is_none());
    assert!(alloc_pkt(&mut pools, 0, 0).is_none());
    assert!(matches!(
        TxBuffer::allocate(&mut pools, 0, 8),
        Err(IxgbeError::NoMemory)
    ));
    assert_eq!(pools[0].free_stack, vec![0, 1, 2, 3]);
}

#[test]
fn entries_of_the_size_of_the_headroom_hold_an_empty_packet() {
    let mut pools = vec![MemPool::allocate::<Machine>(4, 32).unwrap()];
    assert!(alloc_pkt(&mut pools, 0, 1).is_none());
    assert_eq!(alloc_pkt(&mut pools, 0, 0).unwrap().len, 0);
    assert_eq!(pools[0].free_stack, vec![0, 1, 2]);
}

#[test]
fn empty_pool_has_no_buffer() {
    let mut pool = MemPool::allocate::<Machine>(0, 64).unwrap();
    assert_eq!(pool.alloc_buf(), None);
}

#[test]
fn buffers_come_last_first() {
    let mut pools = small_pool();
    assert_eq!(pools[0].alloc_buf(), Some(2));
    assert_eq!(pools[0].alloc_buf(), Some(1));
    pools[0].free_buf(2);
    assert_eq!(pools[0].alloc_buf(), Some(2));
    assert_eq!(pools[0].alloc_buf(), Some(0));
    assert_eq!(pools[0].alloc_buf(), None);
}

#[test]
fn packet_starts_behind_the_headroom() {
    let mut pools = small_pool();
    let packet = alloc_pkt(&mut pools, 0, 20).unwrap();
    assert_eq!(packet.get_virt_addr(), 0x1000 + 2 * 64 + 32);
    assert_eq!(packet.get_phys_addr(), 0xB020);
    assert_eq!(packet.len, 20);
    assert_eq!(packet.pool, 0);
    assert_eq!(packet.pool_entry, 2);
    assert_eq!(pools[0].free_stack, vec![0, 1]);
}

#[test]
fn packet_must_fit() {
    let mut pools = small_pool();
    assert!(alloc_pkt(&mut pools, 0, 33).is_none());
    assert_eq!(pools[0].free_stack, vec![0, 1, 2]);
    assert!(alloc_pkt(&mut pools, 0, 32).is_some());
}

#[test]
fn packet_needs_a_free_buffer() {
    let mut pools = small_pool();
    for _ in 0..3 {
        assert!(alloc_pkt(&mut pools, 0, 1).is_some());
    }
    assert!(alloc_pkt(&mut pools, 0, 1).is_none());
}

#[test]
fn pools_are_told_apart_by_number() {
    let mut pools = small_pool();
    pools.push(MemPool::from_parts(0x8000, 128, vec![0xC000]));
    let packet = alloc_pkt(&mut pools, 1, 96).unwrap();
    assert_eq!(packet.pool, 1);
    assert_eq!(packet.get_virt_addr(), 0x8020);
    assert_eq!(pools[0].free_stack, vec![0, 1, 2]);
    assert!(pools[1].free_stack.is_empty());
    packet.free(&mut pools);
    assert_eq!(pools[1].free_stack, vec![0]);
}

#[test]
fn freeing_undoes_allocating() {
    let mut pools = small_pool();
    let packet = alloc_pkt(&mut pools, 0, 8).unwrap();
    packet.free(&mut pools);
    assert_eq!(pools[0].free_stack, vec![0, 1, 2]);
}

#[test]
fn packets_in_different_buffers_do_not_overlap() {
    let mut pools = small_pool();
    let a = alloc_pkt(&mut pools, 0, 32).unwrap();
    let b = alloc_pkt(&mut pools, 0, 32).unwrap();
    assert!(b.get_virt_addr() + b.len <= a.get_virt_addr());
}

#[test]
fn transmit_buffer_needs_memory() {
    let mut pools = small_pool();
    assert!(matches!(
        TxBuffer::allocate(&mut pools, 0, 33),
        Err(IxgbeError::NoMemory)
    ));
    for _ in 0..3 {
        assert!(TxBuffer::allocate(&mut pools, 0, 32).is_ok());
    }
    assert!(matches!(
        TxBuffer::allocate(&mut pools, 0, 1),
        Err(IxgbeError::NoMemory)
    ));
}

#[test]
fn packet_bytes_are_read_and_written_in_place() {
    let mut pools = small_pool();
    let mut memory = vec![0u8; 3 * 64];
    let mut buf = TxBuffer::allocate(&mut pools, 0, 4).unwrap();
    buf.packet_mut(&mut memory, 0x1000).copy_from_slice(&[1, 2, 3, 4]);
    assert_eq!(buf.packet(&memory, 0x1000), &[1, 2, 3, 4]);
    assert_eq!(&memory[160..164], &[1, 2, 3, 4]);
    assert_eq!(memory.iter().filter(|b| **b != 0).count(), 4);
}

#[test]
fn headroom_lies_in_front_of_the_data() {
    let mut pools = small_pool();
    let mut memory = vec![0u8; 3 * 64];
    let mut packet = alloc_pkt(&mut pools, 0, 4).unwrap();
    packet.headroom_mut(2, &mut memory, 0x1000).copy_from_slice(&[8, 9]);
    assert_eq!(&memory[158..160], &[8, 9]);
    assert_eq!(packet.headroom_mut(PACKET_HEADROOM, &mut memory, 0x1000).len(), 32);
    assert_eq!(packet.as_bytes(&memory, 0x1000), &[0, 0, 0, 0]);
}

#[test]
fn clone_holds_the_same_bytes() {
    let mut pools = small_pool();
    let mut memory: Vec<u8> = (0..192).map(|i| i as u8).collect();
    let packet = alloc_pkt(&mut pools, 0, 5).unwrap();
    let other = packet.clone_in(&mut pools, &mut memory);
    assert_eq!(other.pool_entry, 1);
    assert_eq!(other.get_virt_addr(), 0x1000 + 64 + 32);
    assert_eq!(other.as_bytes(&memory, 0x1000), &[160, 161, 162, 163, 164]);
    assert_eq!(packet.as_bytes(&memory, 0x1000), &[160, 161, 162, 163, 164]);
    assert_eq!(memory[95], 95);
    assert_eq!(memory[101], 101);
    assert_eq!(pools[0].free_stack, vec![0]);
}

#[test]
fn packet_as_text() {
    let memory: Vec<u8> = vec![7, 0, 10, 255, 8];
    let text = |len| Packet::new(0x1001, 0x9001, len, 0, 0).fmt(&memory, 0x1000);
    assert_eq!(text(0), "[]");
    assert_eq!(text(1), "[0]");
    assert_eq!(text(3), "[0, 10, 255]");
    assert_eq!(text(3), format!("{:?}", &memory[1..4]));
}

#[test]
fn prefetch_needs_sse() {
    let packet = Packet::new(0x1040, 0x9040, 10, 0, 1);
    assert_eq!(packet.prefrtch(Prefetch::Time1, false), None);
    assert_eq!(
        packet.prefrtch(Prefetch::NonTemporal, true),
        Some((0x1040, Prefetch::NonTemporal))
    );
}
