//! Descriptor rings.

use ixgbe_driver::descriptor::{AdvancedTxDescriptor, TX_CMD_EOP, TX_DTYP_ADV};
use ixgbe_driver::ring::{clean_tx_queue, wrap_ring, IxgbeRxQueue, IxgbeTxQueue};
use ixgbe_driver::MemPool;
use std::collections::VecDeque;

const DONE: u32 = 1;

/// A queue of `num` descriptors that has sent `sent` packets, of which the card got the buffers
/// `0..sent`, starting at descriptor `from`.
fn queue(num: usize, from: usize, sent: usize) -> IxgbeTxQueue {
    IxgbeTxQueue {
        descriptors: 0x4000,
        ring_phys: 0x8000,
        num_descriptors: num,
        pool: if sent > 0 { Some(0) } else { None },
        bufs_in_use: (0..sent).collect::<VecDeque<usize>>(),
        clean_index: from,
        tx_index: (from + sent) % num,
    }
}

/// A pool of 600 entries, the last of which is free.
fn pools() -> Vec<MemPool> {
    let mut pool = MemPool::from_parts(0x10_0000, 64, vec![0x9000; 600]);
    pool.free_stack = vec![599];
    vec![pool]
}

#[test]
fn index_wraps_at_the_end_of_the_ring() {
    assert_eq!(wrap_ring(0, 512), 1);
    assert_eq!(wrap_ring(510, 512), 511);
    assert_eq!(wrap_ring(511, 512), 0);
    assert_eq!(wrap_ring(0, 1), 0);
    assert_eq!(wrap_ring(2, 6), 1);
}

#[test]
fn nothing_is_cleaned_below_a_batch() {
    let mut q = queue(512, 0, 31);
    let mut p = pools();
    assert!(q.clean_probes().is_empty());
    assert_eq!(clean_tx_queue(&mut q, &mut p, &[]), 0);
    assert_eq!(q.bufs_in_use.len(), 31);
    assert_eq!(p[0].free_stack, vec![599]);
}

#[test]
fn a_batch_is_cleaned_when_its_last_descriptor_is_done() {
    let mut q = queue(512, 0, 32);
    let mut p = pools();
    assert_eq!(q.clean_probes(), vec![0x4000 + 31 * 16 + 12]);
    assert_eq!(clean_tx_queue(&mut q, &mut p, &[DONE]), 32);
    assert_eq!(q.clean_index, 32);
    assert_eq!(q.tx_index, 32);
    assert!(q.bufs_in_use.is_empty());
    let mut expected = vec![599];
    expected.extend(0..32);
    assert_eq!(p[0].free_stack, expected);
}

#[test]
fn a_batch_is_kept_while_its_last_descriptor_is_not_done() {
    let mut q = queue(512, 7, 40);
    let mut p = pools();
    assert_eq!(clean_tx_queue(&mut q, &mut p, &[2]), 7);
    assert_eq!(q.bufs_in_use.len(), 40);
    assert_eq!(p[0].free_stack.len(), 1);
}

#[test]
fn cleaning_stops_at_the_first_batch_that_is_not_done() {
    let mut q = queue(512, 10, 100);
    let mut p = pools();
    assert_eq!(
        q.clean_probes(),
        vec![
            0x4000 + 41 * 16 + 12,
            0x4000 + 73 * 16 + 12,
            0x4000 + 105 * 16 + 12
        ]
    );
    assert_eq!(clean_tx_queue(&mut q, &mut p, &[DONE, 0, DONE]), 42);
    assert_eq!(q.bufs_in_use.len(), 68);
    assert_eq!(q.bufs_in_use.front(), Some(&32));
    assert_eq!(p[0].free_stack.len(), 33);
    assert_eq!(p[0].free_stack[32], 31);
}

#[test]
fn cleaning_goes_round_the_ring() {
    let mut q = queue(64, 48, 40);
    let mut p = pools();
    assert_eq!(q.tx_index, 24);
    assert_eq!(q.clean_probes(), vec![0x4000 + 15 * 16 + 12]);
    assert_eq!(clean_tx_queue(&mut q, &mut p, &[DONE]), 16);
    assert_eq!(q.bufs_in_use, (32..40).collect::<VecDeque<usize>>());
}

#[test]
fn all_batches_can_be_cleaned_at_once() {
    let mut q = queue(512, 500, 511);
    let mut p = pools();
    assert_eq!(q.clean_probes().len(), 15);
    assert_eq!(clean_tx_queue(&mut q, &mut p, &[DONE; 15]), (500 + 480) % 512);
    assert_eq!(q.bufs_in_use.len(), 31);
    assert_eq!(p[0].free_stack.len(), 481);
}

#[test]
fn receive_status_is_behind_the_address() {
    let q = IxgbeRxQueue {
        descriptors: 0x4000,
        ring_phys: 0x8000,
        num_descriptors: 4,
        pool: 0,
        bufs_in_use: vec![0, 1, 2, 3],
        rx_index: 3,
    };
    assert_eq!(q.head_addrs(0), (0x4038, 0x403C));
    assert_eq!(q.head_addrs(1), (0x4008, 0x400C));
    assert_eq!(q.head_addrs(6), (0x4018, 0x401C));
    assert!(q.can_recv(1));
    assert!(q.can_recv(3));
    assert!(!q.can_recv(2));
    assert!(!q.can_recv(0));
}

#[test]
fn transmit_descriptor_fields() {
    let mut desc = AdvancedTxDescriptor {
        packet_buffer_address: 1,
        data_len: 2,
        dtyp_mac_rsv: 3,
        dcmd: 4,
        paylen_popts_cc_idx_sta: 5,
    };
    assert!(desc.packet_sent());
    desc.wait_for_packet_tx();
    desc.send(0x1_2345_6789, 60);
    assert_eq!(desc.packet_buffer_address, 0x1_2345_6789);
    assert_eq!(desc.data_len, 60);
    assert_eq!(desc.dtyp_mac_rsv, TX_DTYP_ADV);
    assert_eq!(desc.dcmd, 0x2B);
    assert_eq!(desc.dcmd & TX_CMD_EOP, TX_CMD_EOP);
    assert_eq!(desc.paylen_popts_cc_idx_sta, 60 << 14);
    assert!(!desc.packet_sent());
    desc.init();
    assert_eq!(
        desc,
        AdvancedTxDescriptor {
            packet_buffer_address: 0,
            data_len: 0,
            dtyp_mac_rsv: 0,
            dcmd: 0,
            paylen_popts_cc_idx_sta: 0,
        }
    );
}

#[test]
fn longest_packet_fills_the_length_field() {
    let mut desc = AdvancedTxDescriptor {
        packet_buffer_address: 0,
        data_len: 0,
        dtyp_mac_rsv: 0,
        dcmd: 0,
        paylen_popts_cc_idx_sta: 0,
    };
    desc.send(0, 0xFFFF);
    assert_eq!(desc.paylen_popts_cc_idx_sta, 0x3FFF_C000);
}
