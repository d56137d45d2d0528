//! The card's address, its counters and its link.

use core::time::Duration;
use ixgbe_driver::interrupts::Interrupts;
use ixgbe_driver::io::{clock_secs, link_speed, IoOp};
use ixgbe_driver::stats::{mac_from_halves, Counters};
use ixgbe_driver::{DeviceStats, IxgbeDevice, IxgbeHal, NicDevice, INTEL_82599, INTEL_VEND};
use std::marker::PhantomData;

struct Machine;

impl IxgbeHal for Machine {
    fn dma_alloc(_size: usize) -> (usize, usize) {
        (0x9000, 0x1000)
    }

    fn dma_dealloc(_paddr: usize, _vaddr: usize, _size: usize) -> i32 {
        0
    }

    fn mmio_phys_to_virt(paddr: usize, _size: usize) -> usize {
        paddr.max(1)
    }

    fn mmio_virt_to_phys(vaddr: usize, _size: usize) -> usize {
        vaddr
    }

    fn get_tsc_frequency() -> u64 {
        1
    }

    fn wait_until(_duration: Duration) -> Result<(), &'static str> {
        Ok(())
    }
}

fn device() -> IxgbeDevice<Machine> {
    IxgbeDevice {
        addr: 0x10_0000,
        len: 0x2_0000,
        num_rx_queues: 3,
        num_tx_queues: 2,
        rx_queues: Vec::new(),
        tx_queues: Vec::new(),
        interrupts: Interrupts::default(),
        marker: PhantomData,
    }
}

#[test]
fn identifiers_of_the_card() {
    assert_eq!(INTEL_VEND, 0x8086);
    assert_eq!(INTEL_82599, 0x10FB);
    assert_eq!(device().get_driver_name(), "ixgbe");
}

#[test]
fn queue_counts() {
    assert_eq!(device().num_rx_queues(), 3);
    assert_eq!(device().num_tx_queues(), 2);
}

#[test]
fn mac_address_from_halves() {
    assert_eq!(
        mac_from_halves(0x4433_2211, 0x8000_6655),
        [0x11, 0x22, 0x33, 0x44, 0x55, 0x66]
    );
    assert_eq!(
        device().get_mac_addr(0xFFEE_DDCC, 0x0000_BBAA),
        [0xCC, 0xDD, 0xEE, 0xFF, 0xAA, 0xBB]
    );
}

#[test]
fn mac_address_that_is_set_is_read_back() {
    let mac = [0x00, 0x1B, 0x21, 0xAB, 0xCD, 0xEF];
    let mut ops = Vec::new();
    device().set_mac_addr(mac, &mut ops);
    assert_eq!(
        ops,
        vec![
            IoOp::WriteReg { reg: 0x5400, value: 0xAB21_1B00 },
            IoOp::WriteReg { reg: 0x5404, value: 0x0000_EFCD },
        ]
    );
    assert_eq!(mac_from_halves(0xAB21_1B00, 0x0000_EFCD), mac);
    assert_eq!(device().mac_addr_regs(), [0x5400, 0x5404]);
}

#[test]
fn link_speeds() {
    assert_eq!(link_speed(0x3000_0000), 0);
    assert_eq!(link_speed(0x4000_0000), 0);
    assert_eq!(link_speed(0x5000_0000), 100);
    assert_eq!(link_speed(0x6000_0000), 1000);
    assert_eq!(link_speed(0x7000_0000), 10000);
    assert_eq!(device().get_link_speed(0x7000_0080), 10000);
    assert_eq!(device().link_reg(), 0x42A4);
}

#[test]
fn clock_in_seconds() {
    assert_eq!(clock_secs(29, 10), 2);
    assert_eq!(clock_secs(u64::MAX, 1), u64::MAX);
    assert_eq!(clock_secs(0, 3_000_000_000), 0);
}

#[test]
fn counters_are_added() {
    let mut stats = DeviceStats { rx_pkts: 1, tx_pkts: 2, rx_bytes: 3, tx_bytes: 4 };
    let counters = Counters {
        gprc: 10,
        gptc: 20,
        gorcl: 30,
        gorch: 1,
        gotcl: 0xFFFF_FFFF,
        gotch: 2,
    };
    device().read_stats(counters, &mut stats);
    assert_eq!(
        stats,
        DeviceStats {
            rx_pkts: 11,
            tx_pkts: 22,
            rx_bytes: 0x1_0000_0021,
            tx_bytes: 0x3_0000_0003,
        }
    );
    assert_eq!(
        device().stats_regs(),
        [0x4074, 0x4080, 0x4088, 0x408C, 0x4090, 0x4094]
    );
}

#[test]
fn counters_are_reset_by_reading() {
    let mut ops = Vec::new();
    device().reset_stats(&mut ops);
    assert_eq!(
        ops,
        vec![
            IoOp::ReadReg { reg: 0x4074 },
            IoOp::ReadReg { reg: 0x4080 },
            IoOp::ReadReg { reg: 0x4088 },
            IoOp::ReadReg { reg: 0x408C },
            IoOp::ReadReg { reg: 0x4090 },
            IoOp::ReadReg { reg: 0x4094 },
        ]
    );
}

#[test]
fn stats_as_text() {
    assert_eq!(
        DeviceStats::default().fmt(),
        "rx_pkts: 0, tx_pkts: 0, rx_bytes: 0, tx_bytes: 0"
    );
    let stats = DeviceStats { rx_pkts: 9, tx_pkts: 10, rx_bytes: 1_234_567_890, tx_bytes: u64::MAX };
    assert_eq!(
        stats.fmt(),
        "rx_pkts: 9, tx_pkts: 10, rx_bytes: 1234567890, tx_bytes: 18446744073709551615"
    );
}

#[test]
fn interrupts_are_off_at_first() {
    let settings = Interrupts::default();
    assert!(!settings.interrupts_enabled);
    assert_eq!(settings.itr_rate, 0);
    assert_eq!(settings.interrupt_type, 0);
    assert_eq!(settings.timeout_ms, 0);
    assert!(settings.queues.is_empty());
}
