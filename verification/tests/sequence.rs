//! Carrying operations out.

use core::time::Duration;
use ixgbe_driver::interrupts::Interrupts;
use ixgbe_driver::io::{Command, Event, IoOp, Sequence, LINK_TIMEOUT_SECS, POLL_MILLIS};
use ixgbe_driver::{IxgbeDevice, IxgbeHal};
use std::marker::PhantomData;

struct Machine;

impl IxgbeHal for Machine {
    fn dma_alloc(_size: usize) -> (usize, usize) {
        (0x9000, 0x1000)
    }

    fn dma_dealloc(_paddr: usize, _vaddr: usize, _size: usize) -> i32 {
        0
    }

    fn mmio_phys_to_virt(paddr: usize, _size: usize) -> usize {
        paddr.max(1)
    }

    fn mmio_virt_to_phys(vaddr: usize, _size: usize) -> usize {
        vaddr
    }

    fn get_tsc_frequency() -> u64 {
        1
    }

    fn wait_until(_duration: Duration) -> Result<(), &'static str> {
        Ok(())
    }
}

fn device(itr_rate: u32) -> IxgbeDevice<Machine> {
    IxgbeDevice {
        addr: 0x10_0000,
        len: 0x2_0000,
        num_rx_queues: 0,
        num_tx_queues: 0,
        rx_queues: Vec::new(),
        tx_queues: Vec::new(),
        interrupts: Interrupts { itr_rate, ..Interrupts::default() },
        marker: PhantomData,
    }
}

#[test]
fn writes_go_out_as_they_are() {
    let mut seq = Sequence::new(vec![
        IoOp::WriteReg { reg: 4, value: 7 },
        IoOp::Sleep { millis: 5 },
        IoOp::Fill { addr: 64, len: 16, byte: 0xFF },
        IoOp::Store32 { addr: 80, value: 1 },
        IoOp::Store64 { addr: 88, value: 2 },
    ]);
    assert_eq!(seq.step(Event::Done), Command::WriteReg { reg: 4, value: 7 });
    assert_eq!(seq.step(Event::Done), Command::Sleep { millis: 5 });
    assert_eq!(seq.step(Event::Done), Command::Fill { addr: 64, len: 16, byte: 0xFF });
    assert_eq!(seq.step(Event::Done), Command::Store32 { addr: 80, value: 1 });
    assert_eq!(seq.step(Event::Done), Command::Store64 { addr: 88, value: 2 });
    assert_eq!(seq.step(Event::Done), Command::Finished);
    assert_eq!(seq.step(Event::Done), Command::Finished);
}

#[test]
fn empty_sequence_is_finished() {
    assert_eq!(Sequence::new(Vec::new()).step(Event::Done), Command::Finished);
}

#[test]
fn modifying_reads_and_writes() {
    let mut seq = Sequence::new(vec![IoOp::ModifyReg { reg: 8, clear: 0xF0, set: 0x21 }]);
    assert_eq!(seq.step(Event::Done), Command::ReadReg { reg: 8 });
    assert_eq!(
        seq.step(Event::Value { value: 0xABCD }),
        Command::WriteReg { reg: 8, value: 0xAB2D }
    );
    assert_eq!(seq.step(Event::Done), Command::Finished);
}

#[test]
fn reading_goes_on_with_the_next_operation() {
    let mut seq = Sequence::new(vec![
        IoOp::ReadReg { reg: 8 },
        IoOp::WriteReg { reg: 12, value: 1 },
    ]);
    assert_eq!(seq.step(Event::Done), Command::ReadReg { reg: 8 });
    assert_eq!(
        seq.step(Event::Value { value: 99 }),
        Command::WriteReg { reg: 12, value: 1 }
    );
    assert_eq!(seq.step(Event::Done), Command::Finished);
}

#[test]
fn waiting_for_bits_to_clear() {
    let mut seq = Sequence::new(vec![IoOp::WaitClear { reg: 0, mask: 6 }]);
    assert_eq!(seq.step(Event::Done), Command::ReadReg { reg: 0 });
    assert_eq!(
        seq.step(Event::Value { value: 2 }),
        Command::Sleep { millis: POLL_MILLIS }
    );
    assert_eq!(seq.step(Event::Done), Command::ReadReg { reg: 0 });
    assert_eq!(seq.step(Event::Value { value: 9 }), Command::Finished);
}

#[test]
fn waiting_for_bits_to_set() {
    let mut seq = Sequence::new(vec![IoOp::WaitSet { reg: 0, mask: 6 }]);
    assert_eq!(seq.step(Event::Done), Command::ReadReg { reg: 0 });
    assert_eq!(seq.step(Event::Value { value: 2 }), Command::Sleep { millis: 100 });
    assert_eq!(seq.step(Event::Done), Command::ReadReg { reg: 0 });
    assert_eq!(seq.step(Event::Value { value: 5 }), Command::Sleep { millis: 100 });
    assert_eq!(seq.step(Event::Done), Command::ReadReg { reg: 0 });
    assert_eq!(seq.step(Event::Value { value: 7 }), Command::Finished);
}

#[test]
fn waiting_for_the_link_ends_when_it_is_up() {
    let mut seq = Sequence::new(vec![IoOp::WaitLink]);
    assert_eq!(seq.step(Event::Done), Command::ReadClock);
    assert_eq!(seq.step(Event::Clock { secs: 100 }), Command::ReadReg { reg: 0x42A4 });
    assert_eq!(seq.step(Event::Value { value: 0 }), Command::ReadClock);
    assert_eq!(seq.step(Event::Clock { secs: 109 }), Command::ReadReg { reg: 0x42A4 });
    assert_eq!(seq.step(Event::Value { value: 0x7000_0000 }), Command::Finished);
}

#[test]
fn waiting_for_the_link_ends_when_the_time_is_over() {
    let mut seq = Sequence::new(vec![IoOp::WaitLink, IoOp::ReadReg { reg: 0x42A4 }]);
    assert_eq!(seq.step(Event::Done), Command::ReadClock);
    assert_eq!(seq.step(Event::Clock { secs: 100 }), Command::ReadReg { reg: 0x42A4 });
    assert_eq!(seq.step(Event::Value { value: 0x4000_0000 }), Command::ReadClock);
    assert_eq!(
        seq.step(Event::Clock { secs: 100 + LINK_TIMEOUT_SECS }),
        Command::ReadReg { reg: 0x42A4 }
    );
    assert_eq!(seq.step(Event::Value { value: 0 }), Command::Finished);
}

#[test]
fn sequence_waits_for_one_kind_of_event() {
    let mut seq = Sequence::new(vec![IoOp::WaitLink]);
    assert!(seq.accepts(Event::Done));
    assert!(!seq.accepts(Event::Value { value: 0 }));
    seq.step(Event::Done);
    assert!(seq.accepts(Event::Clock { secs: 0 }));
    assert!(!seq.accepts(Event::Done));
    seq.step(Event::Clock { secs: 100 });
    assert!(seq.accepts(Event::Value { value: 0 }));
    assert!(!seq.accepts(Event::Clock { secs: 100 }));
    seq.step(Event::Value { value: 0 });
    assert!(!seq.accepts(Event::Clock { secs: 99 }));
    assert!(seq.accepts(Event::Clock { secs: 105 }));
    // the clock may step back, but not behind the start
    seq.step(Event::Clock { secs: 105 });
    seq.step(Event::Value { value: 0 });
    assert!(seq.accepts(Event::Clock { secs: 100 }));
}

#[test]
fn register_operations() {
    let dev = device(0);
    let mut ops = Vec::new();
    dev.set_reg32(&mut ops, 0x10, 1);
    dev.get_reg32(&mut ops, 0x14);
    dev.set_flags32(&mut ops, 0x18, 2);
    dev.clear_flags32(&mut ops, 0x1C, 4);
    dev.wait_clear_reg32(&mut ops, 0x20, 8);
    dev.wait_set_reg32(&mut ops, 0x24, 16);
    assert_eq!(
        ops,
        vec![
            IoOp::WriteReg { reg: 0x10, value: 1 },
            IoOp::ReadReg { reg: 0x14 },
            IoOp::ModifyReg { reg: 0x18, clear: 0, set: 2 },
            IoOp::ModifyReg { reg: 0x1C, clear: 4, set: 0 },
            IoOp::WaitClear { reg: 0x20, mask: 8 },
            IoOp::WaitSet { reg: 0x24, mask: 16 },
        ]
    );
    assert_eq!(dev.reg_addr(0x24), 0x10_0024);
    assert_eq!(dev.reg_addr(0x1_FFFC), 0x11_FFFC);
}

#[test]
fn interrupt_vector_entries() {
    let dev = device(0);
    let mut ops = Vec::new();
    dev.set_ivar(&mut ops, 0, 2, 0);
    dev.set_ivar(&mut ops, 1, 2, 3);
    dev.set_ivar(&mut ops, 0, 5, 4);
    dev.set_ivar(&mut ops, 1, 5, 5);
    assert_eq!(
        ops,
        vec![
            IoOp::ModifyReg { reg: 0x904, clear: 0xFF, set: 0x80 },
            IoOp::ModifyReg { reg: 0x904, clear: 0xFF00, set: 0x8300 },
            IoOp::ModifyReg { reg: 0x908, clear: 0xFF_0000, set: 0x84_0000 },
            IoOp::ModifyReg { reg: 0x908, clear: 0xFF00_0000, set: 0x8500_0000 },
        ]
    );
}

#[test]
fn interrupts_are_disabled_for_all_queues() {
    let mut ops = Vec::new();
    device(0).disable_interrupts(&mut ops);
    assert_eq!(
        ops,
        vec![
            IoOp::WriteReg { reg: 0x880, value: 0 },
            IoOp::WriteReg { reg: 0x888, value: 0xFFFF_FFFF },
            IoOp::ReadReg { reg: 0x800 },
        ]
    );
}

#[test]
fn interrupt_is_disabled_for_one_queue() {
    let mut ops = Vec::new();
    device(0).disable_interrupt(&mut ops, 3);
    assert_eq!(
        ops,
        vec![
            IoOp::ModifyReg { reg: 0x880, clear: 8, set: 0 },
            IoOp::WriteReg { reg: 0x888, value: 8 },
            IoOp::ReadReg { reg: 0x800 },
        ]
    );
}

#[test]
fn msi_interrupt_is_enabled() {
    let mut ops = Vec::new();
    device(0x28).enable_msi_interrupt(&mut ops, 1);
    assert_eq!(
        ops,
        vec![
            IoOp::ModifyReg { reg: 0x900, clear: 0xFF_0000, set: 0x80_0000 },
            IoOp::WriteReg { reg: 0x810, value: 0 },
            IoOp::WriteReg { reg: 0x824, value: 0x28 },
            IoOp::WriteReg { reg: 0x888, value: 0xFFFF_FFFF },
            IoOp::ReadReg { reg: 0x800 },
            IoOp::ModifyReg { reg: 0x880, clear: 0, set: 2 },
        ]
    );
}

#[test]
fn msix_interrupt_is_enabled() {
    let mut ops = Vec::new();
    device(0x190).enable_msix_interrupt(&mut ops, 25);
    assert_eq!(
        ops,
        vec![
            IoOp::ModifyReg { reg: 0x898, clear: 0, set: 0xC000_0010 },
            IoOp::ModifyReg { reg: 0x930, clear: 0xFF_0000, set: 0x99_0000 },
            IoOp::WriteReg { reg: 0x810, value: 0xFFFF },
            IoOp::WriteReg { reg: 0x1_2304, value: 0x190 },
            IoOp::ModifyReg { reg: 0x880, clear: 0, set: 0x200_0000 },
        ]
    );
}

#[test]
fn link_is_initialized() {
    let mut ops = Vec::new();
    device(0).init_link(&mut ops);
    assert_eq!(
        ops,
        vec![
            IoOp::ModifyReg { reg: 0x42A0, clear: 0xE000, set: 0x6000 },
            IoOp::ModifyReg { reg: 0x42A0, clear: 0x180, set: 0 },
            IoOp::ModifyReg { reg: 0x42A0, clear: 0, set: 0x1000 },
        ]
    );
}

#[test]
fn promiscuous_mode() {
    let dev = device(0);
    let mut ops = Vec::new();
    dev.set_promisc(&mut ops, true);
    dev.set_promisc(&mut ops, false);
    assert_eq!(
        ops,
        vec![
            IoOp::ModifyReg { reg: 0x5080, clear: 0, set: 0x300 },
            IoOp::ModifyReg { reg: 0x5080, clear: 0x300, set: 0 },
        ]
    );
}

#[test]
fn link_is_looked_at_after_the_wait() {
    let mut ops = Vec::new();
    device(0).wait_for_link(&mut ops);
    assert_eq!(ops, vec![IoOp::WaitLink, IoOp::ReadReg { reg: 0x42A4 }]);
}
