//! What the driver asks of the card: the lists of operations that the functions of the device
//! produce.

use crate::constants::{
    IXGBE_AUTOC, IXGBE_AUTOC_10G_PMA_PMD_MASK, IXGBE_AUTOC_10G_XAUI, IXGBE_AUTOC_AN_RESTART,
    IXGBE_AUTOC_LMS_10G_SERIAL, IXGBE_AUTOC_LMS_MASK, IXGBE_CTRL, IXGBE_CTRL_EXT,
    IXGBE_CTRL_EXT_NS_DIS, IXGBE_CTRL_RST_MASK, IXGBE_DCA_RXCTRL, IXGBE_DMATXCTL,
    IXGBE_DMATXCTL_TE, IXGBE_DTXMXSZRQ, IXGBE_EEC, IXGBE_EEC_ARD, IXGBE_EIAC, IXGBE_EICR,
    IXGBE_EIMC, IXGBE_EIMS, IXGBE_EIMS_RTX_QUEUE, IXGBE_EITR, IXGBE_FCTRL, IXGBE_FCTRL_BAM,
    IXGBE_FCTRL_MPE, IXGBE_FCTRL_UPE, IXGBE_GORCH, IXGBE_GORCL, IXGBE_GOTCH, IXGBE_GOTCL,
    IXGBE_GPIE, IXGBE_GPIE_EIAME, IXGBE_GPIE_MSIX_MODE, IXGBE_GPIE_PBA_SUPPORT, IXGBE_GPRC,
    IXGBE_GPTC, IXGBE_HLREG0, IXGBE_HLREG0_RXCRCSTRP, IXGBE_HLREG0_TXCRCEN, IXGBE_HLREG0_TXPADEN,
    IXGBE_IRQ_CLEAR_MASK, IXGBE_IVAR, IXGBE_IVAR_ALLOC_VAL, IXGBE_LINKS, IXGBE_RAH, IXGBE_RAL,
    IXGBE_RDBAH, IXGBE_RDBAL, IXGBE_RDH, IXGBE_RDLEN, IXGBE_RDRXCTL, IXGBE_RDRXCTL_CRCSTRIP,
    IXGBE_RDRXCTL_DMAIDONE, IXGBE_RDT, IXGBE_RTTDCS, IXGBE_RTTDCS_ARBDIS, IXGBE_RXCTRL,
    IXGBE_RXCTRL_RXEN, IXGBE_RXDCTL, IXGBE_RXDCTL_ENABLE, IXGBE_RXPBSIZE, IXGBE_RXPBSIZE_128KB,
    IXGBE_SRRCTL, IXGBE_SRRCTL_DESCTYPE_ADV_ONEBUF, IXGBE_SRRCTL_DESCTYPE_MASK,
    IXGBE_SRRCTL_DROP_EN, IXGBE_TDBAH, IXGBE_TDBAL, IXGBE_TDH, IXGBE_TDLEN, IXGBE_TDT,
    IXGBE_TXDCTL, IXGBE_TXDCTL_ENABLE, IXGBE_TXPBSIZE, IXGBE_TXPBSIZE_40KB,
};
use crate::io::IoOp;
use crate::memory::{PhysAddr, PoolView, VirtAddr};
use crate::ring::{RxView, TxView};
use vstd::prelude::*;

verus! {

/// The number of descriptors of a receive queue.
pub const NUM_RX_QUEUE_ENTRIES: usize = 512;

/// The number of descriptors of a transmit queue.
pub const NUM_TX_QUEUE_ENTRIES: usize = 512;

/// The size of a descriptor ring in bytes.
pub const RING_BYTES: usize = 8192;

/// The byte that a descriptor ring is filled with at first, to prevent rogue memory accesses on
/// premature DMA activation.
pub const RING_FILL: u8 = 0xff;

/// The pause after a reset, in milliseconds.
pub const RESET_MILLIS: u64 = 1000;

/// The bit of the receive DCA control that is set after a reset and has to be cleared.
pub const DCA_RXCTRL_CLEAR: u32 = 0x1000;

/// The write-back thresholds of a transmit queue (pthresh: 6:0, hthresh: 14:8, wthresh: 22:16).
pub const TXDCTL_THRESHOLDS: u32 = 0x007f_7f7f;

/// The values of the write-back thresholds: 36, 8 and 4.
pub const TXDCTL_THRESHOLD_VALUES: u32 = 0x0004_0824;

/// Sets bits of a register.
pub open spec fn set_flags(reg: u32, flags: u32) -> IoOp {
    IoOp::ModifyReg { reg, clear: 0, set: flags }
}

/// Clears bits of a register.
pub open spec fn clear_flags(reg: u32, flags: u32) -> IoOp {
    IoOp::ModifyReg { reg, clear: flags, set: 0 }
}

/// The interrupt bit of a queue.
pub open spec fn queue_bit(queue_id: u16) -> u32 {
    1u32 << queue_id
}

/// The low half of an address.
pub open spec fn low_half(addr: PhysAddr) -> u32 {
    (addr as int % 0x1_0000_0000) as u32
}

/// The high half of an address.
pub open spec fn high_half(addr: PhysAddr) -> u32 {
    (addr as int / 0x1_0000_0000) as u32
}

/// Masks all interrupts out and forgets those that are pending.
pub open spec fn clear_interrupts_ops() -> Seq<IoOp> {
    seq![
        IoOp::WriteReg { reg: IXGBE_EIMC, value: IXGBE_IRQ_CLEAR_MASK },
        IoOp::ReadReg { reg: IXGBE_EICR },
    ]
}

/// Disables all interrupts.
pub open spec fn disable_interrupts_ops() -> Seq<IoOp> {
    seq![IoOp::WriteReg { reg: IXGBE_EIMS, value: 0 }] + clear_interrupts_ops()
}

/// Masks the interrupt of a queue out and forgets those that are pending.
pub open spec fn clear_interrupt_ops(queue_id: u16) -> Seq<IoOp> {
    seq![
        IoOp::WriteReg { reg: IXGBE_EIMC, value: queue_bit(queue_id) },
        IoOp::ReadReg { reg: IXGBE_EICR },
    ]
}

/// Disables the interrupt of a queue.
pub open spec fn disable_interrupt_ops(queue_id: u16) -> Seq<IoOp> {
    seq![clear_flags(IXGBE_EIMS, queue_bit(queue_id))] + clear_interrupt_ops(queue_id)
}

/// The position, in the interrupt vector register of a queue, of the entry for a direction.
pub open spec fn ivar_shift(direction: u32, queue: u16) -> int {
    16 * (queue as int % 2) + 8 * direction
}

/// Maps an interrupt cause to a vector.
pub open spec fn ivar_op(direction: u32, queue: u16, msix_vector: u32) -> IoOp {
    let shift = ivar_shift(direction, queue) as u32;
    IoOp::ModifyReg {
        reg: IXGBE_IVAR((queue as int / 2) as u32),
        clear: 0xFFu32 << shift,
        set: (msix_vector | IXGBE_IVAR_ALLOC_VAL) << shift,
    }
}

/// Enables the MSI interrupt of a queue.
pub open spec fn enable_msi_ops(queue_id: u16, itr_rate: u32) -> Seq<IoOp> {
    seq![
        ivar_op(0, queue_id, 0),
        IoOp::WriteReg { reg: IXGBE_EIAC, value: 0 },
        IoOp::WriteReg { reg: IXGBE_EITR(queue_id as u32), value: itr_rate },
    ] + clear_interrupts_ops() + seq![set_flags(IXGBE_EIMS, queue_bit(queue_id))]
}

/// Enables the MSI-X interrupt of a queue.
pub open spec fn enable_msix_ops(queue_id: u16, itr_rate: u32) -> Seq<IoOp> {
    seq![
        set_flags(
            IXGBE_GPIE,
            IXGBE_GPIE_MSIX_MODE | IXGBE_GPIE_PBA_SUPPORT | IXGBE_GPIE_EIAME,
        ),
        ivar_op(0, queue_id, queue_id as u32),
        IoOp::WriteReg { reg: IXGBE_EIAC, value: IXGBE_EIMS_RTX_QUEUE },
        IoOp::WriteReg { reg: IXGBE_EITR(queue_id as u32), value: itr_rate },
        set_flags(IXGBE_EIMS, queue_bit(queue_id)),
    ]
}

/// Starts negotiating a 10 Gb/s link.
pub open spec fn init_link_ops() -> Seq<IoOp> {
    seq![
        IoOp::ModifyReg {
            reg: IXGBE_AUTOC,
            clear: IXGBE_AUTOC_LMS_MASK,
            set: IXGBE_AUTOC_LMS_10G_SERIAL,
        },
        IoOp::ModifyReg {
            reg: IXGBE_AUTOC,
            clear: IXGBE_AUTOC_10G_PMA_PMD_MASK,
            set: IXGBE_AUTOC_10G_XAUI,
        },
        set_flags(IXGBE_AUTOC, IXGBE_AUTOC_AN_RESTART),
    ]
}

/// The counters of the card; reading one resets it.
pub open spec fn reset_stats_ops() -> Seq<IoOp> {
    seq![
        IoOp::ReadReg { reg: IXGBE_GPRC },
        IoOp::ReadReg { reg: IXGBE_GPTC },
        IoOp::ReadReg { reg: IXGBE_GORCL },
        IoOp::ReadReg { reg: IXGBE_GORCH },
        IoOp::ReadReg { reg: IXGBE_GOTCL },
        IoOp::ReadReg { reg: IXGBE_GOTCH },
    ]
}

/// Turns promiscuous mode on or off.
pub open spec fn promisc_op(enabled: bool) -> IoOp {
    if enabled {
        set_flags(IXGBE_FCTRL, IXGBE_FCTRL_MPE | IXGBE_FCTRL_UPE)
    } else {
        clear_flags(IXGBE_FCTRL, IXGBE_FCTRL_MPE | IXGBE_FCTRL_UPE)
    }
}

/// What comes first when the receive queues are set up.
pub open spec fn rx_before_ops() -> Seq<IoOp> {
    seq![
        clear_flags(IXGBE_RXCTRL, IXGBE_RXCTRL_RXEN),
        IoOp::WriteReg { reg: IXGBE_RXPBSIZE(0), value: IXGBE_RXPBSIZE_128KB },
    ] + Seq::new(
        7,
        |i: int| IoOp::WriteReg { reg: IXGBE_RXPBSIZE((i + 1) as u32), value: 0 },
    ) + seq![
        set_flags(IXGBE_HLREG0, IXGBE_HLREG0_RXCRCSTRP),
        set_flags(IXGBE_RDRXCTL, IXGBE_RDRXCTL_CRCSTRIP),
        set_flags(IXGBE_FCTRL, IXGBE_FCTRL_BAM),
    ]
}

/// Configures receive queue `i`, before it has a ring.
pub open spec fn rx_type_ops(i: int) -> Seq<IoOp> {
    let id = i as u32;
    seq![
        IoOp::ModifyReg {
            reg: IXGBE_SRRCTL(id),
            clear: IXGBE_SRRCTL_DESCTYPE_MASK,
            set: IXGBE_SRRCTL_DESCTYPE_ADV_ONEBUF,
        },
        set_flags(IXGBE_SRRCTL(id), IXGBE_SRRCTL_DROP_EN),
    ]
}

/// Hands a ring at the given addresses to receive queue `i`.
pub open spec fn rx_ring_ops(i: int, virt: VirtAddr, phys: PhysAddr) -> Seq<IoOp> {
    let id = i as u32;
    seq![
        IoOp::Fill { addr: virt, len: RING_BYTES, byte: RING_FILL },
        IoOp::WriteReg { reg: IXGBE_RDBAL(id), value: low_half(phys) },
        IoOp::WriteReg { reg: IXGBE_RDBAH(id), value: high_half(phys) },
        IoOp::WriteReg { reg: IXGBE_RDLEN(id), value: RING_BYTES as u32 },
        IoOp::WriteReg { reg: IXGBE_RDH(id), value: 0 },
        IoOp::WriteReg { reg: IXGBE_RDT(id), value: 0 },
    ]
}

/// Sets receive queue `i` up, whose ring is at the given addresses.
pub open spec fn rx_queue_ops(i: int, virt: VirtAddr, phys: PhysAddr) -> Seq<IoOp> {
    rx_type_ops(i) + rx_ring_ops(i, virt, phys)
}

/// Sets the first `count` receive queues up, one after the other.
pub open spec fn rx_queues_ops(queues: Seq<RxView>, count: int) -> Seq<IoOp>
    decreases count,
{
    if count <= 0 {
        Seq::empty()
    } else {
        rx_queues_ops(queues, count - 1) + rx_queue_ops(
            count - 1,
            queues[count - 1].descriptors as usize,
            queues[count - 1].ring_phys,
        )
    }
}

/// What comes last when `count` receive queues are set up.
pub open spec fn rx_after_ops(count: int) -> Seq<IoOp> {
    seq![set_flags(IXGBE_CTRL_EXT, IXGBE_CTRL_EXT_NS_DIS)] + Seq::new(
        count as nat,
        |i: int| clear_flags(IXGBE_DCA_RXCTRL(i as u32), DCA_RXCTRL_CLEAR),
    ) + seq![set_flags(IXGBE_RXCTRL, IXGBE_RXCTRL_RXEN)]
}

/// Sets the receive queues up.
pub open spec fn init_rx_ops(queues: Seq<RxView>) -> Seq<IoOp> {
    rx_before_ops() + rx_queues_ops(queues, queues.len() as int) + rx_after_ops(
        queues.len() as int,
    )
}

/// What comes first when the transmit queues are set up.
pub open spec fn tx_before_ops() -> Seq<IoOp> {
    seq![
        set_flags(IXGBE_HLREG0, IXGBE_HLREG0_TXCRCEN | IXGBE_HLREG0_TXPADEN),
        IoOp::WriteReg { reg: IXGBE_TXPBSIZE(0), value: IXGBE_TXPBSIZE_40KB },
    ] + Seq::new(
        7,
        |i: int| IoOp::WriteReg { reg: IXGBE_TXPBSIZE((i + 1) as u32), value: 0 },
    ) + seq![
        IoOp::WriteReg { reg: IXGBE_DTXMXSZRQ, value: 0xffff },
        clear_flags(IXGBE_RTTDCS, IXGBE_RTTDCS_ARBDIS),
    ]
}

/// Sets transmit queue `i` up, whose ring is at the given addresses.
pub open spec fn tx_queue_ops(i: int, virt: VirtAddr, phys: PhysAddr) -> Seq<IoOp> {
    let id = i as u32;
    seq![
        IoOp::Fill { addr: virt, len: RING_BYTES, byte: RING_FILL },
        IoOp::WriteReg { reg: IXGBE_TDBAL(id), value: low_half(phys) },
        IoOp::WriteReg { reg: IXGBE_TDBAH(id), value: high_half(phys) },
        IoOp::WriteReg { reg: IXGBE_TDLEN(id), value: RING_BYTES as u32 },
        IoOp::ModifyReg {
            reg: IXGBE_TXDCTL(id),
            clear: TXDCTL_THRESHOLDS,
            set: TXDCTL_THRESHOLD_VALUES,
        },
    ]
}

/// Sets the first `count` transmit queues up, one after the other.
pub open spec fn tx_queues_ops(queues: Seq<TxView>, count: int) -> Seq<IoOp>
    decreases count,
{
    if count <= 0 {
        Seq::empty()
    } else {
        tx_queues_ops(queues, count - 1) + tx_queue_ops(
            count - 1,
            queues[count - 1].descriptors as usize,
            queues[count - 1].ring_phys,
        )
    }
}

/// Enables sending.
pub open spec fn tx_enable_op() -> IoOp {
    IoOp::WriteReg { reg: IXGBE_DMATXCTL, value: IXGBE_DMATXCTL_TE }
}

/// Sets the transmit queues up.
pub open spec fn init_tx_ops(queues: Seq<TxView>) -> Seq<IoOp> {
    tx_before_ops() + tx_queues_ops(queues, queues.len() as int) + seq![tx_enable_op()]
}

/// Hands the buffers `ids` of `pool` to the first `count` descriptors of a receive queue.
pub open spec fn stock_ops(
    queue: RxView,
    pool: PoolView,
    ids: Seq<usize>,
    count: int,
) -> Seq<IoOp>
    decreases count,
{
    if count <= 0 {
        Seq::empty()
    } else {
        stock_ops(queue, pool, ids, count - 1) + refill_ops(
            queue,
            count - 1,
            pool.phys_addr[ids[count - 1] as int],
        )
    }
}

/// Hands the buffer at `phys` to descriptor `i` of a receive queue.
pub open spec fn refill_ops(queue: RxView, i: int, phys: PhysAddr) -> Seq<IoOp> {
    seq![
        IoOp::Store64 { addr: queue.descriptor(i) as usize, value: phys as u64 },
        IoOp::Store64 { addr: (queue.descriptor(i) + 8) as usize, value: 0 },
    ]
}

/// Enables receive queue `i`, whose ring is full of buffers.
pub open spec fn enable_rx_ops(i: int, num_descriptors: int) -> Seq<IoOp> {
    let id = i as u32;
    seq![
        set_flags(IXGBE_RXDCTL(id), IXGBE_RXDCTL_ENABLE),
        IoOp::WaitSet { reg: IXGBE_RXDCTL(id), mask: IXGBE_RXDCTL_ENABLE },
        IoOp::WriteReg { reg: IXGBE_RDH(id), value: 0 },
        IoOp::WriteReg { reg: IXGBE_RDT(id), value: (num_descriptors - 1) as u32 },
    ]
}

/// Stocks and enables the first `count` receive queues.
pub open spec fn start_rx_ops(
    queues: Seq<RxView>,
    pools: Seq<PoolView>,
    count: int,
) -> Seq<IoOp>
    decreases count,
{
    if count <= 0 {
        Seq::empty()
    } else {
        let q = queues[count - 1];
        start_rx_ops(queues, pools, count - 1) + (stock_ops(
            q,
            pools[q.pool as int],
            q.bufs,
            q.num_descriptors,
        ) + enable_rx_ops(count - 1, q.num_descriptors))
    }
}

/// Enables transmit queue `i`, whose ring is empty.
pub open spec fn enable_tx_ops(i: int) -> Seq<IoOp> {
    let id = i as u32;
    seq![
        IoOp::WriteReg { reg: IXGBE_TDH(id), value: 0 },
        IoOp::WriteReg { reg: IXGBE_TDT(id), value: 0 },
        set_flags(IXGBE_TXDCTL(id), IXGBE_TXDCTL_ENABLE),
        IoOp::WaitSet { reg: IXGBE_TXDCTL(id), mask: IXGBE_TXDCTL_ENABLE },
    ]
}

/// Enables the first `count` transmit queues.
pub open spec fn start_tx_ops(count: int) -> Seq<IoOp>
    decreases count,
{
    if count <= 0 {
        Seq::empty()
    } else {
        start_tx_ops(count - 1) + enable_tx_ops(count - 1)
    }
}

/// Resets the card and waits until it is ready to be set up.
pub open spec fn reset_ops() -> Seq<IoOp> {
    disable_interrupts_ops() + seq![
        IoOp::WriteReg { reg: IXGBE_CTRL, value: IXGBE_CTRL_RST_MASK },
        IoOp::WaitClear { reg: IXGBE_CTRL, mask: IXGBE_CTRL_RST_MASK },
        IoOp::Sleep { millis: RESET_MILLIS },
    ] + disable_interrupts_ops() + seq![
        IoOp::ReadReg { reg: IXGBE_RAL(0) },
        IoOp::ReadReg { reg: IXGBE_RAH(0) },
        IoOp::WaitSet { reg: IXGBE_EEC, mask: IXGBE_EEC_ARD },
        IoOp::WaitSet { reg: IXGBE_RDRXCTL, mask: IXGBE_RDRXCTL_DMAIDONE },
    ]
}

/// Waits for the link, for some time, and looks at it.
pub open spec fn wait_for_link_ops() -> Seq<IoOp> {
    seq![IoOp::WaitLink, IoOp::ReadReg { reg: IXGBE_LINKS }]
}

/// Resets the card and sets it up. `rx` and `tx` are the queues as they are afterwards, with their
/// rings and buffers, and `pools` the pools.
pub open spec fn init_ops(rx: Seq<RxView>, tx: Seq<TxView>, pools: Seq<PoolView>) -> Seq<IoOp> {
    reset_ops() + init_link_ops() + reset_stats_ops() + init_rx_ops(rx) + init_tx_ops(tx)
        + start_rx_ops(rx, pools, rx.len() as int) + start_tx_ops(tx.len() as int) + seq![
        promisc_op(true),
    ] + wait_for_link_ops()
}

} // verus!
