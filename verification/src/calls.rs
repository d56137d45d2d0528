//! What a call of a function of the library returns and changes, as its caller sees it.

use crate::descriptor::AdvancedTxDescriptor;
use crate::effects;
use crate::hal::IxgbeHal;
use crate::init;
use crate::init::{InitStep, Stage};
use crate::io;
use crate::io::{Command, Event, IoOp, Phase, Sequence};
use crate::ixgbe::{DeviceView, IxgbeDevice};
use crate::memory;
use crate::memory::{Dma, MemPool, Packet, PhysAddr, PoolId, PoolView, Prefetch, VirtAddr};
use crate::nic::{NicDevice, RxBuffer, TxBuffer};
use crate::programs;
use crate::results;
use crate::ring;
use crate::ring::{IxgbeRxQueue, IxgbeTxQueue, RxView, RxWriteback, TxView};
use crate::stats;
use crate::stats::{Counters, DeviceStats};
use crate::{IxgbeError, IxgbeResult};
use vstd::prelude::*;

verus! {

// The card's address, link and counters

/// The address that is returned has the first four bytes from the low half, the first one lowest,
/// and the last two from the high half.
pub proof fn law_get_mac_addr<H: IxgbeHal>(
    dev: IxgbeDevice<H>,
    low: u32,
    high: u32,
    r: [u8; 6],
    i: u32,
)
    requires
        call_ensures(<IxgbeDevice<H> as NicDevice<H>>::get_mac_addr, (&dev, low, high), r)
            || call_ensures(stats::mac_from_halves, (low, high), r),
        i < 6,
    ensures
        i < 4 ==> r@[i as int] == (low >> ((8 * i) as u32)) & 0xff,
        i >= 4 ==> r@[i as int] == (high >> ((8 * (i - 4)) as u32)) & 0xff,
{
    results::law_mac_byte(low, high, i);
}

/// Setting the address adds two writes: to register 0x5400, with the first four bytes, the first
/// one lowest, and to register 0x5404, with the last two.
pub proof fn law_set_mac_addr<H: IxgbeHal>(dev: IxgbeDevice<H>, mac: [u8; 6], i: u32)
    requires
        i < 6,
    ensures
        forall|ops: &mut Vec<IoOp>|
            #[trigger] call_ensures(IxgbeDevice::<H>::set_mac_addr, (&dev, mac, ops), ()) ==> {
                let before = (*ops)@;
                let after = final(ops)@;
                let n = before.len() as int;
                &&& after.len() == n + 2
                &&& after.take(n) == before
                &&& after[n] matches IoOp::WriteReg { reg, value } && {
                    &&& reg == 0x5400
                    &&& i < 4 ==> (value >> ((8 * i) as u32)) & 0xff == mac@[i as int]
                }
                &&& after[n + 1] matches IoOp::WriteReg { reg, value } && {
                    &&& reg == 0x5404
                    &&& i >= 4 ==> (value >> ((8 * (i - 4)) as u32)) & 0xff == mac@[i as int]
                }
            },
{
    results::law_set_mac(mac@, i);
    assert forall|ops: &mut Vec<IoOp>|
        #[trigger] call_ensures(
            IxgbeDevice::<H>::set_mac_addr,
            (&dev, mac, ops),
            (),
        ) implies final(ops)@.take((*ops)@.len() as int) == (*ops)@ by {
        assert(final(ops)@.take((*ops)@.len() as int) =~= (*ops)@);
    }
}

/// The registers of the address, of the link and of the counters.
pub proof fn law_registers_to_read<H: IxgbeHal>(
    dev: IxgbeDevice<H>,
    mac: [u32; 2],
    link: u32,
    counters: [u32; 6],
)
    requires
        call_ensures(IxgbeDevice::<H>::mac_addr_regs, (&dev,), mac),
        call_ensures(IxgbeDevice::<H>::link_reg, (&dev,), link),
        call_ensures(IxgbeDevice::<H>::stats_regs, (&dev,), counters),
    ensures
        mac@ == seq![0x5400u32, 0x5404u32],
        link == 0x42A4,
        counters@ == seq![0x4074u32, 0x4080u32, 0x4088u32, 0x408Cu32, 0x4090u32, 0x4094u32],
{
}

/// Reading the counters adds the packets, and the bytes, that each direction's own counters hold,
/// the second byte counter of each counting in steps of four gigabytes.
pub proof fn law_read_stats<H: IxgbeHal>(dev: IxgbeDevice<H>, counters: Counters)
    ensures
        forall|stats: &mut DeviceStats|
            #[trigger] call_ensures(IxgbeDevice::<H>::read_stats, (&dev, counters, stats), ()) ==> {
                &&& final(stats).rx_pkts - (*stats).rx_pkts == counters.gprc
                &&& final(stats).tx_pkts - (*stats).tx_pkts == counters.gptc
                &&& final(stats).rx_bytes - (*stats).rx_bytes == counters.gorcl + 0x1_0000_0000
                    * counters.gorch
                &&& final(stats).tx_bytes - (*stats).tx_bytes == counters.gotcl + 0x1_0000_0000
                    * counters.gotch
            },
{
}

/// Resetting the counters adds one read of each of them.
pub proof fn law_reset_stats<H: IxgbeHal>()
    ensures
        forall|dev: &mut IxgbeDevice<H>, ops: &mut Vec<IoOp>|
            #[trigger] call_ensures(
                <IxgbeDevice<H> as NicDevice<H>>::reset_stats,
                (dev, ops),
                (),
            ) ==> {
                &&& *final(dev) == *dev
                &&& final(ops)@ == (*ops)@ + seq![
                    IoOp::ReadReg { reg: 0x4074 },
                    IoOp::ReadReg { reg: 0x4080 },
                    IoOp::ReadReg { reg: 0x4088 },
                    IoOp::ReadReg { reg: 0x408C },
                    IoOp::ReadReg { reg: 0x4090 },
                    IoOp::ReadReg { reg: 0x4094 },
                ]
            },
{
    effects::law_link_and_counters();
}

/// The link speed that is returned is 0 while bit 30 of the status is clear, and then given by bits
/// 28 and 29.
pub proof fn law_get_link_speed<H: IxgbeHal>(dev: IxgbeDevice<H>, links: u32, r: u16)
    requires
        call_ensures(<IxgbeDevice<H> as NicDevice<H>>::get_link_speed, (&dev, links), r)
            || call_ensures(io::link_speed, (links,), r),
    ensures
        links / 0x4000_0000 % 2 == 0 ==> r == 0,
        links / 0x4000_0000 % 2 == 1 ==> r == (if links / 0x1000_0000 % 4 == 1 {
            100
        } else if links / 0x1000_0000 % 4 == 2 {
            1000
        } else if links / 0x1000_0000 % 4 == 3 {
            10000
        } else {
            0int
        }),
{
    effects::law_link_speed(links);
}

/// The seconds that are returned are those that have passed in full.
pub proof fn law_clock_secs(tsc: u64, frequency: u64, r: u64)
    requires
        frequency > 0,
        call_ensures(io::clock_secs, (tsc, frequency), r),
    ensures
        r * frequency <= tsc < (r + 1) * frequency,
{
    assert(r * frequency <= tsc < (r + 1) * frequency) by (nonlinear_arith)
        requires
            frequency > 0,
            r == tsc as int / frequency as int,
    ;
}

/// The name of the driver, and the numbers of its queues.
pub proof fn law_names_and_numbers<H: IxgbeHal>(
    dev: IxgbeDevice<H>,
    name: &str,
    rx: u16,
    tx: u16,
)
    requires
        call_ensures(<IxgbeDevice<H> as NicDevice<H>>::get_driver_name, (&dev,), name),
        call_ensures(IxgbeDevice::<H>::num_rx_queues, (&dev,), rx),
        call_ensures(IxgbeDevice::<H>::num_tx_queues, (&dev,), tx),
    ensures
        name@ == "ixgbe"@,
        rx == dev.num_rx_queues,
        tx == dev.num_tx_queues,
{
}

/// The stats as a text: each number stands behind its name, in decimal notation.
pub proof fn law_stats_text(stats: DeviceStats, r: String)
    requires
        call_ensures(DeviceStats::fmt, (&stats,), r),
    ensures
        r@ == "rx_pkts: "@ + stats::decimal(stats.rx_pkts as nat) + ", tx_pkts: "@ + stats::decimal(
            stats.tx_pkts as nat,
        ) + ", rx_bytes: "@ + stats::decimal(stats.rx_bytes as nat) + ", tx_bytes: "@
            + stats::decimal(stats.tx_bytes as nat),
{
}

// Registers

/// A register lies at its number from the address of the device on.
pub proof fn law_reg_addr<H: IxgbeHal>(dev: IxgbeDevice<H>, reg: u32, r: VirtAddr)
    requires
        call_ensures(IxgbeDevice::<H>::reg_addr, (&dev, reg), r),
    ensures
        r == dev.addr + reg,
{
}

/// Each function that accesses a register adds one operation, with its own arguments.
pub proof fn law_register_access<H: IxgbeHal>(dev: IxgbeDevice<H>, reg: u32, a: u32, b: u32)
    ensures
        forall|ops: &mut Vec<IoOp>|
            #[trigger] call_ensures(IxgbeDevice::<H>::set_reg32, (&dev, ops, reg, a), ())
                ==> final(ops)@ == (*ops)@.push(IoOp::WriteReg { reg, value: a }),
        forall|ops: &mut Vec<IoOp>|
            #[trigger] call_ensures(IxgbeDevice::<H>::get_reg32, (&dev, ops, reg), ())
                ==> final(ops)@ == (*ops)@.push(IoOp::ReadReg { reg }),
        forall|ops: &mut Vec<IoOp>|
            #[trigger] call_ensures(IxgbeDevice::<H>::modify_reg32, (&dev, ops, reg, a, b), ())
                ==> final(ops)@ == (*ops)@.push(IoOp::ModifyReg { reg, clear: a, set: b }),
        forall|ops: &mut Vec<IoOp>|
            #[trigger] call_ensures(IxgbeDevice::<H>::set_flags32, (&dev, ops, reg, a), ())
                ==> final(ops)@ == (*ops)@.push(IoOp::ModifyReg { reg, clear: 0, set: a }),
        forall|ops: &mut Vec<IoOp>|
            #[trigger] call_ensures(IxgbeDevice::<H>::clear_flags32, (&dev, ops, reg, a), ())
                ==> final(ops)@ == (*ops)@.push(IoOp::ModifyReg { reg, clear: a, set: 0 }),
        forall|ops: &mut Vec<IoOp>|
            #[trigger] call_ensures(IxgbeDevice::<H>::wait_clear_reg32, (&dev, ops, reg, a), ())
                ==> final(ops)@ == (*ops)@.push(IoOp::WaitClear { reg, mask: a }),
        forall|ops: &mut Vec<IoOp>|
            #[trigger] call_ensures(IxgbeDevice::<H>::wait_set_reg32, (&dev, ops, reg, a), ())
                ==> final(ops)@ == (*ops)@.push(IoOp::WaitSet { reg, mask: a }),
{
}

/// The functions for interrupts add the operations for the queue that they are called with, and for
/// the rate of the device.
pub proof fn law_interrupt_calls<H: IxgbeHal>(
    dev: IxgbeDevice<H>,
    queue_id: u16,
    direction: u32,
    vector: u32,
)
    ensures
        forall|ops: &mut Vec<IoOp>|
            #[trigger] call_ensures(
                IxgbeDevice::<H>::set_ivar,
                (&dev, ops, direction, queue_id, vector),
                (),
            ) ==> final(ops)@ == (*ops)@.push(programs::ivar_op(direction, queue_id, vector)),
        forall|ops: &mut Vec<IoOp>|
            #[trigger] call_ensures(IxgbeDevice::<H>::clear_interrupts, (&dev, ops), ())
                ==> final(ops)@ == (*ops)@ + programs::clear_interrupts_ops(),
        forall|ops: &mut Vec<IoOp>|
            #[trigger] call_ensures(IxgbeDevice::<H>::clear_interrupt, (&dev, ops, queue_id), ())
                ==> final(ops)@ == (*ops)@ + programs::clear_interrupt_ops(queue_id),
        forall|ops: &mut Vec<IoOp>|
            #[trigger] call_ensures(IxgbeDevice::<H>::disable_interrupts, (&dev, ops), ())
                ==> final(ops)@ == (*ops)@ + programs::disable_interrupts_ops(),
        forall|ops: &mut Vec<IoOp>|
            #[trigger] call_ensures(IxgbeDevice::<H>::disable_interrupt, (&dev, ops, queue_id), ())
                ==> final(ops)@ == (*ops)@ + programs::disable_interrupt_ops(queue_id),
        forall|ops: &mut Vec<IoOp>|
            #[trigger] call_ensures(
                IxgbeDevice::<H>::enable_msi_interrupt,
                (&dev, ops, queue_id),
                (),
            ) ==> final(ops)@ == (*ops)@ + programs::enable_msi_ops(
                queue_id,
                dev.interrupts.itr_rate,
            ),
        forall|ops: &mut Vec<IoOp>|
            #[trigger] call_ensures(
                IxgbeDevice::<H>::enable_msix_interrupt,
                (&dev, ops, queue_id),
                (),
            ) ==> final(ops)@ == (*ops)@ + programs::enable_msix_ops(
                queue_id,
                dev.interrupts.itr_rate,
            ),
{
}

/// The functions for the link and for the filters add their operations.
pub proof fn law_link_calls<H: IxgbeHal>(dev: IxgbeDevice<H>, enabled: bool)
    ensures
        forall|ops: &mut Vec<IoOp>|
            #[trigger] call_ensures(IxgbeDevice::<H>::init_link, (&dev, ops), ())
                ==> final(ops)@ == (*ops)@ + programs::init_link_ops(),
        forall|ops: &mut Vec<IoOp>|
            #[trigger] call_ensures(IxgbeDevice::<H>::wait_for_link, (&dev, ops), ())
                ==> final(ops)@ == (*ops)@ + programs::wait_for_link_ops(),
        forall|ops: &mut Vec<IoOp>|
            #[trigger] call_ensures(IxgbeDevice::<H>::set_promisc, (&dev, ops, enabled), ())
                ==> final(ops)@ == (*ops)@.push(
                if enabled {
                    IoOp::ModifyReg { reg: 0x5080, clear: 0, set: 0x300 }
                } else {
                    IoOp::ModifyReg { reg: 0x5080, clear: 0x300, set: 0 }
                },
            ),
{
    effects::law_promisc_op();
}

// Sending and receiving

/// A packet that was sent: four operations are added, which hand the packet's physical address and
/// length to the descriptor at the transmit index, and move the tail of the queue past it.
pub proof fn law_sent<H: IxgbeHal>(queue_id: u16, tx_buf: TxBuffer, statuses: &[u32])
    ensures
        forall|dev: &mut IxgbeDevice<H>, pools: &mut Vec<MemPool>, ops: &mut Vec<IoOp>|
            #[trigger] call_ensures(
                <IxgbeDevice<H> as NicDevice<H>>::send,
                (dev, pools, queue_id, tx_buf, statuses, ops),
                Ok(()),
            ) && (*dev)@.wf(memory::pool_views((*pools)@)) ==> {
                let q = (*dev)@.tx[queue_id as int];
                &&& queue_id < (*dev)@.tx.len()
                &&& final(ops)@ == (*ops)@ + seq![
                    IoOp::Store64 {
                        addr: (q.descriptors + 16 * q.tx_index) as usize,
                        value: tx_buf.packet.addr_phys as u64,
                    },
                    IoOp::Store32 {
                        addr: (q.descriptors + 16 * q.tx_index + 8) as usize,
                        value: 0x2B30_0000u32 | (tx_buf.packet.len as u32),
                    },
                    IoOp::Store32 {
                        addr: (q.descriptors + 16 * q.tx_index + 12) as usize,
                        value: (tx_buf.packet.len as u32) << 14u32,
                    },
                    IoOp::WriteReg {
                        reg: (0x6018 + 0x40 * queue_id) as u32,
                        value: ((q.tx_index + 1) % q.num_descriptors) as u32,
                    },
                ]
            },
{
    assert forall|dev: &mut IxgbeDevice<H>, pools: &mut Vec<MemPool>, ops: &mut Vec<IoOp>|
        #[trigger] call_ensures(
            <IxgbeDevice<H> as NicDevice<H>>::send,
            (dev, pools, queue_id, tx_buf, statuses, ops),
            Ok(()),
        ) && (*dev)@.wf(memory::pool_views((*pools)@)) implies {
        let q = (*dev)@.tx[queue_id as int];
        &&& queue_id < (*dev)@.tx.len()
        &&& final(ops)@ == (*ops)@ + seq![
            IoOp::Store64 {
                addr: (q.descriptors + 16 * q.tx_index) as usize,
                value: tx_buf.packet.addr_phys as u64,
            },
            IoOp::Store32 {
                addr: (q.descriptors + 16 * q.tx_index + 8) as usize,
                value: 0x2B30_0000u32 | (tx_buf.packet.len as u32),
            },
            IoOp::Store32 {
                addr: (q.descriptors + 16 * q.tx_index + 12) as usize,
                value: (tx_buf.packet.len as u32) << 14u32,
            },
            IoOp::WriteReg {
                reg: (0x6018 + 0x40 * queue_id) as u32,
                value: ((q.tx_index + 1) % q.num_descriptors) as u32,
            },
        ]
    } by {
        results::law_send_ops(
            (*dev)@,
            memory::pool_views((*pools)@),
            queue_id,
            tx_buf.packet,
            statuses@,
        );
    }
}

/// A packet that was received is the whole buffer of the descriptor at the receive index, in both
/// address spaces, with the length that the card wrote; three operations are added, which hand the
/// buffer that became free last to that descriptor, and set the tail of the queue to it.
pub proof fn law_received<H: IxgbeHal>(queue_id: u16, head: RxWriteback, buf: RxBuffer)
    ensures
        forall|dev: &mut IxgbeDevice<H>, pools: &mut Vec<MemPool>, ops: &mut Vec<IoOp>|
            #[trigger] call_ensures(
                <IxgbeDevice<H> as NicDevice<H>>::receive,
                (dev, pools, queue_id, head, ops),
                Ok(buf),
            ) && (*dev)@.receive_ready(memory::pool_views((*pools)@), queue_id, head) ==> {
                let q = (*dev)@.rx[queue_id as int];
                let pool = memory::pool_views((*pools)@)[q.pool as int];
                let id = q.bufs[q.rx_index] as int;
                let fresh = pool.free[pool.free.len() - 1] as int;
                &&& buf.packet.addr_virt == pool.base_addr + id * pool.entry_size
                &&& buf.packet.addr_phys == pool.phys_addr[id]
                &&& buf.packet.len == head.length
                &&& buf.packet.pool == q.pool
                &&& buf.packet.pool_entry == id
                &&& final(ops)@ == (*ops)@ + seq![
                    IoOp::Store64 {
                        addr: (q.descriptors + 16 * q.rx_index) as usize,
                        value: pool.phys_addr[fresh] as u64,
                    },
                    IoOp::Store64 {
                        addr: (q.descriptors + 16 * q.rx_index + 8) as usize,
                        value: 0,
                    },
                    IoOp::WriteReg {
                        reg: (0x1018 + 0x40 * queue_id) as u32,
                        value: q.rx_index as u32,
                    },
                ]
            },
{
    assert forall|dev: &mut IxgbeDevice<H>, pools: &mut Vec<MemPool>, ops: &mut Vec<IoOp>|
        #[trigger] call_ensures(
            <IxgbeDevice<H> as NicDevice<H>>::receive,
            (dev, pools, queue_id, head, ops),
            Ok(buf),
        ) && (*dev)@.receive_ready(memory::pool_views((*pools)@), queue_id, head) implies {
        let q = (*dev)@.rx[queue_id as int];
        let pool = memory::pool_views((*pools)@)[q.pool as int];
        let id = q.bufs[q.rx_index] as int;
        let fresh = pool.free[pool.free.len() - 1] as int;
        &&& buf.packet.addr_virt == pool.base_addr + id * pool.entry_size
        &&& buf.packet.addr_phys == pool.phys_addr[id]
        &&& buf.packet.len == head.length
        &&& buf.packet.pool == q.pool
        &&& buf.packet.pool_entry == id
        &&& final(ops)@ == (*ops)@ + seq![
            IoOp::Store64 {
                addr: (q.descriptors + 16 * q.rx_index) as usize,
                value: pool.phys_addr[fresh] as u64,
            },
            IoOp::Store64 { addr: (q.descriptors + 16 * q.rx_index + 8) as usize, value: 0 },
            IoOp::WriteReg {
                reg: (0x1018 + 0x40 * queue_id) as u32,
                value: q.rx_index as u32,
            },
        ]
    } by {
        let pv = memory::pool_views((*pools)@);
        results::law_received_packet((*dev)@, pv, queue_id, head);
        results::law_receive_ops((*dev)@, pv, queue_id, head);
    }
}

/// What a send comes to: its result, the device, the pools and the operations are those of the
/// step, whatever its outcome.
pub proof fn law_send_step<H: IxgbeHal>(
    queue_id: u16,
    tx_buf: TxBuffer,
    statuses: &[u32],
    r: IxgbeResult,
)
    ensures
        forall|dev: &mut IxgbeDevice<H>, pools: &mut Vec<MemPool>, ops: &mut Vec<IoOp>|
            #[trigger] call_ensures(
                <IxgbeDevice<H> as NicDevice<H>>::send,
                (dev, pools, queue_id, tx_buf, statuses, ops),
                r,
            ) ==> {
                let step = (*dev)@.send(
                    memory::pool_views((*pools)@),
                    queue_id,
                    tx_buf.packet,
                    statuses@,
                );
                &&& r == step.result
                &&& final(dev)@ == step.dev
                &&& memory::pool_views(final(pools)@) == step.pools
                &&& final(ops)@ == (*ops)@ + step.ops
            },
{
}

/// What a receive comes to: its result, the device, the pools and the operations are those of the
/// step, whatever its outcome.
pub proof fn law_receive_step<H: IxgbeHal>(
    queue_id: u16,
    head: RxWriteback,
    r: IxgbeResult<RxBuffer>,
)
    ensures
        forall|dev: &mut IxgbeDevice<H>, pools: &mut Vec<MemPool>, ops: &mut Vec<IoOp>|
            #[trigger] call_ensures(
                <IxgbeDevice<H> as NicDevice<H>>::receive,
                (dev, pools, queue_id, head, ops),
                r,
            ) ==> {
                let step = (*dev)@.receive(memory::pool_views((*pools)@), queue_id, head);
                &&& r is Ok <==> step.result is Ok
                &&& r matches Ok(buf) ==> step.result == Ok::<Packet, IxgbeError>(buf.packet)
                &&& r matches Err(e) ==> step.result == Err::<Packet, IxgbeError>(e)
                &&& final(dev)@ == step.dev
                &&& memory::pool_views(final(pools)@) == step.pools
                &&& final(ops)@ == (*ops)@ + step.ops
            },
{
}

/// What sending several packets comes to: those that fit are sent, from the front on, and leave the
/// list; the rest stays, and is the reason for an error.
pub proof fn law_send_packets<H: IxgbeHal>(queue_id: u16, statuses: &[u32], r: IxgbeResult)
    ensures
        forall|
            dev: &mut IxgbeDevice<H>,
            pools: &mut Vec<MemPool>,
            bufs: &mut std::collections::VecDeque<TxBuffer>,
            ops: &mut Vec<IoOp>,
        |
            #[trigger] call_ensures(
                <IxgbeDevice<H> as NicDevice<H>>::send_packets,
                (dev, pools, queue_id, bufs, statuses, ops),
                r,
            ) ==> {
                let i = queue_id as int;
                let q = (*dev)@.tx[i].cleaned(statuses@);
                let all = (*bufs)@;
                let sent = q.fitting(all.len() as int);
                if i >= (*dev)@.tx.len() {
                    &&& r == Err::<(), IxgbeError>(IxgbeError::InvalidQueue)
                    &&& final(dev)@ == (*dev)@
                    &&& memory::pool_views(final(pools)@) == memory::pool_views((*pools)@)
                    &&& final(bufs)@ == all
                    &&& final(ops)@ == (*ops)@
                } else {
                    &&& r == (if sent == all.len() {
                        Ok::<(), IxgbeError>(())
                    } else {
                        Err(IxgbeError::QueueFull)
                    })
                    &&& final(dev)@.tx == (*dev)@.tx.update(i, q.enqueued_all(all, sent))
                    &&& final(dev)@ == (DeviceView { tx: final(dev)@.tx, ..(*dev)@ })
                    &&& memory::pool_views(final(pools)@) == (*dev)@.tx[i].cleaned_pools(
                        memory::pool_views((*pools)@),
                        statuses@,
                    )
                    &&& final(bufs)@ == all.skip(sent)
                    &&& final(ops)@ == (*ops)@ + q.enqueue_ops(queue_id, all, sent)
                }
            },
{
}

/// What receiving several packets comes to: those that are there, as many as are asked for and as
/// the card's words tell of; an error comes back only where there is none.
pub proof fn law_receive_packets<H: IxgbeHal>(
    queue_id: u16,
    packet_nums: usize,
    heads: &[RxWriteback],
    r: IxgbeResult<Vec<RxBuffer>>,
    k: int,
)
    ensures
        forall|dev: &mut IxgbeDevice<H>, pools: &mut Vec<MemPool>, ops: &mut Vec<IoOp>|
            #[trigger] call_ensures(
                <IxgbeDevice<H> as NicDevice<H>>::receive_packets,
                (dev, pools, queue_id, packet_nums, heads, ops),
                r,
            ) ==> {
                let count = if packet_nums < heads@.len() {
                    packet_nums as int
                } else {
                    heads@.len() as int
                };
                let batch = (*dev)@.receive_all(
                    memory::pool_views((*pools)@),
                    queue_id,
                    heads@,
                    count,
                );
                &&& queue_id >= (*dev)@.rx.len() ==> r
                    == Err::<Vec<RxBuffer>, IxgbeError>(IxgbeError::InvalidQueue)
                &&& queue_id < (*dev)@.rx.len() && heads@[0].status_error % 2 == 0 ==> r
                    == Err::<Vec<RxBuffer>, IxgbeError>(IxgbeError::NotReady)
                &&& queue_id < (*dev)@.rx.len() && heads@[0].status_error % 2 == 1 ==> {
                    &&& r is Err <==> batch.packets.len() == 0 && batch.error is Some
                    &&& r matches Err(e) ==> batch.error == Some(e)
                    &&& r matches Ok(bufs) ==> {
                        &&& bufs@.len() == batch.packets.len()
                        &&& 0 <= k < bufs@.len() ==> bufs@[k].packet == batch.packets[k]
                    }
                }
                &&& final(dev)@ == batch.dev
                &&& memory::pool_views(final(pools)@) == batch.pools
                &&& final(ops)@ == (*ops)@ + batch.ops
            },
{
    results::law_receive_status(heads@[0]);
}

/// A packet can be received from a queue if bit 0 of the status is set.
pub proof fn law_can_receive<H: IxgbeHal>(
    dev: IxgbeDevice<H>,
    queue: IxgbeRxQueue,
    queue_id: u16,
    status: u32,
    r: IxgbeResult<bool>,
    own: bool,
)
    requires
        call_ensures(<IxgbeDevice<H> as NicDevice<H>>::can_receive, (&dev, queue_id, status), r),
        call_ensures(IxgbeRxQueue::can_recv, (&queue, status), own),
    ensures
        r == (if queue_id < dev.rx_queues@.len() {
            Ok::<bool, IxgbeError>(status % 2 == 1)
        } else {
            Err(IxgbeError::InvalidQueue)
        }),
        own == (status % 2 == 1),
{
    results::law_receive_status(RxWriteback { status_error: status, length: 0 });
}

/// A packet can be sent on a queue if at least two of its descriptors are not in use.
pub proof fn law_room_to_send<H: IxgbeHal>(
    dev: IxgbeDevice<H>,
    queue_id: u16,
    r: IxgbeResult<bool>,
)
    requires
        call_ensures(<IxgbeDevice<H> as NicDevice<H>>::can_send, (&dev, queue_id), r),
        queue_id < dev.tx_queues@.len() ==> dev.tx_queues@[queue_id as int]@.wf(),
    ensures
        r == (if queue_id < dev.tx_queues@.len() {
            let q = dev.tx_queues@[queue_id as int];
            Ok::<bool, IxgbeError>(q.bufs_in_use@.len() + 2 <= q.num_descriptors)
        } else {
            Err(IxgbeError::InvalidQueue)
        }),
{
}

// Rings

/// The index that follows another is one more, without the bits above the ring size.
pub proof fn law_wrap_ring(index: usize, ring_size: usize, r: usize)
    requires
        call_ensures(ring::wrap_ring, (index, ring_size), r),
        index < usize::MAX,
        ring_size > 0,
    ensures
        r == ((index + 1) as usize) & ((ring_size - 1) as usize),
        ring_size & ((ring_size - 1) as usize) == 0 ==> r == (index + 1) % ring_size as int,
{
    ring::lemma_power_of_two_bits(ring_size);
}

/// The status of a receive descriptor is 8 bytes into it, and the length 12.
pub proof fn law_head_addrs(queue: IxgbeRxQueue, ahead: usize, r: (VirtAddr, VirtAddr))
    requires
        call_ensures(IxgbeRxQueue::head_addrs, (&queue, ahead), r),
    ensures
        r.0 == queue.descriptors + 16 * ((queue.rx_index + ahead) % queue.num_descriptors as int)
            + 8,
        r.1 == r.0 + 4,
{
}

/// The status words that cleaning needs are 12 bytes into each 32nd descriptor in use.
pub proof fn law_clean_probes(queue: IxgbeTxQueue, r: Vec<VirtAddr>, j: int)
    requires
        call_ensures(IxgbeTxQueue::clean_probes, (&queue,), r),
        queue@.wf(),
    ensures
        32 * r@.len() <= queue.bufs_in_use@.len() < 32 * r@.len() + 32,
        0 <= j < r@.len() ==> r@[j] == queue.descriptors + 16 * ((queue.clean_index + 32 * j + 31)
            % queue.num_descriptors as int) + 12,
{
    results::law_in_use(queue@, j);
}

/// A queue takes a packet of its own pool, and of any pool if cleaning leaves it no buffer.
pub proof fn law_takes_pool(queue: IxgbeTxQueue, pool: PoolId, statuses: &[u32], r: bool)
    requires
        call_ensures(IxgbeTxQueue::takes_pool, (&queue, pool, statuses), r),
        queue@.wf(),
    ensures
        r <==> queue.pool == Some(pool) || queue@.cleanable(statuses@)
            == queue.bufs_in_use@.len(),
{
    results::law_cleaned(queue@, statuses@, 0);
}

/// Cleaning returns the new clean index, and leaves the queue and the pools cleaned.
pub proof fn law_clean_tx_queue(statuses: &[u32], r: usize)
    ensures
        forall|queue: &mut IxgbeTxQueue, pools: &mut Vec<MemPool>|
            #[trigger] call_ensures(ring::clean_tx_queue, (queue, pools, statuses), r) ==> {
                &&& final(queue)@ == (*queue)@.cleaned(statuses@)
                &&& memory::pool_views(final(pools)@) == (*queue)@.cleaned_pools(
                    memory::pool_views((*pools)@),
                    statuses@,
                )
                &&& r == final(queue)@.clean_index
            },
{
}

// Pools and packets

/// A pool has as many entries as it is asked for, of the size that it is asked for, or of 2048
/// bytes if that is 0. All of them are free, and the first to be handed out is the last one.
pub proof fn law_pool_allocated<H: IxgbeHal>(
    entries: usize,
    size: usize,
    r: IxgbeResult<MemPool>,
    k: int,
)
    requires
        call_ensures(MemPool::allocate::<H>, (entries, size), r),
    ensures
        r matches Ok(pool) && {
            &&& pool.num_entries == entries
            &&& size > 0 ==> pool.entry_size == size
            &&& size == 0 ==> pool.entry_size == 2048
            &&& pool.phys_addr@.len() == entries
            &&& pool.free_stack@.len() == entries
            &&& 0 <= k < entries ==> {
                &&& pool.free_stack@[k] == k
                &&& call_ensures(
                    H::mmio_virt_to_phys,
                    ((pool.base_addr + k * pool.entry_size) as usize, pool.entry_size),
                    pool.phys_addr@[k],
                )
            }
        },
{
    if 0 <= k < entries {
        results::law_entry_addresses::<H>(r->Ok_0@, k);
    }
}

/// A pool made of its parts has them, and all its entries are free.
pub proof fn law_pool_from_parts(
    base_addr: VirtAddr,
    entry_size: usize,
    phys_addr: Vec<PhysAddr>,
    r: MemPool,
    k: int,
)
    requires
        call_ensures(MemPool::from_parts, (base_addr, entry_size, phys_addr), r),
    ensures
        r.base_addr == base_addr,
        r.entry_size == entry_size,
        r.num_entries == phys_addr@.len(),
        r.phys_addr@ == phys_addr@,
        r.free_stack@.len() == phys_addr@.len(),
        0 <= k < phys_addr@.len() ==> r.free_stack@[k] == k,
{
    assert(r@.free.len() == phys_addr@.len());
}

/// The buffer that is handed out is the one that became free last, and a buffer that is given back
/// is the next to be handed out.
pub proof fn law_buffers(id: usize, r: Option<usize>)
    ensures
        forall|pool: &mut MemPool|
            #[trigger] call_ensures(MemPool::alloc_buf, (pool,), r) ==> {
                let free = (*pool)@.free;
                &&& free.len() == 0 ==> r is None && final(pool)@ == (*pool)@
                &&& free.len() > 0 ==> r == Some(free[free.len() - 1]) && final(pool)@ == (
                PoolView { free: free.take(free.len() - 1), ..(*pool)@ })
            },
        forall|pool: &mut MemPool|
            #[trigger] call_ensures(MemPool::free_buf, (pool, id), ()) ==> final(pool)@ == (
            PoolView { free: (*pool)@.free.push(id), ..(*pool)@ }),
{
    assert forall|pool: &mut MemPool|
        #[trigger] call_ensures(MemPool::alloc_buf, (pool,), r) implies {
        let free = (*pool)@.free;
        &&& free.len() == 0 ==> r is None && final(pool)@ == (*pool)@
        &&& free.len() > 0 ==> r == Some(free[free.len() - 1]) && final(pool)@ == (PoolView {
            free: free.take(free.len() - 1),
            ..(*pool)@
        })
    } by {
        let free = (*pool)@.free;
        if free.len() > 0 {
            assert(free.take(free.len() - 1) =~= free.drop_last());
        }
    }
}

/// The addresses of an entry: its place behind the base address, and the physical address that goes
/// with it.
pub proof fn law_entry(pool: MemPool, id: usize, size: usize, virt: VirtAddr, phys: PhysAddr)
    requires
        call_ensures(MemPool::entry_size, (&pool,), size),
        call_ensures(MemPool::get_virt_addr, (&pool, id), virt),
        call_ensures(MemPool::get_phys_addr, (&pool, id), phys),
    ensures
        size == pool.entry_size,
        virt == pool.base_addr + id * pool.entry_size,
        phys == pool.phys_addr@[id as int],
{
}

/// A packet that is allocated has the length that is asked for and starts 32 bytes into the buffer
/// that became free last; none is allocated exactly if there is no such buffer or the data do not
/// fit behind the 32 bytes.
pub proof fn law_alloc_pkt(pool: PoolId, size: usize, r: Option<Packet>)
    ensures
        forall|pools: &mut Vec<MemPool>|
            #[trigger] call_ensures(memory::alloc_pkt, (pools, pool, size), r)
                && memory::pool_views((*pools)@)[pool as int].wf() ==> {
                let from = memory::pool_views((*pools)@)[pool as int];
                let id = from.free[from.free.len() - 1];
                &&& r is Some <==> from.free.len() > 0 && size + 32 <= from.entry_size
                &&& r matches Some(packet) ==> {
                    &&& packet.addr_virt == from.base_addr + id * from.entry_size + 32
                    &&& packet.addr_phys == from.phys_addr[id as int] + 32
                    &&& packet.len == size
                    &&& packet.pool == pool
                    &&& packet.pool_entry == id
                    &&& memory::pool_views(final(pools)@) == memory::taken_from(
                        memory::pool_views((*pools)@),
                        pool,
                    )
                }
                &&& r is None ==> memory::pool_views(final(pools)@) == memory::pool_views(
                    (*pools)@,
                )
            },
{
    assert forall|pools: &mut Vec<MemPool>|
        #[trigger] call_ensures(memory::alloc_pkt, (pools, pool, size), r) && memory::pool_views(
            (*pools)@,
        )[pool as int].wf() implies {
        let from = memory::pool_views((*pools)@)[pool as int];
        let id = from.free[from.free.len() - 1];
        &&& r is Some <==> from.free.len() > 0 && size + 32 <= from.entry_size
        &&& r matches Some(packet) ==> {
            &&& packet.addr_virt == from.base_addr + id * from.entry_size + 32
            &&& packet.addr_phys == from.phys_addr[id as int] + 32
            &&& packet.len == size
            &&& packet.pool == pool
            &&& packet.pool_entry == id
            &&& memory::pool_views(final(pools)@) == memory::taken_from(
                memory::pool_views((*pools)@),
                pool,
            )
        }
        &&& r is None ==> memory::pool_views(final(pools)@) == memory::pool_views((*pools)@)
    } by {
        results::law_allocated(memory::pool_views((*pools)@)[pool as int], pool, size);
    }
}

/// A buffer for sending holds the packet that is allocated for it, and there is an error exactly if
/// there is none.
pub proof fn law_tx_buffer(pool: PoolId, size: usize, r: IxgbeResult<TxBuffer>)
    ensures
        forall|pools: &mut Vec<MemPool>|
            #[trigger] call_ensures(TxBuffer::allocate, (pools, pool, size), r) ==> {
                let before = memory::pool_views((*pools)@);
                match memory::alloc_result(before[pool as int], pool, size) {
                    Some(packet) => {
                        &&& r matches Ok(buf) && buf.packet == packet
                        &&& memory::pool_views(final(pools)@) == memory::taken_from(before, pool)
                    },
                    None => {
                        &&& r == Err::<TxBuffer, IxgbeError>(IxgbeError::NoMemory)
                        &&& memory::pool_views(final(pools)@) == before
                    },
                }
            },
{
}

/// A packet that is given back frees its own buffer.
pub proof fn law_free(packet: Packet)
    ensures
        forall|pools: &mut Vec<MemPool>|
            #[trigger] call_ensures(Packet::free, (packet, pools), ()) ==> memory::pool_views(
                final(pools)@,
            ) == memory::freed(memory::pool_views((*pools)@), packet),
{
}

/// The data of a packet are the bytes of memory from its virtual address on, as many as it is long.
pub proof fn law_packet_data(
    packet: Packet,
    bytes: &[u8],
    base: VirtAddr,
    r: &[u8],
    virt: VirtAddr,
    phys: PhysAddr,
    k: int,
)
    requires
        call_ensures(Packet::as_bytes, (&packet, bytes, base), r),
        call_ensures(Packet::get_virt_addr, (&packet,), virt),
        call_ensures(Packet::get_phys_addr, (&packet,), phys),
        base <= packet.addr_virt,
        packet.addr_virt - base + packet.len <= bytes@.len(),
    ensures
        r@.len() == packet.len,
        0 <= k < packet.len ==> r@[k] == bytes@[packet.addr_virt - base + k],
        virt == packet.addr_virt,
        phys == packet.addr_phys,
{
}

/// A packet is made of what it is called with, and a buffer hands its packet out.
pub proof fn law_packet_parts(
    virt: VirtAddr,
    phys: PhysAddr,
    len: usize,
    pool: PoolId,
    entry: usize,
    r: Packet,
    buf: RxBuffer,
    inner: &Packet,
)
    requires
        call_ensures(Packet::new, (virt, phys, len, pool, entry), r),
        call_ensures(RxBuffer::packet, (&buf,), inner),
    ensures
        r.addr_virt == virt,
        r.addr_phys == phys,
        r.len == len,
        r.pool == pool,
        r.pool_entry == entry,
        *inner == buf.packet,
{
}

/// Writing to the data of a packet, or to the headroom in front of them, changes those bytes of the
/// memory, and no others.
pub proof fn law_packet_writes(len: usize, base: VirtAddr)
    ensures
        forall|packet: &mut Packet, bytes: &mut [u8], r: &mut [u8]|
            #[trigger] call_ensures(Packet::as_mut_bytes, (packet, bytes, base), r) ==> {
                let start = (*packet).addr_virt - base;
                let end = start + (*packet).len;
                &&& *final(packet) == *packet
                &&& (*r)@ == (*bytes)@.subrange(start, end)
                &&& final(bytes)@ == (*bytes)@.take(start) + final(r)@ + (*bytes)@.skip(end)
            },
        forall|packet: &mut Packet, bytes: &mut [u8], r: &mut [u8]|
            #[trigger] call_ensures(Packet::headroom_mut, (packet, len, bytes, base), r) ==> {
                let end = (*packet).addr_virt - base;
                let start = end - len;
                &&& *final(packet) == *packet
                &&& (*r)@ == (*bytes)@.subrange(start, end)
                &&& final(bytes)@ == (*bytes)@.take(start) + final(r)@ + (*bytes)@.skip(end)
            },
        forall|buf: &mut TxBuffer, bytes: &mut [u8], r: &mut [u8]|
            #[trigger] call_ensures(TxBuffer::packet_mut, (buf, bytes, base), r) ==> {
                let start = (*buf).packet.addr_virt - base;
                let end = start + (*buf).packet.len;
                &&& *final(buf) == *buf
                &&& (*r)@ == (*bytes)@.subrange(start, end)
                &&& final(bytes)@ == (*bytes)@.take(start) + final(r)@ + (*bytes)@.skip(end)
            },
{
}

/// The data of a buffer for sending are those of its packet.
pub proof fn law_tx_buffer_data(buf: TxBuffer, bytes: &[u8], base: VirtAddr, r: &[u8])
    requires
        call_ensures(TxBuffer::packet, (&buf, bytes, base), r),
    ensures
        r@ == bytes@.subrange(
            buf.packet.addr_virt - base,
            buf.packet.addr_virt - base + buf.packet.len,
        ),
{
}

/// A copy of a packet is another packet of the same pool, 32 bytes into the buffer that became free
/// last, with the same length and the same data; no other byte of the memory changes.
pub proof fn law_clone(packet: Packet, r: Packet, k: int)
    ensures
        forall|pools: &mut Vec<MemPool>, bytes: &mut [u8]|
            #[trigger] call_ensures(Packet::clone_in, (&packet, pools, bytes), r)
                && memory::pool_views((*pools)@)[packet.pool as int].wf() && memory::pool_views(
                (*pools)@,
            )[packet.pool as int].free.len() > 0 && packet.len + 32 <= memory::pool_views(
                (*pools)@,
            )[packet.pool as int].entry_size && packet.in_entry(
                memory::pool_views((*pools)@)[packet.pool as int],
            ) && (*bytes)@.len() == memory::pool_views((*pools)@)[packet.pool as int].num_entries
                * memory::pool_views((*pools)@)[packet.pool as int].entry_size ==> {
                let pool = memory::pool_views((*pools)@)[packet.pool as int];
                let id = pool.free[pool.free.len() - 1] as int;
                let from = packet.addr_virt - pool.base_addr;
                let to = r.addr_virt - pool.base_addr;
                &&& r.addr_virt == pool.base_addr + id * pool.entry_size + 32
                &&& r.addr_phys == pool.phys_addr[id] + 32
                &&& r.len == packet.len
                &&& r.pool == packet.pool
                &&& r.pool_entry == id
                &&& memory::pool_views(final(pools)@) == memory::taken_from(
                    memory::pool_views((*pools)@),
                    packet.pool,
                )
                &&& 0 <= k < packet.len ==> final(bytes)@[to + k] == (*bytes)@[from + k]
                &&& 0 <= k < (*bytes)@.len() && !(to <= k < to + packet.len)
                    ==> final(bytes)@[k] == (*bytes)@[k]
            },
{
    assert forall|pools: &mut Vec<MemPool>, bytes: &mut [u8]|
        #[trigger] call_ensures(Packet::clone_in, (&packet, pools, bytes), r)
            && memory::pool_views((*pools)@)[packet.pool as int].wf() && memory::pool_views(
            (*pools)@,
        )[packet.pool as int].free.len() > 0 && packet.len + 32 <= memory::pool_views(
            (*pools)@,
        )[packet.pool as int].entry_size && packet.in_entry(
            memory::pool_views((*pools)@)[packet.pool as int],
        ) && (*bytes)@.len() == memory::pool_views((*pools)@)[packet.pool as int].num_entries
            * memory::pool_views((*pools)@)[packet.pool as int].entry_size implies {
        let pool = memory::pool_views((*pools)@)[packet.pool as int];
        let id = pool.free[pool.free.len() - 1] as int;
        let from = packet.addr_virt - pool.base_addr;
        let to = r.addr_virt - pool.base_addr;
        &&& r.addr_virt == pool.base_addr + id * pool.entry_size + 32
        &&& r.addr_phys == pool.phys_addr[id] + 32
        &&& r.len == packet.len
        &&& r.pool == packet.pool
        &&& r.pool_entry == id
        &&& memory::pool_views(final(pools)@) == memory::taken_from(
            memory::pool_views((*pools)@),
            packet.pool,
        )
        &&& 0 <= k < packet.len ==> final(bytes)@[to + k] == (*bytes)@[from + k]
        &&& 0 <= k < (*bytes)@.len() && !(to <= k < to + packet.len) ==> final(bytes)@[k]
            == (*bytes)@[k]
    } by {
        let pool = memory::pool_views((*pools)@)[packet.pool as int];
        let base = pool.base_addr as usize;
        results::law_allocated(pool, packet.pool, packet.len);
        memory::lemma_entry_in_pool(pool, pool.free[pool.free.len() - 1] as int);
        memory::lemma_entry_in_pool(pool, packet.pool_entry as int);
        assert(base == pool.base_addr);
        if 0 <= k < packet.len {
            assert(r.bytes(final(bytes)@, base)[k] == packet.bytes((*bytes)@, base)[k]);
        }
    }
}

/// The text of a packet is the list of its bytes, in brackets.
pub proof fn law_packet_text(packet: Packet, bytes: &[u8], base: VirtAddr, r: String)
    requires
        call_ensures(Packet::fmt, (&packet, bytes, base), r),
    ensures
        r@ == "["@ + memory::list_text(packet.bytes(bytes@, base)) + "]"@,
{
}

/// A packet is prefetched at its virtual address, with the strategy that is asked for, if at all.
pub proof fn law_prefetch(
    packet: Packet,
    hint: Prefetch,
    sse: bool,
    r: Option<(VirtAddr, Prefetch)>,
)
    requires
        call_ensures(Packet::prefrtch, (&packet, hint, sse), r),
    ensures
        r is Some <==> sse,
        r matches Some(at) ==> at.0 == packet.addr_virt && at.1 == hint,
{
}

/// Memory for DMA is what the hardware layer returned for the size that is asked for.
pub proof fn law_dma<H: IxgbeHal>(size: usize, contiguous: bool, r: IxgbeResult<Dma>)
    requires
        call_ensures(Dma::allocate::<H>, (size, contiguous), r),
    ensures
        r matches Ok(dma) && call_ensures(H::dma_alloc, (size,), (dma.phys, dma.virt)),
{
}

// Descriptors

/// A descriptor that asks for a packet to be sent holds its address and its length, twice, the type
/// of an advanced descriptor, and the commands for one whole packet; it is not done.
pub proof fn law_descriptor_send(addr: u64, len: u16)
    ensures
        forall|desc: &mut AdvancedTxDescriptor|
            #[trigger] call_ensures(AdvancedTxDescriptor::send, (desc, addr, len), ()) ==> {
                &&& final(desc).packet_buffer_address == addr
                &&& final(desc).data_len == len
                &&& final(desc).dtyp_mac_rsv == 0x30
                &&& final(desc).dcmd == 0x2b
                &&& final(desc).paylen_popts_cc_idx_sta == 0x4000 * len
            },
        forall|desc: &mut AdvancedTxDescriptor|
            #[trigger] call_ensures(AdvancedTxDescriptor::init, (desc,), ()) ==> {
                &&& final(desc).packet_buffer_address == 0
                &&& final(desc).data_len == 0
                &&& final(desc).dtyp_mac_rsv == 0
                &&& final(desc).dcmd == 0
                &&& final(desc).paylen_popts_cc_idx_sta == 0
            },
{
    assert(0x20u8 | 0x08u8 | 0x02u8 | 0x01u8 == 0x2bu8) by (bit_vector);
}

/// A packet has been sent if bit 0 of the last word of its descriptor is set.
pub proof fn law_packet_sent(desc: AdvancedTxDescriptor, r: bool)
    requires
        call_ensures(AdvancedTxDescriptor::packet_sent, (&desc,), r),
    ensures
        r <==> desc.paylen_popts_cc_idx_sta % 2 == 1,
{
    results::law_descriptor_done(desc);
}

// Starting queues

/// A receive queue that was started: each descriptor was handed the physical address of a buffer,
/// the one that became free last first; the queue was enabled and waited for; and its head was set
/// to 0 and its tail to the last descriptor.
pub proof fn law_rx_queue_started<H: IxgbeHal>(queue_id: u16, k: int)
    requires
        queue_id < 64,
    ensures
        forall|dev: &mut IxgbeDevice<H>, pools: &mut Vec<MemPool>, ops: &mut Vec<IoOp>|
            #[trigger] call_ensures(
                IxgbeDevice::<H>::start_rx_queue,
                (dev, pools, queue_id, ops),
                Ok(()),
            ) && 0 <= k < (*dev)@.rx[queue_id as int].num_descriptors ==> {
                let q = (*dev)@.rx[queue_id as int];
                let n = q.num_descriptors;
                let pool = memory::pool_views((*pools)@)[q.pool as int];
                let m = (*ops)@.len() as int;
                &&& final(ops)@.len() == m + 2 * n + 4
                &&& final(ops)@[m + 2 * k] == (IoOp::Store64 {
                    addr: (q.descriptors + 16 * k) as usize,
                    value: pool.phys_addr[pool.free[pool.free.len() - 1 - k] as int] as u64,
                })
                &&& final(ops)@[m + 2 * k + 1] == (IoOp::Store64 {
                    addr: (q.descriptors + 16 * k + 8) as usize,
                    value: 0,
                })
                &&& final(ops)@[m + 2 * n] == (IoOp::ModifyReg {
                    reg: (0x1028 + 0x40 * queue_id) as u32,
                    clear: 0,
                    set: 0x0200_0000,
                })
                &&& final(ops)@[m + 2 * n + 1] == (IoOp::WaitSet {
                    reg: (0x1028 + 0x40 * queue_id) as u32,
                    mask: 0x0200_0000,
                })
                &&& final(ops)@[m + 2 * n + 2] == (IoOp::WriteReg {
                    reg: (0x1010 + 0x40 * queue_id) as u32,
                    value: 0,
                })
                &&& final(ops)@[m + 2 * n + 3] == (IoOp::WriteReg {
                    reg: (0x1018 + 0x40 * queue_id) as u32,
                    value: (n - 1) as u32,
                })
            },
{
    assert forall|dev: &mut IxgbeDevice<H>, pools: &mut Vec<MemPool>, ops: &mut Vec<IoOp>|
        #[trigger] call_ensures(
            IxgbeDevice::<H>::start_rx_queue,
            (dev, pools, queue_id, ops),
            Ok(()),
        ) && 0 <= k < (*dev)@.rx[queue_id as int].num_descriptors implies {
        let q = (*dev)@.rx[queue_id as int];
        let n = q.num_descriptors;
        let pool = memory::pool_views((*pools)@)[q.pool as int];
        let m = (*ops)@.len() as int;
        &&& final(ops)@.len() == m + 2 * n + 4
        &&& final(ops)@[m + 2 * k] == (IoOp::Store64 {
            addr: (q.descriptors + 16 * k) as usize,
            value: pool.phys_addr[pool.free[pool.free.len() - 1 - k] as int] as u64,
        })
        &&& final(ops)@[m + 2 * k + 1] == (IoOp::Store64 {
            addr: (q.descriptors + 16 * k + 8) as usize,
            value: 0,
        })
        &&& final(ops)@[m + 2 * n] == (IoOp::ModifyReg {
            reg: (0x1028 + 0x40 * queue_id) as u32,
            clear: 0,
            set: 0x0200_0000,
        })
        &&& final(ops)@[m + 2 * n + 1] == (IoOp::WaitSet {
            reg: (0x1028 + 0x40 * queue_id) as u32,
            mask: 0x0200_0000,
        })
        &&& final(ops)@[m + 2 * n + 2] == (IoOp::WriteReg {
            reg: (0x1010 + 0x40 * queue_id) as u32,
            value: 0,
        })
        &&& final(ops)@[m + 2 * n + 3] == (IoOp::WriteReg {
            reg: (0x1018 + 0x40 * queue_id) as u32,
            value: (n - 1) as u32,
        })
    } by {
        effects::law_start_rx_ops((*dev)@, memory::pool_views((*pools)@), queue_id, k);
    }
}

/// A transmit queue is started by setting its head and its tail to 0, enabling it and waiting for
/// it, exactly if its size is a power of two.
pub proof fn law_tx_queue_started<H: IxgbeHal>(queue_id: u16, r: IxgbeResult)
    requires
        queue_id < 64,
    ensures
        forall|dev: &mut IxgbeDevice<H>, ops: &mut Vec<IoOp>|
            #[trigger] call_ensures(
                IxgbeDevice::<H>::start_tx_queue,
                (dev, queue_id, ops),
                r,
            ) ==> {
                let power = ring::is_power_of_two((*dev)@.tx[queue_id as int].num_descriptors);
                &&& *final(dev) == *dev
                &&& power ==> r is Ok && final(ops)@ == (*ops)@ + seq![
                    IoOp::WriteReg { reg: (0x6010 + 0x40 * queue_id) as u32, value: 0 },
                    IoOp::WriteReg { reg: (0x6018 + 0x40 * queue_id) as u32, value: 0 },
                    IoOp::ModifyReg {
                        reg: (0x6028 + 0x40 * queue_id) as u32,
                        clear: 0,
                        set: 0x0200_0000,
                    },
                    IoOp::WaitSet { reg: (0x6028 + 0x40 * queue_id) as u32, mask: 0x0200_0000 },
                ]
                &&& !power ==> r == Err::<(), IxgbeError>(IxgbeError::QueueNotAligned)
                    && final(ops)@ == (*ops)@
            },
{
    effects::law_tx_queue_ops(queue_id as int, 0, 0);
}

/// A queue that gets a ring is added behind the others, with the ring and, for a receive queue,
/// with the pool that is added behind the others.
pub proof fn law_queue_added<H: IxgbeHal>(queue: u16, ring: Dma, mempool: MemPool)
    ensures
        forall|dev: &mut IxgbeDevice<H>, pools: &mut Vec<MemPool>|
            #[trigger] call_ensures(
                IxgbeDevice::<H>::init_rx_pool,
                (dev, ring, mempool, pools),
                (),
            ) ==> {
                &&& memory::pool_views(final(pools)@) == memory::pool_views((*pools)@).push(
                    mempool@,
                )
                &&& final(dev)@ == (DeviceView {
                    rx: (*dev)@.rx.push(
                        RxView {
                            descriptors: ring.virt as int,
                            ring_phys: ring.phys,
                            num_descriptors: 512,
                            pool: (*pools)@.len() as usize,
                            bufs: Seq::empty(),
                            rx_index: 0,
                        },
                    ),
                    ..(*dev)@
                })
            },
        forall|dev: &mut IxgbeDevice<H>, ops: &mut Vec<IoOp>|
            #[trigger] call_ensures(
                IxgbeDevice::<H>::init_tx_ring,
                (dev, queue, ring, ops),
                (),
            ) ==> {
                &&& final(ops)@ == (*ops)@ + programs::tx_queue_ops(
                    queue as int,
                    ring.virt,
                    ring.phys,
                )
                &&& final(dev)@ == (DeviceView {
                    tx: (*dev)@.tx.push(
                        TxView {
                            descriptors: ring.virt as int,
                            ring_phys: ring.phys,
                            num_descriptors: 512,
                            pool: None,
                            bufs: Seq::empty(),
                            clean_index: 0,
                            tx_index: 0,
                        },
                    ),
                    ..(*dev)@
                })
            },
{
}

/// The card is told of the ring of a receive queue.
pub proof fn law_rx_ring_told<H: IxgbeHal>(dev: IxgbeDevice<H>, queue: u16, ring: Dma)
    ensures
        forall|ops: &mut Vec<IoOp>|
            #[trigger] call_ensures(
                IxgbeDevice::<H>::init_rx_ring,
                (&dev, queue, ring, ops),
                (),
            ) ==> final(ops)@ == (*ops)@ + programs::rx_ring_ops(
                queue as int,
                ring.virt,
                ring.phys,
            ),
{
}

/// Initializing begins with a device that has the address, the length and the numbers of queues
/// that are given and no queue yet, and with resetting the card; what follows is setting the
/// receive queues up.
pub proof fn law_init<H: IxgbeHal>(
    base: VirtAddr,
    len: usize,
    num_rx_queues: u16,
    num_tx_queues: u16,
    r: IxgbeResult<(IxgbeDevice<H>, Stage)>,
)
    ensures
        forall|pools: &mut Vec<MemPool>, ops: &mut Vec<IoOp>|
            #[trigger] call_ensures(
                IxgbeDevice::<H>::init,
                (base, len, num_rx_queues, num_tx_queues, pools, ops),
                r,
            ) ==> {
                &&& r matches Ok((dev, stage)) && {
                    &&& dev.addr == base
                    &&& dev.len == len
                    &&& dev.num_rx_queues == num_rx_queues
                    &&& dev.num_tx_queues == num_tx_queues
                    &&& dev.rx_queues@.len() == 0
                    &&& dev.tx_queues@.len() == 0
                    &&& !dev.interrupts.interrupts_enabled
                    &&& dev.interrupts.itr_rate == 0
                    &&& stage == Stage::RxBegin
                }
                &&& memory::pool_views(final(pools)@) == memory::pool_views((*pools)@)
                &&& final(ops)@ == (*ops)@ + (programs::reset_ops() + programs::init_link_ops()
                    + programs::reset_stats_ops())
            },
{
    assert forall|pools: &mut Vec<MemPool>, ops: &mut Vec<IoOp>|
        #[trigger] call_ensures(
            IxgbeDevice::<H>::init,
            (base, len, num_rx_queues, num_tx_queues, pools, ops),
            r,
        ) implies r->Ok_0.0.rx_queues@.len() == 0 && r->Ok_0.0.tx_queues@.len() == 0 by {
        assert(r->Ok_0.0@.rx.len() == r->Ok_0.0.rx_queues@.len());
        assert(r->Ok_0.0@.tx.len() == r->Ok_0.0.tx_queues@.len());
    }
}

/// A stage of initializing adds its operations to those that are there, and comes to one of its
/// steps, whichever of the functions for stages is called.
pub proof fn law_reset_and_init<H: IxgbeHal>(stage: Stage, r: IxgbeResult<Stage>)
    ensures
        forall|dev: &mut IxgbeDevice<H>, pools: &mut Vec<MemPool>, ops: &mut Vec<IoOp>|
            #[trigger] call_ensures(
                IxgbeDevice::<H>::reset_and_init,
                (dev, stage, pools, ops),
                r,
            ) ==> {
                let n = (*ops)@.len() as int;
                &&& final(ops)@.take(n) == (*ops)@
                &&& init::stepped::<H>(
                    (*dev)@,
                    memory::pool_views((*pools)@),
                    stage,
                    InitStep {
                        result: r,
                        dev: final(dev)@,
                        pools: memory::pool_views(final(pools)@),
                        ops: final(ops)@.skip(n),
                    },
                )
            },
        forall|dev: &mut IxgbeDevice<H>, pools: &mut Vec<MemPool>, ops: &mut Vec<IoOp>|
            #[trigger] call_ensures(
                IxgbeDevice::<H>::init_rx,
                (dev, stage, pools, ops),
                r,
            ) ==> {
                let n = (*ops)@.len() as int;
                &&& r is Ok
                &&& final(ops)@.take(n) == (*ops)@
                &&& init::stepped::<H>(
                    (*dev)@,
                    memory::pool_views((*pools)@),
                    stage,
                    InitStep {
                        result: r,
                        dev: final(dev)@,
                        pools: memory::pool_views(final(pools)@),
                        ops: final(ops)@.skip(n),
                    },
                )
            },
{
    assert forall|a: Seq<IoOp>, b: Seq<IoOp>| #[trigger] a.is_prefix_of(b) implies b.take(
        a.len() as int,
    ) == a by {
        assert(b.take(a.len() as int) =~= a);
    }
}

// Carrying operations out

/// A new sequence is at the start of its first operation, and each step is the next one of its
/// state.
pub proof fn law_sequence(list: Vec<IoOp>, event: Event, command: Command, new: Sequence)
    ensures
        call_ensures(Sequence::new, (list,), new) ==> {
            &&& new@.ops == list@
            &&& new@.pos == 0
            &&& new@.phase == Phase::Issue
        },
        forall|seq: &mut Sequence|
            #[trigger] call_ensures(Sequence::step, (seq, event), command) ==> (
            final(seq)@,
            command,
        ) == (*seq)@.next(event),
{
}

/// A sequence accepts exactly what it waits for.
pub proof fn law_accepts(seq: Sequence, event: Event, r: bool)
    requires
        call_ensures(Sequence::accepts, (&seq, event), r),
    ensures
        r == match seq@.phase {
            Phase::Issue => event is Done,
            Phase::Value => event is Value,
            Phase::LinkStart => event is Clock,
            Phase::LinkValue { .. } => event is Value,
            Phase::LinkClock { since } => event is Clock && event->secs >= since,
        },
{
}

} // verus!
