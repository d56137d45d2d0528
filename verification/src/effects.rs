//! What the card is asked to do, written out in register numbers, bits and addresses.

use crate::hal::IxgbeHal;
use crate::init;
use crate::init::{InitStep, Stage};
use crate::io;
use crate::io::{Command, Event, IoOp, Phase, SequenceView};
use crate::ixgbe::DeviceView;
use crate::memory;
use crate::memory::{Dma, PhysAddr, PoolView, VirtAddr};
use crate::programs;
use crate::ring;
use crate::ring::{RxView, TxView};
use crate::IxgbeError;
use vstd::prelude::*;

verus! {

// Interrupts, link, counters and filters

/// Interrupts are masked out by writing their bits to register 0x888, and forgotten by reading
/// register 0x800; register 0x880 holds the mask.
pub proof fn law_interrupts_off(queue_id: u16)
    ensures
        programs::clear_interrupts_ops() == seq![
            IoOp::WriteReg { reg: 0x888, value: 0xFFFF_FFFF },
            IoOp::ReadReg { reg: 0x800 },
        ],
        programs::disable_interrupts_ops() == seq![
            IoOp::WriteReg { reg: 0x880, value: 0 },
            IoOp::WriteReg { reg: 0x888, value: 0xFFFF_FFFF },
            IoOp::ReadReg { reg: 0x800 },
        ],
        programs::clear_interrupt_ops(queue_id) == seq![
            IoOp::WriteReg { reg: 0x888, value: 1u32 << queue_id },
            IoOp::ReadReg { reg: 0x800 },
        ],
        programs::disable_interrupt_ops(queue_id) == seq![
            IoOp::ModifyReg { reg: 0x880, clear: 1u32 << queue_id, set: 0 },
            IoOp::WriteReg { reg: 0x888, value: 1u32 << queue_id },
            IoOp::ReadReg { reg: 0x800 },
        ],
{
}

/// The vector of a queue's interrupt is a byte of the register of its pair of queues: the registers
/// start at 0x900, the odd queue of a pair has the upper half, and the second direction the upper
/// byte of a half.
pub proof fn law_vector_entry(direction: u32, queue: u16, msix_vector: u32)
    requires
        direction <= 1,
    ensures
        programs::ivar_shift(direction, queue) == 16 * (queue as int % 2) + 8 * direction,
        programs::ivar_op(direction, queue, msix_vector) == (IoOp::ModifyReg {
            reg: (0x900 + 4 * (queue as int / 2)) as u32,
            clear: 0xFFu32 << ((16 * (queue as int % 2) + 8 * direction) as u32),
            set: (msix_vector | 0x80u32) << ((16 * (queue as int % 2) + 8 * direction) as u32),
        }),
{
}

/// Enabling the interrupt of a queue by MSI ties its first direction to vector 0, has no cause
/// cleared by itself, sets the rate in the queue's own register, forgets what is pending, and
/// enables the queue's bit last.
pub proof fn law_enable_msi(queue_id: u16, itr_rate: u32)
    requires
        queue_id < 32,
    ensures
        programs::enable_msi_ops(queue_id, itr_rate) == seq![
            IoOp::ModifyReg {
                reg: (0x900 + 4 * (queue_id as int / 2)) as u32,
                clear: 0xFFu32 << ((16 * (queue_id as int % 2)) as u32),
                set: (0u32 | 0x80u32) << ((16 * (queue_id as int % 2)) as u32),
            },
            IoOp::WriteReg { reg: 0x810, value: 0 },
            IoOp::WriteReg {
                reg: (if queue_id < 24 {
                    0x820 + 4 * queue_id
                } else {
                    0x1_2300 + 4 * (queue_id - 24)
                }) as u32,
                value: itr_rate,
            },
            IoOp::WriteReg { reg: 0x888, value: 0xFFFF_FFFF },
            IoOp::ReadReg { reg: 0x800 },
            IoOp::ModifyReg { reg: 0x880, clear: 0, set: 1u32 << queue_id },
        ],
{
}

/// Enabling the interrupt of a queue by MSI-X turns MSI-X on, ties the queue's first direction to
/// the vector of the same number, has the causes of the queues cleared by themselves, sets the rate
/// in the queue's own register, and enables the queue's bit last.
pub proof fn law_enable_msix(queue_id: u16, itr_rate: u32)
    requires
        queue_id < 32,
    ensures
        programs::enable_msix_ops(queue_id, itr_rate) == seq![
            IoOp::ModifyReg { reg: 0x898, clear: 0, set: 0xC000_0010 },
            IoOp::ModifyReg {
                reg: (0x900 + 4 * (queue_id as int / 2)) as u32,
                clear: 0xFFu32 << ((16 * (queue_id as int % 2)) as u32),
                set: ((queue_id as u32) | 0x80u32) << ((16 * (queue_id as int % 2)) as u32),
            },
            IoOp::WriteReg { reg: 0x810, value: 0xFFFF },
            IoOp::WriteReg {
                reg: (if queue_id < 24 {
                    0x820 + 4 * queue_id
                } else {
                    0x1_2300 + 4 * (queue_id - 24)
                }) as u32,
                value: itr_rate,
            },
            IoOp::ModifyReg { reg: 0x880, clear: 0, set: 1u32 << queue_id },
        ],
{
    assert(0x10u32 | 0x8000_0000u32 | 0x4000_0000u32 == 0xC000_0010u32) by (bit_vector);
}

/// Setting and clearing bits of a register touches no others, whatever register and bits.
pub proof fn law_flag_ops(reg: u32, flags: u32)
    ensures
        programs::set_flags(reg, flags) == (IoOp::ModifyReg { reg, clear: 0, set: flags }),
        programs::clear_flags(reg, flags) == (IoOp::ModifyReg { reg, clear: flags, set: 0 }),
{
}

/// Promiscuous mode is bits 8 and 9 of register 0x5080, both set or both cleared.
pub proof fn law_promisc_op()
    ensures
        programs::promisc_op(true) == (IoOp::ModifyReg { reg: 0x5080, clear: 0, set: 0x300 }),
        programs::promisc_op(false) == (IoOp::ModifyReg { reg: 0x5080, clear: 0x300, set: 0 }),
{
    assert(0x100u32 | 0x200u32 == 0x300u32) by (bit_vector);
}

/// The link is negotiated by register 0x42A0; the counters are six registers that reading resets;
/// and the link is looked at in register 0x42A4 after it was waited for.
pub proof fn law_link_and_counters()
    ensures
        programs::init_link_ops() == seq![
            IoOp::ModifyReg { reg: 0x42A0, clear: 0xE000, set: 0x6000 },
            IoOp::ModifyReg { reg: 0x42A0, clear: 0x180, set: 0 },
            IoOp::ModifyReg { reg: 0x42A0, clear: 0, set: 0x1000 },
        ],
        programs::reset_stats_ops() == seq![
            IoOp::ReadReg { reg: 0x4074 },
            IoOp::ReadReg { reg: 0x4080 },
            IoOp::ReadReg { reg: 0x4088 },
            IoOp::ReadReg { reg: 0x408C },
            IoOp::ReadReg { reg: 0x4090 },
            IoOp::ReadReg { reg: 0x4094 },
        ],
        programs::wait_for_link_ops() == seq![IoOp::WaitLink, IoOp::ReadReg { reg: 0x42A4 }],
{
}

/// The link is up if bit 30 of its status is set. Its speed is then given by bits 28 and 29; they
/// mean nothing while it is down.
pub proof fn law_link_speed(links: u32)
    ensures
        links / 0x4000_0000 % 2 == 0 ==> io::speed_of(links) == 0,
        links / 0x4000_0000 % 2 == 1 ==> io::speed_of(links) == (if links / 0x1000_0000 % 4 == 1 {
            100
        } else if links / 0x1000_0000 % 4 == 2 {
            1000
        } else if links / 0x1000_0000 % 4 == 3 {
            10000
        } else {
            0int
        }),
{
    assert((links & 0x4000_0000 == 0 <==> links / 0x4000_0000 % 2 == 0) && links & 0x3000_0000
        == 0x1000_0000 * (links / 0x1000_0000 % 4)) by (bit_vector);
}

// Resetting and configuring

/// A reset turns interrupts off, writes the reset bits to register 0 and waits until they are clear
/// again, pauses for a second, turns interrupts off once more, reads the address of the card, and
/// waits for its memory and its DMA to be ready.
pub proof fn law_reset_ops()
    ensures
        programs::reset_ops() == seq![
            IoOp::WriteReg { reg: 0x880, value: 0 },
            IoOp::WriteReg { reg: 0x888, value: 0xFFFF_FFFF },
            IoOp::ReadReg { reg: 0x800 },
            IoOp::WriteReg { reg: 0, value: 0x0400_0008 },
            IoOp::WaitClear { reg: 0, mask: 0x0400_0008 },
            IoOp::Sleep { millis: 1000 },
            IoOp::WriteReg { reg: 0x880, value: 0 },
            IoOp::WriteReg { reg: 0x888, value: 0xFFFF_FFFF },
            IoOp::ReadReg { reg: 0x800 },
            IoOp::ReadReg { reg: 0x5400 },
            IoOp::ReadReg { reg: 0x5404 },
            IoOp::WaitSet { reg: 0x1_0010, mask: 0x200 },
            IoOp::WaitSet { reg: 0x2F00, mask: 8 },
        ],
{
}

/// Before the receive queues are set up, receiving is turned off, all buffer space goes to the
/// first packet buffer, checksums are stripped, and broadcasts are accepted.
pub proof fn law_rx_before_ops()
    ensures
        programs::rx_before_ops() == seq![
            IoOp::ModifyReg { reg: 0x3000, clear: 1, set: 0 },
            IoOp::WriteReg { reg: 0x3C00, value: 0x2_0000 },
            IoOp::WriteReg { reg: 0x3C04, value: 0 },
            IoOp::WriteReg { reg: 0x3C08, value: 0 },
            IoOp::WriteReg { reg: 0x3C0C, value: 0 },
            IoOp::WriteReg { reg: 0x3C10, value: 0 },
            IoOp::WriteReg { reg: 0x3C14, value: 0 },
            IoOp::WriteReg { reg: 0x3C18, value: 0 },
            IoOp::WriteReg { reg: 0x3C1C, value: 0 },
            IoOp::ModifyReg { reg: 0x4240, clear: 0, set: 2 },
            IoOp::ModifyReg { reg: 0x2F00, clear: 0, set: 2 },
            IoOp::ModifyReg { reg: 0x5080, clear: 0, set: 0x400 },
        ],
{
}

/// A receive queue is set up with descriptors for one buffer each, dropping packets when there is
/// none, and with a ring of 8192 bytes, filled with ones, that is empty: the card gets the physical
/// address of the ring in two halves, its size, and zero for head and tail.
pub proof fn law_rx_queue_ops(i: int, virt: VirtAddr, phys: PhysAddr)
    requires
        0 <= i < 64,
    ensures
        programs::rx_type_ops(i) == seq![
            IoOp::ModifyReg {
                reg: (if i < 16 {
                    0x2100 + 4 * i
                } else {
                    0x1014 + 0x40 * i
                }) as u32,
                clear: 0x0E00_0000,
                set: 0x0200_0000,
            },
            IoOp::ModifyReg {
                reg: (if i < 16 {
                    0x2100 + 4 * i
                } else {
                    0x1014 + 0x40 * i
                }) as u32,
                clear: 0,
                set: 0x1000_0000,
            },
        ],
        programs::rx_ring_ops(i, virt, phys) == seq![
            IoOp::Fill { addr: virt, len: 8192, byte: 0xff },
            IoOp::WriteReg {
                reg: (0x1000 + 0x40 * i) as u32,
                value: (phys as int % 0x1_0000_0000) as u32,
            },
            IoOp::WriteReg {
                reg: (0x1004 + 0x40 * i) as u32,
                value: (phys as int / 0x1_0000_0000) as u32,
            },
            IoOp::WriteReg { reg: (0x1008 + 0x40 * i) as u32, value: 8192 },
            IoOp::WriteReg { reg: (0x1010 + 0x40 * i) as u32, value: 0 },
            IoOp::WriteReg { reg: (0x1018 + 0x40 * i) as u32, value: 0 },
        ],
        programs::rx_queue_ops(i, virt, phys) == programs::rx_type_ops(i) + programs::rx_ring_ops(
            i,
            virt,
            phys,
        ),
{
}

/// After the receive queues are set up, a bit that each of them needs clear is cleared, and
/// receiving is turned on last.
pub proof fn law_rx_after_ops(count: int, k: int)
    requires
        0 <= count <= 64,
        0 <= k < count,
    ensures
        programs::rx_after_ops(count).len() == count + 2,
        programs::rx_after_ops(count)[0] == (IoOp::ModifyReg {
            reg: 0x18,
            clear: 0,
            set: 0x1_0000,
        }),
        programs::rx_after_ops(count)[k + 1] == (IoOp::ModifyReg {
            reg: (if k < 16 {
                0x2200 + 4 * k
            } else {
                0x100C + 0x40 * k
            }) as u32,
            clear: 0x1000,
            set: 0,
        }),
        programs::rx_after_ops(count)[count + 1] == (IoOp::ModifyReg {
            reg: 0x3000,
            clear: 0,
            set: 1,
        }),
{
}

/// Without receive queues, receiving is turned on all the same.
pub proof fn law_rx_after_none()
    ensures
        programs::rx_after_ops(0) == seq![
            IoOp::ModifyReg { reg: 0x18, clear: 0, set: 0x1_0000 },
            IoOp::ModifyReg { reg: 0x3000, clear: 0, set: 1 },
        ],
{
}

/// Before the transmit queues are set up, checksums and padding are turned on, the first packet
/// buffer gets its space, and the size of requests and the arbiter are set.
pub proof fn law_tx_before_ops()
    ensures
        programs::tx_before_ops() == seq![
            IoOp::ModifyReg { reg: 0x4240, clear: 0, set: 0x401 },
            IoOp::WriteReg { reg: 0xCC00, value: 0xA000 },
            IoOp::WriteReg { reg: 0xCC04, value: 0 },
            IoOp::WriteReg { reg: 0xCC08, value: 0 },
            IoOp::WriteReg { reg: 0xCC0C, value: 0 },
            IoOp::WriteReg { reg: 0xCC10, value: 0 },
            IoOp::WriteReg { reg: 0xCC14, value: 0 },
            IoOp::WriteReg { reg: 0xCC18, value: 0 },
            IoOp::WriteReg { reg: 0xCC1C, value: 0 },
            IoOp::WriteReg { reg: 0x8100, value: 0xffff },
            IoOp::ModifyReg { reg: 0x4900, clear: 0x40, set: 0 },
        ],
        programs::tx_enable_op() == (IoOp::WriteReg { reg: 0x4A80, value: 1 }),
{
    assert(1u32 | 0x400u32 == 0x401u32) by (bit_vector);
}

/// A transmit queue is set up with a ring of 8192 bytes, filled with ones, and with thresholds of
/// 36, 8 and 4; it is enabled with zero for head and tail.
pub proof fn law_tx_queue_ops(i: int, virt: VirtAddr, phys: PhysAddr)
    requires
        0 <= i < 64,
    ensures
        programs::tx_queue_ops(i, virt, phys) == seq![
            IoOp::Fill { addr: virt, len: 8192, byte: 0xff },
            IoOp::WriteReg {
                reg: (0x6000 + 0x40 * i) as u32,
                value: (phys as int % 0x1_0000_0000) as u32,
            },
            IoOp::WriteReg {
                reg: (0x6004 + 0x40 * i) as u32,
                value: (phys as int / 0x1_0000_0000) as u32,
            },
            IoOp::WriteReg { reg: (0x6008 + 0x40 * i) as u32, value: 8192 },
            IoOp::ModifyReg {
                reg: (0x6028 + 0x40 * i) as u32,
                clear: 0x007f_7f7f,
                set: 0x0004_0824,
            },
        ],
        programs::enable_tx_ops(i) == seq![
            IoOp::WriteReg { reg: (0x6010 + 0x40 * i) as u32, value: 0 },
            IoOp::WriteReg { reg: (0x6018 + 0x40 * i) as u32, value: 0 },
            IoOp::ModifyReg { reg: (0x6028 + 0x40 * i) as u32, clear: 0, set: 0x0200_0000 },
            IoOp::WaitSet { reg: (0x6028 + 0x40 * i) as u32, mask: 0x0200_0000 },
        ],
{
}

// Starting receive queues

/// Stocking a receive queue hands each descriptor, in order, the physical address of its buffer,
/// and clears the other half of the descriptor.
pub proof fn law_stock_ops(queue: RxView, pool: PoolView, ids: Seq<usize>, count: int, k: int)
    requires
        0 <= k < count,
    ensures
        programs::stock_ops(queue, pool, ids, count).len() == 2 * count,
        programs::stock_ops(queue, pool, ids, count)[2 * k] == (IoOp::Store64 {
            addr: (queue.descriptors + 16 * k) as usize,
            value: pool.phys_addr[ids[k] as int] as u64,
        }),
        programs::stock_ops(queue, pool, ids, count)[2 * k + 1] == (IoOp::Store64 {
            addr: (queue.descriptors + 16 * k + 8) as usize,
            value: 0,
        }),
    decreases count,
{
    lemma_stock_len(queue, pool, ids, count - 1);
    if k < count - 1 {
        law_stock_ops(queue, pool, ids, count - 1, k);
    }
}

proof fn lemma_stock_len(queue: RxView, pool: PoolView, ids: Seq<usize>, count: int)
    requires
        0 <= count,
    ensures
        programs::stock_ops(queue, pool, ids, count).len() == 2 * count,
    decreases count,
{
    if count > 0 {
        lemma_stock_len(queue, pool, ids, count - 1);
    }
}

/// What starting a receive queue does to the card: each descriptor, in order, gets the physical
/// address of the buffer that became free last; the queue is enabled, and waited for; and its head
/// is set to 0 and its tail to the last descriptor.
pub proof fn law_start_rx_ops(dev: DeviceView, pools: Seq<PoolView>, queue_id: u16, k: int)
    requires
        queue_id < 64,
        dev.start_rx(pools, queue_id).result is Ok,
        0 <= k < dev.rx[queue_id as int].num_descriptors,
    ensures
        ({
            let ops = dev.start_rx(pools, queue_id).ops;
            let q = dev.rx[queue_id as int];
            let n = q.num_descriptors;
            let pool = pools[q.pool as int];
            &&& ops.len() == 2 * n + 4
            &&& ops[2 * k] == (IoOp::Store64 {
                addr: (q.descriptors + 16 * k) as usize,
                value: pool.phys_addr[pool.free[pool.free.len() - 1 - k] as int] as u64,
            })
            &&& ops[2 * k + 1] == (IoOp::Store64 {
                addr: (q.descriptors + 16 * k + 8) as usize,
                value: 0,
            })
            &&& ops[2 * n] == (IoOp::ModifyReg {
                reg: (0x1028 + 0x40 * queue_id) as u32,
                clear: 0,
                set: 0x0200_0000,
            })
            &&& ops[2 * n + 1] == (IoOp::WaitSet {
                reg: (0x1028 + 0x40 * queue_id) as u32,
                mask: 0x0200_0000,
            })
            &&& ops[2 * n + 2] == (IoOp::WriteReg {
                reg: (0x1010 + 0x40 * queue_id) as u32,
                value: 0,
            })
            &&& ops[2 * n + 3] == (IoOp::WriteReg {
                reg: (0x1018 + 0x40 * queue_id) as u32,
                value: (n - 1) as u32,
            })
        }),
{
    let q = dev.rx[queue_id as int];
    let pool = pools[q.pool as int];
    law_stock_ops(
        q,
        pool,
        init::taken(pool.free, q.num_descriptors),
        q.num_descriptors,
        k,
    );
}

/// A receive queue whose size is no power of two is not started at all. One whose pool has too few
/// free buffers gets all of them, from the last on, and is not enabled.
pub proof fn law_start_rx_fails(dev: DeviceView, pools: Seq<PoolView>, queue_id: u16, k: int)
    requires
        queue_id < dev.rx.len(),
        dev.rx[queue_id as int].pool < pools.len(),
        dev.start_rx(pools, queue_id).result is Err,
    ensures
        ({
            let step = dev.start_rx(pools, queue_id);
            let i = queue_id as int;
            let (q, after) = (dev.rx[i], step.dev.rx[i]);
            let p = q.pool as int;
            let free = pools[p].free;
            let m = free.len() as int;
            if step.result == Err::<(), IxgbeError>(IxgbeError::QueueNotAligned) {
                step.dev == dev && step.pools == pools && step.ops.len() == 0
            } else {
                &&& step.result == Err::<(), IxgbeError>(IxgbeError::NoMemory)
                &&& m < q.num_descriptors
                &&& after.bufs.len() == q.bufs.len() + m
                &&& 0 <= k < q.bufs.len() ==> after.bufs[k] == q.bufs[k]
                &&& 0 <= k < m ==> after.bufs[q.bufs.len() + k] == free[m - 1 - k]
                &&& step.dev == (DeviceView { rx: dev.rx.update(i, after), ..dev })
                &&& after == (RxView { bufs: after.bufs, ..q })
                &&& step.pools.len() == pools.len()
                &&& 0 <= k < pools.len() && k != p ==> step.pools[k] == pools[k]
                &&& step.pools[p] == (PoolView { free: step.pools[p].free, ..pools[p] })
                &&& step.pools[p].free.len() == 0
                &&& step.ops.len() == 2 * m
                &&& 0 <= k < m ==> step.ops[2 * k] == (IoOp::Store64 {
                    addr: (q.descriptors + 16 * k) as usize,
                    value: pools[p].phys_addr[free[m - 1 - k] as int] as u64,
                })
                &&& 0 <= k < m ==> step.ops[2 * k + 1] == (IoOp::Store64 {
                    addr: (q.descriptors + 16 * k + 8) as usize,
                    value: 0,
                })
            }
        }),
{
    let q = dev.rx[queue_id as int];
    let pool = pools[q.pool as int];
    let m = pool.free.len() as int;
    let ids = init::taken(pool.free, m);
    lemma_stock_len(q, pool, ids, m);
    if 0 <= k < m {
        law_stock_ops(q, pool, ids, m, k);
    }
}

// Initializing

/// The operation changes the register.
pub open spec fn changes(op: IoOp, reg: u32) -> bool {
    match op {
        IoOp::WriteReg { reg: r, .. } => r == reg,
        IoOp::ModifyReg { reg: r, .. } => r == reg,
        _ => false,
    }
}

/// None of the operations changes the register.
pub open spec fn leaves(ops: Seq<IoOp>, reg: u32) -> bool {
    forall|k: int| 0 <= k < ops.len() ==> !changes(#[trigger] ops[k], reg)
}

/// The last of the operations that change the register is `op`.
pub open spec fn last_change(ops: Seq<IoOp>, reg: u32, op: IoOp) -> bool {
    exists|k: int|
        0 <= k < ops.len() && #[trigger] ops[k] == op && changes(op, reg) && leaves(
            ops.skip(k + 1),
            reg,
        )
}

proof fn lemma_leaves_join(a: Seq<IoOp>, b: Seq<IoOp>, reg: u32)
    requires
        leaves(a, reg),
        leaves(b, reg),
    ensures
        leaves(a + b, reg),
{
}

proof fn lemma_change_first(a: Seq<IoOp>, b: Seq<IoOp>, reg: u32, op: IoOp)
    requires
        last_change(a, reg, op),
        leaves(b, reg),
    ensures
        last_change(a + b, reg, op),
{
    let k = choose|k: int|
        0 <= k < a.len() && #[trigger] a[k] == op && changes(op, reg) && leaves(
            a.skip(k + 1),
            reg,
        );
    assert((a + b)[k] == op);
    assert((a + b).skip(k + 1) =~= a.skip(k + 1) + b);
    lemma_leaves_join(a.skip(k + 1), b, reg);
}

proof fn lemma_change_last(a: Seq<IoOp>, b: Seq<IoOp>, reg: u32, op: IoOp)
    requires
        last_change(b, reg, op),
    ensures
        last_change(a + b, reg, op),
{
    let k = choose|k: int|
        0 <= k < b.len() && #[trigger] b[k] == op && changes(op, reg) && leaves(
            b.skip(k + 1),
            reg,
        );
    assert((a + b)[a.len() + k] == op);
    assert((a + b).skip(a.len() + k + 1) =~= b.skip(k + 1));
}

proof fn lemma_change_at(ops: Seq<IoOp>, reg: u32, k: int)
    requires
        0 <= k < ops.len(),
        changes(ops[k], reg),
        forall|j: int| k < j < ops.len() ==> !changes(#[trigger] ops[j], reg),
    ensures
        last_change(ops, reg, ops[k]),
{
    assert forall|j: int| 0 <= j < ops.skip(k + 1).len() implies !changes(
        #[trigger] ops.skip(k + 1)[j],
        reg,
    ) by {
        assert(ops.skip(k + 1)[j] == ops[k + 1 + j]);
    }
}

/// What the set-up of the receive queues leaves in the registers of queue `i`.
proof fn lemma_rx_queues_change(queues: Seq<RxView>, count: int, i: int)
    requires
        0 <= count <= queues.len() <= 64,
        0 <= i < 64,
    ensures
        ({
            let ops = programs::rx_queues_ops(queues, count);
            let (low, high) = ((0x1000 + 0x40 * i) as u32, (0x1004 + 0x40 * i) as u32);
            let size = (0x1008 + 0x40 * i) as u32;
            if i < count {
                let phys = queues[i].ring_phys as int;
                &&& last_change(
                    ops,
                    low,
                    IoOp::WriteReg { reg: low, value: (phys % 0x1_0000_0000) as u32 },
                )
                &&& last_change(
                    ops,
                    high,
                    IoOp::WriteReg { reg: high, value: (phys / 0x1_0000_0000) as u32 },
                )
                &&& last_change(ops, size, IoOp::WriteReg { reg: size, value: 8192 })
            } else {
                leaves(ops, low) && leaves(ops, high) && leaves(ops, size)
            }
        }),
    decreases count,
{
    let (low, high) = ((0x1000 + 0x40 * i) as u32, (0x1004 + 0x40 * i) as u32);
    let size = (0x1008 + 0x40 * i) as u32;
    if count > 0 {
        lemma_rx_queues_change(queues, count - 1, i);
        let q = queues[count - 1];
        let phys = q.ring_phys as int;
        let before = programs::rx_queues_ops(queues, count - 1);
        let ops = programs::rx_queue_ops(count - 1, q.descriptors as usize, q.ring_phys);
        assert(ops.len() == 8);
        if i == count - 1 {
            lemma_change_at(ops, low, 3);
            lemma_change_at(ops, high, 4);
            lemma_change_at(ops, size, 5);
            lemma_change_last(before, ops, low, ops[3]);
            lemma_change_last(before, ops, high, ops[4]);
            lemma_change_last(before, ops, size, ops[5]);
        } else {
            assert(leaves(ops, low) && leaves(ops, high) && leaves(ops, size));
            if i < count {
                let own = queues[i].ring_phys as int;
                lemma_change_first(
                    before,
                    ops,
                    low,
                    IoOp::WriteReg { reg: low, value: (own % 0x1_0000_0000) as u32 },
                );
                lemma_change_first(
                    before,
                    ops,
                    high,
                    IoOp::WriteReg { reg: high, value: (own / 0x1_0000_0000) as u32 },
                );
                lemma_change_first(before, ops, size, IoOp::WriteReg { reg: size, value: 8192 });
            }
        }
    }
}

/// What the set-up of the transmit queues leaves in the registers of queue `i`.
proof fn lemma_tx_queues_change(queues: Seq<TxView>, count: int, i: int)
    requires
        0 <= count <= queues.len() <= 64,
        0 <= i < 64,
    ensures
        ({
            let ops = programs::tx_queues_ops(queues, count);
            let (low, high) = ((0x6000 + 0x40 * i) as u32, (0x6004 + 0x40 * i) as u32);
            let size = (0x6008 + 0x40 * i) as u32;
            if i < count {
                let phys = queues[i].ring_phys as int;
                &&& last_change(
                    ops,
                    low,
                    IoOp::WriteReg { reg: low, value: (phys % 0x1_0000_0000) as u32 },
                )
                &&& last_change(
                    ops,
                    high,
                    IoOp::WriteReg { reg: high, value: (phys / 0x1_0000_0000) as u32 },
                )
                &&& last_change(ops, size, IoOp::WriteReg { reg: size, value: 8192 })
            } else {
                leaves(ops, low) && leaves(ops, high) && leaves(ops, size)
            }
        }),
    decreases count,
{
    let (low, high) = ((0x6000 + 0x40 * i) as u32, (0x6004 + 0x40 * i) as u32);
    let size = (0x6008 + 0x40 * i) as u32;
    if count > 0 {
        lemma_tx_queues_change(queues, count - 1, i);
        let q = queues[count - 1];
        let phys = q.ring_phys as int;
        let before = programs::tx_queues_ops(queues, count - 1);
        let ops = programs::tx_queue_ops(count - 1, q.descriptors as usize, q.ring_phys);
        assert(ops.len() == 5);
        if i == count - 1 {
            lemma_change_at(ops, low, 1);
            lemma_change_at(ops, high, 2);
            lemma_change_at(ops, size, 3);
            lemma_change_last(before, ops, low, ops[1]);
            lemma_change_last(before, ops, high, ops[2]);
            lemma_change_last(before, ops, size, ops[3]);
        } else {
            assert(leaves(ops, low) && leaves(ops, high) && leaves(ops, size));
            if i < count {
                let own = queues[i].ring_phys as int;
                lemma_change_first(
                    before,
                    ops,
                    low,
                    IoOp::WriteReg { reg: low, value: (own % 0x1_0000_0000) as u32 },
                );
                lemma_change_first(
                    before,
                    ops,
                    high,
                    IoOp::WriteReg { reg: high, value: (own / 0x1_0000_0000) as u32 },
                );
                lemma_change_first(before, ops, size, IoOp::WriteReg { reg: size, value: 8192 });
            }
        }
    }
}

/// Stocking a queue changes no register.
proof fn lemma_stock_leaves(
    queue: RxView,
    pool: PoolView,
    ids: Seq<usize>,
    count: int,
    reg: u32,
)
    ensures
        leaves(programs::stock_ops(queue, pool, ids, count), reg),
    decreases count,
{
    if count > 0 {
        lemma_stock_leaves(queue, pool, ids, count - 1, reg);
        assert(leaves(
            programs::refill_ops(queue, count - 1, pool.phys_addr[ids[count - 1] as int]),
            reg,
        ));
    }
}

/// What starting the receive queues leaves in the registers of queue `i`, and of others.
proof fn lemma_start_rx_change(
    queues: Seq<RxView>,
    pools: Seq<PoolView>,
    count: int,
    i: int,
    other: u32,
)
    requires
        0 <= count <= queues.len() <= 64,
        0 <= i < 64,
        other >= 0x2000 || other % 0x40 == 0 || other % 0x40 == 4 || other % 0x40 == 8,
    ensures
        ({
            let ops = programs::start_rx_ops(queues, pools, count);
            let head = (0x1010 + 0x40 * i) as u32;
            let tail = (0x1018 + 0x40 * i) as u32;
            let control = (0x1028 + 0x40 * i) as u32;
            &&& leaves(ops, other)
            &&& if i < count {
                &&& last_change(ops, head, IoOp::WriteReg { reg: head, value: 0 })
                &&& last_change(
                    ops,
                    tail,
                    IoOp::WriteReg { reg: tail, value: (queues[i].num_descriptors - 1) as u32 },
                )
                &&& last_change(
                    ops,
                    control,
                    IoOp::ModifyReg { reg: control, clear: 0, set: 0x0200_0000 },
                )
            } else {
                leaves(ops, head) && leaves(ops, tail) && leaves(ops, control)
            }
        }),
    decreases count,
{
    let head = (0x1010 + 0x40 * i) as u32;
    let tail = (0x1018 + 0x40 * i) as u32;
    let control = (0x1028 + 0x40 * i) as u32;
    if count > 0 {
        lemma_start_rx_change(queues, pools, count - 1, i, other);
        let q = queues[count - 1];
        let pool = pools[q.pool as int];
        let before = programs::start_rx_ops(queues, pools, count - 1);
        let stock = programs::stock_ops(q, pool, q.bufs, q.num_descriptors);
        let enable = programs::enable_rx_ops(count - 1, q.num_descriptors);
        let ops = stock + enable;
        lemma_stock_leaves(q, pool, q.bufs, q.num_descriptors, head);
        lemma_stock_leaves(q, pool, q.bufs, q.num_descriptors, tail);
        lemma_stock_leaves(q, pool, q.bufs, q.num_descriptors, control);
        lemma_stock_leaves(q, pool, q.bufs, q.num_descriptors, other);
        assert(leaves(enable, other));
        lemma_leaves_join(stock, enable, other);
        lemma_leaves_join(before, ops, other);
        if i == count - 1 {
            lemma_change_at(enable, control, 0);
            lemma_change_at(enable, head, 2);
            lemma_change_at(enable, tail, 3);
            lemma_change_last(stock, enable, control, enable[0]);
            lemma_change_last(stock, enable, head, enable[2]);
            lemma_change_last(stock, enable, tail, enable[3]);
            lemma_change_last(before, ops, control, enable[0]);
            lemma_change_last(before, ops, head, enable[2]);
            lemma_change_last(before, ops, tail, enable[3]);
        } else {
            assert(leaves(enable, head) && leaves(enable, tail) && leaves(enable, control));
            lemma_leaves_join(stock, enable, head);
            lemma_leaves_join(stock, enable, tail);
            lemma_leaves_join(stock, enable, control);
            if i < count {
                let n = queues[i].num_descriptors;
                lemma_change_first(before, ops, head, IoOp::WriteReg { reg: head, value: 0 });
                lemma_change_first(
                    before,
                    ops,
                    tail,
                    IoOp::WriteReg { reg: tail, value: (n - 1) as u32 },
                );
                lemma_change_first(
                    before,
                    ops,
                    control,
                    IoOp::ModifyReg { reg: control, clear: 0, set: 0x0200_0000 },
                );
            }
        }
    }
}

/// What starting the transmit queues leaves in the registers of queue `i`, and of others.
proof fn lemma_start_tx_change(count: int, i: int, other: u32)
    requires
        0 <= count <= 64,
        0 <= i < 64,
        other < 0x6000 || other % 0x40 == 0 || other % 0x40 == 4 || other % 0x40 == 8,
    ensures
        ({
            let ops = programs::start_tx_ops(count);
            let head = (0x6010 + 0x40 * i) as u32;
            let tail = (0x6018 + 0x40 * i) as u32;
            let control = (0x6028 + 0x40 * i) as u32;
            &&& leaves(ops, other)
            &&& if i < count {
                &&& last_change(ops, head, IoOp::WriteReg { reg: head, value: 0 })
                &&& last_change(ops, tail, IoOp::WriteReg { reg: tail, value: 0 })
                &&& last_change(
                    ops,
                    control,
                    IoOp::ModifyReg { reg: control, clear: 0, set: 0x0200_0000 },
                )
            } else {
                leaves(ops, head) && leaves(ops, tail) && leaves(ops, control)
            }
        }),
    decreases count,
{
    let head = (0x6010 + 0x40 * i) as u32;
    let tail = (0x6018 + 0x40 * i) as u32;
    let control = (0x6028 + 0x40 * i) as u32;
    if count > 0 {
        lemma_start_tx_change(count - 1, i, other);
        let before = programs::start_tx_ops(count - 1);
        let enable = programs::enable_tx_ops(count - 1);
        assert(leaves(enable, other));
        lemma_leaves_join(before, enable, other);
        if i == count - 1 {
            lemma_change_at(enable, head, 0);
            lemma_change_at(enable, tail, 1);
            lemma_change_at(enable, control, 2);
            lemma_change_last(before, enable, head, enable[0]);
            lemma_change_last(before, enable, tail, enable[1]);
            lemma_change_last(before, enable, control, enable[2]);
        } else {
            assert(leaves(enable, head) && leaves(enable, tail) && leaves(enable, control));
            if i < count {
                lemma_change_first(before, enable, head, IoOp::WriteReg { reg: head, value: 0 });
                lemma_change_first(before, enable, tail, IoOp::WriteReg { reg: tail, value: 0 });
                lemma_change_first(
                    before,
                    enable,
                    control,
                    IoOp::ModifyReg { reg: control, clear: 0, set: 0x0200_0000 },
                );
            }
        }
    }
}

/// Starting the receive queues, one after the other, leaves each with the head at the first of its
/// descriptors, the tail at the last, and enabled.
pub proof fn law_rx_started(queues: Seq<RxView>, pools: Seq<PoolView>, i: int)
    requires
        0 <= i < queues.len() <= 64,
    ensures
        ({
            let ops = programs::start_rx_ops(queues, pools, queues.len() as int);
            let head = (0x1010 + 0x40 * i) as u32;
            let tail = (0x1018 + 0x40 * i) as u32;
            let control = (0x1028 + 0x40 * i) as u32;
            &&& last_change(ops, head, IoOp::WriteReg { reg: head, value: 0 })
            &&& last_change(
                ops,
                tail,
                IoOp::WriteReg { reg: tail, value: (queues[i].num_descriptors - 1) as u32 },
            )
            &&& last_change(
                ops,
                control,
                IoOp::ModifyReg { reg: control, clear: 0, set: 0x0200_0000 },
            )
        }),
{
    lemma_start_rx_change(queues, pools, queues.len() as int, i, 0x2000);
}

/// After initializing, the registers of each receive queue say that its head is at the first
/// descriptor and its tail at the last, and that it is enabled.
pub proof fn law_init_rx_registers(
    rx: Seq<RxView>,
    tx: Seq<TxView>,
    pools: Seq<PoolView>,
    i: int,
)
    requires
        0 <= i < rx.len() <= 64,
        tx.len() <= 64,
    ensures
        ({
            let ops = programs::init_ops(rx, tx, pools);
            let head = (0x1010 + 0x40 * i) as u32;
            let tail = (0x1018 + 0x40 * i) as u32;
            let control = (0x1028 + 0x40 * i) as u32;
            &&& last_change(ops, head, IoOp::WriteReg { reg: head, value: 0 })
            &&& last_change(
                ops,
                tail,
                IoOp::WriteReg { reg: tail, value: (rx[i].num_descriptors - 1) as u32 },
            )
            &&& last_change(
                ops,
                control,
                IoOp::ModifyReg { reg: control, clear: 0, set: 0x0200_0000 },
            )
        }),
{
    let head = (0x1010 + 0x40 * i) as u32;
    let tail = (0x1018 + 0x40 * i) as u32;
    let control = (0x1028 + 0x40 * i) as u32;
    let start = programs::start_rx_ops(rx, pools, rx.len() as int);
    law_rx_started(rx, pools, i);
    lemma_after_start_rx(rx, tx, pools, head, IoOp::WriteReg { reg: head, value: 0 });
    lemma_after_start_rx(
        rx,
        tx,
        pools,
        tail,
        IoOp::WriteReg { reg: tail, value: (rx[i].num_descriptors - 1) as u32 },
    );
    lemma_after_start_rx(
        rx,
        tx,
        pools,
        control,
        IoOp::ModifyReg { reg: control, clear: 0, set: 0x0200_0000 },
    );
}

proof fn lemma_after_start_rx(
    rx: Seq<RxView>,
    tx: Seq<TxView>,
    pools: Seq<PoolView>,
    reg: u32,
    op: IoOp,
)
    requires
        tx.len() <= 64,
        reg < 0x5080,
        last_change(programs::start_rx_ops(rx, pools, rx.len() as int), reg, op),
    ensures
        last_change(programs::init_ops(rx, tx, pools), reg, op),
{
    let before = programs::reset_ops() + programs::init_link_ops() + programs::reset_stats_ops()
        + programs::init_rx_ops(rx) + programs::init_tx_ops(tx);
    let start = programs::start_rx_ops(rx, pools, rx.len() as int);
    let start_tx = programs::start_tx_ops(tx.len() as int);
    let promisc = seq![programs::promisc_op(true)];
    let link = programs::wait_for_link_ops();
    lemma_start_tx_change(tx.len() as int, 0, reg);
    lemma_change_last(before, start, reg, op);
    lemma_change_first(before + start, start_tx, reg, op);
    assert(leaves(promisc, reg));
    lemma_change_first(before + start + start_tx, promisc, reg, op);
    assert(leaves(link, reg));
    lemma_change_first(before + start + start_tx + promisc, link, reg, op);
}

/// After initializing, the registers of each receive queue hold the physical address of its ring,
/// and the ring's size.
pub proof fn law_init_rx_rings(rx: Seq<RxView>, tx: Seq<TxView>, pools: Seq<PoolView>, i: int)
    requires
        0 <= i < rx.len() <= 64,
        tx.len() <= 64,
    ensures
        ({
            let ops = programs::init_ops(rx, tx, pools);
            let (low, high) = ((0x1000 + 0x40 * i) as u32, (0x1004 + 0x40 * i) as u32);
            let size = (0x1008 + 0x40 * i) as u32;
            let phys = rx[i].ring_phys as int;
            &&& last_change(
                ops,
                low,
                IoOp::WriteReg { reg: low, value: (phys % 0x1_0000_0000) as u32 },
            )
            &&& last_change(
                ops,
                high,
                IoOp::WriteReg { reg: high, value: (phys / 0x1_0000_0000) as u32 },
            )
            &&& last_change(ops, size, IoOp::WriteReg { reg: size, value: 8192 })
        }),
{
    let (low, high) = ((0x1000 + 0x40 * i) as u32, (0x1004 + 0x40 * i) as u32);
    let size = (0x1008 + 0x40 * i) as u32;
    let phys = rx[i].ring_phys as int;
    lemma_rx_queues_change(rx, rx.len() as int, i);
    lemma_after_rx_queues(
        rx,
        tx,
        pools,
        low,
        IoOp::WriteReg { reg: low, value: (phys % 0x1_0000_0000) as u32 },
    );
    lemma_after_rx_queues(
        rx,
        tx,
        pools,
        high,
        IoOp::WriteReg { reg: high, value: (phys / 0x1_0000_0000) as u32 },
    );
    lemma_after_rx_queues(rx, tx, pools, size, IoOp::WriteReg { reg: size, value: 8192 });
}

proof fn lemma_after_rx_queues(
    rx: Seq<RxView>,
    tx: Seq<TxView>,
    pools: Seq<PoolView>,
    reg: u32,
    op: IoOp,
)
    requires
        rx.len() <= 64,
        tx.len() <= 64,
        0x1000 <= reg < 0x2000,
        reg % 0x40 == 0 || reg % 0x40 == 4 || reg % 0x40 == 8,
        last_change(programs::rx_queues_ops(rx, rx.len() as int), reg, op),
    ensures
        last_change(programs::init_ops(rx, tx, pools), reg, op),
{
    let queues = programs::rx_queues_ops(rx, rx.len() as int);
    let after = programs::rx_after_ops(rx.len() as int);
    let reset = programs::reset_ops() + programs::init_link_ops() + programs::reset_stats_ops();
    let start = programs::start_rx_ops(rx, pools, rx.len() as int);
    let start_tx = programs::start_tx_ops(tx.len() as int);
    let promisc = seq![programs::promisc_op(true)];
    let link = programs::wait_for_link_ops();
    let rx_ops = programs::init_rx_ops(rx);
    let tx_ops = programs::init_tx_ops(tx);
    lemma_change_last(programs::rx_before_ops(), queues, reg, op);
    assert(leaves(after, reg));
    lemma_change_first(programs::rx_before_ops() + queues, after, reg, op);
    lemma_change_last(reset, rx_ops, reg, op);
    lemma_init_tx_leaves(tx, tx.len() as int, reg);
    lemma_change_first(reset + rx_ops, tx_ops, reg, op);
    lemma_start_rx_change(rx, pools, rx.len() as int, 0, reg);
    lemma_change_first(reset + rx_ops + tx_ops, start, reg, op);
    lemma_start_tx_change(tx.len() as int, 0, reg);
    lemma_change_first(reset + rx_ops + tx_ops + start, start_tx, reg, op);
    assert(leaves(promisc, reg));
    lemma_change_first(reset + rx_ops + tx_ops + start + start_tx, promisc, reg, op);
    assert(leaves(link, reg));
    lemma_change_first(reset + rx_ops + tx_ops + start + start_tx + promisc, link, reg, op);
}

/// Setting the transmit queues up leaves the registers of the receive queues alone.
proof fn lemma_init_tx_leaves(tx: Seq<TxView>, count: int, reg: u32)
    requires
        0 <= count <= tx.len() <= 64,
        0x1000 <= reg < 0x2000,
    ensures
        leaves(programs::tx_queues_ops(tx, count), reg),
        count == tx.len() ==> leaves(programs::init_tx_ops(tx), reg),
    decreases count,
{
    if count > 0 {
        lemma_init_tx_leaves(tx, count - 1, reg);
        let q = tx[count - 1];
        assert(leaves(
            programs::tx_queue_ops(count - 1, q.descriptors as usize, q.ring_phys),
            reg,
        ));
    }
    if count == tx.len() {
        let before = programs::tx_before_ops();
        let queues = programs::tx_queues_ops(tx, count);
        assert(leaves(before, reg));
        lemma_leaves_join(before, queues, reg);
        assert(leaves(seq![programs::tx_enable_op()], reg));
        lemma_leaves_join(before + queues, seq![programs::tx_enable_op()], reg);
    }
}

/// After initializing, the registers of each transmit queue hold the physical address of its ring
/// and the ring's size, zero for head and tail, and say that the queue is enabled.
pub proof fn law_init_tx_registers(
    rx: Seq<RxView>,
    tx: Seq<TxView>,
    pools: Seq<PoolView>,
    i: int,
)
    requires
        rx.len() <= 64,
        0 <= i < tx.len() <= 64,
    ensures
        ({
            let ops = programs::init_ops(rx, tx, pools);
            let (low, high) = ((0x6000 + 0x40 * i) as u32, (0x6004 + 0x40 * i) as u32);
            let size = (0x6008 + 0x40 * i) as u32;
            let (head, tail) = ((0x6010 + 0x40 * i) as u32, (0x6018 + 0x40 * i) as u32);
            let control = (0x6028 + 0x40 * i) as u32;
            let phys = tx[i].ring_phys as int;
            &&& last_change(
                ops,
                low,
                IoOp::WriteReg { reg: low, value: (phys % 0x1_0000_0000) as u32 },
            )
            &&& last_change(
                ops,
                high,
                IoOp::WriteReg { reg: high, value: (phys / 0x1_0000_0000) as u32 },
            )
            &&& last_change(ops, size, IoOp::WriteReg { reg: size, value: 8192 })
            &&& last_change(ops, head, IoOp::WriteReg { reg: head, value: 0 })
            &&& last_change(ops, tail, IoOp::WriteReg { reg: tail, value: 0 })
            &&& last_change(
                ops,
                control,
                IoOp::ModifyReg { reg: control, clear: 0, set: 0x0200_0000 },
            )
        }),
{
    let (low, high) = ((0x6000 + 0x40 * i) as u32, (0x6004 + 0x40 * i) as u32);
    let size = (0x6008 + 0x40 * i) as u32;
    let (head, tail) = ((0x6010 + 0x40 * i) as u32, (0x6018 + 0x40 * i) as u32);
    let control = (0x6028 + 0x40 * i) as u32;
    let phys = tx[i].ring_phys as int;
    lemma_tx_queues_change(tx, tx.len() as int, i);
    lemma_start_tx_change(tx.len() as int, i, 0);
    lemma_after_tx_queues(
        rx,
        tx,
        pools,
        low,
        IoOp::WriteReg { reg: low, value: (phys % 0x1_0000_0000) as u32 },
    );
    lemma_after_tx_queues(
        rx,
        tx,
        pools,
        high,
        IoOp::WriteReg { reg: high, value: (phys / 0x1_0000_0000) as u32 },
    );
    lemma_after_tx_queues(rx, tx, pools, size, IoOp::WriteReg { reg: size, value: 8192 });
    lemma_after_start_tx(rx, tx, pools, head, IoOp::WriteReg { reg: head, value: 0 });
    lemma_after_start_tx(rx, tx, pools, tail, IoOp::WriteReg { reg: tail, value: 0 });
    lemma_after_start_tx(
        rx,
        tx,
        pools,
        control,
        IoOp::ModifyReg { reg: control, clear: 0, set: 0x0200_0000 },
    );
}

proof fn lemma_after_tx_queues(
    rx: Seq<RxView>,
    tx: Seq<TxView>,
    pools: Seq<PoolView>,
    reg: u32,
    op: IoOp,
)
    requires
        rx.len() <= 64,
        tx.len() <= 64,
        0x6000 <= reg < 0x7000,
        reg % 0x40 == 0 || reg % 0x40 == 4 || reg % 0x40 == 8,
        last_change(programs::tx_queues_ops(tx, tx.len() as int), reg, op),
    ensures
        last_change(programs::init_ops(rx, tx, pools), reg, op),
{
    let queues = programs::tx_queues_ops(tx, tx.len() as int);
    let before = programs::reset_ops() + programs::init_link_ops() + programs::reset_stats_ops()
        + programs::init_rx_ops(rx);
    let start = programs::start_rx_ops(rx, pools, rx.len() as int);
    let start_tx = programs::start_tx_ops(tx.len() as int);
    let promisc = seq![programs::promisc_op(true)];
    let link = programs::wait_for_link_ops();
    let tx_ops = programs::init_tx_ops(tx);
    let enable = seq![programs::tx_enable_op()];
    lemma_change_last(programs::tx_before_ops(), queues, reg, op);
    assert(leaves(enable, reg));
    lemma_change_first(programs::tx_before_ops() + queues, enable, reg, op);
    lemma_change_last(before, tx_ops, reg, op);
    lemma_start_rx_change(rx, pools, rx.len() as int, 0, reg);
    lemma_change_first(before + tx_ops, start, reg, op);
    lemma_start_tx_change(tx.len() as int, 0, reg);
    lemma_change_first(before + tx_ops + start, start_tx, reg, op);
    assert(leaves(promisc, reg));
    lemma_change_first(before + tx_ops + start + start_tx, promisc, reg, op);
    assert(leaves(link, reg));
    lemma_change_first(before + tx_ops + start + start_tx + promisc, link, reg, op);
}

proof fn lemma_after_start_tx(
    rx: Seq<RxView>,
    tx: Seq<TxView>,
    pools: Seq<PoolView>,
    reg: u32,
    op: IoOp,
)
    requires
        reg >= 0x6000,
        last_change(programs::start_tx_ops(tx.len() as int), reg, op),
    ensures
        last_change(programs::init_ops(rx, tx, pools), reg, op),
{
    let before = programs::reset_ops() + programs::init_link_ops() + programs::reset_stats_ops()
        + programs::init_rx_ops(rx) + programs::init_tx_ops(tx) + programs::start_rx_ops(
        rx,
        pools,
        rx.len() as int,
    );
    let start_tx = programs::start_tx_ops(tx.len() as int);
    let promisc = seq![programs::promisc_op(true)];
    let link = programs::wait_for_link_ops();
    lemma_change_last(before, start_tx, reg, op);
    assert(leaves(promisc, reg));
    lemma_change_first(before + start_tx, promisc, reg, op);
    assert(leaves(link, reg));
    lemma_change_first(before + start_tx + promisc, link, reg, op);
}

/// The queues are set up and started in order: one queue more is what the queues before it ask for,
/// and then what this one asks for.
pub proof fn law_queue_by_queue(
    rx: Seq<RxView>,
    tx: Seq<TxView>,
    pools: Seq<PoolView>,
    count: int,
)
    requires
        0 <= count,
    ensures
        programs::rx_queues_ops(rx, 0).len() == 0,
        programs::tx_queues_ops(tx, 0).len() == 0,
        programs::start_rx_ops(rx, pools, 0).len() == 0,
        programs::start_tx_ops(0).len() == 0,
        programs::rx_queues_ops(rx, count + 1) == programs::rx_queues_ops(rx, count)
            + programs::rx_queue_ops(count, rx[count].descriptors as usize, rx[count].ring_phys),
        programs::tx_queues_ops(tx, count + 1) == programs::tx_queues_ops(tx, count)
            + programs::tx_queue_ops(count, tx[count].descriptors as usize, tx[count].ring_phys),
        programs::start_rx_ops(rx, pools, count + 1) == programs::start_rx_ops(rx, pools, count)
            + programs::stock_ops(
            rx[count],
            pools[rx[count].pool as int],
            rx[count].bufs,
            rx[count].num_descriptors,
        ) + programs::enable_rx_ops(count, rx[count].num_descriptors),
        programs::start_tx_ops(count + 1) == programs::start_tx_ops(count)
            + programs::enable_tx_ops(count),
{
    let stock = programs::stock_ops(
        rx[count],
        pools[rx[count].pool as int],
        rx[count].bufs,
        rx[count].num_descriptors,
    );
    let enable = programs::enable_rx_ops(count, rx[count].num_descriptors);
    let before = programs::start_rx_ops(rx, pools, count);
    assert(before + (stock + enable) =~= before + stock + enable);
}

/// Initializing resets the card, configures it, sets all queues up, starts them, and waits for the
/// link, in this order: receiving before sending.
pub proof fn law_init_order(rx: Seq<RxView>, tx: Seq<TxView>, pools: Seq<PoolView>)
    ensures
        programs::init_ops(rx, tx, pools) == programs::reset_ops() + programs::init_link_ops()
            + programs::reset_stats_ops() + programs::rx_before_ops() + programs::rx_queues_ops(
            rx,
            rx.len() as int,
        ) + programs::rx_after_ops(rx.len() as int) + programs::tx_before_ops()
            + programs::tx_queues_ops(tx, tx.len() as int) + seq![programs::tx_enable_op()]
            + programs::start_rx_ops(rx, pools, rx.len() as int) + programs::start_tx_ops(
            tx.len() as int,
        ) + seq![programs::promisc_op(true)] + programs::wait_for_link_ops(),
{
    let reset = programs::reset_ops() + programs::init_link_ops() + programs::reset_stats_ops();
    lemma_join(
        reset,
        programs::rx_before_ops(),
        programs::rx_queues_ops(rx, rx.len() as int),
        programs::rx_after_ops(rx.len() as int),
    );
    lemma_join(
        reset + programs::init_rx_ops(rx),
        programs::tx_before_ops(),
        programs::tx_queues_ops(tx, tx.len() as int),
        seq![programs::tx_enable_op()],
    );
}

proof fn lemma_join(a: Seq<IoOp>, b: Seq<IoOp>, c: Seq<IoOp>, d: Seq<IoOp>)
    ensures
        a + (b + c + d) == a + b + c + d,
{
    assert(a + (b + c + d) =~= a + b + c + d);
}

/// A queue that gets a ring has 512 descriptors there, starts at the first of them, and has no
/// buffer yet.
pub proof fn law_fresh_queues(ring: Dma, pool: usize)
    ensures
        ({
            let q = init::fresh_rx(ring, pool as int);
            &&& q.descriptors == ring.virt
            &&& q.ring_phys == ring.phys
            &&& q.num_descriptors == 512
            &&& q.pool == pool
            &&& q.bufs.len() == 0
            &&& q.rx_index == 0
        }),
        ({
            let q = init::fresh_tx(ring);
            &&& q.descriptors == ring.virt
            &&& q.ring_phys == ring.phys
            &&& q.num_descriptors == 512
            &&& q.pool is None
            &&& q.bufs.len() == 0
            &&& q.clean_index == 0
            &&& q.tx_index == 0
        }),
{
}

/// The stages of initializing follow each other: the receive queues are configured one by one, then
/// the transmit queues, then the receive queues are started one by one, then the transmit queues.
pub proof fn law_stage_order<H: IxgbeHal>(
    dev: DeviceView,
    pools: Seq<PoolView>,
    stage: Stage,
    step: InitStep,
)
    requires
        init::stepped::<H>(dev, pools, stage, step),
        0 <= dev.num_rx_queues <= 64,
        0 <= dev.num_tx_queues <= 64,
        step.result is Ok,
    ensures
        ({
            let next = step.result->Ok_0;
            let (rx, tx) = (dev.num_rx_queues, dev.num_tx_queues);
            match stage {
                Stage::Reset => next == Stage::RxBegin,
                Stage::RxBegin => next == if rx > 0 {
                    Stage::RxQueue { queue: 0 }
                } else {
                    Stage::RxEnd
                },
                Stage::RxQueue { queue } => next == (Stage::RxRing { queue }),
                Stage::RxRing { queue } => next is RxPool && next->RxPool_queue == queue,
                Stage::RxPool { queue, .. } => next == if queue + 1 < rx {
                    Stage::RxQueue { queue: (queue + 1) as u16 }
                } else {
                    Stage::RxEnd
                },
                Stage::RxEnd => next == Stage::TxBegin,
                Stage::TxBegin => next == if tx > 0 {
                    Stage::TxRing { queue: 0 }
                } else {
                    Stage::TxEnd
                },
                Stage::TxRing { queue } => next == if queue + 1 < tx {
                    Stage::TxRing { queue: (queue + 1) as u16 }
                } else {
                    Stage::TxEnd
                },
                Stage::TxEnd => next == if rx > 0 {
                    Stage::StartRx { queue: 0 }
                } else if tx > 0 {
                    Stage::StartTx { queue: 0 }
                } else {
                    Stage::Finish
                },
                Stage::StartRx { queue } => next == if queue + 1 < rx {
                    Stage::StartRx { queue: (queue + 1) as u16 }
                } else if tx > 0 {
                    Stage::StartTx { queue: 0 }
                } else {
                    Stage::Finish
                },
                Stage::StartTx { queue } => next == if queue + 1 < tx {
                    Stage::StartTx { queue: (queue + 1) as u16 }
                } else {
                    Stage::Finish
                },
                Stage::Finish => next == Stage::Done,
                Stage::Done => false,
            }
        }),
{
}

/// What each stage of initializing asks of the card.
pub proof fn law_stage_ops<H: IxgbeHal>(
    dev: DeviceView,
    pools: Seq<PoolView>,
    stage: Stage,
    step: InitStep,
)
    requires
        init::stepped::<H>(dev, pools, stage, step),
    ensures
        match stage {
            Stage::Reset => step.ops == programs::reset_ops() + programs::init_link_ops()
                + programs::reset_stats_ops(),
            Stage::RxBegin => step.ops == programs::rx_before_ops(),
            Stage::RxQueue { queue } => step.ops == programs::rx_type_ops(queue as int),
            Stage::RxRing { queue } => {
                let ring = step.result->Ok_0->RxPool_ring;
                step.ops == programs::rx_ring_ops(queue as int, ring.virt, ring.phys)
            },
            Stage::RxPool { .. } => step.ops.len() == 0,
            Stage::RxEnd => step.ops == programs::rx_after_ops(dev.num_rx_queues),
            Stage::TxBegin => step.ops == programs::tx_before_ops(),
            Stage::TxRing { queue } => {
                let q = step.dev.tx.last();
                step.ops == programs::tx_queue_ops(
                    queue as int,
                    q.descriptors as usize,
                    q.ring_phys,
                )
            },
            Stage::TxEnd => step.ops == seq![programs::tx_enable_op()],
            Stage::StartRx { queue } => step.ops == dev.start_rx(pools, queue).ops,
            Stage::StartTx { queue } => step.ops == if step.result is Ok {
                programs::enable_tx_ops(queue as int)
            } else {
                Seq::empty()
            },
            Stage::Finish => step.ops == seq![programs::promisc_op(true)]
                + programs::wait_for_link_ops(),
            Stage::Done => false,
        },
{
}

/// What each stage of initializing does to the device and the pools: a receive queue gets a ring of
/// 8192 bytes and a pool of 4096 buffers of 2048 bytes, all of them free; a transmit queue gets a
/// ring of 8192 bytes; and starting a receive queue stocks it. Nothing else changes.
pub proof fn law_stage_state<H: IxgbeHal>(
    dev: DeviceView,
    pools: Seq<PoolView>,
    stage: Stage,
    step: InitStep,
    k: int,
)
    requires
        init::stepped::<H>(dev, pools, stage, step),
        pools.len() <= usize::MAX,
    ensures
        match stage {
            Stage::RxRing { .. } => {
                let ring = step.result->Ok_0->RxPool_ring;
                &&& step.dev == dev
                &&& step.pools == pools
                &&& call_ensures(H::dma_alloc, (8192usize,), (ring.phys, ring.virt))
            },
            Stage::RxPool { ring, .. } => {
                let q = step.dev.rx[dev.rx.len() as int];
                let pool = step.pools[pools.len() as int];
                &&& step.dev == (DeviceView { rx: dev.rx.push(q), ..dev })
                &&& step.pools == pools.push(pool)
                &&& q == init::fresh_rx(ring, pools.len() as int)
                &&& pool.num_entries == 4096
                &&& pool.entry_size == 2048
                &&& pool.free.len() == 4096
                &&& 0 <= k < 4096 ==> pool.free[k] == k
                &&& memory::backed_by::<H>(pool)
            },
            Stage::TxRing { .. } => {
                let q = step.dev.tx[dev.tx.len() as int];
                &&& step.dev == (DeviceView { tx: dev.tx.push(q), ..dev })
                &&& step.pools == pools
                &&& q.num_descriptors == 512
                &&& q.clean_index == 0
                &&& q.tx_index == 0
                &&& q.pool is None
                &&& q.bufs.len() == 0
                &&& call_ensures(H::dma_alloc, (8192usize,), (q.ring_phys, q.descriptors as usize))
            },
            Stage::StartRx { queue } => {
                let start = dev.start_rx(pools, queue);
                &&& step.dev == start.dev
                &&& step.pools == start.pools
                &&& step.result is Ok <==> start.result is Ok
                &&& start.result matches Err(e) ==> step.result == Err::<Stage, IxgbeError>(e)
            },
            _ => step.dev == dev && step.pools == pools,
        },
{
    match stage {
        Stage::RxPool { ring, .. } => {
            assert(step.pools.last() == step.pools[pools.len() as int]);
        },
        Stage::TxRing { .. } => {
            assert(step.dev.tx.last() == step.dev.tx[dev.tx.len() as int]);
        },
        _ => {},
    }
}

/// Starting a transmit queue fails exactly if its size is no power of two.
pub proof fn law_start_tx_result<H: IxgbeHal>(
    dev: DeviceView,
    pools: Seq<PoolView>,
    queue: u16,
    step: InitStep,
)
    requires
        init::stepped::<H>(dev, pools, Stage::StartTx { queue }, step),
        0 < dev.tx[queue as int].num_descriptors <= usize::MAX,
    ensures
        ({
            let n = dev.tx[queue as int].num_descriptors as usize;
            &&& n & ((n - 1) as usize) == 0 ==> step.result is Ok
            &&& n & ((n - 1) as usize) != 0 ==> step.result == Err::<Stage, IxgbeError>(
                IxgbeError::QueueNotAligned,
            )
        }),
{
    ring::lemma_power_of_two_bits(dev.tx[queue as int].num_descriptors as usize);
}

// Carrying operations out

/// A read-modify-write sets the bits that are to be set, clears those that are to be cleared and
/// not to be set, and keeps all others.
pub proof fn law_modified(value: u32, clear: u32, set: u32)
    ensures
        io::modified(value, clear, set) & set == set,
        io::modified(value, clear, set) & (clear & !set) == 0,
        io::modified(value, clear, set) & !(clear | set) == value & !(clear | set),
{
    let after = io::modified(value, clear, set);
    assert(after & set == set && after & (clear & !set) == 0 && after & !(clear | set) == value & !(
    clear | set)) by (bit_vector)
        requires
            after == (value & !clear) | set,
    ;
}

/// The command that an operation begins with: the access that it is, or a look at the register or
/// the clock that it depends on. Operations that depend on nothing are complete with it.
pub proof fn law_first_command(seq: SequenceView)
    requires
        seq.wf(),
        seq.phase == Phase::Issue,
    ensures
        ({
            let (after, command) = seq.next(Event::Done);
            &&& after.ops == seq.ops
            &&& if seq.pos == seq.ops.len() {
                command == Command::Finished && after == seq
            } else {
                match seq.ops[seq.pos] {
                    IoOp::WriteReg { reg, value } => {
                        &&& command == Command::WriteReg { reg, value }
                        &&& after.pos == seq.pos + 1
                        &&& after.phase == Phase::Issue
                    },
                    IoOp::Sleep { millis } => {
                        &&& command == Command::Sleep { millis }
                        &&& after.pos == seq.pos + 1
                        &&& after.phase == Phase::Issue
                    },
                    IoOp::Fill { addr, len, byte } => {
                        &&& command == Command::Fill { addr, len, byte }
                        &&& after.pos == seq.pos + 1
                        &&& after.phase == Phase::Issue
                    },
                    IoOp::Store32 { addr, value } => {
                        &&& command == Command::Store32 { addr, value }
                        &&& after.pos == seq.pos + 1
                        &&& after.phase == Phase::Issue
                    },
                    IoOp::Store64 { addr, value } => {
                        &&& command == Command::Store64 { addr, value }
                        &&& after.pos == seq.pos + 1
                        &&& after.phase == Phase::Issue
                    },
                    IoOp::ReadReg { reg } => {
                        &&& command == Command::ReadReg { reg }
                        &&& after.pos == seq.pos
                        &&& after.phase == Phase::Value
                    },
                    IoOp::ModifyReg { reg, .. } => {
                        &&& command == Command::ReadReg { reg }
                        &&& after.pos == seq.pos
                        &&& after.phase == Phase::Value
                    },
                    IoOp::WaitClear { reg, .. } => {
                        &&& command == Command::ReadReg { reg }
                        &&& after.pos == seq.pos
                        &&& after.phase == Phase::Value
                    },
                    IoOp::WaitSet { reg, .. } => {
                        &&& command == Command::ReadReg { reg }
                        &&& after.pos == seq.pos
                        &&& after.phase == Phase::Value
                    },
                    IoOp::WaitLink => {
                        &&& command == Command::ReadClock
                        &&& after.pos == seq.pos
                        &&& after.phase == Phase::LinkStart
                    },
                }
            }
        }),
{
}

/// What follows a look at a register: a read-modify-write writes the value with the bits changed, a
/// read is complete, and a wait is complete exactly if all its bits are as wanted; if not, the
/// register is looked at again after 100 milliseconds. What follows a complete operation is the
/// first command of the next one.
pub proof fn law_after_value(seq: SequenceView, value: u32)
    requires
        seq.wf(),
        seq.phase == Phase::Value,
    ensures
        ({
            let (after, command) = seq.next(Event::Value { value });
            let next = SequenceView { ops: seq.ops, pos: seq.pos + 1, phase: Phase::Issue };
            let again = SequenceView { ops: seq.ops, pos: seq.pos, phase: Phase::Issue };
            match seq.ops[seq.pos] {
                IoOp::ModifyReg { reg, clear, set } => {
                    &&& after == next
                    &&& command == Command::WriteReg { reg, value: (value & !clear) | set }
                },
                IoOp::WaitClear { mask, .. } => if value & mask == 0 {
                    (after, command) == next.next(Event::Done)
                } else {
                    after == again && command == Command::Sleep { millis: 100 }
                },
                IoOp::WaitSet { mask, .. } => if value & mask == mask {
                    (after, command) == next.next(Event::Done)
                } else {
                    after == again && command == Command::Sleep { millis: 100 }
                },
                _ => (after, command) == next.next(Event::Done),
            }
        }),
{
}

/// Waiting for the link: the time is taken first, and register 0x42A4 is looked at. While the link
/// is down, the time is looked at, and the register again, for less than ten seconds. Once the link
/// is up, or the time is over, the next operation begins.
pub proof fn law_link_wait(seq: SequenceView, value: u32, secs: u64)
    requires
        seq.wf(),
        seq.phase is LinkStart || seq.phase is LinkValue || seq.phase is LinkClock,
    ensures
        ({
            let next = SequenceView { ops: seq.ops, pos: seq.pos + 1, phase: Phase::Issue };
            match seq.phase {
                Phase::LinkStart => seq.next(Event::Clock { secs }) == (
                    SequenceView { phase: Phase::LinkValue { since: secs }, ..seq },
                    Command::ReadReg { reg: 0x42A4 },
                ),
                Phase::LinkValue { since } => seq.next(Event::Value { value }) == (
                if links_up(value) {
                    next.next(Event::Done)
                } else {
                    (
                        SequenceView { phase: Phase::LinkClock { since }, ..seq },
                        Command::ReadClock,
                    )
                }),
                Phase::LinkClock { since } => seq.next(Event::Clock { secs }) == (
                if secs < since + 10 {
                    (
                        SequenceView { phase: Phase::LinkValue { since }, ..seq },
                        Command::ReadReg { reg: 0x42A4 },
                    )
                } else {
                    next.next(Event::Done)
                }),
                _ => true,
            }
        }),
{
    law_link_speed(value);
}

/// The link status shows a link that is up, with a speed.
pub open spec fn links_up(links: u32) -> bool {
    links / 0x4000_0000 % 2 == 1 && links / 0x1000_0000 % 4 != 0
}

/// A sequence waits for what its last command brings: nothing, the value of a register, or the
/// time, which does not run backwards.
pub proof fn law_expects(seq: SequenceView, value: u32, secs: u64)
    ensures
        seq.expects(Event::Done) <==> seq.phase == Phase::Issue,
        seq.expects(Event::Value { value }) <==> seq.phase == Phase::Value
            || seq.phase is LinkValue,
        seq.expects(Event::Clock { secs }) <==> seq.phase == Phase::LinkStart || (
        seq.phase matches Phase::LinkClock { since } && since <= secs),
{
}

} // verus!
