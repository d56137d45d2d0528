//! Setting a device up.

use crate::constants::{
    IXGBE_CTRL, IXGBE_CTRL_EXT, IXGBE_CTRL_EXT_NS_DIS, IXGBE_CTRL_RST_MASK, IXGBE_DCA_RXCTRL,
    IXGBE_DMATXCTL, IXGBE_DMATXCTL_TE, IXGBE_DTXMXSZRQ, IXGBE_EEC, IXGBE_EEC_ARD, IXGBE_FCTRL,
    IXGBE_FCTRL_BAM, IXGBE_HLREG0, IXGBE_HLREG0_RXCRCSTRP, IXGBE_HLREG0_TXCRCEN,
    IXGBE_HLREG0_TXPADEN, IXGBE_RAH, IXGBE_RAL, IXGBE_RDBAH, IXGBE_RDBAL, IXGBE_RDH, IXGBE_RDLEN,
    IXGBE_RDRXCTL, IXGBE_RDRXCTL_CRCSTRIP, IXGBE_RDRXCTL_DMAIDONE, IXGBE_RDT, IXGBE_RTTDCS,
    IXGBE_RTTDCS_ARBDIS, IXGBE_RXCTRL, IXGBE_RXCTRL_RXEN, IXGBE_RXDCTL, IXGBE_RXDCTL_ENABLE,
    IXGBE_RXPBSIZE, IXGBE_RXPBSIZE_128KB, IXGBE_SRRCTL, IXGBE_SRRCTL_DESCTYPE_ADV_ONEBUF,
    IXGBE_SRRCTL_DESCTYPE_MASK, IXGBE_SRRCTL_DROP_EN, IXGBE_TDBAH, IXGBE_TDBAL, IXGBE_TDH,
    IXGBE_TDLEN, IXGBE_TDT, IXGBE_TXDCTL, IXGBE_TXDCTL_ENABLE, IXGBE_TXPBSIZE,
    IXGBE_TXPBSIZE_40KB,
};
use crate::hal::IxgbeHal;
use crate::interrupts::Interrupts;
use crate::io::IoOp;
use crate::ixgbe::{DeviceView, IxgbeDevice, MAX_QUEUES, MIN_WINDOW};
use crate::memory;
use crate::memory::{Dma, MemPool, PhysAddr, PoolId, PoolView, VirtAddr};
use crate::nic::NicDevice;
use crate::programs;
use crate::ring;
use crate::ring::{IxgbeRxQueue, IxgbeTxQueue, RxView, TxView, DESCRIPTOR_SIZE};
use crate::{IxgbeError, IxgbeResult};
use core::marker::PhantomData;
use std::collections::VecDeque;
use vstd::prelude::*;

verus! {

/// The size of a packet buffer.
pub const PKT_BUF_ENTRY_SIZE: usize = 2048;

/// The least number of buffers of a pool.
pub const MIN_MEMPOOL_SIZE: usize = 4096;

/// What starting a queue comes to: success or the error, and the device, the pools and the
/// operations on the card that follow.
pub struct StartStep {
    pub result: IxgbeResult,
    pub dev: DeviceView,
    pub pools: Seq<PoolView>,
    pub ops: Seq<IoOp>,
}

/// The buffers that `count` allocations take from a stack of free ones, in order.
pub open spec fn taken(free: Seq<usize>, count: int) -> Seq<usize> {
    Seq::new(count as nat, |k: int| free[free.len() - 1 - k])
}

impl DeviceView {
    /// Starts a receive queue: each of its descriptors gets a buffer of its pool. The number of
    /// descriptors must be a power of two, and the pool must have enough free buffers.
    pub open spec fn start_rx(self, pools: Seq<PoolView>, queue_id: u16) -> StartStep {
        let i = queue_id as int;
        let q = self.rx[i];
        let n = q.num_descriptors;
        let pool = pools[q.pool as int];
        let enough = pool.free.len() >= n;
        let count = if enough {
            n
        } else {
            pool.free.len() as int
        };
        let ids = taken(pool.free, count);
        if !ring::is_power_of_two(n) {
            StartStep {
                result: Err(IxgbeError::QueueNotAligned),
                dev: self,
                pools,
                ops: Seq::empty(),
            }
        } else {
            StartStep {
                result: if enough {
                    Ok(())
                } else {
                    Err(IxgbeError::NoMemory)
                },
                dev: self.with_rx(i, RxView { bufs: q.bufs + ids, ..q }),
                pools: pools.update(
                    q.pool as int,
                    PoolView { free: pool.free.take(pool.free.len() - count), ..pool },
                ),
                ops: programs::stock_ops(q, pool, ids, count) + if enough {
                    programs::enable_rx_ops(i, n)
                } else {
                    Seq::empty()
                },
            }
        }
    }
}

impl<H: IxgbeHal> IxgbeDevice<H> {
    /// Sets the descriptors of an rx queue and enables the queue.
    ///
    /// Fails with [`IxgbeError::QueueNotAligned`] if the number of descriptors is not a power of
    /// two, and with [`IxgbeError::NoMemory`] if the pool has too few free buffers; those that it
    /// has are then with the queue.
    pub fn start_rx_queue(
        &mut self,
        pools: &mut Vec<MemPool>,
        queue_id: u16,
        ops: &mut Vec<IoOp>,
    ) -> (r: IxgbeResult)
        requires
            old(self)@.window_wf(),
            queue_id < old(self)@.rx.len() <= MAX_QUEUES,
            old(self)@.rx_startable(memory::pool_views(old(pools)@), queue_id),
        ensures
            ({
                let step = old(self)@.start_rx(memory::pool_views(old(pools)@), queue_id);
                &&& r == step.result
                &&& final(self)@ == step.dev
                &&& memory::pool_views(final(pools)@) == step.pools
                &&& final(ops)@ == old(ops)@ + step.ops
            }),
    {
        let ghost dev = self@;
        let ghost pv = memory::pool_views(pools@);
        let i: usize = queue_id as usize;
        let n: usize = self.rx_queues[i].num_descriptors;
        let p: PoolId = self.rx_queues[i].pool;
        let ghost q = dev.rx[i as int];
        let ghost pool = pv[p as int];
        let ghost m = pool.free.len();
        let ghost step = dev.start_rx(pv, queue_id);
        let ghost queues = self.rx_queues@;
        let ghost before = pools@;
        assert(q == self.rx_queues@[i as int]@);
        assert(pool == pools@[p as int]@);
        proof {
            ring::lemma_power_of_two_bits(n);
            assert(ops@ =~= ops@ + Seq::<IoOp>::empty());
            assert(q.bufs =~= q.bufs + taken(pool.free, 0));
            assert(pool.free =~= pool.free.take(m as int));
        }
        if n & (n - 1) != 0 {
            return Err(IxgbeError::QueueNotAligned);
        }
        let mut k: usize = 0;
        while k < n
            invariant
                dev == old(self)@,
                pv == memory::pool_views(old(pools)@),
                before == old(pools)@,
                queues == old(self).rx_queues@,
                step == dev.start_rx(pv, queue_id),
                ring::is_power_of_two(n as int),
                i == queue_id,
                i < dev.rx.len(),
                dev.rx.len() == queues.len(),
                q == dev.rx[i as int],
                q == queues[i as int]@,
                n == q.num_descriptors,
                p == q.pool,
                p < pv.len(),
                pv.len() == before.len(),
                pool == pv[p as int],
                pool.wf(),
                m == pool.free.len(),
                q.descriptors + n * DESCRIPTOR_SIZE <= usize::MAX,
                k <= n,
                k <= m,
                self.rx_queues@.len() == queues.len(),
                pools@.len() == before.len(),
                self@ == (DeviceView { rx: self@.rx, ..dev }),
                self.rx_queues@ == queues.update(i as int, self.rx_queues@[i as int]),
                self.rx_queues@[i as int]@ == (RxView {
                    bufs: q.bufs + taken(pool.free, k as int),
                    ..q
                }),
                pools@ == before.update(p as int, pools@[p as int]),
                pools@[p as int]@ == (PoolView { free: pool.free.take(m - k), ..pool }),
                ops@ == old(ops)@ + programs::stock_ops(
                    q,
                    pool,
                    taken(pool.free, k as int),
                    k as int,
                ),
            decreases n - k,
        {
            let ghost so_far = taken(pool.free, k as int);
            let ghost next = taken(pool.free, k + 1);
            match pools[p].alloc_buf() {
                Some(id) => {
                    proof {
                        assert(pool.free.take(m - k).last() == pool.free[m - 1 - k]);
                        assert(pool.free.take(m - k).drop_last() =~= pool.free.take(m - (k + 1)));
                        assert(so_far.push(id) =~= next);
                        assert(next.take(k as int) =~= so_far);
                        lemma_stock_prefix(q, pool, so_far, next, k as int);
                    }
                    let desc: usize = self.rx_queues[i].descriptors + k * DESCRIPTOR_SIZE;
                    ops.push(
                        IoOp::Store64 { addr: desc, value: pools[p].get_phys_addr(id) as u64 },
                    );
                    ops.push(IoOp::Store64 { addr: desc + 8, value: 0 });
                    // remember which descriptor entry belongs to which mempool entry
                    self.rx_queues[i].bufs_in_use.push(id);
                    k = k + 1;
                    proof {
                        assert(self.rx_queues@[i as int]@.bufs =~= q.bufs + next);
                        assert(ops@ =~= old(ops)@ + programs::stock_ops(q, pool, next, k as int));
                        assert(self.rx_queues@ =~= queues.update(
                            i as int,
                            self.rx_queues@[i as int],
                        ));
                        assert(pools@ =~= before.update(p as int, pools@[p as int]));
                    }
                },
                None => {
                    proof {
                        assert(k == m);
                        assert(pools@ =~= before.update(p as int, pools@[p as int]));
                        memory::lemma_pool_changed(before, p as int, pools@[p as int]);
                        assert(self@.rx =~= step.dev.rx);
                        assert(ops@ =~= old(ops)@ + step.ops);
                    }
                    return Err(IxgbeError::NoMemory);
                },
            }
        }
        let id: u32 = queue_id as u32;
        // enable queue and wait if necessary
        self.set_flags32(ops, IXGBE_RXDCTL(id), IXGBE_RXDCTL_ENABLE);
        self.wait_set_reg32(ops, IXGBE_RXDCTL(id), IXGBE_RXDCTL_ENABLE);
        // rx queue starts out full
        self.set_reg32(ops, IXGBE_RDH(id), 0);
        // was set to 0 before in the init function
        let tail: u32 = (n - 1) as u32;
        self.set_reg32(ops, IXGBE_RDT(id), tail);
        proof {
            memory::lemma_pool_changed(before, p as int, pools@[p as int]);
            assert(self@.rx =~= step.dev.rx);
            assert(ops@ =~= old(ops)@ + step.ops);
        }
        Ok(())
    }

    /// Enables a tx queue.
    ///
    /// Fails with [`IxgbeError::QueueNotAligned`] if the number of descriptors is not a power of
    /// two.
    pub fn start_tx_queue(&mut self, queue_id: u16, ops: &mut Vec<IoOp>) -> (r: IxgbeResult)
        requires
            old(self)@.window_wf(),
            queue_id < old(self)@.tx.len() <= MAX_QUEUES,
            0 < old(self)@.tx[queue_id as int].num_descriptors,
        ensures
            *final(self) == *old(self),
            if ring::is_power_of_two(old(self)@.tx[queue_id as int].num_descriptors) {
                &&& r == Ok::<(), IxgbeError>(())
                &&& final(ops)@ == old(ops)@ + programs::enable_tx_ops(queue_id as int)
            } else {
                &&& r == Err::<(), IxgbeError>(IxgbeError::QueueNotAligned)
                &&& final(ops)@ == old(ops)@
            },
    {
        let n: usize = self.tx_queues[queue_id as usize].num_descriptors;
        proof {
            assert(self@.tx[queue_id as int] == self.tx_queues@[queue_id as int]@);
            ring::lemma_power_of_two_bits(n);
        }
        if n & (n - 1) != 0 {
            return Err(IxgbeError::QueueNotAligned);
        }
        let id: u32 = queue_id as u32;
        // tx queue starts out empty
        self.set_reg32(ops, IXGBE_TDH(id), 0);
        self.set_reg32(ops, IXGBE_TDT(id), 0);
        // enable queue and wait if necessary
        self.set_flags32(ops, IXGBE_TXDCTL(id), IXGBE_TXDCTL_ENABLE);
        self.wait_set_reg32(ops, IXGBE_TXDCTL(id), IXGBE_TXDCTL_ENABLE);
        assert(ops@ =~= old(ops)@ + programs::enable_tx_ops(queue_id as int));
        Ok(())
    }
}

/// The first operations of stocking a queue do not depend on the buffers that come later.
proof fn lemma_stock_prefix(
    queue: RxView,
    pool: PoolView,
    ids: Seq<usize>,
    more: Seq<usize>,
    count: int,
)
    requires
        count <= ids.len() <= more.len(),
        ids == more.take(ids.len() as int),
    ensures
        programs::stock_ops(queue, pool, ids, count) == programs::stock_ops(
            queue,
            pool,
            more,
            count,
        ),
    decreases count,
{
    if count > 0 {
        assert(ids[count - 1] == more[count - 1]);
        lemma_stock_prefix(queue, pool, ids, more, count - 1);
    }
}

/// The ring of a queue: descriptors in memory that the hardware layer returned for their size.
///
/// This does not say that two rings are apart, or a ring and a pool: that one piece of memory is
/// not handed out twice is a duty of the implementer of the hardware layer.
pub open spec fn fresh_ring<H: IxgbeHal>(descriptors: int, phys: PhysAddr, num: int) -> bool {
    &&& ring::ring_wf(descriptors, num)
    &&& call_ensures(
        H::dma_alloc,
        ((num * DESCRIPTOR_SIZE) as usize,),
        (phys, descriptors as usize),
    )
}

/// A receive queue that has just been set up on a ring, without buffers.
pub open spec fn fresh_rx(ring: Dma, pool: int) -> RxView {
    RxView {
        descriptors: ring.virt as int,
        ring_phys: ring.phys,
        num_descriptors: programs::NUM_RX_QUEUE_ENTRIES as int,
        pool: pool as usize,
        bufs: Seq::empty(),
        rx_index: 0,
    }
}

/// A transmit queue that has just been set up on a ring, without buffers.
pub open spec fn fresh_tx(ring: Dma) -> TxView {
    TxView {
        descriptors: ring.virt as int,
        ring_phys: ring.phys,
        num_descriptors: programs::NUM_TX_QUEUE_ENTRIES as int,
        pool: None,
        bufs: Seq::empty(),
        clean_index: 0,
        tx_index: 0,
    }
}

/// The pool of a receive queue with its first `free` buffers free.
pub open spec fn queue_pool<H: IxgbeHal>(pool: PoolView, free: int) -> bool {
    &&& pool.wf()
    &&& pool.num_entries == MIN_MEMPOOL_SIZE
    &&& pool.entry_size == PKT_BUF_ENTRY_SIZE
    &&& pool.free == Seq::new(free as nat, |i: int| i as usize)
    &&& memory::backed_by::<H>(pool)
}

/// A receive queue whose ring is set up, with the given buffers.
pub open spec fn rx_set_up<H: IxgbeHal>(q: RxView, pool: int, bufs: Seq<usize>) -> bool {
    &&& fresh_ring::<H>(q.descriptors, q.ring_phys, q.num_descriptors)
    &&& q.num_descriptors == programs::NUM_RX_QUEUE_ENTRIES
    &&& q.pool == pool
    &&& q.bufs == bufs
    &&& q.rx_index == 0
}

/// A transmit queue whose ring is set up, and which is empty.
pub open spec fn tx_set_up<H: IxgbeHal>(q: TxView) -> bool {
    &&& fresh_ring::<H>(q.descriptors, q.ring_phys, q.num_descriptors)
    &&& q.num_descriptors == programs::NUM_TX_QUEUE_ENTRIES
    &&& q.pool is None
    &&& q.bufs == Seq::<usize>::empty()
    &&& q.clean_index == 0
    &&& q.tx_index == 0
}

/// The two halves of an address.
fn halves(addr: PhysAddr) -> (r: (u32, u32))
    ensures
        r.0 == programs::low_half(addr),
        r.1 == programs::high_half(addr),
{
    let wide: u64 = addr as u64;
    assert(wide & 0xffff_ffff == wide % 0x1_0000_0000) by (bit_vector);
    assert(wide >> 32 == wide / 0x1_0000_0000) by (bit_vector);
    ((wide & 0xffff_ffff) as u32, (wide >> 32) as u32)
}

proof fn lemma_512_is_power()
    ensures
        ring::is_power_of_two(512),
{
    vstd::arithmetic::power2::lemma2_to64();
    assert(512 == vstd::arithmetic::power2::pow2(9));
}

/// The buffers that a receive queue gets at first: the last ones of its pool, from the end on.
pub open spec fn first_bufs() -> Seq<usize> {
    Seq::new(
        programs::NUM_RX_QUEUE_ENTRIES as nat,
        |k: int| (MIN_MEMPOOL_SIZE - 1 - k) as usize,
    )
}

/// How many buffers of the pool of a receive queue are free at first.
pub const FIRST_FREE: usize = 3584;

/// The device is set up on memory of the hardware layer: each receive queue has a pool of its own,
/// numbered from `first_pool` on, and is full of buffers, and the transmit queues are empty.
///
/// This does not say that the memory of two rings or of two pools is apart: that is a duty of the
/// implementer of the hardware layer.
pub open spec fn set_up<H: IxgbeHal>(
    dev: DeviceView,
    pools: Seq<PoolView>,
    first_pool: int,
) -> bool {
    &&& dev.rx.len() == dev.num_rx_queues
    &&& dev.tx.len() == dev.num_tx_queues
    &&& pools.len() == first_pool + dev.num_rx_queues
    &&& forall|i: int|
        0 <= i < dev.rx.len() ==> rx_set_up::<H>(
            #[trigger] dev.rx[i],
            first_pool + i,
            first_bufs(),
        )
    &&& forall|i: int|
        first_pool <= i < pools.len() ==> queue_pool::<H>(
            #[trigger] pools[i],
            FIRST_FREE as int,
        )
    &&& forall|i: int| 0 <= i < dev.tx.len() ==> tx_set_up::<H>(#[trigger] dev.tx[i])
}

/// Where initializing a device has got to.
///
/// Initializing alternates between allocating memory and accessing the card. A stage allocates
/// first, if it allocates at all, and then says what has to be done to the card; that must be done
/// before the next stage.
#[derive(Clone, Copy, Debug, PartialEq, Eq, Structural)]
pub enum Stage {
    /// The card is to be reset.
    Reset,
    /// Receiving is to be configured.
    RxBegin,
    /// Receive queue `queue` is to be configured.
    RxQueue { queue: u16 },
    /// Receive queue `queue` is to get a ring.
    RxRing { queue: u16 },
    /// Receive queue `queue`, which has got a ring, is to get a pool.
    RxPool { queue: u16, ring: Dma },
    /// Receiving is to be enabled.
    RxEnd,
    /// Sending is to be configured.
    TxBegin,
    /// Transmit queue `queue` is to get a ring.
    TxRing { queue: u16 },
    /// Sending is to be enabled.
    TxEnd,
    /// Receive queue `queue` is to be started.
    StartRx { queue: u16 },
    /// Transmit queue `queue` is to be started.
    StartTx { queue: u16 },
    /// The filters are to be set, and the link is to be waited for.
    Finish,
    /// The device is initialized.
    Done,
}

impl DeviceView {
    /// The stage at which receive queue `queue` is configured, or what follows if there is none.
    pub open spec fn rx_from(self, queue: int) -> Stage {
        if queue < self.num_rx_queues {
            Stage::RxQueue { queue: queue as u16 }
        } else {
            Stage::RxEnd
        }
    }

    /// The stage at which transmit queue `queue` is configured, or what follows if there is none.
    pub open spec fn tx_from(self, queue: int) -> Stage {
        if queue < self.num_tx_queues {
            Stage::TxRing { queue: queue as u16 }
        } else {
            Stage::TxEnd
        }
    }

    /// The stage at which receive queue `queue` is started, or what follows if there is none.
    pub open spec fn start_rx_from(self, queue: int) -> Stage {
        if queue < self.num_rx_queues {
            Stage::StartRx { queue: queue as u16 }
        } else {
            self.start_tx_from(0)
        }
    }

    /// The stage at which transmit queue `queue` is started, or what follows if there is none.
    pub open spec fn start_tx_from(self, queue: int) -> Stage {
        if queue < self.num_tx_queues {
            Stage::StartTx { queue: queue as u16 }
        } else {
            Stage::Finish
        }
    }

    /// The queue that a stage is about exists, and the queues before it have been configured.
    pub open spec fn ready_for(self, pools: Seq<PoolView>, stage: Stage) -> bool {
        &&& self.window_wf()
        &&& self.num_rx_queues <= MAX_QUEUES
        &&& self.num_tx_queues <= MAX_QUEUES
        &&& match stage {
            Stage::Reset => self.rx.len() == 0 && self.tx.len() == 0,
            Stage::RxQueue { queue } => queue < self.num_rx_queues,
            Stage::RxRing { queue } => queue < self.num_rx_queues,
            Stage::RxPool { queue, .. } => queue < self.num_rx_queues && self.rx.len() == queue,
            Stage::TxRing { queue } => queue < self.num_tx_queues && self.tx.len() == queue,
            Stage::StartRx { queue } => {
                &&& queue < self.rx.len() == self.num_rx_queues
                &&& self.rx_startable(pools, queue)
            },
            Stage::StartTx { queue } => {
                &&& queue < self.tx.len() == self.num_tx_queues
                &&& 0 < self.tx[queue as int].num_descriptors
            },
            Stage::Done => false,
            _ => true,
        }
    }

    /// The ring of a receive queue lies in memory, and its pool exists and is well formed.
    pub open spec fn rx_startable(self, pools: Seq<PoolView>, queue_id: u16) -> bool {
        let q = self.rx[queue_id as int];
        &&& 0 < q.num_descriptors
        &&& q.descriptors + q.num_descriptors * DESCRIPTOR_SIZE <= usize::MAX
        &&& q.pool < pools.len()
        &&& pools[q.pool as int].wf()
    }
}

/// What a stage of initializing comes to: the next stage or the error, and the device, the pools
/// and the operations on the card that follow.
pub struct InitStep {
    pub result: IxgbeResult<Stage>,
    pub dev: DeviceView,
    pub pools: Seq<PoolView>,
    pub ops: Seq<IoOp>,
}

/// The stage comes to `step`, for some memory that the hardware layer returned, if the stage asks
/// for any.
pub open spec fn stepped<H: IxgbeHal>(
    dev: DeviceView,
    pools: Seq<PoolView>,
    stage: Stage,
    step: InitStep,
) -> bool {
    match stage {
        Stage::Reset => step == (InitStep {
            result: Ok(Stage::RxBegin),
            dev,
            pools,
            ops: programs::reset_ops() + programs::init_link_ops() + programs::reset_stats_ops(),
        }),
        Stage::RxBegin => step == (InitStep {
            result: Ok(dev.rx_from(0)),
            dev,
            pools,
            ops: programs::rx_before_ops(),
        }),
        Stage::RxQueue { queue } => step == (InitStep {
            result: Ok(Stage::RxRing { queue }),
            dev,
            pools,
            ops: programs::rx_type_ops(queue as int),
        }),
        Stage::RxRing { queue } => step.result matches Ok(Stage::RxPool { queue: same, ring }) && {
            &&& same == queue
            &&& fresh_ring::<H>(
                ring.virt as int,
                ring.phys,
                programs::NUM_RX_QUEUE_ENTRIES as int,
            )
            &&& step == (InitStep {
                result: step.result,
                dev,
                pools,
                ops: programs::rx_ring_ops(queue as int, ring.virt, ring.phys),
            })
        },
        Stage::RxPool { queue, ring } => {
            let pool = step.pools.last();
            &&& queue_pool::<H>(pool, MIN_MEMPOOL_SIZE as int)
            &&& step == (InitStep {
                result: Ok(dev.rx_from(queue + 1)),
                dev: DeviceView { rx: dev.rx.push(fresh_rx(ring, pools.len() as int)), ..dev },
                pools: pools.push(pool),
                ops: Seq::empty(),
            })
        },
        Stage::RxEnd => step == (InitStep {
            result: Ok(Stage::TxBegin),
            dev,
            pools,
            ops: programs::rx_after_ops(dev.num_rx_queues),
        }),
        Stage::TxBegin => step == (InitStep {
            result: Ok(dev.tx_from(0)),
            dev,
            pools,
            ops: programs::tx_before_ops(),
        }),
        Stage::TxRing { queue } => {
            let q = step.dev.tx.last();
            &&& tx_set_up::<H>(q)
            &&& step == (InitStep {
                result: Ok(dev.tx_from(queue + 1)),
                dev: DeviceView { tx: dev.tx.push(q), ..dev },
                pools,
                ops: programs::tx_queue_ops(queue as int, q.descriptors as usize, q.ring_phys),
            })
        },
        Stage::TxEnd => step == (InitStep {
            result: Ok(dev.start_rx_from(0)),
            dev,
            pools,
            ops: seq![programs::tx_enable_op()],
        }),
        Stage::StartRx { queue } => {
            let start = dev.start_rx(pools, queue);
            step == (InitStep {
                result: match start.result {
                    Ok(()) => Ok(dev.start_rx_from(queue + 1)),
                    Err(e) => Err(e),
                },
                dev: start.dev,
                pools: start.pools,
                ops: start.ops,
            })
        },
        Stage::StartTx { queue } => step == (InitStep {
            result: if ring::is_power_of_two(dev.tx[queue as int].num_descriptors) {
                Ok(dev.start_tx_from(queue + 1))
            } else {
                Err(IxgbeError::QueueNotAligned)
            },
            dev,
            pools,
            ops: if ring::is_power_of_two(dev.tx[queue as int].num_descriptors) {
                programs::enable_tx_ops(queue as int)
            } else {
                Seq::empty()
            },
        }),
        Stage::Finish => step == (InitStep {
            result: Ok(Stage::Done),
            dev,
            pools,
            ops: seq![programs::promisc_op(true)] + programs::wait_for_link_ops(),
        }),
        Stage::Done => false,
    }
}

impl<H: IxgbeHal> IxgbeDevice<H> {
    /// Starts initializing a device whose registers are the `len` bytes from address `base` on:
    /// returns the device and the next stage, and adds the operations that reset the card to `ops`.
    ///
    /// The device is initialized when [`IxgbeDevice::reset_and_init`] has brought it to
    /// [`Stage::Done`]. Neither `num_rx_queues` nor `num_tx_queues` may exceed `MAX_QUEUES`.
    pub fn init(
        base: VirtAddr,
        len: usize,
        num_rx_queues: u16,
        num_tx_queues: u16,
        pools: &mut Vec<MemPool>,
        ops: &mut Vec<IoOp>,
    ) -> (r: IxgbeResult<(Self, Stage)>)
        requires
            MIN_WINDOW <= len,
            base + len <= usize::MAX,
            num_rx_queues <= MAX_QUEUES,
            num_tx_queues <= MAX_QUEUES,
        ensures
            r is Ok,
            ({
                let dev = r->Ok_0.0@;
                &&& dev.addr == base
                &&& dev.len == len
                &&& dev.num_rx_queues == num_rx_queues
                &&& dev.num_tx_queues == num_tx_queues
                &&& dev.rx.len() == 0
                &&& dev.tx.len() == 0
                &&& dev.interrupts.off()
                &&& dev.ready_for(memory::pool_views(final(pools)@), r->Ok_0.1)
            }),
            r->Ok_0.1 == Stage::RxBegin,
            memory::pool_views(final(pools)@) == memory::pool_views(old(pools)@),
            final(ops)@ == old(ops)@ + (programs::reset_ops() + programs::init_link_ops()
                + programs::reset_stats_ops()),
    {
        let mut dev = IxgbeDevice {
            addr: base,
            len,
            num_rx_queues,
            num_tx_queues,
            rx_queues: Vec::with_capacity(num_rx_queues as usize),
            tx_queues: Vec::with_capacity(num_tx_queues as usize),
            interrupts: Interrupts::default(),
            marker: PhantomData,
        };
        let ghost count = ops@.len() as int;
        match dev.reset_and_init(Stage::Reset, pools, ops) {
            Ok(stage) => {
                assert(ops@ =~= old(ops)@ + ops@.skip(count));
                Ok((dev, stage))
            },
            Err(e) => Err(e),
        }
    }

    /// Resets and initializes the device, one stage at a time: allocates the memory that the stage
    /// asks for, adds what has to be done to the card to `ops`, and returns the next stage.
    pub fn reset_and_init(
        &mut self,
        stage: Stage,
        pools: &mut Vec<MemPool>,
        ops: &mut Vec<IoOp>,
    ) -> (r: IxgbeResult<Stage>)
        requires
            old(self)@.ready_for(memory::pool_views(old(pools)@), stage),
        ensures
            old(ops)@.is_prefix_of(final(ops)@),
            stepped::<H>(
                old(self)@,
                memory::pool_views(old(pools)@),
                stage,
                InitStep {
                    result: r,
                    dev: final(self)@,
                    pools: memory::pool_views(final(pools)@),
                    ops: final(ops)@.skip(old(ops)@.len() as int),
                },
            ),
    {
        let ghost before = ops@;
        let ghost dev = self@;
        let ghost pv = memory::pool_views(pools@);
        match stage {
            Stage::Reset => {
                self.reset(ops);
                // initialize link (auto negotiation)
                self.init_link(ops);
                // statistical counters, reset-on-read registers, just read them once
                self.reset_stats(ops);
                proof {
                    let new = programs::reset_ops() + programs::init_link_ops()
                        + programs::reset_stats_ops();
                    assert(ops@ =~= before + new);
                    lemma_split(ops@, before, new);
                }
                Ok(Stage::RxBegin)
            },
            Stage::StartRx { queue } => {
                let started = self.start_rx_queue(pools, queue, ops);
                proof {
                    lemma_split(ops@, before, dev.start_rx(pv, queue).ops);
                }
                match started {
                    Ok(()) => Ok(self.start_rx_after(queue)),
                    Err(e) => Err(e),
                }
            },
            Stage::StartTx { queue } => {
                let started = self.start_tx_queue(queue, ops);
                proof {
                    if ring::is_power_of_two(dev.tx[queue as int].num_descriptors) {
                        lemma_split(ops@, before, programs::enable_tx_ops(queue as int));
                    } else {
                        assert(ops@ =~= before + Seq::<IoOp>::empty());
                        lemma_split(ops@, before, Seq::<IoOp>::empty());
                    }
                }
                match started {
                    Ok(()) => Ok(self.start_tx_stage(queue + 1)),
                    Err(e) => Err(e),
                }
            },
            Stage::Finish => {
                // enable promisc mode by default to make testing easier
                self.set_promisc(ops, true);
                // wait some time for the link to come up
                self.wait_for_link(ops);
                proof {
                    let new = seq![programs::promisc_op(true)] + programs::wait_for_link_ops();
                    assert(ops@ =~= before + new);
                    lemma_split(ops@, before, new);
                }
                Ok(Stage::Done)
            },
            Stage::TxBegin | Stage::TxRing { .. } | Stage::TxEnd => self.init_tx(stage, ops),
            _ => self.init_rx(stage, pools, ops),
        }
    }

    /// The stage at which the receive queue after `queue` is started, or what follows.
    fn start_rx_after(&self, queue: u16) -> (r: Stage)
        requires
            queue < self@.num_rx_queues,
        ensures
            r == self@.start_rx_from(queue + 1),
    {
        if queue + 1 < self.num_rx_queues {
            Stage::StartRx { queue: queue + 1 }
        } else {
            self.start_tx_stage(0)
        }
    }

    /// The stage at which transmit queue `queue` is started, or what follows.
    fn start_tx_stage(&self, queue: u16) -> (r: Stage)
        ensures
            r == self@.start_tx_from(queue as int),
    {
        if queue < self.num_tx_queues {
            Stage::StartTx { queue }
        } else {
            Stage::Finish
        }
    }

    /// Initializes the rx queues of this device, one stage at a time.
    pub fn init_rx(
        &mut self,
        stage: Stage,
        pools: &mut Vec<MemPool>,
        ops: &mut Vec<IoOp>,
    ) -> (r: IxgbeResult<Stage>)
        requires
            stage is RxBegin || stage is RxQueue || stage is RxRing || stage is RxPool
                || stage is RxEnd,
            old(self)@.ready_for(memory::pool_views(old(pools)@), stage),
        ensures
            r is Ok,
            old(ops)@.is_prefix_of(final(ops)@),
            stepped::<H>(
                old(self)@,
                memory::pool_views(old(pools)@),
                stage,
                InitStep {
                    result: r,
                    dev: final(self)@,
                    pools: memory::pool_views(final(pools)@),
                    ops: final(ops)@.skip(old(ops)@.len() as int),
                },
            ),
    {
        let ghost before = ops@;
        let ghost all = pools@;
        let ghost dev = self@;
        match stage {
            Stage::RxBegin => {
                self.begin_rx(ops);
                proof {
                    lemma_split(ops@, before, programs::rx_before_ops());
                }
                Ok(self.rx_stage(0))
            },
            Stage::RxQueue { queue } => {
                let id: u32 = queue as u32;
                // enable advanced rx descriptors
                self.modify_reg32(
                    ops,
                    IXGBE_SRRCTL(id),
                    IXGBE_SRRCTL_DESCTYPE_MASK,
                    IXGBE_SRRCTL_DESCTYPE_ADV_ONEBUF,
                );
                // let nic drop packets if no rx descriptor is available instead of buffering them
                self.set_flags32(ops, IXGBE_SRRCTL(id), IXGBE_SRRCTL_DROP_EN);
                proof {
                    assert(ops@ =~= before + programs::rx_type_ops(queue as int));
                    lemma_split(ops@, before, programs::rx_type_ops(queue as int));
                }
                Ok(Stage::RxRing { queue })
            },
            Stage::RxRing { queue } => {
                let ring_size_bytes: usize = programs::NUM_RX_QUEUE_ENTRIES * DESCRIPTOR_SIZE;
                let ring = match Dma::allocate::<H>(ring_size_bytes, true) {
                    Ok(dma) => dma,
                    Err(e) => return Err(e),
                };
                self.init_rx_ring(queue, ring, ops);
                proof {
                    lemma_512_is_power();
                    lemma_split(
                        ops@,
                        before,
                        programs::rx_ring_ops(queue as int, ring.virt, ring.phys),
                    );
                }
                Ok(Stage::RxPool { queue, ring })
            },
            Stage::RxPool { queue, ring } => {
                let wanted: usize = programs::NUM_RX_QUEUE_ENTRIES + programs::NUM_TX_QUEUE_ENTRIES;
                let mempool_size: usize = if wanted < MIN_MEMPOOL_SIZE {
                    MIN_MEMPOOL_SIZE
                } else {
                    wanted
                };
                assert(0x20_0000int % 2048 == 0);
                let mempool = MemPool::allocate::<H>(mempool_size, PKT_BUF_ENTRY_SIZE).unwrap();
                self.init_rx_pool(ring, mempool, pools);
                proof {
                    assert(memory::pool_views(pools@).last() == mempool@);
                    assert(ops@ =~= before + Seq::<IoOp>::empty());
                    lemma_split(ops@, before, Seq::<IoOp>::empty());
                }
                Ok(self.rx_stage(queue + 1))
            },
            _ => {
                self.end_rx(ops);
                proof {
                    lemma_split(ops@, before, programs::rx_after_ops(dev.num_rx_queues));
                }
                Ok(Stage::TxBegin)
            },
        }
    }

    /// The stage at which receive queue `queue` is configured, or what follows.
    fn rx_stage(&self, queue: u16) -> (r: Stage)
        ensures
            r == self@.rx_from(queue as int),
    {
        if queue < self.num_rx_queues {
            Stage::RxQueue { queue }
        } else {
            Stage::RxEnd
        }
    }

    /// Configures receiving, before there are queues.
    fn begin_rx(&self, ops: &mut Vec<IoOp>)
        requires
            self@.window_wf(),
        ensures
            final(ops)@ == old(ops)@ + programs::rx_before_ops(),
    {
        // disable rx while re-configuring it
        self.clear_flags32(ops, IXGBE_RXCTRL, IXGBE_RXCTRL_RXEN);
        // allocate all queues and traffic to PB0
        self.set_reg32(ops, IXGBE_RXPBSIZE(0), IXGBE_RXPBSIZE_128KB);
        let ghost first = ops@;
        let mut i: u32 = 1;
        while i < 8
            invariant
                1 <= i <= 8,
                self@.window_wf(),
                ops@ == first + Seq::new(
                    (i - 1) as nat,
                    |k: int| IoOp::WriteReg { reg: IXGBE_RXPBSIZE((k + 1) as u32), value: 0 },
                ),
            decreases 8 - i,
        {
            self.set_reg32(ops, IXGBE_RXPBSIZE(i), 0);
            i = i + 1;
            assert(ops@ =~= first + Seq::new(
                (i - 1) as nat,
                |k: int| IoOp::WriteReg { reg: IXGBE_RXPBSIZE((k + 1) as u32), value: 0 },
            ));
        }
        // enable CRC offloading
        self.set_flags32(ops, IXGBE_HLREG0, IXGBE_HLREG0_RXCRCSTRP);
        self.set_flags32(ops, IXGBE_RDRXCTL, IXGBE_RDRXCTL_CRCSTRIP);
        // accept broadcast packets
        self.set_flags32(ops, IXGBE_FCTRL, IXGBE_FCTRL_BAM);
        assert(ops@ =~= old(ops)@ + programs::rx_before_ops());
    }

    /// Tells the card that the ring of receive queue `queue` is `ring`, which is empty.
    pub fn init_rx_ring(&self, queue: u16, ring: Dma, ops: &mut Vec<IoOp>)
        requires
            self@.window_wf(),
            queue < MAX_QUEUES,
        ensures
            final(ops)@ == old(ops)@ + programs::rx_ring_ops(queue as int, ring.virt, ring.phys),
    {
        let id: u32 = queue as u32;
        let ring_size_bytes: usize = programs::NUM_RX_QUEUE_ENTRIES * DESCRIPTOR_SIZE;
        // initialize to 0xff to prevent rogue memory accesses on premature dma activation
        ops.push(IoOp::Fill { addr: ring.virt, len: ring_size_bytes, byte: programs::RING_FILL });
        let (low, high) = halves(ring.phys);
        self.set_reg32(ops, IXGBE_RDBAL(id), low);
        self.set_reg32(ops, IXGBE_RDBAH(id), high);
        self.set_reg32(ops, IXGBE_RDLEN(id), ring_size_bytes as u32);
        // set ring to empty at start
        self.set_reg32(ops, IXGBE_RDH(id), 0);
        self.set_reg32(ops, IXGBE_RDT(id), 0);
        assert(ops@ =~= old(ops)@ + programs::rx_ring_ops(queue as int, ring.virt, ring.phys));
    }

    /// Adds a receive queue with the given ring, and its pool.
    pub fn init_rx_pool(&mut self, ring: Dma, mempool: MemPool, pools: &mut Vec<MemPool>)
        ensures
            final(self)@ == (DeviceView {
                rx: old(self)@.rx.push(fresh_rx(ring, old(pools)@.len() as int)),
                ..old(self)@
            }),
            memory::pool_views(final(pools)@) == memory::pool_views(old(pools)@).push(mempool@),
    {
        let ghost rx = self@.rx;
        let ghost list = pools@;
        let pool: PoolId = pools.len();
        pools.push(mempool);
        self.rx_queues.push(
            IxgbeRxQueue {
                descriptors: ring.virt,
                ring_phys: ring.phys,
                num_descriptors: programs::NUM_RX_QUEUE_ENTRIES,
                pool,
                bufs_in_use: Vec::with_capacity(programs::NUM_RX_QUEUE_ENTRIES),
                rx_index: 0,
            },
        );
        proof {
            let q = self.rx_queues@.last()@;
            assert(q.bufs =~= Seq::empty());
            assert(self@.rx =~= rx.push(q));
            assert(memory::pool_views(pools@) =~= memory::pool_views(list).push(mempool@));
        }
    }

    /// Enables receiving.
    fn end_rx(&self, ops: &mut Vec<IoOp>)
        requires
            self@.window_wf(),
            self@.num_rx_queues <= MAX_QUEUES,
        ensures
            final(ops)@ == old(ops)@ + programs::rx_after_ops(self@.num_rx_queues),
    {
        // set some magic bits
        self.set_flags32(ops, IXGBE_CTRL_EXT, IXGBE_CTRL_EXT_NS_DIS);
        let ghost fourth = ops@;
        // probably a broken feature, this flag is initialized with 1 but has to be set to 0
        let mut i: u16 = 0;
        assert(fourth =~= fourth + Seq::<IoOp>::empty());
        while i < self.num_rx_queues
            invariant
                self@.window_wf(),
                i <= self.num_rx_queues <= MAX_QUEUES,
                ops@ == fourth + Seq::new(
                    i as nat,
                    |k: int|
                        programs::clear_flags(
                            IXGBE_DCA_RXCTRL(k as u32),
                            programs::DCA_RXCTRL_CLEAR,
                        ),
                ),
            decreases self.num_rx_queues - i,
        {
            self.clear_flags32(ops, IXGBE_DCA_RXCTRL(i as u32), programs::DCA_RXCTRL_CLEAR);
            i = i + 1;
            assert(ops@ =~= fourth + Seq::new(
                i as nat,
                |k: int|
                    programs::clear_flags(IXGBE_DCA_RXCTRL(k as u32), programs::DCA_RXCTRL_CLEAR),
            ));
        }
        // start rx
        self.set_flags32(ops, IXGBE_RXCTRL, IXGBE_RXCTRL_RXEN);
        assert(ops@ =~= old(ops)@ + programs::rx_after_ops(i as int));
    }

    /// Initializes the tx queues of this device, one stage at a time.
    pub fn init_tx(&mut self, stage: Stage, ops: &mut Vec<IoOp>) -> (r: IxgbeResult<Stage>)
        requires
            stage is TxBegin || stage is TxRing || stage is TxEnd,
            old(self)@.ready_for(Seq::empty(), stage),
        ensures
            r is Ok,
            old(ops)@.is_prefix_of(final(ops)@),
            forall|pools: Seq<PoolView>| #[trigger]
                stepped::<H>(
                    old(self)@,
                    pools,
                    stage,
                    InitStep {
                        result: r,
                        dev: final(self)@,
                        pools,
                        ops: final(ops)@.skip(old(ops)@.len() as int),
                    },
                ),
    {
        let ghost before = ops@;
        match stage {
            Stage::TxBegin => {
                self.begin_tx(ops);
                proof {
                    lemma_split(ops@, before, programs::tx_before_ops());
                }
                Ok(self.tx_stage(0))
            },
            Stage::TxRing { queue } => {
                let ring_size_bytes: usize = programs::NUM_TX_QUEUE_ENTRIES * DESCRIPTOR_SIZE;
                let ring = match Dma::allocate::<H>(ring_size_bytes, true) {
                    Ok(dma) => dma,
                    Err(e) => return Err(e),
                };
                self.init_tx_ring(queue, ring, ops);
                proof {
                    lemma_512_is_power();
                    assert(self@.tx.last() == fresh_tx(ring));
                    assert(tx_set_up::<H>(fresh_tx(ring)));
                    lemma_split(
                        ops@,
                        before,
                        programs::tx_queue_ops(queue as int, ring.virt, ring.phys),
                    );
                }
                Ok(self.tx_stage(queue + 1))
            },
            _ => {
                // final step: enable DMA
                self.set_reg32(ops, IXGBE_DMATXCTL, IXGBE_DMATXCTL_TE);
                proof {
                    assert(ops@ =~= before + seq![programs::tx_enable_op()]);
                    lemma_split(ops@, before, seq![programs::tx_enable_op()]);
                }
                if self.num_rx_queues > 0 {
                    Ok(Stage::StartRx { queue: 0 })
                } else {
                    Ok(self.start_tx_stage(0))
                }
            },
        }
    }

    /// The stage at which transmit queue `queue` is configured, or what follows.
    fn tx_stage(&self, queue: u16) -> (r: Stage)
        ensures
            r == self@.tx_from(queue as int),
    {
        if queue < self.num_tx_queues {
            Stage::TxRing { queue }
        } else {
            Stage::TxEnd
        }
    }

    /// Configures sending, before there are queues.
    fn begin_tx(&self, ops: &mut Vec<IoOp>)
        requires
            self@.window_wf(),
        ensures
            final(ops)@ == old(ops)@ + programs::tx_before_ops(),
    {
        // crc offload and small packet padding
        self.set_flags32(ops, IXGBE_HLREG0, IXGBE_HLREG0_TXCRCEN | IXGBE_HLREG0_TXPADEN);
        // set default buffer size allocations
        self.set_reg32(ops, IXGBE_TXPBSIZE(0), IXGBE_TXPBSIZE_40KB);
        let ghost first = ops@;
        let mut i: u32 = 1;
        while i < 8
            invariant
                1 <= i <= 8,
                self@.window_wf(),
                ops@ == first + Seq::new(
                    (i - 1) as nat,
                    |k: int| IoOp::WriteReg { reg: IXGBE_TXPBSIZE((k + 1) as u32), value: 0 },
                ),
            decreases 8 - i,
        {
            self.set_reg32(ops, IXGBE_TXPBSIZE(i), 0);
            i = i + 1;
            assert(ops@ =~= first + Seq::new(
                (i - 1) as nat,
                |k: int| IoOp::WriteReg { reg: IXGBE_TXPBSIZE((k + 1) as u32), value: 0 },
            ));
        }
        // required when not using DCB/VTd
        self.set_reg32(ops, IXGBE_DTXMXSZRQ, 0xffff);
        self.clear_flags32(ops, IXGBE_RTTDCS, IXGBE_RTTDCS_ARBDIS);
        assert(ops@ =~= old(ops)@ + programs::tx_before_ops());
    }

    /// Adds transmit queue `queue` with the given ring, and tells the card.
    pub fn init_tx_ring(&mut self, queue: u16, ring: Dma, ops: &mut Vec<IoOp>)
        requires
            old(self)@.window_wf(),
            queue < MAX_QUEUES,
        ensures
            final(self)@ == (DeviceView { tx: old(self)@.tx.push(fresh_tx(ring)), ..old(self)@ }),
            final(ops)@ == old(ops)@ + programs::tx_queue_ops(queue as int, ring.virt, ring.phys),
    {
        let ghost tx = self@.tx;
        let id: u32 = queue as u32;
        let ring_size_bytes: usize = programs::NUM_TX_QUEUE_ENTRIES * DESCRIPTOR_SIZE;
        ops.push(IoOp::Fill { addr: ring.virt, len: ring_size_bytes, byte: programs::RING_FILL });
        let (low, high) = halves(ring.phys);
        self.set_reg32(ops, IXGBE_TDBAL(id), low);
        self.set_reg32(ops, IXGBE_TDBAH(id), high);
        self.set_reg32(ops, IXGBE_TDLEN(id), ring_size_bytes as u32);
        // descriptor writeback magic values, important to get good performance and low PCIe
        // overhead
        self.modify_reg32(
            ops,
            IXGBE_TXDCTL(id),
            programs::TXDCTL_THRESHOLDS,
            programs::TXDCTL_THRESHOLD_VALUES,
        );
        self.tx_queues.push(
            IxgbeTxQueue {
                descriptors: ring.virt,
                ring_phys: ring.phys,
                num_descriptors: programs::NUM_TX_QUEUE_ENTRIES,
                pool: None,
                bufs_in_use: VecDeque::with_capacity(programs::NUM_TX_QUEUE_ENTRIES),
                clean_index: 0,
                tx_index: 0,
            },
        );
        proof {
            let q = self.tx_queues@.last()@;
            assert(q.bufs =~= Seq::empty());
            assert(self@.tx =~= tx.push(q));
            assert(ops@ =~= old(ops)@ + programs::tx_queue_ops(
                queue as int,
                ring.virt,
                ring.phys,
            ));
        }
    }

    /// Resets the card and waits until it is ready to be set up.
    fn reset(&self, ops: &mut Vec<IoOp>)
        requires
            self@.window_wf(),
        ensures
            final(ops)@ == old(ops)@ + programs::reset_ops(),
    {
        // disable all interrupts
        self.disable_interrupts(ops);
        self.set_reg32(ops, IXGBE_CTRL, IXGBE_CTRL_RST_MASK);
        self.wait_clear_reg32(ops, IXGBE_CTRL, IXGBE_CTRL_RST_MASK);
        ops.push(IoOp::Sleep { millis: programs::RESET_MILLIS });
        // disable interrupts again after reset
        self.disable_interrupts(ops);
        self.get_reg32(ops, IXGBE_RAL(0));
        self.get_reg32(ops, IXGBE_RAH(0));
        // wait for EEPROM auto read completion
        self.wait_set_reg32(ops, IXGBE_EEC, IXGBE_EEC_ARD);
        // wait for dma initialization done
        self.wait_set_reg32(ops, IXGBE_RDRXCTL, IXGBE_RDRXCTL_DMAIDONE);
        assert(ops@ =~= old(ops)@ + programs::reset_ops());
    }
}

/// A list to which another was added has the two as its parts.
proof fn lemma_split(all: Seq<IoOp>, before: Seq<IoOp>, new: Seq<IoOp>)
    requires
        all == before + new,
    ensures
        before.is_prefix_of(all),
        all.skip(before.len() as int) == new,
{
    assert(all.skip(before.len() as int) =~= new);
}

} // verus!
