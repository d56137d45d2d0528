//! Sending and receiving.

use crate::constants::{
    IXGBE_ADVTXD_DCMD_DEXT, IXGBE_ADVTXD_DCMD_EOP, IXGBE_ADVTXD_DCMD_IFCS, IXGBE_ADVTXD_DCMD_RS,
    IXGBE_ADVTXD_DTYP_DATA, IXGBE_ADVTXD_PAYLEN_SHIFT, IXGBE_GORCH, IXGBE_GORCL, IXGBE_GOTCH,
    IXGBE_GOTCL, IXGBE_GPRC, IXGBE_GPTC, IXGBE_RXDADV_STAT_DD, IXGBE_TDT, IXGBE_VFRDT,
};
use crate::hal::IxgbeHal;
use crate::io::{link_speed, speed_of, IoOp};
use crate::ixgbe::{DeviceView, IxgbeDevice, MAX_QUEUES};
use crate::memory;
use crate::memory::{alloc_pkt, MemPool, Packet, PoolId, PoolView, VirtAddr};
use crate::programs;
use crate::ring;
use crate::ring::{
    clean_tx_queue, wrap_ring, IxgbeTxQueue, RxView, RxWriteback, TxView, DESCRIPTOR_SIZE,
};
use crate::stats;
use crate::{IxgbeError, IxgbeResult};
use std::collections::VecDeque;
use vstd::prelude::*;

verus! {

/// The name of the driver.
pub const DRIVER_NAME: &'static str = "ixgbe";

/// A buffer used for receiving.
pub struct RxBuffer {
    pub packet: Packet,
}

impl RxBuffer {
    /// Returns the packet.
    pub fn packet(&self) -> (r: &Packet)
        ensures
            *r == self.packet,
    {
        &self.packet
    }
}

/// A buffer used for transmitting.
pub struct TxBuffer {
    pub packet: Packet,
}

impl TxBuffer {
    /// Allocates a packet of `size` bytes from pool number `pool`.
    ///
    /// Fails with [`IxgbeError::NoMemory`] exactly if the size exceeds the maximum size for that
    /// pool or the pool is empty.
    pub fn allocate(
        pools: &mut Vec<MemPool>,
        pool: PoolId,
        size: usize,
    ) -> (r: IxgbeResult<TxBuffer>)
        requires
            pool < memory::pool_views(old(pools)@).len(),
            memory::pool_views(old(pools)@)[pool as int].wf(),
        ensures
            match memory::alloc_result(
                memory::pool_views(old(pools)@)[pool as int],
                pool,
                size,
            ) {
                Some(packet) => {
                    &&& r == Ok::<TxBuffer, IxgbeError>(TxBuffer { packet })
                    &&& memory::pool_views(final(pools)@) == memory::taken_from(
                        memory::pool_views(old(pools)@),
                        pool,
                    )
                },
                None => {
                    &&& r == Err::<TxBuffer, IxgbeError>(IxgbeError::NoMemory)
                    &&& memory::pool_views(final(pools)@) == memory::pool_views(old(pools)@)
                },
            },
    {
        match alloc_pkt(pools, pool, size) {
            Some(packet) => Ok(TxBuffer { packet }),
            None => Err(IxgbeError::NoMemory),
        }
    }

    /// Returns the data of the packet. `memory` holds the bytes from address `base` on.
    pub fn packet<'a>(&self, memory: &'a [u8], base: VirtAddr) -> (r: &'a [u8])
        requires
            base <= self.packet.addr_virt,
            self.packet.addr_virt - base + self.packet.len <= memory@.len(),
        ensures
            r@ == self.packet.bytes(memory@, base),
    {
        self.packet.as_bytes(memory, base)
    }

    /// Returns the data of the packet for writing. `memory` holds the bytes from address `base` on;
    /// those outside the packet stay as they are.
    pub fn packet_mut<'a>(&mut self, memory: &'a mut [u8], base: VirtAddr) -> (r: &'a mut [u8])
        requires
            base <= old(self).packet.addr_virt,
            old(self).packet.addr_virt - base + old(self).packet.len <= old(memory)@.len(),
        ensures
            *final(self) == *old(self),
            r@ == old(self).packet.bytes(old(memory)@, base),
            final(memory)@ == old(memory)@.take(old(self).packet.addr_virt - base) + final(r)@
                + old(memory)@.skip(old(self).packet.addr_virt - base + old(self).packet.len),
    {
        self.packet.as_mut_bytes(memory, base)
    }
}

/// What receiving one packet comes to: the packet or the error, and the device, the pools and the
/// operations on the card that follow.
pub struct RxStep {
    pub result: IxgbeResult<Packet>,
    pub dev: DeviceView,
    pub pools: Seq<PoolView>,
    pub ops: Seq<IoOp>,
}

/// What sending comes to: success or the error, and the device, the pools and the operations on
/// the card that follow.
pub struct TxStep {
    pub result: IxgbeResult,
    pub dev: DeviceView,
    pub pools: Seq<PoolView>,
    pub ops: Seq<IoOp>,
}

/// The command and length word of a descriptor that sends `len` bytes.
pub open spec fn tx_command(len: usize) -> u32 {
    IXGBE_ADVTXD_DCMD_EOP | IXGBE_ADVTXD_DCMD_RS | IXGBE_ADVTXD_DCMD_IFCS | IXGBE_ADVTXD_DCMD_DEXT
        | IXGBE_ADVTXD_DTYP_DATA | len as u32
}

/// The payload length and status word of a descriptor that sends `len` bytes.
pub open spec fn tx_payload(len: usize) -> u32 {
    (len as u32) << IXGBE_ADVTXD_PAYLEN_SHIFT
}

/// Fills the descriptor at the transmit index of the queue in for `packet`.
pub open spec fn descriptor_ops(queue: TxView, packet: Packet) -> Seq<IoOp> {
    let desc = queue.descriptor(queue.tx_index);
    seq![
        IoOp::Store64 { addr: desc as usize, value: packet.addr_phys as u64 },
        IoOp::Store32 { addr: (desc + 8) as usize, value: tx_command(packet.len) },
        IoOp::Store32 { addr: (desc + 12) as usize, value: tx_payload(packet.len) },
    ]
}

/// Tells the card that the descriptors up to the transmit index of queue `queue_id` are there.
pub open spec fn tail_op(queue_id: u16, tx_index: int) -> IoOp {
    IoOp::WriteReg { reg: IXGBE_TDT(queue_id as u32), value: tx_index as u32 }
}

impl TxView {
    /// The queue with one more packet in it.
    pub open spec fn enqueued(self, packet: Packet) -> TxView {
        TxView {
            pool: Some(packet.pool),
            bufs: self.bufs.push(packet.pool_entry),
            tx_index: self.after(self.tx_index),
            ..self
        }
    }

    /// The queue has the pool of the packet, or no buffer of another pool. Distinct memory pools
    /// for a single transmit queue are not supported.
    pub open spec fn takes(self, packet: Packet) -> bool {
        self.pool == Some(packet.pool) || self.bufs.len() == 0
    }

    /// How many of `count` packets find a descriptor.
    pub open spec fn fitting(self, count: int) -> int {
        let room = self.num_descriptors - 1 - self.in_use();
        if count <= room {
            count
        } else {
            room
        }
    }
}

impl DeviceView {
    /// The device with another receive queue `i`.
    pub open spec fn with_rx(self, i: int, queue: RxView) -> DeviceView {
        DeviceView { rx: self.rx.update(i, queue), ..self }
    }

    /// The device with another transmit queue `i`.
    pub open spec fn with_tx(self, i: int, queue: TxView) -> DeviceView {
        DeviceView { tx: self.tx.update(i, queue), ..self }
    }

    /// Receives a packet, `head` being what the card wrote to the descriptor at the receive index:
    /// the buffer of that descriptor leaves the ring with the packet in it, and a free one takes
    /// its place.
    pub open spec fn receive(
        self,
        pools: Seq<PoolView>,
        queue_id: u16,
        head: RxWriteback,
    ) -> RxStep {
        let i = queue_id as int;
        let q = self.rx[i];
        let pool = pools[q.pool as int];
        let stays = RxStep {
            result: Err(IxgbeError::InvalidQueue),
            dev: self,
            pools,
            ops: Seq::empty(),
        };
        if i >= self.rx.len() {
            stays
        } else if !head.done() {
            RxStep { result: Err(IxgbeError::NotReady), ..stays }
        } else if pool.free.len() == 0 {
            RxStep { result: Err(IxgbeError::NoMemory), ..stays }
        } else {
            let fresh = pool.free.last();
            RxStep {
                result: Ok(
                    memory::packet_at(pool, q.pool, q.bufs[q.rx_index], 0, head.length as usize),
                ),
                dev: self.with_rx(
                    i,
                    RxView {
                        bufs: q.bufs.update(q.rx_index, fresh),
                        rx_index: q.after(q.rx_index),
                        ..q
                    },
                ),
                pools: memory::taken_from(pools, q.pool),
                ops: programs::refill_ops(q, q.rx_index, pool.phys_addr[fresh as int]).push(
                    IoOp::WriteReg {
                        reg: IXGBE_VFRDT(queue_id as u32),
                        value: q.rx_index as u32,
                    },
                ),
            }
        }
    }

    /// Sends a packet, `statuses` being the status of the last descriptor of each batch in use:
    /// the queue is cleaned first. A packet that cannot be sent goes back to its pool.
    pub open spec fn send(
        self,
        pools: Seq<PoolView>,
        queue_id: u16,
        packet: Packet,
        statuses: Seq<u32>,
    ) -> TxStep {
        let i = queue_id as int;
        if i >= self.tx.len() {
            TxStep {
                result: Err(IxgbeError::InvalidQueue),
                dev: self,
                pools: memory::freed(pools, packet),
                ops: Seq::empty(),
            }
        } else {
            let q = TxView { pool: Some(packet.pool), ..self.tx[i].cleaned(statuses) };
            let cleaned = self.tx[i].cleaned_pools(pools, statuses);
            if q.full() {
                TxStep {
                    result: Err(IxgbeError::QueueFull),
                    dev: self.with_tx(i, q),
                    pools: memory::freed(cleaned, packet),
                    ops: Seq::empty(),
                }
            } else {
                TxStep {
                    result: Ok(()),
                    dev: self.with_tx(i, q.enqueued(packet)),
                    pools: cleaned,
                    ops: descriptor_ops(q, packet).push(tail_op(queue_id, q.after(q.tx_index))),
                }
            }
        }
    }

    /// What the caller of `receive` sees to: the device and the pool of the queue are well formed,
    /// and no packet is spread over several buffers.
    pub open spec fn receive_ready(
        self,
        pools: Seq<PoolView>,
        queue_id: u16,
        head: RxWriteback,
    ) -> bool {
        &&& self.wf(pools)
        &&& queue_id < self.rx.len() ==> {
            &&& pools[self.rx[queue_id as int].pool as int].wf()
            &&& head.done() ==> head.end_of_packet()
        }
    }

    /// What the caller of `send` sees to: the device is well formed, the pool of the packet exists,
    /// the status of the last descriptor of each batch in use is there, the queue has no buffers of
    /// another pool left after cleaning, and a packet that cannot be sent owns its buffer, which
    /// goes back to the pool.
    pub open spec fn send_ready(
        self,
        pools: Seq<PoolView>,
        queue_id: u16,
        packet: Packet,
        statuses: Seq<u32>,
    ) -> bool {
        &&& self.wf(pools)
        &&& packet.pool < pools.len()
        &&& queue_id < self.tx.len() ==> {
            &&& statuses.len() >= self.tx[queue_id as int].batches()
            &&& self.tx[queue_id as int].cleaned(statuses).takes(packet)
        }
        &&& self.send(pools, queue_id, packet, statuses).result is Err ==> packet.live(pools)
    }
}

/// What a network card driver offers.
///
/// The functions that need the card's registers or its descriptors take what they hold as
/// arguments, and add the operations on the card that have to follow to `ops`.
pub trait NicDevice<H: IxgbeHal>: Sized {
    /// The registers that the driver uses are mapped, and its queues are well formed.
    spec fn usable(&self) -> bool;

    /// What the caller of `receive` sees to.
    spec fn receive_ready(&self, pools: Seq<PoolView>, queue_id: u16, head: RxWriteback) -> bool;

    /// What the caller of `receive_packets` sees to.
    spec fn receive_packets_ready(
        &self,
        pools: Seq<PoolView>,
        queue_id: u16,
        packet_nums: usize,
        heads: Seq<RxWriteback>,
    ) -> bool;

    /// What the caller of `send` sees to.
    spec fn send_ready(
        &self,
        pools: Seq<PoolView>,
        queue_id: u16,
        tx_buf: TxBuffer,
        statuses: Seq<u32>,
    ) -> bool;

    /// What the caller of `send_packets` sees to.
    spec fn send_packets_ready(
        &self,
        pools: Seq<PoolView>,
        queue_id: u16,
        tx_bufs: Seq<TxBuffer>,
        statuses: Seq<u32>,
    ) -> bool;

    /// Returns the driver's name.
    fn get_driver_name(&self) -> &str;

    /// Returns the layer 2 address of this device, given the two halves that the card holds.
    fn get_mac_addr(&self, low: u32, high: u32) -> [u8; 6];

    /// Resets the network card's stats registers.
    fn reset_stats(&mut self, ops: &mut Vec<IoOp>)
        requires
            old(self).usable(),
    ;

    /// Returns the network card's link speed, given the link status.
    fn get_link_speed(&self, links: u32) -> u16;

    /// Receives a [`RxBuffer`] from network. If currently no data, returns an error
    /// with type [`IxgbeError::NotReady`].
    ///
    /// `head` is what the card wrote to the descriptor at the receive index of the queue.
    fn receive(
        &mut self,
        pools: &mut Vec<MemPool>,
        queue_id: u16,
        head: RxWriteback,
        ops: &mut Vec<IoOp>,
    ) -> IxgbeResult<RxBuffer>
        requires
            old(self).receive_ready(memory::pool_views(old(pools)@), queue_id, head),
    ;

    /// Receives up to `packet_nums` [`RxBuffer`] from network. If currently no data, returns an
    /// error with type [`IxgbeError::NotReady`].
    ///
    /// `heads` is what the card wrote to the descriptors from the receive index of the queue on,
    /// each of them at most once.
    fn receive_packets(
        &mut self,
        pools: &mut Vec<MemPool>,
        queue_id: u16,
        packet_nums: usize,
        heads: &[RxWriteback],
        ops: &mut Vec<IoOp>,
    ) -> IxgbeResult<Vec<RxBuffer>>
        requires
            old(self).receive_packets_ready(
                memory::pool_views(old(pools)@),
                queue_id,
                packet_nums,
                heads@,
            ),
    ;

    /// Sends a [`TxBuffer`] to network. If currently queue is full, returns an
    /// error with type [`IxgbeError::QueueFull`].
    ///
    /// Distinct memory pools for a single transmit queue are not supported: the queue must have the
    /// pool of the buffer, or none of its buffers may be left after cleaning.
    ///
    /// `statuses` holds the status of the descriptors that the queue asks for.
    fn send(
        &mut self,
        pools: &mut Vec<MemPool>,
        queue_id: u16,
        tx_buf: TxBuffer,
        statuses: &[u32],
        ops: &mut Vec<IoOp>,
    ) -> IxgbeResult
        requires
            old(self).send_ready(memory::pool_views(old(pools)@), queue_id, tx_buf, statuses@),
    ;

    /// Sends the [`TxBuffer`]s of `tx_bufs` to network, from the front on. If the queue becomes
    /// full, returns an error with type [`IxgbeError::QueueFull`] and leaves the rest.
    ///
    /// Distinct memory pools for a single transmit queue are not supported, as for `send`.
    ///
    /// `statuses` holds the status of the descriptors that the queue asks for.
    fn send_packets(
        &mut self,
        pools: &mut Vec<MemPool>,
        queue_id: u16,
        tx_bufs: &mut VecDeque<TxBuffer>,
        statuses: &[u32],
        ops: &mut Vec<IoOp>,
    ) -> IxgbeResult
        requires
            old(self).send_packets_ready(
                memory::pool_views(old(pools)@),
                queue_id,
                old(tx_bufs)@,
                statuses@,
            ),
    ;

    /// Whether can receive packet, given the status of the descriptor at the receive index.
    fn can_receive(&self, queue_id: u16, status: u32) -> IxgbeResult<bool>;

    /// Whether can send packet.
    fn can_send(&self, queue_id: u16) -> IxgbeResult<bool>
        requires
            self.usable(),
    ;
}

impl<H: IxgbeHal> NicDevice<H> for IxgbeDevice<H> {
    open spec fn usable(&self) -> bool {
        &&& self@.window_wf()
        &&& forall|i: int| 0 <= i < self@.tx.len() ==> (#[trigger] self@.tx[i]).wf()
    }

    open spec fn receive_ready(
        &self,
        pools: Seq<PoolView>,
        queue_id: u16,
        head: RxWriteback,
    ) -> bool {
        self@.receive_ready(pools, queue_id, head)
    }

    open spec fn receive_packets_ready(
        &self,
        pools: Seq<PoolView>,
        queue_id: u16,
        packet_nums: usize,
        heads: Seq<RxWriteback>,
    ) -> bool {
        &&& self@.wf(pools)
        &&& queue_id < self@.rx.len() ==> {
            &&& 0 < heads.len() <= self@.rx[queue_id as int].num_descriptors
            &&& pools[self@.rx[queue_id as int].pool as int].wf()
            &&& forall|i: int|
                0 <= i < heads.len() && (#[trigger] heads[i]).done() ==> heads[i].end_of_packet()
        }
    }

    open spec fn send_ready(
        &self,
        pools: Seq<PoolView>,
        queue_id: u16,
        tx_buf: TxBuffer,
        statuses: Seq<u32>,
    ) -> bool {
        self@.send_ready(pools, queue_id, tx_buf.packet, statuses)
    }

    open spec fn send_packets_ready(
        &self,
        pools: Seq<PoolView>,
        queue_id: u16,
        tx_bufs: Seq<TxBuffer>,
        statuses: Seq<u32>,
    ) -> bool {
        &&& self@.wf(pools)
        &&& forall|i: int|
            0 <= i < tx_bufs.len() ==> (#[trigger] tx_bufs[i]).packet.pool < pools.len()
        &&& queue_id < self@.tx.len() ==> {
            let q = self@.tx[queue_id as int].cleaned(statuses);
            &&& statuses.len() >= self@.tx[queue_id as int].batches()
            &&& forall|k: int|
                0 <= k < q.fitting(tx_bufs.len() as int) ==> {
                    &&& q.takes((#[trigger] tx_bufs[k]).packet)
                    &&& tx_bufs[k].packet.pool == tx_bufs[0].packet.pool
                }
        }
    }

    fn get_driver_name(&self) -> (r: &str)
        ensures
            r@ == DRIVER_NAME@,
    {
        DRIVER_NAME
    }

    /// Returns the mac address of this device.
    fn get_mac_addr(&self, low: u32, high: u32) -> (r: [u8; 6])
        ensures
            r@ == stats::mac_bytes(low, high),
            r@[0] == low & 0xff,
            r@[1] == (low >> 8u32) & 0xff,
            r@[2] == (low >> 16u32) & 0xff,
            r@[3] == low >> 24u32,
            r@[4] == high & 0xff,
            r@[5] == (high >> 8u32) & 0xff,
    {
        stats::mac_from_halves(low, high)
    }

    /// Resets the stats of this device.
    fn reset_stats(&mut self, ops: &mut Vec<IoOp>)
        ensures
            *final(self) == *old(self),
            final(ops)@ == old(ops)@ + programs::reset_stats_ops(),
    {
        self.get_reg32(ops, IXGBE_GPRC);
        self.get_reg32(ops, IXGBE_GPTC);
        self.get_reg32(ops, IXGBE_GORCL);
        self.get_reg32(ops, IXGBE_GORCH);
        self.get_reg32(ops, IXGBE_GOTCL);
        self.get_reg32(ops, IXGBE_GOTCH);
        assert(ops@ =~= old(ops)@ + programs::reset_stats_ops());
    }

    /// Returns the link speed of this device.
    fn get_link_speed(&self, links: u32) -> (r: u16)
        ensures
            r == speed_of(links),
    {
        link_speed(links)
    }

    fn receive(
        &mut self,
        pools: &mut Vec<MemPool>,
        queue_id: u16,
        head: RxWriteback,
        ops: &mut Vec<IoOp>,
    ) -> (r: IxgbeResult<RxBuffer>)
        ensures
            ({
                let step = old(self)@.receive(memory::pool_views(old(pools)@), queue_id, head);
                &&& match step.result {
                    Ok(packet) => r == Ok::<RxBuffer, IxgbeError>(RxBuffer { packet }),
                    Err(e) => r == Err::<RxBuffer, IxgbeError>(e),
                }
                &&& final(self)@ == step.dev
                &&& memory::pool_views(final(pools)@) == step.pools
                &&& final(ops)@ == old(ops)@ + step.ops
            }),
            final(self)@.wf(memory::pool_views(final(pools)@)),
    {
        let ghost dev = self@;
        let ghost pv = memory::pool_views(pools@);
        let ghost before = pools@;
        assert(ops@ =~= ops@ + Seq::<IoOp>::empty());
        let i: usize = queue_id as usize;
        if i >= self.rx_queues.len() {
            return Err(IxgbeError::InvalidQueue);
        }
        let ghost q = dev.rx[i as int];
        assert(q == self.rx_queues@[i as int]@);
        assert(q.wf(pv));
        if !self.rx_queues[i].can_recv(head.status_error) {
            return Err(IxgbeError::NotReady);
        }
        let rx_index: usize = self.rx_queues[i].rx_index;
        let p: PoolId = self.rx_queues[i].pool;
        let ghost pool = pv[p as int];
        assert(pool == pools@[p as int]@);
        match pools[p].alloc_buf() {
            Some(fresh) => {
                proof {
                    assert(pool.free[pool.free.len() - 1] == fresh);
                    assert(pools@ =~= before.update(p as int, pools@[p as int]));
                    memory::lemma_pool_changed(before, p as int, pools@[p as int]);
                }
                // replace currently used buffer with new buffer.
                let buf: usize = self.rx_queues[i].bufs_in_use[rx_index];
                self.rx_queues[i].bufs_in_use.set(rx_index, fresh);
                let packet = Packet::new(
                    pools[p].get_virt_addr(buf),
                    pools[p].get_phys_addr(buf),
                    head.length as usize,
                    p,
                    buf,
                );
                let n: usize = self.rx_queues[i].num_descriptors;
                let desc: usize = self.rx_queues[i].descriptors + rx_index * DESCRIPTOR_SIZE;
                ops.push(IoOp::Store64 { addr: desc, value: pools[p].get_phys_addr(fresh) as u64 });
                ops.push(IoOp::Store64 { addr: desc + 8, value: 0 });
                self.set_reg32(ops, IXGBE_VFRDT(queue_id as u32), rx_index as u32);
                self.rx_queues[i].rx_index = wrap_ring(rx_index, n);
                proof {
                    let step = dev.receive(pv, queue_id, head);
                    assert(self@.rx =~= step.dev.rx);
                    assert(self@.tx =~= step.dev.tx);
                    assert(ops@ =~= old(ops)@ + step.ops);
                }
                Ok(RxBuffer { packet })
            },
            None => {
                assert(pools@ =~= before.update(p as int, pools@[p as int]));
                proof {
                    memory::lemma_pool_changed(before, p as int, pools@[p as int]);
                    assert(memory::pool_views(pools@) =~= pv);
                }
                Err(IxgbeError::NoMemory)
            },
        }
    }

    fn send(
        &mut self,
        pools: &mut Vec<MemPool>,
        queue_id: u16,
        tx_buf: TxBuffer,
        statuses: &[u32],
        ops: &mut Vec<IoOp>,
    ) -> (r: IxgbeResult)
        ensures
            ({
                let step = old(self)@.send(
                    memory::pool_views(old(pools)@),
                    queue_id,
                    tx_buf.packet,
                    statuses@,
                );
                &&& r == step.result
                &&& final(self)@ == step.dev
                &&& memory::pool_views(final(pools)@) == step.pools
                &&& final(ops)@ == old(ops)@ + step.ops
            }),
            final(self)@.wf(memory::pool_views(final(pools)@)),
    {
        let ghost dev = self@;
        let ghost pv = memory::pool_views(pools@);
        assert(ops@ =~= ops@ + Seq::<IoOp>::empty());
        let packet = tx_buf.packet;
        let i: usize = queue_id as usize;
        if i >= self.tx_queues.len() {
            packet.free(pools);
            assert(self@.wf(memory::pool_views(pools@)));
            return Err(IxgbeError::InvalidQueue);
        }
        let ghost q = dev.tx[i as int];
        assert(q == self.tx_queues@[i as int]@);
        let clean_index: usize = clean_tx_queue(&mut self.tx_queues[i], pools, statuses);
        self.tx_queues[i].pool = Some(packet.pool);
        let ghost cleaned = TxView { pool: Some(packet.pool), ..q.cleaned(statuses@) };
        let ghost step = dev.send(pv, queue_id, packet, statuses@);
        assert(cleaned.wf());
        let cur_index: usize = self.tx_queues[i].tx_index;
        let next_index: usize = wrap_ring(cur_index, self.tx_queues[i].num_descriptors);
        if clean_index == next_index {
            proof {
                lemma_full_unchanged(q, pv, packet, statuses@);
                assert(self@.rx =~= step.dev.rx);
                assert(self@.tx =~= step.dev.tx);
            }
            packet.free(pools);
            assert(self@.wf(memory::pool_views(pools@)));
            return Err(IxgbeError::QueueFull);
        }
        self.tx_queues[i].enqueue(packet, ops);
        self.set_reg32(ops, IXGBE_TDT(queue_id as u32), self.tx_queues[i].tx_index as u32);
        proof {
            assert(self@.rx =~= step.dev.rx);
            assert(self@.tx =~= step.dev.tx);
            assert(ops@ =~= old(ops)@ + step.ops);
            assert(self@.wf(memory::pool_views(pools@)));
        }
        Ok(())
    }

    fn can_receive(&self, queue_id: u16, status: u32) -> (r: IxgbeResult<bool>)
        ensures
            r == (if queue_id < self@.rx.len() {
                Ok::<bool, IxgbeError>(status & IXGBE_RXDADV_STAT_DD != 0)
            } else {
                Err(IxgbeError::InvalidQueue)
            }),
    {
        let i: usize = queue_id as usize;
        if i < self.rx_queues.len() {
            Ok(self.rx_queues[i].can_recv(status))
        } else {
            Err(IxgbeError::InvalidQueue)
        }
    }

    fn can_send(&self, queue_id: u16) -> (r: IxgbeResult<bool>)
        ensures
            r == (if queue_id < self@.tx.len() {
                Ok::<bool, IxgbeError>(!self@.tx[queue_id as int].full())
            } else {
                Err(IxgbeError::InvalidQueue)
            }),
    {
        let i: usize = queue_id as usize;
        if i < self.tx_queues.len() {
            let queue = &self.tx_queues[i];
            assert(self@.tx[i as int] == queue@);
            Ok(wrap_ring(queue.tx_index, queue.num_descriptors) != queue.clean_index)
        } else {
            Err(IxgbeError::InvalidQueue)
        }
    }

    fn receive_packets(
        &mut self,
        pools: &mut Vec<MemPool>,
        queue_id: u16,
        packet_nums: usize,
        heads: &[RxWriteback],
        ops: &mut Vec<IoOp>,
    ) -> (r: IxgbeResult<Vec<RxBuffer>>)
        ensures
            ({
                let count = if packet_nums < heads@.len() {
                    packet_nums as int
                } else {
                    heads@.len() as int
                };
                let batch = old(self)@.receive_all(
                    memory::pool_views(old(pools)@),
                    queue_id,
                    heads@,
                    count,
                );
                &&& match r {
                    Err(e) => if queue_id >= old(self)@.rx.len() {
                        e == IxgbeError::InvalidQueue
                    } else if !heads@[0].done() {
                        e == IxgbeError::NotReady
                    } else {
                        batch.packets.len() == 0 && batch.error == Some(e)
                    },
                    Ok(bufs) => {
                        &&& queue_id < old(self)@.rx.len()
                        &&& heads@[0].done()
                        &&& batch.packets.len() > 0 || batch.error is None
                        &&& bufs@ == Seq::new(
                            batch.packets.len(),
                            |i: int| RxBuffer { packet: batch.packets[i] },
                        )
                    },
                }
                &&& final(self)@ == batch.dev
                &&& memory::pool_views(final(pools)@) == batch.pools
                &&& final(ops)@ == old(ops)@ + batch.ops
            }),
            final(self)@.wf(memory::pool_views(final(pools)@)),
    {
        let ghost dev = self@;
        let ghost pv = memory::pool_views(pools@);
        let ghost hs = heads@;
        let count: usize = if packet_nums < heads.len() {
            packet_nums
        } else {
            heads.len()
        };
        let mut bufs: Vec<RxBuffer> = Vec::new();
        assert(ops@ =~= ops@ + Seq::<IoOp>::empty());
        if queue_id as usize >= self.rx_queues.len() {
            proof {
                dev.lemma_receive_none(pv, queue_id, hs, count as int);
            }
            return Err(IxgbeError::InvalidQueue);
        }
        if !self.rx_queues[queue_id as usize].can_recv(heads[0].status_error) {
            proof {
                dev.lemma_receive_none(pv, queue_id, hs, count as int);
            }
            return Err(IxgbeError::NotReady);
        }
        let mut i: usize = 0;
        while i < count
            invariant
                dev == old(self)@,
                pv == memory::pool_views(old(pools)@),
                count == (if packet_nums < heads@.len() {
                    packet_nums as int
                } else {
                    heads@.len() as int
                }),
                i <= count <= hs.len(),
                hs == heads@,
                count > 0 ==> hs[0].done(),
                queue_id < dev.rx.len(),
                dev.receive_all(pv, queue_id, hs, i as int).error is None,
                self@ == dev.receive_all(pv, queue_id, hs, i as int).dev,
                self@.rx.len() == dev.rx.len(),
                memory::pool_views(pools@) == dev.receive_all(pv, queue_id, hs, i as int).pools,
                ops@ == old(ops)@ + dev.receive_all(pv, queue_id, hs, i as int).ops,
                bufs@ == Seq::new(
                    dev.receive_all(pv, queue_id, hs, i as int).packets.len(),
                    |k: int|
                        RxBuffer {
                            packet: dev.receive_all(pv, queue_id, hs, i as int).packets[k],
                        },
                ),
                dev.receive_all(pv, queue_id, hs, i as int).packets.len() == i,
                self@.wf(memory::pool_views(pools@)),
                memory::pool_views(pools@)[self@.rx[queue_id as int].pool as int].wf(),
                forall|k: int|
                    0 <= k < hs.len() && (#[trigger] hs[k]).done() ==> hs[k].end_of_packet(),
            decreases count - i,
        {
            let ghost mid = self@;
            let ghost mid_pools = memory::pool_views(pools@);
            let ghost so_far = dev.receive_all(pv, queue_id, hs, i as int);
            let ghost next = dev.receive_all(pv, queue_id, hs, i + 1);
            match self.receive(pools, queue_id, heads[i], ops) {
                Ok(buf) => {
                    bufs.push(buf);
                    i = i + 1;
                    proof {
                        mid.lemma_receive_keeps_pool(mid_pools, queue_id, hs[i - 1]);
                        assert(bufs@ =~= Seq::new(
                            next.packets.len(),
                            |k: int| RxBuffer { packet: next.packets[k] },
                        ));
                        assert(ops@ =~= old(ops)@ + next.ops);
                    }
                },
                Err(e) => {
                    proof {
                        assert(so_far.ops + Seq::<IoOp>::empty() =~= so_far.ops);
                        assert(ops@ =~= old(ops)@ + so_far.ops);
                        dev.lemma_receive_stops(pv, queue_id, hs, i + 1, count as int);
                    }
                    if bufs.len() == 0 {
                        return Err(e);
                    }
                    return Ok(bufs);
                },
            }
        }
        Ok(bufs)
    }

    fn send_packets(
        &mut self,
        pools: &mut Vec<MemPool>,
        queue_id: u16,
        tx_bufs: &mut VecDeque<TxBuffer>,
        statuses: &[u32],
        ops: &mut Vec<IoOp>,
    ) -> (r: IxgbeResult)
        ensures
            ({
                let i = queue_id as int;
                let q = old(self)@.tx[i].cleaned(statuses@);
                let sent = q.fitting(old(tx_bufs)@.len() as int);
                if i >= old(self)@.tx.len() {
                    &&& r == Err::<(), IxgbeError>(IxgbeError::InvalidQueue)
                    &&& final(self)@ == old(self)@
                    &&& memory::pool_views(final(pools)@) == memory::pool_views(old(pools)@)
                    &&& final(tx_bufs)@ == old(tx_bufs)@
                    &&& final(ops)@ == old(ops)@
                } else {
                    &&& r == (if sent == old(tx_bufs)@.len() {
                        Ok::<(), IxgbeError>(())
                    } else {
                        Err(IxgbeError::QueueFull)
                    })
                    &&& final(self)@ == old(self)@.with_tx(i, q.enqueued_all(old(tx_bufs)@, sent))
                    &&& memory::pool_views(final(pools)@) == old(self)@.tx[i].cleaned_pools(
                        memory::pool_views(old(pools)@),
                        statuses@,
                    )
                    &&& final(tx_bufs)@ == old(tx_bufs)@.skip(sent)
                    &&& final(ops)@ == old(ops)@ + q.enqueue_ops(queue_id, old(tx_bufs)@, sent)
                }
            }),
            final(self)@.wf(memory::pool_views(final(pools)@)),
    {
        let ghost dev = self@;
        let ghost pv = memory::pool_views(pools@);
        let ghost all = tx_bufs@;
        let i: usize = queue_id as usize;
        if i >= self.tx_queues.len() {
            return Err(IxgbeError::InvalidQueue);
        }
        assert(dev.tx[i as int] == self.tx_queues@[i as int]@);
        clean_tx_queue(&mut self.tx_queues[i], pools, statuses);
        let ghost q = dev.tx[i as int].cleaned(statuses@);
        let ghost mut sent: int = 0;
        proof {
            assert(all.skip(0) =~= all);
            assert(ops@ =~= ops@ + Seq::<IoOp>::empty());
            assert(self@.rx =~= dev.rx);
            assert(self@.tx =~= dev.tx.update(i as int, q));
        }
        while tx_bufs.len() > 0
            invariant
                dev == old(self)@,
                pv == memory::pool_views(old(pools)@),
                all == old(tx_bufs)@,
                i == queue_id as int,
                i < dev.tx.len(),
                dev.wf(pv),
                dev.tx.len() <= MAX_QUEUES,
                q.wf(),
                q == dev.tx[i as int].cleaned(statuses@),
                0 <= sent <= all.len(),
                sent <= q.num_descriptors - 1 - q.in_use(),
                tx_bufs@ == all.skip(sent),
                q.enqueued_all(all, sent).wf(),
                q.enqueued_all(all, sent).in_use() == q.in_use() + sent,
                q.enqueued_all(all, sent).num_descriptors == q.num_descriptors,
                self@ == dev.with_tx(i as int, q.enqueued_all(all, sent)),
                self@.tx.len() == dev.tx.len(),
                memory::pool_views(pools@) == dev.tx[i as int].cleaned_pools(pv, statuses@),
                ops@ == old(ops)@ + q.enqueue_ops(queue_id, all, sent),
                forall|k: int| 0 <= k < all.len() ==> (#[trigger] all[k]).packet.pool < pv.len(),
                self@.wf(memory::pool_views(pools@)),
            decreases tx_bufs@.len(),
        {
            let ghost cur = q.enqueued_all(all, sent);
            let ghost mid = self@;
            let ghost queues = self.tx_queues@;
            assert(self@.tx[i as int] == self.tx_queues@[i as int]@);
            let next_index: usize = wrap_ring(
                self.tx_queues[i].tx_index,
                self.tx_queues[i].num_descriptors,
            );
            if self.tx_queues[i].clean_index == next_index {
                return Err(IxgbeError::QueueFull);
            }
            let packet = tx_bufs.pop_front().unwrap().packet;
            self.tx_queues[i].pool = Some(packet.pool);
            self.tx_queues[i].enqueue(packet, ops);
            self.set_reg32(ops, IXGBE_TDT(queue_id as u32), self.tx_queues[i].tx_index as u32);
            proof {
                assert(packet == all[sent].packet);
                lemma_enqueued(TxView { pool: Some(packet.pool), ..cur }, packet);
                assert(self.tx_queues@ =~= queues.update(i as int, self.tx_queues@[i as int]));
                assert forall|j: int| 0 <= j < dev.tx.len() && j != i implies self@.tx[j]
                    == #[trigger] dev.tx[j] by {
                    assert(mid.tx[j] == queues[j]@);
                }
                sent = sent + 1;
                assert(tx_bufs@ =~= all.skip(sent));
                assert(self@.rx =~= dev.rx);
                assert(self@.tx =~= dev.tx.update(i as int, q.enqueued_all(all, sent)));
                assert(ops@ =~= old(ops)@ + q.enqueue_ops(queue_id, all, sent));
            }
        }
        Ok(())
    }
}

/// What receiving several packets comes to: those that were received, the error that ended it, if
/// one did, and the device, the pools and the operations on the card that follow.
pub struct RxBatch {
    pub packets: Seq<Packet>,
    pub error: Option<IxgbeError>,
    pub dev: DeviceView,
    pub pools: Seq<PoolView>,
    pub ops: Seq<IoOp>,
}

impl DeviceView {
    /// Receives packets, one for each of the first `count` of `heads`, up to the first error.
    pub open spec fn receive_all(
        self,
        pools: Seq<PoolView>,
        queue_id: u16,
        heads: Seq<RxWriteback>,
        count: int,
    ) -> RxBatch
        decreases count,
    {
        if count <= 0 {
            RxBatch {
                packets: Seq::empty(),
                error: None,
                dev: self,
                pools,
                ops: Seq::empty(),
            }
        } else {
            let batch = self.receive_all(pools, queue_id, heads, count - 1);
            let step = batch.dev.receive(batch.pools, queue_id, heads[count - 1]);
            if batch.error is Some {
                batch
            } else {
                match step.result {
                    Ok(packet) => RxBatch {
                        packets: batch.packets.push(packet),
                        error: None,
                        dev: step.dev,
                        pools: step.pools,
                        ops: batch.ops + step.ops,
                    },
                    Err(e) => RxBatch { error: Some(e), ..batch },
                }
            }
        }
    }

    /// Nothing is received after an error.
    proof fn lemma_receive_stops(
        self,
        pools: Seq<PoolView>,
        queue_id: u16,
        heads: Seq<RxWriteback>,
        count: int,
        more: int,
    )
        requires
            0 < count <= more,
            self.receive_all(pools, queue_id, heads, count).error is Some,
        ensures
            self.receive_all(pools, queue_id, heads, more) == self.receive_all(
                pools,
                queue_id,
                heads,
                count,
            ),
        decreases more - count,
    {
        if count < more {
            self.lemma_receive_stops(pools, queue_id, heads, count, more - 1);
        }
    }

    /// Nothing is received from a queue that does not exist or has no packet.
    proof fn lemma_receive_none(
        self,
        pools: Seq<PoolView>,
        queue_id: u16,
        heads: Seq<RxWriteback>,
        count: int,
    )
        requires
            count <= heads.len(),
            queue_id >= self.rx.len() || !heads[0].done(),
        ensures
            ({
                let batch = self.receive_all(pools, queue_id, heads, count);
                &&& batch.packets.len() == 0
                &&& batch.dev == self
                &&& batch.pools == pools
                &&& batch.ops == Seq::<IoOp>::empty()
            }),
    {
        if count > 0 {
            reveal_with_fuel(DeviceView::receive_all, 2);
            self.lemma_receive_stops(pools, queue_id, heads, 1, count);
        }
    }

    /// Receiving leaves the pool of the queue well formed, and the queue its pool.
    proof fn lemma_receive_keeps_pool(
        self,
        pools: Seq<PoolView>,
        queue_id: u16,
        head: RxWriteback,
    )
        requires
            self.receive_ready(pools, queue_id, head),
            queue_id < self.rx.len(),
        ensures
            ({
                let step = self.receive(pools, queue_id, head);
                &&& step.dev.rx.len() == self.rx.len()
                &&& step.pools[step.dev.rx[queue_id as int].pool as int].wf()
            }),
    {
        assert(self.rx[queue_id as int].wf(pools));
    }
}

impl TxView {
    /// The queue with the first `count` packets of `bufs` in it, too.
    pub open spec fn enqueued_all(self, bufs: Seq<TxBuffer>, count: int) -> TxView
        decreases count,
    {
        if count <= 0 {
            self
        } else {
            self.enqueued_all(bufs, count - 1).enqueued(bufs[count - 1].packet)
        }
    }

    /// What sends the first `count` packets of `bufs`.
    pub open spec fn enqueue_ops(
        self,
        queue_id: u16,
        bufs: Seq<TxBuffer>,
        count: int,
    ) -> Seq<IoOp>
        decreases count,
    {
        if count <= 0 {
            Seq::empty()
        } else {
            let q = self.enqueued_all(bufs, count - 1);
            self.enqueue_ops(queue_id, bufs, count - 1) + descriptor_ops(
                q,
                bufs[count - 1].packet,
            ).push(tail_op(queue_id, q.after(q.tx_index)))
        }
    }
}

/// A queue that is full after cleaning was not cleaned: the pools are as they were.
proof fn lemma_full_unchanged(
    queue: TxView,
    pools: Seq<PoolView>,
    packet: Packet,
    statuses: Seq<u32>,
)
    requires
        queue.wf(),
        queue.pool matches Some(p) ==> p < pools.len(),
        (TxView { pool: Some(packet.pool), ..queue.cleaned(statuses) }).full(),
    ensures
        queue.cleaned_pools(pools, statuses) == pools,
{
    let gone = queue.cleanable(statuses);
    ring::lemma_cleanable(queue, statuses);
    ring::lemma_clean_index(queue, gone);
    assert(gone == 0);
    if queue.pool is Some {
        let free = pools[queue.pool->0 as int].free;
        assert(free + queue.bufs.take(0) =~= free);
    }
    assert(queue.cleaned_pools(pools, statuses) =~= pools);
}

/// One more packet in a queue that is not full takes one more descriptor.
pub proof fn lemma_enqueued(queue: TxView, packet: Packet)
    requires
        queue.wf(),
        !queue.full(),
    ensures
        queue.enqueued(packet).wf(),
        queue.enqueued(packet).in_use() == queue.in_use() + 1,
{
}

impl IxgbeTxQueue {
    /// Fills the descriptor at the transmit index in for `packet`, whose buffer the queue now has.
    fn enqueue(&mut self, packet: Packet, ops: &mut Vec<IoOp>)
        requires
            old(self)@.wf(),
            !old(self)@.full(),
            old(self).pool == Some(packet.pool),
        ensures
            final(self)@ == old(self)@.enqueued(packet),
            final(self)@.wf(),
            final(ops)@ == old(ops)@ + descriptor_ops(old(self)@, packet),
    {
        proof {
            lemma_enqueued(self@, packet);
        }
        let desc: usize = self.descriptors + self.tx_index * DESCRIPTOR_SIZE;
        ops.push(IoOp::Store64 { addr: desc, value: packet.get_phys_addr() as u64 });
        let len: u32 = packet.len as u32;
        ops.push(
            IoOp::Store32 {
                addr: desc + 8,
                value: IXGBE_ADVTXD_DCMD_EOP | IXGBE_ADVTXD_DCMD_RS | IXGBE_ADVTXD_DCMD_IFCS
                    | IXGBE_ADVTXD_DCMD_DEXT | IXGBE_ADVTXD_DTYP_DATA | len,
            },
        );
        ops.push(IoOp::Store32 { addr: desc + 12, value: len << IXGBE_ADVTXD_PAYLEN_SHIFT });
        self.tx_index = wrap_ring(self.tx_index, self.num_descriptors);
        self.bufs_in_use.push_back(packet.pool_entry);
        assert(ops@ =~= old(ops)@ + descriptor_ops(old(self)@, packet));
    }
}

} // verus!
