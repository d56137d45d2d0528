//! What holds of the driver as a whole.

use crate::constants::{
    IXGBE_ADVTXD_STAT_DD, IXGBE_AUTOC, IXGBE_AUTOC_10G_PMA_PMD_MASK, IXGBE_AUTOC_10G_XAUI,
    IXGBE_AUTOC_AN_RESTART, IXGBE_AUTOC_LMS_10G_SERIAL, IXGBE_AUTOC_LMS_MASK, IXGBE_EIMS,
    IXGBE_FCTRL_MPE, IXGBE_FCTRL_UPE, IXGBE_IVAR_ALLOC_VAL, IXGBE_LINKS,
};
use crate::descriptor::{
    AdvancedTxDescriptor, TX_CMD_DEXT, TX_CMD_EOP, TX_CMD_IFCS, TX_CMD_RS, TX_DTYP_ADV,
};
use crate::io;
use crate::io::{Command, Event, IoOp, Phase, SequenceView};
use crate::ixgbe::{DeviceView, MAX_QUEUES, MIN_WINDOW};
use crate::memory;
use crate::memory::{Packet, PhysAddr, PoolId, PoolView};
use crate::nic;
use crate::programs;
use crate::ring;
use crate::ring::{RxView, RxWriteback, TxView, DESCRIPTOR_SIZE};
use crate::stats;
use vstd::prelude::*;

verus! {

// Buffers

/// A packet that was allocated lies in its own buffer, behind a headroom in the same buffer.
pub proof fn law_allocated_in_buffer(pool: PoolView, number: PoolId, size: usize)
    requires
        pool.wf(),
        memory::alloc_result(pool, number, size) is Some,
    ensures
        ({
            let packet = memory::alloc_result(pool, number, size)->0;
            &&& packet.in_entry(pool)
            &&& packet.len == size
            &&& packet.addr_virt == pool.virt(packet.pool_entry as int) + memory::PACKET_HEADROOM
            &&& packet.addr_phys == pool.phys_addr[packet.pool_entry as int]
                + memory::PACKET_HEADROOM
        }),
{
    let id = pool.free.last();
    assert(pool.free[pool.free.len() - 1] < pool.num_entries);
    memory::lemma_entry_in_pool(pool, id as int);
}

/// A packet that was received lies in its own buffer, if the card did not write more than fits.
pub proof fn law_received_in_buffer(
    dev: DeviceView,
    pools: Seq<PoolView>,
    queue_id: u16,
    head: RxWriteback,
)
    requires
        dev.receive_ready(pools, queue_id, head),
        dev.receive(pools, queue_id, head).result is Ok,
        head.length <= pools[dev.rx[queue_id as int].pool as int].entry_size,
    ensures
        ({
            let packet = dev.receive(pools, queue_id, head).result->Ok_0;
            &&& packet.in_entry(pools[packet.pool as int])
            &&& packet.len == head.length
        }),
{
    let q = dev.rx[queue_id as int];
    assert(q.wf(pools));
    memory::lemma_entry_in_pool(pools[q.pool as int], q.bufs[q.rx_index] as int);
}

/// Packets in different buffers of a pool have no byte in common.
pub proof fn law_packets_apart(pool: PoolView, a: Packet, b: Packet)
    requires
        pool.wf(),
        a.in_entry(pool),
        b.in_entry(pool),
        a.pool_entry != b.pool_entry,
    ensures
        a.addr_virt + a.len <= b.addr_virt || b.addr_virt + b.len <= a.addr_virt,
{
    memory::lemma_entries_apart(pool, a.pool_entry as int, b.pool_entry as int);
}

/// Freeing the packet that was allocated last undoes the allocation.
pub proof fn law_free_undoes_alloc(pools: Seq<PoolView>, pool: PoolId, size: usize)
    requires
        pool < pools.len(),
        memory::alloc_result(pools[pool as int], pool, size) is Some,
    ensures
        ({
            let packet = memory::alloc_result(pools[pool as int], pool, size)->0;
            let after = memory::taken_from(pools, pool);
            memory::freed(after, packet) == pools
        }),
{
    let packet = memory::alloc_result(pools[pool as int], pool, size)->0;
    let after = memory::taken_from(pools, pool);
    assert(pools[pool as int].free.drop_last().push(packet.pool_entry)
        =~= pools[pool as int].free);
    assert(memory::freed(after, packet) =~= pools);
}

impl DeviceView {
    /// The pools are well formed, and the transmit queues have buffers of their pools.
    pub open spec fn bufs_wf(self, pools: Seq<PoolView>) -> bool {
        &&& memory::pools_wf(pools)
        &&& forall|i: int| 0 <= i < self.tx.len() ==> (#[trigger] self.tx[i]).pool_wf(pools)
    }
}

/// Receiving keeps the device, the pools and the buffers well formed, and a packet that is received
/// is one of its pool's entries.
pub proof fn law_receive_keeps(
    dev: DeviceView,
    pools: Seq<PoolView>,
    queue_id: u16,
    head: RxWriteback,
)
    requires
        dev.receive_ready(pools, queue_id, head),
        dev.bufs_wf(pools),
    ensures
        ({
            let step = dev.receive(pools, queue_id, head);
            &&& step.dev.wf(step.pools)
            &&& step.dev.bufs_wf(step.pools)
            &&& step.result matches Ok(packet) ==> {
                &&& packet.pool < step.pools.len()
                &&& packet.pool_entry < step.pools[packet.pool as int].num_entries
            }
        }),
{
    let step = dev.receive(pools, queue_id, head);
    if step.result is Ok {
        let q = dev.rx[queue_id as int];
        assert(q.wf(pools));
        let pool = pools[q.pool as int];
        assert(pool.free[pool.free.len() - 1] < pool.num_entries);
        assert forall|i: int| 0 <= i < step.dev.rx.len() implies (#[trigger] step.dev.rx[i]).wf(
            step.pools,
        ) by {
            assert(dev.rx[i].wf(pools));
        }
        assert forall|i: int| 0 <= i < step.dev.tx.len() implies (#[trigger] step.dev.tx[i])
            .pool_wf(step.pools) by {
            assert(dev.tx[i].pool_wf(pools));
        }
    }
}

/// Sending a packet that is in a buffer of its pool keeps the device, the pools and the buffers
/// well formed.
pub proof fn law_send_keeps(
    dev: DeviceView,
    pools: Seq<PoolView>,
    queue_id: u16,
    packet: Packet,
    statuses: Seq<u32>,
)
    requires
        dev.send_ready(pools, queue_id, packet, statuses),
        dev.bufs_wf(pools),
        packet.pool_entry < pools[packet.pool as int].num_entries,
    ensures
        ({
            let step = dev.send(pools, queue_id, packet, statuses);
            &&& step.dev.wf(step.pools)
            &&& step.dev.bufs_wf(step.pools)
        }),
{
    let step = dev.send(pools, queue_id, packet, statuses);
    let i = queue_id as int;
    if i < dev.tx.len() {
        let q = dev.tx[i];
        assert(q.pool_wf(pools));
        ring::lemma_cleanable(q, statuses);
        ring::lemma_clean_index(q, q.cleanable(statuses));
        let rest = TxView { pool: Some(packet.pool), ..q.cleaned(statuses) };
        assert(rest.wf());
        if !rest.full() {
            nic::lemma_enqueued(rest, packet);
        }
        let cleaned = q.cleaned_pools(pools, statuses);
        assert(memory::pools_wf(cleaned)) by {
            assert forall|k: int| 0 <= k < cleaned.len() implies (#[trigger] cleaned[k]).wf() by {
                assert(pools[k].wf());
            }
        }
    }
    assert forall|k: int| 0 <= k < step.pools.len() implies (#[trigger] step.pools[k]).wf() by {
        assert(pools[k].wf());
    }
    assert forall|k: int| 0 <= k < step.dev.tx.len() implies (#[trigger] step.dev.tx[k]).pool_wf(
        step.pools,
    ) by {
        assert(dev.tx[k].pool_wf(pools));
    }
    assert forall|k: int| 0 <= k < step.dev.rx.len() implies (#[trigger] step.dev.rx[k]).wf(
        step.pools,
    ) by {
        assert(dev.rx[k].wf(pools));
    }
}

/// Allocating a packet keeps the device, the pools and the buffers well formed.
pub proof fn law_alloc_keeps(dev: DeviceView, pools: Seq<PoolView>, pool: PoolId, size: usize)
    requires
        dev.wf(pools),
        dev.bufs_wf(pools),
        pool < pools.len(),
        memory::alloc_result(pools[pool as int], pool, size) is Some,
    ensures
        dev.wf(memory::taken_from(pools, pool)),
        dev.bufs_wf(memory::taken_from(pools, pool)),
{
    lemma_free_changed(dev, pools, pool, pools[pool as int].free.drop_last());
}

/// Freeing a packet keeps the device, the pools and the buffers well formed.
pub proof fn law_free_keeps(dev: DeviceView, pools: Seq<PoolView>, packet: Packet)
    requires
        dev.wf(pools),
        dev.bufs_wf(pools),
        packet.live(pools),
    ensures
        dev.wf(memory::freed(pools, packet)),
        dev.bufs_wf(memory::freed(pools, packet)),
{
    let free = pools[packet.pool as int].free.push(packet.pool_entry);
    lemma_free_changed(dev, pools, packet.pool, free);
}

/// Other free buffers of a pool, all of them its entries, leave everything well formed.
proof fn lemma_free_changed(dev: DeviceView, pools: Seq<PoolView>, p: PoolId, free: Seq<usize>)
    requires
        dev.wf(pools),
        dev.bufs_wf(pools),
        p < pools.len(),
        forall|i: int|
            0 <= i < free.len() ==> (#[trigger] free[i]) < pools[p as int].num_entries || (i
                < pools[p as int].free.len() && free[i] == pools[p as int].free[i]),
    ensures
        dev.wf(pools.update(p as int, PoolView { free, ..pools[p as int] })),
        dev.bufs_wf(pools.update(p as int, PoolView { free, ..pools[p as int] })),
{
    let after = pools.update(p as int, PoolView { free, ..pools[p as int] });
    assert(pools[p as int].wf());
    assert forall|k: int| 0 <= k < after.len() implies (#[trigger] after[k]).wf() by {
        assert(pools[k].wf());
    }
    assert forall|k: int| 0 <= k < dev.rx.len() implies (#[trigger] dev.rx[k]).wf(after) by {
        assert(dev.rx[k].wf(pools));
    }
    assert forall|k: int| 0 <= k < dev.tx.len() implies (#[trigger] dev.tx[k]).pool_wf(after) by {
        assert(dev.tx[k].pool_wf(pools));
    }
}

// Rings

/// A transmit queue is full exactly if all descriptors but one are in use.
pub proof fn law_full(queue: TxView)
    requires
        queue.wf(),
    ensures
        queue.full() <==> queue.in_use() == queue.num_descriptors - 1,
{
}

/// A packet is sent exactly if, after cleaning, more than one descriptor is not in use.
pub proof fn law_send_succeeds(
    dev: DeviceView,
    pools: Seq<PoolView>,
    queue_id: u16,
    packet: Packet,
    statuses: Seq<u32>,
)
    requires
        dev.send_ready(pools, queue_id, packet, statuses),
        queue_id < dev.tx.len(),
    ensures
        ({
            let q = dev.tx[queue_id as int];
            dev.send(pools, queue_id, packet, statuses).result is Ok <==> q.in_use() - q.cleanable(
                statuses,
            ) < q.num_descriptors - 1
        }),
{
    let q = dev.tx[queue_id as int];
    ring::lemma_cleanable(q, statuses);
    ring::lemma_clean_index(q, q.cleanable(statuses));
    law_full(TxView { pool: Some(packet.pool), ..q.cleaned(statuses) });
}

/// Where `can_send` says that a packet can be sent, it is, however far the card has got.
pub proof fn law_can_send(
    dev: DeviceView,
    pools: Seq<PoolView>,
    queue_id: u16,
    packet: Packet,
    statuses: Seq<u32>,
)
    requires
        dev.wf(pools),
        queue_id < dev.tx.len(),
        !dev.tx[queue_id as int].full(),
    ensures
        dev.send(pools, queue_id, packet, statuses).result is Ok,
{
    let q = dev.tx[queue_id as int];
    ring::lemma_cleanable(q, statuses);
    ring::lemma_clean_index(q, q.cleanable(statuses));
}

/// A packet is received exactly if the queue exists, `can_receive` says so, and its pool has a free
/// buffer.
pub proof fn law_receive_succeeds(
    dev: DeviceView,
    pools: Seq<PoolView>,
    queue_id: u16,
    head: RxWriteback,
)
    ensures
        dev.receive(pools, queue_id, head).result is Ok <==> queue_id < dev.rx.len() && head.done()
            && pools[dev.rx[queue_id as int].pool as int].free.len() > 0,
{
}

/// Sending does not write to a descriptor that the card may still read: the descriptors in use are
/// those from the clean index on, and the one that is filled in is none of them.
pub proof fn law_sent_to_unused_descriptor(queue: TxView, k: int)
    requires
        queue.wf(),
        !queue.full(),
        0 <= k < queue.in_use(),
    ensures
        ring::wrapped(queue.clean_index + k, queue.num_descriptors) != queue.tx_index,
        ({
            let used = queue.descriptor(
                ring::wrapped(queue.clean_index + k, queue.num_descriptors),
            );
            let filled = queue.descriptor(queue.tx_index);
            used + DESCRIPTOR_SIZE <= filled || filled + DESCRIPTOR_SIZE <= used
        }),
{
}

/// The buffers of a transmit queue are those of the descriptors in use, in order: the packet that
/// is sent gets the descriptor after the last one in use, and its buffer comes last.
pub proof fn law_sent_buffer_is_last(queue: TxView, packet: Packet)
    requires
        queue.wf(),
        !queue.full(),
    ensures
        ({
            let after = queue.enqueued(packet);
            &&& after.wf()
            &&& after.in_use() == queue.in_use() + 1
            &&& after.bufs[queue.in_use()] == packet.pool_entry
            &&& ring::wrapped(after.clean_index + queue.in_use(), after.num_descriptors)
                == queue.tx_index
        }),
{
    nic::lemma_enqueued(queue, packet);
}

/// Receiving writes to the descriptor at the receive index only, which gets the address of the
/// buffer that the driver remembers for it; the other descriptors keep their buffers.
pub proof fn law_received_descriptor(
    dev: DeviceView,
    pools: Seq<PoolView>,
    queue_id: u16,
    head: RxWriteback,
)
    requires
        dev.receive_ready(pools, queue_id, head),
        dev.receive(pools, queue_id, head).result is Ok,
    ensures
        ({
            let step = dev.receive(pools, queue_id, head);
            let q = dev.rx[queue_id as int];
            let after = step.dev.rx[queue_id as int];
            let phys = step.pools[after.pool as int].phys_addr;
            &&& step.ops[0] == (IoOp::Store64 {
                addr: q.descriptor(q.rx_index) as usize,
                value: phys[after.bufs[q.rx_index] as int] as u64,
            })
            &&& forall|i: int|
                0 <= i < q.bufs.len() && i != q.rx_index ==> #[trigger] after.bufs[i] == q.bufs[i]
            &&& forall|k: int|
                0 <= k < step.ops.len() ==> match #[trigger] step.ops[k] {
                    IoOp::Store64 { addr, .. } => addr == q.descriptor(q.rx_index) || addr
                        == q.descriptor(q.rx_index) + 8,
                    IoOp::WriteReg { .. } => true,
                    _ => false,
                }
        }),
{
    assert(dev.rx[queue_id as int].wf(pools));
}

/// Stocking a receive queue writes the address of each buffer to its descriptor, and clears the
/// rest of the descriptor.
pub proof fn law_stocked(queue: RxView, pool: PoolView, ids: Seq<usize>, count: int, k: int)
    requires
        0 <= k < count,
    ensures
        programs::stock_ops(queue, pool, ids, count).len() == 2 * count,
        programs::stock_ops(queue, pool, ids, count)[2 * k] == (IoOp::Store64 {
            addr: queue.descriptor(k) as usize,
            value: pool.phys_addr[ids[k] as int] as u64,
        }),
        programs::stock_ops(queue, pool, ids, count)[2 * k + 1] == (IoOp::Store64 {
            addr: (queue.descriptor(k) + 8) as usize,
            value: 0,
        }),
    decreases count,
{
    lemma_stock_len(queue, pool, ids, count - 1);
    if k < count - 1 {
        law_stocked(queue, pool, ids, count - 1, k);
    }
}

proof fn lemma_stock_len(queue: RxView, pool: PoolView, ids: Seq<usize>, count: int)
    requires
        0 <= count,
    ensures
        programs::stock_ops(queue, pool, ids, count).len() == 2 * count,
    decreases count,
{
    if count > 0 {
        lemma_stock_len(queue, pool, ids, count - 1);
    }
}

/// Cleaning removes a multiple of the batch size. The card is done with each batch that is removed,
/// and not with the next one, if a whole one is left.
pub proof fn law_clean_in_batches(queue: TxView, statuses: Seq<u32>, j: int)
    requires
        queue.wf(),
        0 <= j,
    ensures
        ({
            let gone = queue.cleanable(statuses);
            let count = gone / ring::TX_CLEAN_BATCH as int;
            &&& gone % ring::TX_CLEAN_BATCH as int == 0
            &&& gone <= queue.in_use()
            &&& j < count ==> statuses[j] & IXGBE_ADVTXD_STAT_DD != 0
            &&& j == count && count < queue.batches() ==> statuses[j] & IXGBE_ADVTXD_STAT_DD == 0
        }),
{
    ring::lemma_cleanable(queue, statuses);
    lemma_done(statuses, 0, queue.batches(), j);
}

proof fn lemma_done(statuses: Seq<u32>, from: int, limit: int, j: int)
    requires
        from <= limit,
        from <= j,
    ensures
        j < ring::done_up_to(statuses, from, limit) ==> statuses[j] & IXGBE_ADVTXD_STAT_DD != 0,
        j == ring::done_up_to(statuses, from, limit) && j < limit ==> statuses[j]
            & IXGBE_ADVTXD_STAT_DD == 0,
    decreases limit - from,
{
    if from < limit && statuses[from] & IXGBE_ADVTXD_STAT_DD != 0 {
        if j > from {
            lemma_done(statuses, from + 1, limit, j);
        } else {
            ring::lemma_done_up_to(statuses, from + 1, limit);
        }
    }
}

/// Cleaning a queue with which the card has not got on changes nothing.
pub proof fn law_clean_idle(queue: TxView, pools: Seq<PoolView>, statuses: Seq<u32>)
    requires
        queue.wf(),
        queue.pool matches Some(p) ==> p < pools.len(),
        queue.batches() == 0 || statuses[0] & IXGBE_ADVTXD_STAT_DD == 0,
    ensures
        queue.cleaned(statuses) == queue,
        queue.cleaned_pools(pools, statuses) == pools,
{
    assert(queue.cleanable(statuses) == 0);
    assert(queue.bufs.skip(0) =~= queue.bufs);
    if queue.pool is Some {
        let free = pools[queue.pool->0 as int].free;
        assert(free + queue.bufs.take(0) =~= free);
    }
    assert(queue.cleaned_pools(pools, statuses) =~= pools);
}

/// The descriptor of a packet that has just been handed to the card does not say that the card is
/// done with it: the status that cleaning looks at is not set.
pub proof fn law_sent_not_done(queue: TxView, packet: Packet)
    ensures
        nic::descriptor_ops(queue, packet)[2] == (IoOp::Store32 {
            addr: (queue.descriptor(queue.tx_index) + 12) as usize,
            value: nic::tx_payload(packet.len),
        }),
        nic::tx_payload(packet.len) & IXGBE_ADVTXD_STAT_DD == 0,
{
    let len = packet.len as u32;
    assert((len << 14u32) & 1u32 == 0) by (bit_vector);
}

/// A receive descriptor that has just got a buffer does not say that the card is done with it: the
/// status that receiving looks at is not set.
pub proof fn law_refilled_not_done(queue: RxView, i: int, phys: PhysAddr, length: u16)
    ensures
        programs::refill_ops(queue, i, phys)[1] == (IoOp::Store64 {
            addr: (queue.descriptor(i) + 8) as usize,
            value: 0,
        }),
        !(RxWriteback { status_error: 0, length }).done(),
{
    assert(0u32 & 1u32 == 0) by (bit_vector);
}

/// Packets are received in the order of the ring: the packet received after `j` others is in the
/// buffer of the descriptor `j` places after the receive index, and has the length that the card
/// wrote there.
pub proof fn law_received_in_order(
    dev: DeviceView,
    pools: Seq<PoolView>,
    queue_id: u16,
    heads: Seq<RxWriteback>,
    count: int,
    j: int,
)
    requires
        dev.wf(pools),
        queue_id < dev.rx.len(),
        0 <= j < dev.receive_all(pools, queue_id, heads, count).packets.len(),
        j < dev.rx[queue_id as int].num_descriptors,
        count <= heads.len(),
    ensures
        ({
            let q = dev.rx[queue_id as int];
            let packet = dev.receive_all(pools, queue_id, heads, count).packets[j];
            &&& packet.pool == q.pool
            &&& packet.pool_entry == q.bufs[(q.rx_index + j) % q.num_descriptors]
            &&& packet.len == heads[j].length
        }),
    decreases count,
{
    let q = dev.rx[queue_id as int];
    assert(q.wf(pools));
    let batch = dev.receive_all(pools, queue_id, heads, count - 1);
    lemma_receive_all_queue(dev, pools, queue_id, heads, count - 1);
    if j < batch.packets.len() {
        law_received_in_order(dev, pools, queue_id, heads, count - 1, j);
    }
}

/// After some packets were received, the receive index is that many places further, the descriptors
/// that were not passed have the buffers that they had, and each of `heads` that was used gave one
/// packet.
proof fn lemma_receive_all_queue(
    dev: DeviceView,
    pools: Seq<PoolView>,
    queue_id: u16,
    heads: Seq<RxWriteback>,
    count: int,
)
    requires
        dev.wf(pools),
        queue_id < dev.rx.len(),
        count <= heads.len(),
    ensures
        ({
            let q = dev.rx[queue_id as int];
            let batch = dev.receive_all(pools, queue_id, heads, count);
            let after = batch.dev.rx[queue_id as int];
            let got = batch.packets.len() as int;
            &&& batch.dev.rx.len() == dev.rx.len()
            &&& after.pool == q.pool
            &&& after.num_descriptors == q.num_descriptors
            &&& after.bufs.len() == q.bufs.len()
            &&& after.rx_index == (q.rx_index + got) % q.num_descriptors
            &&& batch.error is None && count >= 0 ==> got == count
            &&& forall|k: int|
                got <= k < q.num_descriptors ==> after.bufs[#[trigger] ((q.rx_index + k)
                    % q.num_descriptors)] == q.bufs[(q.rx_index + k) % q.num_descriptors]
        }),
    decreases count,
{
    let q = dev.rx[queue_id as int];
    let n = q.num_descriptors;
    assert(q.wf(pools));
    if count <= 0 {
        ring::lemma_wrap(q.rx_index, n);
    } else {
        lemma_receive_all_queue(dev, pools, queue_id, heads, count - 1);
        let before = dev.receive_all(pools, queue_id, heads, count - 1);
        let batch = dev.receive_all(pools, queue_id, heads, count);
        let mid = before.dev.rx[queue_id as int];
        let got = before.packets.len() as int;
        let step = before.dev.receive(before.pools, queue_id, heads[count - 1]);
        if before.error is None && step.result is Ok {
            vstd::arithmetic::div_mod::lemma_add_mod_noop(q.rx_index + got, 1, n);
            vstd::arithmetic::div_mod::lemma_mod_bound(q.rx_index + got, n);
            ring::lemma_wrap((q.rx_index + got) % n + 1, n);
            assert(batch.packets.len() == got + 1);
            assert(((q.rx_index + got) % n + 1) % n == (q.rx_index + (got + 1)) % n) by {
                if n > 1 {
                    vstd::arithmetic::div_mod::lemma_small_mod(1, n as nat);
                } else {
                    vstd::arithmetic::div_mod::lemma_mod_bound(
                        (q.rx_index + got) % n + 1,
                        n,
                    );
                    vstd::arithmetic::div_mod::lemma_mod_bound(q.rx_index + (got + 1), n);
                }
            }
            assert forall|k: int| got + 1 <= k < n implies batch.dev.rx[queue_id as int]
                .bufs[#[trigger] ((q.rx_index + k) % n)] == q.bufs[(q.rx_index + k) % n] by {
                ring::lemma_wrap(q.rx_index + k, n);
                ring::lemma_wrap(q.rx_index + got, n);
            }
        }
    }
}

// Registers

/// Setting flags of a register that holds `value` sets them and leaves the other bits, and clearing
/// them clears them and leaves the other bits.
pub proof fn law_flags(value: u32, flags: u32)
    ensures
        io::modified(value, 0, flags) == value | flags,
        io::modified(value, 0, flags) & flags == flags,
        io::modified(value, 0, flags) & !flags == value & !flags,
        io::modified(value, flags, 0) == value & !flags,
        io::modified(value, flags, 0) & flags == 0,
        io::modified(value, flags, 0) & !flags == value & !flags,
{
    assert((value & !0u32) | flags == value | flags) by (bit_vector);
    assert((value | flags) & flags == flags) by (bit_vector);
    assert((value | flags) & !flags == value & !flags) by (bit_vector);
    assert((value & !flags) | 0u32 == value & !flags) by (bit_vector);
    assert((value & !flags) & flags == 0u32) by (bit_vector);
    assert((value & !flags) & !flags == value & !flags) by (bit_vector);
}

/// An address that was set is the one that is read back.
pub proof fn law_mac_round_trip(mac: Seq<u8>)
    requires
        mac.len() == 6,
    ensures
        stats::mac_bytes(stats::mac_low(mac), stats::mac_high(mac)) == mac,
{
    let low = stats::mac_low(mac);
    let high = stats::mac_high(mac);
    let (m0, m1, m2) = (mac[0] as u32, mac[1] as u32, mac[2] as u32);
    let (m3, m4, m5) = (mac[3] as u32, mac[4] as u32, mac[5] as u32);
    assert(low % 0x100 == m0 && low / 0x100 % 0x100 == m1 && low / 0x1_0000 % 0x100 == m2 && low
        / 0x100_0000 == m3 && high % 0x100 == m4 && high / 0x100 % 0x100 == m5) by (bit_vector)
        requires
            m0 < 0x100,
            m1 < 0x100,
            m2 < 0x100,
            m3 < 0x100,
            m4 < 0x100,
            m5 < 0x100,
            low == m0 + 0x100 * m1 + 0x1_0000 * m2 + 0x100_0000 * m3,
            high == m4 + 0x100 * m5,
    ;
    assert(stats::mac_bytes(low, high) =~= mac);
}

/// The two halves of a ring's address make it up.
pub proof fn law_address_halves(addr: PhysAddr)
    ensures
        programs::low_half(addr) + 0x1_0000_0000 * programs::high_half(addr) == addr,
{
}

/// Mapping an interrupt cause changes the entry of its queue and direction only; the entry then
/// holds the vector, marked as valid.
pub proof fn law_ivar(direction: u32, queue: u16, msix_vector: u32, value: u32)
    requires
        direction <= 1,
        msix_vector < 0x100,
    ensures
        programs::ivar_op(direction, queue, msix_vector) matches IoOp::ModifyReg {
            clear,
            set,
            ..
        } && {
            let shift = programs::ivar_shift(direction, queue) as u32;
            let entry = 0xFFu32 << shift;
            let after = io::modified(value, clear, set);
            &&& shift <= 24
            &&& after & !entry == value & !entry
            &&& (after >> shift) & 0xFF == msix_vector | IXGBE_IVAR_ALLOC_VAL
        },
{
    let shift = programs::ivar_shift(direction, queue) as u32;
    assert(shift == 0 || shift == 8 || shift == 16 || shift == 24);
    let entry = 0xFFu32 << shift;
    let set = (msix_vector | 0x80u32) << shift;
    let after = (value & !entry) | set;
    assert(after & !entry == value & !entry && (after >> shift) & 0xFF == msix_vector | 0x80)
        by (bit_vector)
        requires
            shift == 0 || shift == 8 || shift == 16 || shift == 24,
            msix_vector < 0x100,
            entry == 0xFFu32 << shift,
            set == (msix_vector | 0x80u32) << shift,
            after == (value & !entry) | set,
    ;
}

/// Enabling the interrupt of a queue, by MSI or by MSI-X, sets its bit of the interrupt mask last,
/// and disabling it clears that bit first. Disabling undoes enabling, where the interrupt was not
/// enabled before.
pub proof fn law_interrupt_bit(queue_id: u16, itr_rate: u32, mask: u32)
    requires
        mask & programs::queue_bit(queue_id) == 0,
    ensures
        ({
            let bit = programs::queue_bit(queue_id);
            let enable = programs::set_flags(IXGBE_EIMS, bit);
            let disable = programs::clear_flags(IXGBE_EIMS, bit);
            &&& programs::enable_msi_ops(queue_id, itr_rate).last() == enable
            &&& programs::enable_msix_ops(queue_id, itr_rate).last() == enable
            &&& programs::disable_interrupt_ops(queue_id).first() == disable
            &&& io::modified(io::modified(mask, 0, bit), bit, 0) == mask
        }),
{
    let bit = programs::queue_bit(queue_id);
    let set = (mask & !0u32) | bit;
    assert((set & !bit) | 0u32 == mask) by (bit_vector)
        requires
            mask & bit == 0,
            set == (mask & !0u32) | bit,
    ;
}

/// Whatever the link control register holds, initializing the link leaves it at 10 Gb/s serial over
/// XAUI, with negotiation restarted, and does not touch its other bits.
pub proof fn law_init_link(value: u32)
    ensures
        ({
            let first = io::modified(value, IXGBE_AUTOC_LMS_MASK, IXGBE_AUTOC_LMS_10G_SERIAL);
            let second = io::modified(first, IXGBE_AUTOC_10G_PMA_PMD_MASK, IXGBE_AUTOC_10G_XAUI);
            let third = io::modified(second, 0, IXGBE_AUTOC_AN_RESTART);
            &&& programs::init_link_ops() == seq![
                IoOp::ModifyReg {
                    reg: IXGBE_AUTOC,
                    clear: IXGBE_AUTOC_LMS_MASK,
                    set: IXGBE_AUTOC_LMS_10G_SERIAL,
                },
                IoOp::ModifyReg {
                    reg: IXGBE_AUTOC,
                    clear: IXGBE_AUTOC_10G_PMA_PMD_MASK,
                    set: IXGBE_AUTOC_10G_XAUI,
                },
                programs::set_flags(IXGBE_AUTOC, IXGBE_AUTOC_AN_RESTART),
            ]
            &&& third & IXGBE_AUTOC_LMS_MASK == IXGBE_AUTOC_LMS_10G_SERIAL
            &&& third & IXGBE_AUTOC_10G_PMA_PMD_MASK == IXGBE_AUTOC_10G_XAUI
            &&& third & IXGBE_AUTOC_AN_RESTART == IXGBE_AUTOC_AN_RESTART
            &&& third & !(IXGBE_AUTOC_LMS_MASK | IXGBE_AUTOC_10G_PMA_PMD_MASK
                | IXGBE_AUTOC_AN_RESTART) == value & !(IXGBE_AUTOC_LMS_MASK
                | IXGBE_AUTOC_10G_PMA_PMD_MASK | IXGBE_AUTOC_AN_RESTART)
        }),
{
    let first = (value & !0xE000u32) | 0x6000u32;
    let second = (first & !0x180u32) | 0u32;
    let third = (second & !0u32) | 0x1000u32;
    assert(third & 0xE000 == 0x6000 && third & 0x180 == 0 && third & 0x1000 == 0x1000 && third & !(
    0xE000u32 | 0x180u32 | 0x1000u32) == value & !(0xE000u32 | 0x180u32 | 0x1000u32))
        by (bit_vector)
        requires
            first == (value & !0xE000u32) | 0x6000u32,
            second == (first & !0x180u32) | 0u32,
            third == (second & !0u32) | 0x1000u32,
    ;
}

/// Turning promiscuous mode off undoes turning it on, where it was off.
pub proof fn law_promisc(filters: u32)
    requires
        filters & (IXGBE_FCTRL_MPE | IXGBE_FCTRL_UPE) == 0,
    ensures
        programs::promisc_op(true) matches IoOp::ModifyReg { clear: c1, set: s1, .. }
            && programs::promisc_op(false) matches IoOp::ModifyReg { clear: c2, set: s2, .. } && {
            let on = io::modified(filters, c1, s1);
            &&& on & (IXGBE_FCTRL_MPE | IXGBE_FCTRL_UPE) == IXGBE_FCTRL_MPE | IXGBE_FCTRL_UPE
            &&& io::modified(on, c2, s2) == filters
        },
{
    let on = (filters & !0u32) | (0x100u32 | 0x200u32);
    assert(on & (0x100u32 | 0x200u32) == 0x100u32 | 0x200u32 && (on & !(0x100u32 | 0x200u32)) | 0u32
        == filters) by (bit_vector)
        requires
            filters & (0x100u32 | 0x200u32) == 0,
            on == (filters & !0u32) | (0x100u32 | 0x200u32),
    ;
}

/// The words that sending writes to a descriptor are the fields of an advanced transmit descriptor
/// for the same packet, where its length fits the length field.
pub proof fn law_descriptor_fields(len: u16, desc: AdvancedTxDescriptor)
    requires
        desc.data_len == len,
        desc.dtyp_mac_rsv == TX_DTYP_ADV,
        desc.dcmd == TX_CMD_DEXT | TX_CMD_RS | TX_CMD_IFCS | TX_CMD_EOP,
        desc.paylen_popts_cc_idx_sta == len * 0x4000,
    ensures
        nic::tx_command(len as usize) + 0x1_0000_0000 * nic::tx_payload(len as usize)
            == desc.upper(),
{
    let wide = len as u32;
    assert(0x20u8 | 0x08u8 | 0x02u8 | 0x01u8 == 0x2b) by (bit_vector);
    assert(0x0100_0000u32 | 0x0800_0000u32 | 0x0200_0000u32 | 0x2000_0000u32 | 0x0030_0000u32
        | wide == 0x2b30_0000u32 + wide && wide << 14u32 == wide * 0x4000) by (bit_vector)
        requires
            wide <= 0xffff,
    ;
}

/// The operations access no register outside the part of the register space that must be mapped.
pub open spec fn mapped(ops: Seq<IoOp>) -> bool {
    forall|i: int|
        0 <= i < ops.len() ==> ((#[trigger] ops[i]).register() matches Some(reg) ==> reg + 4
            <= MIN_WINDOW)
}

proof fn lemma_mapped_concat(a: Seq<IoOp>, b: Seq<IoOp>)
    requires
        mapped(a),
        mapped(b),
    ensures
        mapped(a + b),
{
}

/// Initializing a device accesses no register outside the part of the register space that must be
/// mapped, however many queues it has.
pub proof fn law_init_mapped(rx: Seq<RxView>, tx: Seq<TxView>, pools: Seq<PoolView>)
    requires
        rx.len() <= MAX_QUEUES,
        tx.len() <= MAX_QUEUES,
    ensures
        mapped(programs::init_ops(rx, tx, pools)),
{
    lemma_rx_mapped(rx, pools, rx.len() as int);
    lemma_tx_mapped(tx, tx.len() as int);
    assert(mapped(programs::reset_ops()));
    assert(mapped(programs::init_link_ops()));
    assert(mapped(programs::reset_stats_ops()));
    assert(mapped(programs::rx_before_ops()));
    assert(mapped(programs::rx_after_ops(rx.len() as int)));
    assert(mapped(programs::tx_before_ops()));
    assert(mapped(programs::init_rx_ops(rx)));
    assert(mapped(programs::init_tx_ops(tx)));
    assert(mapped(seq![programs::promisc_op(true)]));
    assert(mapped(programs::wait_for_link_ops()));
}

proof fn lemma_rx_mapped(rx: Seq<RxView>, pools: Seq<PoolView>, count: int)
    requires
        count <= rx.len() <= MAX_QUEUES,
    ensures
        mapped(programs::rx_queues_ops(rx, count)),
        mapped(programs::start_rx_ops(rx, pools, count)),
    decreases count,
{
    if count > 0 {
        lemma_rx_mapped(rx, pools, count - 1);
        let q = rx[count - 1];
        let pool = pools[q.pool as int];
        lemma_stock_mapped(q, pool, q.bufs, q.num_descriptors);
        assert(mapped(programs::rx_queue_ops(count - 1, q.descriptors as usize, q.ring_phys)));
        assert(mapped(programs::enable_rx_ops(count - 1, q.num_descriptors)));
        lemma_mapped_concat(
            programs::stock_ops(q, pool, q.bufs, q.num_descriptors),
            programs::enable_rx_ops(count - 1, q.num_descriptors),
        );
    }
}

proof fn lemma_stock_mapped(queue: RxView, pool: PoolView, ids: Seq<usize>, count: int)
    ensures
        mapped(programs::stock_ops(queue, pool, ids, count)),
    decreases count,
{
    if count > 0 {
        lemma_stock_mapped(queue, pool, ids, count - 1);
    }
}

proof fn lemma_tx_mapped(tx: Seq<TxView>, count: int)
    requires
        count <= tx.len() <= MAX_QUEUES,
    ensures
        mapped(programs::tx_queues_ops(tx, count)),
        mapped(programs::start_tx_ops(count)),
    decreases count,
{
    if count > 0 {
        lemma_tx_mapped(tx, count - 1);
        let q = tx[count - 1];
        assert(mapped(programs::tx_queue_ops(count - 1, q.descriptors as usize, q.ring_phys)));
        assert(mapped(programs::enable_tx_ops(count - 1)));
    }
}

// Sequences

/// A read-modify-write operation reads its register, then writes the changed value to it, and is
/// complete.
pub proof fn law_modify(seq: SequenceView, value: u32)
    requires
        seq.wf(),
        seq.phase == Phase::Issue,
        seq.pos < seq.ops.len(),
        seq.ops[seq.pos] is ModifyReg,
    ensures
        seq.ops[seq.pos] matches IoOp::ModifyReg { reg, clear, set } && {
            let (reading, read) = seq.next(Event::Done);
            let (after, write) = reading.next(Event::Value { value });
            &&& read == Command::ReadReg { reg }
            &&& write == Command::WriteReg { reg, value: io::modified(value, clear, set) }
            &&& after == seq.at(seq.pos + 1)
        },
{
}

/// An operation that waits for bits of a register looks at the register until they are as wanted:
/// if they are, it is complete; if not, the register is looked at again, after a pause.
pub proof fn law_wait(seq: SequenceView, value: u32)
    requires
        seq.wf(),
        seq.phase == Phase::Value,
        seq.ops[seq.pos] is WaitSet || seq.ops[seq.pos] is WaitClear,
    ensures
        ({
            let (reg, satisfied) = match seq.ops[seq.pos] {
                IoOp::WaitSet { reg, mask } => (reg, value & mask == mask),
                IoOp::WaitClear { reg, mask } => (reg, value & mask == 0),
                _ => (0u32, false),
            };
            let (after, command) = seq.next(Event::Value { value });
            if satisfied {
                (after, command) == seq.at(seq.pos + 1).next(Event::Done)
            } else {
                &&& command == Command::Sleep { millis: io::POLL_MILLIS }
                &&& after.next(Event::Done) == (seq, Command::ReadReg { reg })
            }
        }),
{
}

/// Waiting for the link ends once the link is up, or once the time is over; otherwise the link
/// status is looked at again.
pub proof fn law_wait_link(seq: SequenceView, value: u32, secs: u64)
    requires
        seq.wf(),
        seq.phase matches Phase::LinkValue { since } && secs >= since,
    ensures
        seq.phase matches Phase::LinkValue { since } && {
            let (after, command) = seq.next(Event::Value { value });
            if io::speed_of(value) != 0 {
                (after, command) == seq.at(seq.pos + 1).next(Event::Done)
            } else {
                &&& command == Command::ReadClock
                &&& after.next(Event::Clock { secs }) == if secs - since < io::LINK_TIMEOUT_SECS {
                    (seq, Command::ReadReg { reg: IXGBE_LINKS })
                } else {
                    seq.at(seq.pos + 1).next(Event::Done)
                }
            }
        },
{
}

/// A sequence goes through its operations in order: a step ends at most one operation and begins at
/// most one, goes back to none, and does not change the list. The sequence is finished exactly if
/// no operation is left, and stays so.
pub proof fn law_in_order(seq: SequenceView, event: Event)
    requires
        seq.wf(),
        seq.expects(event),
    ensures
        ({
            let (after, command) = seq.next(event);
            &&& after.wf()
            &&& after.ops == seq.ops
            &&& seq.pos <= after.pos <= seq.pos + 2
            &&& seq.phase == Phase::Issue ==> after.pos <= seq.pos + 1
            &&& seq.phase == Phase::Issue ==> (command == Command::Finished <==> seq.pos
                == seq.ops.len())
            &&& command == Command::Finished ==> {
                &&& after == seq.at(seq.ops.len() as int)
                &&& after.next(Event::Done) == (after, Command::Finished)
            }
        }),
{
}

} // verus!
