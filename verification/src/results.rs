//! What the functions of the driver come to, written out in numbers and in the fields of their
//! arguments.

use crate::descriptor::AdvancedTxDescriptor;
use crate::hal::IxgbeHal;
use crate::init;
use crate::interrupts::Interrupts;
use crate::io::IoOp;
use crate::ixgbe::{DeviceView, IxgbeDevice};
use crate::memory;
use crate::memory::{MemPool, Packet, PoolId, PoolView, VirtAddr};
use crate::nic;
use crate::nic::TxBuffer;
use crate::programs;
use crate::ring;
use crate::ring::{IxgbeRxQueue, IxgbeTxQueue, RxView, RxWriteback, TxView};
use crate::stats;
use crate::stats::Counters;
use crate::IxgbeError;
use vstd::prelude::*;

verus! {

// Values

/// The mathematical value of a pool has the fields of the pool.
pub proof fn law_pool_value(pool: MemPool)
    ensures
        pool@.base_addr == pool.base_addr,
        pool@.num_entries == pool.num_entries,
        pool@.entry_size == pool.entry_size,
        pool@.phys_addr == pool.phys_addr@,
        pool@.free == pool.free_stack@,
{
}

/// The values of the pools of a list are those of the pools, in order.
pub proof fn law_pool_values(pools: Seq<MemPool>, i: int)
    ensures
        memory::pool_views(pools).len() == pools.len(),
        0 <= i < pools.len() ==> memory::pool_views(pools)[i] == pools[i]@,
{
}

/// The mathematical value of a receive queue has the fields of the queue.
pub proof fn law_rx_value(queue: IxgbeRxQueue)
    ensures
        queue@.descriptors == queue.descriptors,
        queue@.ring_phys == queue.ring_phys,
        queue@.num_descriptors == queue.num_descriptors,
        queue@.pool == queue.pool,
        queue@.bufs == queue.bufs_in_use@,
        queue@.rx_index == queue.rx_index,
{
}

/// The mathematical value of a transmit queue has the fields of the queue.
pub proof fn law_tx_value(queue: IxgbeTxQueue)
    ensures
        queue@.descriptors == queue.descriptors,
        queue@.ring_phys == queue.ring_phys,
        queue@.num_descriptors == queue.num_descriptors,
        queue@.pool == queue.pool,
        queue@.bufs == queue.bufs_in_use@,
        queue@.clean_index == queue.clean_index,
        queue@.tx_index == queue.tx_index,
{
}

/// The mathematical value of a device has the fields of the device, and the values of its queues in
/// order.
pub proof fn law_device_value<H: IxgbeHal>(dev: IxgbeDevice<H>, i: int)
    ensures
        dev@.addr == dev.addr,
        dev@.len == dev.len,
        dev@.num_rx_queues == dev.num_rx_queues,
        dev@.num_tx_queues == dev.num_tx_queues,
        dev@.interrupts == dev.interrupts,
        dev@.rx.len() == dev.rx_queues@.len(),
        dev@.tx.len() == dev.tx_queues@.len(),
        0 <= i < dev@.rx.len() ==> dev@.rx[i] == dev.rx_queues@[i]@,
        0 <= i < dev@.tx.len() ==> dev@.tx[i] == dev.tx_queues@[i]@,
{
}

// Pools and packets

/// A pool for which no entry size is asked has entries of 2048 bytes, any other those that it is
/// asked for.
pub proof fn law_entry_size(size: usize)
    ensures
        size == 0 ==> memory::entry_size_for(size) == 2048,
        size > 0 ==> memory::entry_size_for(size) == size,
{
}

/// The entries of a pool lie one behind the other, from its base address on.
pub proof fn law_entries_in_a_row(pool: PoolView, id: int)
    ensures
        pool.virt(0) == pool.base_addr,
        pool.virt(id + 1) == pool.virt(id) + pool.entry_size,
{
    assert((id + 1) * pool.entry_size == id * pool.entry_size + pool.entry_size)
        by (nonlinear_arith);
}

/// The memory of a pool is what the hardware layer returned for all its bytes, and the physical
/// address of an entry is what the hardware layer returned for the entry's own virtual address.
pub proof fn law_entry_addresses<H: IxgbeHal>(pool: PoolView, id: int)
    requires
        memory::backed_by::<H>(pool),
        0 <= id < pool.num_entries,
    ensures
        call_ensures(
            H::mmio_virt_to_phys,
            ((pool.base_addr + id * pool.entry_size) as usize, pool.entry_size as usize),
            pool.phys_addr[id],
        ),
        exists|phys: usize| #[trigger]
            call_ensures(
                H::dma_alloc,
                ((pool.num_entries * pool.entry_size) as usize,),
                (phys, pool.base_addr as usize),
            ),
{
    assert(pool.phys_addr[id] == pool.phys_addr[id]);
}

/// A packet can be allocated exactly if a buffer is free and the data fit behind 32 bytes of
/// headroom. It gets the buffer that became free last, in both address spaces.
pub proof fn law_allocated(pool: PoolView, number: PoolId, size: usize)
    requires
        pool.wf(),
    ensures
        memory::alloc_result(pool, number, size) is Some <==> pool.free.len() > 0 && size + 32
            <= pool.entry_size,
        memory::alloc_result(pool, number, size) matches Some(packet) ==> {
            let id = pool.free[pool.free.len() - 1];
            &&& packet.pool_entry == id
            &&& packet.pool == number
            &&& packet.len == size
            &&& packet.addr_virt == pool.base_addr + id * pool.entry_size + 32
            &&& packet.addr_phys == pool.phys_addr[id as int] + 32
        },
{
    if memory::alloc_result(pool, number, size) is Some {
        let id = pool.free[pool.free.len() - 1];
        memory::lemma_entry_in_pool(pool, id as int);
        assert(pool.phys_addr[id as int] + pool.entry_size <= usize::MAX);
    }
}

/// Taking a buffer from a pool shortens the stack of its free buffers by the last one, and changes
/// nothing else of any pool.
pub proof fn law_taken_from(pools: Seq<PoolView>, pool: PoolId, k: int)
    requires
        pool < pools.len(),
        pools[pool as int].free.len() > 0,
    ensures
        ({
            let after = memory::taken_from(pools, pool);
            let (old_pool, new_pool) = (pools[pool as int], after[pool as int]);
            &&& after.len() == pools.len()
            &&& 0 <= k < pools.len() && k != pool ==> after[k] == pools[k]
            &&& new_pool.free.len() == old_pool.free.len() - 1
            &&& 0 <= k < new_pool.free.len() ==> new_pool.free[k] == old_pool.free[k]
            &&& new_pool.base_addr == old_pool.base_addr
            &&& new_pool.num_entries == old_pool.num_entries
            &&& new_pool.entry_size == old_pool.entry_size
            &&& new_pool.phys_addr == old_pool.phys_addr
        }),
{
}

/// Freeing a packet puts its buffer on the stack of the free buffers of its pool, and changes
/// nothing else of any pool.
pub proof fn law_freed(pools: Seq<PoolView>, packet: Packet, k: int)
    requires
        packet.pool < pools.len(),
    ensures
        ({
            let after = memory::freed(pools, packet);
            let (old_pool, new_pool) = (pools[packet.pool as int], after[packet.pool as int]);
            &&& after.len() == pools.len()
            &&& 0 <= k < pools.len() && k != packet.pool ==> after[k] == pools[k]
            &&& new_pool.free.len() == old_pool.free.len() + 1
            &&& new_pool.free[old_pool.free.len() as int] == packet.pool_entry
            &&& 0 <= k < old_pool.free.len() ==> new_pool.free[k] == old_pool.free[k]
            &&& new_pool.base_addr == old_pool.base_addr
            &&& new_pool.num_entries == old_pool.num_entries
            &&& new_pool.entry_size == old_pool.entry_size
            &&& new_pool.phys_addr == old_pool.phys_addr
        }),
{
}

/// The data of a packet are the bytes from its virtual address on.
pub proof fn law_packet_bytes(packet: Packet, bytes: Seq<u8>, base: VirtAddr, k: int)
    requires
        base <= packet.addr_virt,
        packet.addr_virt - base + packet.len <= bytes.len(),
    ensures
        packet.bytes(bytes, base).len() == packet.len,
        0 <= k < packet.len ==> packet.bytes(bytes, base)[k] == bytes[packet.addr_virt - base + k],
{
}

// Rings

/// A receive descriptor is done if bit 0 of its status is set, and ends a packet if bit 1 is.
pub proof fn law_receive_status(head: RxWriteback)
    ensures
        head.done() <==> head.status_error % 2 == 1,
        head.end_of_packet() <==> head.status_error / 2 % 2 == 1,
{
    let status = head.status_error;
    assert((status & 1 != 0 <==> status % 2 == 1) && (status & 2 != 0 <==> status / 2 % 2 == 1))
        by (bit_vector);
}

/// The descriptors of a ring are 16 bytes apart, and the index after the last one is the first.
pub proof fn law_ring_layout(rx: RxView, tx: TxView, i: int)
    ensures
        rx.descriptor(i) == rx.descriptors + 16 * i,
        tx.descriptor(i) == tx.descriptors + 16 * i,
        0 <= i < rx.num_descriptors ==> rx.after(i) == (i + 1) % rx.num_descriptors,
        0 <= i < tx.num_descriptors ==> tx.after(i) == (i + 1) % tx.num_descriptors,
{
    if 0 <= i < rx.num_descriptors {
        ring::lemma_wrap(i + 1, rx.num_descriptors);
    }
    if 0 <= i < tx.num_descriptors {
        ring::lemma_wrap(i + 1, tx.num_descriptors);
    }
}

/// Going on from the clean index by the number of descriptors in use leads to the transmit index.
/// They make up whole batches of 32, and a rest; a batch ends 32 places after the one before it.
pub proof fn law_in_use(queue: TxView, j: int)
    requires
        queue.wf(),
    ensures
        0 <= queue.in_use() < queue.num_descriptors,
        (queue.clean_index + queue.in_use()) % queue.num_descriptors == queue.tx_index,
        queue.bufs.len() == queue.in_use(),
        32 * queue.batches() <= queue.in_use() < 32 * queue.batches() + 32,
        0 <= j < queue.batches() ==> queue.batch_end(j) == (queue.clean_index + 32 * j + 31)
            % queue.num_descriptors,
{
    ring::lemma_wrap(queue.clean_index + queue.in_use(), queue.num_descriptors);
    if 0 <= j < queue.batches() {
        ring::lemma_wrap(queue.clean_index + 32 * j + 31, queue.num_descriptors);
    }
}

/// A transmit queue is full if all its descriptors but one are in use. It takes a packet of its own
/// pool, and of any pool if it has no buffer.
pub proof fn law_full_and_takes(queue: TxView, packet: Packet)
    requires
        queue.wf(),
    ensures
        queue.full() <==> queue.bufs.len() == queue.num_descriptors - 1,
        queue.takes(packet) <==> queue.bufs.len() == 0 || queue.pool == Some(packet.pool),
{
}

/// A ring size is a power of two if it has one bit.
pub proof fn law_ring_size(n: usize)
    requires
        n > 0,
    ensures
        ring::is_power_of_two(n as int) <==> n & ((n - 1) as usize) == 0,
{
    ring::lemma_power_of_two_bits(n);
}

/// Cleaning removes the first whole batches of 32 buffers whose status word has bit 0 set, up to
/// the first that has not, and no more.
pub proof fn law_cleanable(queue: TxView, statuses: Seq<u32>, count: int)
    requires
        queue.wf(),
        0 <= count,
        32 * count <= queue.in_use(),
        forall|j: int| 0 <= j < count ==> #[trigger] statuses[j] % 2 == 1,
        32 * count + 32 <= queue.in_use() ==> statuses[count] % 2 == 0,
    ensures
        queue.cleanable(statuses) == 32 * count,
{
    lemma_done_count(statuses, 0, queue.batches(), count);
}

proof fn lemma_done_count(statuses: Seq<u32>, from: int, limit: int, count: int)
    requires
        0 <= from <= count <= limit,
        forall|j: int| 0 <= j < count ==> #[trigger] statuses[j] % 2 == 1,
        count < limit ==> statuses[count] % 2 == 0,
    ensures
        ring::done_up_to(statuses, from, limit) == count,
    decreases count - from,
{
    if from < limit {
        let status = statuses[from];
        assert(status & 1 == 0 <==> status % 2 == 0) by (bit_vector);
        if from < count {
            lemma_done_count(statuses, from + 1, limit, count);
        }
    }
}

/// What is left of a transmit queue after cleaning: the first buffers are gone, in order, and the
/// clean index has passed their descriptors. Nothing else of the queue changes.
pub proof fn law_cleaned(queue: TxView, statuses: Seq<u32>, k: int)
    requires
        queue.wf(),
    ensures
        ({
            let gone = queue.cleanable(statuses);
            let after = queue.cleaned(statuses);
            &&& 0 <= gone <= queue.bufs.len()
            &&& after.clean_index == (queue.clean_index + gone) % queue.num_descriptors
            &&& after.bufs.len() == queue.bufs.len() - gone
            &&& 0 <= k < after.bufs.len() ==> after.bufs[k] == queue.bufs[gone + k]
            &&& after.tx_index == queue.tx_index
            &&& after.pool == queue.pool
            &&& after.descriptors == queue.descriptors
            &&& after.ring_phys == queue.ring_phys
            &&& after.num_descriptors == queue.num_descriptors
        }),
{
    let gone = queue.cleanable(statuses);
    ring::lemma_cleanable(queue, statuses);
    ring::lemma_wrap(queue.clean_index + gone, queue.num_descriptors);
}

/// The buffers that cleaning removes from a transmit queue go on top of the free buffers of its
/// pool, in the order in which they were sent. Nothing else of any pool changes.
pub proof fn law_cleaned_pools(queue: TxView, pools: Seq<PoolView>, statuses: Seq<u32>, k: int)
    requires
        queue.wf(),
        queue.pool matches Some(p) ==> p < pools.len(),
    ensures
        ({
            let gone = queue.cleanable(statuses);
            let after = queue.cleaned_pools(pools, statuses);
            &&& after.len() == pools.len()
            &&& queue.pool is None ==> after == pools
            &&& 0 <= k < pools.len() && queue.pool != Some(k as usize) ==> after[k] == pools[k]
            &&& queue.pool matches Some(p) ==> {
                let (old_pool, new_pool) = (pools[p as int], after[p as int]);
                let count = old_pool.free.len();
                &&& new_pool.free.len() == count + gone
                &&& 0 <= k < count ==> new_pool.free[k] == old_pool.free[k]
                &&& 0 <= k < gone ==> new_pool.free[count + k] == queue.bufs[k]
                &&& new_pool.base_addr == old_pool.base_addr
                &&& new_pool.num_entries == old_pool.num_entries
                &&& new_pool.entry_size == old_pool.entry_size
                &&& new_pool.phys_addr == old_pool.phys_addr
            }
        }),
{
    ring::lemma_cleanable(queue, statuses);
}

// Receiving

/// A receive fails on a queue that does not exist, before the card has set bit 0 of the status, and
/// without a free buffer, in this order, and then changes nothing.
pub proof fn law_receive_fails(
    dev: DeviceView,
    pools: Seq<PoolView>,
    queue_id: u16,
    head: RxWriteback,
)
    ensures
        ({
            let step = dev.receive(pools, queue_id, head);
            let pool = pools[dev.rx[queue_id as int].pool as int];
            &&& step.result == (if queue_id >= dev.rx.len() {
                Err(IxgbeError::InvalidQueue)
            } else if head.status_error % 2 == 0 {
                Err(IxgbeError::NotReady)
            } else if pool.free.len() == 0 {
                Err(IxgbeError::NoMemory)
            } else {
                step.result
            })
            &&& queue_id < dev.rx.len() && head.status_error % 2 == 1 && pool.free.len() > 0
                ==> step.result is Ok
            &&& step.result is Err ==> step.dev == dev && step.pools == pools && step.ops.len() == 0
        }),
{
    law_receive_status(head);
}

/// A received packet is the whole buffer that the descriptor at the receive index had, in both
/// address spaces, with the length that the card wrote.
pub proof fn law_received_packet(
    dev: DeviceView,
    pools: Seq<PoolView>,
    queue_id: u16,
    head: RxWriteback,
)
    requires
        dev.receive_ready(pools, queue_id, head),
        dev.receive(pools, queue_id, head).result is Ok,
    ensures
        ({
            let packet = dev.receive(pools, queue_id, head).result->Ok_0;
            let q = dev.rx[queue_id as int];
            let pool = pools[q.pool as int];
            let id = q.bufs[q.rx_index];
            &&& packet.addr_virt == pool.base_addr + id * pool.entry_size
            &&& packet.addr_phys == pool.phys_addr[id as int]
            &&& packet.len == head.length
            &&& packet.pool == q.pool
            &&& packet.pool_entry == id
        }),
{
    let q = dev.rx[queue_id as int];
    assert(q.wf(pools));
    memory::lemma_entry_in_pool(pools[q.pool as int], q.bufs[q.rx_index] as int);
}

/// What a receive does to the card: the descriptor at the receive index gets the physical address
/// of the buffer that became free last, its other half is cleared, and the tail of the queue is set
/// to the index.
pub proof fn law_receive_ops(
    dev: DeviceView,
    pools: Seq<PoolView>,
    queue_id: u16,
    head: RxWriteback,
)
    requires
        dev.receive_ready(pools, queue_id, head),
        dev.receive(pools, queue_id, head).result is Ok,
    ensures
        ({
            let q = dev.rx[queue_id as int];
            let pool = pools[q.pool as int];
            let fresh = pool.free[pool.free.len() - 1];
            dev.receive(pools, queue_id, head).ops == seq![
                IoOp::Store64 {
                    addr: (q.descriptors + 16 * q.rx_index) as usize,
                    value: pool.phys_addr[fresh as int] as u64,
                },
                IoOp::Store64 { addr: (q.descriptors + 16 * q.rx_index + 8) as usize, value: 0 },
                IoOp::WriteReg {
                    reg: (0x1018 + 0x40 * queue_id) as u32,
                    value: q.rx_index as u32,
                },
            ]
        }),
{
    let q = dev.rx[queue_id as int];
    let pool = pools[q.pool as int];
    let fresh = pool.free[pool.free.len() - 1];
    assert(q.wf(pools));
    assert(dev.receive(pools, queue_id, head).ops =~= seq![
        IoOp::Store64 {
            addr: (q.descriptors + 16 * q.rx_index) as usize,
            value: pool.phys_addr[fresh as int] as u64,
        },
        IoOp::Store64 { addr: (q.descriptors + 16 * q.rx_index + 8) as usize, value: 0 },
        IoOp::WriteReg { reg: (0x1018 + 0x40 * queue_id) as u32, value: q.rx_index as u32 },
    ]);
}

/// What a receive does to the device and the pools: the buffer that became free last takes the
/// place of the one that left, the receive index moves on by one, and nothing else changes.
pub proof fn law_receive_state(
    dev: DeviceView,
    pools: Seq<PoolView>,
    queue_id: u16,
    head: RxWriteback,
    k: int,
)
    requires
        dev.receive_ready(pools, queue_id, head),
        dev.receive(pools, queue_id, head).result is Ok,
    ensures
        ({
            let step = dev.receive(pools, queue_id, head);
            let i = queue_id as int;
            let (q, after) = (dev.rx[i], step.dev.rx[i]);
            let pool = pools[q.pool as int];
            &&& step.dev.rx.len() == dev.rx.len()
            &&& 0 <= k < dev.rx.len() && k != i ==> step.dev.rx[k] == dev.rx[k]
            &&& step.dev.tx == dev.tx
            &&& step.dev.addr == dev.addr
            &&& step.dev.len == dev.len
            &&& step.dev.num_rx_queues == dev.num_rx_queues
            &&& step.dev.num_tx_queues == dev.num_tx_queues
            &&& step.dev.interrupts == dev.interrupts
            &&& after.bufs.len() == q.bufs.len()
            &&& after.bufs[q.rx_index] == pool.free[pool.free.len() - 1]
            &&& 0 <= k < q.bufs.len() && k != q.rx_index ==> after.bufs[k] == q.bufs[k]
            &&& after.rx_index == (q.rx_index + 1) % q.num_descriptors
            &&& after.pool == q.pool
            &&& after.descriptors == q.descriptors
            &&& after.ring_phys == q.ring_phys
            &&& after.num_descriptors == q.num_descriptors
            &&& step.pools == memory::taken_from(pools, q.pool)
        }),
{
    let q = dev.rx[queue_id as int];
    assert(q.wf(pools));
    ring::lemma_wrap(q.rx_index + 1, q.num_descriptors);
}

/// Receiving several packets is receiving one after the other: one more is the packets before and,
/// if none of those failed, one receive from where they left off.
pub proof fn law_receive_one_more(
    dev: DeviceView,
    pools: Seq<PoolView>,
    queue_id: u16,
    heads: Seq<RxWriteback>,
    count: int,
)
    requires
        0 <= count,
    ensures
        ({
            let before = dev.receive_all(pools, queue_id, heads, count);
            let after = dev.receive_all(pools, queue_id, heads, count + 1);
            let step = before.dev.receive(before.pools, queue_id, heads[count]);
            &&& before.error is Some ==> after == before
            &&& before.error is None ==> {
                &&& after.dev == step.dev
                &&& after.pools == step.pools
                &&& after.ops == before.ops + step.ops
                &&& step.result matches Ok(packet) ==> after.packets == before.packets.push(packet)
                    && after.error is None
                &&& step.result matches Err(e) ==> after.packets == before.packets && after.error
                    == Some(e)
            }
        }),
        dev.receive_all(pools, queue_id, heads, 0).packets.len() == 0,
        dev.receive_all(pools, queue_id, heads, 0).error is None,
        dev.receive_all(pools, queue_id, heads, 0).dev == dev,
        dev.receive_all(pools, queue_id, heads, 0).pools == pools,
        dev.receive_all(pools, queue_id, heads, 0).ops.len() == 0,
{
    let before = dev.receive_all(pools, queue_id, heads, count);
    let step = before.dev.receive(before.pools, queue_id, heads[count]);
    if step.result is Err {
        assert(before.ops + step.ops =~= before.ops);
    }
}

/// As many packets are received as are asked for, as the card has filled one after the other, and
/// as the pool has free buffers for, whichever is least; the first reason to stop early is the
/// error.
pub proof fn law_receive_count(
    dev: DeviceView,
    pools: Seq<PoolView>,
    queue_id: u16,
    heads: Seq<RxWriteback>,
    count: int,
    j: int,
)
    requires
        dev.wf(pools),
        queue_id < dev.rx.len(),
        0 <= count <= heads.len(),
    ensures
        ({
            let batch = dev.receive_all(pools, queue_id, heads, count);
            let got = batch.packets.len() as int;
            let p = dev.rx[queue_id as int].pool as int;
            let free = pools[p].free;
            &&& got <= count
            &&& got <= free.len()
            &&& 0 <= j < got ==> heads[j].status_error % 2 == 1
            &&& batch.error is None <==> got == count
            &&& got < count ==> batch.error == Some(
                if heads[got].status_error % 2 == 0 {
                    IxgbeError::NotReady
                } else {
                    IxgbeError::NoMemory
                },
            )
            &&& got < count && heads[got].status_error % 2 == 1 ==> got == free.len()
            &&& batch.ops.len() == 3 * got
            &&& batch.dev.rx.len() == dev.rx.len()
            &&& batch.dev.rx[queue_id as int].pool == p
            &&& batch.pools.len() == pools.len()
            &&& batch.pools[p].free.len() == free.len() - got
            &&& 0 <= j < free.len() - got ==> batch.pools[p].free[j] == free[j]
        }),
    decreases count,
{
    let p = dev.rx[queue_id as int].pool as int;
    assert(dev.rx[queue_id as int].wf(pools));
    if count > 0 {
        law_receive_count(dev, pools, queue_id, heads, count - 1, j);
        law_receive_one_more(dev, pools, queue_id, heads, count - 1);
        let before = dev.receive_all(pools, queue_id, heads, count - 1);
        law_receive_fails(before.dev, before.pools, queue_id, heads[count - 1]);
    }
}

// Sending

/// A packet for a queue that does not exist goes back to its pool, and nothing else happens.
pub proof fn law_send_invalid(
    dev: DeviceView,
    pools: Seq<PoolView>,
    queue_id: u16,
    packet: Packet,
    statuses: Seq<u32>,
)
    requires
        queue_id >= dev.tx.len(),
    ensures
        ({
            let step = dev.send(pools, queue_id, packet, statuses);
            &&& step.result == Err::<(), IxgbeError>(IxgbeError::InvalidQueue)
            &&& step.dev == dev
            &&& step.pools == memory::freed(pools, packet)
            &&& step.ops.len() == 0
        }),
{
}

/// A packet that finds all descriptors but one in use after cleaning goes back to its pool, and
/// nothing is done to the card; the queue then has the pool of the packet. Any other packet is
/// sent.
pub proof fn law_send_full(
    dev: DeviceView,
    pools: Seq<PoolView>,
    queue_id: u16,
    packet: Packet,
    statuses: Seq<u32>,
)
    requires
        dev.wf(pools),
        queue_id < dev.tx.len(),
    ensures
        ({
            let step = dev.send(pools, queue_id, packet, statuses);
            let i = queue_id as int;
            let q = dev.tx[i];
            let left = q.bufs.len() - q.cleanable(statuses);
            &&& left < q.num_descriptors - 1 ==> step.result is Ok
            &&& left >= q.num_descriptors - 1 ==> {
                &&& step.result == Err::<(), IxgbeError>(IxgbeError::QueueFull)
                &&& step.ops.len() == 0
                &&& step.pools == memory::freed(q.cleaned_pools(pools, statuses), packet)
                &&& step.dev == (DeviceView {
                    tx: dev.tx.update(
                        i,
                        TxView { pool: Some(packet.pool), ..q.cleaned(statuses) },
                    ),
                    ..dev
                })
            }
        }),
{
    let q = dev.tx[queue_id as int];
    ring::lemma_cleanable(q, statuses);
    ring::lemma_clean_index(q, q.cleanable(statuses));
}

/// What sending a packet does to the card: the descriptor at the transmit index gets the physical
/// address of the packet, the command to send it as one whole packet with its length, and the
/// length of the payload, and the tail of the queue is set to the next index.
pub proof fn law_send_ops(
    dev: DeviceView,
    pools: Seq<PoolView>,
    queue_id: u16,
    packet: Packet,
    statuses: Seq<u32>,
)
    requires
        dev.wf(pools),
        queue_id < dev.tx.len(),
        dev.send(pools, queue_id, packet, statuses).result is Ok,
    ensures
        ({
            let q = dev.tx[queue_id as int];
            dev.send(pools, queue_id, packet, statuses).ops == seq![
                IoOp::Store64 {
                    addr: (q.descriptors + 16 * q.tx_index) as usize,
                    value: packet.addr_phys as u64,
                },
                IoOp::Store32 {
                    addr: (q.descriptors + 16 * q.tx_index + 8) as usize,
                    value: 0x2B30_0000u32 | (packet.len as u32),
                },
                IoOp::Store32 {
                    addr: (q.descriptors + 16 * q.tx_index + 12) as usize,
                    value: (packet.len as u32) << 14u32,
                },
                IoOp::WriteReg {
                    reg: (0x6018 + 0x40 * queue_id) as u32,
                    value: ((q.tx_index + 1) % q.num_descriptors) as u32,
                },
            ]
        }),
{
    let q = dev.tx[queue_id as int];
    ring::lemma_wrap(q.tx_index + 1, q.num_descriptors);
    lemma_send_words(packet.len);
    assert(dev.send(pools, queue_id, packet, statuses).ops =~= seq![
        IoOp::Store64 {
            addr: (q.descriptors + 16 * q.tx_index) as usize,
            value: packet.addr_phys as u64,
        },
        IoOp::Store32 {
            addr: (q.descriptors + 16 * q.tx_index + 8) as usize,
            value: 0x2B30_0000u32 | (packet.len as u32),
        },
        IoOp::Store32 {
            addr: (q.descriptors + 16 * q.tx_index + 12) as usize,
            value: (packet.len as u32) << 14u32,
        },
        IoOp::WriteReg {
            reg: (0x6018 + 0x40 * queue_id) as u32,
            value: ((q.tx_index + 1) % q.num_descriptors) as u32,
        },
    ]);
}

proof fn lemma_send_words(len: usize)
    ensures
        nic::tx_command(len) == 0x2B30_0000u32 | (len as u32),
        nic::tx_payload(len) == (len as u32) << 14u32,
{
    let wide = len as u32;
    assert(0x0100_0000u32 | 0x0800_0000u32 | 0x0200_0000u32 | 0x2000_0000u32 | 0x0030_0000u32 | wide
        == 0x2B30_0000u32 | wide) by (bit_vector);
}

/// What sending a packet does to the device and the pools: the queue is cleaned, the buffer of the
/// packet comes last in it, the transmit index moves on by one, and nothing else changes.
pub proof fn law_send_state(
    dev: DeviceView,
    pools: Seq<PoolView>,
    queue_id: u16,
    packet: Packet,
    statuses: Seq<u32>,
    k: int,
)
    requires
        dev.wf(pools),
        queue_id < dev.tx.len(),
        dev.send(pools, queue_id, packet, statuses).result is Ok,
    ensures
        ({
            let step = dev.send(pools, queue_id, packet, statuses);
            let i = queue_id as int;
            let (q, after) = (dev.tx[i], step.dev.tx[i]);
            let gone = q.cleanable(statuses);
            &&& step.dev.tx.len() == dev.tx.len()
            &&& 0 <= k < dev.tx.len() && k != i ==> step.dev.tx[k] == dev.tx[k]
            &&& step.dev.rx == dev.rx
            &&& step.dev.addr == dev.addr
            &&& step.dev.len == dev.len
            &&& step.dev.num_rx_queues == dev.num_rx_queues
            &&& step.dev.num_tx_queues == dev.num_tx_queues
            &&& step.dev.interrupts == dev.interrupts
            &&& after.pool == Some(packet.pool)
            &&& after.bufs.len() == q.bufs.len() - gone + 1
            &&& after.bufs[q.bufs.len() - gone] == packet.pool_entry
            &&& 0 <= k < q.bufs.len() - gone ==> after.bufs[k] == q.bufs[gone + k]
            &&& after.tx_index == (q.tx_index + 1) % q.num_descriptors
            &&& after.clean_index == (q.clean_index + gone) % q.num_descriptors
            &&& after.descriptors == q.descriptors
            &&& after.ring_phys == q.ring_phys
            &&& after.num_descriptors == q.num_descriptors
            &&& step.pools == q.cleaned_pools(pools, statuses)
        }),
{
    let q = dev.tx[queue_id as int];
    let gone = q.cleanable(statuses);
    ring::lemma_cleanable(q, statuses);
    ring::lemma_wrap(q.clean_index + gone, q.num_descriptors);
    ring::lemma_wrap(q.tx_index + 1, q.num_descriptors);
}

/// As many packets find a descriptor as there are, or as there are descriptors not in use but one,
/// whichever is less.
pub proof fn law_fitting(queue: TxView, count: int)
    requires
        queue.wf(),
        0 <= count,
    ensures
        queue.fitting(count) <= count,
        queue.fitting(count) + queue.bufs.len() <= queue.num_descriptors - 1,
        queue.fitting(count) == count || queue.fitting(count) + queue.bufs.len()
            == queue.num_descriptors - 1,
{
}

/// Sending several packets puts their buffers last into the queue, in order, and moves the transmit
/// index on by their number. The queue has the pool of the last one, and nothing else changes.
pub proof fn law_send_all_state(queue: TxView, bufs: Seq<TxBuffer>, count: int, k: int)
    requires
        0 <= queue.tx_index < queue.num_descriptors,
        0 <= count <= bufs.len(),
    ensures
        ({
            let after = queue.enqueued_all(bufs, count);
            let had = queue.bufs.len();
            &&& after.bufs.len() == had + count
            &&& 0 <= k < had ==> after.bufs[k] == queue.bufs[k]
            &&& 0 <= k < count ==> after.bufs[had + k] == bufs[k].packet.pool_entry
            &&& after.tx_index == (queue.tx_index + count) % queue.num_descriptors
            &&& after.pool == (if count == 0 {
                queue.pool
            } else {
                Some(bufs[count - 1].packet.pool)
            })
            &&& after.clean_index == queue.clean_index
            &&& after.descriptors == queue.descriptors
            &&& after.ring_phys == queue.ring_phys
            &&& after.num_descriptors == queue.num_descriptors
        }),
    decreases count,
{
    let n = queue.num_descriptors;
    if count == 0 {
        ring::lemma_wrap(queue.tx_index, n);
    } else {
        law_send_all_state(queue, bufs, count - 1, k);
        lemma_next_index(queue.tx_index + count - 1, n);
    }
}

proof fn lemma_next_index(x: int, n: int)
    requires
        0 <= x,
        0 < n,
    ensures
        ring::wrapped(x % n + 1, n) == (x + 1) % n,
{
    vstd::arithmetic::div_mod::lemma_mod_bound(x, n);
    ring::lemma_wrap(x % n + 1, n);
    vstd::arithmetic::div_mod::lemma_add_mod_noop_right(1, x, n);
}

/// What sending several packets does to the card: for each of them, in order, the same as sending
/// it alone, on one descriptor after the other.
pub proof fn law_send_all_ops(
    queue: TxView,
    queue_id: u16,
    bufs: Seq<TxBuffer>,
    count: int,
    k: int,
)
    requires
        0 <= queue.tx_index < queue.num_descriptors,
        queue_id < 64,
        0 <= k < count <= bufs.len(),
    ensures
        ({
            let ops = queue.enqueue_ops(queue_id, bufs, count);
            let n = queue.num_descriptors;
            let desc = queue.descriptors + 16 * ((queue.tx_index + k) % n);
            let packet = bufs[k].packet;
            &&& ops.len() == 4 * count
            &&& ops[4 * k] == (IoOp::Store64 {
                addr: desc as usize,
                value: packet.addr_phys as u64,
            })
            &&& ops[4 * k + 1] == (IoOp::Store32 {
                addr: (desc + 8) as usize,
                value: 0x2B30_0000u32 | (packet.len as u32),
            })
            &&& ops[4 * k + 2] == (IoOp::Store32 {
                addr: (desc + 12) as usize,
                value: (packet.len as u32) << 14u32,
            })
            &&& ops[4 * k + 3] == (IoOp::WriteReg {
                reg: (0x6018 + 0x40 * queue_id) as u32,
                value: ((queue.tx_index + k + 1) % n) as u32,
            })
        }),
    decreases count,
{
    let n = queue.num_descriptors;
    lemma_send_all_len(queue, queue_id, bufs, count - 1);
    law_send_all_state(queue, bufs, count - 1, 0);
    lemma_next_index(queue.tx_index + count - 1, n);
    lemma_send_words(bufs[count - 1].packet.len);
    if k < count - 1 {
        law_send_all_ops(queue, queue_id, bufs, count - 1, k);
    }
}

proof fn lemma_send_all_len(queue: TxView, queue_id: u16, bufs: Seq<TxBuffer>, count: int)
    requires
        0 <= count,
    ensures
        queue.enqueue_ops(queue_id, bufs, count).len() == 4 * count,
    decreases count,
{
    if count > 0 {
        lemma_send_all_len(queue, queue_id, bufs, count - 1);
    }
}

// The card's address and counters

/// The halves that the card holds are made of the bytes of the address, the first byte lowest: each
/// byte is one digit of a half to the base 256.
pub proof fn law_mac_bytes(low: u32, high: u32)
    ensures
        ({
            let mac = stats::mac_bytes(low, high);
            &&& mac.len() == 6
            &&& mac[0] + 0x100 * mac[1] + 0x1_0000 * mac[2] + 0x100_0000 * mac[3] == low
            &&& mac[4] + 0x100 * mac[5] == high % 0x1_0000
        }),
{
    let b0 = low % 0x100;
    let b1 = low / 0x100 % 0x100;
    let b2 = low / 0x1_0000 % 0x100;
    let b3 = low / 0x100_0000;
    let b4 = high % 0x100;
    let b5 = high / 0x100 % 0x100;
    assert(b3 < 0x100 && b0 + 0x100 * b1 + 0x1_0000 * b2 + 0x100_0000 * b3 == low && b4 + 0x100 * b5
        == high % 0x1_0000) by (bit_vector)
        requires
            b0 == low % 0x100,
            b1 == low / 0x100 % 0x100,
            b2 == low / 0x1_0000 % 0x100,
            b3 == low / 0x100_0000,
            b4 == high % 0x100,
            b5 == high / 0x100 % 0x100,
    ;
}

/// Byte `i` of an address is bits `8 * i` to `8 * i + 7` of the low half for the first four bytes,
/// and so on in the high half for the last two.
pub proof fn law_mac_byte(low: u32, high: u32, i: u32)
    requires
        i < 6,
    ensures
        i < 4 ==> stats::mac_bytes(low, high)[i as int] == (low >> ((8 * i) as u32)) & 0xff,
        i >= 4 ==> stats::mac_bytes(low, high)[i as int] == (high >> ((8 * (i - 4)) as u32)) & 0xff,
{
    law_mac_bytes(low, high);
    assert((low >> 0u32) & 0xff == low % 0x100 && (low >> 8u32) & 0xff == low / 0x100 % 0x100
        && (low >> 16u32) & 0xff == low / 0x1_0000 % 0x100 && (low >> 24u32) & 0xff == low
        / 0x100_0000) by (bit_vector);
    assert((high >> 0u32) & 0xff == high % 0x100 && (high >> 8u32) & 0xff == high / 0x100 % 0x100)
        by (bit_vector);
    assert(i == 0 || i == 1 || i == 2 || i == 3 || i == 4 || i == 5);
}

/// Setting an address writes its first four bytes to register 0x5400 and its last two to register
/// 0x5404, byte `i` of each at bits `8 * i` to `8 * i + 7`, and nothing else.
pub proof fn law_set_mac(mac: Seq<u8>, i: u32)
    requires
        mac.len() == 6,
        i < 6,
    ensures
        stats::set_mac_ops(mac).len() == 2,
        stats::set_mac_ops(mac)[0] matches IoOp::WriteReg { reg, value } && {
            &&& reg == 0x5400
            &&& i < 4 ==> (value >> ((8 * i) as u32)) & 0xff == mac[i as int]
        },
        stats::set_mac_ops(mac)[1] matches IoOp::WriteReg { reg, value } && {
            &&& reg == 0x5404
            &&& i >= 4 ==> (value >> ((8 * (i - 4)) as u32)) & 0xff == mac[i as int]
            &&& value < 0x1_0000
        },
{
    let (low, high) = (stats::mac_low(mac), stats::mac_high(mac));
    crate::laws::law_mac_round_trip(mac);
    law_mac_byte(low, high, i);
    law_mac_bytes(low, high);
}

/// An address that was set is read back byte by byte from the two words that were written.
pub proof fn law_mac_written_is_read(mac: Seq<u8>, k: int)
    requires
        mac.len() == 6,
        0 <= k < 6,
    ensures
        stats::set_mac_ops(mac)[0] matches IoOp::WriteReg { value: low, .. }
            && stats::set_mac_ops(mac)[1] matches IoOp::WriteReg { value: high, .. } && {
            &&& stats::mac_bytes(low, high).len() == 6
            &&& stats::mac_bytes(low, high)[k] == mac[k]
        },
{
    crate::laws::law_mac_round_trip(mac);
}

/// The bytes received are those that the receive counters hold, and the bytes sent those that the
/// transmit counters hold, the second of each counting in steps of four gigabytes.
pub proof fn law_byte_counters(counters: Counters, other: Counters)
    ensures
        counters.rx_bytes() == counters.gorcl + counters.gorch * 0x1_0000_0000,
        counters.tx_bytes() == counters.gotcl + counters.gotch * 0x1_0000_0000,
        counters.gorcl == other.gorcl && counters.gorch == other.gorch ==> counters.rx_bytes()
            == other.rx_bytes(),
        counters.gotcl == other.gotcl && counters.gotch == other.gotch ==> counters.tx_bytes()
            == other.tx_bytes(),
{
}

/// A descriptor is done if bit 0 of its last word is set.
pub proof fn law_descriptor_done(desc: AdvancedTxDescriptor)
    ensures
        desc.done() <==> desc.paylen_popts_cc_idx_sta % 2 == 1,
{
    let status = desc.paylen_popts_cc_idx_sta;
    assert(status & 1 == 1 <==> status % 2 == 1) by (bit_vector);
}

/// Interrupts that are off are not throttled, have no kind and no timeout, and no queue has
/// settings.
pub proof fn law_interrupts_default(interrupts: Interrupts)
    ensures
        interrupts.off() <==> !interrupts.interrupts_enabled && interrupts.itr_rate == 0
            && interrupts.interrupt_type == 0 && interrupts.timeout_ms == 0
            && interrupts.queues@.len() == 0,
{
}

// Texts

/// The number that a text of decimal digits stands for.
pub open spec fn value_of(text: Seq<char>) -> int
    decreases text.len(),
{
    if text.len() == 0 {
        0
    } else {
        10 * value_of(text.drop_last()) + (text.last() as int - '0' as int)
    }
}

/// The decimal notation of a number is made of digits, stands for the number, and has no leading
/// zero, unless it is the one digit of zero.
pub proof fn law_decimal(n: nat, i: int)
    ensures
        stats::decimal(n).len() > 0,
        value_of(stats::decimal(n)) == n,
        0 <= i < stats::decimal(n).len() ==> '0' as int <= stats::decimal(n)[i] as int
            <= '9' as int,
        n > 0 ==> stats::decimal(n)[0] != '0',
        n == 0 ==> stats::decimal(n).len() == 1,
    decreases n,
{
    let text = stats::decimal(n);
    if n < 10 {
        assert(text.drop_last() =~= Seq::<char>::empty());
        assert(value_of(text.drop_last()) == 0);
    } else {
        law_decimal(n / 10, i);
        assert(text.drop_last() =~= stats::decimal(n / 10));
    }
}

/// The text of a list of bytes is empty for no byte, the decimal notation for one, and otherwise
/// the text of all but the last, a comma and a space, and the decimal notation of the last.
pub proof fn law_list_text(bytes: Seq<u8>, last: u8)
    ensures
        memory::list_text(Seq::empty()) == Seq::<char>::empty(),
        memory::list_text(bytes.push(last)) == (if bytes.len() == 0 {
            stats::decimal(last as nat)
        } else {
            memory::list_text(bytes) + seq![',', ' '] + stats::decimal(last as nat)
        }),
{
    reveal_strlit(", ");
    assert(", "@ =~= seq![',', ' ']);
    assert(bytes.push(last).drop_last() =~= bytes);
}

// Starting queues

/// Starting a receive queue fails if its size is no power of two, and if its pool has fewer free
/// buffers than it has descriptors; otherwise it succeeds.
pub proof fn law_start_rx_result(dev: DeviceView, pools: Seq<PoolView>, queue_id: u16)
    requires
        0 < dev.rx[queue_id as int].num_descriptors <= usize::MAX,
    ensures
        ({
            let q = dev.rx[queue_id as int];
            let n = q.num_descriptors as usize;
            dev.start_rx(pools, queue_id).result == (if n & ((n - 1) as usize) != 0 {
                Err(IxgbeError::QueueNotAligned)
            } else if pools[q.pool as int].free.len() < n {
                Err(IxgbeError::NoMemory)
            } else {
                Ok(())
            })
        }),
{
    ring::lemma_power_of_two_bits(dev.rx[queue_id as int].num_descriptors as usize);
}

/// A receive queue that was started has, one after the other, the buffers that became free last,
/// and its pool has the rest. Nothing else of the device and the pools changes.
pub proof fn law_start_rx_state(dev: DeviceView, pools: Seq<PoolView>, queue_id: u16, k: int)
    requires
        queue_id < dev.rx.len(),
        dev.rx[queue_id as int].pool < pools.len(),
        dev.start_rx(pools, queue_id).result is Ok,
    ensures
        ({
            let step = dev.start_rx(pools, queue_id);
            let i = queue_id as int;
            let (q, after) = (dev.rx[i], step.dev.rx[i]);
            let p = q.pool as int;
            let (old_pool, new_pool) = (pools[p], step.pools[p]);
            let (n, m) = (q.num_descriptors, old_pool.free.len() as int);
            &&& step.dev.tx == dev.tx
            &&& step.dev.rx.len() == dev.rx.len()
            &&& 0 <= k < dev.rx.len() && k != i ==> step.dev.rx[k] == dev.rx[k]
            &&& step.dev.addr == dev.addr
            &&& step.dev.len == dev.len
            &&& step.dev.num_rx_queues == dev.num_rx_queues
            &&& step.dev.num_tx_queues == dev.num_tx_queues
            &&& step.dev.interrupts == dev.interrupts
            &&& after.rx_index == q.rx_index
            &&& after.pool == q.pool
            &&& after.descriptors == q.descriptors
            &&& after.ring_phys == q.ring_phys
            &&& after.num_descriptors == n
            &&& n >= 0 ==> after.bufs.len() == q.bufs.len() + n
            &&& 0 <= k < q.bufs.len() ==> after.bufs[k] == q.bufs[k]
            &&& 0 <= k < n ==> after.bufs[q.bufs.len() + k] == old_pool.free[m - 1 - k]
            &&& step.pools.len() == pools.len()
            &&& 0 <= k < pools.len() && k != p ==> step.pools[k] == pools[k]
            &&& n >= 0 ==> new_pool.free.len() == m - n
            &&& 0 <= k < m - n && n >= 0 ==> new_pool.free[k] == old_pool.free[k]
            &&& new_pool.base_addr == old_pool.base_addr
            &&& new_pool.num_entries == old_pool.num_entries
            &&& new_pool.entry_size == old_pool.entry_size
            &&& new_pool.phys_addr == old_pool.phys_addr
        }),
{
}

/// What a device is after it was set up: each receive queue has a ring of 512 descriptors and the
/// last 512 buffers of a pool of 4096 buffers of 2048 bytes, from the end on; the other buffers of
/// the pool are free. Each transmit queue has an empty ring of 512 descriptors.
pub proof fn law_set_up_says<H: IxgbeHal>(
    dev: DeviceView,
    pools: Seq<PoolView>,
    first_pool: int,
    i: int,
    k: int,
)
    requires
        init::set_up::<H>(dev, pools, first_pool),
        0 <= first_pool,
        0 <= k < 512,
    ensures
        dev.rx.len() == dev.num_rx_queues,
        dev.tx.len() == dev.num_tx_queues,
        pools.len() == first_pool + dev.num_rx_queues,
        0 <= i < dev.num_rx_queues ==> {
            let q = dev.rx[i];
            let pool = pools[first_pool + i];
            &&& q.num_descriptors == 512
            &&& q.rx_index == 0
            &&& q.pool == first_pool + i
            &&& q.bufs.len() == 512
            &&& q.bufs[k] == 4095 - k
            &&& call_ensures(H::dma_alloc, (8192usize,), (q.ring_phys, q.descriptors as usize))
            &&& pool.num_entries == 4096
            &&& pool.entry_size == 2048
            &&& pool.free.len() == 3584
            &&& pool.free[k] == k
            &&& pool.free[3072 + k] == 3072 + k
            &&& memory::backed_by::<H>(pool)
        },
        0 <= i < dev.num_tx_queues ==> {
            let q = dev.tx[i];
            &&& q.num_descriptors == 512
            &&& q.clean_index == 0
            &&& q.tx_index == 0
            &&& q.pool is None
            &&& q.bufs.len() == 0
            &&& call_ensures(H::dma_alloc, (8192usize,), (q.ring_phys, q.descriptors as usize))
        },
{
    if 0 <= i < dev.num_rx_queues {
        assert(init::rx_set_up::<H>(dev.rx[i], first_pool + i, init::first_bufs()));
        assert(init::queue_pool::<H>(pools[first_pool + i], init::FIRST_FREE as int));
    }
    if 0 <= i < dev.num_tx_queues {
        assert(init::tx_set_up::<H>(dev.tx[i]));
    }
}

} // verus!
