//! Who has a buffer.
//!
//! A buffer of a pool is free, or a descriptor of a ring has it, or somebody holds it as a packet.
//! The laws below count the places of a device and its pools where a buffer is, and say that what
//! the driver does neither loses nor doubles one.

use crate::hal::IxgbeHal;
use crate::init;
use crate::ixgbe::DeviceView;
use crate::laws;
use crate::memory;
use crate::memory::{Packet, PoolId, PoolView};
use crate::nic::TxBuffer;
use crate::ring;
use crate::ring::{RxView, RxWriteback, TxView};
use vstd::prelude::*;

verus! {

/// How often `id` occurs in `ids`.
pub open spec fn occurs(ids: Seq<usize>, id: usize) -> nat
    decreases ids.len(),
{
    if ids.len() == 0 {
        0
    } else {
        occurs(ids.drop_last(), id) + if ids.last() == id {
            1nat
        } else {
            0nat
        }
    }
}

proof fn lemma_occurs_push(ids: Seq<usize>, last: usize, id: usize)
    ensures
        occurs(ids.push(last), id) == occurs(ids, id) + if last == id {
            1nat
        } else {
            0nat
        },
{
    assert(ids.push(last).drop_last() =~= ids);
}

proof fn lemma_occurs_concat(a: Seq<usize>, b: Seq<usize>, id: usize)
    ensures
        occurs(a + b, id) == occurs(a, id) + occurs(b, id),
    decreases b.len(),
{
    if b.len() == 0 {
        assert(a + b =~= a);
    } else {
        lemma_occurs_concat(a, b.drop_last(), id);
        assert((a + b).drop_last() =~= a + b.drop_last());
    }
}

proof fn lemma_occurs_update(ids: Seq<usize>, i: int, new: usize, id: usize)
    requires
        0 <= i < ids.len(),
    ensures
        occurs(ids.update(i, new), id) + (if ids[i] == id {
            1nat
        } else {
            0nat
        }) == occurs(ids, id) + if new == id {
            1nat
        } else {
            0nat
        },
    decreases ids.len(),
{
    if i == ids.len() - 1 {
        assert(ids.update(i, new).drop_last() =~= ids.drop_last());
    } else {
        lemma_occurs_update(ids.drop_last(), i, new, id);
        assert(ids.update(i, new).drop_last() =~= ids.drop_last().update(i, new));
    }
}

proof fn lemma_occurs_contains(ids: Seq<usize>, id: usize)
    ensures
        occurs(ids, id) > 0 <==> ids.contains(id),
    decreases ids.len(),
{
    if ids.len() > 0 {
        lemma_occurs_contains(ids.drop_last(), id);
        if ids.drop_last().contains(id) {
            let k = choose|k: int| 0 <= k < ids.drop_last().len() && ids.drop_last()[k] == id;
            assert(ids[k] == id);
        }
        if ids.contains(id) && ids.last() != id {
            let k = choose|k: int| 0 <= k < ids.len() && ids[k] == id;
            assert(ids.drop_last()[k] == id);
        }
        if ids.last() == id {
            assert(ids[ids.len() - 1] == id);
        }
    }
}

proof fn lemma_occurs_once(ids: Seq<usize>, id: usize)
    requires
        forall|i: int, j: int| 0 <= i < j < ids.len() ==> ids[i] != ids[j],
    ensures
        occurs(ids, id) == if ids.contains(id) {
            1nat
        } else {
            0nat
        },
    decreases ids.len(),
{
    lemma_occurs_contains(ids, id);
    if ids.len() > 0 {
        assert forall|i: int, j: int| 0 <= i < j < ids.drop_last().len() implies ids.drop_last()[i]
            != ids.drop_last()[j] by {
            assert(ids[i] != ids[j]);
        }
        lemma_occurs_once(ids.drop_last(), id);
        if ids.last() == id && ids.drop_last().contains(id) {
            let k = choose|k: int| 0 <= k < ids.drop_last().len() && ids.drop_last()[k] == id;
            assert(ids[k] != ids[ids.len() - 1]);
        }
    }
}

/// How often a receive queue has buffer `id` of pool `p`.
pub open spec fn rx_queue_places(q: RxView, p: PoolId, id: usize) -> nat {
    if q.pool == p {
        occurs(q.bufs, id)
    } else {
        0
    }
}

/// How often a transmit queue has buffer `id` of pool `p`.
pub open spec fn tx_queue_places(q: TxView, p: PoolId, id: usize) -> nat {
    if q.pool == Some(p) {
        occurs(q.bufs, id)
    } else {
        0
    }
}

/// How often the receive queues have buffer `id` of pool `p`.
pub open spec fn rx_places(queues: Seq<RxView>, p: PoolId, id: usize) -> nat
    decreases queues.len(),
{
    if queues.len() == 0 {
        0
    } else {
        rx_places(queues.drop_last(), p, id) + rx_queue_places(queues.last(), p, id)
    }
}

/// How often the transmit queues have buffer `id` of pool `p`.
pub open spec fn tx_places(queues: Seq<TxView>, p: PoolId, id: usize) -> nat
    decreases queues.len(),
{
    if queues.len() == 0 {
        0
    } else {
        tx_places(queues.drop_last(), p, id) + tx_queue_places(queues.last(), p, id)
    }
}

/// In how many places buffer `id` of pool `p` is: among the free ones of the pool, in the receive
/// rings and in the transmit rings.
pub open spec fn places(dev: DeviceView, pools: Seq<PoolView>, p: PoolId, id: usize) -> nat {
    occurs(pools[p as int].free, id) + rx_places(dev.rx, p, id) + tx_places(dev.tx, p, id)
}

/// No buffer is in two places.
pub open spec fn exclusive(dev: DeviceView, pools: Seq<PoolView>) -> bool {
    forall|p: PoolId, id: usize| p < pools.len() ==> #[trigger] places(dev, pools, p, id) <= 1
}

/// The packet is buffer `id` of pool `p`: 1, or 0.
pub open spec fn is_buffer(packet: Packet, p: PoolId, id: usize) -> nat {
    if packet.pool == p && packet.pool_entry == id {
        1
    } else {
        0
    }
}

proof fn lemma_rx_places_update(queues: Seq<RxView>, i: int, q: RxView, p: PoolId, id: usize)
    requires
        0 <= i < queues.len(),
    ensures
        rx_places(queues.update(i, q), p, id) + rx_queue_places(queues[i], p, id) == rx_places(
            queues,
            p,
            id,
        ) + rx_queue_places(q, p, id),
    decreases queues.len(),
{
    if i == queues.len() - 1 {
        assert(queues.update(i, q).drop_last() =~= queues.drop_last());
    } else {
        lemma_rx_places_update(queues.drop_last(), i, q, p, id);
        assert(queues.update(i, q).drop_last() =~= queues.drop_last().update(i, q));
    }
}

proof fn lemma_tx_places_update(queues: Seq<TxView>, i: int, q: TxView, p: PoolId, id: usize)
    requires
        0 <= i < queues.len(),
    ensures
        tx_places(queues.update(i, q), p, id) + tx_queue_places(queues[i], p, id) == tx_places(
            queues,
            p,
            id,
        ) + tx_queue_places(q, p, id),
    decreases queues.len(),
{
    if i == queues.len() - 1 {
        assert(queues.update(i, q).drop_last() =~= queues.drop_last());
    } else {
        lemma_tx_places_update(queues.drop_last(), i, q, p, id);
        assert(queues.update(i, q).drop_last() =~= queues.drop_last().update(i, q));
    }
}

/// Receiving takes the buffer of the packet out of the device and its pools, and moves no other
/// buffer out or in. A receive that fails moves none.
pub proof fn law_receive_conserves(
    dev: DeviceView,
    pools: Seq<PoolView>,
    queue_id: u16,
    head: RxWriteback,
    p: PoolId,
    id: usize,
)
    requires
        dev.receive_ready(pools, queue_id, head),
        p < pools.len(),
    ensures
        ({
            let step = dev.receive(pools, queue_id, head);
            places(dev, pools, p, id) == places(step.dev, step.pools, p, id)
                + match step.result {
                Ok(packet) => is_buffer(packet, p, id),
                Err(_) => 0nat,
            }
        }),
{
    let step = dev.receive(pools, queue_id, head);
    if step.result is Ok {
        let i = queue_id as int;
        let q = dev.rx[i];
        assert(q.wf(pools));
        let free = pools[q.pool as int].free;
        lemma_occurs_push(free.drop_last(), free.last(), id);
        assert(free.drop_last().push(free.last()) =~= free);
        lemma_occurs_update(q.bufs, q.rx_index, free.last(), id);
        lemma_rx_places_update(dev.rx, i, step.dev.rx[i], p, id);
    }
}

/// Sending puts the buffer of the packet into the device and its pools, whether the packet is sent
/// or not, and moves no other buffer out or in: a packet that is handed over is never lost.
pub proof fn law_send_conserves(
    dev: DeviceView,
    pools: Seq<PoolView>,
    queue_id: u16,
    packet: Packet,
    statuses: Seq<u32>,
    p: PoolId,
    id: usize,
)
    requires
        dev.send_ready(pools, queue_id, packet, statuses),
        p < pools.len(),
    ensures
        ({
            let step = dev.send(pools, queue_id, packet, statuses);
            places(step.dev, step.pools, p, id) == places(dev, pools, p, id) + is_buffer(
                packet,
                p,
                id,
            )
        }),
{
    let step = dev.send(pools, queue_id, packet, statuses);
    let i = queue_id as int;
    if i >= dev.tx.len() {
        lemma_occurs_push(pools[packet.pool as int].free, packet.pool_entry, id);
    } else {
        let q = dev.tx[i];
        let gone = q.cleanable(statuses);
        let rest = q.cleaned(statuses);
        let cleaned = q.cleaned_pools(pools, statuses);
        ring::lemma_cleanable(q, statuses);
        assert(q.bufs =~= q.bufs.take(gone) + q.bufs.skip(gone));
        lemma_occurs_concat(q.bufs.take(gone), q.bufs.skip(gone), id);
        if q.pool is Some {
            lemma_occurs_concat(pools[q.pool->0 as int].free, q.bufs.take(gone), id);
        }
        lemma_tx_places_update(dev.tx, i, step.dev.tx[i], p, id);
        lemma_occurs_push(cleaned[packet.pool as int].free, packet.pool_entry, id);
        lemma_occurs_push(rest.bufs, packet.pool_entry, id);
        if q.pool != Some(packet.pool) {
            assert(rest.bufs =~= Seq::empty());
            assert(occurs(rest.bufs, id) == 0);
        }
    }
}

/// Cleaning a transmit queue moves no buffer out or in.
pub proof fn law_clean_conserves(
    dev: DeviceView,
    pools: Seq<PoolView>,
    i: int,
    statuses: Seq<u32>,
    p: PoolId,
    id: usize,
)
    requires
        0 <= i < dev.tx.len(),
        dev.tx[i].wf(),
        dev.tx[i].pool matches Some(own) ==> own < pools.len(),
        p < pools.len(),
    ensures
        places(
            dev.with_tx(i, dev.tx[i].cleaned(statuses)),
            dev.tx[i].cleaned_pools(pools, statuses),
            p,
            id,
        ) == places(dev, pools, p, id),
{
    let q = dev.tx[i];
    let gone = q.cleanable(statuses);
    ring::lemma_cleanable(q, statuses);
    assert(q.bufs =~= q.bufs.take(gone) + q.bufs.skip(gone));
    lemma_occurs_concat(q.bufs.take(gone), q.bufs.skip(gone), id);
    if q.pool is Some {
        lemma_occurs_concat(pools[q.pool->0 as int].free, q.bufs.take(gone), id);
    }
    lemma_tx_places_update(dev.tx, i, q.cleaned(statuses), p, id);
}

/// Allocating a packet takes its buffer out of the pools, and no other.
pub proof fn law_alloc_conserves(
    dev: DeviceView,
    pools: Seq<PoolView>,
    pool: PoolId,
    size: usize,
    p: PoolId,
    id: usize,
)
    requires
        pool < pools.len(),
        p < pools.len(),
        memory::alloc_result(pools[pool as int], pool, size) is Some,
    ensures
        ({
            let packet = memory::alloc_result(pools[pool as int], pool, size)->0;
            let after = memory::taken_from(pools, pool);
            places(dev, pools, p, id) == places(dev, after, p, id) + is_buffer(packet, p, id)
        }),
{
    let free = pools[pool as int].free;
    lemma_occurs_push(free.drop_last(), free.last(), id);
    assert(free.drop_last().push(free.last()) =~= free);
}

/// Freeing a packet puts its buffer back into the pools, and no other.
pub proof fn law_free_conserves(
    dev: DeviceView,
    pools: Seq<PoolView>,
    packet: Packet,
    p: PoolId,
    id: usize,
)
    requires
        packet.live(pools),
        p < pools.len(),
    ensures
        places(dev, memory::freed(pools, packet), p, id) == places(dev, pools, p, id) + is_buffer(
            packet,
            p,
            id,
        ),
{
    lemma_occurs_push(pools[packet.pool as int].free, packet.pool_entry, id);
}

/// How many of the packets are buffer `id` of pool `p`.
pub open spec fn held(packets: Seq<Packet>, p: PoolId, id: usize) -> nat
    decreases packets.len(),
{
    if packets.len() == 0 {
        0
    } else {
        held(packets.drop_last(), p, id) + is_buffer(packets.last(), p, id)
    }
}

/// Receiving several packets takes their buffers out of the device and its pools, and moves no
/// other buffer out or in.
pub proof fn law_receive_all_conserves(
    dev: DeviceView,
    pools: Seq<PoolView>,
    queue_id: u16,
    heads: Seq<RxWriteback>,
    count: int,
    p: PoolId,
    id: usize,
)
    requires
        dev.wf(pools),
        dev.bufs_wf(pools),
        p < pools.len(),
        count <= heads.len(),
        forall|i: int|
            0 <= i < heads.len() && (#[trigger] heads[i]).done() ==> heads[i].end_of_packet(),
    ensures
        ({
            let batch = dev.receive_all(pools, queue_id, heads, count);
            &&& batch.dev.wf(batch.pools)
            &&& batch.dev.bufs_wf(batch.pools)
            &&& batch.pools.len() == pools.len()
            &&& places(dev, pools, p, id) == places(batch.dev, batch.pools, p, id) + held(
                batch.packets,
                p,
                id,
            )
        }),
    decreases count,
{
    if count > 0 {
        law_receive_all_conserves(dev, pools, queue_id, heads, count - 1, p, id);
        let before = dev.receive_all(pools, queue_id, heads, count - 1);
        let batch = dev.receive_all(pools, queue_id, heads, count);
        let step = before.dev.receive(before.pools, queue_id, heads[count - 1]);
        if queue_id < before.dev.rx.len() {
            assert(before.dev.rx[queue_id as int].wf(before.pools));
        }
        law_receive_conserves(before.dev, before.pools, queue_id, heads[count - 1], p, id);
        laws::law_receive_keeps(before.dev, before.pools, queue_id, heads[count - 1]);
        if before.error is None && step.result is Ok {
            assert(batch.packets.drop_last() =~= before.packets);
        }
    }
}

/// The packets of the first `count` buffers of `bufs`.
pub open spec fn packets_of(bufs: Seq<TxBuffer>, count: int) -> Seq<Packet> {
    Seq::new(count as nat, |i: int| bufs[i].packet)
}

/// Sending several packets of one pool puts the buffers of those that are sent into the device and
/// its pools, and moves no other buffer out or in. The queue must be one of that pool, or be empty
/// after cleaning.
pub proof fn law_send_all_conserves(
    dev: DeviceView,
    pools: Seq<PoolView>,
    i: int,
    bufs: Seq<TxBuffer>,
    sent: int,
    statuses: Seq<u32>,
    pool: PoolId,
    p: PoolId,
    id: usize,
)
    requires
        dev.wf(pools),
        0 <= i < dev.tx.len(),
        0 <= sent <= bufs.len(),
        forall|k: int| 0 <= k < sent ==> (#[trigger] bufs[k]).packet.pool == pool,
        dev.tx[i].pool == Some(pool) || dev.tx[i].cleaned(statuses).bufs.len() == 0,
        p < pools.len(),
    ensures
        places(
            dev.with_tx(i, dev.tx[i].cleaned(statuses).enqueued_all(bufs, sent)),
            dev.tx[i].cleaned_pools(pools, statuses),
            p,
            id,
        ) == places(dev, pools, p, id) + held(packets_of(bufs, sent), p, id),
    decreases sent,
{
    let q = dev.tx[i].cleaned(statuses);
    let cleaned = dev.tx[i].cleaned_pools(pools, statuses);
    assert(dev.tx[i].wf());
    if sent == 0 {
        law_clean_conserves(dev, pools, i, statuses, p, id);
    } else {
        law_send_all_conserves(dev, pools, i, bufs, sent - 1, statuses, pool, p, id);
        let before = q.enqueued_all(bufs, sent - 1);
        let after = q.enqueued_all(bufs, sent);
        let packet = bufs[sent - 1].packet;
        lemma_enqueued_pool(q, bufs, sent - 1, pool);
        lemma_occurs_push(before.bufs, packet.pool_entry, id);
        lemma_tx_places_update(dev.tx, i, before, p, id);
        lemma_tx_places_update(dev.tx, i, after, p, id);
        assert(packets_of(bufs, sent).drop_last() =~= packets_of(bufs, sent - 1));
    }
}

proof fn lemma_enqueued_pool(queue: TxView, bufs: Seq<TxBuffer>, count: int, pool: PoolId)
    requires
        count <= bufs.len(),
        forall|k: int| 0 <= k < count ==> (#[trigger] bufs[k]).packet.pool == pool,
        queue.pool == Some(pool) || queue.bufs.len() == 0,
    ensures
        ({
            let after = queue.enqueued_all(bufs, count);
            after.pool == Some(pool) || after.bufs.len() == 0
        }),
    decreases count,
{
    if count > 0 {
        lemma_enqueued_pool(queue, bufs, count - 1, pool);
    }
}

/// Where no buffer is in two places, none is after a receive, and the buffer of the received packet
/// is in none.
pub proof fn law_receive_exclusive(
    dev: DeviceView,
    pools: Seq<PoolView>,
    queue_id: u16,
    head: RxWriteback,
)
    requires
        dev.receive_ready(pools, queue_id, head),
        exclusive(dev, pools),
    ensures
        ({
            let step = dev.receive(pools, queue_id, head);
            &&& exclusive(step.dev, step.pools)
            &&& step.result matches Ok(packet) ==> places(
                step.dev,
                step.pools,
                packet.pool,
                packet.pool_entry,
            ) == 0
        }),
{
    let step = dev.receive(pools, queue_id, head);
    assert forall|p: PoolId, id: usize| p < step.pools.len() implies #[trigger] places(
        step.dev,
        step.pools,
        p,
        id,
    ) <= 1 by {
        assert(places(dev, pools, p, id) <= 1);
        law_receive_conserves(dev, pools, queue_id, head, p, id);
    }
    if step.result is Ok {
        let packet = step.result->Ok_0;
        assert(dev.rx[queue_id as int].wf(pools));
        assert(places(dev, pools, packet.pool, packet.pool_entry) <= 1);
        law_receive_conserves(dev, pools, queue_id, head, packet.pool, packet.pool_entry);
    }
}

/// Where no buffer is in two places, none is after receiving several packets, and none of the
/// packets is in a buffer that another one is in or that the device or its pools have.
pub proof fn law_receive_all_exclusive(
    dev: DeviceView,
    pools: Seq<PoolView>,
    queue_id: u16,
    heads: Seq<RxWriteback>,
    count: int,
    p: PoolId,
    id: usize,
)
    requires
        dev.wf(pools),
        dev.bufs_wf(pools),
        exclusive(dev, pools),
        p < pools.len(),
        count <= heads.len(),
        forall|i: int|
            0 <= i < heads.len() && (#[trigger] heads[i]).done() ==> heads[i].end_of_packet(),
    ensures
        ({
            let batch = dev.receive_all(pools, queue_id, heads, count);
            places(batch.dev, batch.pools, p, id) + held(batch.packets, p, id) <= 1
        }),
{
    law_receive_all_conserves(dev, pools, queue_id, heads, count, p, id);
    assert(places(dev, pools, p, id) <= 1);
}

/// Where no buffer is in two places, none is after sending a packet whose buffer was in none.
pub proof fn law_send_exclusive(
    dev: DeviceView,
    pools: Seq<PoolView>,
    queue_id: u16,
    packet: Packet,
    statuses: Seq<u32>,
)
    requires
        dev.send_ready(pools, queue_id, packet, statuses),
        exclusive(dev, pools),
        places(dev, pools, packet.pool, packet.pool_entry) == 0,
    ensures
        ({
            let step = dev.send(pools, queue_id, packet, statuses);
            exclusive(step.dev, step.pools)
        }),
{
    let step = dev.send(pools, queue_id, packet, statuses);
    assert forall|p: PoolId, id: usize| p < step.pools.len() implies #[trigger] places(
        step.dev,
        step.pools,
        p,
        id,
    ) <= 1 by {
        assert(places(dev, pools, p, id) <= 1);
        law_send_conserves(dev, pools, queue_id, packet, statuses, p, id);
    }
}

/// Where no buffer is in two places, none is after an allocation, and the buffer of the new packet
/// is in none: a buffer is not handed out again before it came back.
pub proof fn law_alloc_exclusive(
    dev: DeviceView,
    pools: Seq<PoolView>,
    pool: PoolId,
    size: usize,
)
    requires
        pool < pools.len(),
        memory::alloc_result(pools[pool as int], pool, size) is Some,
        exclusive(dev, pools),
    ensures
        ({
            let packet = memory::alloc_result(pools[pool as int], pool, size)->0;
            let after = memory::taken_from(pools, pool);
            &&& exclusive(dev, after)
            &&& places(dev, after, packet.pool, packet.pool_entry) == 0
        }),
{
    let packet = memory::alloc_result(pools[pool as int], pool, size)->0;
    let after = memory::taken_from(pools, pool);
    assert forall|p: PoolId, id: usize| p < after.len() implies #[trigger] places(
        dev,
        after,
        p,
        id,
    ) <= 1 by {
        assert(places(dev, pools, p, id) <= 1);
        law_alloc_conserves(dev, pools, pool, size, p, id);
    }
    assert(places(dev, pools, packet.pool, packet.pool_entry) <= 1);
    law_alloc_conserves(dev, pools, pool, size, packet.pool, packet.pool_entry);
}

/// Where no buffer is in two places, none is after freeing a packet whose buffer was in none.
pub proof fn law_free_exclusive(dev: DeviceView, pools: Seq<PoolView>, packet: Packet)
    requires
        packet.live(pools),
        exclusive(dev, pools),
        places(dev, pools, packet.pool, packet.pool_entry) == 0,
    ensures
        exclusive(dev, memory::freed(pools, packet)),
{
    let after = memory::freed(pools, packet);
    assert forall|p: PoolId, id: usize| p < after.len() implies #[trigger] places(
        dev,
        after,
        p,
        id,
    ) <= 1 by {
        assert(places(dev, pools, p, id) <= 1);
        law_free_conserves(dev, pools, packet, p, id);
    }
}

/// A packet whose buffer is in no place owns it: it can be freed or sent.
pub proof fn law_held_packet_is_live(dev: DeviceView, pools: Seq<PoolView>, packet: Packet)
    requires
        packet.pool < pools.len(),
        packet.pool_entry < pools[packet.pool as int].num_entries,
        places(dev, pools, packet.pool, packet.pool_entry) == 0,
    ensures
        packet.live(pools),
{
    lemma_occurs_contains(pools[packet.pool as int].free, packet.pool_entry);
}

proof fn lemma_rx_places_set_up<H: IxgbeHal>(
    queues: Seq<RxView>,
    first_pool: int,
    p: PoolId,
    id: usize,
)
    requires
        forall|i: int|
            0 <= i < queues.len() ==> init::rx_set_up::<H>(
                #[trigger] queues[i],
                first_pool + i,
                init::first_bufs(),
            ),
    ensures
        rx_places(queues, p, id) == if first_pool <= p < first_pool + queues.len() {
            occurs(init::first_bufs(), id)
        } else {
            0nat
        },
    decreases queues.len(),
{
    if queues.len() > 0 {
        assert(init::rx_set_up::<H>(
            queues[queues.len() - 1],
            first_pool + (queues.len() - 1),
            init::first_bufs(),
        ));
        let rest = queues.drop_last();
        assert forall|i: int| 0 <= i < rest.len() implies init::rx_set_up::<H>(
            #[trigger] rest[i],
            first_pool + i,
            init::first_bufs(),
        ) by {
            assert(init::rx_set_up::<H>(queues[i], first_pool + i, init::first_bufs()));
        }
        lemma_rx_places_set_up::<H>(rest, first_pool, p, id);
    }
}

proof fn lemma_tx_places_set_up<H: IxgbeHal>(queues: Seq<TxView>, p: PoolId, id: usize)
    requires
        forall|i: int| 0 <= i < queues.len() ==> init::tx_set_up::<H>(#[trigger] queues[i]),
    ensures
        tx_places(queues, p, id) == 0,
    decreases queues.len(),
{
    if queues.len() > 0 {
        assert(init::tx_set_up::<H>(queues[queues.len() - 1]));
        let rest = queues.drop_last();
        assert forall|i: int| 0 <= i < rest.len() implies init::tx_set_up::<H>(#[trigger] rest[i])
            by {
            assert(init::tx_set_up::<H>(queues[i]));
        }
        lemma_tx_places_set_up::<H>(rest, p, id);
    }
}

/// After a device is set up, each buffer of the pools of its receive queues is in exactly one
/// place, and the buffers of all other pools are where they were.
pub proof fn law_set_up_places<H: IxgbeHal>(
    dev: DeviceView,
    pools: Seq<PoolView>,
    first_pool: int,
    p: PoolId,
    id: usize,
)
    requires
        init::set_up::<H>(dev, pools, first_pool),
        0 <= first_pool,
        p < pools.len(),
    ensures
        places(dev, pools, p, id) == if p < first_pool {
            occurs(pools[p as int].free, id)
        } else if id < pools[p as int].num_entries {
            1nat
        } else {
            0nat
        },
{
    lemma_rx_places_set_up::<H>(dev.rx, first_pool, p, id);
    lemma_tx_places_set_up::<H>(dev.tx, p, id);
    if p >= first_pool {
        let pool = pools[p as int];
        assert(init::queue_pool::<H>(pool, init::FIRST_FREE as int));
        let bufs = init::first_bufs();
        lemma_occurs_once(pool.free, id);
        lemma_occurs_once(bufs, id);
        if id < init::FIRST_FREE {
            assert(pool.free[id as int] == id);
        } else if id < init::MIN_MEMPOOL_SIZE {
            assert(bufs[init::MIN_MEMPOOL_SIZE - 1 - id] == id);
        }
    }
}

/// A device that is set up is ready for use: it is well formed, its buffers are those of its pools,
/// and no buffer is in two places, where this held of the pools that were there before.
pub proof fn law_set_up_ready<H: IxgbeHal>(dev: DeviceView, pools: Seq<PoolView>, first_pool: int)
    requires
        init::set_up::<H>(dev, pools, first_pool),
        0 <= first_pool,
        forall|k: int| 0 <= k < first_pool ==> (#[trigger] pools[k]).wf(),
        forall|k: int, id: usize|
            0 <= k < first_pool ==> #[trigger] occurs(pools[k].free, id) <= 1,
    ensures
        dev.bufs_wf(pools),
        exclusive(dev, pools),
{
    assert forall|k: int| 0 <= k < pools.len() implies (#[trigger] pools[k]).wf() by {
        if k >= first_pool {
            assert(init::queue_pool::<H>(pools[k], init::FIRST_FREE as int));
        }
    }
    assert forall|i: int| 0 <= i < dev.tx.len() implies (#[trigger] dev.tx[i]).pool_wf(pools) by {
        assert(init::tx_set_up::<H>(dev.tx[i]));
    }
    assert forall|p: PoolId, id: usize| p < pools.len() implies #[trigger] places(
        dev,
        pools,
        p,
        id,
    ) <= 1 by {
        law_set_up_places::<H>(dev, pools, first_pool, p, id);
        if p < first_pool {
            assert(occurs(pools[p as int].free, id) <= 1);
        }
    }
}

} // verus!
