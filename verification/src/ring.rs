//! Descriptor rings: the receive and the transmit queues.

use crate::constants::{IXGBE_ADVTXD_STAT_DD, IXGBE_RXDADV_STAT_DD, IXGBE_RXDADV_STAT_EOP};
use crate::memory::{lemma_pool_changed, pool_views, MemPool, PhysAddr, PoolId, PoolView, VirtAddr};
use std::collections::VecDeque;
use vstd::arithmetic::power2::{lemma_pow2_pos, lemma_pow2_unfold, pow2};
use vstd::bits::lemma_usize_low_bits_mask_is_mod;
use vstd::prelude::*;

verus! {

/// The number of transmit descriptors that are cleaned at once.
pub const TX_CLEAN_BATCH: usize = 32;

/// The size of a descriptor in bytes.
pub const DESCRIPTOR_SIZE: usize = 16;

/// `n` is a power of two.
pub open spec fn is_power_of_two(n: int) -> bool {
    exists|k: nat| n == #[trigger] pow2(k)
}

/// A number has no bit in common with its predecessor exactly if it is a power of two.
pub proof fn lemma_power_of_two_bits(n: usize)
    requires
        n > 0,
    ensures
        n & ((n - 1) as usize) == 0 <==> is_power_of_two(n as int),
    decreases n,
{
    if n & ((n - 1) as usize) == 0 {
        lemma_single_bit_is_power(n);
    }
    if is_power_of_two(n as int) {
        lemma_masked_is_remainder(n, n);
        vstd::arithmetic::div_mod::lemma_mod_self_0(n as int);
    }
}

proof fn lemma_single_bit_is_power(n: usize)
    requires
        n > 0,
        n & ((n - 1) as usize) == 0,
    ensures
        is_power_of_two(n as int),
    decreases n,
{
    if n == 1 {
        assert(pow2(0) == 1) by {
            vstd::arithmetic::power2::lemma2_to64();
        }
    } else {
        let m: usize = (n - 1) as usize;
        let half: usize = (n / 2) as usize;
        let less: usize = (half - 1) as usize;
        assert(n % 2 == 0 && half & less == 0) by (bit_vector)
            requires
                n > 1,
                m == n - 1,
                n & m == 0,
                half == n / 2,
                less == half - 1,
        ;
        lemma_single_bit_is_power(half);
        let k = choose|k: nat| half == #[trigger] pow2(k);
        lemma_pow2_unfold(k + 1);
        assert(n == pow2(k + 1));
    }
}

/// Masking with one less than a power of two takes the remainder.
pub proof fn lemma_masked_is_remainder(x: usize, n: usize)
    requires
        is_power_of_two(n as int),
    ensures
        n > 0,
        x & ((n - 1) as usize) == x % n,
{
    let k = choose|k: nat| n == #[trigger] pow2(k);
    lemma_pow2_pos(k);
    assert(k < usize::BITS) by {
        if k >= usize::BITS {
            vstd::arithmetic::power2::lemma2_to64();
            if usize::BITS == 32 {
                lemma_pow2_grows(32, k);
            } else {
                lemma_pow2_grows(64, k);
            }
        }
    }
    lemma_usize_low_bits_mask_is_mod(x, k);
}

proof fn lemma_pow2_grows(a: nat, b: nat)
    requires
        a <= b,
    ensures
        pow2(a) <= pow2(b),
    decreases b,
{
    if a < b {
        lemma_pow2_grows(a, (b - 1) as nat);
        lemma_pow2_unfold(b);
        lemma_pow2_pos((b - 1) as nat);
    }
}

/// The place `x` of a ring of `n` entries, counted on from the start of the ring once it is passed.
pub open spec fn wrapped(x: int, n: int) -> int {
    if x < n {
        x
    } else {
        x - n
    }
}

/// Returns the index that follows `index` in a ring of `ring_size` entries.
///
/// Where the size is a power of two, the index after the last is the first.
pub fn wrap_ring(index: usize, ring_size: usize) -> (r: usize)
    requires
        index < usize::MAX,
        ring_size > 0,
    ensures
        r == ((index + 1) as usize) & ((ring_size - 1) as usize),
        is_power_of_two(ring_size as int) ==> r == (index + 1) % ring_size as int,
        is_power_of_two(ring_size as int) && index < ring_size ==> r == wrapped(
            index + 1,
            ring_size as int,
        ),
{
    proof {
        if is_power_of_two(ring_size as int) {
            lemma_masked_is_remainder((index + 1) as usize, ring_size);
            if index < ring_size {
                lemma_wrap(index + 1, ring_size as int);
            }
        }
    }
    (index + 1) & (ring_size - 1)
}

/// A number less than twice the ring size, taken round the ring.
pub proof fn lemma_wrap(x: int, n: int)
    requires
        0 <= x < 2 * n,
    ensures
        x % n == wrapped(x, n),
{
    if x < n {
        vstd::arithmetic::div_mod::lemma_small_mod(x as nat, n as nat);
    } else {
        vstd::arithmetic::div_mod::lemma_fundamental_div_mod_converse(x, n, 1, x - n);
    }
}

/// What the card wrote back to a receive descriptor.
#[derive(Clone, Copy, Debug, PartialEq, Eq, Structural)]
pub struct RxWriteback {
    pub status_error: u32,
    pub length: u16,
}

impl RxWriteback {
    /// The card has filled the buffer of the descriptor.
    pub open spec fn done(self) -> bool {
        self.status_error & IXGBE_RXDADV_STAT_DD != 0
    }

    /// The packet ends in the buffer of the descriptor.
    pub open spec fn end_of_packet(self) -> bool {
        self.status_error & IXGBE_RXDADV_STAT_EOP != 0
    }
}

/// A receive queue: a ring of descriptors, each of which always has a buffer.
pub struct IxgbeRxQueue {
    pub descriptors: VirtAddr,
    pub ring_phys: PhysAddr,
    pub num_descriptors: usize,
    pub pool: PoolId,
    pub bufs_in_use: Vec<usize>,
    pub rx_index: usize,
}

/// What a receive queue is, as a mathematical value.
pub struct RxView {
    pub descriptors: int,
    pub ring_phys: PhysAddr,
    pub num_descriptors: int,
    pub pool: PoolId,
    pub bufs: Seq<usize>,
    pub rx_index: int,
}

impl View for IxgbeRxQueue {
    type V = RxView;

    open spec fn view(&self) -> RxView {
        RxView {
            descriptors: self.descriptors as int,
            ring_phys: self.ring_phys,
            num_descriptors: self.num_descriptors as int,
            pool: self.pool,
            bufs: self.bufs_in_use@,
            rx_index: self.rx_index as int,
        }
    }
}

/// The ring of `num` descriptors at `descriptors` lies in memory, and `num` can be a ring size.
pub open spec fn ring_wf(descriptors: int, num: int) -> bool {
    &&& 0 < num <= i32::MAX
    &&& is_power_of_two(num)
    &&& 0 <= descriptors
    &&& descriptors + num * DESCRIPTOR_SIZE <= usize::MAX
}

impl RxView {
    /// Each descriptor of the ring has a buffer of the queue's pool.
    pub open spec fn wf(self, pools: Seq<PoolView>) -> bool {
        &&& ring_wf(self.descriptors, self.num_descriptors)
        &&& 0 <= self.rx_index < self.num_descriptors
        &&& self.bufs.len() == self.num_descriptors
        &&& self.pool < pools.len()
        &&& forall|i: int|
            0 <= i < self.bufs.len() ==> (#[trigger] self.bufs[i])
                < pools[self.pool as int].num_entries
    }

    /// The address of descriptor `i`.
    pub open spec fn descriptor(self, i: int) -> int {
        self.descriptors + i * DESCRIPTOR_SIZE
    }

    /// The index that follows `i` in the ring.
    pub open spec fn after(self, i: int) -> int {
        wrapped(i + 1, self.num_descriptors)
    }
}

impl IxgbeRxQueue {
    /// Returns the addresses of the status and of the length that the card writes to the descriptor
    /// `ahead` places after the receive index.
    pub fn head_addrs(&self, ahead: usize) -> (r: (VirtAddr, VirtAddr))
        requires
            ring_wf(self@.descriptors, self@.num_descriptors),
            self@.rx_index + ahead <= usize::MAX,
        ensures
            ({
                let desc = self@.descriptor((self@.rx_index + ahead) % self@.num_descriptors);
                &&& r.0 == desc + 8
                &&& r.1 == desc + 12
            }),
    {
        let index: usize = (self.rx_index + ahead) % self.num_descriptors;
        let desc: usize = self.descriptors + index * DESCRIPTOR_SIZE;
        (desc + 8, desc + 12)
    }

    /// Whether a packet can be received, given the status of the descriptor at the receive index.
    pub fn can_recv(&self, status: u32) -> (r: bool)
        ensures
            r == (status & IXGBE_RXDADV_STAT_DD != 0),
    {
        status & IXGBE_RXDADV_STAT_DD != 0
    }
}

/// A transmit queue: a ring of descriptors, of which those from the clean index up to the transmit
/// index have a buffer that the card may still read.
pub struct IxgbeTxQueue {
    pub descriptors: VirtAddr,
    pub ring_phys: PhysAddr,
    pub num_descriptors: usize,
    pub pool: Option<PoolId>,
    pub bufs_in_use: VecDeque<usize>,
    pub clean_index: usize,
    pub tx_index: usize,
}

/// What a transmit queue is, as a mathematical value.
pub struct TxView {
    pub descriptors: int,
    pub ring_phys: PhysAddr,
    pub num_descriptors: int,
    pub pool: Option<PoolId>,
    pub bufs: Seq<usize>,
    pub clean_index: int,
    pub tx_index: int,
}

impl View for IxgbeTxQueue {
    type V = TxView;

    open spec fn view(&self) -> TxView {
        TxView {
            descriptors: self.descriptors as int,
            ring_phys: self.ring_phys,
            num_descriptors: self.num_descriptors as int,
            pool: self.pool,
            bufs: self.bufs_in_use@,
            clean_index: self.clean_index as int,
            tx_index: self.tx_index as int,
        }
    }
}

/// How many of the first `limit` status words, counted from `from` on, say one after the other that
/// the card is done: the index of the first that does not, or `limit`.
pub open spec fn done_up_to(statuses: Seq<u32>, from: int, limit: int) -> int
    decreases limit - from,
{
    if from >= limit || statuses[from] & IXGBE_ADVTXD_STAT_DD == 0 {
        from
    } else {
        done_up_to(statuses, from + 1, limit)
    }
}

impl TxView {
    /// The descriptors from the clean index up to the transmit index are those in use, and each
    /// has a buffer. A queue that has a buffer has a pool.
    pub open spec fn wf(self) -> bool {
        &&& ring_wf(self.descriptors, self.num_descriptors)
        &&& 0 <= self.clean_index < self.num_descriptors
        &&& 0 <= self.tx_index < self.num_descriptors
        &&& self.bufs.len() == self.in_use()
        &&& self.pool is None ==> self.bufs.len() == 0
    }

    /// The queue's pool exists, and the queue's buffers are entries of it.
    pub open spec fn pool_wf(self, pools: Seq<PoolView>) -> bool {
        self.pool matches Some(p) ==> {
            &&& p < pools.len()
            &&& forall|i: int|
                0 <= i < self.bufs.len() ==> (#[trigger] self.bufs[i])
                    < pools[p as int].num_entries
        }
    }

    /// The address of descriptor `i`.
    pub open spec fn descriptor(self, i: int) -> int {
        self.descriptors + i * DESCRIPTOR_SIZE
    }

    /// The index that follows `i` in the ring.
    pub open spec fn after(self, i: int) -> int {
        wrapped(i + 1, self.num_descriptors)
    }

    /// The number of descriptors in use.
    pub open spec fn in_use(self) -> int {
        if self.tx_index >= self.clean_index {
            self.tx_index - self.clean_index
        } else {
            self.tx_index - self.clean_index + self.num_descriptors
        }
    }

    /// No descriptor is left: the one that follows the transmit index is the next to be cleaned.
    pub open spec fn full(self) -> bool {
        self.after(self.tx_index) == self.clean_index
    }

    /// The number of whole batches in use.
    pub open spec fn batches(self) -> int {
        self.in_use() / TX_CLEAN_BATCH as int
    }

    /// The last descriptor of batch `j`, counted from the clean index.
    pub open spec fn batch_end(self, j: int) -> int {
        wrapped(self.clean_index + TX_CLEAN_BATCH * (j + 1) - 1, self.num_descriptors)
    }

    /// How many buffers are cleaned, given the status of the last descriptor of each batch.
    pub open spec fn cleanable(self, statuses: Seq<u32>) -> int {
        TX_CLEAN_BATCH * done_up_to(statuses, 0, self.batches())
    }

    /// The queue after cleaning: the buffers that were sent first are gone.
    pub open spec fn cleaned(self, statuses: Seq<u32>) -> TxView {
        self.without_first(self.cleanable(statuses))
    }

    /// The pools after cleaning: the buffers are free, in the order in which they were sent.
    pub open spec fn cleaned_pools(
        self,
        pools: Seq<PoolView>,
        statuses: Seq<u32>,
    ) -> Seq<PoolView> {
        self.first_freed(pools, self.cleanable(statuses))
    }

    /// The queue without its first `count` descriptors in use.
    pub open spec fn without_first(self, count: int) -> TxView {
        TxView {
            clean_index: wrapped(self.clean_index + count, self.num_descriptors),
            bufs: self.bufs.skip(count),
            ..self
        }
    }

    /// The pools with the first `count` buffers of the queue added to the free ones of its pool.
    pub open spec fn first_freed(self, pools: Seq<PoolView>, count: int) -> Seq<PoolView> {
        match self.pool {
            Some(p) => pools.update(
                p as int,
                PoolView {
                    free: pools[p as int].free + self.bufs.take(count),
                    ..pools[p as int]
                },
            ),
            None => pools,
        }
    }
}

/// As many status words are done as there are, at most.
pub proof fn lemma_done_up_to(statuses: Seq<u32>, from: int, limit: int)
    requires
        from <= limit,
    ensures
        from <= done_up_to(statuses, from, limit) <= limit,
    decreases limit - from,
{
    if !(from >= limit || statuses[from] & IXGBE_ADVTXD_STAT_DD == 0) {
        lemma_done_up_to(statuses, from + 1, limit);
    }
}

/// No more is cleaned than is in use.
pub proof fn lemma_cleanable(queue: TxView, statuses: Seq<u32>)
    requires
        queue.wf(),
    ensures
        0 <= queue.cleanable(statuses) <= queue.in_use(),
{
    lemma_done_up_to(statuses, 0, queue.batches());
}

/// Moving the clean index on by `k` descriptors in use leaves `k` fewer in use.
pub proof fn lemma_clean_index(queue: TxView, k: int)
    requires
        0 <= queue.clean_index < queue.num_descriptors,
        0 <= queue.tx_index < queue.num_descriptors,
        0 <= k <= queue.in_use(),
    ensures
        ({
            let next = wrapped(queue.clean_index + k, queue.num_descriptors);
            &&& 0 <= next < queue.num_descriptors
            &&& (TxView { clean_index: next, ..queue }).in_use() == queue.in_use() - k
        }),
{
}

impl IxgbeTxQueue {
    /// Returns the addresses of the status words that cleaning the queue needs: that of the last
    /// descriptor of each batch in use, in order.
    pub fn clean_probes(&self) -> (r: Vec<VirtAddr>)
        requires
            self@.wf(),
        ensures
            r@.len() == self@.batches(),
            forall|j: int|
                0 <= j < r@.len() ==> #[trigger] r@[j] == self@.descriptor(self@.batch_end(j)) + 12,
    {
        let ghost q = self@;
        let mut in_use: usize = if self.tx_index >= self.clean_index {
            self.tx_index - self.clean_index
        } else {
            self.num_descriptors - (self.clean_index - self.tx_index)
        };
        let mut index: usize = self.clean_index;
        let mut r: Vec<VirtAddr> = Vec::new();
        while in_use >= TX_CLEAN_BATCH
            invariant
                q == self@,
                q.wf(),
                in_use == q.in_use() - TX_CLEAN_BATCH * r@.len(),
                index == q.clean_index + TX_CLEAN_BATCH * r@.len(),
                forall|j: int|
                    0 <= j < r@.len() ==> #[trigger] r@[j] == q.descriptor(q.batch_end(j)) + 12,
            decreases in_use,
        {
            let mut last: usize = index + TX_CLEAN_BATCH - 1;
            if last >= self.num_descriptors {
                last = last - self.num_descriptors;
            }
            r.push(self.descriptors + last * DESCRIPTOR_SIZE + 12);
            index = index + TX_CLEAN_BATCH;
            in_use = in_use - TX_CLEAN_BATCH;
        }
        r
    }
}

impl IxgbeTxQueue {
    /// Returns whether a packet of pool number `pool` can be handed to the queue: the queue has
    /// that pool, or none of its buffers is left after cleaning it, given the statuses.
    pub fn takes_pool(&self, pool: PoolId, statuses: &[u32]) -> (r: bool)
        requires
            self@.wf(),
            statuses@.len() >= self@.batches(),
        ensures
            r == (self@.pool == Some(pool) || self@.cleaned(statuses@).bufs.len() == 0),
    {
        let ghost q = self@;
        let in_use: usize = self.bufs_in_use.len();
        let mut batch: usize = 0;
        let mut left: usize = in_use;
        while left >= TX_CLEAN_BATCH && (statuses[batch] & IXGBE_ADVTXD_STAT_DD) != 0
            invariant
                q == self@,
                q.wf(),
                statuses@.len() >= q.batches(),
                in_use == q.in_use(),
                left == in_use - TX_CLEAN_BATCH * batch,
                left >= TX_CLEAN_BATCH ==> batch < statuses@.len(),
                batch <= q.batches(),
                done_up_to(statuses@, batch as int, q.batches()) == done_up_to(
                    statuses@,
                    0,
                    q.batches(),
                ),
            decreases left,
        {
            batch = batch + 1;
            left = left - TX_CLEAN_BATCH;
        }
        let same: bool = match self.pool {
            Some(own) => own == pool,
            None => false,
        };
        same || left == 0
    }
}

/// Moves the first `count` buffers of `bufs` to the free ones of `pool`.
fn release(bufs: &mut VecDeque<usize>, pool: &mut MemPool, count: usize)
    requires
        count <= old(bufs)@.len(),
    ensures
        final(bufs)@ == old(bufs)@.skip(count as int),
        final(pool)@ == (PoolView {
            free: old(pool)@.free + old(bufs)@.take(count as int),
            ..old(pool)@
        }),
{
    let ghost all = bufs@;
    let ghost before = pool@;
    let mut i: usize = 0;
    while i < count
        invariant
            i <= count <= all.len(),
            bufs@ == all.skip(i as int),
            pool@ == (PoolView { free: before.free + all.take(i as int), ..before }),
        decreases count - i,
    {
        let id: usize = bufs.pop_front().unwrap();
        pool.free_stack.push(id);
        i = i + 1;
        assert(bufs@ =~= all.skip(i as int));
        assert(pool@.free =~= before.free + all.take(i as int));
    }
}

/// Removes multiples of `TX_CLEAN_BATCH` packets from `queue` and frees their buffers. Returns the
/// new clean index.
///
/// The status of the last descriptor of a batch tells whether the card is done with the batch;
/// `statuses` holds those, in the order of [`IxgbeTxQueue::clean_probes`].
pub fn clean_tx_queue(
    queue: &mut IxgbeTxQueue,
    pools: &mut Vec<MemPool>,
    statuses: &[u32],
) -> (r: usize)
    requires
        old(queue)@.wf(),
        old(queue).pool matches Some(p) ==> p < old(pools)@.len(),
        statuses@.len() >= old(queue)@.batches(),
    ensures
        final(queue)@ == old(queue)@.cleaned(statuses@),
        final(queue)@.wf(),
        pool_views(final(pools)@) == old(queue)@.cleaned_pools(
            pool_views(old(pools)@),
            statuses@,
        ),
        r == final(queue).clean_index,
{
    let ghost q = queue@;
    let ghost pv = pool_views(pools@);
    let ghost limit = q.batches();
    let mut clean_index: usize = queue.clean_index;
    let cur_index: usize = queue.tx_index;
    let mut batch: usize = 0;
    proof {
        assert(q.bufs.skip(0) =~= q.bufs);
        assert(pv =~= q.first_freed(pv, 0)) by {
            if q.pool is Some {
                let free = pv[q.pool->0 as int].free;
                assert(free + q.bufs.take(0) =~= free);
            }
        }
    }
    loop
        invariant
            q.wf(),
            q.pool matches Some(p) ==> p < pv.len(),
            limit == q.batches(),
            statuses@.len() >= limit,
            batch <= limit,
            cur_index == q.tx_index,
            clean_index == q.without_first(TX_CLEAN_BATCH * batch).clean_index,
            queue@ == (TxView {
                clean_index: q.clean_index,
                ..q.without_first(TX_CLEAN_BATCH * batch)
            }),
            pool_views(pools@) == q.first_freed(pv, TX_CLEAN_BATCH * batch),
            done_up_to(statuses@, batch as int, limit) == done_up_to(statuses@, 0, limit),
        ensures
            batch == done_up_to(statuses@, 0, limit),
        decreases limit - batch,
    {
        let ghost gone = TX_CLEAN_BATCH * batch;
        proof {
            lemma_clean_index(q, gone);
        }
        let mut cleanable: i32 = cur_index as i32 - clean_index as i32;
        if cleanable < 0 {
            cleanable = cleanable + queue.num_descriptors as i32;
        }
        assert(cleanable == q.in_use() - gone);
        if cleanable < TX_CLEAN_BATCH as i32 {
            break;
        }
        let mut cleanup_to: usize = clean_index + TX_CLEAN_BATCH - 1;
        if cleanup_to >= queue.num_descriptors {
            cleanup_to = cleanup_to - queue.num_descriptors;
        }
        let status: u32 = statuses[batch];
        if (status & IXGBE_ADVTXD_STAT_DD) != 0 {
            if let Some(p) = queue.pool {
                let len: usize = queue.bufs_in_use.len();
                let count: usize = if TX_CLEAN_BATCH >= len {
                    len
                } else {
                    TX_CLEAN_BATCH
                };
                assert(pools@.len() == pool_views(pools@).len());
                let ghost mid = pools@;
                release(&mut queue.bufs_in_use, &mut pools[p], count);
                proof {
                    assert(pools@ =~= mid.update(p as int, pools@[p as int]));
                    lemma_pool_changed(mid, p as int, pools@[p as int]);
                    assert(q.bufs.skip(gone).skip(count as int) =~= q.bufs.skip(gone + count));
                    assert(pv[p as int].free + q.bufs.take(gone) + q.bufs.skip(gone).take(
                        count as int,
                    ) =~= pv[p as int].free + q.bufs.take(gone + count));
                    assert(pool_views(pools@) =~= q.first_freed(pv, gone + count));
                }
            }
            clean_index = wrap_ring(cleanup_to, queue.num_descriptors);
            batch = batch + 1;
        } else {
            break;
        }
    }
    proof {
        lemma_clean_index(q, TX_CLEAN_BATCH * batch);
    }
    queue.clean_index = clean_index;
    clean_index
}

} // verus!
