//! Packet buffers: DMA memory, the pools that cut it into buffers, and packets.

use crate::hal::IxgbeHal;
use crate::stats::{decimal, push_decimal};
use crate::IxgbeResult;
use vstd::prelude::*;
use vstd::slice::slice_subrange;
use vstd::string::StringExecFns;

verus! {

/// Physical address
pub type PhysAddr = usize;

/// Virtual address
pub type VirtAddr = usize;

/// The number of a pool: its index in the list of all pools.
///
/// Packets and queues name a pool by its number; two of them share a pool exactly when the numbers
/// are equal.
pub type PoolId = usize;

/// The size of a huge page, which every entry size of a pool divides.
pub const HUGE_PAGE_SIZE: usize = 0x20_0000;

/// The entry size of a pool for which no size is asked.
pub const DEFAULT_ENTRY_SIZE: usize = 2048;

/// The bytes that are left free in front of an outgoing packet.
pub const PACKET_HEADROOM: usize = 32;

/// A piece of DMA memory.
#[derive(Clone, Copy, Debug, PartialEq, Eq, Structural)]
pub struct Dma {
    pub virt: VirtAddr,
    pub phys: PhysAddr,
}

impl Dma {
    /// Allocates `size` bytes of DMA memory. What comes back is what the hardware layer returned
    /// for `size`.
    pub fn allocate<H: IxgbeHal>(size: usize, _require_contiguous: bool) -> (r: IxgbeResult<Dma>)
        requires
            size <= isize::MAX,
        ensures
            r is Ok,
            call_ensures(H::dma_alloc, (size,), (r->Ok_0.phys, r->Ok_0.virt)),
            r->Ok_0.virt != 0,
            r->Ok_0.virt + size <= usize::MAX,
            r->Ok_0.phys + size <= usize::MAX,
    {
        let (phys, virt) = H::dma_alloc(size);
        Ok(Dma { virt, phys })
    }
}

/// A memory pool: one piece of DMA memory, cut into entries of equal size, and the stack of the
/// entries that are free.
pub struct MemPool {
    pub base_addr: VirtAddr,
    pub num_entries: usize,
    pub entry_size: usize,
    pub phys_addr: Vec<PhysAddr>,
    pub free_stack: Vec<usize>,
}

/// What a pool is, as a mathematical value.
pub struct PoolView {
    pub base_addr: int,
    pub num_entries: int,
    pub entry_size: int,
    pub phys_addr: Seq<PhysAddr>,
    pub free: Seq<usize>,
}

impl View for MemPool {
    type V = PoolView;

    open spec fn view(&self) -> PoolView {
        PoolView {
            base_addr: self.base_addr as int,
            num_entries: self.num_entries as int,
            entry_size: self.entry_size as int,
            phys_addr: self.phys_addr@,
            free: self.free_stack@,
        }
    }
}

impl PoolView {
    /// The pool's memory lies in the address space, each entry has a physical address, and the
    /// free entries are entries of the pool.
    pub open spec fn wf(self) -> bool {
        &&& 0 < self.entry_size
        &&& 0 < self.base_addr
        &&& self.base_addr + self.num_entries * self.entry_size <= usize::MAX
        &&& self.phys_addr.len() == self.num_entries
        &&& forall|i: int|
            0 <= i < self.phys_addr.len() ==> #[trigger] self.phys_addr[i] + self.entry_size
                <= usize::MAX
        &&& forall|i: int| 0 <= i < self.free.len() ==> (#[trigger] self.free[i]) < self.num_entries
    }

    /// The virtual address of entry `id`.
    pub open spec fn virt(self, id: int) -> int {
        self.base_addr + id * self.entry_size
    }
}

/// The memory of the pool and the physical addresses of its entries are what the hardware layer
/// returned: the memory when asked for the bytes of all entries, each address when asked for that
/// of its entry.
pub open spec fn backed_by<H: IxgbeHal>(pool: PoolView) -> bool {
    &&& exists|phys: PhysAddr| #[trigger]
        call_ensures(
            H::dma_alloc,
            ((pool.num_entries * pool.entry_size) as usize,),
            (phys, pool.base_addr as usize),
        )
    &&& forall|i: int|
        0 <= i < pool.num_entries ==> call_ensures(
            H::mmio_virt_to_phys,
            (pool.virt(i) as usize, pool.entry_size as usize),
            #[trigger] pool.phys_addr[i],
        )
}

/// The pools of a list as mathematical values.
pub open spec fn pool_views(pools: Seq<MemPool>) -> Seq<PoolView> {
    pools.map_values(|p: MemPool| p@)
}

/// A pool that changes in a list changes the list of values at its place only.
pub proof fn lemma_pool_changed(pools: Seq<MemPool>, p: int, pool: MemPool)
    requires
        0 <= p < pools.len(),
    ensures
        pool_views(pools).len() == pools.len(),
        pool_views(pools)[p] == pools[p]@,
        pool_views(pools.update(p, pool)) == pool_views(pools).update(p, pool@),
{
    assert(pool_views(pools.update(p, pool)) =~= pool_views(pools).update(p, pool@));
}

/// Every pool of the list is well formed.
pub open spec fn pools_wf(pools: Seq<PoolView>) -> bool {
    forall|i: int| 0 <= i < pools.len() ==> (#[trigger] pools[i]).wf()
}

/// The entry size that a pool gets when `size` is asked.
pub open spec fn entry_size_for(size: usize) -> usize {
    if size == 0 {
        DEFAULT_ENTRY_SIZE
    } else {
        size
    }
}

impl MemPool {
    /// Allocates a new `MemPool` of `entries` entries of `size` bytes each (2048 for a `size` of
    /// zero). All of them are free; the entry that is handed out first is the last one.
    ///
    /// The entry size must be a divisor of the page size. Allocating does not fail.
    pub fn allocate<H: IxgbeHal>(entries: usize, size: usize) -> (r: IxgbeResult<MemPool>)
        requires
            HUGE_PAGE_SIZE % entry_size_for(size) == 0,
            entries * entry_size_for(size) <= isize::MAX,
        ensures
            r is Ok,
            ({
                let pool = r->Ok_0;
                &&& pool@.wf()
                &&& pool.num_entries == entries
                &&& pool.entry_size == entry_size_for(size)
                &&& pool@.free == Seq::new(entries as nat, |i: int| i as usize)
                &&& backed_by::<H>(pool@)
            }),
    {
        let entry_size: usize = if size == 0 {
            DEFAULT_ENTRY_SIZE
        } else {
            size
        };
        let dma = match Dma::allocate::<H>(entries * entry_size, false) {
            Ok(dma) => dma,
            Err(e) => return Err(e),
        };
        let mut phys_addr: Vec<PhysAddr> = Vec::with_capacity(entries);
        let mut i: usize = 0;
        while i < entries
            invariant
                i <= entries,
                entry_size == entry_size_for(size),
                0 < entry_size,
                dma.virt + entries * entry_size <= usize::MAX,
                phys_addr.len() == i,
                forall|j: int|
                    0 <= j < i ==> {
                        &&& #[trigger] phys_addr@[j] + entry_size <= usize::MAX
                        &&& call_ensures(
                            H::mmio_virt_to_phys,
                            ((dma.virt + j * entry_size) as usize, entry_size),
                            phys_addr@[j],
                        )
                    },
            decreases entries - i,
        {
            assert(i * entry_size + entry_size <= entries * entry_size) by (nonlinear_arith)
                requires
                    i + 1 <= entries,
            ;
            phys_addr.push(H::mmio_virt_to_phys(dma.virt + i * entry_size, entry_size));
            i = i + 1;
        }
        let pool = MemPool::from_parts(dma.virt, entry_size, phys_addr);
        assert(call_ensures(
            H::dma_alloc,
            ((pool@.num_entries * pool@.entry_size) as usize,),
            (dma.phys, pool@.base_addr as usize),
        ));
        Ok(pool)
    }

    /// The pool of the memory at `base_addr` whose entries have `entry_size` bytes and the given
    /// physical addresses. All entries are free.
    pub fn from_parts(
        base_addr: VirtAddr,
        entry_size: usize,
        phys_addr: Vec<PhysAddr>,
    ) -> (pool: MemPool)
        ensures
            pool@ == (PoolView {
                base_addr: base_addr as int,
                num_entries: phys_addr@.len() as int,
                entry_size: entry_size as int,
                phys_addr: phys_addr@,
                free: Seq::new(phys_addr@.len(), |i: int| i as usize),
            }),
    {
        let entries: usize = phys_addr.len();
        let mut free_stack: Vec<usize> = Vec::with_capacity(entries);
        let mut i: usize = 0;
        while i < entries
            invariant
                i <= entries,
                free_stack@ == Seq::new(i as nat, |j: int| j as usize),
            decreases entries - i,
        {
            free_stack.push(i);
            i = i + 1;
        }
        MemPool { base_addr, num_entries: entries, entry_size, phys_addr, free_stack }
    }

    /// Returns the position of a free buffer in the memory pool, or [`None`] if the pool is empty.
    pub fn alloc_buf(&mut self) -> (r: Option<usize>)
        ensures
            r is None <==> old(self)@.free.len() == 0,
            r is None ==> final(self)@ == old(self)@,
            r matches Some(id) ==> {
                &&& id == old(self)@.free.last()
                &&& final(self)@ == (PoolView { free: old(self)@.free.drop_last(), ..old(self)@ })
            },
    {
        self.free_stack.pop()
    }

    /// Marks a buffer in the memory pool as free. The buffer must be one of the pool's, and not be
    /// free already.
    pub fn free_buf(&mut self, id: usize)
        requires
            id < old(self).num_entries,
            !old(self)@.free.contains(id),
        ensures
            final(self)@ == (PoolView { free: old(self)@.free.push(id), ..old(self)@ }),
    {
        self.free_stack.push(id);
    }

    /// Returns the entry size.
    pub fn entry_size(&self) -> (r: usize)
        ensures
            r == self@.entry_size,
    {
        self.entry_size
    }

    /// Returns the virtual address of a buffer from the memory pool.
    pub fn get_virt_addr(&self, id: usize) -> (r: VirtAddr)
        requires
            self@.wf(),
            id < self.num_entries,
        ensures
            r == self@.virt(id as int),
    {
        proof {
            lemma_entry_in_pool(self@, id as int);
        }
        self.base_addr + id * self.entry_size
    }

    /// Returns the physical address of a buffer from the memory pool.
    pub fn get_phys_addr(&self, id: usize) -> (r: PhysAddr)
        requires
            id < self@.phys_addr.len(),
        ensures
            r == self@.phys_addr[id as int],
    {
        self.phys_addr[id]
    }
}

/// An entry ends inside the memory of its pool.
pub proof fn lemma_entry_in_pool(pool: PoolView, id: int)
    requires
        pool.wf(),
        0 <= id < pool.num_entries,
    ensures
        0 <= id * pool.entry_size,
        pool.base_addr <= pool.virt(id),
        pool.virt(id) + pool.entry_size <= pool.base_addr + pool.num_entries * pool.entry_size,
        pool.virt(id) + pool.entry_size <= usize::MAX,
{
    assert(id * pool.entry_size + pool.entry_size <= pool.num_entries * pool.entry_size)
        by (nonlinear_arith)
        requires
            0 <= id < pool.num_entries,
            0 < pool.entry_size,
    ;
    assert(0 <= id * pool.entry_size) by (nonlinear_arith)
        requires
            0 <= id,
            0 < pool.entry_size,
    ;
}

/// A packet: a buffer of a pool, and the bytes in it that hold the data.
///
/// Whoever holds a packet owns its buffer. The buffer goes back to its pool by [`Packet::free`], or
/// by way of a transmit queue.
pub struct Packet {
    pub addr_virt: VirtAddr,
    pub addr_phys: PhysAddr,
    pub len: usize,
    pub pool: PoolId,
    pub pool_entry: usize,
}

/// The packet of `len` bytes that starts `offset` bytes into entry `id` of pool `number`.
pub open spec fn packet_at(
    pool: PoolView,
    number: PoolId,
    id: usize,
    offset: int,
    len: usize,
) -> Packet {
    Packet {
        addr_virt: (pool.virt(id as int) + offset) as usize,
        addr_phys: (pool.phys_addr[id as int] + offset) as usize,
        len,
        pool: number,
        pool_entry: id,
    }
}

impl Packet {
    /// The data of the packet are bytes of its own buffer.
    pub open spec fn in_entry(self, pool: PoolView) -> bool {
        &&& self.pool_entry < pool.num_entries
        &&& pool.virt(self.pool_entry as int) <= self.addr_virt
        &&& self.addr_virt + self.len <= pool.virt(self.pool_entry as int) + pool.entry_size
    }

    /// The buffer of the packet belongs to its pool and is not free: the packet owns it.
    pub open spec fn live(self, pools: Seq<PoolView>) -> bool {
        &&& self.pool < pools.len()
        &&& self.pool_entry < pools[self.pool as int].num_entries
        &&& !pools[self.pool as int].free.contains(self.pool_entry)
    }

    /// The data of the packet, where `memory` holds the bytes from address `base` on.
    pub open spec fn bytes(self, memory: Seq<u8>, base: VirtAddr) -> Seq<u8> {
        memory.subrange(self.addr_virt - base, self.addr_virt - base + self.len)
    }

    /// Returns a new `Packet`.
    pub fn new(
        addr_virt: VirtAddr,
        addr_phys: PhysAddr,
        len: usize,
        pool: PoolId,
        pool_entry: usize,
    ) -> (p: Packet)
        ensures
            p == (Packet { addr_virt, addr_phys, len, pool, pool_entry }),
    {
        Packet { addr_virt, addr_phys, len, pool, pool_entry }
    }

    /// Returns the virtual address of the packet.
    pub fn get_virt_addr(&self) -> (r: VirtAddr)
        ensures
            r == self.addr_virt,
    {
        self.addr_virt
    }

    /// Returns the physical address of the packet.
    pub fn get_phys_addr(&self) -> (r: PhysAddr)
        ensures
            r == self.addr_phys,
    {
        self.addr_phys
    }

    /// Returns all data in the buffer, not including the header. `memory` holds the bytes from
    /// address `base` on.
    pub fn as_bytes<'a>(&self, memory: &'a [u8], base: VirtAddr) -> (r: &'a [u8])
        requires
            base <= self.addr_virt,
            self.addr_virt - base + self.len <= memory@.len(),
        ensures
            r@ == self.bytes(memory@, base),
    {
        let start: usize = self.addr_virt - base;
        assert(memory.len() == memory@.len());
        slice_subrange(memory, start, start + self.len)
    }

    /// Returns all data in the buffer for writing, not including the header. `memory` holds the
    /// bytes from address `base` on; those outside the packet stay as they are.
    pub fn as_mut_bytes<'a>(&mut self, memory: &'a mut [u8], base: VirtAddr) -> (r: &'a mut [u8])
        requires
            base <= old(self).addr_virt,
            old(self).addr_virt - base + old(self).len <= old(memory)@.len(),
        ensures
            *final(self) == *old(self),
            r@ == old(self).bytes(old(memory)@, base),
            final(memory)@ == old(memory)@.take(old(self).addr_virt - base) + final(r)@
                + old(memory)@.skip(old(self).addr_virt - base + old(self).len),
    {
        let start: usize = self.addr_virt - base;
        let (_, rest) = memory.split_at_mut(start);
        let (data, _) = rest.split_at_mut(self.len);
        data
    }

    /// Returns the last `len` bytes of the headroom of the packet, the bytes just in front of its
    /// data, for writing. `memory` holds the bytes from address `base` on; those outside the
    /// headroom stay as they are.
    pub fn headroom_mut<'a>(
        &mut self,
        len: usize,
        memory: &'a mut [u8],
        base: VirtAddr,
    ) -> (r: &'a mut [u8])
        requires
            len <= PACKET_HEADROOM,
            base + len <= old(self).addr_virt,
            old(self).addr_virt - base <= old(memory)@.len(),
        ensures
            *final(self) == *old(self),
            r@ == old(memory)@.subrange(
                old(self).addr_virt - base - len,
                old(self).addr_virt - base,
            ),
            final(memory)@ == old(memory)@.take(old(self).addr_virt - base - len) + final(r)@
                + old(memory)@.skip(old(self).addr_virt - base),
    {
        let end: usize = self.addr_virt - base;
        let (_, rest) = memory.split_at_mut(end - len);
        let (room, _) = rest.split_at_mut(len);
        room
    }

    /// Returns a packet of the same pool with the same data. `memory` holds the memory of the pool.
    ///
    /// A buffer of the pool must be free, and the data must fit behind its headroom.
    pub fn clone_in(&self, pools: &mut Vec<MemPool>, memory: &mut [u8]) -> (p: Packet)
        requires
            self.live(pool_views(old(pools)@)),
            ({
                let pool = pool_views(old(pools)@)[self.pool as int];
                &&& pool.wf()
                &&& self.in_entry(pool)
                &&& self.len + PACKET_HEADROOM <= pool.entry_size
                &&& pool.free.len() > 0
                &&& old(memory)@.len() == pool.num_entries * pool.entry_size
            }),
        ensures
            ({
                let pool = pool_views(old(pools)@)[self.pool as int];
                let base = pool.base_addr as usize;
                &&& p == packet_at(
                    pool,
                    self.pool,
                    pool.free.last(),
                    PACKET_HEADROOM as int,
                    self.len,
                )
                &&& pool_views(final(pools)@) == taken_from(pool_views(old(pools)@), self.pool)
                &&& p.bytes(final(memory)@, base) == self.bytes(old(memory)@, base)
                &&& final(memory)@.len() == old(memory)@.len()
                &&& forall|i: int|
                    0 <= i < old(memory)@.len() && !(p.addr_virt - base <= i < p.addr_virt - base
                        + p.len) ==> #[trigger] final(memory)@[i] == old(memory)@[i]
            }),
    {
        let ghost pool = pool_views(pools@)[self.pool as int];
        assert(pool == pools@[self.pool as int]@);
        let base: VirtAddr = pools[self.pool].base_addr;
        let p = alloc_pkt(pools, self.pool, self.len).unwrap();
        proof {
            assert(pool.free[pool.free.len() - 1] < pool.num_entries);
            assert(pool.free.contains(pool.free.last()));
            assert(p.pool_entry != self.pool_entry);
            lemma_entry_in_pool(pool, p.pool_entry as int);
            lemma_entry_in_pool(pool, self.pool_entry as int);
            lemma_entries_apart(pool, p.pool_entry as int, self.pool_entry as int);
        }
        let from: usize = self.addr_virt - base;
        let to: usize = p.addr_virt - base;
        let ghost before = memory@;
        let mut i: usize = 0;
        while i < self.len
            invariant
                i <= self.len,
                before.len() <= usize::MAX,
                from + self.len <= before.len(),
                to + self.len <= before.len(),
                from + self.len <= to || to + self.len <= from,
                memory@.len() == before.len(),
                forall|j: int|
                    0 <= j < before.len() ==> #[trigger] memory@[j] == (if to <= j < to + i {
                        before[from + (j - to)]
                    } else {
                        before[j]
                    }),
            decreases self.len - i,
        {
            let byte: u8 = memory[from + i];
            memory[to + i] = byte;
            i = i + 1;
        }
        assert(p.bytes(memory@, base) =~= self.bytes(before, base));
        p
    }

    /// Returns the data of the packet as a text: its bytes in decimal notation, separated by
    /// commas, in square brackets. `memory` holds the bytes from address `base` on.
    pub fn fmt(&self, memory: &[u8], base: VirtAddr) -> (r: String)
        requires
            base <= self.addr_virt,
            self.addr_virt - base + self.len <= memory@.len(),
        ensures
            r@ == "["@ + list_text(self.bytes(memory@, base)) + "]"@,
    {
        let bytes = self.as_bytes(memory, base);
        let mut text: String = String::new();
        text.append("[");
        let mut i: usize = 0;
        assert(text@ =~= "["@ + list_text(bytes@.take(0)));
        while i < bytes.len()
            invariant
                i <= bytes@.len(),
                text@ == "["@ + list_text(bytes@.take(i as int)),
            decreases bytes@.len() - i,
        {
            if i > 0 {
                text.append(", ");
            }
            push_decimal(&mut text, bytes[i] as u64);
            i = i + 1;
            proof {
                let more = bytes@.take(i as int);
                assert(more.drop_last() =~= bytes@.take(i - 1));
                assert(text@ =~= "["@ + list_text(more));
            }
        }
        assert(bytes@.take(i as int) =~= bytes@);
        text.append("]");
        text
    }

    /// Gives the buffer of the packet back to its pool.
    pub fn free(self, pools: &mut Vec<MemPool>)
        requires
            self.live(pool_views(old(pools)@)),
        ensures
            pool_views(final(pools)@) == freed(pool_views(old(pools)@), self),
    {
        pools[self.pool].free_buf(self.pool_entry);
    }

    /// Says where to prefetch the packet, and how: at its virtual address with the given strategy,
    /// if the processor has SSE, and nowhere otherwise.
    pub fn prefrtch(&self, hint: Prefetch, sse: bool) -> (r: Option<(VirtAddr, Prefetch)>)
        ensures
            r == (if sse {
                Some((self.addr_virt, hint))
            } else {
                None
            }),
    {
        if sse {
            Some((self.get_virt_addr(), hint))
        } else {
            None
        }
    }
}

/// Bytes in decimal notation, separated by commas.
pub open spec fn list_text(bytes: Seq<u8>) -> Seq<char>
    decreases bytes.len(),
{
    if bytes.len() == 0 {
        Seq::empty()
    } else if bytes.len() == 1 {
        decimal(bytes[0] as nat)
    } else {
        list_text(bytes.drop_last()) + ", "@ + decimal(bytes.last() as nat)
    }
}

/// The pools after the buffer of `packet` went back to its pool.
pub open spec fn freed(pools: Seq<PoolView>, packet: Packet) -> Seq<PoolView> {
    let pool = pools[packet.pool as int];
    pools.update(
        packet.pool as int,
        PoolView { free: pool.free.push(packet.pool_entry), ..pool },
    )
}

/// Returns a free packet from pool number `pool`, or [`None`] if the requested packet size exceeds
/// the maximum size for that pool or if the pool is empty.
pub fn alloc_pkt(pools: &mut Vec<MemPool>, pool: PoolId, size: usize) -> (r: Option<Packet>)
    requires
        pool < pool_views(old(pools)@).len(),
        pool_views(old(pools)@)[pool as int].wf(),
    ensures
        r == alloc_result(pool_views(old(pools)@)[pool as int], pool, size),
        r is None ==> pool_views(final(pools)@) == pool_views(old(pools)@),
        r is Some ==> pool_views(final(pools)@) == taken_from(pool_views(old(pools)@), pool),
{
    let ghost all = pools@;
    assert(pool_views(all)[pool as int] == all[pool as int]@);
    let entry_size: usize = pools[pool].entry_size;
    if entry_size < PACKET_HEADROOM || size > entry_size - PACKET_HEADROOM {
        return None;
    }
    let ghost before = pools@[pool as int]@;
    match pools[pool].alloc_buf() {
        Some(id) => {
            proof {
                assert(pools@ =~= all.update(pool as int, pools@[pool as int]));
                lemma_pool_changed(all, pool as int, pools@[pool as int]);
                assert(before.free[before.free.len() - 1] < before.num_entries);
                lemma_entry_in_pool(before, id as int);
            }
            Some(
                Packet::new(
                    pools[pool].get_virt_addr(id) + PACKET_HEADROOM,
                    pools[pool].get_phys_addr(id) + PACKET_HEADROOM,
                    size,
                    pool,
                    id,
                ),
            )
        },
        None => {
            proof {
                assert(pools@ =~= all.update(pool as int, pools@[pool as int]));
                lemma_pool_changed(all, pool as int, pools@[pool as int]);
                assert(pool_views(pools@) =~= pool_views(all));
            }
            None
        },
    }
}

/// The pools after a buffer was taken from pool number `pool`.
pub open spec fn taken_from(pools: Seq<PoolView>, pool: PoolId) -> Seq<PoolView> {
    let from = pools[pool as int];
    pools.update(pool as int, PoolView { free: from.free.drop_last(), ..from })
}

/// What an allocation of `size` bytes from `pool`, which has the given number, returns.
pub open spec fn alloc_result(pool: PoolView, number: PoolId, size: usize) -> Option<Packet> {
    if size > pool.entry_size - PACKET_HEADROOM || pool.free.len() == 0 {
        None
    } else {
        Some(packet_at(pool, number, pool.free.last(), PACKET_HEADROOM as int, size))
    }
}

/// Two entries of a pool have no byte in common.
pub proof fn lemma_entries_apart(pool: PoolView, a: int, b: int)
    requires
        pool.wf(),
        a != b,
    ensures
        pool.virt(a) + pool.entry_size <= pool.virt(b) || pool.virt(b) + pool.entry_size
            <= pool.virt(a),
{
    if a < b {
        assert((a + 1) * pool.entry_size <= b * pool.entry_size) by (nonlinear_arith)
            requires
                a + 1 <= b,
                0 < pool.entry_size,
        ;
        assert((a + 1) * pool.entry_size == a * pool.entry_size + pool.entry_size)
            by (nonlinear_arith);
    } else {
        assert((b + 1) * pool.entry_size <= a * pool.entry_size) by (nonlinear_arith)
            requires
                b + 1 <= a,
                0 < pool.entry_size,
        ;
        assert((b + 1) * pool.entry_size == b * pool.entry_size + pool.entry_size)
            by (nonlinear_arith);
    }
}

/// Common representation for prefetch strategies.
#[derive(Clone, Copy, Debug, PartialEq, Eq, PartialOrd, Ord, Structural)]
pub enum Prefetch {
    /// Corresponds to _MM_HINT_T0 on x86 sse.
    Time0,
    /// Corresponds to _MM_HINT_T1 on x86 sse.
    Time1,
    /// Corresponds to _MM_HINT_T2 on x86 sse.
    Time2,
    /// Corresponds to _MM_HINT_NTA on x86 sse.
    NonTemporal,
}

} // verus!
