//! How initializing a device gets on.

use crate::hal::IxgbeHal;
use crate::init;
use crate::init::{InitStep, Stage, FIRST_FREE, MIN_MEMPOOL_SIZE};
use crate::io::IoOp;
use crate::ixgbe::{DeviceView, MAX_QUEUES};
use crate::memory;
use crate::memory::{PhysAddr, PoolView};
use crate::programs;
use crate::ring::{RxView, TxView};
use vstd::prelude::*;

verus! {

/// How many receive queues have been added when a stage is reached.
pub open spec fn rx_added(dev: DeviceView, stage: Stage) -> int {
    match stage {
        Stage::Reset | Stage::RxBegin => 0,
        Stage::RxQueue { queue } => queue as int,
        Stage::RxRing { queue } => queue as int,
        Stage::RxPool { queue, .. } => queue as int,
        _ => dev.num_rx_queues,
    }
}

/// How many transmit queues have been added when a stage is reached.
pub open spec fn tx_added(dev: DeviceView, stage: Stage) -> int {
    match stage {
        Stage::TxRing { queue } => queue as int,
        Stage::TxEnd | Stage::StartRx { .. } | Stage::StartTx { .. } | Stage::Finish
        | Stage::Done => dev.num_tx_queues,
        _ => 0,
    }
}

/// How many receive queues have been started when a stage is reached.
pub open spec fn rx_started(dev: DeviceView, stage: Stage) -> int {
    match stage {
        Stage::StartRx { queue } => queue as int,
        Stage::StartTx { .. } | Stage::Finish | Stage::Done => dev.num_rx_queues,
        _ => 0,
    }
}

/// The queue that a stage is about exists, and what it has got is memory of the hardware layer.
pub open spec fn stage_wf<H: IxgbeHal>(dev: DeviceView, stage: Stage) -> bool {
    match stage {
        Stage::RxQueue { queue } => queue < dev.num_rx_queues,
        Stage::RxRing { queue } => queue < dev.num_rx_queues,
        Stage::RxPool { queue, ring } => {
            &&& queue < dev.num_rx_queues
            &&& init::fresh_ring::<H>(
                ring.virt as int,
                ring.phys,
                programs::NUM_RX_QUEUE_ENTRIES as int,
            )
        },
        Stage::TxRing { queue } => queue < dev.num_tx_queues,
        Stage::StartRx { queue } => queue < dev.num_rx_queues,
        Stage::StartTx { queue } => queue < dev.num_tx_queues,
        _ => true,
    }
}

/// What holds of a device that is being initialized when it has reached a stage: the queues that
/// were added are set up, the receive queues that were started are full of buffers of their pools,
/// and the others have none. The pools of the receive queues are numbered from `first_pool` on.
pub open spec fn reached<H: IxgbeHal>(
    dev: DeviceView,
    pools: Seq<PoolView>,
    first_pool: int,
    stage: Stage,
) -> bool {
    &&& dev.window_wf()
    &&& 0 <= dev.num_rx_queues <= MAX_QUEUES
    &&& 0 <= dev.num_tx_queues <= MAX_QUEUES
    &&& 0 <= first_pool
    &&& first_pool + dev.num_rx_queues <= usize::MAX
    &&& stage_wf::<H>(dev, stage)
    &&& dev.rx.len() == rx_added(dev, stage)
    &&& dev.tx.len() == tx_added(dev, stage)
    &&& pools.len() == first_pool + dev.rx.len()
    &&& forall|k: int|
        0 <= k < dev.rx.len() ==> init::rx_set_up::<H>(
            #[trigger] dev.rx[k],
            first_pool + k,
            if k < rx_started(dev, stage) {
                init::first_bufs()
            } else {
                Seq::empty()
            },
        )
    &&& forall|k: int|
        first_pool <= k < pools.len() ==> init::queue_pool::<H>(
            #[trigger] pools[k],
            if k < first_pool + rx_started(dev, stage) {
                FIRST_FREE as int
            } else {
                MIN_MEMPOOL_SIZE as int
            },
        )
    &&& forall|k: int| 0 <= k < dev.tx.len() ==> init::tx_set_up::<H>(#[trigger] dev.tx[k])
}

/// What has been done to the card when a stage is reached.
pub open spec fn ops_up_to(dev: DeviceView, pools: Seq<PoolView>, stage: Stage) -> Seq<IoOp> {
    let reset = programs::reset_ops() + programs::init_link_ops() + programs::reset_stats_ops();
    let rx = reset + programs::rx_before_ops();
    let tx = reset + programs::init_rx_ops(dev.rx) + programs::tx_before_ops();
    let start = reset + programs::init_rx_ops(dev.rx) + programs::init_tx_ops(dev.tx);
    let start_tx = start + programs::start_rx_ops(dev.rx, pools, dev.num_rx_queues);
    match stage {
        Stage::Reset => Seq::empty(),
        Stage::RxBegin => reset,
        Stage::RxQueue { queue } => rx + programs::rx_queues_ops(dev.rx, queue as int),
        Stage::RxRing { queue } => rx + programs::rx_queues_ops(dev.rx, queue as int)
            + programs::rx_type_ops(queue as int),
        Stage::RxPool { queue, ring } => rx + programs::rx_queues_ops(dev.rx, queue as int)
            + programs::rx_type_ops(queue as int) + programs::rx_ring_ops(
            queue as int,
            ring.virt,
            ring.phys,
        ),
        Stage::RxEnd => rx + programs::rx_queues_ops(dev.rx, dev.num_rx_queues),
        Stage::TxBegin => reset + programs::init_rx_ops(dev.rx),
        Stage::TxRing { queue } => tx + programs::tx_queues_ops(dev.tx, queue as int),
        Stage::TxEnd => tx + programs::tx_queues_ops(dev.tx, dev.num_tx_queues),
        Stage::StartRx { queue } => start + programs::start_rx_ops(dev.rx, pools, queue as int),
        Stage::StartTx { queue } => start_tx + programs::start_tx_ops(queue as int),
        Stage::Finish => start_tx + programs::start_tx_ops(dev.num_tx_queues),
        Stage::Done => programs::init_ops(dev.rx, dev.tx, pools),
    }
}

/// How many stages are left.
pub open spec fn stages_left(dev: DeviceView, stage: Stage) -> int {
    let rx = dev.num_rx_queues;
    let tx = dev.num_tx_queues;
    match stage {
        Stage::Done => 0,
        Stage::Finish => 1,
        Stage::StartTx { queue } => 1 + (tx - queue),
        Stage::StartRx { queue } => 1 + tx + (rx - queue),
        Stage::TxEnd => 2 + tx + rx,
        Stage::TxRing { queue } => 2 + tx + rx + (tx - queue),
        Stage::TxBegin => 3 + 2 * tx + rx,
        Stage::RxEnd => 4 + 2 * tx + rx,
        Stage::RxPool { queue, .. } => 4 + 2 * tx + rx + 3 * (rx - queue) - 2,
        Stage::RxRing { queue } => 4 + 2 * tx + rx + 3 * (rx - queue) - 1,
        Stage::RxQueue { queue } => 4 + 2 * tx + rx + 3 * (rx - queue),
        Stage::RxBegin => 5 + 2 * tx + 4 * rx,
        Stage::Reset => 6 + 2 * tx + 4 * rx,
    }
}

/// A device without queues has reached the first stage, and nothing has been done to its card.
pub proof fn law_init_begins<H: IxgbeHal>(dev: DeviceView, pools: Seq<PoolView>)
    requires
        dev.window_wf(),
        0 <= dev.num_rx_queues <= MAX_QUEUES,
        0 <= dev.num_tx_queues <= MAX_QUEUES,
        dev.rx.len() == 0,
        dev.tx.len() == 0,
        pools.len() + dev.num_rx_queues <= usize::MAX,
    ensures
        reached::<H>(dev, pools, pools.len() as int, Stage::Reset),
        ops_up_to(dev, pools, Stage::Reset).len() == 0,
{
}

/// A device that has reached a stage is ready for it, unless it is initialized.
pub proof fn law_init_ready<H: IxgbeHal>(
    dev: DeviceView,
    pools: Seq<PoolView>,
    first_pool: int,
    stage: Stage,
)
    requires
        reached::<H>(dev, pools, first_pool, stage),
        stage != Stage::Done,
    ensures
        dev.ready_for(pools, stage),
{
    if stage is StartRx {
        let queue = stage->StartRx_queue as int;
        assert(init::rx_set_up::<H>(dev.rx[queue], first_pool + queue, Seq::empty()));
        assert(init::queue_pool::<H>(pools[first_pool + queue], MIN_MEMPOOL_SIZE as int));
    }
    if stage is StartTx {
        assert(init::tx_set_up::<H>(dev.tx[stage->StartTx_queue as int]));
    }
}

/// A stage of initializing succeeds and brings the device to the next one, whatever memory the
/// hardware layer returned: what has then been done to the card is what had been done before, and
/// the operations of the stage. The pools that were there at first stay as they are, and one stage
/// less is left, so that the device is initialized in the end.
pub proof fn law_init_step<H: IxgbeHal>(
    dev: DeviceView,
    pools: Seq<PoolView>,
    first_pool: int,
    stage: Stage,
    step: InitStep,
)
    requires
        reached::<H>(dev, pools, first_pool, stage),
        init::stepped::<H>(dev, pools, stage, step),
    ensures
        step.result is Ok,
        ({
            let next = step.result->Ok_0;
            &&& reached::<H>(step.dev, step.pools, first_pool, next)
            &&& ops_up_to(step.dev, step.pools, next) == ops_up_to(dev, pools, stage) + step.ops
            &&& step.pools.take(first_pool) == pools.take(first_pool)
            &&& stages_left(step.dev, next) == stages_left(dev, stage) - 1
        }),
{
    match stage {
        Stage::RxPool { queue, ring } => lemma_rx_pool_step::<H>(
            dev,
            pools,
            first_pool,
            stage,
            step,
        ),
        Stage::TxRing { queue } => lemma_tx_ring_step::<H>(dev, pools, first_pool, stage, step),
        Stage::StartRx { queue } => lemma_start_rx_step::<H>(dev, pools, first_pool, stage, step),
        Stage::StartTx { queue } => lemma_start_tx_step::<H>(dev, pools, first_pool, stage, step),
        Stage::TxEnd => lemma_tx_end_step::<H>(dev, pools, first_pool, stage, step),
        Stage::Finish => lemma_finish_step::<H>(dev, pools, first_pool, stage, step),
        _ => lemma_plain_step::<H>(dev, pools, first_pool, stage, step),
    }
}

/// A device that has reached the last stage is set up and well formed, and all that initializing it
/// asks for has been done to the card.
pub proof fn law_init_done<H: IxgbeHal>(dev: DeviceView, pools: Seq<PoolView>, first_pool: int)
    requires
        reached::<H>(dev, pools, first_pool, Stage::Done),
    ensures
        init::set_up::<H>(dev, pools, first_pool),
        dev.wf(pools),
        ops_up_to(dev, pools, Stage::Done) == programs::init_ops(dev.rx, dev.tx, pools),
{
    lemma_set_up_wf::<H>(dev, pools, first_pool);
}

/// What a list of lists comes to does not depend on the order in which they are joined.
proof fn lemma_join(a: Seq<IoOp>, b: Seq<IoOp>, c: Seq<IoOp>, d: Seq<IoOp>)
    ensures
        a + (b + c + d) == a + b + c + d,
        a + (b + c) == a + b + c,
        a + Seq::<IoOp>::empty() == a,
        Seq::<IoOp>::empty() + a == a,
{
    assert(a + (b + c + d) =~= a + b + c + d);
    assert(a + (b + c) =~= a + b + c);
    assert(a + Seq::<IoOp>::empty() =~= a);
    assert(Seq::<IoOp>::empty() + a =~= a);
}

proof fn lemma_plain_step<H: IxgbeHal>(
    dev: DeviceView,
    pools: Seq<PoolView>,
    first_pool: int,
    stage: Stage,
    step: InitStep,
)
    requires
        stage is Reset || stage is RxBegin || stage is RxQueue || stage is RxRing || stage is RxEnd
            || stage is TxBegin,
        reached::<H>(dev, pools, first_pool, stage),
        init::stepped::<H>(dev, pools, stage, step),
    ensures
        step.result is Ok,
        reached::<H>(step.dev, step.pools, first_pool, step.result->Ok_0),
        ops_up_to(step.dev, step.pools, step.result->Ok_0) == ops_up_to(dev, pools, stage)
            + step.ops,
{
    let reset = programs::reset_ops() + programs::init_link_ops() + programs::reset_stats_ops();
    let rx = reset + programs::rx_before_ops();
    let tx = reset + programs::init_rx_ops(dev.rx) + programs::tx_before_ops();
    match stage {
        Stage::Reset => lemma_join(reset, reset, reset, reset),
        Stage::RxBegin => lemma_join(rx, rx, rx, rx),
        Stage::RxEnd => lemma_join(
            reset,
            programs::rx_before_ops(),
            programs::rx_queues_ops(dev.rx, dev.num_rx_queues),
            programs::rx_after_ops(dev.num_rx_queues),
        ),
        Stage::TxBegin => lemma_join(tx, tx, tx, tx),
        _ => {},
    }
}

proof fn lemma_tx_end_step<H: IxgbeHal>(
    dev: DeviceView,
    pools: Seq<PoolView>,
    first_pool: int,
    stage: Stage,
    step: InitStep,
)
    requires
        stage is TxEnd,
        reached::<H>(dev, pools, first_pool, stage),
        init::stepped::<H>(dev, pools, stage, step),
    ensures
        step.result is Ok,
        reached::<H>(step.dev, step.pools, first_pool, step.result->Ok_0),
        ops_up_to(step.dev, step.pools, step.result->Ok_0) == ops_up_to(dev, pools, stage)
            + step.ops,
{
    let reset = programs::reset_ops() + programs::init_link_ops() + programs::reset_stats_ops();
    let before = reset + programs::init_rx_ops(dev.rx);
    let start = before + programs::init_tx_ops(dev.tx);
    lemma_join(
        before,
        programs::tx_before_ops(),
        programs::tx_queues_ops(dev.tx, dev.num_tx_queues),
        seq![programs::tx_enable_op()],
    );
    lemma_join(start, start, start, start);
}

proof fn lemma_start_tx_step<H: IxgbeHal>(
    dev: DeviceView,
    pools: Seq<PoolView>,
    first_pool: int,
    stage: Stage,
    step: InitStep,
)
    requires
        stage is StartTx,
        reached::<H>(dev, pools, first_pool, stage),
        init::stepped::<H>(dev, pools, stage, step),
    ensures
        step.result is Ok,
        reached::<H>(step.dev, step.pools, first_pool, step.result->Ok_0),
        ops_up_to(step.dev, step.pools, step.result->Ok_0) == ops_up_to(dev, pools, stage)
            + step.ops,
{
    let queue = stage->StartTx_queue as int;
    assert(init::tx_set_up::<H>(dev.tx[queue]));
    let reset = programs::reset_ops() + programs::init_link_ops() + programs::reset_stats_ops();
    let start_tx = reset + programs::init_rx_ops(dev.rx) + programs::init_tx_ops(dev.tx)
        + programs::start_rx_ops(dev.rx, pools, dev.num_rx_queues);
    lemma_join(
        start_tx,
        programs::start_tx_ops(queue),
        programs::enable_tx_ops(queue),
        Seq::empty(),
    );
}

proof fn lemma_finish_step<H: IxgbeHal>(
    dev: DeviceView,
    pools: Seq<PoolView>,
    first_pool: int,
    stage: Stage,
    step: InitStep,
)
    requires
        stage is Finish,
        reached::<H>(dev, pools, first_pool, stage),
        init::stepped::<H>(dev, pools, stage, step),
    ensures
        step.result is Ok,
        reached::<H>(step.dev, step.pools, first_pool, step.result->Ok_0),
        ops_up_to(step.dev, step.pools, step.result->Ok_0) == ops_up_to(dev, pools, stage)
            + step.ops,
{
    let done = programs::reset_ops() + programs::init_link_ops() + programs::reset_stats_ops()
        + programs::init_rx_ops(dev.rx) + programs::init_tx_ops(dev.tx) + programs::start_rx_ops(
        dev.rx,
        pools,
        dev.num_rx_queues,
    ) + programs::start_tx_ops(dev.num_tx_queues);
    lemma_join(done, seq![programs::promisc_op(true)], programs::wait_for_link_ops(), Seq::empty());
}

proof fn lemma_rx_pool_step<H: IxgbeHal>(
    dev: DeviceView,
    pools: Seq<PoolView>,
    first_pool: int,
    stage: Stage,
    step: InitStep,
)
    requires
        stage is RxPool,
        reached::<H>(dev, pools, first_pool, stage),
        init::stepped::<H>(dev, pools, stage, step),
    ensures
        step.result is Ok,
        reached::<H>(step.dev, step.pools, first_pool, step.result->Ok_0),
        ops_up_to(step.dev, step.pools, step.result->Ok_0) == ops_up_to(dev, pools, stage)
            + step.ops,
        step.pools.take(first_pool) == pools.take(first_pool),
{
    let next = step.result->Ok_0;
    let queue = stage->RxPool_queue as int;
    lemma_rx_queues_prefix(dev.rx, step.dev.rx, queue);
    assert forall|k: int| 0 <= k < step.dev.rx.len() implies init::rx_set_up::<H>(
        #[trigger] step.dev.rx[k],
        first_pool + k,
        Seq::empty(),
    ) by {
        if k < queue {
            assert(init::rx_set_up::<H>(dev.rx[k], first_pool + k, Seq::empty()));
        }
    }
    assert forall|k: int| first_pool <= k < step.pools.len() implies init::queue_pool::<H>(
        #[trigger] step.pools[k],
        MIN_MEMPOOL_SIZE as int,
    ) by {
        if k < pools.len() {
            assert(init::queue_pool::<H>(pools[k], MIN_MEMPOOL_SIZE as int));
        }
    }
    assert(step.pools.take(first_pool) =~= pools.take(first_pool));
    assert(ops_up_to(step.dev, step.pools, next) =~= ops_up_to(dev, pools, stage) + step.ops);
}

proof fn lemma_tx_ring_step<H: IxgbeHal>(
    dev: DeviceView,
    pools: Seq<PoolView>,
    first_pool: int,
    stage: Stage,
    step: InitStep,
)
    requires
        stage is TxRing,
        reached::<H>(dev, pools, first_pool, stage),
        init::stepped::<H>(dev, pools, stage, step),
    ensures
        step.result is Ok,
        reached::<H>(step.dev, step.pools, first_pool, step.result->Ok_0),
        ops_up_to(step.dev, step.pools, step.result->Ok_0) == ops_up_to(dev, pools, stage)
            + step.ops,
{
    let next = step.result->Ok_0;
    let queue = stage->TxRing_queue as int;
    lemma_tx_queues_prefix(dev.tx, step.dev.tx, queue);
    assert forall|k: int| 0 <= k < step.dev.tx.len() implies init::tx_set_up::<H>(
        #[trigger] step.dev.tx[k],
    ) by {
        if k < queue {
            assert(init::tx_set_up::<H>(dev.tx[k]));
        }
    }
    assert(ops_up_to(step.dev, step.pools, next) =~= ops_up_to(dev, pools, stage) + step.ops);
}

proof fn lemma_start_rx_step<H: IxgbeHal>(
    dev: DeviceView,
    pools: Seq<PoolView>,
    first_pool: int,
    stage: Stage,
    step: InitStep,
)
    requires
        stage is StartRx,
        reached::<H>(dev, pools, first_pool, stage),
        init::stepped::<H>(dev, pools, stage, step),
    ensures
        step.result is Ok,
        reached::<H>(step.dev, step.pools, first_pool, step.result->Ok_0),
        ops_up_to(step.dev, step.pools, step.result->Ok_0) == ops_up_to(dev, pools, stage)
            + step.ops,
        step.pools.take(first_pool) == pools.take(first_pool),
{
    let queue = stage->StartRx_queue as int;
    let q = dev.rx[queue];
    let pool = pools[first_pool + queue];
    assert(init::rx_set_up::<H>(q, first_pool + queue, Seq::empty()));
    assert(init::queue_pool::<H>(pool, MIN_MEMPOOL_SIZE as int));
    assert(init::taken(pool.free, 512) =~= init::first_bufs());
    assert(q.bufs + init::taken(pool.free, 512) =~= init::first_bufs());
    lemma_queue_pool_taken::<H>(pool, MIN_MEMPOOL_SIZE as int, FIRST_FREE as int);
    let next = step.result->Ok_0;
    let q2 = step.dev.rx[queue];
    let pool2 = step.pools[first_pool + queue];
    assert(step.pools =~= pools.update(first_pool + queue, pool2));
    assert(init::rx_set_up::<H>(q2, first_pool + queue, init::first_bufs()));
    assert(init::queue_pool::<H>(pool2, FIRST_FREE as int));
    assert forall|k: int| 0 <= k < step.dev.rx.len() implies init::rx_set_up::<H>(
        #[trigger] step.dev.rx[k],
        first_pool + k,
        if k <= queue {
            init::first_bufs()
        } else {
            Seq::empty()
        },
    ) by {
        if k != queue {
            assert(step.dev.rx[k] == dev.rx[k]);
        }
    }
    assert forall|k: int| first_pool <= k < step.pools.len() implies init::queue_pool::<H>(
        #[trigger] step.pools[k],
        if k <= first_pool + queue {
            FIRST_FREE as int
        } else {
            MIN_MEMPOOL_SIZE as int
        },
    ) by {
        if k != first_pool + queue {
            assert(step.pools[k] == pools[k]);
        }
    }
    lemma_stock_same(q, q2, pool, pool2, init::first_bufs(), 512);
    lemma_start_rx_prefix(dev.rx, step.dev.rx, pools, step.pools, queue, first_pool);
    lemma_rx_queues_prefix(dev.rx, step.dev.rx, dev.rx.len() as int);
    assert(step.pools.take(first_pool) =~= pools.take(first_pool));
    assert(programs::start_rx_ops(step.dev.rx, step.pools, queue + 1) =~= programs::start_rx_ops(
        dev.rx,
        pools,
        queue,
    ) + step.ops);
    assert(ops_up_to(step.dev, step.pools, next) =~= ops_up_to(dev, pools, stage) + step.ops);
}

/// What sets the first queues up depends on their rings only.
proof fn lemma_rx_queues_prefix(queues: Seq<RxView>, others: Seq<RxView>, count: int)
    requires
        count <= queues.len(),
        count <= others.len(),
        forall|i: int|
            0 <= i < count ==> (#[trigger] queues[i]).descriptors == others[i].descriptors
                && queues[i].ring_phys == others[i].ring_phys,
    ensures
        programs::rx_queues_ops(queues, count) == programs::rx_queues_ops(others, count),
    decreases count,
{
    if count > 0 {
        assert(queues[count - 1].ring_phys == others[count - 1].ring_phys);
        lemma_rx_queues_prefix(queues, others, count - 1);
    }
}

/// What sets the first queues up depends on their rings only.
proof fn lemma_tx_queues_prefix(queues: Seq<TxView>, others: Seq<TxView>, count: int)
    requires
        count <= queues.len(),
        count <= others.len(),
        forall|i: int|
            0 <= i < count ==> (#[trigger] queues[i]).descriptors == others[i].descriptors
                && queues[i].ring_phys == others[i].ring_phys,
    ensures
        programs::tx_queues_ops(queues, count) == programs::tx_queues_ops(others, count),
    decreases count,
{
    if count > 0 {
        assert(queues[count - 1].ring_phys == others[count - 1].ring_phys);
        lemma_tx_queues_prefix(queues, others, count - 1);
    }
}

/// A device that is set up is well formed.
proof fn lemma_set_up_wf<H: IxgbeHal>(dev: DeviceView, pools: Seq<PoolView>, first_pool: int)
    requires
        dev.window_wf(),
        dev.num_rx_queues <= MAX_QUEUES,
        dev.num_tx_queues <= MAX_QUEUES,
        0 <= first_pool,
        init::set_up::<H>(dev, pools, first_pool),
    ensures
        dev.wf(pools),
{
    assert forall|k: int| 0 <= k < dev.rx.len() implies (#[trigger] dev.rx[k]).wf(pools) by {
        assert(init::rx_set_up::<H>(dev.rx[k], first_pool + k, init::first_bufs()));
        assert(init::queue_pool::<H>(pools[first_pool + k], FIRST_FREE as int));
    }
}

/// A pool from which the last free buffers were taken.
proof fn lemma_queue_pool_taken<H: IxgbeHal>(pool: PoolView, free: int, less: int)
    requires
        init::queue_pool::<H>(pool, free),
        0 <= less <= free,
    ensures
        init::queue_pool::<H>(PoolView { free: pool.free.take(less), ..pool }, less),
{
    let after = PoolView { free: pool.free.take(less), ..pool };
    assert(after.free =~= Seq::new(less as nat, |k: int| k as usize));
    assert forall|i: int| 0 <= i < after.num_entries implies call_ensures(
        H::mmio_virt_to_phys,
        (after.virt(i) as usize, after.entry_size as usize),
        #[trigger] after.phys_addr[i],
    ) by {
        assert(after.phys_addr[i] == pool.phys_addr[i]);
        assert(after.virt(i) == pool.virt(i));
    }
    assert forall|i: int| 0 <= i < after.free.len() implies (#[trigger] after.free[i])
        < after.num_entries by {
        assert(after.free[i] == pool.free[i]);
    }
    let phys = choose|phys: PhysAddr| #[trigger]
        call_ensures(
            H::dma_alloc,
            ((pool.num_entries * pool.entry_size) as usize,),
            (phys, pool.base_addr as usize),
        );
    assert(call_ensures(
        H::dma_alloc,
        ((after.num_entries * after.entry_size) as usize,),
        (phys, after.base_addr as usize),
    ));
    assert(after.wf());
    assert(memory::backed_by::<H>(after));
}

/// What stocks a queue depends on its ring and on the physical addresses of the buffers only.
proof fn lemma_stock_same(
    q: RxView,
    other: RxView,
    pool: PoolView,
    other_pool: PoolView,
    ids: Seq<usize>,
    count: int,
)
    requires
        q.descriptors == other.descriptors,
        pool.phys_addr == other_pool.phys_addr,
    ensures
        programs::stock_ops(q, pool, ids, count) == programs::stock_ops(
            other,
            other_pool,
            ids,
            count,
        ),
    decreases count,
{
    if count > 0 {
        lemma_stock_same(q, other, pool, other_pool, ids, count - 1);
    }
}

/// What starts the first queues depends on those queues and their pools only.
proof fn lemma_start_rx_prefix(
    queues: Seq<RxView>,
    others: Seq<RxView>,
    pools: Seq<PoolView>,
    other_pools: Seq<PoolView>,
    count: int,
    base: int,
)
    requires
        count <= queues.len() == others.len(),
        forall|i: int| 0 <= i < count ==> (#[trigger] queues[i]).pool == base + i,
        forall|i: int| 0 <= i < count ==> #[trigger] queues[i] == others[i],
        forall|i: int| 0 <= i < count ==> #[trigger] pools[base + i] == other_pools[base + i],
    ensures
        programs::start_rx_ops(queues, pools, count) == programs::start_rx_ops(
            others,
            other_pools,
            count,
        ),
    decreases count,
{
    if count > 0 {
        assert(queues[count - 1] == others[count - 1]);
        assert(pools[base + (count - 1)] == other_pools[base + (count - 1)]);
        lemma_start_rx_prefix(queues, others, pools, other_pools, count - 1, base);
    }
}

} // verus!
