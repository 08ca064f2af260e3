//! What holds of every pool that the transitions of [`ThreadPool`] can reach.
//!
//! Each statement is proved from the pool's invariant alone, so it holds
//! after any sequence of submissions, receives, completions, and joins.

use crate::pool::{Dispatch, Job, JobStatus, PoolError, PoolView, ThreadPool, WorkerState};
use vstd::prelude::*;

verus! {

/// A pool just built has exactly the workers asked for, all running and idle;
/// nothing was delivered, and a worker that asks for work is told to wait.
pub proof fn law_fresh_pool_is_idle(size: nat, w: int)
    requires
        1 <= size <= usize::MAX,
        0 <= w < size,
    ensures
        PoolView::fresh(size).workers.len() == size,
        PoolView::fresh(size).workers[w].id == w,
        PoolView::fresh(size).workers[w].state == WorkerState::Running,
        PoolView::fresh(size).workers[w].current is None,
        PoolView::fresh(size).deliveries.len() == 0,
        PoolView::fresh(size).in_flight() == 0,
        ThreadPool::receive_result(PoolView::fresh(size), w) == Ok::<Dispatch, PoolError>(
            Dispatch::Wait,
        ),
{
    lemma_idle_workers_hold_nothing(PoolView::fresh(size), size as int);
}

/// If none of the first `n` workers holds a job, none is counted as busy.
proof fn lemma_idle_workers_hold_nothing(v: PoolView, n: int)
    requires
        0 <= n <= v.workers.len(),
        forall|w: int| 0 <= w < n ==> (#[trigger] v.workers[w]).current is None,
    ensures
        v.busy_among(n) == 0,
    decreases n,
{
    if n > 0 {
        lemma_idle_workers_hold_nothing(v, n - 1);
    }
}

/// No job is dropped and none is delivered twice: the jobs handed to workers,
/// in the order they left the queue, followed by the jobs still waiting, are
/// the jobs submitted, in submission order.
pub proof fn law_every_job_is_delivered_once_in_order(v: PoolView)
    requires
        v.inv(),
    ensures
        v.delivered_jobs() + v.pending == v.submitted,
        v.deliveries.len() + v.pending.len() == v.submitted.len(),
        forall|k: int| 0 <= k < v.deliveries.len() ==> (#[trigger] v.deliveries[k]).job == v.submitted[k],
        forall|k: int|
            0 <= k < v.pending.len() ==> #[trigger] v.pending[k] == v.submitted[v.deliveries.len() + k],
{
    let d = v.delivered_jobs();
    assert forall|k: int| 0 <= k < v.deliveries.len() implies (#[trigger] v.deliveries[k]).job
        == v.submitted[k] by {
        assert(d[k] == v.deliveries[k].job);
        assert((d + v.pending)[k] == d[k]);
    }
    assert forall|k: int| 0 <= k < v.pending.len() implies #[trigger] v.pending[k]
        == v.submitted[v.deliveries.len() + k] by {
        assert((d + v.pending)[d.len() + k] == v.pending[k]);
    }
}

/// Once every worker has left its loop in the regular way, the queue is closed
/// and empty, and every job submitted was handed to exactly one worker and
/// has ended there: none is waiting, executing, or abandoned.
pub proof fn law_clean_exit_means_all_jobs_ran(v: PoolView)
    requires
        v.inv(),
        v.all_exited_cleanly(),
    ensures
        !v.open,
        v.pending.len() == 0,
        v.delivered_jobs() == v.submitted,
        v.in_flight() == 0,
        forall|k: int|
            0 <= k < v.deliveries.len() ==> (#[trigger] v.deliveries[k]).status == JobStatus::Done
                || v.deliveries[k].status == JobStatus::Faulted,
{
    assert(v.worker_ok(0));
    assert(v.workers[0].state == WorkerState::Terminated);
    assert(v.delivered_jobs() + v.pending =~= v.delivered_jobs());
    assert forall|k: int| 0 <= k < v.deliveries.len() implies (#[trigger] v.deliveries[k]).status
        == JobStatus::Done || v.deliveries[k].status == JobStatus::Faulted by {
        assert(v.delivery_ok(k));
        let w = v.deliveries[k].worker as int;
        assert(v.worker_ok(w));
        assert(v.workers[w].state == WorkerState::Terminated);
    }
    assert forall|w: int| 0 <= w < v.workers.len() implies (#[trigger] v.workers[w]).current is None by {
        assert(v.worker_ok(w));
        assert(v.workers[w].state == WorkerState::Terminated);
    }
    lemma_idle_workers_hold_nothing(v, v.workers.len() as int);
}

/// The count of busy workers among the first `n` is at most `n`.
proof fn lemma_busy_among_bounded(v: PoolView, n: int)
    requires
        0 <= n <= v.workers.len(),
    ensures
        v.busy_among(n) <= n,
    decreases n,
{
    if n > 0 {
        lemma_busy_among_bounded(v, n - 1);
    }
}

/// At any instant at most as many jobs are executing as there are workers,
/// and two jobs that are executing are with two different workers.
pub proof fn law_parallelism_is_bounded(v: PoolView)
    requires
        v.inv(),
    ensures
        v.in_flight() <= v.workers.len(),
        forall|j: int, k: int|
            0 <= j < v.deliveries.len() && 0 <= k < v.deliveries.len() && j != k && (
            #[trigger] v.deliveries[j]).status == JobStatus::InFlight && (
            #[trigger] v.deliveries[k]).status == JobStatus::InFlight ==> v.deliveries[j].worker
                != v.deliveries[k].worker,
{
    lemma_busy_among_bounded(v, v.workers.len() as int);
    assert forall|j: int, k: int|
        0 <= j < v.deliveries.len() && 0 <= k < v.deliveries.len() && j != k && (
        #[trigger] v.deliveries[j]).status == JobStatus::InFlight && (
        #[trigger] v.deliveries[k]).status == JobStatus::InFlight implies v.deliveries[j].worker
        != v.deliveries[k].worker by {
        assert(v.delivery_ok(j));
        assert(v.delivery_ok(k));
    }
}

/// A worker executes its jobs one after the other: of two jobs handed to the
/// same worker, the earlier one had ended before the later one was handed
/// over.
pub proof fn law_worker_runs_jobs_in_turn(v: PoolView, j: int, k: int)
    requires
        v.inv(),
        0 <= j < k < v.deliveries.len(),
        v.deliveries[j].worker == v.deliveries[k].worker,
    ensures
        v.deliveries[j].status != JobStatus::InFlight,
{
    assert(v.delivery_ok(j));
    assert(v.delivery_ok(k));
}

/// With a single worker, jobs run in submission order and never overlap:
/// every job handed over but the latest has ended, and the `k`-th job handed
/// over is the `k`-th job submitted.
pub proof fn law_single_worker_preserves_order(v: PoolView, k: int)
    requires
        v.inv(),
        v.workers.len() == 1,
        0 <= k < v.deliveries.len(),
    ensures
        v.deliveries[k].job == v.submitted[k],
        k < v.deliveries.len() - 1 ==> v.deliveries[k].status != JobStatus::InFlight,
{
    law_every_job_is_delivered_once_in_order(v);
    if k < v.deliveries.len() - 1 {
        let last = v.deliveries.len() - 1;
        assert(v.delivery_ok(k));
        assert(v.delivery_ok(last));
        law_worker_runs_jobs_in_turn(v, k, last);
    }
}

/// Once the pool is torn down, its queue is closed, every worker has left its
/// loop, and no job is executing.
pub proof fn law_shut_down_pool_is_at_rest(v: PoolView)
    requires
        v.inv(),
        v.shut_down(),
    ensures
        !v.open,
        forall|w: int| 0 <= w < v.workers.len() ==> (#[trigger] v.workers[w]).state
            == WorkerState::Terminated,
        v.in_flight() == 0,
        forall|k: int|
            0 <= k < v.deliveries.len() ==> (#[trigger] v.deliveries[k]).status
                != JobStatus::InFlight,
{
    assert forall|w: int| 0 <= w < v.workers.len() implies (#[trigger] v.workers[w]).current is None by {
        assert(v.worker_ok(w));
        assert(v.workers[w].state == WorkerState::Terminated);
    }
    lemma_idle_workers_hold_nothing(v, v.workers.len() as int);
    assert forall|k: int| 0 <= k < v.deliveries.len() implies (#[trigger] v.deliveries[k]).status
        != JobStatus::InFlight by {
        assert(v.delivery_ok(k));
        let w = v.deliveries[k].worker as int;
        assert(v.worker_ok(w));
        assert(v.workers[w].state == WorkerState::Terminated);
    }
}

/// After the queue was closed, an idle worker that asks for work is never
/// told to wait: it gets the oldest pending job, or leaves. So no worker
/// blocks for ever, and the pool can always be joined.
pub proof fn law_closed_queue_never_blocks(v: PoolView, w: int)
    requires
        v.inv(),
        !v.open,
        v.can_receive(w),
    ensures
        ThreadPool::receive_result(v, w) == if v.pending.len() > 0 {
            Ok::<Dispatch, PoolError>(Dispatch::Run(v.pending[0]))
        } else {
            Ok::<Dispatch, PoolError>(Dispatch::Exit)
        },
{
}

/// A job that is slow to run delays nobody else: what an idle worker is told
/// when it asks for work depends on the queue alone, not on what the other
/// workers hold.
pub proof fn law_busy_peers_do_not_delay_dequeue(v: PoolView, w: int)
    requires
        v.inv(),
        v.can_receive(w),
        v.pending.len() > 0,
    ensures
        ThreadPool::receive_result(v, w) == Ok::<Dispatch, PoolError>(
            Dispatch::Run(v.pending[0]),
        ),
        ThreadPool::receive_state(v, w).pending == v.pending.drop_first(),
        forall|x: int|
            0 <= x < v.workers.len() && x != w ==> #[trigger] ThreadPool::receive_state(
                v,
                w,
            ).workers[x] == v.workers[x],
{
}


} // verus!
