//! A fixed-size worker pool, as a state machine.
//!
//! The pool owns a FIFO queue of jobs and a fixed set of workers. Every
//! decision the pool takes (who gets which job, when a worker may exit, in
//! which order workers are joined) is a transition of [`ThreadPool`]; the
//! threads that carry the transitions out live with the caller, which performs
//! the action a transition hands back and reports the next event.

use std::collections::VecDeque;
use vstd::prelude::*;

verus! {

/// A unit of work, known to the pool by the ticket its submitter gave it.
#[derive(Clone, Copy, Debug, PartialEq, Eq, Structural)]
pub struct Job {
    pub id: u64,
}

/// The two states of a worker's life.
#[derive(Clone, Copy, Debug, PartialEq, Eq, Structural)]
pub enum WorkerState {
    /// Serving jobs, or blocked waiting for one.
    Running,
    /// Left its loop for good.
    Terminated,
}

/// What became of a job once a worker had taken it off the queue.
#[derive(Clone, Copy, Debug, PartialEq, Eq, Structural)]
pub enum JobStatus {
    /// A worker holds the job and is executing it.
    InFlight,
    /// The job ran to completion.
    Done,
    /// The job failed while running; the fault stayed with the job.
    Faulted,
    /// The worker's thread died while it held the job.
    Abandoned,
}

/// How one execution of a job ended.
#[derive(Clone, Copy, Debug, PartialEq, Eq, Structural)]
pub enum JobOutcome {
    Completed,
    Faulted,
}

/// How a worker's thread ended, as its join reports it.
#[derive(Clone, Copy, Debug, PartialEq, Eq, Structural)]
pub enum ThreadExit {
    /// The thread function returned.
    Clean,
    /// The thread died outside the normal closure path.
    Panicked,
}

/// What a worker is told when it asks the queue for work.
#[derive(Clone, Copy, Debug, PartialEq, Eq, Structural)]
pub enum Dispatch {
    /// Execute this job, outside the queue's lock.
    Run(Job),
    /// The queue is empty and still open: block until it changes.
    Wait,
    /// The queue is closed and drained: leave the loop.
    Exit,
}

/// Why the pool refused an operation.
#[derive(Clone, Copy, Debug, PartialEq, Eq, Structural)]
pub enum PoolError {
    /// A pool of no workers was asked for.
    ZeroSize,
    /// The producer side of the queue is closed.
    QueueClosed,
    /// The producer side of the queue is still open.
    QueueOpen,
    /// No worker has this id.
    UnknownWorker,
    /// The worker already holds a job.
    WorkerBusy,
    /// The worker holds no job.
    WorkerIdle,
    /// The worker has left its loop.
    WorkerTerminated,
    /// The worker has not left its loop.
    WorkerRunning,
    /// The worker's thread ended abnormally.
    WorkerFault,
    /// The worker was joined before.
    AlreadyJoined,
    /// An earlier worker has yet to be joined.
    OutOfOrder,
}

/// One hand-over of a job from the queue to a worker.
pub struct Delivery {
    pub job: Job,
    pub worker: usize,
    pub status: JobStatus,
}

/// The mathematical content of a [`Worker`].
pub struct WorkerView {
    pub id: usize,
    pub state: WorkerState,
    /// The job the worker is executing, if any.
    pub current: Option<Job>,
    /// Whether the worker's thread ended abnormally.
    pub faulted: bool,
    /// Where in the pool's deliveries the worker's latest job stands.
    pub slot: Option<int>,
}

/// A long-lived consumer of the queue.
pub struct Worker {
    id: usize,
    state: WorkerState,
    current: Option<Job>,
    faulted: bool,
    slot: Ghost<Option<int>>,
}

impl View for Worker {
    type V = WorkerView;

    closed spec fn view(&self) -> WorkerView {
        WorkerView {
            id: self.id,
            state: self.state,
            current: self.current,
            faulted: self.faulted,
            slot: self.slot@,
        }
    }
}

impl WorkerView {
    /// A worker as it is when the pool is built: running, idle, never served.
    pub open spec fn fresh(id: usize) -> WorkerView {
        WorkerView { id, state: WorkerState::Running, current: None, faulted: false, slot: None }
    }
}

impl Worker {
    /// A running worker with the given ordinal, holding no job.
    pub fn new(id: usize) -> (w: Worker)
        ensures
            w@ == WorkerView::fresh(id),
    {
        Worker { id, state: WorkerState::Running, current: None, faulted: false, slot: Ghost(None) }
    }

    pub fn id(&self) -> (id: usize)
        ensures
            id == self@.id,
    {
        self.id
    }

    pub fn state(&self) -> (state: WorkerState)
        ensures
            state == self@.state,
    {
        self.state
    }

    /// The job the worker is executing, if any.
    pub fn current(&self) -> (job: Option<Job>)
        ensures
            job == self@.current,
    {
        self.current
    }

    /// Whether the worker's thread ended abnormally.
    pub fn faulted(&self) -> (faulted: bool)
        ensures
            faulted == self@.faulted,
    {
        self.faulted
    }
}

/// The mathematical content of a [`ThreadPool`]: what the pool holds now, and
/// the record of what has passed through it.
pub struct PoolView {
    /// The workers, in construction order.
    pub workers: Seq<WorkerView>,
    /// The jobs waiting in the queue, oldest first.
    pub pending: Seq<Job>,
    /// Whether the producer side of the queue is open.
    pub open: bool,
    /// How many workers have been joined; they are the first `joined`.
    pub joined: nat,
    /// Every job ever accepted, in submission order.
    pub submitted: Seq<Job>,
    /// Every hand-over of a job to a worker, in dequeue order.
    pub deliveries: Seq<Delivery>,
}

impl PoolView {
    /// A pool as it is right after construction.
    pub open spec fn fresh(size: nat) -> PoolView {
        PoolView {
            workers: Seq::new(size, |i: int| WorkerView::fresh(i as usize)),
            pending: Seq::empty(),
            open: true,
            joined: 0,
            submitted: Seq::empty(),
            deliveries: Seq::empty(),
        }
    }

    /// The jobs that were handed to workers, in dequeue order.
    pub open spec fn delivered_jobs(self) -> Seq<Job> {
        Seq::new(self.deliveries.len(), |k: int| self.deliveries[k].job)
    }

    /// What must hold of worker `w`.
    pub open spec fn worker_ok(self, w: int) -> bool {
        let x = self.workers[w];
        &&& x.id == w
        &&& (x.state == WorkerState::Terminated ==> x.current is None)
        &&& (x.faulted ==> x.state == WorkerState::Terminated)
        &&& (x.state == WorkerState::Terminated && !x.faulted ==> !self.open && self.pending.len()
            == 0)
        &&& match x.slot {
            None => x.current is None,
            Some(k) => {
                &&& 0 <= k < self.deliveries.len()
                &&& self.deliveries[k].worker == w
                &&& match x.current {
                    Some(job) => self.deliveries[k].job == job && self.deliveries[k].status
                        == JobStatus::InFlight,
                    None => self.deliveries[k].status != JobStatus::InFlight,
                }
            },
        }
    }

    /// What must hold of the `k`-th delivery.
    pub open spec fn delivery_ok(self, k: int) -> bool {
        let d = self.deliveries[k];
        &&& d.worker < self.workers.len()
        &&& match self.workers[d.worker as int].slot {
            None => false,
            Some(s) => k <= s,
        }
        &&& (d.status == JobStatus::InFlight ==> self.workers[d.worker as int].slot == Some(k))
        &&& (d.status == JobStatus::Abandoned ==> self.workers[d.worker as int].faulted)
    }

    /// The pool's invariant: it holds after construction and across every
    /// transition.
    pub open spec fn inv(self) -> bool {
        &&& self.workers.len() >= 1
        &&& self.joined <= self.workers.len()
        &&& (self.joined > 0 ==> !self.open)
        &&& self.submitted == self.delivered_jobs() + self.pending
        &&& forall|w: int| 0 <= w < self.joined ==> (#[trigger] self.workers[w]).state
            == WorkerState::Terminated
        &&& forall|w: int| 0 <= w < self.workers.len() ==> #[trigger] self.worker_ok(w)
        &&& forall|k: int| 0 <= k < self.deliveries.len() ==> #[trigger] self.delivery_ok(k)
    }

    /// Whether worker `w` exists, runs, and holds no job.
    pub open spec fn can_receive(self, w: int) -> bool {
        &&& 0 <= w < self.workers.len()
        &&& self.workers[w].state == WorkerState::Running
        &&& self.workers[w].current is None
    }

    /// The pool after it accepted `job`.
    pub open spec fn after_submit(self, job: Job) -> PoolView {
        PoolView {
            pending: self.pending.push(job),
            submitted: self.submitted.push(job),
            ..self
        }
    }

    /// The pool after worker `w` took the oldest pending job.
    pub open spec fn after_take(self, w: int) -> PoolView {
        let job = self.pending[0];
        PoolView {
            workers: self.workers.update(
                w,
                WorkerView {
                    current: Some(job),
                    slot: Some(self.deliveries.len() as int),
                    ..self.workers[w]
                },
            ),
            pending: self.pending.drop_first(),
            deliveries: self.deliveries.push(
                Delivery { job, worker: w as usize, status: JobStatus::InFlight },
            ),
            ..self
        }
    }

    /// The pool after worker `w` saw the queue closed and left its loop.
    pub open spec fn after_exit(self, w: int) -> PoolView {
        PoolView {
            workers: self.workers.update(
                w,
                WorkerView { state: WorkerState::Terminated, ..self.workers[w] },
            ),
            ..self
        }
    }

    /// The status a delivery gets when its execution ends with `outcome`.
    pub open spec fn status_of(outcome: JobOutcome) -> JobStatus {
        match outcome {
            JobOutcome::Completed => JobStatus::Done,
            JobOutcome::Faulted => JobStatus::Faulted,
        }
    }

    /// The pool after worker `w` let go of its job, which is then recorded
    /// with `status`.
    pub open spec fn after_release(self, w: int, status: JobStatus) -> PoolView {
        let k = self.workers[w].slot->0;
        PoolView {
            workers: self.workers.update(w, WorkerView { current: None, ..self.workers[w] }),
            deliveries: self.deliveries.update(k, Delivery { status, ..self.deliveries[k] }),
            ..self
        }
    }

    /// The pool after worker `w` finished executing its job.
    pub open spec fn after_complete(self, w: int, outcome: JobOutcome) -> PoolView {
        self.after_release(w, Self::status_of(outcome))
    }

    /// The pool after its producer side was closed.
    pub open spec fn after_close(self) -> PoolView {
        PoolView { open: false, ..self }
    }

    /// The pool after the thread of worker `w` was joined and had returned.
    pub open spec fn after_clean_join(self) -> PoolView {
        PoolView { joined: self.joined + 1, ..self }
    }

    /// The pool after the thread of worker `w` was joined and had died: the
    /// worker is terminated and marked, and a job it held is abandoned.
    pub open spec fn after_faulty_join(self, w: int) -> PoolView {
        let released = if self.workers[w].current is Some {
            self.after_release(w, JobStatus::Abandoned)
        } else {
            self
        };
        PoolView {
            workers: released.workers.update(
                w,
                WorkerView {
                    state: WorkerState::Terminated,
                    faulted: true,
                    ..released.workers[w]
                },
            ),
            joined: self.joined + 1,
            ..released
        }
    }

    /// How many workers hold a job among the first `n`.
    pub open spec fn busy_among(self, n: int) -> nat
        decreases n,
    {
        if n <= 0 {
            0
        } else {
            self.busy_among(n - 1) + if self.workers[n - 1].current is Some {
                1nat
            } else {
                0nat
            }
        }
    }

    /// How many jobs are executing at this instant.
    pub open spec fn in_flight(self) -> nat {
        self.busy_among(self.workers.len() as int)
    }

    /// Whether every worker has left its loop and none of them abnormally.
    pub open spec fn all_exited_cleanly(self) -> bool {
        forall|w: int|
            0 <= w < self.workers.len() ==> (#[trigger] self.workers[w]).state
                == WorkerState::Terminated && !self.workers[w].faulted
    }

    /// Whether the pool is torn down: closed, and every worker joined.
    pub open spec fn shut_down(self) -> bool {
        !self.open && self.joined == self.workers.len()
    }
}

/// Construction establishes the invariant.
pub proof fn lemma_fresh_inv(size: nat)
    requires
        size >= 1,
        size <= usize::MAX,
    ensures
        PoolView::fresh(size).inv(),
{
    let v = PoolView::fresh(size);
    assert(v.delivered_jobs() + v.pending =~= v.submitted);
    assert forall|w: int| 0 <= w < v.workers.len() implies #[trigger] v.worker_ok(w) by {}
}

/// Accepting a job keeps the invariant.
pub proof fn lemma_submit_inv(v: PoolView, job: Job)
    requires
        v.inv(),
        v.open,
    ensures
        v.after_submit(job).inv(),
{
    let n = v.after_submit(job);
    assert(n.delivered_jobs() =~= v.delivered_jobs());
    assert(n.delivered_jobs() + n.pending =~= n.submitted);
    assert forall|w: int| 0 <= w < n.workers.len() implies #[trigger] n.worker_ok(w) by {
        assert(v.worker_ok(w));
    }
    assert forall|k: int| 0 <= k < n.deliveries.len() implies #[trigger] n.delivery_ok(k) by {
        assert(v.delivery_ok(k));
    }
}

/// Handing the oldest pending job to an idle worker keeps the invariant.
pub proof fn lemma_take_inv(v: PoolView, w: int)
    requires
        v.inv(),
        v.can_receive(w),
        v.pending.len() > 0,
        w <= usize::MAX,
    ensures
        v.after_take(w).inv(),
{
    let n = v.after_take(w);
    assert(n.delivered_jobs() + n.pending =~= n.submitted) by {
        assert(n.delivered_jobs() =~= v.delivered_jobs().push(v.pending[0]));
        assert(v.submitted == v.delivered_jobs() + v.pending);
    }
    assert forall|x: int| 0 <= x < n.workers.len() implies #[trigger] n.worker_ok(x) by {
        assert(v.worker_ok(x));
    }
    assert forall|k: int| 0 <= k < n.deliveries.len() implies #[trigger] n.delivery_ok(k) by {
        if k < v.deliveries.len() {
            assert(v.delivery_ok(k));
            assert(v.worker_ok(w));
            if v.deliveries[k].worker == w {
                assert(v.deliveries[k].status != JobStatus::InFlight);
            }
        }
    }
    assert forall|x: int| 0 <= x < n.joined implies (#[trigger] n.workers[x]).state
        == WorkerState::Terminated by {
        assert(v.workers[x].state == WorkerState::Terminated);
    }
}

/// A worker leaving its loop on a closed, drained queue keeps the invariant.
pub proof fn lemma_exit_inv(v: PoolView, w: int)
    requires
        v.inv(),
        v.can_receive(w),
        !v.open,
        v.pending.len() == 0,
    ensures
        v.after_exit(w).inv(),
{
    let n = v.after_exit(w);
    assert(n.delivered_jobs() =~= v.delivered_jobs());
    assert forall|x: int| 0 <= x < n.workers.len() implies #[trigger] n.worker_ok(x) by {
        assert(v.worker_ok(x));
    }
    assert forall|k: int| 0 <= k < n.deliveries.len() implies #[trigger] n.delivery_ok(k) by {
        assert(v.delivery_ok(k));
    }
    assert forall|x: int| 0 <= x < n.joined implies (#[trigger] n.workers[x]).state
        == WorkerState::Terminated by {
        assert(v.workers[x].state == WorkerState::Terminated);
    }
}

/// A worker finishing its job keeps the invariant, however the job ended.
pub proof fn lemma_complete_inv(v: PoolView, w: int, outcome: JobOutcome)
    requires
        v.inv(),
        0 <= w < v.workers.len(),
        v.workers[w].current is Some,
    ensures
        v.after_complete(w, outcome).inv(),
{
    let n = v.after_complete(w, outcome);
    assert(v.worker_ok(w));
    assert(n.delivered_jobs() =~= v.delivered_jobs());
    assert forall|x: int| 0 <= x < n.workers.len() implies #[trigger] n.worker_ok(x) by {
        assert(v.worker_ok(x));
    }
    assert forall|k: int| 0 <= k < n.deliveries.len() implies #[trigger] n.delivery_ok(k) by {
        assert(v.delivery_ok(k));
    }
    assert forall|x: int| 0 <= x < n.joined implies (#[trigger] n.workers[x]).state
        == WorkerState::Terminated by {
        assert(v.workers[x].state == WorkerState::Terminated);
    }
}

/// Closing the producer side keeps the invariant.
pub proof fn lemma_close_inv(v: PoolView)
    requires
        v.inv(),
    ensures
        v.after_close().inv(),
{
    let n = v.after_close();
    assert(n.delivered_jobs() =~= v.delivered_jobs());
    assert forall|x: int| 0 <= x < n.workers.len() implies #[trigger] n.worker_ok(x) by {
        assert(v.worker_ok(x));
    }
    assert forall|k: int| 0 <= k < n.deliveries.len() implies #[trigger] n.delivery_ok(k) by {
        assert(v.delivery_ok(k));
    }
}

/// Joining the next worker, whose thread had returned, keeps the invariant.
pub proof fn lemma_clean_join_inv(v: PoolView)
    requires
        v.inv(),
        !v.open,
        v.joined < v.workers.len(),
        v.workers[v.joined as int].state == WorkerState::Terminated,
    ensures
        v.after_clean_join().inv(),
{
    let n = v.after_clean_join();
    assert(n.delivered_jobs() =~= v.delivered_jobs());
    assert forall|x: int| 0 <= x < n.workers.len() implies #[trigger] n.worker_ok(x) by {
        assert(v.worker_ok(x));
    }
    assert forall|k: int| 0 <= k < n.deliveries.len() implies #[trigger] n.delivery_ok(k) by {
        assert(v.delivery_ok(k));
    }
}

/// Joining the next worker, whose thread had died, keeps the invariant.
pub proof fn lemma_faulty_join_inv(v: PoolView)
    requires
        v.inv(),
        !v.open,
        v.joined < v.workers.len(),
    ensures
        v.after_faulty_join(v.joined as int).inv(),
{
    let w = v.joined as int;
    let n = v.after_faulty_join(w);
    assert(v.worker_ok(w));
    assert(n.delivered_jobs() =~= v.delivered_jobs());
    assert forall|x: int| 0 <= x < n.workers.len() implies #[trigger] n.worker_ok(x) by {
        assert(v.worker_ok(x));
    }
    assert forall|k: int| 0 <= k < n.deliveries.len() implies #[trigger] n.delivery_ok(k) by {
        assert(v.delivery_ok(k));
    }
    assert forall|x: int| 0 <= x < n.joined implies (#[trigger] n.workers[x]).state
        == WorkerState::Terminated by {
        if x < v.joined {
            assert(v.workers[x].state == WorkerState::Terminated);
        }
    }
}

/// A fixed set of workers around one queue of jobs.
pub struct ThreadPool {
    workers: Vec<Worker>,
    queue: VecDeque<Job>,
    open: bool,
    joined: usize,
    submitted: Ghost<Seq<Job>>,
    deliveries: Ghost<Seq<Delivery>>,
}

impl View for ThreadPool {
    type V = PoolView;

    closed spec fn view(&self) -> PoolView {
        PoolView {
            workers: Seq::new(self.workers@.len(), |i: int| self.workers@[i]@),
            pending: self.queue@,
            open: self.open,
            joined: self.joined as nat,
            submitted: self.submitted@,
            deliveries: self.deliveries@,
        }
    }
}

impl ThreadPool {
    /// A live pool of `pool_size` workers, all running and waiting for work.
    pub fn new(pool_size: usize) -> (pool: ThreadPool)
        requires
            pool_size > 0,
        ensures
            pool@ == PoolView::fresh(pool_size as nat),
            pool@.inv(),
    {
        let mut workers: Vec<Worker> = Vec::with_capacity(pool_size);
        let mut id: usize = 0;
        while id < pool_size
            invariant
                id <= pool_size,
                workers@.len() == id,
                forall|i: int| 0 <= i < id ==> (#[trigger] workers@[i])@ == WorkerView::fresh(
                    i as usize,
                ),
            decreases pool_size - id,
        {
            workers.push(Worker::new(id));
            id += 1;
        }
        let pool = ThreadPool {
            workers,
            queue: VecDeque::new(),
            open: true,
            joined: 0,
            submitted: Ghost(Seq::empty()),
            deliveries: Ghost(Seq::empty()),
        };
        proof {
            assert(pool@.workers =~= PoolView::fresh(pool_size as nat).workers);
            lemma_fresh_inv(pool_size as nat);
        }
        pool
    }

    /// A live pool of `pool_size` workers, or the refusal of a pool of none.
    pub fn build(pool_size: usize) -> (res: Result<ThreadPool, PoolError>)
        ensures
            pool_size == 0 ==> res == Err::<ThreadPool, PoolError>(PoolError::ZeroSize),
            pool_size > 0 ==> res is Ok && res->Ok_0@ == PoolView::fresh(pool_size as nat)
                && res->Ok_0@.inv(),
    {
        if pool_size == 0 {
            Err(PoolError::ZeroSize)
        } else {
            Ok(ThreadPool::new(pool_size))
        }
    }

    /// Puts `job` at the back of the queue, unless the queue is closed.
    pub fn execute(&mut self, job: Job) -> (res: Result<(), PoolError>)
        requires
            old(self)@.inv(),
        ensures
            final(self)@.inv(),
            old(self)@.open ==> res == Ok::<(), PoolError>(()) && final(self)@ == old(self)@.after_submit(job),
            !old(self)@.open ==> res == Err::<(), PoolError>(PoolError::QueueClosed) && final(self)@ == old(self)@,
    {
        if !self.open {
            return Err(PoolError::QueueClosed);
        }
        self.queue.push_back(job);
        proof {
            self.submitted@ = self.submitted@.push(job);
            lemma_submit_inv(old(self)@, job);
        }
        Ok(())
    }

    /// Worker `worker` asks for work: it gets the oldest pending job, is told
    /// to wait while the queue is empty and open, or is told to leave once
    /// the queue is closed and drained.
    pub fn receive(&mut self, worker: usize) -> (res: Result<Dispatch, PoolError>)
        requires
            old(self)@.inv(),
        ensures
            final(self)@.inv(),
            res == Self::receive_result(old(self)@, worker as int),
            final(self)@ == Self::receive_state(old(self)@, worker as int),
    {
        if worker >= self.workers.len() {
            return Err(PoolError::UnknownWorker);
        }
        let w = &self.workers[worker];
        if w.state == WorkerState::Terminated {
            return Err(PoolError::WorkerTerminated);
        }
        if w.current.is_some() {
            return Err(PoolError::WorkerBusy);
        }
        let id = w.id;
        let faulted = w.faulted;
        let ghost pre = self@;
        match self.queue.pop_front() {
            Some(job) => {
                let ghost slot = Some(self.deliveries@.len() as int);
                self.workers.set(
                    worker,
                    Worker {
                        id,
                        state: WorkerState::Running,
                        current: Some(job),
                        faulted,
                        slot: Ghost(slot),
                    },
                );
                proof {
                    self.deliveries@ = self.deliveries@.push(
                        Delivery { job, worker, status: JobStatus::InFlight },
                    );
                    lemma_take_inv(pre, worker as int);
                    assert(self@.workers =~= pre.after_take(worker as int).workers);
                    assert(self@.pending =~= pre.after_take(worker as int).pending);
                }
                Ok(Dispatch::Run(job))
            },
            None => {
                if self.open {
                    assert(self@.workers =~= pre.workers);
                    Ok(Dispatch::Wait)
                } else {
                    let ghost slot = w.slot@;
                    self.workers.set(
                        worker,
                        Worker {
                            id,
                            state: WorkerState::Terminated,
                            current: None,
                            faulted,
                            slot: Ghost(slot),
                        },
                    );
                    proof {
                        lemma_exit_inv(pre, worker as int);
                        assert(self@.workers =~= pre.after_exit(worker as int).workers);
                    }
                    Ok(Dispatch::Exit)
                }
            },
        }
    }

    /// Worker `worker` reports that the job it held has ended. A job that
    /// faulted is recorded as such; the worker keeps running either way.
    pub fn complete(&mut self, worker: usize, outcome: JobOutcome) -> (res: Result<
        Job,
        PoolError,
    >)
        requires
            old(self)@.inv(),
        ensures
            final(self)@.inv(),
            res == Self::complete_result(old(self)@, worker as int),
            res is Ok ==> final(self)@ == old(self)@.after_complete(worker as int, outcome),
            res is Err ==> final(self)@ == old(self)@,
    {
        if worker >= self.workers.len() {
            return Err(PoolError::UnknownWorker);
        }
        let w = &self.workers[worker];
        let job = match w.current {
            Some(job) => job,
            None => {
                return Err(PoolError::WorkerIdle);
            },
        };
        let id = w.id;
        let state = w.state;
        let faulted = w.faulted;
        let ghost slot = w.slot@;
        let ghost pre = self@;
        self.workers.set(worker, Worker { id, state, current: None, faulted, slot: Ghost(slot) });
        proof {
            let k = slot->0;
            assert(pre.worker_ok(worker as int));
            self.deliveries@ = self.deliveries@.update(
                k,
                Delivery { status: PoolView::status_of(outcome), ..self.deliveries@[k] },
            );
            lemma_complete_inv(pre, worker as int, outcome);
            assert(self@.workers =~= pre.after_complete(worker as int, outcome).workers);
        }
        Ok(job)
    }

    /// What [`ThreadPool::complete`] answers for worker `w` in state `v`: the
    /// job that ended, or why there was none.
    pub open spec fn complete_result(v: PoolView, w: int) -> Result<Job, PoolError> {
        if w >= v.workers.len() {
            Err(PoolError::UnknownWorker)
        } else {
            match v.workers[w].current {
                Some(job) => Ok(job),
                None => Err(PoolError::WorkerIdle),
            }
        }
    }

    /// Closes the producer side of the queue: nothing more is accepted, and
    /// the workers leave once the queue is drained. A pool is closed once.
    pub fn close(&mut self) -> (res: Result<(), PoolError>)
        requires
            old(self)@.inv(),
        ensures
            final(self)@.inv(),
            final(self)@ == old(self)@.after_close(),
            res == if old(self)@.open {
                Ok::<(), PoolError>(())
            } else {
                Err::<(), PoolError>(PoolError::QueueClosed)
            },
    {
        if !self.open {
            return Err(PoolError::QueueClosed);
        }
        self.open = false;
        proof {
            lemma_close_inv(old(self)@);
        }
        Ok(())
    }

    /// The worker whose thread is to be joined next: the first one not yet
    /// joined, once the queue is closed.
    pub fn next_join(&self) -> (next: Option<usize>)
        requires
            self@.inv(),
        ensures
            next == if !self@.open && self@.joined < self@.workers.len() {
                Some(self@.joined as usize)
            } else {
                None::<usize>
            },
    {
        if !self.open && self.joined < self.workers.len() {
            Some(self.joined)
        } else {
            None
        }
    }

    /// Records that the thread of worker `worker` was joined and how it had
    /// ended. Workers are joined in construction order, after the queue was
    /// closed; a thread that died is reported, and its worker counts as
    /// joined.
    pub fn join(&mut self, worker: usize, exit: ThreadExit) -> (res: Result<(), PoolError>)
        requires
            old(self)@.inv(),
        ensures
            final(self)@.inv(),
            res == Self::join_result(old(self)@, worker as int, exit),
            final(self)@ == Self::join_state(old(self)@, worker as int, exit),
    {
        if worker >= self.workers.len() {
            return Err(PoolError::UnknownWorker);
        }
        if self.open {
            return Err(PoolError::QueueOpen);
        }
        if worker < self.joined {
            return Err(PoolError::AlreadyJoined);
        }
        if worker > self.joined {
            return Err(PoolError::OutOfOrder);
        }
        let ghost pre = self@;
        let w = &self.workers[worker];
        match exit {
            ThreadExit::Clean => {
                if w.state == WorkerState::Running {
                    return Err(PoolError::WorkerRunning);
                }
                self.joined = self.joined + 1;
                proof {
                    lemma_clean_join_inv(pre);
                }
                Ok(())
            },
            ThreadExit::Panicked => {
                let id = w.id;
                let held = w.current.is_some();
                let ghost slot = w.slot@;
                self.workers.set(
                    worker,
                    Worker {
                        id,
                        state: WorkerState::Terminated,
                        current: None,
                        faulted: true,
                        slot: Ghost(slot),
                    },
                );
                self.joined = self.joined + 1;
                proof {
                    assert(pre.worker_ok(worker as int));
                    if held {
                        let k = slot->0;
                        self.deliveries@ = self.deliveries@.update(
                            k,
                            Delivery { status: JobStatus::Abandoned, ..self.deliveries@[k] },
                        );
                    }
                    lemma_faulty_join_inv(pre);
                    assert(self@.workers =~= pre.after_faulty_join(worker as int).workers);
                }
                Err(PoolError::WorkerFault)
            },
        }
    }

    /// What [`ThreadPool::join`] answers for worker `w` in state `v`.
    pub open spec fn join_result(v: PoolView, w: int, exit: ThreadExit) -> Result<(), PoolError> {
        if w >= v.workers.len() {
            Err(PoolError::UnknownWorker)
        } else if v.open {
            Err(PoolError::QueueOpen)
        } else if w < v.joined {
            Err(PoolError::AlreadyJoined)
        } else if w > v.joined {
            Err(PoolError::OutOfOrder)
        } else if exit == ThreadExit::Panicked {
            Err(PoolError::WorkerFault)
        } else if v.workers[w].state == WorkerState::Running {
            Err(PoolError::WorkerRunning)
        } else {
            Ok(())
        }
    }

    /// The state [`ThreadPool::join`] leaves behind for worker `w` in state
    /// `v`.
    pub open spec fn join_state(v: PoolView, w: int, exit: ThreadExit) -> PoolView {
        match Self::join_result(v, w, exit) {
            Ok(()) => v.after_clean_join(),
            Err(PoolError::WorkerFault) => v.after_faulty_join(w),
            _ => v,
        }
    }

    /// The number of workers.
    pub fn size(&self) -> (n: usize)
        ensures
            n == self@.workers.len(),
    {
        self.workers.len()
    }

    /// Whether the producer side of the queue is open.
    pub fn is_open(&self) -> (open: bool)
        ensures
            open == self@.open,
    {
        self.open
    }

    /// The number of jobs waiting in the queue.
    pub fn pending(&self) -> (n: usize)
        ensures
            n == self@.pending.len(),
    {
        self.queue.len()
    }

    /// The number of workers joined so far.
    pub fn joined(&self) -> (n: usize)
        ensures
            n == self@.joined,
    {
        self.joined
    }

    /// Worker `worker`, if there is one.
    pub fn worker(&self, worker: usize) -> (w: Option<&Worker>)
        ensures
            worker < self@.workers.len() ==> w is Some && w->0@ == self@.workers[worker as int],
            worker >= self@.workers.len() ==> w is None,
    {
        if worker < self.workers.len() {
            Some(&self.workers[worker])
        } else {
            None
        }
    }

    /// How many jobs are executing at this instant.
    pub fn in_flight(&self) -> (n: usize)
        requires
            self@.inv(),
        ensures
            n == self@.in_flight(),
    {
        let mut n: usize = 0;
        let mut i: usize = 0;
        while i < self.workers.len()
            invariant
                i <= self.workers@.len(),
                n == self@.busy_among(i as int),
                n <= i,
            decreases self.workers@.len() - i,
        {
            if self.workers[i].current.is_some() {
                n += 1;
            }
            i += 1;
        }
        n
    }

    /// Whether the pool is torn down: closed, and every worker joined.
    pub fn is_shut_down(&self) -> (done: bool)
        ensures
            done == self@.shut_down(),
    {
        !self.open && self.joined == self.workers.len()
    }

    /// What [`ThreadPool::receive`] answers to worker `w` in state `v`.
    pub open spec fn receive_result(v: PoolView, w: int) -> Result<Dispatch, PoolError> {
        if w >= v.workers.len() {
            Err(PoolError::UnknownWorker)
        } else if v.workers[w].state == WorkerState::Terminated {
            Err(PoolError::WorkerTerminated)
        } else if v.workers[w].current is Some {
            Err(PoolError::WorkerBusy)
        } else if v.pending.len() > 0 {
            Ok(Dispatch::Run(v.pending[0]))
        } else if v.open {
            Ok(Dispatch::Wait)
        } else {
            Ok(Dispatch::Exit)
        }
    }

    /// The state [`ThreadPool::receive`] leaves behind for worker `w` in
    /// state `v`.
    pub open spec fn receive_state(v: PoolView, w: int) -> PoolView {
        match Self::receive_result(v, w) {
            Ok(Dispatch::Run(_)) => v.after_take(w),
            Ok(Dispatch::Exit) => v.after_exit(w),
            _ => v,
        }
    }
}

} // verus!
