//! The worker pool as a transition system over mathematical values.
//!
//! Jobs are known by their ticket: the position at which they were
//! submitted. The state records which tickets have been handed to a worker,
//! which worker holds which ticket, and which tickets have run to the end.
//!
//! A job that fails takes its worker with it. The worker is then `Crashed`
//! for good: it takes no further message, the job it held is never
//! finished, and the pool can never be disposed, because disposal joins
//! every worker and only a terminated worker can be joined. Nothing else
//! is touched: the queue stays with the workers that are left.

use vstd::prelude::*;

verus! {

/// What travels on the queue: a job to run, or the signal to stop.
pub enum Message<J> {
    NewJob(J),
    Terminate,
}

/// The life of a pool. A pool is `Active` from the moment it exists.
#[derive(Clone, Copy, PartialEq, Eq, Structural, Debug)]
pub enum Phase {
    /// Jobs may be submitted.
    Active,
    /// One termination per worker has been queued; workers are being joined.
    ShuttingDown,
    /// Every worker has been joined.
    Disposed,
}

/// What a worker is doing.
#[derive(Clone, Copy, PartialEq, Eq, Structural, Debug)]
pub enum WorkerState {
    /// Ready to take the next message.
    Waiting,
    /// Running a job.
    Executing,
    /// Stopped after taking a termination message.
    Terminated,
    /// Died while running a job.
    Crashed,
}

/// What a worker is doing, together with the ticket of the job it holds.
pub enum Slot {
    /// Ready to take the next message.
    Waiting,
    /// Running the job with this ticket.
    Executing(nat),
    /// Stopped after taking a termination message.
    Terminated,
    /// Died while running the job with this ticket.
    Crashed(nat),
}

impl Slot {
    /// The worker has been handed job `k` and has not finished it.
    pub open spec fn holds(self, k: nat) -> bool {
        self == Slot::Executing(k) || self == Slot::Crashed(k)
    }

    /// The worker can still take messages or finish a job.
    pub open spec fn live(self) -> bool {
        self is Waiting || self is Executing
    }

    /// The worker's state without the ticket.
    pub open spec fn state(self) -> WorkerState {
        match self {
            Slot::Waiting => WorkerState::Waiting,
            Slot::Executing(_) => WorkerState::Executing,
            Slot::Terminated => WorkerState::Terminated,
            Slot::Crashed(_) => WorkerState::Crashed,
        }
    }
}

/// How many of the workers have stopped after a termination message.
pub open spec fn terminated(slots: Seq<Slot>) -> nat
    decreases slots.len(),
{
    if slots.len() == 0 {
        0
    } else {
        terminated(slots.drop_last()) + if slots.last() is Terminated {
            1nat
        } else {
            0nat
        }
    }
}

/// The whole pool at one instant.
pub struct PoolState<J> {
    pub phase: Phase,
    /// One entry per worker; the index is the worker's id.
    pub slots: Seq<Slot>,
    /// The messages not yet taken, oldest first.
    pub queue: Seq<Message<J>>,
    /// How many workers have been joined, in order of their ids.
    pub joined: nat,
    /// Every job ever submitted; a job's index is its ticket.
    pub submitted: Seq<J>,
    /// How many jobs have been handed to workers: the tickets below this.
    pub started: nat,
    /// The tickets of the jobs that ran to the end, in order of completion.
    pub finished: Seq<nat>,
}

impl<J> PoolState<J> {
    /// A fresh pool of `n` workers.
    pub open spec fn init(n: nat) -> Self {
        PoolState {
            phase: Phase::Active,
            slots: Seq::new(n, |w: int| Slot::Waiting),
            queue: Seq::empty(),
            joined: 0,
            submitted: Seq::empty(),
            started: 0,
            finished: Seq::empty(),
        }
    }

    pub open spec fn size(self) -> nat {
        self.slots.len()
    }

    /// The number of submitted jobs that no worker has taken yet.
    pub open spec fn backlog(self) -> int {
        self.submitted.len() - self.started
    }

    /// The number of termination messages still in the queue.
    pub open spec fn pending_terminations(self) -> int {
        self.queue.len() - self.backlog()
    }

    /// Some worker holds job `k`.
    pub open spec fn held(self, k: nat) -> bool {
        exists|w: int| 0 <= w < self.slots.len() && #[trigger] self.slots[w].holds(k)
    }

    // ----- transitions -----

    /// A caller submits `job`. Allowed while the pool is active.
    pub open spec fn submit(self, job: J) -> Self {
        PoolState {
            queue: self.queue.push(Message::NewJob(job)),
            submitted: self.submitted.push(job),
            ..self
        }
    }

    /// The pool queues one termination message per worker.
    /// Allowed while the pool is active.
    pub open spec fn shutdown(self) -> Self {
        PoolState {
            phase: Phase::ShuttingDown,
            queue: self.queue + Seq::new(self.slots.len(), |i: int| Message::Terminate),
            ..self
        }
    }

    /// Worker `w` takes the oldest message. Allowed when `w` is waiting and
    /// the queue is not empty.
    pub open spec fn receive(self, w: int) -> Self {
        match self.queue[0] {
            Message::NewJob(_) => PoolState {
                slots: self.slots.update(w, Slot::Executing(self.started)),
                queue: self.queue.subrange(1, self.queue.len() as int),
                started: self.started + 1,
                ..self
            },
            Message::Terminate => PoolState {
                slots: self.slots.update(w, Slot::Terminated),
                queue: self.queue.subrange(1, self.queue.len() as int),
                ..self
            },
        }
    }

    /// Worker `w` finishes the job it is executing.
    pub open spec fn complete(self, w: int) -> Self {
        PoolState {
            slots: self.slots.update(w, Slot::Waiting),
            finished: self.finished.push(self.slots[w]->Executing_0),
            ..self
        }
    }

    /// Worker `w` dies in the job it is executing.
    pub open spec fn fault(self, w: int) -> Self {
        PoolState { slots: self.slots.update(w, Slot::Crashed(self.slots[w]->Executing_0)), ..self }
    }

    /// The pool joins the next worker in order of ids. Allowed when that
    /// worker has terminated.
    pub open spec fn join(self) -> Self {
        PoolState {
            phase: if self.joined + 1 == self.slots.len() {
                Phase::Disposed
            } else {
                self.phase
            },
            joined: self.joined + 1,
            ..self
        }
    }

    // ----- the invariant -----

    /// The queue holds the jobs not yet taken, in the order of submission,
    /// and behind them nothing but termination messages.
    pub open spec fn queue_is_fifo(self) -> bool {
        &&& self.started <= self.submitted.len()
        &&& self.backlog() <= self.queue.len()
        &&& forall|i: int|
            0 <= i < self.backlog() ==> #[trigger] self.queue[i] == Message::NewJob(
                self.submitted[self.started + i],
            )
        &&& forall|i: int|
            self.backlog() <= i < self.queue.len() ==> #[trigger] self.queue[i] is Terminate
    }

    /// Terminations exist only after shutdown began, one per worker: each
    /// is either still queued or was taken by a worker that then stopped.
    /// No worker stops while a job is still queued.
    pub open spec fn terminations_balance(self) -> bool {
        &&& self.phase is Active ==> self.pending_terminations() == 0 && terminated(self.slots)
            == 0
        &&& !(self.phase is Active) ==> self.pending_terminations() + terminated(self.slots)
            == self.slots.len()
        &&& terminated(self.slots) > 0 ==> self.backlog() == 0
    }

    /// Every ticket handed out is either finished or held by a worker, never
    /// both, never twice.
    pub open spec fn jobs_accounted(self) -> bool {
        &&& forall|w: int, k: nat|
            0 <= w < self.slots.len() && #[trigger] self.slots[w].holds(k) ==> k < self.started
                && !self.finished.contains(k)
        &&& forall|v: int, w: int, k: nat|
            0 <= v < self.slots.len() && 0 <= w < self.slots.len() && v != w
                && #[trigger] self.slots[v].holds(k) ==> !#[trigger] self.slots[w].holds(k)
        &&& self.finished.no_duplicates()
        &&& forall|i: int| 0 <= i < self.finished.len() ==> #[trigger] self.finished[i] < self.started
        &&& forall|k: nat|
            k < self.started ==> self.finished.contains(k) || #[trigger] self.held(k)
    }

    /// Workers are joined in order of ids, each after it terminated, and the
    /// pool is disposed exactly when all are joined.
    pub open spec fn joins_in_order(self) -> bool {
        &&& self.joined <= self.slots.len()
        &&& forall|w: int| 0 <= w < self.joined ==> #[trigger] self.slots[w] is Terminated
        &&& self.phase is Active ==> self.joined == 0
        &&& self.phase is Disposed <==> self.joined == self.slots.len()
    }

    /// With one worker, jobs finish in the order of their tickets, and the
    /// worker holds at most the ticket that comes next.
    pub open spec fn single_worker_fifo(self) -> bool {
        self.slots.len() == 1 ==> {
            &&& forall|i: int| 0 <= i < self.finished.len() ==> #[trigger] self.finished[i] == i
            &&& self.slots[0].holds(self.finished.len()) ==> self.started == self.finished.len()
                + 1
            &&& !self.slots[0].holds(self.finished.len()) ==> self.started
                == self.finished.len()
        }
    }

    /// What holds of every state that a pool can reach.
    pub open spec fn inv(self) -> bool {
        &&& self.slots.len() >= 1
        &&& self.queue_is_fifo()
        &&& self.terminations_balance()
        &&& self.jobs_accounted()
        &&& self.joins_in_order()
        &&& self.single_worker_fifo()
    }
}


// ----- counting terminated workers -----

/// Changing one worker changes the count by what that worker contributes.
pub proof fn lemma_terminated_update(slots: Seq<Slot>, w: int, slot: Slot)
    requires
        0 <= w < slots.len(),
    ensures
        terminated(slots.update(w, slot)) + (if slots[w] is Terminated {
            1nat
        } else {
            0nat
        }) == terminated(slots) + (if slot is Terminated {
            1nat
        } else {
            0nat
        }),
    decreases slots.len(),
{
    let after = slots.update(w, slot);
    if w == slots.len() - 1 {
        assert(after.drop_last() =~= slots.drop_last());
    } else {
        assert(after.drop_last() =~= slots.drop_last().update(w, slot));
        lemma_terminated_update(slots.drop_last(), w, slot);
    }
}

/// The count never exceeds the number of workers; it reaches it exactly
/// when all have terminated, and is zero exactly when none has.
pub proof fn lemma_terminated_bounds(slots: Seq<Slot>)
    ensures
        terminated(slots) <= slots.len(),
        terminated(slots) == slots.len() <==> forall|w: int|
            0 <= w < slots.len() ==> #[trigger] slots[w] is Terminated,
        terminated(slots) == 0 <==> forall|w: int|
            0 <= w < slots.len() ==> !(#[trigger] slots[w] is Terminated),
    decreases slots.len(),
{
    if slots.len() > 0 {
        let front = slots.drop_last();
        lemma_terminated_bounds(front);
        assert(forall|w: int| 0 <= w < front.len() ==> front[w] == slots[w]);
        if terminated(slots) == slots.len() {
            assert forall|w: int| 0 <= w < slots.len() implies #[trigger] slots[w] is Terminated by {
                if w < front.len() {
                    assert(front[w] is Terminated);
                }
            }
        }
        if terminated(slots) == 0 {
            assert forall|w: int| 0 <= w < slots.len() implies !(#[trigger] slots[w] is Terminated) by {
                if w < front.len() {
                    assert(!(front[w] is Terminated));
                }
            }
        }
    }
}


// ----- every transition keeps the invariant -----

/// One move of the pool.
pub enum Step<J> {
    /// A caller submits a job.
    Submit(J),
    /// The pool begins to shut down.
    Shutdown,
    /// This worker takes the oldest message.
    Receive(int),
    /// This worker finishes its job.
    Complete(int),
    /// This worker dies in its job.
    Fault(int),
    /// The pool joins the next worker.
    Join,
}

impl<J> PoolState<J> {
    /// Whether `step` can be taken in this state.
    pub open spec fn enabled(self, step: Step<J>) -> bool {
        match step {
            Step::Submit(_) => self.phase is Active,
            Step::Shutdown => self.phase is Active,
            Step::Receive(w) => 0 <= w < self.slots.len() && self.slots[w] is Waiting
                && self.queue.len() > 0,
            Step::Complete(w) => 0 <= w < self.slots.len() && self.slots[w] is Executing,
            Step::Fault(w) => 0 <= w < self.slots.len() && self.slots[w] is Executing,
            Step::Join => self.joined < self.slots.len() && self.slots[self.joined as int]
                is Terminated,
        }
    }

    /// The state after `step`.
    pub open spec fn next(self, step: Step<J>) -> Self {
        match step {
            Step::Submit(job) => self.submit(job),
            Step::Shutdown => self.shutdown(),
            Step::Receive(w) => self.receive(w),
            Step::Complete(w) => self.complete(w),
            Step::Fault(w) => self.fault(w),
            Step::Join => self.join(),
        }
    }
}

pub proof fn lemma_init_inv<J>(n: nat)
    requires
        n >= 1,
    ensures
        PoolState::<J>::init(n).inv(),
{
    let s = PoolState::<J>::init(n);
    lemma_terminated_bounds(s.slots);
}

pub proof fn lemma_submit_inv<J>(s: PoolState<J>, job: J)
    requires
        s.inv(),
        s.phase is Active,
    ensures
        s.submit(job).inv(),
{
    let t = s.submit(job);
    assert forall|k: nat| k < t.started implies t.finished.contains(k) || #[trigger] t.held(k) by {
        assert(s.finished.contains(k) || s.held(k));
        if s.held(k) {
            let v = choose|v: int| 0 <= v < s.slots.len() && #[trigger] s.slots[v].holds(k);
            assert(t.slots[v].holds(k));
        }
    }
}

pub proof fn lemma_shutdown_inv<J>(s: PoolState<J>)
    requires
        s.inv(),
        s.phase is Active,
    ensures
        s.shutdown().inv(),
{
    let t = s.shutdown();
    assert forall|k: nat| k < t.started implies t.finished.contains(k) || #[trigger] t.held(k) by {
        assert(s.finished.contains(k) || s.held(k));
        if s.held(k) {
            let v = choose|v: int| 0 <= v < s.slots.len() && #[trigger] s.slots[v].holds(k);
            assert(t.slots[v].holds(k));
        }
    }
}

pub proof fn lemma_receive_inv<J>(s: PoolState<J>, w: int)
    requires
        s.inv(),
        s.enabled(Step::Receive(w)),
    ensures
        s.receive(w).inv(),
{
    let t = s.receive(w);
    lemma_terminated_update(s.slots, w, t.slots[w]);
    lemma_terminated_bounds(s.slots);
    assert forall|k: nat| k < t.started implies t.finished.contains(k) || #[trigger] t.held(k) by {
        if k < s.started {
            assert(s.finished.contains(k) || s.held(k));
            if s.held(k) {
                let v = choose|v: int| 0 <= v < s.slots.len() && #[trigger] s.slots[v].holds(k);
                assert(t.slots[v].holds(k));
            }
        } else {
            assert(t.slots[w].holds(k));
        }
    }
}

pub proof fn lemma_complete_inv<J>(s: PoolState<J>, w: int)
    requires
        s.inv(),
        s.enabled(Step::Complete(w)),
    ensures
        s.complete(w).inv(),
{
    let t = s.complete(w);
    let done = s.slots[w]->Executing_0;
    lemma_terminated_update(s.slots, w, t.slots[w]);
    assert(s.slots[w].holds(done));
    if s.slots.len() == 1 && done != s.finished.len() {
        assert(s.finished[done as int] == done);
    }
    assert forall|k: nat| k < t.started implies t.finished.contains(k) || #[trigger] t.held(k) by {
        assert(s.finished.contains(k) || s.held(k));
        if s.finished.contains(k) {
            let i = choose|i: int| 0 <= i < s.finished.len() && s.finished[i] == k;
            assert(t.finished[i] == k);
        } else {
            let v = choose|v: int| 0 <= v < s.slots.len() && #[trigger] s.slots[v].holds(k);
            if v == w {
                assert(t.finished[s.finished.len() as int] == k);
            } else {
                assert(t.slots[v].holds(k));
            }
        }
    }
}

pub proof fn lemma_fault_inv<J>(s: PoolState<J>, w: int)
    requires
        s.inv(),
        s.enabled(Step::Fault(w)),
    ensures
        s.fault(w).inv(),
{
    let t = s.fault(w);
    lemma_terminated_update(s.slots, w, t.slots[w]);
    assert forall|v: int, k: nat| 0 <= v < t.slots.len() && #[trigger] t.slots[v].holds(k) implies s.slots[v].holds(k) by {}
    assert forall|k: nat| k < t.started implies t.finished.contains(k) || #[trigger] t.held(k) by {
        assert(s.finished.contains(k) || s.held(k));
        if s.held(k) {
            let v = choose|v: int| 0 <= v < s.slots.len() && #[trigger] s.slots[v].holds(k);
            assert(t.slots[v].holds(k));
        }
    }
}

pub proof fn lemma_join_inv<J>(s: PoolState<J>)
    requires
        s.inv(),
        s.enabled(Step::Join),
    ensures
        s.join().inv(),
{
    let t = s.join();
    lemma_terminated_bounds(s.slots);
    assert forall|k: nat| k < t.started implies t.finished.contains(k) || #[trigger] t.held(k) by {
        assert(s.finished.contains(k) || s.held(k));
        if s.held(k) {
            let v = choose|v: int| 0 <= v < s.slots.len() && #[trigger] s.slots[v].holds(k);
            assert(t.slots[v].holds(k));
        }
    }
}

/// Whatever enabled step is taken, the invariant survives it.
pub proof fn lemma_next_inv<J>(s: PoolState<J>, step: Step<J>)
    requires
        s.inv(),
        s.enabled(step),
    ensures
        s.next(step).inv(),
{
    match step {
        Step::Submit(job) => lemma_submit_inv(s, job),
        Step::Shutdown => lemma_shutdown_inv(s),
        Step::Receive(w) => lemma_receive_inv(s, w),
        Step::Complete(w) => lemma_complete_inv(s, w),
        Step::Fault(w) => lemma_fault_inv(s, w),
        Step::Join => lemma_join_inv(s),
    }
}

} // verus!
