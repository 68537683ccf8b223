//! The executable pool.
//!
//! A `ThreadPool` is the shared heart of a worker pool: the queue, the
//! record of each worker and the phase of the pool's life. Each method is
//! one atomic transition. The pool runs no job itself: `poll` hands the job
//! to the caller, who runs it and reports back with `complete` or `fault`.

use vstd::prelude::*;
use std::collections::VecDeque;
use crate::model::{
    Message, Phase, PoolState, Slot, WorkerState, lemma_complete_inv, lemma_fault_inv,
    lemma_init_inv, lemma_join_inv, lemma_receive_inv, lemma_shutdown_inv, lemma_submit_inv,
};

verus! {

/// What a worker must do after it asked for the next message.
pub enum Action<J> {
    /// The queue is empty: wait until something is queued, then ask again.
    Wait,
    /// Run this job to its end, then report it complete.
    Run(J),
    /// Leave the loop; the worker has terminated.
    Exit,
}

impl<J> Action<J> {
    /// The action that a message asks for.
    pub open spec fn of_message(message: Message<J>) -> Action<J> {
        match message {
            Message::NewJob(job) => Action::Run(job),
            Message::Terminate => Action::Exit,
        }
    }
}

/// What came of trying to join the next worker.
#[derive(Clone, Copy, PartialEq, Eq, Structural, Debug)]
pub enum JoinStep {
    /// The worker with this id had terminated and is now joined.
    Joined(usize),
    /// The worker with this id is still waiting or executing.
    Pending(usize),
    /// The worker with this id died in a job; the pool cannot be disposed.
    Failed(usize),
    /// Every worker has been joined already.
    Done,
}

/// The record of one worker.
#[derive(Clone, Copy, Debug)]
pub struct Worker {
    id: usize,
    state: WorkerState,
}

impl Worker {
    pub closed spec fn spec_id(&self) -> usize {
        self.id
    }

    pub closed spec fn spec_state(&self) -> WorkerState {
        self.state
    }

    /// A worker that is ready to take its first message.
    pub fn new(id: usize) -> (worker: Worker)
        ensures
            worker.spec_id() == id,
            worker.spec_state() == WorkerState::Waiting,
    {
        Worker { id, state: WorkerState::Waiting }
    }

    #[verifier::when_used_as_spec(spec_id)]
    pub fn id(&self) -> (id: usize)
        ensures
            id == self.spec_id(),
    {
        self.id
    }

    #[verifier::when_used_as_spec(spec_state)]
    pub fn state(&self) -> (state: WorkerState)
        ensures
            state == self.spec_state(),
    {
        self.state
    }
}

/// A pool of a fixed number of workers around one FIFO queue.
pub struct ThreadPool<J> {
    workers: Vec<Worker>,
    queue: VecDeque<Message<J>>,
    phase: Phase,
    joined: usize,
    model: Ghost<PoolState<J>>,
}

impl<J> View for ThreadPool<J> {
    type V = PoolState<J>;

    closed spec fn view(&self) -> PoolState<J> {
        self.model@
    }
}

impl<J> ThreadPool<J> {
    /// The pool's fields agree with its view, and the view is a state that
    /// a pool can reach.
    pub closed spec fn wf(&self) -> bool {
        &&& self.model@.inv()
        &&& self.workers@.len() == self.model@.slots.len()
        &&& forall|w: int|
            0 <= w < self.workers@.len() ==> (#[trigger] self.workers@[w]).id == w
                && self.workers@[w].state == self.model@.slots[w].state()
        &&& self.queue@ == self.model@.queue
        &&& self.phase == self.model@.phase
        &&& self.joined == self.model@.joined
    }

    /// A well-formed pool is in a state that satisfies the invariant.
    pub proof fn lemma_wf_inv(&self)
        requires
            self.wf(),
        ensures
            self@.inv(),
    {
    }

    /// A pool of `size` workers with the ids `0` to `size - 1`, all
    /// waiting, with nothing queued. A pool has at least one worker.
    pub fn new(size: usize) -> (pool: Self)
        requires
            size > 0,
        ensures
            pool.wf(),
            pool@ == PoolState::<J>::init(size as nat),
            pool@.size() == size,
            pool@.phase is Active,
            forall|w: int| 0 <= w < size ==> pool@.slots[w] is Waiting,
    {
        let mut workers: Vec<Worker> = Vec::new();
        let mut id: usize = 0;
        while id < size
            invariant
                id <= size,
                workers@.len() == id,
                forall|w: int|
                    0 <= w < id ==> (#[trigger] workers@[w]).id == w && workers@[w].state
                        == WorkerState::Waiting,
            decreases size - id,
        {
            workers.push(Worker::new(id));
            id = id + 1;
        }
        proof {
            lemma_init_inv::<J>(size as nat);
        }
        ThreadPool {
            workers,
            queue: VecDeque::new(),
            phase: Phase::Active,
            joined: 0,
            model: Ghost(PoolState::<J>::init(size as nat)),
        }
    }

    /// Queues `job` behind everything submitted before it. The job is not
    /// run here: some worker will be handed it, on whatever thread that
    /// worker lives, at whatever later time.
    pub fn execute(&mut self, job: J) where J: Send + 'static
        requires
            old(self).wf(),
            old(self)@.phase is Active,
        ensures
            final(self).wf(),
            final(self)@ == old(self)@.submit(job),
    {
        proof {
            lemma_submit_inv(self.model@, job);
        }
        self.model = Ghost(self.model@.submit(job));
        self.queue.push_back(Message::NewJob(job));
    }

    /// Begins the shutdown: queues one termination message per worker,
    /// behind every job already queued.
    pub fn shutdown(&mut self)
        requires
            old(self).wf(),
            old(self)@.phase is Active,
        ensures
            final(self).wf(),
            final(self)@ == old(self)@.shutdown(),
    {
        let size = self.workers.len();
        let mut sent: usize = 0;
        while sent < size
            invariant
                sent <= size,
                size == self.workers@.len(),
                self.workers == old(self).workers,
                self.phase == old(self).phase,
                self.joined == old(self).joined,
                self.model == old(self).model,
                self.queue@ == old(self).queue@ + Seq::new(
                    sent as nat,
                    |i: int| Message::<J>::Terminate,
                ),
            decreases size - sent,
        {
            self.queue.push_back(Message::Terminate);
            sent = sent + 1;
        }
        proof {
            lemma_shutdown_inv(self.model@);
        }
        self.phase = Phase::ShuttingDown;
        self.model = Ghost(self.model@.shutdown());
    }

    /// Worker `id` asks for the next message. With an empty queue nothing
    /// changes and the worker is told to wait. Otherwise the worker takes
    /// the oldest message: a job makes it execute, a termination makes it
    /// stop.
    pub fn poll(&mut self, id: usize) -> (action: Action<J>)
        requires
            old(self).wf(),
            id < old(self)@.size(),
            old(self)@.slots[id as int] is Waiting,
        ensures
            final(self).wf(),
            old(self)@.queue.len() == 0 ==> action is Wait && final(self)@ == old(self)@,
            old(self)@.queue.len() > 0 ==> action == Action::of_message(old(self)@.queue[0])
                && final(self)@ == old(self)@.receive(id as int),
    {
        match self.queue.pop_front() {
            None => Action::Wait,
            Some(Message::NewJob(job)) => {
                proof {
                    lemma_receive_inv(self.model@, id as int);
                }
                self.workers.set(id, Worker { id, state: WorkerState::Executing });
                self.model = Ghost(self.model@.receive(id as int));
                Action::Run(job)
            },
            Some(Message::Terminate) => {
                proof {
                    lemma_receive_inv(self.model@, id as int);
                }
                self.workers.set(id, Worker { id, state: WorkerState::Terminated });
                self.model = Ghost(self.model@.receive(id as int));
                Action::Exit
            },
        }
    }

    /// Worker `id` reports that the job it was running has ended.
    pub fn complete(&mut self, id: usize)
        requires
            old(self).wf(),
            id < old(self)@.size(),
            old(self)@.slots[id as int] is Executing,
        ensures
            final(self).wf(),
            final(self)@ == old(self)@.complete(id as int),
    {
        proof {
            lemma_complete_inv(self.model@, id as int);
        }
        self.workers.set(id, Worker { id, state: WorkerState::Waiting });
        self.model = Ghost(self.model@.complete(id as int));
    }

    /// Worker `id` died in the job it was running. The worker takes no
    /// further message; the queue and the other workers are untouched.
    pub fn fault(&mut self, id: usize)
        requires
            old(self).wf(),
            id < old(self)@.size(),
            old(self)@.slots[id as int] is Executing,
        ensures
            final(self).wf(),
            final(self)@ == old(self)@.fault(id as int),
    {
        proof {
            lemma_fault_inv(self.model@, id as int);
        }
        self.workers.set(id, Worker { id, state: WorkerState::Crashed });
        self.model = Ghost(self.model@.fault(id as int));
    }

    /// Tries to join the next worker, in order of ids. The worker is joined
    /// only if it has terminated; the pool is disposed with the last one.
    pub fn join_next(&mut self) -> (step: JoinStep)
        requires
            old(self).wf(),
        ensures
            final(self).wf(),
            step == Self::join_outcome(old(self)@),
            step is Joined ==> final(self)@ == old(self)@.join(),
            !(step is Joined) ==> final(self)@ == old(self)@,
    {
        if self.joined == self.workers.len() {
            return JoinStep::Done;
        }
        let id = self.joined;
        match self.workers[id].state {
            WorkerState::Terminated => {
                proof {
                    lemma_join_inv(self.model@);
                }
                self.joined = id + 1;
                if self.joined == self.workers.len() {
                    self.phase = Phase::Disposed;
                }
                self.model = Ghost(self.model@.join());
                JoinStep::Joined(id)
            },
            WorkerState::Crashed => JoinStep::Failed(id),
            _ => JoinStep::Pending(id),
        }
    }

    /// The number of workers, fixed when the pool was made.
    pub fn size(&self) -> (size: usize)
        requires
            self.wf(),
        ensures
            size == self@.size(),
    {
        self.workers.len()
    }

    /// The phase of the pool's life.
    pub fn phase(&self) -> (phase: Phase)
        requires
            self.wf(),
        ensures
            phase == self@.phase,
    {
        self.phase
    }

    /// What worker `id` is doing.
    pub fn worker_state(&self, id: usize) -> (state: WorkerState)
        requires
            self.wf(),
            id < self@.size(),
        ensures
            state == self@.slots[id as int].state(),
    {
        self.workers[id].state
    }

    /// The number of messages that no worker has taken yet.
    pub fn queued(&self) -> (count: usize)
        requires
            self.wf(),
        ensures
            count == self@.queue.len(),
    {
        self.queue.len()
    }

    /// The number of workers joined so far.
    pub fn joined(&self) -> (count: usize)
        requires
            self.wf(),
        ensures
            count == self@.joined,
    {
        self.joined
    }

    /// What `join_next` answers in state `s`.
    pub open spec fn join_outcome(s: PoolState<J>) -> JoinStep {
        if s.joined >= s.slots.len() {
            JoinStep::Done
        } else {
            match s.slots[s.joined as int] {
                Slot::Terminated => JoinStep::Joined(s.joined as usize),
                Slot::Crashed(_) => JoinStep::Failed(s.joined as usize),
                _ => JoinStep::Pending(s.joined as usize),
            }
        }
    }
}

} // verus!
