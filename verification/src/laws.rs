//! What holds of every pool, whatever the schedule.
//!
//! A schedule is a trace: a sequence of moves, each enabled when it is made.
//! Every state at the end of a trace satisfies the invariant, and the laws
//! below follow from the invariant alone.

use vstd::prelude::*;
use crate::model::{
    Message, PoolState, Slot, Step, lemma_fault_inv, lemma_init_inv, lemma_next_inv,
    lemma_submit_inv, lemma_terminated_bounds,
};

verus! {

/// The state after the moves of `trace`, made one after the other from
/// state `s`.
pub open spec fn run_from<J>(s: PoolState<J>, trace: Seq<Step<J>>) -> PoolState<J>
    decreases trace.len(),
{
    if trace.len() == 0 {
        s
    } else {
        run_from(s, trace.drop_last()).next(trace.last())
    }
}

/// Every move of `trace`, made from state `s`, was enabled when it was
/// made.
pub open spec fn valid_from<J>(s: PoolState<J>, trace: Seq<Step<J>>) -> bool
    decreases trace.len(),
{
    trace.len() > 0 ==> valid_from(s, trace.drop_last()) && run_from(
        s,
        trace.drop_last(),
    ).enabled(trace.last())
}

/// The state after the moves of `trace` on a fresh pool of `n` workers.
pub open spec fn run<J>(n: nat, trace: Seq<Step<J>>) -> PoolState<J> {
    run_from(PoolState::init(n), trace)
}

/// Every move of `trace`, made on a fresh pool of `n` workers, was enabled
/// when it was made.
pub open spec fn valid<J>(n: nat, trace: Seq<Step<J>>) -> bool {
    valid_from(PoolState::init(n), trace)
}

/// A move that a worker makes by itself: taking a message, finishing a job.
pub open spec fn is_worker_move<J>(step: Step<J>) -> bool {
    step is Receive || step is Complete
}

/// The jobs that `trace` submits, in order.
pub open spec fn submissions<J>(trace: Seq<Step<J>>) -> Seq<J>
    decreases trace.len(),
{
    if trace.len() == 0 {
        Seq::empty()
    } else {
        match trace.last() {
            Step::Submit(job) => submissions(trace.drop_last()).push(job),
            _ => submissions(trace.drop_last()),
        }
    }
}

/// The moves of a schedule keep the invariant and the number of workers,
/// and add to the submitted jobs exactly those that the schedule submits.
pub proof fn lemma_run_inv<J>(s: PoolState<J>, trace: Seq<Step<J>>)
    requires
        s.inv(),
        valid_from(s, trace),
    ensures
        run_from(s, trace).inv(),
        run_from(s, trace).size() == s.size(),
        run_from(s, trace).submitted == s.submitted + submissions(trace),
    decreases trace.len(),
{
    if trace.len() > 0 {
        lemma_run_inv(s, trace.drop_last());
        lemma_next_inv(run_from(s, trace.drop_last()), trace.last());
    }
}

/// Every state that a pool of at least one worker can reach satisfies the
/// invariant, has the number of workers it was built with, and has recorded
/// exactly the jobs that were submitted to it.
pub proof fn lemma_reachable_inv<J>(n: nat, trace: Seq<Step<J>>)
    requires
        n >= 1,
        valid(n, trace),
    ensures
        run(n, trace).inv(),
        run(n, trace).size() == n,
        run(n, trace).submitted == submissions(trace),
{
    lemma_init_inv::<J>(n);
    lemma_run_inv(PoolState::<J>::init(n), trace);
}

/// Distinct tickets below a bound are at most as many as the bound, and
/// exactly as many when every ticket below the bound is among them.
pub proof fn lemma_distinct_tickets(tickets: Seq<nat>, bound: nat)
    requires
        tickets.no_duplicates(),
        forall|i: int| 0 <= i < tickets.len() ==> #[trigger] tickets[i] < bound,
    ensures
        tickets.len() <= bound,
        (forall|k: nat| k < bound ==> tickets.contains(k)) ==> tickets.len() == bound,
    decreases bound,
{
    if bound == 0 {
        if tickets.len() > 0 {
            assert(tickets[0] < bound);
        }
    } else {
        let top = (bound - 1) as nat;
        if tickets.contains(top) {
            let at = choose|i: int| 0 <= i < tickets.len() && tickets[i] == top;
            let rest = tickets.remove(at);
            assert forall|i: int| 0 <= i < rest.len() implies #[trigger] rest[i] < top by {
                let j = if i < at {
                    i
                } else {
                    i + 1
                };
                assert(rest[i] == tickets[j]);
                assert(tickets[j] < bound);
            }
            assert(rest.no_duplicates()) by {
                assert forall|i: int, j: int|
                    0 <= i < rest.len() && 0 <= j < rest.len() && i != j implies rest[i]
                    != rest[j] by {
                    let i2 = if i < at {
                        i
                    } else {
                        i + 1
                    };
                    let j2 = if j < at {
                        j
                    } else {
                        j + 1
                    };
                    assert(rest[i] == tickets[i2] && rest[j] == tickets[j2]);
                }
            }
            lemma_distinct_tickets(rest, top);
            if forall|k: nat| k < bound ==> tickets.contains(k) {
                assert forall|k: nat| k < top implies rest.contains(k) by {
                    assert(tickets.contains(k));
                    let j = choose|j: int| 0 <= j < tickets.len() && tickets[j] == k;
                    let i = if j < at {
                        j
                    } else {
                        j - 1
                    };
                    assert(rest[i] == k);
                }
            }
        } else {
            assert forall|i: int| 0 <= i < tickets.len() implies #[trigger] tickets[i] < top by {
                assert(tickets[i] < bound);
            }
            lemma_distinct_tickets(tickets, top);
        }
    }
}

impl<J> PoolState<J> {
    /// The work that the workers still owe: two moves for a job that no
    /// worker has taken (take it, finish it), one for a job that is held.
    pub open spec fn work(self) -> int {
        2 * self.submitted.len() - self.started - self.finished.len()
    }

    /// What the workers still owe in moves of their own: the work, and
    /// one move for each termination still queued.
    pub open spec fn debt(self) -> int {
        self.work() + self.pending_terminations()
    }

    /// No worker can make a move of its own.
    pub open spec fn at_rest(self) -> bool {
        &&& forall|w: int| !(#[trigger] self.enabled(Step::Receive(w)))
        &&& forall|w: int| !(#[trigger] self.enabled(Step::Complete(w)))
    }

    /// No worker has died in a job.
    pub open spec fn no_crash(self) -> bool {
        forall|w: int| 0 <= w < self.slots.len() ==> !(#[trigger] self.slots[w] is Crashed)
    }
}

/// At every instant each submitted job is in exactly one place: still
/// queued at its position, or held by exactly one worker, or finished
/// exactly once. No job is lost and none is run twice.
pub proof fn law_each_job_in_one_place<J>(s: PoolState<J>, k: nat)
    requires
        s.inv(),
        k < s.submitted.len(),
    ensures
        k >= s.started ==> !s.held(k) && !s.finished.contains(k) && s.queue[k - s.started]
            == Message::NewJob(s.submitted[k as int]),
        k < s.started ==> (s.held(k) <==> !s.finished.contains(k)),
        forall|v: int, w: int|
            0 <= v < s.size() && 0 <= w < s.size() && s.slots[v].holds(k) && s.slots[w].holds(k)
                ==> v == w,
        forall|i: int, j: int|
            0 <= i < s.finished.len() && 0 <= j < s.finished.len() && s.finished[i] == k
                && s.finished[j] == k ==> i == j,
{
    if k >= s.started {
        assert(s.queue[k - s.started] == Message::NewJob(s.submitted[s.started + (k - s.started)]));
        if s.finished.contains(k) {
            let i = choose|i: int| 0 <= i < s.finished.len() && s.finished[i] == k;
            assert(s.finished[i] < s.started);
        }
    } else {
        assert(s.finished.contains(k) || s.held(k));
    }
    if s.held(k) {
        let w = choose|w: int| 0 <= w < s.slots.len() && #[trigger] s.slots[w].holds(k);
        assert(k < s.started && !s.finished.contains(k));
    }
}

/// A disposed pool has no live worker and no message left, and has run
/// every job that was ever submitted to it exactly once: the finished
/// tickets are all the tickets, each once.
pub proof fn law_disposed_pool_ran_every_job_once<J>(s: PoolState<J>)
    requires
        s.inv(),
        s.phase is Disposed,
    ensures
        forall|w: int| 0 <= w < s.size() ==> s.slots[w] is Terminated,
        s.queue.len() == 0,
        s.started == s.submitted.len(),
        s.finished.len() == s.submitted.len(),
        s.finished.no_duplicates(),
        forall|k: nat| k < s.submitted.len() ==> s.finished.contains(k),
{
    lemma_terminated_bounds(s.slots);
    assert forall|k: nat| k < s.started implies s.finished.contains(k) by {
        assert(s.finished.contains(k) || s.held(k));
        if s.held(k) {
            let w = choose|w: int| 0 <= w < s.slots.len() && #[trigger] s.slots[w].holds(k);
            assert(s.slots[w] is Terminated);
        }
    }
    lemma_distinct_tickets(s.finished, s.started);
}

/// The same, said of schedules: whatever the number of workers and however
/// their moves interleave, once the pool is disposed the jobs that ran are
/// the jobs that the schedule submitted, each exactly once.
pub proof fn law_disposal_ends_every_schedule<J>(n: nat, trace: Seq<Step<J>>)
    requires
        n >= 1,
        valid(n, trace),
        run(n, trace).phase is Disposed,
    ensures
        run(n, trace).finished.len() == submissions(trace).len(),
        run(n, trace).finished.no_duplicates(),
        forall|k: nat| k < submissions(trace).len() ==> run(n, trace).finished.contains(k),
        forall|w: int| 0 <= w < n ==> run(n, trace).slots[w] is Terminated,
        run(n, trace).queue.len() == 0,
{
    lemma_reachable_inv(n, trace);
    law_disposed_pool_ran_every_job_once(run(n, trace));
}

/// Two submissions that race are both kept, whichever lands first: each
/// gets a ticket and a place in the queue, behind all that was queued.
pub proof fn law_racing_submissions_are_both_kept<J>(s: PoolState<J>, a: J, b: J)
    requires
        s.inv(),
        s.phase is Active,
    ensures
        s.submit(a).submit(b).inv(),
        s.submit(b).submit(a).inv(),
        s.submit(a).submit(b).queue == s.queue.push(Message::NewJob(a)).push(Message::NewJob(b)),
        s.submit(b).submit(a).queue == s.queue.push(Message::NewJob(b)).push(Message::NewJob(a)),
        s.submit(a).submit(b).submitted == s.submitted.push(a).push(b),
        s.submit(b).submit(a).submitted == s.submitted.push(b).push(a),
        s.submit(a).submit(b).work() == s.work() + 4,
        s.submit(b).submit(a).work() == s.work() + 4,
{
    lemma_submit_inv(s, a);
    lemma_submit_inv(s.submit(a), b);
    lemma_submit_inv(s, b);
    lemma_submit_inv(s.submit(b), a);
}

/// The work owed is never negative, and it is zero exactly when every
/// submitted job has finished.
pub proof fn law_work_measures_unfinished_jobs<J>(s: PoolState<J>)
    requires
        s.inv(),
    ensures
        s.finished.len() <= s.started <= s.submitted.len(),
        s.work() >= 0,
        s.work() == 0 <==> s.finished.len() == s.submitted.len(),
{
    lemma_distinct_tickets(s.finished, s.started);
}

/// A worker that takes a job, or finishes one, pays off one unit of work.
/// So the workers can make only as many such moves as work is owed.
pub proof fn law_worker_moves_pay_off_work<J>(s: PoolState<J>, w: int)
    requires
        s.inv(),
    ensures
        s.enabled(Step::Receive(w)) && s.queue[0] is NewJob ==> s.receive(w).work() == s.work()
            - 1,
        s.enabled(Step::Receive(w)) && s.queue[0] is Terminate ==> s.receive(w).work()
            == s.work(),
        s.enabled(Step::Complete(w)) ==> s.complete(w).work() == s.work() - 1,
{
}

/// While work is owed and no worker has died, some worker can pay off a
/// unit of it: the pool never stalls with a job unfinished.
pub proof fn law_unfinished_work_can_proceed<J>(s: PoolState<J>)
    requires
        s.inv(),
        s.no_crash(),
        s.work() > 0,
    ensures
        exists|w: int|
            s.enabled(Step::<J>::Complete(w)) || (s.enabled(Step::<J>::Receive(w))
                && s.queue[0] is NewJob),
{
    law_work_measures_unfinished_jobs(s);
    if exists|w: int| 0 <= w < s.slots.len() && s.slots[w] is Executing {
        let w = choose|w: int| 0 <= w < s.slots.len() && s.slots[w] is Executing;
        assert(s.enabled(Step::<J>::Complete(w)));
    } else if s.started < s.submitted.len() {
        assert(s.queue[0] == Message::NewJob(s.submitted[s.started as int]));
        lemma_terminated_bounds(s.slots);
        let w = choose|w: int| 0 <= w < s.slots.len() && !(#[trigger] s.slots[w] is Terminated);
        assert(!(s.slots[w] is Crashed));
        assert(s.enabled(Step::<J>::Receive(w)));
    } else {
        lemma_distinct_tickets(s.finished, s.started);
        let k = choose|k: nat| k < s.started && !s.finished.contains(k);
        assert(s.finished.contains(k) || s.held(k));
        let w = choose|w: int| 0 <= w < s.slots.len() && #[trigger] s.slots[w].holds(k);
        assert(!(s.slots[w] is Crashed));
        assert(false);
    }
}

/// With a single worker the pool is fully FIFO: jobs finish in the order
/// of their tickets, and once a job has begun every job submitted before
/// it has finished (all tickets but the latest begun are finished). So the
/// worker, whenever it is free to begin a job, has finished all it began.
pub proof fn law_single_worker_runs_jobs_in_order<J>(s: PoolState<J>)
    requires
        s.inv(),
        s.size() == 1,
    ensures
        forall|i: int| 0 <= i < s.finished.len() ==> s.finished[i] == i,
        forall|a: nat| a + 1 < s.started ==> s.finished.contains(a),
        s.slots[0] is Waiting ==> s.started == s.finished.len(),
{
    assert forall|a: nat| a + 1 < s.started implies s.finished.contains(a) by {
        assert(s.finished[a as int] == a);
    }
}

/// A worker that dies in its job takes nothing with it but that job: the
/// queue, the tickets and every other worker are as they were, so each
/// other worker that could take the next message still can, and takes the
/// same one.
pub proof fn law_fault_is_isolated<J>(s: PoolState<J>, w: int)
    requires
        s.inv(),
        s.enabled(Step::Fault(w)),
    ensures
        s.fault(w).inv(),
        s.fault(w).queue == s.queue,
        s.fault(w).submitted == s.submitted,
        s.fault(w).started == s.started,
        s.fault(w).finished == s.finished,
        s.fault(w).phase == s.phase,
        forall|v: int| 0 <= v < s.size() && v != w ==> s.fault(w).slots[v] == s.slots[v],
        forall|v: int|
            v != w && s.enabled(Step::Receive(v)) ==> s.fault(w).enabled(Step::Receive(v))
                && s.fault(w).receive(v).slots[v] == s.receive(v).slots[v] && s.fault(w).receive(
                v,
            ).queue == s.receive(v).queue,
{
    lemma_fault_inv(s, w);
}

/// While a job is queued and some worker is live, a worker can move: a
/// waiting one takes the oldest queued job, or an executing one finishes.
/// Dead workers do not keep the others from the queue.
pub proof fn law_live_workers_serve_the_backlog<J>(s: PoolState<J>, v: int)
    requires
        s.inv(),
        s.backlog() > 0,
        0 <= v < s.size(),
        s.slots[v].live(),
    ensures
        s.queue[0] == Message::NewJob(s.submitted[s.started as int]),
        s.slots[v] is Waiting ==> s.enabled(Step::Receive(v)) && s.receive(v).slots[v]
            == Slot::Executing(s.started),
        s.slots[v] is Executing ==> s.enabled(Step::Complete(v)),
{
    assert(s.queue[0] == Message::NewJob(s.submitted[s.started as int]));
}

/// A pool in which a worker has died is never disposed: disposal needs
/// every worker to have terminated.
pub proof fn law_crash_blocks_disposal<J>(s: PoolState<J>, w: int)
    requires
        s.inv(),
        0 <= w < s.size(),
        s.slots[w] is Crashed,
    ensures
        !(s.phase is Disposed),
{
}


/// Left to themselves the workers pay one unit of their debt with every
/// move, so they make at most as many moves as they owe.
pub proof fn law_workers_pay_their_debt<J>(s: PoolState<J>, trace: Seq<Step<J>>)
    requires
        s.inv(),
        valid_from(s, trace),
        forall|i: int| 0 <= i < trace.len() ==> is_worker_move(#[trigger] trace[i]),
    ensures
        run_from(s, trace).inv(),
        run_from(s, trace).debt() + trace.len() == s.debt(),
        run_from(s, trace).debt() >= 0,
        run_from(s, trace).submitted == s.submitted,
        run_from(s, trace).phase == s.phase,
    decreases trace.len(),
{
    law_work_measures_unfinished_jobs(s);
    if trace.len() > 0 {
        let front = trace.drop_last();
        assert forall|i: int| 0 <= i < front.len() implies is_worker_move(#[trigger] front[i]) by {
            assert(front[i] == trace[i]);
        }
        law_workers_pay_their_debt(s, front);
        let before = run_from(s, front);
        assert(is_worker_move(trace[trace.len() - 1]));
        lemma_next_inv(before, trace.last());
        law_work_measures_unfinished_jobs(before.next(trace.last()));
    }
}

/// Every job is run in the end. Let the workers move, in any order, until
/// none of them can move any more: that takes no more moves than they owed
/// at the start, and if none of them has died, every job submitted has
/// then finished.
pub proof fn law_every_job_finishes<J>(s: PoolState<J>, trace: Seq<Step<J>>)
    requires
        s.inv(),
        valid_from(s, trace),
        forall|i: int| 0 <= i < trace.len() ==> is_worker_move(#[trigger] trace[i]),
        run_from(s, trace).at_rest(),
        run_from(s, trace).no_crash(),
    ensures
        trace.len() <= s.debt(),
        run_from(s, trace).submitted == s.submitted,
        run_from(s, trace).finished.len() == s.submitted.len(),
        forall|k: nat| k < s.submitted.len() ==> run_from(s, trace).finished.contains(k),
{
    law_workers_pay_their_debt(s, trace);
    let end = run_from(s, trace);
    law_work_measures_unfinished_jobs(end);
    if end.work() > 0 {
        law_unfinished_work_can_proceed(end);
        let w = choose|w: int|
            end.enabled(Step::<J>::Complete(w)) || (end.enabled(Step::<J>::Receive(w))
                && end.queue[0] is NewJob);
        assert(!end.enabled(Step::<J>::Receive(w)) && !end.enabled(Step::<J>::Complete(w)));
    }
    lemma_distinct_tickets(end.finished, end.started);
    assert forall|k: nat| k < s.submitted.len() implies end.finished.contains(k) by {
        if !end.finished.contains(k) {
            assert(end.finished.contains(k) || end.held(k));
            let w = choose|w: int| 0 <= w < end.slots.len() && #[trigger] end.slots[w].holds(k);
            assert(!(end.slots[w] is Crashed));
            assert(end.enabled(Step::<J>::Complete(w)));
        }
    }
}

/// The life of a worker. A move changes at most one worker, and only along
/// these lines: a waiting worker begins the job it takes or terminates on a
/// termination message; an executing worker returns to waiting or dies.
/// A worker that has terminated or died stays so.
pub proof fn law_worker_life_cycle<J>(s: PoolState<J>, step: Step<J>, w: int)
    requires
        s.inv(),
        s.enabled(step),
        0 <= w < s.size(),
    ensures
        s.next(step).size() == s.size(),
        s.next(step).slots[w] != s.slots[w] ==> {
            ||| step == Step::<J>::Receive(w) && s.slots[w] is Waiting && s.queue[0] is NewJob
                && s.next(step).slots[w] == Slot::Executing(s.started)
            ||| step == Step::<J>::Receive(w) && s.slots[w] is Waiting && s.queue[0] is Terminate
                && s.next(step).slots[w] is Terminated
            ||| step == Step::<J>::Complete(w) && s.slots[w] is Executing && s.next(
                step,
            ).slots[w] is Waiting
            ||| step == Step::<J>::Fault(w) && s.slots[w] is Executing && s.next(step).slots[w]
                == Slot::Crashed(s.slots[w]->Executing_0)
        },
        s.slots[w] is Terminated ==> s.next(step).slots[w] is Terminated,
        s.slots[w] is Crashed ==> s.next(step).slots[w] == s.slots[w],
{
}

/// The life of a pool. Its phase only moves forward: from active to
/// shutting down when the shutdown begins, from there to disposed when the
/// last worker is joined. Jobs are taken in only while it is active.
pub proof fn law_phase_moves_forward<J>(s: PoolState<J>, step: Step<J>)
    requires
        s.inv(),
        s.enabled(step),
    ensures
        s.next(step).phase != s.phase ==> {
            ||| s.phase is Active && step is Shutdown && s.next(step).phase is ShuttingDown
            ||| s.phase is ShuttingDown && step is Join && s.next(step).phase is Disposed
                && s.next(step).joined == s.size()
        },
        s.next(step).submitted != s.submitted ==> s.phase is Active && step is Submit,
{
}

/// A disposed pool is at its end: no move is left to anyone.
pub proof fn law_disposed_pool_is_final<J>(s: PoolState<J>, step: Step<J>)
    requires
        s.inv(),
        s.phase is Disposed,
    ensures
        !s.enabled(step),
{
    law_disposed_pool_ran_every_job_once(s);
}

} // verus!
