use std::collections::VecDeque;
use vstd::prelude::*;

verus! {

/// Exclusive upper bound on the number of workers of a pool.
pub const MAX_WORKERS: usize = 1000;

/// What travels through the pool's queue: a unit of work, or the sentinel
/// that tells exactly one worker to stop.
pub enum Message<J> {
    NewJob(J),
    Terminate,
}

/// Where a worker stands in its loop.
#[derive(PartialEq, Eq, Structural, Clone, Copy, Debug)]
pub enum WorkerState {
    /// Waiting for the next message.
    Idle,
    /// Executing the job it took last; it asks again once the job returns.
    Busy,
    /// Took a `Terminate` message and left its loop for good.
    Terminated,
}

/// A pool size is accepted when it is positive and below `MAX_WORKERS`.
pub open spec fn is_valid_size(size: int) -> bool {
    0 < size < MAX_WORKERS
}

/// Tells whether `size` is an accepted pool size.
pub fn valid_size(size: usize) -> (r: bool)
    ensures
        r == is_valid_size(size as int),
{
    0 < size && size < MAX_WORKERS
}

/// Number of workers that have not terminated.
pub open spec fn live_count(ws: Seq<WorkerState>) -> nat
    decreases ws.len(),
{
    if ws.len() == 0 {
        0
    } else {
        live_count(ws.drop_last()) + if ws.last() == WorkerState::Terminated {
            0nat
        } else {
            1nat
        }
    }
}

proof fn lemma_live_count_bounds(ws: Seq<WorkerState>)
    ensures
        live_count(ws) <= ws.len(),
        (forall|i: int| 0 <= i < ws.len() ==> ws[i] != WorkerState::Terminated) ==> live_count(ws)
            == ws.len(),
        live_count(ws) == 0 <==> forall|i: int| 0 <= i < ws.len() ==> ws[i] == WorkerState::Terminated,
    decreases ws.len(),
{
    if ws.len() > 0 {
        lemma_live_count_bounds(ws.drop_last());
        assert forall|i: int| 0 <= i < ws.len() - 1 implies ws.drop_last()[i] == ws[i] by {}
    }
}

proof fn lemma_live_count_update(ws: Seq<WorkerState>, k: int, s: WorkerState)
    requires
        0 <= k < ws.len(),
        ws[k] != WorkerState::Terminated,
    ensures
        s == WorkerState::Terminated ==> live_count(ws.update(k, s)) + 1 == live_count(ws),
        s != WorkerState::Terminated ==> live_count(ws.update(k, s)) == live_count(ws),
    decreases ws.len(),
{
    let u = ws.update(k, s);
    if k == ws.len() - 1 {
        assert(u.drop_last() =~= ws.drop_last());
    } else {
        assert(u.drop_last() =~= ws.drop_last().update(k, s));
        lemma_live_count_update(ws.drop_last(), k, s);
    }
}

/// The dispatch state of a pool: the queue of messages that all workers take
/// from, and the state of each worker.
///
/// Besides what runs, a pool keeps as ghost state every message ever sent,
/// the messages handed out so far in the order they were handed, and the
/// worker that took each of them.
pub struct WorkerPool<J> {
    queue: VecDeque<Message<J>>,
    workers: Vec<WorkerState>,
    shutting_down: bool,
    sent: Ghost<Seq<Message<J>>>,
    jobs: Ghost<nat>,
    handed: Ghost<Seq<Message<J>>>,
    receivers: Ghost<Seq<nat>>,
}

impl<J> WorkerPool<J> {
    /// Every message sent to the pool, in the order sent.
    pub closed spec fn sent(&self) -> Seq<Message<J>> {
        self.sent@
    }

    /// Number of jobs submitted.
    pub closed spec fn job_count(&self) -> nat {
        self.jobs@
    }

    /// The messages taken by workers so far, in the order taken.
    pub closed spec fn handed(&self) -> Seq<Message<J>> {
        self.handed@
    }

    /// For each message in `handed()`, the worker that took it.
    pub closed spec fn receivers(&self) -> Seq<nat> {
        self.receivers@
    }

    /// The messages still queued, next one first.
    pub closed spec fn pending(&self) -> Seq<Message<J>> {
        self.queue@
    }

    /// The state of each worker, by worker id.
    pub closed spec fn workers(&self) -> Seq<WorkerState> {
        self.workers@
    }

    /// Whether the terminate messages have been sent.
    pub closed spec fn is_shutting_down(&self) -> bool {
        self.shutting_down
    }

    /// Number of `Terminate` messages taken by workers so far.
    pub open spec fn terminates_handed(&self) -> nat {
        if self.handed().len() > self.job_count() {
            (self.handed().len() - self.job_count()) as nat
        } else {
            0
        }
    }

    /// Creates a pool of `size` idle workers with an empty queue.
    pub fn new(size: usize) -> (r: Self)
        requires
            is_valid_size(size as int),
        ensures
            r.wf(),
            r.workers() == Seq::new(size as nat, |i: int| WorkerState::Idle),
            r.sent() == Seq::<Message<J>>::empty(),
            r.handed() == Seq::<Message<J>>::empty(),
            r.pending() == Seq::<Message<J>>::empty(),
            r.job_count() == 0,
            !r.is_shutting_down(),
    {
        let mut workers: Vec<WorkerState> = Vec::with_capacity(size);
        let mut id: usize = 0;
        while id < size
            invariant
                id <= size,
                workers@ == Seq::new(id as nat, |i: int| WorkerState::Idle),
            decreases size - id,
        {
            workers.push(WorkerState::Idle);
            id = id + 1;
        }
        let r = WorkerPool {
            queue: VecDeque::new(),
            workers,
            shutting_down: false,
            sent: Ghost(Seq::empty()),
            jobs: Ghost(0),
            handed: Ghost(Seq::empty()),
            receivers: Ghost(Seq::empty()),
        };
        proof {
            lemma_live_count_bounds(r.workers@);
            assert(r.handed@ =~= r.sent@.take(0));
            assert(r.queue@ =~= r.sent@.skip(0));
        }
        r
    }

    /// Creates a pool of `size` workers, or returns `None` when `size` is not
    /// an accepted pool size.
    pub fn try_new(size: usize) -> (r: Option<Self>)
        ensures
            r is Some <==> is_valid_size(size as int),
            r matches Some(p) ==> {
                &&& p.wf()
                &&& p.workers() == Seq::new(size as nat, |i: int| WorkerState::Idle)
                &&& p.sent() == Seq::<Message<J>>::empty()
                &&& p.handed() == Seq::<Message<J>>::empty()
                &&& p.pending() == Seq::<Message<J>>::empty()
                &&& p.job_count() == 0
                &&& !p.is_shutting_down()
            },
    {
        if valid_size(size) {
            Some(Self::new(size))
        } else {
            None
        }
    }

    /// Number of workers; fixed for the pool's whole life.
    pub fn size(&self) -> (r: usize)
        requires
            self.wf(),
        ensures
            r == self.workers().len(),
    {
        self.workers.len()
    }

    /// Number of messages waiting in the queue.
    pub fn pending_len(&self) -> (r: usize)
        ensures
            r == self.pending().len(),
    {
        self.queue.len()
    }

    /// Whether the terminate messages have been sent.
    pub fn shutting_down(&self) -> (r: bool)
        ensures
            r == self.is_shutting_down(),
    {
        self.shutting_down
    }

    /// The state of worker `id`.
    pub fn worker_state(&self, id: usize) -> (r: WorkerState)
        requires
            id < self.workers().len(),
        ensures
            r == self.workers()[id as int],
    {
        self.workers[id]
    }

    /// Queues `job` behind every message sent before it.
    pub fn execute(&mut self, job: J)
        requires
            old(self).wf(),
            !old(self).is_shutting_down(),
        ensures
            final(self).wf(),
            final(self).sent() == old(self).sent().push(Message::NewJob(job)),
            final(self).pending() == old(self).pending().push(Message::NewJob(job)),
            final(self).job_count() == old(self).job_count() + 1,
            final(self).handed() == old(self).handed(),
            final(self).receivers() == old(self).receivers(),
            final(self).workers() == old(self).workers(),
            !final(self).is_shutting_down(),
    {
        let ghost old_sent = self.sent@;
        let ghost k = self.handed@.len() as int;
        proof {
            self.sent@ = self.sent@.push(Message::NewJob(job));
            self.jobs@ = self.jobs@ + 1;
        }
        self.queue.push_back(Message::NewJob(job));
        proof {
            assert(self.handed@ =~= self.sent@.take(k)) by {
                assert(old_sent.take(k) =~= self.sent@.take(k));
            }
            assert(self.queue@ =~= self.sent@.skip(k));
        }
    }

    /// Starts the shutdown: sends one `Terminate` message per worker, behind
    /// every job already queued.
    pub fn shutdown(&mut self)
        requires
            old(self).wf(),
            !old(self).is_shutting_down(),
        ensures
            final(self).wf(),
            final(self).is_shutting_down(),
            final(self).sent() == old(self).sent() + Seq::new(
                old(self).workers().len(),
                |i: int| Message::<J>::Terminate,
            ),
            final(self).pending() == old(self).pending() + Seq::new(
                old(self).workers().len(),
                |i: int| Message::<J>::Terminate,
            ),
            final(self).job_count() == old(self).job_count(),
            final(self).handed() == old(self).handed(),
            final(self).receivers() == old(self).receivers(),
            final(self).workers() == old(self).workers(),
    {
        let n = self.workers.len();
        let ghost s0 = self.sent@;
        let ghost q0 = self.queue@;
        let ghost k = self.handed@.len() as int;
        let mut i: usize = 0;
        while i < n
            invariant
                n == self.workers@.len(),
                i <= n,
                self.sent@ == s0 + Seq::new(i as nat, |j: int| Message::<J>::Terminate),
                self.queue@ == q0 + Seq::new(i as nat, |j: int| Message::<J>::Terminate),
                self.handed@ == old(self).handed@,
                self.receivers@ == old(self).receivers@,
                self.workers@ == old(self).workers@,
                self.jobs@ == old(self).jobs@,
                self.shutting_down == old(self).shutting_down,
            decreases n - i,
        {
            proof {
                self.sent@ = self.sent@.push(Message::Terminate);
            }
            self.queue.push_back(Message::Terminate);
            i = i + 1;
            proof {
                assert(self.sent@ =~= s0 + Seq::new(i as nat, |j: int| Message::<J>::Terminate));
                assert(self.queue@ =~= q0 + Seq::new(i as nat, |j: int| Message::<J>::Terminate));
            }
        }
        self.shutting_down = true;
        proof {
            assert(self.handed@ =~= self.sent@.take(k)) by {
                assert(s0.take(k) =~= self.sent@.take(k));
            }
            assert(self.queue@ =~= self.sent@.skip(k));
            assert forall|j: int| 0 <= j < self.sent@.len() implies (self.sent@[j] is Terminate
                <==> j >= self.jobs@) by {
                if j < s0.len() {
                    assert(self.sent@[j] == s0[j]);
                }
            }
        }
    }

    /// Worker `id` asks for its next message, which also says that the job it
    /// took last, if any, has returned.
    ///
    /// With an empty queue nothing is handed out and the worker is idle. Else
    /// the message at the head of the queue goes to this worker, and to no
    /// other: the worker turns busy on a job and terminated on `Terminate`.
    pub fn next_message(&mut self, id: usize) -> (r: Option<Message<J>>)
        requires
            old(self).wf(),
            id < old(self).workers().len(),
            old(self).workers()[id as int] != WorkerState::Terminated,
        ensures
            final(self).wf(),
            final(self).sent() == old(self).sent(),
            final(self).job_count() == old(self).job_count(),
            final(self).is_shutting_down() == old(self).is_shutting_down(),
            old(self).pending().len() == 0 ==> {
                &&& r is None
                &&& final(self).pending() == old(self).pending()
                &&& final(self).handed() == old(self).handed()
                &&& final(self).receivers() == old(self).receivers()
                &&& final(self).workers() == old(self).workers().update(id as int, WorkerState::Idle)
            },
            old(self).pending().len() > 0 ==> {
                &&& r == Some(old(self).pending()[0])
                &&& final(self).pending() == old(self).pending().drop_first()
                &&& final(self).handed() == old(self).handed().push(old(self).pending()[0])
                &&& final(self).receivers() == old(self).receivers().push(id as nat)
                &&& final(self).workers() == old(self).workers().update(
                    id as int,
                    if old(self).pending()[0] is Terminate {
                        WorkerState::Terminated
                    } else {
                        WorkerState::Busy
                    },
                )
            },
    {
        let ghost w0 = self.workers@;
        let ghost h0 = self.handed@;
        let ghost r0 = self.receivers@;
        let m = self.queue.pop_front();
        match m {
            None => {
                self.workers.set(id, WorkerState::Idle);
                proof {
                    lemma_live_count_update(w0, id as int, WorkerState::Idle);
                }
                None
            },
            Some(msg) => {
                let stop = match &msg {
                    Message::Terminate => true,
                    Message::NewJob(_) => false,
                };
                let next = if stop {
                    WorkerState::Terminated
                } else {
                    WorkerState::Busy
                };
                self.workers.set(id, next);
                proof {
                    let k = h0.len() as int;
                    self.handed@ = h0.push(msg);
                    self.receivers@ = r0.push(id as nat);
                    lemma_live_count_update(w0, id as int, next);
                    assert(self.sent@[k] == msg);
                    assert(self.handed@ =~= self.sent@.take(k + 1));
                    assert(self.queue@ =~= self.sent@.skip(k + 1));
                    assert forall|i: int|
                        #![trigger self.handed@[i]]
                        0 <= i < self.handed@.len() && self.handed@[i] is NewJob
                            && self.workers@[self.receivers@[i] as int] == WorkerState::Terminated
                        implies exists|j: int|
                        #![trigger self.handed@[j]]
                        i < j < self.handed@.len() && self.receivers@[j] == self.receivers@[i]
                            && self.handed@[j] is Terminate by {
                        if self.receivers@[i] == id as nat {
                            assert(self.handed@[k] is Terminate);
                        } else {
                            assert(self.handed@[i] == h0[i]);
                            let j = choose|j: int|
                                #![trigger h0[j]]
                                i < j < h0.len() && r0[j] == r0[i] && h0[j] is Terminate;
                            assert(self.handed@[j] == h0[j]);
                        }
                    }
                }
                Some(msg)
            },
        }
    }

    /// The pool's invariant.
    pub closed spec fn wf(&self) -> bool {
        let n = self.workers@.len();
        &&& is_valid_size(n as int)
        &&& self.handed@.len() <= self.sent@.len()
        &&& self.handed@ == self.sent@.take(self.handed@.len() as int)
        &&& self.queue@ == self.sent@.skip(self.handed@.len() as int)
        &&& self.receivers@.len() == self.handed@.len()
        &&& forall|i: int| 0 <= i < self.receivers@.len() ==> self.receivers@[i] < n
        &&& self.sent@.len() == if self.shutting_down {
            self.jobs@ + n as int
        } else {
            self.jobs@ as int
        }
        &&& forall|i: int|
            0 <= i < self.sent@.len() ==> (self.sent@[i] is Terminate <==> i >= self.jobs@)
        &&& live_count(self.workers@) + self.terminates_handed() == n
        &&& forall|i: int|
            #![trigger self.handed@[i]]
            0 <= i < self.handed@.len() && self.handed@[i] is NewJob
                && self.workers@[self.receivers@[i] as int] == WorkerState::Terminated ==> exists|
                j: int,
            |
                #![trigger self.handed@[j]]
                i < j < self.handed@.len() && self.receivers@[j] == self.receivers@[i]
                    && self.handed@[j] is Terminate
    }
}

/// Every message sent to a pool is, at any moment, either still queued or was
/// taken by exactly one worker: the messages taken so far are the first ones
/// sent, in the order sent, and the queue holds the rest. So no message is
/// taken twice, and none is dropped.
pub proof fn lemma_each_message_taken_once<J>(p: &WorkerPool<J>)
    requires
        p.wf(),
    ensures
        p.handed() + p.pending() == p.sent(),
        p.receivers().len() == p.handed().len(),
        forall|i: int| 0 <= i < p.receivers().len() ==> p.receivers()[i] < p.workers().len(),
{
    assert(p.handed() + p.pending() =~= p.sent());
}

/// Once every worker has terminated, which is when the shutdown's joins have
/// all returned, every message sent has been taken, and the worker of each
/// job took a `Terminate` after that job. A worker runs its job to the end
/// before it asks for a message again, so every submitted job has returned.
pub proof fn lemma_shutdown_loses_no_job<J>(p: &WorkerPool<J>)
    requires
        p.wf(),
        forall|w: int| 0 <= w < p.workers().len() ==> p.workers()[w] == WorkerState::Terminated,
    ensures
        p.is_shutting_down(),
        p.pending().len() == 0,
        p.handed() == p.sent(),
        forall|i: int|
            #![trigger p.handed()[i]]
            0 <= i < p.handed().len() && p.handed()[i] is NewJob ==> exists|j: int|
                #![trigger p.handed()[j]]
                i < j < p.handed().len() && p.receivers()[j] == p.receivers()[i]
                    && p.handed()[j] is Terminate,
{
    lemma_live_count_bounds(p.workers());
    assert(p.handed() =~= p.sent());
    assert forall|i: int|
        #![trigger p.handed()[i]]
        0 <= i < p.handed().len() && p.handed()[i] is NewJob implies exists|j: int|
        #![trigger p.handed()[j]]
        i < j < p.handed().len() && p.receivers()[j] == p.receivers()[i]
            && p.handed()[j] is Terminate by {
        assert(p.workers()[p.receivers()[i] as int] == WorkerState::Terminated);
    }
}

/// During shutdown the queue holds at least one message for each worker that
/// has not terminated, so a live worker never waits for good; each message
/// taken shortens the queue by one, and once it is empty every worker has
/// terminated. So shutdown ends after at most as many takes as there are
/// queued messages, however many jobs were queued.
pub proof fn lemma_shutdown_completes<J>(p: &WorkerPool<J>)
    requires
        p.wf(),
        p.is_shutting_down(),
    ensures
        live_count(p.workers()) <= p.pending().len(),
        p.pending().len() == 0 ==> forall|w: int|
            0 <= w < p.workers().len() ==> p.workers()[w] == WorkerState::Terminated,
{
    lemma_live_count_bounds(p.workers());
}

} // verus!
