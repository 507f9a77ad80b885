//! The verified state machine of the fixed-size worker pool.
//!
//! Jobs are opaque, one-shot units of work; the model identifies each by the
//! ordinal it received on submission and tracks its lifecycle stage.  The
//! surrounding process performs the actual thread spawn, channel receive and
//! join, and drives this machine: every decision the pool makes — whether a
//! construction request is valid, which job a worker claims next, when a
//! worker stops, which thread handle a shutdown may still consume — is a
//! verified transition here.

use vstd::prelude::*;

verus! {

/// The one construction-time failure: a pool must have at least one worker.
#[derive(Clone, Copy, Debug, PartialEq, Eq, Structural)]
pub enum PoolError {
    ZeroSize,
}

/// Lifecycle stage of a submitted job.
///
/// A job moves `Queued -> Running -> Done` when a worker claims and executes
/// it, or `Queued -> Dropped` when shutdown begins before any worker claimed
/// it.  `Done` and `Dropped` are terminal.
#[derive(Clone, Copy, Debug, PartialEq, Eq, Structural)]
pub enum JobStatus {
    /// Waiting in the dispatch queue; has never started executing.
    Queued,
    /// Claimed by the worker with this ordinal and currently executing.
    Running { worker: usize },
    /// Executed to completion, exactly once.
    Done,
    /// Shutdown closed the queue before any worker claimed it; never executed.
    Dropped,
}

/// What a worker is doing.
#[derive(Clone, Copy, Debug, PartialEq, Eq, Structural)]
pub enum WorkerPhase {
    /// Blocked on the dispatch queue, waiting for a job or for closure.
    Idle,
    /// Executing the job with this ordinal.
    Running { job: usize },
    /// Observed the closed queue and exited its run loop; terminal.
    Stopped,
}

/// Whether a worker's thread handle is still available to be joined.
///
/// The handle is consumed exactly once during shutdown; modelling it as a
/// consumable resource is what makes a repeated shutdown a provable no-op.
#[derive(Clone, Copy, Debug, PartialEq, Eq, Structural)]
pub enum HandleState {
    /// The join handle has not been consumed yet.
    Held,
    /// The join handle was consumed by a join; joining again is impossible.
    Taken,
}

/// One worker: an ordinal identity plus the state of its background thread.
#[derive(Clone, Copy, Debug, PartialEq, Eq, Structural)]
pub struct Worker {
    pub id: usize,
    pub handle: HandleState,
    pub phase: WorkerPhase,
}

/// Outcome of one attempt by an idle worker to claim the next job.
#[derive(Clone, Copy, Debug, PartialEq, Eq, Structural)]
pub enum ClaimOutcome {
    /// The worker claimed this job and is now running it.
    Claimed { job: usize },
    /// The producer end is closed: the worker stopped.
    Closed,
    /// The queue is empty but still open: the worker keeps waiting.
    WouldBlock,
}

/// The pool: a fixed set of workers, the producer end of the dispatch
/// queue, the queue of pending job ordinals, and the stage of every job
/// ever submitted (indexed by its ordinal).
pub struct ThreadPool {
    pub workers: Vec<Worker>,
    pub sender_open: bool,
    pub queue: Vec<usize>,
    pub jobs: Vec<JobStatus>,
}

impl Worker {
    /// A fresh worker: it starts idle, blocked on the dispatch queue, and its
    /// thread handle has not been consumed.
    pub fn new(id: usize) -> (w: Worker)
        ensures
            w == (Worker { id, handle: HandleState::Held, phase: WorkerPhase::Idle }),
    {
        Worker { id, handle: HandleState::Held, phase: WorkerPhase::Idle }
    }
}

impl ThreadPool {
    /// The dispatch queue is well formed: every pending entry names a
    /// submitted job that is still in the `Queued` stage, every `Queued` job
    /// sits in the queue, and entries appear in submission order (strictly
    /// increasing ordinals), which both makes dispatch FIFO and rules out
    /// duplicate entries.
    pub open spec fn queue_wf(self) -> bool {
        &&& forall|i: int|
            0 <= i < self.queue@.len() ==> (#[trigger] self.queue@[i]) < self.jobs@.len()
        &&& forall|i: int|
            0 <= i < self.queue@.len() ==> self.jobs@[#[trigger] self.queue@[i] as int]
                is Queued
        &&& forall|i: int, k: int|
            0 <= i < k < self.queue@.len() ==> self.queue@[i] < self.queue@[k]
        &&& forall|j: int|
            0 <= j < self.jobs@.len() && (#[trigger] self.jobs@[j]) is Queued
                ==> self.queue@.contains(j as usize)
    }

    /// The workers are well formed: there is at least one, each sits at the
    /// index matching its ordinal, and running workers and running jobs are
    /// in one-to-one correspondence — a worker runs at most one job and a job
    /// runs on exactly one worker.
    pub open spec fn workers_wf(self) -> bool {
        &&& self.workers@.len() >= 1
        &&& forall|w: int|
            0 <= w < self.workers@.len() ==> (#[trigger] self.workers@[w]).id == w
        &&& forall|w: int|
            0 <= w < self.workers@.len()
                ==> ((#[trigger] self.workers@[w]).phase matches WorkerPhase::Running { job }
                ==> job < self.jobs@.len() && self.jobs@[job as int] == (JobStatus::Running {
                worker: w as usize,
            }))
        &&& forall|j: int|
            0 <= j < self.jobs@.len()
                ==> ((#[trigger] self.jobs@[j]) matches JobStatus::Running { worker }
                ==> worker < self.workers@.len() && self.workers@[worker as int].phase
                == (WorkerPhase::Running { job: j as usize }))
    }

    /// The pool invariant, established by construction and preserved by every
    /// transition.
    pub open spec fn wf(self) -> bool {
        &&& self.queue_wf()
        &&& self.workers_wf()
    }

    /// Construct a pool of `size` workers.
    ///
    /// Exactly the size-zero request fails, with the configuration error and
    /// no workers created; any positive size yields a well-formed pool of
    /// exactly `size` fresh idle workers, an open producer end, and no jobs.
    pub fn build(size: usize) -> (r: Result<ThreadPool, PoolError>)
        ensures
            r is Err <==> size == 0,
            r is Err ==> r == Result::<ThreadPool, PoolError>::Err(PoolError::ZeroSize),
            r matches Ok(p) ==> {
                &&& p.wf()
                &&& p.workers@.len() == size
                &&& forall|w: int|
                    0 <= w < size ==> #[trigger] p.workers@[w] == (Worker {
                        id: w as usize,
                        handle: HandleState::Held,
                        phase: WorkerPhase::Idle,
                    })
                &&& p.sender_open
                &&& p.queue@.len() == 0
                &&& p.jobs@.len() == 0
            },
    {
        if size == 0 {
            Err(PoolError::ZeroSize)
        } else {
            let mut workers: Vec<Worker> = Vec::with_capacity(size);
            for id in 0..size
                invariant
                    workers@.len() == id,
                    forall|w: int|
                        0 <= w < id ==> #[trigger] workers@[w] == (Worker {
                            id: w as usize,
                            handle: HandleState::Held,
                            phase: WorkerPhase::Idle,
                        }),
            {
                workers.push(Worker::new(id));
            }
            Ok(ThreadPool { workers, sender_open: true, queue: Vec::new(), jobs: Vec::new() })
        }
    }

    /// Submit a unit of work: the job receives the next ordinal, enters the
    /// `Queued` stage and is appended to the dispatch queue.  Returns
    /// immediately; it never waits for execution.  Submitting requires the
    /// producer end to be open — submitting after shutdown has begun is a
    /// precondition violation, not a recoverable state.
    pub fn execute(&mut self) -> (job: usize)
        requires
            old(self).wf(),
            old(self).sender_open,
        ensures
            final(self).wf(),
            job == old(self).jobs@.len(),
            final(self).jobs@ == old(self).jobs@.push(JobStatus::Queued),
            final(self).queue@ == old(self).queue@.push(job),
            final(self).workers@ == old(self).workers@,
            final(self).sender_open,
    {
        let job = self.jobs.len();
        self.jobs.push(JobStatus::Queued);
        self.queue.push(job);
        proof {
            assert forall|j: int|
                0 <= j < self.jobs@.len() && (#[trigger] self.jobs@[j]) is Queued implies self
                .queue@.contains(j as usize) by {
                if j < old(self).jobs@.len() {
                    assert(old(self).queue@.contains(j as usize));
                    let i = choose|i: int|
                        0 <= i < old(self).queue@.len() && old(self).queue@[i] == j as usize;
                    assert(self.queue@[i] == j as usize);
                } else {
                    assert(self.queue@[self.queue@.len() - 1] == j as usize);
                }
            }
        }
        job
    }

    /// Close the producer end of the dispatch queue.  The first step of
    /// shutdown; safe to repeat.  No job, worker or pending queue entry is
    /// touched: a job already in progress is never interrupted.
    pub fn close(&mut self)
        requires
            old(self).wf(),
        ensures
            final(self).wf(),
            !final(self).sender_open,
            final(self).workers@ == old(self).workers@,
            final(self).queue@ == old(self).queue@,
            final(self).jobs@ == old(self).jobs@,
    {
        self.sender_open = false;
    }

    /// One attempt by the idle worker `wid` to claim the next job — the
    /// decision made each time around the worker's run loop.
    ///
    /// While the producer end is open, the worker claims the front of the
    /// queue (FIFO): that job leaves the queue and moves from `Queued` to
    /// `Running` on this worker, so no second claim of it is possible.  An
    /// open empty queue leaves everything unchanged (the worker keeps
    /// blocking).  A closed producer end is the sole stop condition: the
    /// worker moves to `Stopped` and never claims again, even if unclaimed
    /// jobs are still pending — those are dropped by shutdown, not drained.
    pub fn claim(&mut self, wid: usize) -> (r: ClaimOutcome)
        requires
            old(self).wf(),
            wid < old(self).workers@.len(),
            old(self).workers@[wid as int].phase is Idle,
        ensures
            final(self).wf(),
            final(self).sender_open == old(self).sender_open,
            final(self).jobs@.len() == old(self).jobs@.len(),
            final(self).workers@.len() == old(self).workers@.len(),
            forall|w: int|
                0 <= w < old(self).workers@.len() && w != wid ==> final(self).workers@[w] == old(
                    self,
                ).workers@[w],
            final(self).workers@[wid as int].id == wid,
            final(self).workers@[wid as int].handle == old(self).workers@[wid as int].handle,
            match r {
                ClaimOutcome::Claimed { job } => {
                    &&& old(self).sender_open
                    &&& old(self).queue@.len() > 0
                    &&& job == old(self).queue@[0]
                    &&& old(self).jobs@[job as int] is Queued
                    &&& final(self).jobs@ == old(self).jobs@.update(
                        job as int,
                        JobStatus::Running { worker: wid },
                    )
                    &&& final(self).queue@ == old(self).queue@.drop_first()
                    &&& final(self).workers@[wid as int].phase == (WorkerPhase::Running { job })
                },
                ClaimOutcome::Closed => {
                    &&& !old(self).sender_open
                    &&& final(self).jobs@ == old(self).jobs@
                    &&& final(self).queue@ == old(self).queue@
                    &&& final(self).workers@[wid as int].phase is Stopped
                },
                ClaimOutcome::WouldBlock => {
                    &&& old(self).sender_open
                    &&& old(self).queue@.len() == 0
                    &&& final(self).jobs@ == old(self).jobs@
                    &&& final(self).queue@ == old(self).queue@
                    &&& final(self).workers@ == old(self).workers@
                },
            },
    {
        if !self.sender_open {
            let w = self.workers[wid];
            self.workers[wid] = Worker { id: w.id, handle: w.handle, phase: WorkerPhase::Stopped };
            ClaimOutcome::Closed
        } else if self.queue.len() == 0 {
            ClaimOutcome::WouldBlock
        } else {
            let job = self.queue.remove(0);
            self.jobs[job] = JobStatus::Running { worker: wid };
            let w = self.workers[wid];
            self.workers[wid] = Worker {
                id: w.id,
                handle: w.handle,
                phase: WorkerPhase::Running { job },
            };
            proof {
                self.lemma_claim_wf(*old(self), wid, job);
            }
            ClaimOutcome::Claimed { job }
        }
    }

    /// The claim transition preserves the pool invariant.
    proof fn lemma_claim_wf(self, pre: ThreadPool, wid: usize, job: usize)
        requires
            pre.wf(),
            wid < pre.workers@.len(),
            pre.workers@[wid as int].phase is Idle,
            pre.queue@.len() > 0,
            job == pre.queue@[0],
            self.sender_open == pre.sender_open,
            self.jobs@ == pre.jobs@.update(job as int, JobStatus::Running { worker: wid }),
            self.queue@ == pre.queue@.drop_first(),
            self.workers@ == pre.workers@.update(
                wid as int,
                (Worker {
                    id: pre.workers@[wid as int].id,
                    handle: pre.workers@[wid as int].handle,
                    phase: WorkerPhase::Running { job },
                }),
            ),
        ensures
            self.wf(),
    {
        assert(pre.jobs@[job as int] is Queued);
        // Queue entries behind the front are untouched and still `Queued`:
        // they differ from `job` because the queue is strictly increasing.
        assert forall|i: int| 0 <= i < self.queue@.len() implies {
            &&& (#[trigger] self.queue@[i]) < self.jobs@.len()
            &&& self.jobs@[self.queue@[i] as int] is Queued
        } by {
            assert(self.queue@[i] == pre.queue@[i + 1]);
            assert(pre.queue@[0] < pre.queue@[i + 1]);
        }
        // Every still-`Queued` job keeps its (shifted) place in the queue.
        assert forall|j: int|
            0 <= j < self.jobs@.len() && (#[trigger] self.jobs@[j]) is Queued implies self.queue@
            .contains(j as usize) by {
            assert(self.jobs@[job as int] == (JobStatus::Running { worker: wid }));
            assert(j != job as int);
            assert(pre.jobs.len() == pre.jobs@.len());
            assert(j == (j as usize) as int);
            assert(pre.jobs@[j] is Queued);
            assert(pre.queue@.contains(j as usize));
            let i = choose|i: int|
                0 <= i < pre.queue@.len() && pre.queue@[i] == j as usize;
            assert(pre.queue@[0] == job);
            assert(i != 0);
            assert(self.queue@[i - 1] == j as usize);
            assert(self.queue@.contains(j as usize));
        }
        // The running-worker/running-job correspondence extends to `wid`/`job`.
        assert forall|w: int|
            0 <= w < self.workers@.len() && (#[trigger] self.workers@[w]).phase is Running implies {
            let jw = self.workers@[w].phase->Running_job;
            jw < self.jobs@.len() && self.jobs@[jw as int] == (JobStatus::Running {
                worker: w as usize,
            })
        } by {
            if w != wid {
                let jw = self.workers@[w].phase->Running_job;
                assert(pre.jobs@[jw as int] == (JobStatus::Running { worker: w as usize }));
                assert(jw != job);
            }
        }
        assert forall|j: int|
            0 <= j < self.jobs@.len() && (#[trigger] self.jobs@[j]) is Running implies {
            let w = self.jobs@[j]->Running_worker;
            w < self.workers@.len() && self.workers@[w as int].phase == (WorkerPhase::Running {
                job: j as usize,
            })
        } by {
            if j != job {
                let w = self.jobs@[j]->Running_worker;
                assert(pre.workers@[w as int].phase == (WorkerPhase::Running {
                    job: j as usize,
                }));
                assert(w != wid);
            }
        }
    }

    /// The worker `wid` finished the job it was running: that job moves to
    /// `Done` — it has now executed exactly once — and the worker returns to
    /// `Idle`, contending for new work again.  Nothing else changes.
    pub fn finish(&mut self, wid: usize) -> (job: usize)
        requires
            old(self).wf(),
            wid < old(self).workers@.len(),
            old(self).workers@[wid as int].phase is Running,
        ensures
            final(self).wf(),
            old(self).workers@[wid as int].phase == (WorkerPhase::Running { job }),
            final(self).jobs@ == old(self).jobs@.update(job as int, JobStatus::Done),
            final(self).queue@ == old(self).queue@,
            final(self).sender_open == old(self).sender_open,
            final(self).workers@ == old(self).workers@.update(
                wid as int,
                (Worker {
                    id: wid,
                    handle: old(self).workers@[wid as int].handle,
                    phase: WorkerPhase::Idle,
                }),
            ),
    {
        let job = match self.workers[wid].phase {
            WorkerPhase::Running { job } => job,
            _ => 0,
        };
        self.jobs[job] = JobStatus::Done;
        let w = self.workers[wid];
        self.workers[wid] = Worker { id: w.id, handle: w.handle, phase: WorkerPhase::Idle };
        proof {
            let pre = *old(self);
            assert(pre.jobs@[job as int] == (JobStatus::Running { worker: wid }));
            assert forall|i: int| 0 <= i < self.queue@.len() implies self.jobs@[(
            #[trigger] self.queue@[i]) as int] is Queued by {
                assert(pre.jobs@[pre.queue@[i] as int] is Queued);
            }
            assert forall|w: int|
                0 <= w < self.workers@.len()
                    && (#[trigger] self.workers@[w]).phase is Running implies {
                let jw = self.workers@[w].phase->Running_job;
                jw < self.jobs@.len() && self.jobs@[jw as int] == (JobStatus::Running {
                    worker: w as usize,
                })
            } by {
                if w != wid {
                    let jw = self.workers@[w].phase->Running_job;
                    assert(pre.jobs@[jw as int] == (JobStatus::Running { worker: w as usize }));
                    assert(jw != job);
                }
            }
            assert forall|j: int|
                0 <= j < self.jobs@.len() && (#[trigger] self.jobs@[j]) is Running implies {
                let w = self.jobs@[j]->Running_worker;
                w < self.workers@.len() && self.workers@[w as int].phase == (WorkerPhase::Running {
                    job: j as usize,
                })
            } by {
                let w = self.jobs@[j]->Running_worker;
                assert(self.jobs@[job as int] == JobStatus::Done);
                assert(j != job as int);
                assert(pre.jobs.len() == pre.jobs@.len());
                assert(j == (j as usize) as int);
                assert(pre.jobs@[j] == (JobStatus::Running { worker: w }));
                assert(pre.workers@[w as int].phase == (WorkerPhase::Running {
                    job: j as usize,
                }));
                assert(pre.workers@[wid as int].phase == (WorkerPhase::Running { job }));
                assert(w != wid);
            }
        }
        job
    }

    /// Keep the idle worker `wid` claiming and finishing jobs until the queue
    /// is empty.  Every job that was pending when the call began — and every
    /// job submitted before it — has then executed exactly once: with the
    /// producer end still open when each is claimed, none is dropped.
    #[verifier::loop_isolation(false)]
    pub fn work_until_empty(&mut self, wid: usize)
        requires
            old(self).wf(),
            old(self).sender_open,
            wid < old(self).workers@.len(),
            old(self).workers@[wid as int].phase is Idle,
        ensures
            final(self).wf(),
            final(self).sender_open,
            final(self).queue@.len() == 0,
            final(self).workers@ == old(self).workers@,
            final(self).jobs@.len() == old(self).jobs@.len(),
            forall|j: int|
                0 <= j < old(self).jobs@.len() ==> #[trigger] final(self).jobs@[j] == (
                if old(self).jobs@[j] is Queued {
                    JobStatus::Done
                } else {
                    old(self).jobs@[j]
                }),
    {
        while self.queue.len() > 0
            invariant
                self.wf(),
                self.sender_open,
                self.workers@ == old(self).workers@,
                self.jobs@.len() == old(self).jobs@.len(),
                forall|j: int|
                    0 <= j < old(self).jobs@.len() && !(old(self).jobs@[j] is Queued)
                        ==> #[trigger] self.jobs@[j] == old(self).jobs@[j],
                forall|j: int|
                    0 <= j < old(self).jobs@.len() && old(self).jobs@[j] is Queued
                        ==> #[trigger] self.jobs@[j] is Queued || self.jobs@[j] == JobStatus::Done,
                forall|j: int|
                    0 <= j < self.jobs@.len() && (#[trigger] self.jobs@[j]) is Queued ==> old(
                        self,
                    ).jobs@[j] is Queued,
            decreases self.queue@.len(),
        {
            let r = self.claim(wid);
            match r {
                ClaimOutcome::Claimed { job: _ } => {
                    let _done = self.finish(wid);
                    proof {
                        // The worker went idle -> running -> idle: unchanged.
                        assert(self.workers@ =~= old(self).workers@);
                    }
                }
                _ => {
                    proof {
                        assert(false);
                    }
                }
            }
        }
        proof {
            // An empty well-formed queue leaves no job in the `Queued` stage.
            assert forall|j: int|
                0 <= j < old(self).jobs@.len() && old(self).jobs@[j] is Queued implies #[trigger]
            self.jobs@[j] == JobStatus::Done by {
                if self.jobs@[j] is Queued {
                    assert(self.queue@.contains(j as usize));
                }
            }
        }
    }

    /// How one job stage settles when the workers run to termination: a job
    /// in progress always completes; every other stage is already settled.
    pub open spec fn drained_job(s: JobStatus) -> JobStatus {
        match s {
            JobStatus::Running { worker: _ } => JobStatus::Done,
            _ => s,
        }
    }

    /// `drained_job`, applied only to jobs running on workers below `wid`:
    /// the intermediate states of `drain`'s sweep.
    pub open spec fn drained_until(s: JobStatus, wid: int) -> JobStatus {
        match s {
            JobStatus::Running { worker } => if worker < wid {
                JobStatus::Done
            } else {
                s
            },
            _ => s,
        }
    }

    /// Let every worker run to termination once the producer end is closed:
    /// each worker finishes its in-flight job — no job in progress is ever
    /// interrupted — and then observes closure and stops.  This always
    /// terminates, for every well-formed pool state: with the producer end
    /// closed, no interleaving of pending or in-flight jobs can make a worker
    /// hang, so shutdown is never a deadlock.
    #[verifier::loop_isolation(false)]
    pub fn drain(&mut self)
        requires
            old(self).wf(),
            !old(self).sender_open,
        ensures
            final(self).wf(),
            !final(self).sender_open,
            final(self).queue@ == old(self).queue@,
            final(self).jobs@.len() == old(self).jobs@.len(),
            final(self).workers@.len() == old(self).workers@.len(),
            forall|w: int|
                0 <= w < old(self).workers@.len() ==> #[trigger] final(self).workers@[w]
                    == (Worker {
                    id: w as usize,
                    handle: old(self).workers@[w].handle,
                    phase: WorkerPhase::Stopped,
                }),
            forall|j: int|
                0 <= j < old(self).jobs@.len() ==> #[trigger] final(self).jobs@[j]
                    == Self::drained_job(old(self).jobs@[j]),
    {
        let n = self.workers.len();
        for wid in 0..n
            invariant
                self.wf(),
                !self.sender_open,
                self.queue@ == old(self).queue@,
                self.jobs@.len() == old(self).jobs@.len(),
                self.workers@.len() == old(self).workers@.len(),
                forall|w: int|
                    0 <= w < wid ==> #[trigger] self.workers@[w] == (Worker {
                        id: w as usize,
                        handle: old(self).workers@[w].handle,
                        phase: WorkerPhase::Stopped,
                    }),
                forall|w: int|
                    wid <= w < n ==> #[trigger] self.workers@[w] == old(self).workers@[w],
                forall|j: int|
                    0 <= j < old(self).jobs@.len() ==> #[trigger] self.jobs@[j]
                        == Self::drained_until(old(self).jobs@[j], wid as int),
        {
            let ph = self.workers[wid].phase;
            match ph {
                WorkerPhase::Running { job: _ } => {
                    let _done = self.finish(wid);
                    let _r = self.claim(wid);
                }
                WorkerPhase::Idle => {
                    let _r = self.claim(wid);
                }
                WorkerPhase::Stopped => {
                    proof {
                        // A stopped worker runs nothing: no job settles here.
                        assert forall|j: int|
                            0 <= j < old(self).jobs@.len() implies #[trigger] self.jobs@[j]
                            == Self::drained_until(old(self).jobs@[j], wid as int + 1) by {
                            if old(self).jobs@[j] matches JobStatus::Running { worker }
                                && worker == wid {
                                assert(self.jobs@[j] == old(self).jobs@[j]);
                                assert(self.workers@[wid as int].phase == (WorkerPhase::Running {
                                    job: j as usize,
                                }));
                            }
                        }
                    }
                }
            }
        }
        proof {
            // Every running job in a well-formed pool runs on one of the
            // pool's workers, so the sweep over all workers settles them all.
            assert forall|j: int|
                0 <= j < old(self).jobs@.len() implies #[trigger] self.jobs@[j]
                == Self::drained_job(old(self).jobs@[j]) by {
                if old(self).jobs@[j] is Running {
                    assert(old(self).jobs@[j]->Running_worker < old(self).workers@.len());
                }
            }
        }
    }

    /// Consume the worker's thread handle — the join step of shutdown.  The
    /// handle is take-once: the first call consumes it and reports so; any
    /// repeat finds it already consumed and is a no-op, so a second shutdown
    /// can never join the same thread twice.
    pub fn join_worker(&mut self, wid: usize) -> (took: bool)
        requires
            old(self).wf(),
            wid < old(self).workers@.len(),
            old(self).workers@[wid as int].phase is Stopped,
        ensures
            final(self).wf(),
            took == (old(self).workers@[wid as int].handle is Held),
            final(self).workers@ == old(self).workers@.update(
                wid as int,
                (Worker { id: wid, handle: HandleState::Taken, phase: WorkerPhase::Stopped }),
            ),
            final(self).jobs@ == old(self).jobs@,
            final(self).queue@ == old(self).queue@,
            final(self).sender_open == old(self).sender_open,
    {
        let w = self.workers[wid];
        let took = match w.handle {
            HandleState::Held => true,
            HandleState::Taken => false,
        };
        self.workers[wid] = Worker {
            id: w.id,
            handle: HandleState::Taken,
            phase: WorkerPhase::Stopped,
        };
        proof {
            assert forall|j: int|
                0 <= j < self.jobs@.len() && (#[trigger] self.jobs@[j]) is Running implies {
                let ww = self.jobs@[j]->Running_worker;
                ww < self.workers@.len() && self.workers@[ww as int].phase
                    == (WorkerPhase::Running { job: j as usize })
            } by {
                let ww = self.jobs@[j]->Running_worker;
                assert(old(self).workers@[ww as int].phase == (WorkerPhase::Running {
                    job: j as usize,
                }));
                assert(ww != wid);
            }
        }
        took
    }

    /// How one job stage settles when the pending queue is discarded.
    pub open spec fn discarded_job(s: JobStatus) -> JobStatus {
        match s {
            JobStatus::Queued => JobStatus::Dropped,
            _ => s,
        }
    }

    /// Discard every job still waiting in the queue: shutdown stops accepting
    /// and dispatching new work immediately rather than draining the backlog,
    /// so a job never claimed is dropped without running.  Jobs in any other
    /// stage — in particular those in progress — are untouched.
    #[verifier::loop_isolation(false)]
    pub fn discard_pending(&mut self)
        requires
            old(self).wf(),
        ensures
            final(self).wf(),
            final(self).queue@.len() == 0,
            final(self).workers@ == old(self).workers@,
            final(self).sender_open == old(self).sender_open,
            final(self).jobs@.len() == old(self).jobs@.len(),
            forall|j: int|
                0 <= j < old(self).jobs@.len() ==> #[trigger] final(self).jobs@[j]
                    == Self::discarded_job(old(self).jobs@[j]),
    {
        let n = self.jobs.len();
        for j in 0..n
            invariant
                self.workers@ == old(self).workers@,
                self.sender_open == old(self).sender_open,
                self.queue@ == old(self).queue@,
                self.jobs@.len() == old(self).jobs@.len(),
                n == self.jobs@.len(),
                forall|jj: int|
                    0 <= jj < j ==> #[trigger] self.jobs@[jj] == Self::discarded_job(
                        old(self).jobs@[jj],
                    ),
                forall|jj: int| j <= jj < n ==> #[trigger] self.jobs@[jj] == old(self).jobs@[jj],
        {
            let s = self.jobs[j];
            match s {
                JobStatus::Queued => {
                    self.jobs[j] = JobStatus::Dropped;
                }
                _ => {}
            }
        }
        self.queue.clear();
        proof {
            // Re-establish the invariant: the queue is empty and no job is
            // left in the `Queued` stage, and running jobs were untouched.
            assert forall|w: int|
                0 <= w < self.workers@.len() && (#[trigger] self.workers@[w]).phase
                    is Running implies {
                let jw = self.workers@[w].phase->Running_job;
                jw < self.jobs@.len() && self.jobs@[jw as int] == (JobStatus::Running {
                    worker: w as usize,
                })
            } by {
                let jw = self.workers@[w].phase->Running_job;
                assert(old(self).jobs@[jw as int] == (JobStatus::Running { worker: w as usize }));
            }
            assert forall|j: int|
                0 <= j < self.jobs@.len() && (#[trigger] self.jobs@[j]) is Running implies {
                let w = self.jobs@[j]->Running_worker;
                w < self.workers@.len() && self.workers@[w as int].phase == (WorkerPhase::Running {
                    job: j as usize,
                })
            } by {
                assert(old(self).jobs@[j] == self.jobs@[j]);
            }
        }
    }

    /// How one job stage settles across a whole shutdown: a job in progress
    /// completes (exactly-once execution is never violated), a job never
    /// claimed is dropped without running, and settled jobs stay settled.
    pub open spec fn settle(s: JobStatus) -> JobStatus {
        match s {
            JobStatus::Queued => JobStatus::Dropped,
            JobStatus::Running { worker: _ } => JobStatus::Done,
            _ => s,
        }
    }

    /// What shutdown does to a pool, as a relation between the state before
    /// and the state after: the producer end is closed, the pending queue is
    /// discarded, every job has settled (`settle`), and every worker — in
    /// ascending ordinal order — has stopped and had its thread handle
    /// consumed.  The after-state is a function of the before-state, which is
    /// what makes shutdown idempotent.
    pub open spec fn shutdown_rel(pre: ThreadPool, post: ThreadPool) -> bool {
        &&& !post.sender_open
        &&& post.queue@.len() == 0
        &&& post.jobs@.len() == pre.jobs@.len()
        &&& forall|j: int|
            0 <= j < pre.jobs@.len() ==> #[trigger] post.jobs@[j] == Self::settle(pre.jobs@[j])
        &&& post.workers@.len() == pre.workers@.len()
        &&& forall|w: int|
            0 <= w < pre.workers@.len() ==> #[trigger] post.workers@[w] == (Worker {
                id: w as usize,
                handle: HandleState::Taken,
                phase: WorkerPhase::Stopped,
            })
    }

    /// Orderly teardown, triggered when the pool reaches its end of life.
    ///
    /// First the producer end of the dispatch queue is closed — new work can
    /// no longer arrive.  Every worker then finishes the job it is running
    /// (a job in progress always completes), notices closure and exits; jobs
    /// still waiting in the queue are dropped without running.  Finally each
    /// worker, in ascending ordinal order, is joined, consuming its thread
    /// handle exactly once.  The call returns only when every worker has
    /// stopped; it terminates for every well-formed pool.
    #[verifier::loop_isolation(false)]
    pub fn shutdown(&mut self)
        requires
            old(self).wf(),
        ensures
            final(self).wf(),
            Self::shutdown_rel(*old(self), *final(self)),
    {
        self.close();
        self.drain();
        self.discard_pending();
        proof {
            assert forall|j: int| 0 <= j < old(self).jobs@.len() implies #[trigger] self.jobs@[j]
                == Self::settle(old(self).jobs@[j]) by {
                assert(self.jobs@[j] == Self::discarded_job(
                    Self::drained_job(old(self).jobs@[j]),
                ));
            }
        }
        let n = self.workers.len();
        for wid in 0..n
            invariant
                self.wf(),
                !self.sender_open,
                self.queue@.len() == 0,
                self.jobs@.len() == old(self).jobs@.len(),
                forall|j: int|
                    0 <= j < old(self).jobs@.len() ==> #[trigger] self.jobs@[j] == Self::settle(
                        old(self).jobs@[j],
                    ),
                self.workers@.len() == old(self).workers@.len(),
                n == self.workers@.len(),
                forall|w: int|
                    0 <= w < n ==> (#[trigger] self.workers@[w]).phase is Stopped
                        && self.workers@[w].id == w,
                forall|w: int|
                    0 <= w < wid ==> (#[trigger] self.workers@[w]).handle is Taken,
        {
            let _took = self.join_worker(wid);
        }
    }

    /// Shutdown is idempotent: running it twice is observably the same as
    /// running it once.  The state after a shutdown is a function of the
    /// state before it, every job stage it produces is already settled, and
    /// every handle is already consumed — so a second shutdown reproduces the
    /// first's state exactly (and, take-once, joins no thread again).
    pub proof fn lemma_shutdown_idempotent(p: ThreadPool, q: ThreadPool, r: ThreadPool)
        requires
            Self::shutdown_rel(p, q),
            Self::shutdown_rel(q, r),
        ensures
            r.sender_open == q.sender_open,
            r.queue@ == q.queue@,
            r.jobs@ == q.jobs@,
            r.workers@ == q.workers@,
    {
        assert forall|j: int| 0 <= j < q.jobs@.len() implies #[trigger] r.jobs@[j]
            == q.jobs@[j] by {
            assert(q.jobs@[j] == Self::settle(p.jobs@[j]));
        }
        assert(r.jobs@ =~= q.jobs@);
        assert(r.workers@ =~= q.workers@);
        assert(r.queue@ =~= q.queue@);
    }

    /// A job that has left the `Queued` stage — because a worker claimed it,
    /// or shutdown dropped it — is never in the dispatch queue, so it can
    /// never be claimed (and hence never executed) a second time: `claim`
    /// only hands out the queue's front, and the queue holds `Queued` jobs
    /// only.
    pub proof fn lemma_no_reclaim(p: ThreadPool, j: usize)
        requires
            p.wf(),
            j < p.jobs@.len(),
            !(p.jobs@[j as int] is Queued),
        ensures
            !p.queue@.contains(j),
    {
        if p.queue@.contains(j) {
            let i = choose|i: int| 0 <= i < p.queue@.len() && p.queue@[i] == j;
            assert(p.jobs@[p.queue@[i] as int] is Queued);
        }
    }

    /// The number of workers in a slice whose phase is `Running`.
    pub open spec fn count_running(ws: Seq<Worker>) -> nat
        decreases ws.len(),
    {
        if ws.len() == 0 {
            0
        } else {
            (if ws.last().phase is Running {
                1nat
            } else {
                0nat
            }) + Self::count_running(ws.drop_last())
        }
    }

    /// At most `size` jobs are ever mid-execution at once: each worker runs
    /// at most one job at a time, so the number of running workers — and with
    /// them, by `lemma_distinct_workers`, the number of running jobs — never
    /// exceeds the worker count fixed at construction.
    pub proof fn lemma_at_most_size_running(ws: Seq<Worker>)
        ensures
            Self::count_running(ws) <= ws.len(),
        decreases ws.len(),
    {
        if ws.len() > 0 {
            Self::lemma_at_most_size_running(ws.drop_last());
        }
    }

    /// Two distinct jobs that are mid-execution at the same instant always
    /// run on two distinct workers: no worker executes two jobs at once, so a
    /// pool of `size` workers never has more than `size` jobs in flight.
    pub proof fn lemma_distinct_workers(p: ThreadPool, j1: usize, j2: usize)
        requires
            p.wf(),
            j1 < p.jobs@.len(),
            j2 < p.jobs@.len(),
            j1 != j2,
            p.jobs@[j1 as int] is Running,
            p.jobs@[j2 as int] is Running,
        ensures
            p.jobs@[j1 as int]->Running_worker != p.jobs@[j2 as int]->Running_worker,
    {
        let w1 = p.jobs@[j1 as int]->Running_worker;
        let w2 = p.jobs@[j2 as int]->Running_worker;
        assert(p.workers@[w1 as int].phase == (WorkerPhase::Running { job: j1 }));
        assert(p.workers@[w2 as int].phase == (WorkerPhase::Running { job: j2 }));
    }
}

} // verus!
