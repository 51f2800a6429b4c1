//! The dispatcher's worker pool, modeled at the decision level: a
//! multi-producer queue of task messages and a shutdown protocol of one
//! sentinel per worker. The surrounding runtime owns the actual threads;
//! each worker loops on `next_msg`, exits on `Bye`, and otherwise runs the
//! job, so the guarantees here — submission never silently drops a task,
//! a closed pool refuses tasks, shutdown enqueues exactly one sentinel per
//! worker behind all pending work — are the pool's drain guarantees.

use vstd::prelude::*;

use crate::run::error::RunError;

verus! {

/// One message a worker receives: a job to run, or the shutdown sentinel.
#[derive(Debug, Clone, PartialEq, Eq)]
pub enum PoolMsg<T> {
    /// Shutdown sentinel: the receiving worker exits its loop.
    Bye,
    /// A task to execute.
    Job(T),
}

/// The worker pool's shared queue state.
pub struct ThreadsPool<T> {
    num: usize,
    open: bool,
    queue: Vec<PoolMsg<T>>,
}

/// Relies on `num_cpus::get`: the number of logical CPUs, always at least 1.
#[verifier::external_body]
fn host_core_count() -> (r: usize)
    ensures
        r >= 1,
{
    num_cpus::get()
}

impl<T> ThreadsPool<T> {
    /// How many workers consume the queue.
    pub closed spec fn spec_worker_count(&self) -> usize {
        self.num
    }

    /// Whether the pool still accepts tasks.
    pub closed spec fn spec_open(&self) -> bool {
        self.open
    }

    /// The messages queued and not yet received, oldest first.
    pub closed spec fn spec_queue(&self) -> Seq<PoolMsg<T>> {
        self.queue@
    }

    /// A pool with a chosen number of workers, open, with an empty queue.
    pub fn new(num: usize) -> (r: ThreadsPool<T>)
        ensures
            r.spec_worker_count() == num,
            r.spec_open(),
            r.spec_queue() == Seq::<PoolMsg<T>>::empty(),
    {
        let r = ThreadsPool { num, open: true, queue: Vec::new() };
        proof {
            assert(r.spec_queue() =~= Seq::<PoolMsg<T>>::empty());
        }
        r
    }

    /// A pool sized to the host: one worker per logical CPU.
    pub fn new_default() -> (r: ThreadsPool<T>)
        ensures
            r.spec_worker_count() >= 1,
            r.spec_open(),
            r.spec_queue() == Seq::<PoolMsg<T>>::empty(),
    {
        let num = host_core_count();
        Self::new(num)
    }

    /// How many workers consume the queue.
    pub fn worker_count(&self) -> (r: usize)
        ensures
            r == self.spec_worker_count(),
    {
        self.num
    }

    /// Queue one task. Never blocks; fails exactly when the pool has been
    /// shut down, and never drops a task silently.
    pub fn add_task(&mut self, task: T) -> (r: Result<(), RunError>)
        ensures
            old(self).spec_open() ==> r is Ok && final(self).spec_queue() == old(
                self).spec_queue().push(PoolMsg::Job(task)),
            !old(self).spec_open() ==> (r matches Err(RunError::SendTaskFail(m)) && m@
                == "task queue closed"@ && final(self).spec_queue() == old(self).spec_queue()),
            final(self).spec_open() == old(self).spec_open(),
            final(self).spec_worker_count() == old(self).spec_worker_count(),
    {
        if !self.open {
            return Err(RunError::SendTaskFail("task queue closed".to_owned()));
        }
        self.queue.push(PoolMsg::Job(task));
        Ok(())
    }

    /// Receive the oldest queued message, if any. Workers run jobs and exit
    /// on the sentinel.
    pub fn next_msg(&mut self) -> (r: Option<PoolMsg<T>>)
        ensures
            old(self).spec_queue().len() == 0 ==> r is None && final(self).spec_queue() == old(
                self).spec_queue(),
            old(self).spec_queue().len() > 0 ==> r == Some(old(self).spec_queue()[0]) && final(
                self).spec_queue() == old(self).spec_queue().skip(1),
            final(self).spec_open() == old(self).spec_open(),
            final(self).spec_worker_count() == old(self).spec_worker_count(),
    {
        if self.queue.len() == 0 {
            return None;
        }
        let m = self.queue.remove(0);
        proof {
            assert(final(self).spec_queue() =~= old(self).spec_queue().skip(1));
        }
        Some(m)
    }

    /// Shut the pool down: refuse new tasks and queue exactly one sentinel
    /// per worker behind all pending jobs, so every worker drains the work
    /// before it exits and every in-flight task completes.
    pub fn shutdown(&mut self)
        ensures
            !final(self).spec_open(),
            final(self).spec_worker_count() == old(self).spec_worker_count(),
            final(self).spec_queue() == old(self).spec_queue() + Seq::new(
                old(self).spec_worker_count() as nat,
                |i: int| PoolMsg::<T>::Bye,
            ),
    {
        self.open = false;
        let mut i: usize = 0;
        while i < self.num
            invariant
                i <= self.num,
                self.num == old(self).spec_worker_count(),
                !self.open,
                self.queue@ == old(self).spec_queue() + Seq::new(
                    i as nat,
                    |j: int| PoolMsg::<T>::Bye,
                ),
            decreases self.num - i,
        {
            self.queue.push(PoolMsg::Bye);
            proof {
                assert(self.queue@ =~= old(self).spec_queue() + Seq::new(
                    (i + 1) as nat,
                    |j: int| PoolMsg::<T>::Bye,
                ));
            }
            i += 1;
        }
    }
}

} // verus!
