//! The bookkeeping of a fixed-size worker pool: whether it takes jobs, how
//! many stop messages its shutdown sends, and when every worker has exited.
use vstd::prelude::*;

verus! {

/// Why a pool refused a request.
#[derive(Debug, PartialEq, Eq, Structural)]
pub enum PoolError {
    /// A job was submitted after shutdown began.
    ShutDown,
    /// Shutdown was asked for a second time.
    AlreadyShutDown,
}

/// The state of a pool of `workers` worker loops on one job queue.
pub struct PoolState {
    workers: usize,
    open: bool,
    queued: u64,
    exited: usize,
}

impl PoolState {
    /// The number of workers the pool was started with.
    pub closed spec fn workers(&self) -> nat {
        self.workers as nat
    }

    /// Whether the pool still takes jobs.
    pub closed spec fn is_open(&self) -> bool {
        self.open
    }

    /// Jobs taken so far.
    pub closed spec fn queued(&self) -> nat {
        self.queued as nat
    }

    /// Workers that have exited and been joined.
    pub closed spec fn exited(&self) -> nat {
        self.exited as nat
    }

    /// Workers exit only after shutdown began, and each one once.
    pub open spec fn wf(&self) -> bool {
        &&& self.exited() <= self.workers()
        &&& self.is_open() ==> self.exited() == 0
    }

    /// Shutdown has sent its stop messages and every worker has been joined.
    pub open spec fn drained(&self) -> bool {
        !self.is_open() && self.exited() == self.workers()
    }

    /// A pool of `workers` workers that takes jobs.
    pub fn new(workers: usize) -> (r: PoolState)
        ensures
            r.wf(),
            r.workers() == workers,
            r.is_open(),
            r.queued() == 0,
            r.exited() == 0,
    {
        PoolState { workers, open: true, queued: 0, exited: 0 }
    }

    /// Takes a job where the pool is open; refuses it once shutdown began.
    pub fn submit(&mut self) -> (r: Result<(), PoolError>)
        requires
            old(self).wf(),
            old(self).queued() < u64::MAX,
        ensures
            final(self).wf(),
            final(self).workers() == old(self).workers(),
            final(self).is_open() == old(self).is_open(),
            final(self).exited() == old(self).exited(),
            r is Ok <==> old(self).is_open(),
            r matches Err(e) ==> e == PoolError::ShutDown,
            (r is Ok, final(self)@) == submit_step(old(self)@),
            final(self).queued() == old(self).queued() + (if old(self).is_open() { 1nat } else { 0nat }),
    {
        if self.open {
            self.queued = self.queued + 1;
            Ok(())
        } else {
            Err(PoolError::ShutDown)
        }
    }

    /// Begins shutdown: the pool stops taking jobs, and the result is the
    /// number of stop messages to queue, one per worker. A second shutdown is
    /// refused.
    pub fn begin_shutdown(&mut self) -> (r: Result<usize, PoolError>)
        requires
            old(self).wf(),
        ensures
            final(self).wf(),
            !final(self).is_open(),
            final(self).workers() == old(self).workers(),
            final(self).queued() == old(self).queued(),
            final(self).exited() == old(self).exited(),
            r is Ok <==> old(self).is_open(),
            r matches Ok(n) ==> n == old(self).workers(),
            r matches Err(e) ==> e == PoolError::AlreadyShutDown,
            final(self)@ == shut(old(self)@),
    {
        if self.open {
            self.open = false;
            Ok(self.workers)
        } else {
            Err(PoolError::AlreadyShutDown)
        }
    }

    /// Records that one more worker has exited and been joined.
    pub fn worker_joined(&mut self)
        requires
            old(self).wf(),
            !old(self).is_open(),
            old(self).exited() < old(self).workers(),
        ensures
            final(self).wf(),
            !final(self).is_open(),
            final(self).workers() == old(self).workers(),
            final(self).queued() == old(self).queued(),
            final(self).exited() == old(self).exited() + 1,
    {
        self.exited = self.exited + 1;
    }

    /// Whether shutdown is over: it began and every worker has been joined.
    pub fn is_drained(&self) -> (r: bool)
        ensures
            r == self.drained(),
    {
        !self.open && self.exited == self.workers
    }

    /// The number of workers the pool was started with.
    pub fn worker_count(&self) -> (r: usize)
        ensures
            r == self.workers(),
    {
        self.workers
    }
}

/// The mathematical state of a pool: its size, whether it is open, the jobs
/// it took and the workers joined.
pub struct PoolView {
    pub workers: nat,
    pub open: bool,
    pub queued: nat,
    pub exited: nat,
}

impl PoolState {
    pub open spec fn view(&self) -> PoolView {
        PoolView {
            workers: self.workers(),
            open: self.is_open(),
            queued: self.queued(),
            exited: self.exited(),
        }
    }
}

/// One submit on a pool: whether it is taken, and the pool after it.
pub open spec fn submit_step(v: PoolView) -> (bool, PoolView) {
    if v.open {
        (true, PoolView { queued: v.queued + 1, ..v })
    } else {
        (false, v)
    }
}

/// The outcomes of `n` submits made one after another.
pub open spec fn submits(v: PoolView, n: nat) -> Seq<bool>
    decreases n,
{
    if n == 0 {
        Seq::empty()
    } else {
        let (ok, next) = submit_step(v);
        seq![ok] + submits(next, (n - 1) as nat)
    }
}

/// The pool after shutdown began.
pub open spec fn shut(v: PoolView) -> PoolView {
    PoolView { open: false, ..v }
}

/// Once shutdown began, however many jobs are submitted, none is taken.
pub proof fn lemma_no_submit_after_shutdown(v: PoolView, n: nat)
    ensures
        submits(shut(v), n).len() == n,
        forall|i: int| 0 <= i < n ==> !#[trigger] submits(shut(v), n)[i],
    decreases n,
{
    if n > 0 {
        lemma_no_submit_after_shutdown(v, (n - 1) as nat);
        let s = submits(shut(v), n);
        assert(submit_step(shut(v)).1 == shut(v));
        assert forall|i: int| 0 <= i < n implies !#[trigger] s[i] by {
            if i > 0 {
                assert(s[i] == submits(shut(v), (n - 1) as nat)[i - 1]);
            }
        }
    }
}

} // verus!
