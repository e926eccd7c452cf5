//! The request queue behind the worker pool: a FIFO of messages, and
//! the worker's one decision per message.
//!
//! A mutex and a condition variable guard this queue where workers
//! block on it; that rendezvous and the worker threads live outside
//! the library, which holds the queue's logic itself: what `push` and
//! `pop` do to the FIFO, and what a worker does with each message.

use vstd::prelude::*;
use std::collections::VecDeque;

verus! {

/// A first-in-first-out queue of requests waiting for a worker.
pub struct SynchronisedQueue<T> {
    data: VecDeque<T>,
}

impl<T> SynchronisedQueue<T> {
    /// The queued items, front first.
    pub closed spec fn view(&self) -> Seq<T> {
        self.data@
    }

    /// An empty queue.
    pub fn new() -> (r: Self)
        ensures
            r@ == Seq::<T>::empty(),
    {
        SynchronisedQueue { data: VecDeque::new() }
    }

    /// An empty queue with room reserved for `size` items.
    pub fn with_capacity(size: usize) -> (r: Self)
        ensures
            r@ == Seq::<T>::empty(),
    {
        SynchronisedQueue { data: VecDeque::with_capacity(size) }
    }

    /// Appends an item at the back.
    pub fn push(&mut self, x: T)
        ensures
            final(self)@ == old(self)@.push(x),
    {
        self.data.push_back(x);
    }

    /// Takes the front item, or nothing from an empty queue. A pool
    /// that wants to block on an empty queue waits around this call;
    /// the wait is the pool's, not the queue's.
    pub fn pop(&mut self) -> (r: Option<T>)
        ensures
            old(self)@.len() == 0 ==> r is None && final(self)@ == old(self)@,
            old(self)@.len() > 0 ==> r == Some(old(self)@[0]) && final(self)@ == old(
                self,
            )@.drop_first(),
    {
        self.data.pop_front()
    }

    /// How many items wait.
    pub fn len(&self) -> (r: usize)
        ensures
            r == self@.len(),
    {
        self.data.len()
    }

    /// True iff nothing waits.
    pub fn is_empty(&self) -> (r: bool)
        ensures
            r == (self@.len() == 0),
    {
        self.data.len() == 0
    }
}

/// Worker-pool drains FIFO: pushed onto an empty queue, the requests
/// `xs` stand in the queue exactly in push order, and a worker that has
/// already taken `i` of them takes `xs[i]` next — so a single worker
/// drains them in push order.
pub proof fn lemma_fifo_drain<T>(xs: Seq<T>, i: int)
    requires
        0 <= i < xs.len(),
    ensures
        Seq::<T>::empty() + xs == xs,
        xs.subrange(i, xs.len() as int)[0] == xs[i],
        xs.subrange(i, xs.len() as int).drop_first() == xs.subrange(i + 1, xs.len() as int),
{
    assert(Seq::<T>::empty() + xs =~= xs);
    assert(xs.subrange(i, xs.len() as int).drop_first() =~= xs.subrange(i + 1, xs.len() as int));
}

/// A unit of work for the pool, or the signal for one worker to stop.
pub enum ThreadPoolMessage<T> {
    Work(T),
    Die,
}

/// The worker loop's one decision: hand work on for dispatch, or stop
/// on the stop signal.
pub fn on_message<T>(msg: ThreadPoolMessage<T>) -> (r: Option<T>)
    ensures
        msg matches ThreadPoolMessage::Work(t) ==> r == Some(t),
        msg is Die ==> r is None,
{
    match msg {
        ThreadPoolMessage::Work(t) => Some(t),
        ThreadPoolMessage::Die => None,
    }
}

/// Pool shutdown: the signal set for `n` workers is `n` stop messages,
/// one per worker. Delivering each to one worker — the joining itself
/// is the pool's thread work, outside the library — stops them all,
/// as `on_message` answers every one of them with the stop decision.
pub fn shutdown_signals<T>(n: usize) -> (r: Vec<ThreadPoolMessage<T>>)
    ensures
        r@.len() == n,
        forall|i: int| 0 <= i < n ==> (#[trigger] r@[i]) is Die,
{
    let mut out: Vec<ThreadPoolMessage<T>> = Vec::new();
    for k in 0..n
        invariant
            out@.len() == k,
            forall|i: int| 0 <= i < k ==> (#[trigger] out@[i]) is Die,
    {
        out.push(ThreadPoolMessage::Die);
    }
    out
}

/// How the worker pool is sized and bounded: the worker count and the
/// per-connection timeout in seconds.
pub struct RequestQueueOptions {
    pub n_threads: usize,
    pub timeout_secs: u64,
}

impl RequestQueueOptions {
    /// The pool size for a machine of the given parallelism: half of
    /// it, rounded up, and 4 where the parallelism is indeterminable.
    /// The probe itself is the caller's, outside the library.
    pub fn for_parallelism(par: Option<usize>) -> (r: RequestQueueOptions)
        ensures
            par matches Some(n) ==> r.n_threads == ((n + 1) / 2) as usize,
            par is None ==> r.n_threads == 4,
            r.timeout_secs == 10,
    {
        let n_threads: usize = match par {
            Some(n) => {
                proof {
                    assert(n / 2 + n % 2 == (n + 1) / 2);
                }
                n / 2 + n % 2
            },
            None => 4,
        };
        RequestQueueOptions { n_threads, timeout_secs: 10 }
    }
}

impl Default for RequestQueueOptions {
    /// The fallback sizing: 4 workers, a 10 second timeout.
    fn default() -> (r: Self)
        ensures
            r.n_threads == 4,
            r.timeout_secs == 10,
    {
        RequestQueueOptions { n_threads: 4, timeout_secs: 10 }
    }
}

} // verus!
