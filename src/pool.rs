use vstd::prelude::*;

use crate::round::{Round, RoundView};

verus! {

/// The state of a pool as its owner sees it.
pub struct PoolView {
    /// Broadcasts run on the caller's own thread; there are no workers.
    pub inline: bool,
    /// How many persistent workers the pool has.
    pub workers: nat,
    /// The task channels have been closed: the pool is being torn down.
    pub closed: bool,
    /// How many workers have been joined since the channels were closed.
    pub joined: nat,
}

impl PoolView {
    /// An inline pool has no workers and a threaded one at least one; workers
    /// are joined only once the channels are closed, and each at most once.
    pub open spec fn wf(self) -> bool {
        &&& self.inline ==> self.workers == 0
        &&& !self.inline ==> self.workers > 0
        &&& self.joined <= self.workers
        &&& self.joined > 0 ==> self.closed
    }

    /// How many times one broadcast runs the callback.
    pub open spec fn invocations_per_broadcast(self) -> nat {
        if self.inline {
            1
        } else {
            self.workers
        }
    }

    /// The channels are closed and every worker has been joined.
    pub open spec fn torn_down(self) -> bool {
        self.closed && self.joined == self.workers
    }
}

/// The bookkeeping of a broadcast pool: its mode, its worker count, and how
/// far its teardown has gone. Every broadcast starts a fresh `Round`.
pub struct Pool {
    current_thread: bool,
    workers: usize,
    closed: bool,
    joined: usize,
}

impl View for Pool {
    type V = PoolView;

    closed spec fn view(&self) -> PoolView {
        PoolView {
            inline: self.current_thread,
            workers: self.workers as nat,
            closed: self.closed,
            joined: self.joined as nat,
        }
    }
}

impl Pool {
    /// A pool of `workers` persistent workers, none joined.
    pub fn new(workers: usize) -> (r: Pool)
        requires
            workers > 0,
        ensures
            r@.wf(),
            r@ == (PoolView { inline: false, workers: workers as nat, closed: false, joined: 0 }),
    {
        Pool { current_thread: false, workers, closed: false, joined: 0 }
    }

    /// A pool that runs every broadcast once on the caller's thread.
    pub fn new_current_thread() -> (r: Pool)
        ensures
            r@.wf(),
            r@ == (PoolView { inline: true, workers: 0, closed: false, joined: 0 }),
    {
        Pool { current_thread: true, workers: 0, closed: false, joined: 0 }
    }

    /// Whether broadcasts run on the caller's own thread.
    pub fn is_current_thread(&self) -> (r: bool)
        ensures
            r == self@.inline,
    {
        self.current_thread
    }

    /// Whether the task channels have been closed.
    pub fn is_closed(&self) -> (r: bool)
        ensures
            r == self@.closed,
    {
        self.closed
    }

    /// How many persistent workers the pool has.
    pub fn workers(&self) -> (r: usize)
        ensures
            r == self@.workers,
    {
        self.workers
    }

    /// How many times one broadcast runs the callback: once on an inline
    /// pool, once per worker otherwise.
    pub fn invocations_per_broadcast(&self) -> (r: usize)
        requires
            self@.wf(),
        ensures
            r == self@.invocations_per_broadcast(),
    {
        if self.current_thread {
            1
        } else {
            self.workers
        }
    }

    /// Starts a broadcast on the workers. Nothing of an earlier broadcast
    /// carries over: the round depends on the worker count alone, and the
    /// pool itself is left as it was.
    pub fn start_round(&self) -> (r: Round)
        requires
            self@.wf(),
            !self@.inline,
            !self@.closed,
        ensures
            r.wf(),
            r@ == RoundView::fresh(self@.workers),
    {
        Round::begin(self.workers)
    }

    /// Closes the task channels, which lets each worker end its loop once it
    /// has drained what was already queued. This comes before any join.
    pub fn close(&mut self)
        requires
            old(self)@.wf(),
        ensures
            final(self)@.wf(),
            final(self)@ == (PoolView { closed: true, ..old(self)@ }),
    {
        self.closed = true;
    }

    /// Whether the next worker may be joined: the channels are closed and
    /// some worker has not been joined yet. Returns that worker's index.
    pub fn next_to_join(&self) -> (r: Option<usize>)
        requires
            self@.wf(),
        ensures
            r == (if self@.closed && self@.joined < self@.workers {
                Some(self@.joined as usize)
            } else {
                None
            }),
    {
        if self.closed && self.joined < self.workers {
            Some(self.joined)
        } else {
            None
        }
    }

    /// Records that the next worker has exited and been joined.
    pub fn joined_one(&mut self)
        requires
            old(self)@.wf(),
            old(self)@.closed,
            old(self)@.joined < old(self)@.workers,
        ensures
            final(self)@.wf(),
            final(self)@ == (PoolView { joined: old(self)@.joined + 1, ..old(self)@ }),
    {
        self.joined = self.joined + 1;
    }

    /// Whether teardown is over: channels closed, every worker joined.
    pub fn is_torn_down(&self) -> (r: bool)
        requires
            self@.wf(),
        ensures
            r == self@.torn_down(),
    {
        self.closed && self.joined == self.workers
    }
}

/// Teardown joins every worker, and only after the channels were closed: a
/// pool with any worker joined has its channels closed, and a torn-down pool
/// has joined exactly as many workers as it had.
pub proof fn lemma_teardown_order(v: PoolView)
    requires
        v.wf(),
    ensures
        v.joined > 0 ==> v.closed,
        v.torn_down() ==> v.joined == v.workers && v.closed,
        !v.torn_down() && v.closed ==> v.joined < v.workers,
{
}

/// The state that `k` invocations of a callback with effect `f` leave,
/// starting from `s`.
pub open spec fn apply_times<S>(f: spec_fn(S) -> S, s: S, k: nat) -> S
    decreases k,
{
    if k == 0 {
        s
    } else {
        f(apply_times(f, s, (k - 1) as nat))
    }
}

/// A callback whose effect does not change when repeated leaves the same
/// final state whether a pool runs it once (inline) or once per worker.
pub proof fn lemma_inline_matches_workers<S>(f: spec_fn(S) -> S, s: S, inline: PoolView, threaded: PoolView)
    requires
        forall|x: S| #[trigger] f(f(x)) == f(x),
        inline.wf(),
        inline.inline,
        threaded.wf(),
        !threaded.inline,
    ensures
        apply_times(f, s, inline.invocations_per_broadcast()) == apply_times(
            f,
            s,
            threaded.invocations_per_broadcast(),
        ),
{
    lemma_repeat_once(f, s, threaded.workers);
    lemma_repeat_once(f, s, 1);
}

/// Repeating an effect that does not change when repeated is the effect once.
proof fn lemma_repeat_once<S>(f: spec_fn(S) -> S, s: S, k: nat)
    requires
        forall|x: S| #[trigger] f(f(x)) == f(x),
        k > 0,
    ensures
        apply_times(f, s, k) == f(s),
    decreases k,
{
    if k > 1 {
        lemma_repeat_once(f, s, (k - 1) as nat);
        assert(f(f(s)) == f(s));
    }
    assert(apply_times(f, s, 0) == s);
}

} // verus!
