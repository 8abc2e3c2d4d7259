use vstd::prelude::*;

use crate::flags::{all_clear, count_set, lemma_count_full, lemma_count_le_len, lemma_count_set_one};
use crate::job_count::JobCount;

verus! {

/// What one broadcast round has done so far, worker by worker.
pub struct RoundView {
    /// How many workers the round fans out to.
    pub workers: nat,
    /// `sent[w]`: worker `w` has been handed its task.
    pub sent: Seq<bool>,
    /// `done[w]`: worker `w` has finished its invocation of the callback.
    pub done: Seq<bool>,
    /// Units of work handed out and not finished yet.
    pub in_flight: nat,
}

impl RoundView {
    /// A round over `workers` workers before anything is handed out.
    pub open spec fn fresh(workers: nat) -> RoundView {
        RoundView {
            workers,
            sent: Seq::new(workers, |_w: int| false),
            done: Seq::new(workers, |_w: int| false),
            in_flight: 0,
        }
    }

    /// Every worker has been handed its task.
    pub open spec fn all_sent(self) -> bool {
        forall|w: int| 0 <= w < self.workers ==> #[trigger] self.sent[w]
    }

    /// Every worker has finished its invocation.
    pub open spec fn all_done(self) -> bool {
        forall|w: int| 0 <= w < self.workers ==> #[trigger] self.done[w]
    }

    /// How many invocations of the callback have finished.
    pub open spec fn invocations(self) -> nat {
        count_set(self.done)
    }

    /// The round's bookkeeping agrees with itself: a worker finishes only
    /// after it was handed its task, and the counter holds exactly the tasks
    /// handed out and not finished.
    pub open spec fn wf(self) -> bool {
        &&& self.sent.len() == self.workers
        &&& self.done.len() == self.workers
        &&& forall|w: int| 0 <= w < self.workers && #[trigger] self.done[w] ==> self.sent[w]
        &&& count_set(self.done) <= count_set(self.sent)
        &&& self.in_flight == count_set(self.sent) - count_set(self.done)
    }
}

/// One broadcast: one task per worker, each holding one unit of the round's
/// in-flight counter, which the worker releases after its invocation.
///
/// The broadcasting thread must not return before `is_joined` holds: from
/// then on no worker still runs the callback, so whatever it borrowed from
/// the broadcasting thread's frame may be dropped.
pub struct Round {
    workers: usize,
    sent: Vec<bool>,
    done: Vec<bool>,
    pending: JobCount,
}

impl View for Round {
    type V = RoundView;

    closed spec fn view(&self) -> RoundView {
        RoundView { workers: self.workers as nat, sent: self.sent@, done: self.done@, in_flight: self.pending@ }
    }
}

impl Round {
    /// The internal invariant of a round.
    pub closed spec fn wf(&self) -> bool {
        self@.wf()
    }

    /// A round over `workers` workers with nothing handed out yet.
    pub fn begin(workers: usize) -> (r: Round)
        ensures
            r.wf(),
            r@ == RoundView::fresh(workers as nat),
    {
        Round { workers, sent: all_clear(workers), done: all_clear(workers), pending: JobCount::new() }
    }

    /// How many workers the round fans out to.
    pub fn workers(&self) -> (r: usize)
        ensures
            r == self@.workers,
    {
        self.workers
    }

    /// Whether worker `w` may be handed its task: it is one of the round's
    /// workers and has not been handed one yet.
    pub fn can_send(&self, w: usize) -> (r: bool)
        requires
            self.wf(),
        ensures
            r == (w < self@.workers && !self@.sent[w as int]),
    {
        w < self.workers && !self.sent[w]
    }

    /// Whether worker `w` may report its invocation finished: it was handed
    /// its task and has not reported yet.
    pub fn can_finish(&self, w: usize) -> (r: bool)
        requires
            self.wf(),
        ensures
            r == (w < self@.workers && self@.sent[w as int] && !self@.done[w as int]),
    {
        w < self.workers && self.sent[w] && !self.done[w]
    }

    /// Takes one unit of in-flight work for worker `w`, whose task may be
    /// made visible to it only after this call.
    pub fn send(&mut self, w: usize)
        requires
            old(self).wf(),
            w < old(self)@.workers,
            !old(self)@.sent[w as int],
        ensures
            final(self).wf(),
            final(self)@ == (RoundView {
                sent: old(self)@.sent.update(w as int, true),
                in_flight: old(self)@.in_flight + 1,
                ..old(self)@
            }),
    {
        proof {
            lemma_count_set_one(self.sent@, w as int);
            lemma_count_le_len(self.sent@.update(w as int, true));
            assert(self.pending@ < self.sent@.len());
        }
        self.sent.set(w, true);
        self.pending.inc();
    }

    /// Worker `w` has returned from its invocation of the callback. Returns
    /// whether the round has just become joined, which is when the
    /// broadcasting thread must be woken.
    pub fn finish(&mut self, w: usize) -> (wake: bool)
        requires
            old(self).wf(),
            w < old(self)@.workers,
            old(self)@.sent[w as int],
            !old(self)@.done[w as int],
        ensures
            final(self).wf(),
            final(self)@ == (RoundView {
                done: old(self)@.done.update(w as int, true),
                in_flight: (old(self)@.in_flight - 1) as nat,
                ..old(self)@
            }),
            wake == (final(self)@.in_flight == 0),
    {
        proof {
            lemma_count_set_one(self.done@, w as int);
            let d = self.done@.update(w as int, true);
            if count_set(d) > count_set(self.sent@) {
                assert(count_set(self.done@) == count_set(self.sent@));
                lemma_done_covers_sent(self@);
            }
        }
        self.done.set(w, true);
        self.pending.dec()
    }

    /// Whether no invocation of this round is in flight any more.
    pub fn is_joined(&self) -> (r: bool)
        requires
            self.wf(),
        ensures
            r == (self@.in_flight == 0),
    {
        self.pending.is_zero()
    }

    /// Whether the broadcast may return to its caller: every worker has been
    /// handed its task and none is still running the callback.
    pub fn is_complete(&self) -> (r: bool)
        requires
            self.wf(),
        ensures
            r == (self@.all_sent() && self@.in_flight == 0),
    {
        let mut w: usize = 0;
        while w < self.workers
            invariant
                self.wf(),
                w <= self.workers,
                forall|i: int| 0 <= i < w ==> #[trigger] self.sent@[i],
            decreases self.workers - w,
        {
            if !self.sent[w] {
                return false;
            }
            w = w + 1;
        }
        self.pending.is_zero()
    }

    /// How many invocations of the callback have finished in this round.
    pub fn finished(&self) -> (r: usize)
        requires
            self.wf(),
        ensures
            r == self@.invocations(),
    {
        let mut n: usize = 0;
        let mut w: usize = 0;
        while w < self.workers
            invariant
                self.wf(),
                w <= self.workers,
                n == count_set(self.done@.take(w as int)),
                n <= w,
            decreases self.workers - w,
        {
            proof {
                assert(self.done@.take(w + 1).drop_last() =~= self.done@.take(w as int));
            }
            if self.done[w] {
                n = n + 1;
            }
            w = w + 1;
        }
        assert(self.done@.take(w as int) =~= self.done@);
        n
    }
}

/// The join barrier. Once every worker has been handed its task, the round
/// is joined (nothing in flight) exactly when every worker has finished its
/// invocation; each worker has then run the callback exactly once, so the
/// callback has run as many times as there are workers. Until then fewer
/// invocations than workers have finished.
pub proof fn lemma_join_barrier(v: RoundView)
    requires
        v.wf(),
        v.all_sent(),
    ensures
        v.in_flight == 0 <==> v.all_done(),
        v.in_flight == 0 <==> v.invocations() == v.workers,
        v.invocations() + v.in_flight == v.workers,
{
    lemma_count_full(v.sent);
    lemma_count_full(v.done);
}

/// Where as many workers have finished as were handed a task, every worker
/// that was handed one has finished.
proof fn lemma_done_covers_sent(v: RoundView)
    requires
        v.sent.len() == v.workers,
        v.done.len() == v.workers,
        forall|w: int| 0 <= w < v.workers && #[trigger] v.done[w] ==> v.sent[w],
        count_set(v.done) == count_set(v.sent),
    ensures
        forall|w: int| 0 <= w < v.workers && #[trigger] v.sent[w] ==> v.done[w],
{
    assert forall|w: int| 0 <= w < v.workers && #[trigger] v.sent[w] implies v.done[w] by {
        if !v.done[w] {
            lemma_count_set_one(v.done, w);
            lemma_count_monotone(v.done.update(w, true), v.sent);
        }
    }
}

/// A sequence set wherever it is compared with one at least as set has no
/// larger count.
proof fn lemma_count_monotone(a: Seq<bool>, b: Seq<bool>)
    requires
        a.len() == b.len(),
        forall|i: int| 0 <= i < a.len() && #[trigger] a[i] ==> b[i],
    ensures
        count_set(a) <= count_set(b),
    decreases a.len(),
{
    if a.len() > 0 {
        lemma_count_monotone(a.drop_last(), b.drop_last());
    }
}

} // verus!
