//! The dispatcher's bookkeeping for one job: which files have been handed to
//! workers, which results have come back, and whether the consumer is gone.
//! Workers and the result channel live outside; they report events here and
//! act on what comes back.
use vstd::prelude::*;

verus! {

/// Number of `true` entries in `s`.
pub open spec fn count_true(s: Seq<bool>) -> nat
    decreases s.len(),
{
    if s.len() == 0 {
        0
    } else {
        count_true(s.drop_last()) + if s.last() {
            1nat
        } else {
            0nat
        }
    }
}

/// What to do with a result that a worker has finished.
#[derive(Clone, Copy, Debug, PartialEq, Eq)]
pub enum Delivery {
    /// Send it to the consumer.
    Emit,
    /// The consumer is gone: drop it.
    Discard,
    /// The file was never handed out, or its result already came back.
    Rejected,
}

/// State of one job over `total` files, numbered `0 .. total`. Files are
/// handed out in order; `next` is the first one not yet handed out.
pub struct JobState {
    total: usize,
    next: usize,
    done: Vec<bool>,
    delivered: usize,
    cancelled: bool,
    workers: usize,
}

impl JobState {
    pub closed spec fn total_spec(&self) -> nat {
        self.total as nat
    }

    /// Files `0 .. dispatched()` have been handed to workers.
    pub closed spec fn dispatched(&self) -> nat {
        self.next as nat
    }

    /// Which files have had their result come back.
    pub closed spec fn done_view(&self) -> Seq<bool> {
        self.done@
    }

    pub closed spec fn delivered_spec(&self) -> nat {
        self.delivered as nat
    }

    pub closed spec fn cancelled_spec(&self) -> bool {
        self.cancelled
    }

    /// At most this many files are out with workers at once.
    pub closed spec fn workers_spec(&self) -> nat {
        self.workers as nat
    }

    /// No file can be handed out now.
    pub open spec fn stalled(&self) -> bool {
        ||| self.cancelled_spec()
        ||| self.dispatched() == self.total_spec()
        ||| self.dispatched() == self.delivered_spec() + self.workers_spec()
    }

    /// Only handed-out files have results; `delivered` counts them.
    pub closed spec fn wf(&self) -> bool {
        &&& self.next <= self.total
        &&& self.done@.len() == self.total
        &&& forall|i: int| 0 <= i < self.total && #[trigger] self.done@[i] ==> i < self.next
        &&& self.delivered == count_true(self.done@)
        &&& self.next <= self.delivered + self.workers
    }

    /// A job over `total` files, none handed out, with at most `workers`
    /// files out at once.
    pub fn new(total: usize, workers: usize) -> (s: JobState)
        requires
            workers >= 1,
        ensures
            s.workers_spec() == workers,
            s.wf(),
            s.total_spec() == total,
            s.dispatched() == 0,
            s.delivered_spec() == 0,
            !s.cancelled_spec(),
            s.done_view() == Seq::new(total as nat, |i: int| false),
    {
        let mut done: Vec<bool> = Vec::new();
        let mut i: usize = 0;
        while i < total
            invariant
                i <= total,
                done@ == Seq::new(i as nat, |j: int| false),
            decreases total - i,
        {
            done.push(false);
            i = i + 1;
            assert(done@ =~= Seq::new(i as nat, |j: int| false));
        }
        proof {
            lemma_count_none(done@);
        }
        JobState { total, next: 0, done, delivered: 0, cancelled: false, workers }
    }

    pub fn total(&self) -> (r: usize)
        ensures
            r == self.total_spec(),
    {
        self.total
    }

    pub fn delivered(&self) -> (r: usize)
        ensures
            r == self.delivered_spec(),
    {
        self.delivered
    }

    pub fn is_cancelled(&self) -> (r: bool)
        ensures
            r == self.cancelled_spec(),
    {
        self.cancelled
    }

    /// Number of files handed out whose result has not come back.
    pub fn in_flight(&self) -> (r: usize)
        requires
            self.wf(),
        ensures
            r == self.dispatched() - self.delivered_spec(),
    {
        proof {
            lemma_count_bound(self.done@, self.next as int);
        }
        self.next - self.delivered
    }

    /// A worker asks for work: the next file, unless every file has been
    /// handed out, the consumer is gone, or as many files as there are
    /// workers are already out.
    pub fn take_work(&mut self) -> (r: Option<usize>)
        requires
            old(self).wf(),
        ensures
            final(self).wf(),
            final(self).total_spec() == old(self).total_spec(),
            final(self).done_view() == old(self).done_view(),
            final(self).delivered_spec() == old(self).delivered_spec(),
            final(self).cancelled_spec() == old(self).cancelled_spec(),
            final(self).workers_spec() == old(self).workers_spec(),
            old(self).stalled() ==> r is None && final(self).dispatched() == old(self).dispatched(),
            !old(self).stalled() ==> r == Some(old(self).dispatched() as usize)
                && final(self).dispatched() == old(self).dispatched() + 1,
    {
        proof {
            lemma_count_bound(self.done@, self.next as int);
        }
        if self.cancelled || self.next == self.total || self.next - self.delivered == self.workers {
            None
        } else {
            let f = self.next;
            self.next = self.next + 1;
            Some(f)
        }
    }

    /// A worker has finished `file`. Its result is sent on unless the
    /// consumer is gone; a file never handed out, or one whose result already
    /// came back, is refused and changes nothing.
    pub fn finish(&mut self, file: usize) -> (r: Delivery)
        requires
            old(self).wf(),
        ensures
            final(self).wf(),
            final(self).total_spec() == old(self).total_spec(),
            final(self).dispatched() == old(self).dispatched(),
            final(self).cancelled_spec() == old(self).cancelled_spec(),
            final(self).workers_spec() == old(self).workers_spec(),
            (file >= old(self).dispatched() || old(self).done_view()[file as int]) <==> r
                == Delivery::Rejected,
            r == Delivery::Rejected ==> *final(self) == *old(self),
            r != Delivery::Rejected ==> {
                &&& final(self).done_view() == old(self).done_view().update(file as int, true)
                &&& final(self).delivered_spec() == old(self).delivered_spec() + 1
                &&& (r == Delivery::Emit <==> !old(self).cancelled_spec())
            },
    {
        if file >= self.next || self.done[file] {
            return Delivery::Rejected;
        }
        proof {
            lemma_count_update(self.done@, file as int);
            lemma_count_bound(self.done@, self.next as int);
        }
        let ghost before = self.done@;
        self.done.set(file, true);
        assert(self.done@ == before.update(file as int, true));
        proof {
            lemma_count_bound(self.done@, self.next as int);
        }
        self.delivered = self.delivered + 1;
        if self.cancelled {
            Delivery::Discard
        } else {
            Delivery::Emit
        }
    }

    /// The consumer has let go of the result stream: no further file is
    /// handed out.
    pub fn cancel(&mut self)
        requires
            old(self).wf(),
        ensures
            final(self).wf(),
            final(self).cancelled_spec(),
            final(self).workers_spec() == old(self).workers_spec(),
            final(self).total_spec() == old(self).total_spec(),
            final(self).dispatched() == old(self).dispatched(),
            final(self).done_view() == old(self).done_view(),
            final(self).delivered_spec() == old(self).delivered_spec(),
    {
        self.cancelled = true;
    }

    /// Whether the result stream is over: every file's result has come back,
    /// or the consumer is gone.
    pub fn is_closed(&self) -> (r: bool)
        ensures
            r == (self.delivered_spec() == self.total_spec() || self.cancelled_spec()),
    {
        self.delivered == self.total || self.cancelled
    }
}

proof fn lemma_count_none(s: Seq<bool>)
    requires
        forall|i: int| 0 <= i < s.len() ==> !s[i],
    ensures
        count_true(s) == 0,
    decreases s.len(),
{
    if s.len() > 0 {
        lemma_count_none(s.drop_last());
    }
}

/// Entries at or past `n` are false: at most `n` are true.
proof fn lemma_count_bound(s: Seq<bool>, n: int)
    requires
        0 <= n <= s.len(),
        forall|i: int| 0 <= i < s.len() && #[trigger] s[i] ==> i < n,
    ensures
        count_true(s) <= n,
    decreases s.len(),
{
    if s.len() > 0 {
        if s.len() == n {
            lemma_count_le_len(s);
        } else {
            lemma_count_bound(s.drop_last(), n);
        }
    }
}

proof fn lemma_count_le_len(s: Seq<bool>)
    ensures
        count_true(s) <= s.len(),
        count_true(s) == s.len() <==> forall|i: int| 0 <= i < s.len() ==> s[i],
    decreases s.len(),
{
    if s.len() > 0 {
        lemma_count_le_len(s.drop_last());
        if count_true(s) == s.len() {
            assert forall|i: int| 0 <= i < s.len() implies s[i] by {
                if i < s.len() - 1 {
                    assert(s.drop_last()[i] == s[i]);
                }
            }
        }
        if forall|i: int| 0 <= i < s.len() ==> s[i] {
            assert forall|i: int| 0 <= i < s.drop_last().len() implies s.drop_last()[i] by {
                assert(s.drop_last()[i] == s[i]);
            }
        }
    }
}

proof fn lemma_count_update(s: Seq<bool>, i: int)
    requires
        0 <= i < s.len(),
        !s[i],
    ensures
        count_true(s.update(i, true)) == count_true(s) + 1,
    decreases s.len(),
{
    let t = s.update(i, true);
    if i == s.len() - 1 {
        assert(t.drop_last() =~= s.drop_last());
    } else {
        assert(t.drop_last() =~= s.drop_last().update(i, true));
        lemma_count_update(s.drop_last(), i);
    }
}

/// Once as many results have come back as the job has files, every file
/// has been handed out and has had its result come back; since `finish`
/// refuses a second result for a file, each file has had exactly one.
pub proof fn lemma_finished_job_covers_every_file(s: JobState)
    requires
        s.wf(),
        s.delivered_spec() == s.total_spec(),
    ensures
        s.dispatched() == s.total_spec(),
        forall|i: int| 0 <= i < s.total_spec() ==> s.done_view()[i],
{
    lemma_count_le_len(s.done@);
    lemma_count_bound(s.done@, s.next as int);
}

/// However far a job has run, the files handed out number at most the
/// results that came back plus the workers. Once the consumer is gone no file
/// is handed out (see `take_work`), so the files read over the whole job are
/// at most the results that had come back by then plus the workers.
pub proof fn lemma_files_out_bounded_by_workers(s: JobState)
    requires
        s.wf(),
    ensures
        s.delivered_spec() <= s.dispatched(),
        s.dispatched() <= s.delivered_spec() + s.workers_spec(),
{
    lemma_count_bound(s.done@, s.next as int);
}

/// In every state of a job there is one result flag per file and no more
/// files are handed out than the job has. With `finish`, which refuses a file
/// whose flag is set, each file's result comes back at most once.
pub proof fn lemma_state_shape(s: JobState)
    requires
        s.wf(),
    ensures
        s.done_view().len() == s.total_spec(),
        s.dispatched() <= s.total_spec(),
{
}

} // verus!
