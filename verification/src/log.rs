//! The bounded operation log that a throttle keeps for its interval function.
//!
//! Times are counted in nanoseconds from a time origin that the owner of the
//! log chooses (for a throttle: the moment it was created).
use vstd::prelude::*;
use std::collections::VecDeque;

verus! {

/// One finished operation: when it finished and whether it succeeded.
#[derive(Debug, Copy, Clone, Hash, PartialEq, Eq, Structural, PartialOrd, Ord)]
pub struct LogRecord {
    /// When the operation finished, in nanoseconds since the time origin.
    pub time: u128,
    /// Whether the operation succeeded.
    pub successful: bool,
}

/// The number of failed records in `s`.
pub open spec fn failures(s: Seq<LogRecord>) -> nat
    decreases s.len(),
{
    if s.len() == 0 {
        0
    } else {
        failures(s.drop_last()) + if s.last().successful { 0nat } else { 1nat }
    }
}

/// The number of failed records at the front of `s`, before the first success.
pub open spec fn leading_failures(s: Seq<LogRecord>) -> nat
    decreases s.len(),
{
    if s.len() == 0 || s[0].successful {
        0
    } else {
        1 + leading_failures(s.drop_first())
    }
}

/// The records of a log of capacity `size` after `rec` was pushed onto `s`:
/// nothing changes when the capacity is zero; otherwise `rec` becomes the
/// newest record and, when the log was full, the oldest one leaves.
pub open spec fn pushed(s: Seq<LogRecord>, size: nat, rec: LogRecord) -> Seq<LogRecord> {
    if size == 0 {
        s
    } else if s.len() < size {
        seq![rec] + s
    } else {
        seq![rec] + s.drop_last()
    }
}

/// `a - b`, or zero when `b` is later than `a`.
pub open spec fn elapsed(a: u128, b: u128) -> u128 {
    if a >= b {
        (a - b) as u128
    } else {
        0
    }
}

/// Operation log of a throttle.
///
/// Records are kept newest first. The log never holds more than `size`
/// records: when it is full, pushing a record drops the oldest one.
#[derive(Debug, Hash, PartialEq, Eq)]
pub struct ThrottleLog {
    size: usize,
    inner: VecDeque<LogRecord>,
}

impl View for ThrottleLog {
    type V = Seq<LogRecord>;

    /// The records, newest first.
    closed spec fn view(&self) -> Seq<LogRecord> {
        self.inner@
    }
}

impl ThrottleLog {
    /// The maximum number of records.
    pub closed spec fn log_size(self) -> usize {
        self.size
    }

    /// A log never holds more records than its size.
    #[verifier::type_invariant]
    pub open spec fn within_size(self) -> bool {
        self@.len() <= self.log_size()
    }

    /// Create an empty log that holds at most `size` records.
    pub fn new(size: usize) -> (log: Self)
        ensures
            log.log_size() == size,
            log@ == Seq::<LogRecord>::empty(),
    {
        ThrottleLog { size, inner: VecDeque::with_capacity(size) }
    }

    /// An empty log of the given size that allocates nothing.
    pub(crate) fn placeholder(size: usize) -> (log: Self)
        ensures
            log.log_size() == size,
            log@ == Seq::<LogRecord>::empty(),
    {
        ThrottleLog { size, inner: VecDeque::new() }
    }

    /// Record a finished operation as the newest entry.
    pub fn push(&mut self, log_record: LogRecord)
        ensures
            final(self).log_size() == old(self).log_size(),
            final(self)@ == pushed(old(self)@, old(self).log_size() as nat, log_record),
    {
        proof {
            use_type_invariant(&*self);
        }
        // a log of size zero keeps nothing
        if self.size == 0 {
            return;
        }
        let mut inner: VecDeque<LogRecord> = VecDeque::new();
        std::mem::swap(&mut inner, &mut self.inner);
        // when full, the oldest record leaves before the new one comes in
        if self.size == inner.len() {
            inner.pop_back();
        }
        inner.push_front(log_record);
        proof {
            assert(inner@ =~= pushed(old(self)@, old(self).log_size() as nat, log_record));
        }
        self.inner = inner;
    }

    /// Get maximum log size.
    ///
    /// This value would never change.
    pub fn size(&self) -> (size: usize)
        ensures
            size == self.log_size(),
            self@.len() <= size,
    {
        proof {
            use_type_invariant(self);
        }
        self.size
    }

    /// Get how many failures exists in log.
    pub fn failure_count(&self) -> (count: usize)
        ensures
            count == failures(self@),
    {
        let n = self.inner.len();
        let mut count: usize = 0;
        let mut i: usize = 0;
        while i < n
            invariant
                n == self@.len(),
                i <= n,
                count == failures(self@.take(i as int)),
                count <= i,
            decreases n - i,
        {
            proof {
                assert(self@.take(i + 1).drop_last() =~= self@.take(i as int));
            }
            if !self.inner[i].successful {
                count = count + 1;
            }
            i = i + 1;
        }
        proof {
            assert(self@.take(n as int) =~= self@);
        }
        count
    }

    /// Get how many failures from newest log entry continuously.
    pub fn failure_count_cont(&self) -> (count: usize)
        ensures
            count == leading_failures(self@),
    {
        let n = self.inner.len();
        let mut i: usize = 0;
        while i < n && !self.inner[i].successful
            invariant
                n == self@.len(),
                i <= n,
                forall|j: int| 0 <= j < i ==> !(#[trigger] self@[j]).successful,
            decreases n - i,
        {
            i = i + 1;
        }
        proof {
            lemma_leading_failures(self@, i as nat);
        }
        i
    }

    /// Get failure rate in whole log, as the exact fraction
    /// `(failures, size)`: the number of failures over the log's size.
    ///
    /// Return `None` if `size == 0`.
    pub fn failure_rate(&self) -> (rate: Option<(usize, usize)>)
        ensures
            rate == (if self.log_size() == 0 {
                None
            } else {
                Some((failures(self@) as usize, self.log_size()))
            }),
    {
        if self.size == 0 {
            None
        } else {
            let failed_count = self.failure_count();
            Some((failed_count, self.size))
        }
    }

    /// Get duration between first and last log record, in nanoseconds
    /// (zero when the newest record is not later than the oldest).
    ///
    /// Return `None` if don't have at least 2 log records.
    pub fn duration(&self) -> (d: Option<u128>)
        ensures
            d == (if self@.len() <= 1 {
                None
            } else {
                Some(elapsed(self@[0].time, self@.last().time))
            }),
    {
        let n = self.inner.len();
        if n <= 1 {
            None
        } else {
            let newest = self.inner[0].time;
            let oldest = self.inner[n - 1].time;
            if newest >= oldest {
                Some(newest - oldest)
            } else {
                Some(0)
            }
        }
    }
}

impl Clone for ThrottleLog {
    fn clone(&self) -> (copy: Self)
        ensures
            copy.log_size() == self.log_size(),
            copy@ == self@,
    {
        proof {
            use_type_invariant(self);
        }
        let inner = self.inner.clone();
        proof {
            assert(inner@ =~= self.inner@);
        }
        ThrottleLog { size: self.size, inner }
    }
}

/// `leading_failures` is the length of the run of failures at the front.
pub proof fn lemma_leading_failures(s: Seq<LogRecord>, n: nat)
    requires
        n <= s.len(),
        forall|j: int| 0 <= j < n ==> !(#[trigger] s[j]).successful,
        n < s.len() ==> s[n as int].successful,
    ensures
        leading_failures(s) == n,
    decreases n,
{
    if n > 0 {
        let t = s.drop_first();
        assert forall|j: int| 0 <= j < n - 1 implies !(#[trigger] t[j]).successful by {
            assert(t[j] == s[j + 1]);
        }
        if n - 1 < t.len() {
            assert(t[n - 1] == s[n as int]);
        }
        lemma_leading_failures(t, (n - 1) as nat);
    }
}

/// Counting failures from the front: the first record, then the rest.
pub proof fn lemma_failures_front(s: Seq<LogRecord>)
    requires
        s.len() > 0,
    ensures
        failures(s) == failures(s.drop_first()) + if s[0].successful { 0nat } else { 1nat },
    decreases s.len(),
{
    if s.len() > 1 {
        lemma_failures_front(s.drop_last());
        assert(s.drop_last().drop_first() =~= s.drop_first().drop_last());
    } else {
        assert(s.drop_last() =~= s.drop_first());
    }
}

/// The failures since the last success are among all the failures, which
/// are among the records: `failure_count_cont() <= failure_count() <= len`.
pub proof fn law_failure_counts_ordered(s: Seq<LogRecord>)
    ensures
        leading_failures(s) <= failures(s),
        failures(s) <= s.len(),
    decreases s.len(),
{
    if s.len() > 0 {
        lemma_failures_front(s);
        law_failure_counts_ordered(s.drop_first());
    }
}

/// The failure rate of a log is at most one: its failures never outnumber
/// its size.
pub proof fn law_failure_rate_at_most_one(log: ThrottleLog)
    requires
        log.within_size(),
    ensures
        failures(log@) <= log.log_size(),
{
    law_failure_counts_ordered(log@);
}

/// Pushing onto a log of positive size: the new record is the newest, the
/// older records keep their order, the oldest leaves when the log was full,
/// and both failure counts follow the new record.
pub proof fn law_push(s: Seq<LogRecord>, size: nat, rec: LogRecord)
    requires
        s.len() <= size,
        size > 0,
    ensures
        ({
            let t = pushed(s, size, rec);
            &&& t.len() == if s.len() < size { s.len() + 1 } else { size }
            &&& t[0] == rec
            &&& t.drop_first() == s.take(t.len() - 1)
            &&& failures(t) == failures(t.drop_first()) + if rec.successful { 0nat } else { 1nat }
            &&& leading_failures(t) == if rec.successful {
                0
            } else {
                1 + leading_failures(t.drop_first())
            }
        }),
{
    let t = pushed(s, size, rec);
    assert(t.drop_first() =~= s.take(t.len() - 1));
    lemma_failures_front(t);
}

/// The records of a log of capacity `size` that held `s`, after each of
/// `recs` was pushed in turn.
pub open spec fn pushed_all(s: Seq<LogRecord>, size: nat, recs: Seq<LogRecord>) -> Seq<LogRecord>
    decreases recs.len(),
{
    if recs.len() == 0 {
        s
    } else {
        pushed(pushed_all(s, size, recs.drop_last()), size, recs.last())
    }
}

/// After `p` pushes, a log of size `n` that held `k` records holds
/// `min(n, k + p)`: from empty, `min(n, p)`, never more than `n`.
pub proof fn law_push_count(s: Seq<LogRecord>, size: nat, recs: Seq<LogRecord>)
    requires
        s.len() <= size,
    ensures
        pushed_all(s, size, recs).len() == if s.len() + recs.len() <= size {
            s.len() + recs.len()
        } else {
            size
        },
    decreases recs.len(),
{
    if recs.len() > 0 {
        law_push_count(s, size, recs.drop_last());
    }
}

/// A log of size zero keeps nothing: pushing onto it changes nothing.
pub proof fn law_push_size_zero(s: Seq<LogRecord>, rec: LogRecord)
    ensures
        pushed(s, 0, rec) == s,
{
}

/// The failures counted in a log are exactly its failed records, wherever
/// they stand: `failure_count()` is the number of records that did not
/// succeed.
pub proof fn law_failures_are_failed_records(s: Seq<LogRecord>)
    ensures
        failures(s) == s.filter(|r: LogRecord| !r.successful).len(),
    decreases s.len(),
{
    reveal(Seq::filter);
    if s.len() > 0 {
        law_failures_are_failed_records(s.drop_last());
    }
}

/// The failures since the newest success are the records before the first
/// success, newest first: every one of the first `failure_count_cont()`
/// records failed, and the record after them, if any, succeeded.
pub proof fn law_leading_failures_run(s: Seq<LogRecord>)
    ensures
        leading_failures(s) <= s.len(),
        forall|j: int| 0 <= j < leading_failures(s) ==> !(#[trigger] s[j]).successful,
        leading_failures(s) < s.len() ==> s[leading_failures(s) as int].successful,
    decreases s.len(),
{
    if s.len() > 0 && !s[0].successful {
        let t = s.drop_first();
        law_leading_failures_run(t);
        assert forall|j: int| 0 <= j < leading_failures(s) implies !(#[trigger] s[j]).successful by {
            if j > 0 {
                assert(s[j] == t[j - 1]);
            }
        }
        if leading_failures(s) < s.len() {
            assert(s[leading_failures(s) as int] == t[leading_failures(t) as int]);
        }
    }
}

/// The time between two records: the exact difference when the newest is
/// not earlier than the oldest, and zero otherwise, as for `Instant`s.
pub proof fn law_elapsed(newest: u128, oldest: u128)
    ensures
        newest >= oldest ==> elapsed(newest, oldest) + oldest == newest,
        newest < oldest ==> elapsed(newest, oldest) == 0,
{
}

} // verus!
