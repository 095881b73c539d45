//! A throttle's schedule, log and configuration, and the decisions it takes
//! for each operation.
//!
//! A throttle lets operations start no closer than `interval / concurrent`
//! to one another. Blocking the caller until its start time and limiting the
//! number of operations that run at once is left to the throttle's owner:
//! [`Throttle::waiting`] says how long to wait, [`Throttle::write_log`]
//! records how an operation ended, and [`RetryableResult::after_round`]
//! decides what a retry loop does next.
use vstd::prelude::*;

use crate::interval::Interval;
use crate::log::{pushed, LogRecord, ThrottleLog};

verus! {

/// When an operation arriving at `now` starts, if operations may start from
/// `allowed` on.
pub open spec fn start_time(allowed: int, now: int) -> int {
    if now > allowed {
        now
    } else {
        allowed
    }
}

/// The point in time from which the next operation may start: an operation
/// starts at `max(now, allowed)`, and moves it `step` further.
pub open spec fn next_allowed(allowed: int, now: int, step: int) -> int {
    start_time(allowed, now) + step
}

/// Where the schedule stands after `k` operations that all arrived at `now`,
/// starting from `allowed`.
pub open spec fn allowed_after_burst(allowed: int, now: int, step: int, k: nat) -> int
    decreases k,
{
    if k == 0 {
        allowed
    } else {
        next_allowed(allowed_after_burst(allowed, now, step, (k - 1) as nat), now, step)
    }
}

/// What letting an operation in at `now` does when the interval function
/// gave `interval`: when the next allowed point in time fits in a `u128`,
/// the schedule moves there and the answer is how long to wait; otherwise the
/// answer is `None` and the schedule stays where it was.
pub open spec fn waiting_outcome(
    allowed: u128,
    now: u128,
    concurrent: u32,
    interval: u128,
    wait: Option<Option<u128>>,
    next: u128,
) -> bool {
    let target = next_allowed(allowed as int, now as int, (interval / (concurrent as u128)) as int);
    if target <= u128::MAX {
        wait == Some(still_to_wait(allowed, now)) && next == target
    } else {
        wait is None && next == allowed
    }
}

/// How long a caller arriving at `now` still has to wait when operations may
/// start from `allowed` on: `None` when that moment has passed.
pub open spec fn still_to_wait(allowed: u128, now: u128) -> Option<u128> {
    if allowed >= now {
        Some((allowed - now) as u128)
    } else {
        None
    }
}

/// Whether `concurrent` is a usable concurrency: positive and a valid
/// semaphore count (an `isize`).
pub open spec fn valid_concurrent(concurrent: u32) -> bool {
    0 < concurrent && concurrent <= isize::MAX
}

/// Use to build a [`Throttle`].
///
/// Created by [`Throttle::builder()`] API.
pub struct ThrottleBuilder {
    interval: Interval,
    concurrent: u32,
}

impl ThrottleBuilder {
    /// The interval configuration the throttle will have.
    pub closed spec fn spec_interval(&self) -> Interval {
        self.interval
    }

    /// The concurrency the throttle will have.
    pub closed spec fn spec_concurrent(&self) -> u32 {
        self.concurrent
    }

    /// No delay, no log, one operation at a time.
    pub(crate) fn new() -> (builder: Self)
        ensures
            builder.spec_interval().log_size() == 0,
            forall|log: Option<&ThrottleLog>, d: u128|
                #[trigger] builder.spec_interval().produces(log, d) == (d == 0),
            builder.spec_concurrent() == 1,
    {
        ThrottleBuilder { interval: Interval::default(), concurrent: 1 }
    }

    /// Set interval of throttle.
    pub fn interval<A>(&mut self, a: A) -> (builder: &mut Self) where A: Into<Interval>
        ensures
            builder.spec_concurrent() == old(self).spec_concurrent(),
            call_ensures(A::into, (a,), builder.spec_interval()),
            *final(self) == *final(builder),
    {
        let a = a.into();
        self.interval = a;
        self
    }

    /// Set concurrent, default value is `1`.
    pub fn concurrent(&mut self, concurrent: u32) -> (builder: &mut Self)
        ensures
            builder.spec_concurrent() == concurrent,
            builder.spec_interval() == old(self).spec_interval(),
            *final(self) == *final(builder),
    {
        self.concurrent = concurrent;
        self
    }

    /// Create a new [`Throttle`] with current configuration.
    ///
    /// Return `None` if `concurrent` == `0` or larger than `isize::MAX`.
    /// The new throttle's time origin is the moment it is created: the first
    /// operation may start at once.
    pub fn build(&self) -> (throttle: Option<Throttle>)
        ensures
            throttle is Some <==> valid_concurrent(self.spec_concurrent()),
            throttle matches Some(t) ==> {
                &&& t.spec_concurrent() == self.spec_concurrent()
                &&& t.spec_interval().log_size() == self.spec_interval().log_size()
                &&& forall|log: Option<&ThrottleLog>, d: u128|
                    #[trigger] t.spec_interval().produces(log, d) == self.spec_interval().produces(log, d)
                &&& t.allowed_future() == 0
                &&& t.spec_log() == (if self.spec_interval().log_size() == 0 {
                    None
                } else {
                    Some(Seq::<LogRecord>::empty())
                })
            },
    {
        if self.concurrent == 0 {
            return None;
        }
        // the concurrency is also the count of a semaphore, an `isize`
        let permits = isize::try_from(self.concurrent);
        if permits.is_err() {
            return None;
        }
        let log_size = self.interval.log_size();
        let log = if log_size == 0 {
            None
        } else {
            Some(ThrottleLog::new(log_size))
        };
        Some(Throttle {
            allowed_future: 0,
            log,
            interval: self.interval.clone(),
            concurrent: self.concurrent,
        })
    }
}

/// Limiting resource access speed by interval and concurrent.
///
/// This holds the throttle's state: the point in time from which the next
/// operation may start, counted in nanoseconds from the throttle's time
/// origin, and the log of finished operations that its interval reads.
pub struct Throttle {
    allowed_future: u128,
    log: Option<ThrottleLog>,
    interval: Interval,
    concurrent: u32,
}

impl Throttle {
    /// Which time point is allowed to perform the next operation.
    pub closed spec fn allowed_future(&self) -> u128 {
        self.allowed_future
    }

    /// The records of the log, when the throttle keeps one.
    pub closed spec fn spec_log(&self) -> Option<Seq<LogRecord>> {
        match self.log {
            Some(l) => Some(l@),
            None => None,
        }
    }

    /// The interval configuration.
    pub closed spec fn spec_interval(&self) -> Interval {
        self.interval
    }

    /// How many operations may run at once.
    pub closed spec fn spec_concurrent(&self) -> u32 {
        self.concurrent
    }

    /// What the throttle hands its interval function: its log, when it
    /// keeps one.
    pub closed spec fn log_handed(&self) -> Option<&ThrottleLog> {
        match self.log {
            Some(l) => Some(&l),
            None => None,
        }
    }

    /// The concurrency is valid, and the throttle keeps a log exactly when
    /// its interval reads one, of the size that the interval asks for.
    #[verifier::type_invariant]
    closed spec fn well_formed(self) -> bool {
        &&& valid_concurrent(self.concurrent)
        &&& (self.log is Some <==> self.interval.log_size() > 0)
        &&& (self.log matches Some(l) ==> l.log_size() == self.interval.log_size())
    }

    /// Initialize a builder to create throttle.
    pub fn builder() -> (builder: ThrottleBuilder)
        ensures
            builder.spec_interval().log_size() == 0,
            forall|log: Option<&ThrottleLog>, d: u128|
                #[trigger] builder.spec_interval().produces(log, d) == (d == 0),
            builder.spec_concurrent() == 1,
    {
        ThrottleBuilder::new()
    }

    /// How many operations may run at once.
    pub fn concurrent(&self) -> (concurrent: u32)
        ensures
            concurrent == self.spec_concurrent(),
            valid_concurrent(concurrent),
    {
        proof {
            use_type_invariant(self);
        }
        self.concurrent
    }

    /// The throttle's log, when its interval reads one.
    pub fn log(&self) -> (log: Option<&ThrottleLog>)
        ensures
            log is Some <==> self.spec_log() is Some,
            log is Some <==> self.spec_interval().log_size() > 0,
            log == self.log_handed(),
            log matches Some(l) ==> self.spec_log() == Some(l@) && l.log_size()
                == self.spec_interval().log_size(),
    {
        proof {
            use_type_invariant(self);
        }
        self.log.as_ref()
    }

    /// Let an operation in at `now`, given the interval `interval` that the
    /// interval configuration produced for it: the next operation may start
    /// `interval / concurrent` after this one.
    ///
    /// Returns how long the caller still has to wait, `None` when it may
    /// start at once.
    pub fn advance(&mut self, now: u128, interval: u128) -> (wait: Option<u128>)
        requires
            next_allowed(
                old(self).allowed_future() as int,
                now as int,
                (interval / (old(self).spec_concurrent() as u128)) as int,
            ) <= u128::MAX,
        ensures
            wait == still_to_wait(old(self).allowed_future(), now),
            final(self).allowed_future() == next_allowed(
                old(self).allowed_future() as int,
                now as int,
                (interval / (old(self).spec_concurrent() as u128)) as int,
            ),
            final(self).spec_log() == old(self).spec_log(),
            final(self).spec_interval() == old(self).spec_interval(),
            final(self).spec_concurrent() == old(self).spec_concurrent(),
    {
        proof {
            use_type_invariant(&*self);
        }
        let step = interval / (self.concurrent as u128);
        let allowed_future = self.allowed_future;
        // counting next_allowed_future from when?
        let baseline = if now > allowed_future {
            now
        } else {
            allowed_future
        };
        self.allowed_future = baseline + step;
        if allowed_future >= now {
            Some(allowed_future - now)
        } else {
            None
        }
    }

    /// Let an operation in at `now`: ask the interval configuration for the
    /// next interval, handing it the log when the throttle keeps one, and
    /// advance the schedule as [`Throttle::advance`] does.
    ///
    /// Returns `Some` with how long the caller still has to wait (`None`
    /// inside when it may start at once), or `None`, with the throttle
    /// unchanged, when the next allowed point in time does not fit in a
    /// `u128`.
    pub fn waiting(&mut self, now: u128) -> (wait: Option<Option<u128>>)
        ensures
            exists|interval: u128|
                #[trigger] old(self).spec_interval().produces(old(self).log_handed(), interval)
                    && waiting_outcome(
                    old(self).allowed_future(),
                    now,
                    old(self).spec_concurrent(),
                    interval,
                    wait,
                    final(self).allowed_future(),
                ),
            final(self).spec_log() == old(self).spec_log(),
            final(self).spec_interval() == old(self).spec_interval(),
            final(self).spec_concurrent() == old(self).spec_concurrent(),
    {
        proof {
            use_type_invariant(&*self);
        }
        // generate next interval
        let interval = self.next_interval();
        self.try_advance(now, interval)
    }

    /// The next interval, in nanoseconds: what the interval configuration
    /// gives when handed the log, if the throttle keeps one.
    pub fn next_interval(&self) -> (interval: u128)
        ensures
            self.spec_interval().produces(self.log_handed(), interval),
    {
        self.interval.next_interval(self.log())
    }

    /// Let an operation in at `now`, given the interval `interval` that the
    /// interval configuration produced for it, as [`Throttle::advance`] does;
    /// or answer `None`, with the throttle unchanged, when the next allowed
    /// point in time does not fit in a `u128`.
    pub fn try_advance(&mut self, now: u128, interval: u128) -> (wait: Option<Option<u128>>)
        ensures
            waiting_outcome(
                old(self).allowed_future(),
                now,
                old(self).spec_concurrent(),
                interval,
                wait,
                final(self).allowed_future(),
            ),
            final(self).spec_log() == old(self).spec_log(),
            final(self).spec_interval() == old(self).spec_interval(),
            final(self).spec_concurrent() == old(self).spec_concurrent(),
    {
        proof {
            use_type_invariant(&*self);
        }
        let step = interval / (self.concurrent as u128);
        let baseline = if now > self.allowed_future {
            now
        } else {
            self.allowed_future
        };
        if baseline > u128::MAX - step {
            return None;
        }
        let wait = self.advance(now, interval);
        Some(wait)
    }

    /// Record in the log, when the throttle keeps one, that an operation
    /// finished at `now`, successfully or not.
    pub fn write_log(&mut self, now: u128, successful: bool)
        ensures
            final(self).spec_log() == (match old(self).spec_log() {
                Some(records) => Some(
                    pushed(
                        records,
                        old(self).spec_interval().log_size() as nat,
                        LogRecord { time: now, successful },
                    ),
                ),
                None => None,
            }),
            final(self).allowed_future() == old(self).allowed_future(),
            final(self).spec_interval() == old(self).spec_interval(),
            final(self).spec_concurrent() == old(self).spec_concurrent(),
    {
        proof {
            use_type_invariant(&*self);
        }
        if self.log.is_some() {
            // take the log out, leaving an empty one of the same size behind
            let mut log = Some(ThrottleLog::placeholder(self.interval.log_size()));
            std::mem::swap(&mut log, &mut self.log);
            if let Some(mut l) = log {
                l.push(LogRecord { time: now, successful });
                self.log = Some(l);
            }
        }
    }
}

/// The result type for `retry` loops.
#[derive(Debug, PartialEq, Eq, PartialOrd, Ord, Hash, Clone, Copy)]
pub enum RetryableResult<T, E> {
    /// Represent operation successful.
    Success(T),
    /// Represent operation failed & allow to retry.
    RetryableErr(E),
    /// Represent operation failed & should not retry.
    FatalErr(E),
}

impl<T, E> From<Result<T, E>> for RetryableResult<T, E> {
    /// `Ok` stays `Ok`; an `Err` may be retried.
    fn from(result: Result<T, E>) -> (r: Self)
        ensures
            r == (match result {
                Ok(v) => RetryableResult::Success(v),
                Err(e) => RetryableResult::<T, E>::RetryableErr(e),
            }),
    {
        match result {
            Ok(v) => RetryableResult::Success(v),
            Err(e) => RetryableResult::RetryableErr(e),
        }
    }
}

impl<T, E> vstd::std_specs::convert::FromSpecImpl<Result<T, E>> for RetryableResult<T, E> {
    open spec fn obeys_from_spec() -> bool {
        true
    }

    open spec fn from_spec(result: Result<T, E>) -> RetryableResult<T, E> {
        match result {
            Ok(v) => RetryableResult::Success(v),
            Err(e) => RetryableResult::RetryableErr(e),
        }
    }
}

/// What a retry loop does after a round.
#[derive(Debug, PartialEq, Eq)]
pub enum RetryStep<T, E> {
    /// Stop, and return this.
    Finish(Result<T, E>),
    /// Run the operation again, in this round.
    Retry(usize),
}

/// The step that follows round `round` of a retry loop allowed `max_retry`
/// retries, when the round ended with `result`.
pub open spec fn spec_after_round<T, E>(
    result: RetryableResult<T, E>,
    round: usize,
    max_retry: usize,
) -> RetryStep<T, E> {
    match result {
        RetryableResult::Success(v) => RetryStep::Finish(Ok(v)),
        RetryableResult::RetryableErr(e) => if round == max_retry + 1 {
            RetryStep::Finish(Err(e))
        } else {
            RetryStep::Retry((round + 1) as usize)
        },
        RetryableResult::FatalErr(e) => RetryStep::Finish(Err(e)),
    }
}

impl<T, E> RetryableResult<T, E> {
    /// Whether the operation succeeded, as a retry loop records it in the
    /// throttle's log.
    pub open spec fn spec_is_success(&self) -> bool {
        self is Success
    }

    /// Whether the operation succeeded, as a retry loop records it in the
    /// throttle's log.
    #[verifier::when_used_as_spec(spec_is_success)]
    pub fn is_success(&self) -> (success: bool)
        ensures
            success == self.spec_is_success(),
    {
        match self {
            RetryableResult::Success(_) => true,
            _ => false,
        }
    }

    /// Decide what a retry loop does after round `round` ended with `self`,
    /// rounds running from `1` to `max_retry + 1`: a success or a fatal
    /// error ends the loop; a retryable error ends it in the last round and
    /// starts the next round otherwise.
    pub fn after_round(self, round: usize, max_retry: usize) -> (step: RetryStep<T, E>)
        requires
            max_retry < usize::MAX,
            1 <= round <= max_retry + 1,
        ensures
            step == spec_after_round(self, round, max_retry),
    {
        let max_try = max_retry + 1;
        match self {
            RetryableResult::Success(v) => RetryStep::Finish(Ok(v)),
            RetryableResult::RetryableErr(e) => {
                if round == max_try {
                    RetryStep::Finish(Err(e))
                } else {
                    RetryStep::Retry(round + 1)
                }
            },
            RetryableResult::FatalErr(e) => RetryStep::Finish(Err(e)),
        }
    }
}

/// Operations start no closer than `step` to one another: the operation
/// after one that started at `start_time(allowed, now1)` starts at least
/// `step` later, whenever it arrives. With `step == interval / concurrent`,
/// this is the throttle's promise of at most `concurrent` operations per
/// `interval`.
pub proof fn law_spacing(allowed: int, now1: int, step: int, now2: int)
    ensures
        start_time(next_allowed(allowed, now1, step), now2) >= start_time(allowed, now1) + step,
{
}

/// The wait that a throttle reports ends exactly when the operation starts:
/// a caller arriving at `now` that waits `w` starts at `now + w`, and one
/// told not to wait starts at `now`.
pub proof fn law_wait_ends_at_start(allowed: u128, now: u128)
    ensures
        match still_to_wait(allowed, now) {
            Some(w) => now + w == start_time(allowed as int, now as int),
            None => start_time(allowed as int, now as int) == now,
        },
{
}

/// `k` operations that arrive together at `now` start `step` apart: after
/// them the schedule stands `k * step` after the first one's start, and the
/// `j`-th of them (counted from zero) starts at `start + j * step`.
pub proof fn law_burst(allowed: int, now: int, step: int, k: nat)
    requires
        step >= 0,
        k >= 1,
    ensures
        allowed_after_burst(allowed, now, step, k) == start_time(allowed, now) + k * step,
        forall|j: nat|
            1 <= j < k ==> start_time(#[trigger] allowed_after_burst(allowed, now, step, j), now)
                == start_time(allowed, now) + j * step,
    decreases k,
{
    if k > 1 {
        law_burst(allowed, now, step, (k - 1) as nat);
        assert(allowed_after_burst(allowed, now, step, (k - 1) as nat) >= now) by (nonlinear_arith)
            requires
                allowed_after_burst(allowed, now, step, (k - 1) as nat) == start_time(allowed, now)
                    + (k - 1) * step,
                start_time(allowed, now) >= now,
                step >= 0,
                k >= 1,
        ;
        assert(start_time(allowed, now) + (k - 1) * step + step == start_time(allowed, now) + k
            * step) by (nonlinear_arith);
    } else {
        assert(allowed_after_burst(allowed, now, step, 0) == allowed);
    }
}

/// A retry loop runs its operation at most `max_retry + 1` times: the rounds
/// run one after the other from `1`, a success or a fatal error finishes the
/// loop, and the last round always finishes it.
pub proof fn law_retry_rounds<T, E>(result: RetryableResult<T, E>, round: usize, max_retry: usize)
    requires
        max_retry < usize::MAX,
        1 <= round <= max_retry + 1,
    ensures
        spec_after_round(result, round, max_retry) matches RetryStep::Retry(next) ==> next == round
            + 1 && next <= max_retry + 1,
        !(result is RetryableErr) ==> spec_after_round(result, round, max_retry) is Finish,
        round == max_retry + 1 ==> spec_after_round(result, round, max_retry) is Finish,
{
}

/// How many rounds a retry loop from round `round` runs, when its rounds end
/// with `outcomes` in turn.
pub open spec fn rounds_run<T, E>(outcomes: Seq<RetryableResult<T, E>>, round: usize, max_retry: usize) -> nat
    decreases outcomes.len(),
{
    if outcomes.len() == 0 {
        0
    } else {
        match spec_after_round(outcomes[0], round, max_retry) {
            RetryStep::Retry(next) => 1 + rounds_run(outcomes.drop_first(), next, max_retry),
            RetryStep::Finish(_) => 1,
        }
    }
}

/// Whatever the operation answers, a retry loop allowed `max_retry` retries
/// runs it at most `max_retry + 1` times.
pub proof fn law_retry_attempts<T, E>(outcomes: Seq<RetryableResult<T, E>>, max_retry: usize)
    requires
        max_retry < usize::MAX,
    ensures
        rounds_run(outcomes, 1, max_retry) <= max_retry + 1,
{
    lemma_rounds_run_from(outcomes, 1, max_retry);
}

proof fn lemma_rounds_run_from<T, E>(outcomes: Seq<RetryableResult<T, E>>, round: usize, max_retry: usize)
    requires
        max_retry < usize::MAX,
        1 <= round <= max_retry + 1,
    ensures
        rounds_run(outcomes, round, max_retry) <= max_retry + 2 - round,
    decreases outcomes.len(),
{
    if outcomes.len() > 0 {
        law_retry_rounds(outcomes[0], round, max_retry);
        if let RetryStep::Retry(next) = spec_after_round(outcomes[0], round, max_retry) {
            lemma_rounds_run_from(outcomes.drop_first(), next, max_retry);
        }
    }
}

/// A throttle's concurrency is usable, and a builder builds, exactly when it
/// is positive and a valid `isize`.
pub proof fn law_valid_concurrent(concurrent: u32)
    ensures
        valid_concurrent(concurrent) <==> (0 < concurrent && concurrent <= isize::MAX),
{
}

/// Letting an operation in: when `max(now, allowed) + interval / concurrent`
/// fits in a `u128`, the schedule moves exactly there and the caller waits
/// `allowed - now` (or not at all once `allowed` has passed); otherwise the
/// answer is `None` and the schedule stays.
pub proof fn law_waiting_outcome(
    allowed: u128,
    now: u128,
    concurrent: u32,
    interval: u128,
    wait: Option<Option<u128>>,
    next: u128,
)
    requires
        concurrent > 0,
        waiting_outcome(allowed, now, concurrent, interval, wait, next),
    ensures
        ({
            let start: int = if now > allowed { now as int } else { allowed as int };
            let step: int = interval as int / concurrent as int;
            if start + step <= u128::MAX {
                &&& next == start + step
                &&& wait == (if allowed >= now {
                    Some(Some((allowed - now) as u128))
                } else {
                    Some(None)
                })
            } else {
                wait is None && next == allowed
            }
        }),
{
}

/// Two operations let in one after the other start at least
/// `interval / concurrent` apart, where each starts when its wait ends:
/// at most `concurrent` operations start per `interval`.
pub proof fn law_waiting_spacing(
    allowed: u128,
    concurrent: u32,
    now1: u128,
    interval1: u128,
    wait1: Option<u128>,
    next1: u128,
    now2: u128,
    interval2: u128,
    wait2: Option<u128>,
    next2: u128,
)
    requires
        concurrent > 0,
        waiting_outcome(allowed, now1, concurrent, interval1, Some(wait1), next1),
        waiting_outcome(next1, now2, concurrent, interval2, Some(wait2), next2),
    ensures
        ({
            let start1: int = match wait1 {
                Some(w) => now1 + w,
                None => now1 as int,
            };
            let start2: int = match wait2 {
                Some(w) => now2 + w,
                None => now2 as int,
            };
            start2 >= start1 + interval1 as int / concurrent as int
        }),
{
}

/// `k` operations arriving together at `now` at a throttle whose schedule
/// stands no later than `now` start `interval / concurrent` apart: the
/// `j`-th of them (from zero) waits `j * (interval / concurrent)`.
pub proof fn law_waiting_burst(allowed: u128, now: u128, concurrent: u32, interval: u128, j: nat)
    requires
        concurrent > 0,
        allowed <= now,
        j >= 1,
    ensures
        allowed_after_burst(allowed as int, now as int, interval as int / concurrent as int, j)
            == now + j * (interval as int / concurrent as int),
{
    law_burst(allowed as int, now as int, interval as int / concurrent as int, j);
}

/// What a retry loop does after each round: a success ends it with that
/// value, a fatal error ends it with that error, and a retryable error ends
/// it with that error in the last round `max_retry + 1` and starts the next
/// round in every round before.
pub proof fn law_after_round<T, E>(result: RetryableResult<T, E>, round: usize, max_retry: usize)
    requires
        max_retry < usize::MAX,
        1 <= round <= max_retry + 1,
    ensures
        result.spec_is_success() <==> result is Success,
        result matches RetryableResult::Success(v) ==> spec_after_round(result, round, max_retry)
            == RetryStep::<T, E>::Finish(Ok(v)),
        result matches RetryableResult::FatalErr(e) ==> spec_after_round(result, round, max_retry)
            == RetryStep::<T, E>::Finish(Err(e)),
        result matches RetryableResult::RetryableErr(e) ==> spec_after_round(result, round, max_retry)
            == if round < max_retry + 1 {
            RetryStep::<T, E>::Retry((round + 1) as usize)
        } else {
            RetryStep::<T, E>::Finish(Err(e))
        },
{
}

/// Retryable errors in every round run the operation exactly
/// `max_retry + 1` times.
pub proof fn law_retry_exhausts<T, E>(outcomes: Seq<RetryableResult<T, E>>, max_retry: usize)
    requires
        max_retry < usize::MAX,
        outcomes.len() >= max_retry + 1,
        forall|i: int| 0 <= i < outcomes.len() ==> (#[trigger] outcomes[i]) is RetryableErr,
    ensures
        rounds_run(outcomes, 1, max_retry) == max_retry + 1,
{
    lemma_retry_exhausts_from(outcomes, 1, max_retry);
}

proof fn lemma_retry_exhausts_from<T, E>(outcomes: Seq<RetryableResult<T, E>>, round: usize, max_retry: usize)
    requires
        max_retry < usize::MAX,
        1 <= round <= max_retry + 1,
        outcomes.len() >= max_retry + 2 - round,
        forall|i: int| 0 <= i < outcomes.len() ==> (#[trigger] outcomes[i]) is RetryableErr,
    ensures
        rounds_run(outcomes, round, max_retry) == max_retry + 2 - round,
    decreases outcomes.len(),
{
    assert(outcomes[0] is RetryableErr);
    law_after_round(outcomes[0], round, max_retry);
    if round < max_retry + 1 {
        let rest = outcomes.drop_first();
        assert forall|i: int| 0 <= i < rest.len() implies (#[trigger] rest[i]) is RetryableErr by {
            assert(rest[i] == outcomes[i + 1]);
        }
        lemma_retry_exhausts_from(rest, (round + 1) as usize, max_retry);
    }
}

} // verus!
