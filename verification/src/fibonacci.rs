//! The predefined interval algorithm: Fibonacci delays by failure count.
use vstd::prelude::*;

use crate::interval::{Interval, IntervalFn};
use crate::log::{failures, law_failures_are_failed_records, LogRecord, ThrottleLog};

verus! {

/// The unit Fibonacci numbers 1, 2, 3, 5, 8, ...: the Fibonacci sequence
/// without its first two items `[0, 1]`.
pub open spec fn unit_fib(k: nat) -> nat
    decreases k,
{
    if k == 0 {
        1
    } else if k == 1 {
        2
    } else {
        unit_fib((k - 2) as nat) + unit_fib((k - 1) as nat)
    }
}

/// The first unit Fibonacci number whose successor does not fit in a `u32`.
/// Ratios from it on cannot be handled.
pub const FIBONACCI_RATIO_LIMIT: u32 = 2971215073;

/// `n` is the number of unit Fibonacci numbers used for ratio `max_ratio`:
/// the first, and then every one that is at most `max_ratio`.
pub open spec fn is_fib_count(n: nat, max_ratio: nat) -> bool {
    &&& n >= 1
    &&& unit_fib(n) > max_ratio
    &&& forall|k: nat| 1 <= k < n ==> #[trigger] unit_fib(k) <= max_ratio
}

/// The delay after `failure_count` failures, with unit `base`, when `len`
/// unit Fibonacci numbers are in use: `unit_fib(failure_count) * base`, and
/// the last one's multiple once the failures outnumber them.
pub open spec fn fib_delay(base: nat, len: nat, failure_count: nat) -> nat {
    if failure_count < len {
        base * unit_fib(failure_count)
    } else {
        base * unit_fib((len - 1) as nat)
    }
}

/// Every unit Fibonacci number is positive.
pub proof fn lemma_unit_fib_positive(k: nat)
    ensures
        unit_fib(k) >= 1,
    decreases k,
{
    if k >= 2 {
        lemma_unit_fib_positive((k - 2) as nat);
        lemma_unit_fib_positive((k - 1) as nat);
    }
}

/// The unit Fibonacci numbers grow strictly.
pub proof fn lemma_unit_fib_increasing(i: nat, j: nat)
    requires
        i < j,
    ensures
        unit_fib(i) < unit_fib(j),
    decreases j,
{
    if j >= 2 {
        lemma_unit_fib_positive((j - 2) as nat);
    }
    if i + 1 < j {
        lemma_unit_fib_increasing(i, (j - 1) as nat);
    }
}

proof fn lemma_unit_fib_limit()
    ensures
        unit_fib(45) == FIBONACCI_RATIO_LIMIT,
{
    assert(unit_fib(0) == 1);
    assert(unit_fib(1) == 2);
    assert(unit_fib(2) == 3);
    assert(unit_fib(3) == 5);
    assert(unit_fib(4) == 8);
    assert(unit_fib(5) == 13);
    assert(unit_fib(6) == 21);
    assert(unit_fib(7) == 34);
    assert(unit_fib(8) == 55);
    assert(unit_fib(9) == 89);
    assert(unit_fib(10) == 144);
    assert(unit_fib(11) == 233);
    assert(unit_fib(12) == 377);
    assert(unit_fib(13) == 610);
    assert(unit_fib(14) == 987);
    assert(unit_fib(15) == 1597);
    assert(unit_fib(16) == 2584);
    assert(unit_fib(17) == 4181);
    assert(unit_fib(18) == 6765);
    assert(unit_fib(19) == 10946);
    assert(unit_fib(20) == 17711);
    assert(unit_fib(21) == 28657);
    assert(unit_fib(22) == 46368);
    assert(unit_fib(23) == 75025);
    assert(unit_fib(24) == 121393);
    assert(unit_fib(25) == 196418);
    assert(unit_fib(26) == 317811);
    assert(unit_fib(27) == 514229);
    assert(unit_fib(28) == 832040);
    assert(unit_fib(29) == 1346269);
    assert(unit_fib(30) == 2178309);
    assert(unit_fib(31) == 3524578);
    assert(unit_fib(32) == 5702887);
    assert(unit_fib(33) == 9227465);
    assert(unit_fib(34) == 14930352);
    assert(unit_fib(35) == 24157817);
    assert(unit_fib(36) == 39088169);
    assert(unit_fib(37) == 63245986);
    assert(unit_fib(38) == 102334155);
    assert(unit_fib(39) == 165580141);
    assert(unit_fib(40) == 267914296);
    assert(unit_fib(41) == 433494437);
    assert(unit_fib(42) == 701408733);
    assert(unit_fib(43) == 1134903170);
    assert(unit_fib(44) == 1836311903);
    assert(unit_fib(45) == 2971215073);
}

/// Generate unit fibonacci sequence: `[1, 2, 3, 5, ...]`, every unit
/// Fibonacci number up to `max_ratio` (and always the first one).
pub fn unit_fibonacci_seq(max_ratio: u32) -> (ans: Vec<u32>)
    requires
        max_ratio < FIBONACCI_RATIO_LIMIT,
    ensures
        is_fib_count(ans@.len() as nat, max_ratio as nat),
        forall|k: int| 0 <= k < ans@.len() ==> ans@[k] == unit_fib(k as nat),
{
    let mut prev: u32 = 1;
    let mut curr: u32 = 1;
    let mut ans: Vec<u32> = Vec::new();
    ans.push(curr);
    let ghost mut k: nat = 0;
    proof {
        lemma_unit_fib_limit();
    }
    loop
        invariant
            max_ratio < FIBONACCI_RATIO_LIMIT,
            unit_fib(45) == FIBONACCI_RATIO_LIMIT,
            ans@.len() == k + 1,
            forall|j: int| 0 <= j < ans@.len() ==> ans@[j] == unit_fib(j as nat),
            forall|j: nat| 1 <= j <= k ==> #[trigger] unit_fib(j) <= max_ratio,
            curr == unit_fib(k),
            prev == (if k == 0 { 1 } else { unit_fib((k - 1) as nat) }),
            k < 45,
        ensures
            is_fib_count(ans@.len() as nat, max_ratio as nat),
            forall|j: int| 0 <= j < ans@.len() ==> ans@[j] == unit_fib(j as nat),
        decreases 45 - k,
    {
        proof {
            lemma_unit_fib_increasing(k, 45);
            if k + 1 < 45 {
                lemma_unit_fib_increasing(k + 1, 45);
            }
            assert(unit_fib(k + 1) == prev + curr);
        }
        let new_value = prev + curr;
        if new_value <= max_ratio {
            ans.push(new_value);
            prev = curr;
            curr = new_value;
            proof {
                k = k + 1;
                if k >= 45 {
                    lemma_unit_fib_increasing(45, k);
                }
            }
        } else {
            break;
        }
    }
    ans
}

/// Fibonacci delays: the `n`-th failure in the log is answered with the
/// `n`-th unit Fibonacci number times `base`.
pub struct Fibonacci {
    base: u128,
    seq: Vec<u32>,
}

impl Fibonacci {
    /// The unit of the delays, in nanoseconds.
    pub closed spec fn base(&self) -> nat {
        self.base as nat
    }

    /// How many unit Fibonacci numbers are in use.
    pub closed spec fn fib_len(&self) -> nat {
        self.seq@.len()
    }

    /// The sequence holds the first unit Fibonacci numbers, and every delay
    /// fits in a `u128`.
    #[verifier::type_invariant]
    closed spec fn well_formed(self) -> bool {
        &&& self.seq@.len() >= 1
        &&& forall|k: int| 0 <= k < self.seq@.len() ==> self.seq@[k] == unit_fib(k as nat)
        &&& self.base * unit_fib((self.seq@.len() - 1) as nat) <= u128::MAX
    }

    /// Fibonacci delays of unit `base` nanoseconds, using the unit Fibonacci
    /// numbers up to `max_ratio`: the ratio of the maximum delay to `base`,
    /// so at least one for a maximum no shorter than `base`. A zero `base`
    /// has no delays.
    pub fn new(base: u128, max_ratio: u32) -> (fib: Fibonacci)
        requires
            base > 0,
            max_ratio >= 1,
            max_ratio < FIBONACCI_RATIO_LIMIT,
            base * max_ratio <= u128::MAX,
        ensures
            fib.base() == base,
            is_fib_count(fib.fib_len(), max_ratio as nat),
    {
        let seq = unit_fibonacci_seq(max_ratio);
        proof {
            let last = (seq@.len() - 1) as nat;
            if last >= 1 {
                assert(unit_fib(last) <= max_ratio);
                assert(base * unit_fib(last) <= base * max_ratio) by (nonlinear_arith)
                    requires
                        unit_fib(last) <= max_ratio,
                ;
            }
        }
        Fibonacci { base, seq }
    }

    /// The log size these delays need: one record per unit Fibonacci number
    /// in use.
    pub fn len(&self) -> (len: usize)
        ensures
            len == self.fib_len(),
    {
        self.seq.len()
    }

    /// The unit Fibonacci numbers in use: `[1, 2, 3, 5, ...]`.
    pub fn seq(&self) -> (seq: &Vec<u32>)
        ensures
            seq@.len() == self.fib_len(),
            forall|k: int| 0 <= k < seq@.len() ==> seq@[k] == unit_fib(k as nat),
    {
        proof {
            use_type_invariant(self);
        }
        &self.seq
    }

    /// The delay after `failure_count` failures, in nanoseconds.
    pub fn delay(&self, failure_count: usize) -> (delay: u128)
        ensures
            delay == fib_delay(self.base(), self.fib_len(), failure_count as nat),
    {
        proof {
            use_type_invariant(self);
        }
        let len = self.seq.len();
        let k = if failure_count < len {
            failure_count
        } else {
            len - 1
        };
        let ratio = self.seq[k];
        proof {
            let last = (len - 1) as nat;
            if (k as nat) < last {
                lemma_unit_fib_increasing(k as nat, last);
            }
            assert(self.base * unit_fib(k as nat) <= self.base * unit_fib(last)) by (nonlinear_arith)
                requires
                    unit_fib(k as nat) <= unit_fib(last),
            ;
        }
        self.base * (ratio as u128)
    }

    /// An interval that keeps a log of `self.len()` records and answers
    /// with the delay for the number of failures in it.
    pub fn into_interval(self) -> (interval: Interval)
        ensures
            interval.log_size() == self.fib_len(),
            forall|log: Option<&ThrottleLog>, d: u128|
                interval.produces(log, d) == (d == fib_delay(
                    self.base(),
                    self.fib_len(),
                    failures_in(log),
                )),
    {
        let len = self.seq.len();
        let ghost fib = self;
        let interval = Interval::from_fibonacci(self, len);
        proof {
            assert forall|log: Option<&ThrottleLog>, d: u128|
                interval.produces(log, d) == (d == fib_delay(
                    fib.base(),
                    fib.fib_len(),
                    failures_in(log),
                )) by {
                assert(interval.produces(log, d) == fib.produces(log, d));
            }
        }
        interval
    }
}

/// The failures in `log`, none without a log.
pub open spec fn failures_in(log: Option<&ThrottleLog>) -> nat {
    match log {
        Some(l) => failures(l@),
        None => 0,
    }
}

impl IntervalFn for Fibonacci {
    /// The delay for the failures in `log`; a throttle always hands this
    /// function its log, and without one no failure is counted.
    open spec fn produces(&self, log: Option<&ThrottleLog>, delay: u128) -> bool {
        delay == fib_delay(self.base(), self.fib_len(), failures_in(log))
    }

    fn next_interval(&self, log: Option<&ThrottleLog>) -> (delay: u128) {
        let failure_count = match log {
            Some(l) => l.failure_count(),
            None => 0,
        };
        self.delay(failure_count)
    }
}

/// More failures never shorten the delay.
pub proof fn law_fib_delay_monotone(base: nat, len: nat, fewer: nat, more: nat)
    requires
        len >= 1,
        fewer <= more,
    ensures
        fib_delay(base, len, fewer) <= fib_delay(base, len, more),
{
    let i = if fewer < len { fewer } else { (len - 1) as nat };
    let j = if more < len { more } else { (len - 1) as nat };
    if i < j {
        lemma_unit_fib_increasing(i, j);
    }
    assert(base * unit_fib(i) <= base * unit_fib(j)) by (nonlinear_arith)
        requires
            unit_fib(i) <= unit_fib(j),
    ;
}

/// The delays run from `base` up to at most `max_ratio * base`: the last
/// unit Fibonacci number in use is at most `max_ratio`.
pub proof fn law_fib_delay_bounds(base: nat, len: nat, max_ratio: nat, failure_count: nat)
    requires
        is_fib_count(len, max_ratio),
        max_ratio >= 1,
    ensures
        base <= fib_delay(base, len, failure_count) <= base * max_ratio,
{
    let i = if failure_count < len { failure_count } else { (len - 1) as nat };
    lemma_unit_fib_positive(i);
    if i >= 1 {
        assert(unit_fib(i) <= max_ratio);
    } else {
        assert(unit_fib(0) == 1);
    }
    assert(base <= base * unit_fib(i) <= base * max_ratio) by (nonlinear_arith)
        requires
            1 <= unit_fib(i) <= max_ratio,
    ;
}

/// With a maximum delay `max` of which `max_ratio` units of `base` fit, the
/// delays run from `base` up to at most `max`.
pub proof fn law_fib_delay_within_max(
    base: nat,
    len: nat,
    max_ratio: nat,
    max: nat,
    failure_count: nat,
)
    requires
        is_fib_count(len, max_ratio),
        max_ratio >= 1,
        base * max_ratio <= max,
    ensures
        base <= fib_delay(base, len, failure_count) <= max,
{
    law_fib_delay_bounds(base, len, max_ratio, failure_count);
}

/// The unit Fibonacci numbers start 1, 2, and each further one is the sum
/// of the two before it.
pub proof fn law_unit_fib_recurrence(k: nat)
    ensures
        unit_fib(0) == 1,
        unit_fib(1) == 2,
        unit_fib(k + 2) == unit_fib(k) + unit_fib(k + 1),
{
}

/// The delay after `failure_count` failures is `base` times the unit
/// Fibonacci number of that rank, or of the last rank in use once the
/// failures outnumber them.
pub proof fn law_fib_delay(base: nat, len: nat, failure_count: nat)
    requires
        len >= 1,
    ensures
        failure_count < len ==> fib_delay(base, len, failure_count) == base * unit_fib(failure_count),
        failure_count >= len ==> fib_delay(base, len, failure_count) == base * unit_fib(
            (len - 1) as nat,
        ),
{
}

/// The number of unit Fibonacci numbers in use for a ratio is one number:
/// at least one, the last of them at most the ratio (when the ratio is at
/// least one), and the next one above it.
pub proof fn law_fib_count(n1: nat, n2: nat, max_ratio: nat)
    requires
        is_fib_count(n1, max_ratio),
        is_fib_count(n2, max_ratio),
        max_ratio >= 1,
    ensures
        n1 == n2,
        n1 >= 1,
        unit_fib((n1 - 1) as nat) <= max_ratio < unit_fib(n1),
{
    if n1 < n2 {
        assert(unit_fib(n1) <= max_ratio);
    }
    if n2 < n1 {
        assert(unit_fib(n2) <= max_ratio);
    }
    if n1 == 1 {
        assert(unit_fib(0) == 1);
    } else {
        assert(unit_fib((n1 - 1) as nat) <= max_ratio);
    }
}

/// A Fibonacci interval handed a log answers with `base` times the unit
/// Fibonacci number picked by the number of failed records in the log,
/// wherever they stand, or by the last one in use when the failures
/// outnumber them.
pub proof fn law_fib_interval_counts_every_failure(fib: Fibonacci, log: &ThrottleLog, d: u128)
    ensures
        fib.produces(Some(log), d) <==> ({
            let n = log@.filter(|r: LogRecord| !r.successful).len();
            let k = if n < fib.fib_len() { n } else { (fib.fib_len() - 1) as nat };
            d == fib.base() * unit_fib(k)
        }),
{
    law_failures_are_failed_records(log@);
}

} // verus!
