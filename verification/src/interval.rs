//! Interval configurations: how long a throttle spaces out its operations.
use vstd::prelude::*;
use std::sync::Arc;

use crate::fibonacci::Fibonacci;
use crate::log::ThrottleLog;

verus! {

/// A function that produces the interval of a throttle, in nanoseconds,
/// for each operation it lets through.
///
/// It is handed the throttle's log when the throttle keeps one, and `None`
/// otherwise.
pub trait IntervalFn: Send + Sync {
    /// Whether `interval` is a value this function may return when handed
    /// `log`.
    spec fn produces(&self, log: Option<&ThrottleLog>, interval: u128) -> bool;

    /// The next interval, in nanoseconds.
    fn next_interval(&self, log: Option<&ThrottleLog>) -> (interval: u128)
        ensures
            self.produces(log, interval),
    ;
}

/// An interval function given by a closure that accepts every log.
struct FromLogFn<F: Fn(Option<&ThrottleLog>) -> u128> {
    f: F,
}

impl<F: Fn(Option<&ThrottleLog>) -> u128> FromLogFn<F> {
    #[verifier::type_invariant]
    spec fn accepts_every_log(self) -> bool {
        forall|log: Option<&ThrottleLog>| #[trigger] self.f.requires((log,))
    }
}

impl<F: Fn(Option<&ThrottleLog>) -> u128 + Send + Sync> IntervalFn for FromLogFn<F> {
    /// What the closure may return for `log`.
    closed spec fn produces(&self, log: Option<&ThrottleLog>, interval: u128) -> bool {
        self.f.ensures((log,), interval)
    }

    fn next_interval(&self, log: Option<&ThrottleLog>) -> (interval: u128) {
        proof {
            use_type_invariant(self);
        }
        (self.f)(log)
    }
}

/// An interval function given by a closure that takes no argument.
struct FromFn<F: Fn() -> u128> {
    f: F,
}

impl<F: Fn() -> u128> FromFn<F> {
    #[verifier::type_invariant]
    spec fn always_callable(self) -> bool {
        self.f.requires(())
    }
}

impl<F: Fn() -> u128 + Send + Sync> IntervalFn for FromFn<F> {
    /// What the closure may return, whatever the log.
    closed spec fn produces(&self, log: Option<&ThrottleLog>, interval: u128) -> bool {
        self.f.ensures((), interval)
    }

    fn next_interval(&self, log: Option<&ThrottleLog>) -> (interval: u128) {
        proof {
            use_type_invariant(self);
        }
        (self.f)()
    }
}

/// A fixed interval.
struct Fixed {
    nanos: u128,
}

impl IntervalFn for Fixed {
    /// Always the same interval.
    closed spec fn produces(&self, log: Option<&ThrottleLog>, interval: u128) -> bool {
        interval == self.nanos
    }

    fn next_interval(&self, log: Option<&ThrottleLog>) -> (interval: u128) {
        self.nanos
    }
}

/// An interval function whose result is post-processed by a closure.
struct Modified<G: Fn(u128) -> u128> {
    inner: Arc<Box<dyn IntervalFn>>,
    post: G,
}

impl<G: Fn(u128) -> u128> Modified<G> {
    #[verifier::type_invariant]
    spec fn accepts_every_interval(self) -> bool {
        forall|d: u128| #[trigger] self.post.requires((d,))
    }
}

/// `interval` is what `post` may make of something that `inner` may produce
/// for `log`.
pub open spec fn composes<G: Fn(u128) -> u128>(
    inner: spec_fn(Option<&ThrottleLog>, u128) -> bool,
    post: G,
    log: Option<&ThrottleLog>,
    interval: u128,
) -> bool {
    exists|d: u128| #[trigger] inner(log, d) && post.ensures((d,), interval)
}

impl<G: Fn(u128) -> u128 + Send + Sync> IntervalFn for Modified<G> {
    /// What the closure may make of what the inner function may produce.
    closed spec fn produces(&self, log: Option<&ThrottleLog>, interval: u128) -> bool {
        composes(|l: Option<&ThrottleLog>, d: u128| (**self.inner).produces(l, d), self.post, log, interval)
    }

    fn next_interval(&self, log: Option<&ThrottleLog>) -> (interval: u128) {
        proof {
            use_type_invariant(self);
        }
        let d = self.inner.next_interval(log);
        let interval = (self.post)(d);
        proof {
            let inner = |l: Option<&ThrottleLog>, e: u128| (**self.inner).produces(l, e);
            assert(inner(log, d));
        }
        interval
    }
}

/// Modifying an interval by `f` and the result by `h` gives the interval
/// whose values are those of `a` passed through `f` and then through `h`:
/// `a.modify(f).modify(h)` behaves as `a.modify(|d| h(f(d)))`.
pub proof fn law_modify_twice<F: Fn(u128) -> u128, H: Fn(u128) -> u128>(
    a: Interval,
    b: Interval,
    c: Interval,
    f: F,
    h: H,
)
    requires
        forall|log: Option<&ThrottleLog>, d: u128|
            b.produces(log, d) == composes(|l: Option<&ThrottleLog>, e: u128| a.produces(l, e), f, log, d),
        forall|log: Option<&ThrottleLog>, d: u128|
            c.produces(log, d) == composes(|l: Option<&ThrottleLog>, e: u128| b.produces(l, e), h, log, d),
    ensures
        forall|log: Option<&ThrottleLog>, d: u128|
            c.produces(log, d) <==> exists|e: u128, m: u128|
                #![trigger a.produces(log, e), h.ensures((m,), d)]
                a.produces(log, e) && f.ensures((e,), m) && h.ensures((m,), d),
{
    assert forall|log: Option<&ThrottleLog>, d: u128|
        c.produces(log, d) <==> exists|e: u128, m: u128|
            #![trigger a.produces(log, e), h.ensures((m,), d)]
            a.produces(log, e) && f.ensures((e,), m) && h.ensures((m,), d) by {
        let pa = |l: Option<&ThrottleLog>, e: u128| a.produces(l, e);
        let pb = |l: Option<&ThrottleLog>, e: u128| b.produces(l, e);
        if c.produces(log, d) {
            assert(composes(pb, h, log, d));
            let m = choose|m: u128| #[trigger] pb(log, m) && h.ensures((m,), d);
            assert(b.produces(log, m));
            assert(composes(pa, f, log, m));
            let e = choose|e: u128| #[trigger] pa(log, e) && f.ensures((e,), m);
            assert(a.produces(log, e) && f.ensures((e,), m) && h.ensures((m,), d));
        }
        if exists|e: u128, m: u128|
            #![trigger a.produces(log, e), h.ensures((m,), d)]
            a.produces(log, e) && f.ensures((e,), m) && h.ensures((m,), d) {
            let (e, m) = choose|e: u128, m: u128|
                #![trigger a.produces(log, e), h.ensures((m,), d)]
                a.produces(log, e) && f.ensures((e,), m) && h.ensures((m,), d);
            assert(pa(log, e));
            assert(composes(pa, f, log, m));
            assert(b.produces(log, m));
            assert(pb(log, m));
            assert(composes(pb, h, log, d));
        }
    }
}

/// Share the interval function behind `f`.
///
/// Trusted: calls `Arc::clone`, which makes a new pointer to the same
/// allocation, so the result points to the same value as `f`.
#[verifier::external_body]
fn share(f: &Arc<Box<dyn IntervalFn>>) -> (shared: Arc<Box<dyn IntervalFn>>)
    ensures
        shared == *f,
{
    Arc::clone(f)
}

/// Converting a value into its own type gives it back.
///
/// Trusted: specifies core's `impl<T> From<T> for T`, whose `from` returns
/// its argument.
pub assume_specification<V>[ <V as std::convert::From<V>>::from ](value: V) -> (same: V)
    ensures
        same == value,
;

/// The interval configuration.
pub struct Interval {
    interval_fn: Arc<Box<dyn IntervalFn>>,
    log_size: usize,
}

impl Interval {
    /// The maximum size of the log that the interval function reads.
    pub closed spec fn spec_log_size(&self) -> usize {
        self.log_size
    }

    /// The maximum size of the log that the interval function reads.
    #[verifier::when_used_as_spec(spec_log_size)]
    pub fn log_size(&self) -> (log_size: usize)
        ensures
            log_size == self.spec_log_size(),
    {
        self.log_size
    }

    /// Whether `interval` is a value the interval function may return when
    /// handed `log`.
    pub closed spec fn produces(&self, log: Option<&ThrottleLog>, interval: u128) -> bool {
        (**self.interval_fn).produces(log, interval)
    }

    /// An interval of Fibonacci delays, reading a log of `log_size` records.
    pub(crate) fn from_fibonacci(w: Fibonacci, log_size: usize) -> (interval: Interval)
        ensures
            interval.log_size() == log_size,
            forall|log: Option<&ThrottleLog>, d: u128|
                #[trigger] interval.produces(log, d) == w.produces(log, d),
    {
        let boxed: Box<dyn IntervalFn> = Box::new(w);
        let shared = Arc::new(boxed);
        let interval = Interval { interval_fn: shared, log_size };
        proof {
            assert forall|log: Option<&ThrottleLog>, d: u128|
                #[trigger] interval.produces(log, d) == w.produces(log, d) by {
                assert((*boxed).produces(log, d) == w.produces(log, d));
                assert((**shared).produces(log, d) == (*boxed).produces(log, d));
                assert(interval.produces(log, d) == (**shared).produces(log, d));
            }
        }
        interval
    }

    /// Create a interval calculating algorithm
    ///
    /// Define an `interval_fn` to generate interval dynamically.
    ///
    /// `log_size` argument determine the maximum size of [`ThrottleLog`] which
    /// `interval_fn` can access. If `log_size == 0`, `interval_fn` will receive
    /// `None`.
    pub fn new<F>(interval_fn: F, log_size: usize) -> (interval: Interval) where
        F: Fn(Option<&ThrottleLog>) -> u128 + Send + Sync + 'static,

        requires
            forall|log: Option<&ThrottleLog>| #[trigger] interval_fn.requires((log,)),
        ensures
            interval.log_size() == log_size,
            forall|log: Option<&ThrottleLog>, d: u128|
                interval.produces(log, d) == interval_fn.ensures((log,), d),
    {
        let w = FromLogFn { f: interval_fn };
        proof {
            use_type_invariant(&w);
        }
        let boxed: Box<dyn IntervalFn> = Box::new(w);
        let shared = Arc::new(boxed);
        let interval = Interval { interval_fn: shared, log_size };
        proof {
            assert forall|log: Option<&ThrottleLog>, d: u128|
                interval.produces(log, d) == interval_fn.ensures((log,), d) by {
                assert((*boxed).produces(log, d) == w.produces(log, d));
                assert((**shared).produces(log, d) == (*boxed).produces(log, d));
                assert(interval.produces(log, d) == (**shared).produces(log, d));
            }
        }
        interval
    }

    /// An interval computed by `f` for every operation, without a log.
    pub fn from_fn<F>(f: F) -> (interval: Interval) where F: Fn() -> u128 + Send + Sync + 'static
        requires
            f.requires(()),
        ensures
            interval.log_size() == 0,
            forall|log: Option<&ThrottleLog>, d: u128| interval.produces(log, d) == f.ensures((), d),
    {
        let w = FromFn { f };
        let boxed: Box<dyn IntervalFn> = Box::new(w);
        let shared = Arc::new(boxed);
        let interval = Interval { interval_fn: shared, log_size: 0 };
        proof {
            assert forall|log: Option<&ThrottleLog>, d: u128|
                interval.produces(log, d) == f.ensures((), d) by {
                assert((*boxed).produces(log, d) == w.produces(log, d));
                assert((**shared).produces(log, d) == (*boxed).produces(log, d));
                assert(interval.produces(log, d) == (**shared).produces(log, d));
            }
        }
        interval
    }

    /// Apply post-process to generated interval.
    ///
    /// This method are useful when user want to do some tweaks with
    /// pre-built interval algorithm.
    pub fn modify<F>(self, f: F) -> (interval: Interval) where
        F: Fn(u128) -> u128 + Send + Sync + 'static,

        requires
            forall|d: u128| #[trigger] f.requires((d,)),
        ensures
            interval.log_size() == self.log_size(),
            forall|log: Option<&ThrottleLog>, d: u128|
                interval.produces(log, d) == composes(
                    |l: Option<&ThrottleLog>, e: u128| self.produces(l, e),
                    f,
                    log,
                    d,
                ),
    {
        let orig_fn = self.interval_fn;
        let w = Modified { inner: orig_fn, post: f };
        let boxed: Box<dyn IntervalFn> = Box::new(w);
        let shared = Arc::new(boxed);
        let interval = Interval { interval_fn: shared, log_size: self.log_size };
        proof {
            assert forall|log: Option<&ThrottleLog>, d: u128|
                interval.produces(log, d) == composes(
                    |l: Option<&ThrottleLog>, e: u128| self.produces(l, e),
                    f,
                    log,
                    d,
                ) by {
                assert((*boxed).produces(log, d) == w.produces(log, d));
                assert((**shared).produces(log, d) == (*boxed).produces(log, d));
                assert(interval.produces(log, d) == (**shared).produces(log, d));
                let a = |l: Option<&ThrottleLog>, e: u128| (**w.inner).produces(l, e);
                let b = |l: Option<&ThrottleLog>, e: u128| self.produces(l, e);
                assert(a =~= b);
            }
        }
        interval
    }

    /// The next interval, in nanoseconds, computed from `log`.
    pub fn next_interval(&self, log: Option<&ThrottleLog>) -> (interval: u128)
        ensures
            self.produces(log, interval),
    {
        self.interval_fn.next_interval(log)
    }
}

impl Clone for Interval {
    fn clone(&self) -> (copy: Self)
        ensures
            copy.log_size() == self.log_size(),
            forall|log: Option<&ThrottleLog>, d: u128| copy.produces(log, d) == self.produces(log, d),
    {
        Interval { interval_fn: share(&self.interval_fn), log_size: self.log_size }
    }
}

impl From<u128> for Interval {
    /// A fixed interval of `nanos` nanoseconds.
    fn from(nanos: u128) -> (interval: Self)
        ensures
            interval.log_size() == 0,
            forall|log: Option<&ThrottleLog>, d: u128| interval.produces(log, d) == (d == nanos),
    {
        let w = Fixed { nanos };
        let boxed: Box<dyn IntervalFn> = Box::new(w);
        let shared = Arc::new(boxed);
        let interval = Interval { interval_fn: shared, log_size: 0 };
        proof {
            assert forall|log: Option<&ThrottleLog>, d: u128|
                interval.produces(log, d) == (d == nanos) by {
                assert((*boxed).produces(log, d) == w.produces(log, d));
                assert((**shared).produces(log, d) == (*boxed).produces(log, d));
                assert(interval.produces(log, d) == (**shared).produces(log, d));
            }
        }
        interval
    }
}

impl vstd::std_specs::convert::FromSpecImpl<u128> for Interval {
    /// An interval holds a function, which no spec value describes: what the
    /// conversion gives is stated by the `ensures` of `from` below.
    open spec fn obeys_from_spec() -> bool {
        false
    }

    open spec fn from_spec(nanos: u128) -> Interval {
        arbitrary()
    }
}

impl Default for Interval {
    /// No delay.
    fn default() -> (interval: Self)
        ensures
            interval.log_size() == 0,
            forall|log: Option<&ThrottleLog>, d: u128| interval.produces(log, d) == (d == 0),
    {
        let w = Fixed { nanos: 0 };
        let boxed: Box<dyn IntervalFn> = Box::new(w);
        let shared = Arc::new(boxed);
        let interval = Interval { interval_fn: shared, log_size: 0 };
        proof {
            assert forall|log: Option<&ThrottleLog>, d: u128| interval.produces(log, d) == (d == 0) by {
                assert((*boxed).produces(log, d) == w.produces(log, d));
                assert((**shared).produces(log, d) == (*boxed).produces(log, d));
                assert(interval.produces(log, d) == (**shared).produces(log, d));
            }
        }
        interval
    }
}

} // verus!
