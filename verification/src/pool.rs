//! Pools of throttles: one throttle per resource id, all configured alike.
use vstd::prelude::*;
use std::marker::PhantomData;

use crate::interval::Interval;
use crate::throttle::{valid_concurrent, Throttle, ThrottleBuilder};
use crate::log::{LogRecord, ThrottleLog};

verus! {

/// A [`Throttle`] pool to restrict the resource access speed for multiple
/// resources: a throttle is created for an id the first time it is used,
/// with the pool's configuration.
///
/// This holds the pool's configuration; the table from ids to throttles
/// belongs to the pool's owner, which asks [`ThrottlePool::new_throttle`]
/// for the throttle of each new id.
pub struct ThrottlePool<K> {
    concurrent: u32,
    interval: Interval,
    phantom: PhantomData<K>,
}

impl<K> ThrottlePool<K> {
    /// How many operations may run at once in each throttle.
    pub closed spec fn spec_concurrent(&self) -> u32 {
        self.concurrent
    }

    /// The interval configuration of each throttle.
    pub closed spec fn spec_interval(&self) -> Interval {
        self.interval
    }

    /// The configuration builds a throttle.
    #[verifier::type_invariant]
    closed spec fn well_formed(self) -> bool {
        valid_concurrent(self.concurrent)
    }

    /// Start to create a `ThrottlePool` by [`ThrottlePoolBuilder`].
    pub fn builder() -> (builder: ThrottlePoolBuilder<K>)
        ensures
            builder.spec_interval().log_size() == 0,
            forall|log: Option<&ThrottleLog>, d: u128|
                #[trigger] builder.spec_interval().produces(log, d) == (d == 0),
            builder.spec_concurrent() == 1,
    {
        ThrottlePoolBuilder::default()
    }

    /// How many operations may run at once in each throttle.
    pub fn concurrent(&self) -> (concurrent: u32)
        ensures
            concurrent == self.spec_concurrent(),
            valid_concurrent(concurrent),
    {
        proof {
            use_type_invariant(self);
        }
        self.concurrent
    }

    /// The throttle for an id that is used for the first time: a fresh
    /// throttle with the pool's configuration. This never fails, since the
    /// configuration was checked when the pool was built.
    pub fn new_throttle(&self) -> (throttle: Throttle)
        ensures
            throttle.spec_concurrent() == self.spec_concurrent(),
            throttle.spec_interval().log_size() == self.spec_interval().log_size(),
            forall|log: Option<&ThrottleLog>, d: u128|
                #[trigger] throttle.spec_interval().produces(log, d) == self.spec_interval().produces(log, d),
            throttle.allowed_future() == 0,
            throttle.spec_log() == (if self.spec_interval().log_size() == 0 {
                None
            } else {
                Some(Seq::<LogRecord>::empty())
            }),
    {
        proof {
            use_type_invariant(self);
        }
        let mut builder = Throttle::builder();
        builder.interval(self.interval.clone()).concurrent(self.concurrent);
        // `concurrent` already verified when the pool was created
        builder.build().unwrap()
    }
}

/// Use to build a [`ThrottlePool`].
///
/// Created by [`ThrottlePool::builder()`] API.
pub struct ThrottlePoolBuilder<K> {
    concurrent: u32,
    interval: Interval,
    phantom: PhantomData<K>,
}

impl<K> Default for ThrottlePoolBuilder<K> {
    /// No delay, one operation at a time.
    fn default() -> (builder: Self)
        ensures
            builder.spec_interval().log_size() == 0,
            forall|log: Option<&ThrottleLog>, d: u128|
                #[trigger] builder.spec_interval().produces(log, d) == (d == 0),
            builder.spec_concurrent() == 1,
    {
        ThrottlePoolBuilder { interval: Interval::default(), concurrent: 1, phantom: PhantomData }
    }
}

impl<K> ThrottlePoolBuilder<K> {
    /// The interval configuration of the pool's throttles.
    pub closed spec fn spec_interval(&self) -> Interval {
        self.interval
    }

    /// The concurrency of the pool's throttles.
    pub closed spec fn spec_concurrent(&self) -> u32 {
        self.concurrent
    }

    /// Set interval of throttles in this pool.
    ///
    /// The default value is no delay.
    pub fn interval<A>(&mut self, a: A) -> (builder: &mut Self) where A: Into<Interval>
        ensures
            builder.spec_concurrent() == old(self).spec_concurrent(),
            call_ensures(A::into, (a,), builder.spec_interval()),
            *final(self) == *final(builder),
    {
        self.interval = a.into();
        self
    }

    /// Set concurrent, default value is `1`.
    pub fn concurrent(&mut self, concurrent: u32) -> (builder: &mut Self)
        ensures
            builder.spec_concurrent() == concurrent,
            builder.spec_interval() == old(self).spec_interval(),
            *final(self) == *final(builder),
    {
        self.concurrent = concurrent;
        self
    }

    /// Create a new [`ThrottlePool`] with current configuration.
    ///
    /// Return `None` if `concurrent` == `0` or larger than `isize::MAX`.
    pub fn build(&self) -> (pool: Option<ThrottlePool<K>>)
        ensures
            pool is Some <==> valid_concurrent(self.spec_concurrent()),
            pool matches Some(p) ==> {
                &&& p.spec_concurrent() == self.spec_concurrent()
                &&& p.spec_interval().log_size() == self.spec_interval().log_size()
                &&& forall|log: Option<&ThrottleLog>, d: u128|
                    #[trigger] p.spec_interval().produces(log, d) == self.spec_interval().produces(log, d)
            },
    {
        // check the configurations can initialize throttle properly.
        let mut builder = Throttle::builder();
        builder.interval(self.interval.clone()).concurrent(self.concurrent);
        if builder.build().is_none() {
            return None;
        }
        Some(
            ThrottlePool {
                interval: self.interval.clone(),
                concurrent: self.concurrent,
                phantom: PhantomData,
            },
        )
    }
}

} // verus!
