//! The limiter paired with the wrapped service value.
//!
//! The asynchronous call shape of the wrapped service — readiness polling,
//! futures, and the single suspension point while waiting for a concurrency
//! permit — belongs to the runtime that embeds the limiter; this type carries
//! the verified limiter state next to the inner service and fixes its
//! starting state.

use vstd::prelude::*;

use crate::conf::{initial, LoadShedConf};
use crate::ewma::EwmaParam;

verus! {

/// A load-shedding gate around an inner service.
#[derive(Clone, Debug)]
pub struct LoadShed<Inner> {
    pub conf: LoadShedConf,
    pub inner: Inner,
}

impl<Inner> LoadShed<Inner> {
    /// Wraps `inner` with a fresh gate created at time `now` on the caller's
    /// monotonic clock, targeting `target` nanoseconds of service latency
    /// and weighting the newest latency sample by `ewma`.
    pub fn new(inner: Inner, ewma: EwmaParam, target: u64, now: u64) -> (r: LoadShed<Inner>)
        requires
            ewma.wf(),
            1 <= target,
        ensures
            r.conf.wf(),
            r.conf@ == initial(ewma.num as int, ewma.den as int, target as int, now as int),
            r.inner == inner,
    {
        LoadShed { conf: LoadShedConf::new(ewma, target, now), inner }
    }
}

} // verus!
