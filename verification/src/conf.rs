//! The limiter core: queue sizing, admission, and the completion-driven
//! control loop that adjusts the concurrency limit.
//!
//! Latencies and timestamps are integer nanoseconds measured on one monotonic
//! clock. The mathematical state of a gate is a [`ConfView`]; every mutating
//! operation's contract gives the new view as a function of the old one.

use vstd::prelude::*;

use crate::ewma::{ewma_next, lemma_ewma_next_bounds, EwmaParam};
use crate::pool::Pool;

verus! {

/// Mathematical state of one gate.
#[verifier::ext_equal]
pub struct ConfView {
    /// Target latency in nanoseconds.
    pub target: int,
    /// Weight of the newest sample: `ewma_num / ewma_den`.
    pub ewma_num: int,
    pub ewma_den: int,
    /// Moving average over all completion latencies.
    pub moving_average: int,
    /// Size of the concurrency pool.
    pub concurrency: int,
    /// Size of the queue pool.
    pub queue_capacity: int,
    /// Time of the last growth of the concurrency pool (or of creation).
    pub last_increment: int,
    /// Time of the last shrink of the concurrency pool (or of creation).
    pub last_decrement: int,
    /// Moving average over completions sampled while the concurrency pool was
    /// fully exhausted.
    pub average_latency_at_capacity: int,
    /// Free permits of the concurrency pool.
    pub conc_available: int,
    /// Free permits of the queue pool.
    pub queue_available: int,
}

/// The state invariant: both limits stay at least one, the moving averages
/// are non-negative, and neither pool has more outstanding permits than its
/// size (equivalently, free permits lie between zero and the size).
pub open spec fn inv(v: ConfView) -> bool {
    &&& 1 <= v.target
    &&& 0 < v.ewma_num < v.ewma_den
    &&& 0 <= v.moving_average
    &&& 0 <= v.average_latency_at_capacity
    &&& 1 <= v.concurrency
    &&& 1 <= v.queue_capacity
    &&& 0 <= v.conc_available <= v.concurrency
    &&& 0 <= v.queue_available <= v.queue_capacity
}

/// The state of a freshly constructed gate: both limits at one, both pools
/// full, both averages seeded with the target, both cooldown marks at the
/// creation time.
pub open spec fn initial(ewma_num: int, ewma_den: int, target: int, now: int) -> ConfView {
    ConfView {
        target,
        ewma_num,
        ewma_den,
        moving_average: target,
        concurrency: 1,
        queue_capacity: 1,
        last_increment: now,
        last_decrement: now,
        average_latency_at_capacity: target,
        conc_available: 1,
        queue_available: 1,
    }
}

/// Desired queue size: `max(1, floor(concurrency * (target / avg - 1)))`,
/// saturating at `usize::MAX`. When the saturated-latency average is at or
/// above the target there is no room for queueing and the desired size is the
/// floor of one; a zero average (reachable only through rounding) saturates.
pub open spec fn desired_queue_capacity(concurrency: int, target: int, avg: int) -> int {
    if avg <= 0 {
        usize::MAX as int
    } else if target <= avg {
        1
    } else {
        let q = concurrency * (target - avg) / avg;
        if q <= 1 {
            1
        } else if q >= usize::MAX as int {
            usize::MAX as int
        } else {
            q
        }
    }
}

/// Whether the queue sizer must shrink the queue pool but cannot: fewer free
/// queue permits exist than the shrink needs, so the admission attempt is
/// rejected outright.
pub open spec fn queue_shrink_blocked(v: ConfView) -> bool {
    let d = desired_queue_capacity(v.concurrency, v.target, v.average_latency_at_capacity);
    d < v.queue_capacity && v.queue_available < v.queue_capacity - d
}

/// The state after the queue sizer has resized the queue pool to the desired
/// size (defined when the shrink is not blocked).
pub open spec fn resized(v: ConfView) -> ConfView {
    let d = desired_queue_capacity(v.concurrency, v.target, v.average_latency_at_capacity);
    ConfView {
        queue_capacity: d,
        queue_available: v.queue_available + d - v.queue_capacity,
        ..v
    }
}

/// Outcome of one admission attempt.
#[derive(Clone, Copy, Debug, PartialEq, Eq, Structural)]
pub enum Admission {
    /// A concurrency permit was free: the caller holds it and may proceed.
    Admitted,
    /// The caller holds a queue permit and must wait for a concurrency permit
    /// to free, then retry through [`LoadShedConf::admit_waiting`].
    MustWait,
    /// The request is shed: either the queue sizer could not shrink the queue
    /// pool, or no queue permit was free.
    Rejected,
}

/// What one admission attempt returns.
pub open spec fn start_result(v: ConfView) -> Admission {
    if queue_shrink_blocked(v) {
        Admission::Rejected
    } else {
        let r = resized(v);
        if r.queue_available <= 0 {
            Admission::Rejected
        } else if r.conc_available <= 0 {
            Admission::MustWait
        } else {
            Admission::Admitted
        }
    }
}

/// The state after one admission attempt. A blocked shrink leaves the state
/// untouched; a rejection for want of a queue permit keeps the resize; a
/// waiting caller holds one queue permit; an admitted caller holds one
/// concurrency permit and its queue permit is already back in the pool.
pub open spec fn start_next(v: ConfView) -> ConfView {
    if queue_shrink_blocked(v) {
        v
    } else {
        let r = resized(v);
        if r.queue_available <= 0 {
            r
        } else if r.conc_available <= 0 {
            ConfView { queue_available: r.queue_available - 1, ..r }
        } else {
            ConfView { conc_available: r.conc_available - 1, ..r }
        }
    }
}

/// The state after a waiting caller retries: with a concurrency permit free
/// it trades its queue permit for one; otherwise nothing changes.
pub open spec fn admit_waiting_next(v: ConfView) -> ConfView {
    if v.conc_available >= 1 {
        ConfView {
            conc_available: v.conc_available - 1,
            queue_available: v.queue_available + 1,
            ..v
        }
    } else {
        v
    }
}

/// The state after a waiting caller abandons its request: its queue permit
/// returns.
pub open spec fn abandon_wait_next(v: ConfView) -> ConfView {
    ConfView { queue_available: v.queue_available + 1, ..v }
}

/// The state after a cancelled call returns its concurrency permit without a
/// latency sample.
pub open spec fn release_unsampled_next(v: ConfView) -> ConfView {
    ConfView { conc_available: v.conc_available + 1, ..v }
}

/// Whether the concurrency pool has zero free permits, read before the
/// completing call's own permit is returned.
pub open spec fn saturated_at(v: ConfView) -> bool {
    v.conc_available == 0
}

/// The overall moving average after folding in a completion.
pub open spec fn stop_ma(v: ConfView, elapsed: int) -> int {
    ewma_next(v.moving_average, elapsed, v.ewma_num, v.ewma_den)
}

/// Whether a completion grows the concurrency pool: it was sampled at
/// saturation, the updated average is below the target, and the increase
/// cooldown has passed.
pub open spec fn stop_grows(v: ConfView, elapsed: int, now: int) -> bool {
    &&& saturated_at(v)
    &&& stop_ma(v, elapsed) < v.target
    &&& now - v.last_increment > v.target
}

/// Whether a completion shrinks the concurrency pool instead: the updated
/// average is above the target, the decrease cooldown has passed, and the
/// limit is still above one. The completing call's own permit is forgotten.
pub open spec fn stop_shrinks(v: ConfView, elapsed: int, now: int) -> bool {
    &&& !stop_grows(v, elapsed, now)
    &&& stop_ma(v, elapsed) > v.target
    &&& now - v.last_decrement > v.target
    &&& v.concurrency > 1
}

/// The state after a completion with service time `elapsed` is recorded at
/// time `now`, while the completing call still holds one concurrency permit.
/// The saturated-latency average moves only when the sample was taken at
/// saturation. On growth the pool gains one fresh permit and the call's own
/// permit returns, so two permits free; on shrink the call's own permit is
/// forgotten and none frees; otherwise the call's own permit returns.
pub open spec fn stop_next(v: ConfView, elapsed: int, now: int) -> ConfView {
    let ma = stop_ma(v, elapsed);
    let avg = if saturated_at(v) {
        ewma_next(v.average_latency_at_capacity, elapsed, v.ewma_num, v.ewma_den)
    } else {
        v.average_latency_at_capacity
    };
    if stop_grows(v, elapsed, now) {
        ConfView {
            moving_average: ma,
            average_latency_at_capacity: avg,
            concurrency: v.concurrency + 1,
            conc_available: v.conc_available + 2,
            last_increment: now,
            ..v
        }
    } else if stop_shrinks(v, elapsed, now) {
        ConfView {
            moving_average: ma,
            average_latency_at_capacity: avg,
            concurrency: v.concurrency - 1,
            last_decrement: now,
            ..v
        }
    } else {
        ConfView {
            moving_average: ma,
            average_latency_at_capacity: avg,
            conc_available: v.conc_available + 1,
            ..v
        }
    }
}

/// Mutable statistics of one gate.
#[derive(Clone, Debug)]
pub struct ConfStats {
    /// Nanoseconds; moving average over all completion latencies.
    pub moving_average: u64,
    /// Size of the concurrency pool.
    pub concurrency: u32,
    /// Controls how often concurrency is decreased.
    pub last_decrement: u64,
    /// Controls how often concurrency is increased.
    pub last_increment: u64,
    /// Current size of the queue pool.
    pub queue_capacity: usize,
    /// Moving average over completions sampled while the concurrency pool had
    /// zero free permits.
    pub average_latency_at_capacity: u64,
}

/// One gate's state: configuration, both permit pools, and the statistics
/// that drive the control loop.
#[derive(Clone, Debug)]
pub struct LoadShedConf {
    /// Target latency in nanoseconds.
    pub target: u64,
    pub ewma: EwmaParam,
    /// Bounds in-flight calls to the inner service.
    pub concurrency_pool: Pool,
    /// Bounds callers simultaneously waiting for a concurrency permit.
    pub queue_pool: Pool,
    pub stats: ConfStats,
}

impl View for LoadShedConf {
    type V = ConfView;

    open spec fn view(&self) -> ConfView {
        ConfView {
            target: self.target as int,
            ewma_num: self.ewma.num as int,
            ewma_den: self.ewma.den as int,
            moving_average: self.stats.moving_average as int,
            concurrency: self.stats.concurrency as int,
            queue_capacity: self.stats.queue_capacity as int,
            last_increment: self.stats.last_increment as int,
            last_decrement: self.stats.last_decrement as int,
            average_latency_at_capacity: self.stats.average_latency_at_capacity as int,
            conc_available: self.concurrency_pool.available as int,
            queue_available: self.queue_pool.available as int,
        }
    }
}

impl LoadShedConf {
    /// Well-formedness: the view satisfies the invariant and each pool's size
    /// agrees with the statistics.
    pub open spec fn wf(&self) -> bool {
        &&& inv(self@)
        &&& self.concurrency_pool.wf()
        &&& self.queue_pool.wf()
        &&& self.concurrency_pool.capacity as int == self.stats.concurrency as int
        &&& self.queue_pool.capacity as int == self.stats.queue_capacity as int
    }

    /// A fresh gate, created at time `now` on the caller's monotonic clock.
    pub fn new(ewma: EwmaParam, target: u64, now: u64) -> (r: LoadShedConf)
        requires
            ewma.wf(),
            1 <= target,
        ensures
            r.wf(),
            r@ == initial(ewma.num as int, ewma.den as int, target as int, now as int),
    {
        let r = LoadShedConf {
            target,
            ewma,
            concurrency_pool: Pool::new(1),
            queue_pool: Pool::new(1),
            stats: ConfStats {
                moving_average: target,
                concurrency: 1,
                last_decrement: now,
                last_increment: now,
                queue_capacity: 1,
                average_latency_at_capacity: target,
            },
        };
        proof {
            assert(r@ =~= initial(ewma.num as int, ewma.den as int, target as int, now as int));
        }
        r
    }

    /// The queue size the sizer aims for in the current state.
    pub fn desired_queue(&self) -> (r: usize)
        ensures
            r as int == desired_queue_capacity(
                self.stats.concurrency as int,
                self.target as int,
                self.stats.average_latency_at_capacity as int,
            ),
            1 <= r,
    {
        compute_queue_capacity(self.stats.concurrency, self.target, self.stats.average_latency_at_capacity)
    }

    /// One admission attempt: resize the queue pool to the desired size, take
    /// a queue permit, and try for a concurrency permit, all without waiting.
    /// The returned outcome says whether the caller was admitted, must wait
    /// for a concurrency permit, or was shed.
    pub fn start(&mut self) -> (r: Admission)
        requires
            old(self).wf(),
        ensures
            final(self).wf(),
            r == start_result(old(self)@),
            final(self)@ == start_next(old(self)@),
    {
        let desired = self.desired_queue();
        if desired < self.stats.queue_capacity {
            let deficit = self.stats.queue_capacity - desired;
            if !self.queue_pool.try_acquire_many(deficit) {
                proof {
                    assert(self@ =~= start_next(old(self)@));
                }
                return Admission::Rejected;
            }
            self.queue_pool.forget_outstanding(deficit);
        } else if desired > self.stats.queue_capacity {
            self.queue_pool.add_permits(desired - self.stats.queue_capacity);
        }
        self.stats.queue_capacity = desired;
        proof {
            assert(self@ =~= resized(old(self)@));
        }
        if !self.queue_pool.try_acquire() {
            proof {
                assert(self@ =~= start_next(old(self)@));
            }
            return Admission::Rejected;
        }
        if !self.concurrency_pool.try_acquire() {
            proof {
                assert(self@ =~= start_next(old(self)@));
            }
            return Admission::MustWait;
        }
        self.queue_pool.release();
        proof {
            assert(self@ =~= start_next(old(self)@));
        }
        Admission::Admitted
    }

    /// A waiting caller (one that holds a queue permit after `start` returned
    /// `MustWait`) retries once capacity may have freed. On success the queue
    /// permit returns to its pool and the caller holds a concurrency permit.
    pub fn admit_waiting(&mut self) -> (r: bool)
        requires
            old(self).wf(),
            old(self)@.queue_available < old(self)@.queue_capacity,
        ensures
            final(self).wf(),
            r == (old(self)@.conc_available >= 1),
            final(self)@ == admit_waiting_next(old(self)@),
    {
        if self.concurrency_pool.try_acquire() {
            self.queue_pool.release();
            proof {
                assert(self@ =~= admit_waiting_next(old(self)@));
            }
            true
        } else {
            false
        }
    }

    /// A waiting caller that abandons its request returns its queue permit.
    pub fn abandon_wait(&mut self)
        requires
            old(self).wf(),
            old(self)@.queue_available < old(self)@.queue_capacity,
        ensures
            final(self).wf(),
            final(self)@ == abandon_wait_next(old(self)@),
    {
        self.queue_pool.release();
        proof {
            assert(self@ =~= abandon_wait_next(old(self)@));
        }
    }

    /// A call cancelled after admission returns its concurrency permit
    /// without a latency sample: the control loop does not see it.
    pub fn release_unsampled(&mut self)
        requires
            old(self).wf(),
            old(self)@.conc_available < old(self)@.concurrency,
        ensures
            final(self).wf(),
            final(self)@ == release_unsampled_next(old(self)@),
    {
        self.concurrency_pool.release();
        proof {
            assert(self@ =~= release_unsampled_next(old(self)@));
        }
    }

    /// Records a completion whose service took `elapsed` nanoseconds, at time
    /// `now`: folds the sample into the moving average, grows or shrinks the
    /// concurrency pool as the control loop decides, updates the
    /// saturated-latency average when the sample was taken at saturation, and
    /// returns (or forgets) the caller's concurrency permit.
    pub fn stop(&mut self, elapsed: u64, now: u64)
        requires
            old(self).wf(),
            old(self)@.conc_available < old(self)@.concurrency,
            old(self)@.last_increment <= now,
            old(self)@.last_decrement <= now,
            old(self).stats.concurrency < u32::MAX,
        ensures
            final(self).wf(),
            final(self)@ == stop_next(old(self)@, elapsed as int, now as int),
    {
        let ma = self.ewma.update(self.stats.moving_average, elapsed);
        self.stats.moving_average = ma;
        let saturated = self.concurrency_pool.available == 0;
        let mut forgotten = false;
        if saturated && ma < self.target && now - self.stats.last_increment > self.target {
            self.concurrency_pool.add_permits(1);
            self.stats.concurrency = self.stats.concurrency + 1;
            self.stats.last_increment = now;
        } else if ma > self.target
            && now - self.stats.last_decrement > self.target
            && self.stats.concurrency > 1
        {
            self.concurrency_pool.forget_outstanding(1);
            self.stats.concurrency = self.stats.concurrency - 1;
            self.stats.last_decrement = now;
            forgotten = true;
        }
        if saturated {
            self.stats.average_latency_at_capacity =
                self.ewma.update(self.stats.average_latency_at_capacity, elapsed);
        }
        if !forgotten {
            self.concurrency_pool.release();
        }
        proof {
            lemma_ewma_next_bounds(
                old(self)@.moving_average,
                elapsed as int,
                old(self)@.ewma_num,
                old(self)@.ewma_den,
                u64::MAX as int,
            );
            lemma_ewma_next_bounds(
                old(self)@.average_latency_at_capacity,
                elapsed as int,
                old(self)@.ewma_num,
                old(self)@.ewma_den,
                u64::MAX as int,
            );
            assert(self@ =~= stop_next(old(self)@, elapsed as int, now as int));
        }
    }
}

/// The queue size the sizer aims for:
/// `max(1, floor(concurrency * (target / avg - 1)))`, saturating at
/// `usize::MAX`.
pub fn compute_queue_capacity(concurrency: u32, target: u64, avg: u64) -> (r: usize)
    ensures
        r as int == desired_queue_capacity(concurrency as int, target as int, avg as int),
        1 <= r,
{
    if avg == 0 {
        usize::MAX
    } else if target <= avg {
        1
    } else {
        let head = concurrency as u128;
        let room = (target - avg) as u128;
        proof {
            assert(head * room <= 0xffff_ffff * 0xffff_ffff_ffff_ffff)
                by (nonlinear_arith)
                requires
                    0 <= head <= 0xffff_ffff,
                    0 <= room <= 0xffff_ffff_ffff_ffff,
            ;
        }
        let q = head * room / (avg as u128);
        if q <= 1 {
            1
        } else if q >= usize::MAX as u128 {
            usize::MAX
        } else {
            q as usize
        }
    }
}

} // verus!
