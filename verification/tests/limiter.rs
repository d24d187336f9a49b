use underload::conf::{compute_queue_capacity, ConfStats};
use underload::{Admission, EwmaParam, LoadShed, LoadShedConf, LoadShedError, Pool};

fn fresh(target: u64) -> LoadShedConf {
    LoadShedConf::new(EwmaParam::new(1, 2), target, 0)
}

#[test]
fn fresh_gate_initial_state() {
    let conf = fresh(1000);
    assert_eq!(conf.stats.concurrency, 1);
    assert_eq!(conf.stats.queue_capacity, 1);
    assert_eq!(conf.stats.moving_average, 1000);
    assert_eq!(conf.stats.average_latency_at_capacity, 1000);
    assert_eq!(conf.stats.last_increment, 0);
    assert_eq!(conf.stats.last_decrement, 0);
    assert_eq!(conf.concurrency_pool.capacity, 1);
    assert_eq!(conf.concurrency_pool.available, 1);
    assert_eq!(conf.queue_pool.capacity, 1);
    assert_eq!(conf.queue_pool.available, 1);
}

#[test]
fn single_fast_saturated_completion_grows() {
    // target 1.0s, newest-sample weight 1/2, one request completing in 0.4s
    // while holding the sole concurrency permit, past the increase cooldown.
    let mut conf = fresh(1_000_000_000);
    assert_eq!(conf.start(), Admission::Admitted);
    assert_eq!(conf.concurrency_pool.available, 0);
    conf.stop(400_000_000, 1_500_000_000);
    assert_eq!(conf.stats.moving_average, 700_000_000);
    assert_eq!(conf.stats.concurrency, 2);
    assert_eq!(conf.stats.average_latency_at_capacity, 700_000_000);
    assert_eq!(conf.stats.last_increment, 1_500_000_000);
    assert_eq!(conf.concurrency_pool.capacity, 2);
    assert_eq!(conf.concurrency_pool.available, 2);
}

#[test]
fn full_queue_rejects_immediately() {
    // queue capacity 1; one caller waits with the queue permit; the next
    // admission attempt finds no free queue permit and is shed.
    let mut conf = fresh(1000);
    assert_eq!(conf.start(), Admission::Admitted);
    assert_eq!(conf.start(), Admission::MustWait);
    assert_eq!(conf.queue_pool.available, 0);
    assert_eq!(conf.start(), Admission::Rejected);
}

#[test]
fn sustained_overload_shrinks_once_per_cooldown() {
    let mut conf = fresh(1000);
    // Grow to concurrency 3 with fast saturated completions.
    assert_eq!(conf.start(), Admission::Admitted);
    conf.stop(500, 1500);
    assert_eq!(conf.stats.concurrency, 2);
    assert_eq!(conf.start(), Admission::Admitted);
    assert_eq!(conf.start(), Admission::Admitted);
    conf.stop(500, 3000);
    assert_eq!(conf.stats.concurrency, 3);
    conf.stop(500, 3100);
    assert_eq!(conf.stats.concurrency, 3);
    assert_eq!(conf.concurrency_pool.available, 3);
    // Sustained completions far above target: one shrink per elapsed
    // cooldown interval, never below 1.
    assert_eq!(conf.start(), Admission::Admitted);
    conf.stop(10_000, 4500);
    assert_eq!(conf.stats.concurrency, 2);
    assert_eq!(conf.stats.last_decrement, 4500);
    assert_eq!(conf.start(), Admission::Admitted);
    conf.stop(10_000, 5000); // within the decrement cooldown
    assert_eq!(conf.stats.concurrency, 2);
    assert_eq!(conf.start(), Admission::Admitted);
    conf.stop(10_000, 6000); // past the cooldown
    assert_eq!(conf.stats.concurrency, 1);
    assert_eq!(conf.start(), Admission::Admitted);
    conf.stop(10_000, 8000); // overload persists; the floor of 1 holds
    assert_eq!(conf.stats.concurrency, 1);
    assert_eq!(conf.concurrency_pool.capacity, 1);
}

#[test]
fn queue_sizer_leaves_queue_alone_at_target() {
    // Bring the limiter to concurrency 2 with the saturated-latency average
    // exactly at the target.
    let mut conf = fresh(1000);
    assert_eq!(conf.start(), Admission::Admitted);
    conf.stop(500, 1500);
    assert_eq!(conf.stats.concurrency, 2);
    assert_eq!(conf.stats.average_latency_at_capacity, 750);
    assert_eq!(conf.start(), Admission::Admitted);
    assert_eq!(conf.start(), Admission::Admitted);
    // ewma(750, 1250) = 1000 for both averages; at the target neither
    // adjustment fires.
    conf.stop(1250, 2000);
    assert_eq!(conf.stats.concurrency, 2);
    assert_eq!(conf.stats.average_latency_at_capacity, 1000);
    // desired = max(1, floor(2 * (1000/1000 - 1))) = 1: unchanged.
    assert_eq!(compute_queue_capacity(2, 1000, 1000), 1);
    assert_eq!(conf.start(), Admission::Admitted);
    assert_eq!(conf.stats.queue_capacity, 1);
    assert_eq!(conf.queue_pool.capacity, 1);
}

#[test]
fn increase_cooldown_blocks_fast_second_growth() {
    let mut conf = fresh(1000);
    assert_eq!(conf.start(), Admission::Admitted);
    conf.stop(500, 1500);
    assert_eq!(conf.stats.concurrency, 2);
    // Saturated fast completion within the cooldown: no growth.
    assert_eq!(conf.start(), Admission::Admitted);
    assert_eq!(conf.start(), Admission::Admitted);
    conf.stop(100, 2000);
    assert_eq!(conf.stats.concurrency, 2);
    // Saturated fast completion past the cooldown: growth resumes.
    assert_eq!(conf.start(), Admission::Admitted);
    conf.stop(100, 2700);
    assert_eq!(conf.stats.concurrency, 3);
}

#[test]
fn queue_grows_when_saturated_latency_is_low() {
    let mut conf = LoadShedConf {
        target: 1000,
        ewma: EwmaParam::new(1, 2),
        concurrency_pool: Pool { capacity: 1, available: 1 },
        queue_pool: Pool { capacity: 1, available: 1 },
        stats: ConfStats {
            moving_average: 250,
            concurrency: 1,
            last_decrement: 0,
            last_increment: 0,
            queue_capacity: 1,
            average_latency_at_capacity: 250,
        },
    };
    // desired = max(1, floor(1 * (1000/250 - 1))) = 3.
    assert_eq!(conf.start(), Admission::Admitted);
    assert_eq!(conf.stats.queue_capacity, 3);
    assert_eq!(conf.queue_pool.capacity, 3);
    assert_eq!(conf.queue_pool.available, 3);
}

#[test]
fn blocked_queue_shrink_rejects_and_changes_nothing() {
    // The sizer wants to shrink the queue from 2 to 1, but both queue
    // permits are held by waiting callers: the attempt is shed outright.
    let mut conf = LoadShedConf {
        target: 1000,
        ewma: EwmaParam::new(1, 2),
        concurrency_pool: Pool { capacity: 1, available: 0 },
        queue_pool: Pool { capacity: 2, available: 0 },
        stats: ConfStats {
            moving_average: 2000,
            concurrency: 1,
            last_decrement: 0,
            last_increment: 0,
            queue_capacity: 2,
            average_latency_at_capacity: 2000,
        },
    };
    assert_eq!(conf.start(), Admission::Rejected);
    assert_eq!(conf.stats.queue_capacity, 2);
    assert_eq!(conf.queue_pool.capacity, 2);
    assert_eq!(conf.queue_pool.available, 0);
}

#[test]
fn waiting_caller_admitted_after_a_release() {
    let mut conf = fresh(1000);
    assert_eq!(conf.start(), Admission::Admitted);
    assert_eq!(conf.start(), Admission::MustWait);
    // The waiter holds the queue permit; nothing is free yet.
    assert!(!conf.admit_waiting());
    // The first caller completes within the increase cooldown: its permit
    // returns and the waiter gets through.
    conf.stop(500, 500);
    assert_eq!(conf.stats.concurrency, 1);
    assert!(conf.admit_waiting());
    assert_eq!(conf.concurrency_pool.available, 0);
    assert_eq!(conf.queue_pool.available, 1);
}

#[test]
fn abandoned_wait_returns_queue_permit() {
    let mut conf = fresh(1000);
    assert_eq!(conf.start(), Admission::Admitted);
    assert_eq!(conf.start(), Admission::MustWait);
    assert_eq!(conf.queue_pool.available, 0);
    conf.abandon_wait();
    assert_eq!(conf.queue_pool.available, 1);
}

#[test]
fn cancelled_call_releases_without_a_sample() {
    let mut conf = fresh(1000);
    assert_eq!(conf.start(), Admission::Admitted);
    conf.release_unsampled();
    assert_eq!(conf.concurrency_pool.available, 1);
    assert_eq!(conf.stats.moving_average, 1000);
    assert_eq!(conf.stats.concurrency, 1);
}

#[test]
fn queue_sizer_formula_exact_values() {
    assert_eq!(compute_queue_capacity(3, 2000, 500), 9);
    assert_eq!(compute_queue_capacity(1, 1000, 250), 3);
    assert_eq!(compute_queue_capacity(2, 1000, 1000), 1);
    assert_eq!(compute_queue_capacity(5, 1000, 2000), 1);
    assert_eq!(compute_queue_capacity(1, 1000, 999), 1);
    assert_eq!(compute_queue_capacity(1, u64::MAX, 0), usize::MAX);
    assert_eq!(compute_queue_capacity(u32::MAX, u64::MAX, 1), usize::MAX);
}

#[test]
fn shed_errors_are_distinguished_from_inner_errors() {
    let inner: LoadShedError<u8> = LoadShedError::Inner(7);
    assert!(!inner.is_shed());
    let full: LoadShedError<u8> = LoadShedError::QueueFull;
    assert!(full.is_shed());
    let overload: LoadShedError<u8> = LoadShedError::Overload;
    assert!(overload.is_shed());
    assert!(matches!(inner, LoadShedError::Inner(7)));
}

#[test]
fn load_shed_wraps_inner_with_fresh_gate() {
    let gate = LoadShed::new(42u8, EwmaParam::new(1, 4), 5000, 7);
    assert_eq!(gate.inner, 42);
    assert_eq!(gate.conf.stats.concurrency, 1);
    assert_eq!(gate.conf.stats.moving_average, 5000);
    assert_eq!(gate.conf.stats.last_increment, 7);
    assert_eq!(gate.conf.stats.last_decrement, 7);
}
