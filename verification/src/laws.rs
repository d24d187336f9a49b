//! The limiter's global guarantees, stated and proved over the mathematical
//! state: the invariant holds at all times, the saturated-latency average
//! moves only on saturated samples, and each direction of concurrency
//! adjustment respects its cooldown under arbitrarily fast arrivals.

use vstd::prelude::*;

use crate::conf::{
    abandon_wait_next, admit_waiting_next, desired_queue_capacity, initial, inv,
    queue_shrink_blocked, release_unsampled_next, resized, saturated_at, start_next, stop_next,
    ConfView,
};
use crate::ewma::{ewma_next, lemma_ewma_next_bounds};

verus! {

/// Law: a fresh gate satisfies the invariant; in particular its concurrency
/// and queue limits are one.
pub proof fn lemma_initial_inv(ewma_num: int, ewma_den: int, target: int, now: int)
    requires
        0 < ewma_num < ewma_den,
        1 <= target,
    ensures
        inv(initial(ewma_num, ewma_den, target, now)),
        initial(ewma_num, ewma_den, target, now).concurrency == 1,
        initial(ewma_num, ewma_den, target, now).queue_capacity == 1,
{
}

/// The desired queue size always lies between one and `usize::MAX`.
pub proof fn lemma_desired_queue_capacity_range(concurrency: int, target: int, avg: int)
    ensures
        1 <= desired_queue_capacity(concurrency, target, avg) <= usize::MAX as int,
{
}

/// Law: an admission attempt preserves the invariant; with it, `concurrency`
/// and `queue_capacity` stay at least one and neither pool's outstanding
/// permits exceed its size.
pub proof fn lemma_start_preserves_inv(v: ConfView)
    requires
        inv(v),
    ensures
        inv(start_next(v)),
{
    lemma_desired_queue_capacity_range(v.concurrency, v.target, v.average_latency_at_capacity);
    assert(inv(resized(v)) || queue_shrink_blocked(v));
}

/// Law: recording a completion preserves the invariant, provided the
/// completing call holds one of the outstanding concurrency permits.
pub proof fn lemma_stop_preserves_inv(v: ConfView, elapsed: int, now: int)
    requires
        inv(v),
        0 <= elapsed,
        v.conc_available < v.concurrency,
    ensures
        inv(stop_next(v, elapsed, now)),
{
    let ma_bound = if v.moving_average >= elapsed { v.moving_average } else { elapsed };
    lemma_ewma_next_bounds(v.moving_average, elapsed, v.ewma_num, v.ewma_den, ma_bound);
    let avg_bound = if v.average_latency_at_capacity >= elapsed {
        v.average_latency_at_capacity
    } else {
        elapsed
    };
    lemma_ewma_next_bounds(
        v.average_latency_at_capacity,
        elapsed,
        v.ewma_num,
        v.ewma_den,
        avg_bound,
    );
}

/// Law: outstanding concurrency permits never exceed the concurrency limit.
pub proof fn lemma_outstanding_within_limit(v: ConfView)
    requires
        inv(v),
    ensures
        0 <= v.concurrency - v.conc_available <= v.concurrency,
{
}

/// Law: a completion sampled while the concurrency pool had free permits
/// leaves `average_latency_at_capacity` unchanged.
pub proof fn lemma_avg_at_capacity_fixed_without_saturation(v: ConfView, elapsed: int, now: int)
    requires
        !saturated_at(v),
    ensures
        stop_next(v, elapsed, now).average_latency_at_capacity == v.average_latency_at_capacity,
{
}

/// Law: a completion sampled at saturation folds its latency into
/// `average_latency_at_capacity`.
pub proof fn lemma_avg_at_capacity_moves_at_saturation(v: ConfView, elapsed: int, now: int)
    requires
        saturated_at(v),
    ensures
        stop_next(v, elapsed, now).average_latency_at_capacity == ewma_next(
            v.average_latency_at_capacity,
            elapsed,
            v.ewma_num,
            v.ewma_den,
        ),
{
}

/// One step of the limiter's life, as the contracts describe it: a recorded
/// completion (with its measured service time and the time of recording), an
/// admission attempt, a waiter's retry, a waiter giving up, or a cancelled
/// call returning its permit.
pub enum Event {
    Stop { elapsed: int, now: int },
    Start,
    AdmitWaiting,
    AbandonWait,
    ReleaseUnsampled,
}

/// The recording time of a completion event (zero for the others, which
/// carry none).
pub open spec fn event_time(e: Event) -> int {
    match e {
        Event::Stop { elapsed: _, now } => now,
        _ => 0,
    }
}

/// The state after one event.
pub open spec fn event_next(v: ConfView, e: Event) -> ConfView {
    match e {
        Event::Stop { elapsed, now } => stop_next(v, elapsed, now),
        Event::Start => start_next(v),
        Event::AdmitWaiting => admit_waiting_next(v),
        Event::AbandonWait => abandon_wait_next(v),
        Event::ReleaseUnsampled => release_unsampled_next(v),
    }
}

/// The side conditions under which the exec operations accept an event: a
/// completing or cancelled call holds a concurrency permit, a waiter holds a
/// queue permit, and a completion's sample is non-negative.
pub open spec fn event_permitted(v: ConfView, e: Event) -> bool {
    match e {
        Event::Stop { elapsed, now: _ } => 0 <= elapsed && v.conc_available < v.concurrency,
        Event::Start => true,
        Event::AdmitWaiting => v.queue_available < v.queue_capacity,
        Event::AbandonWait => v.queue_available < v.queue_capacity,
        Event::ReleaseUnsampled => v.conc_available < v.concurrency,
    }
}

/// Law: every permitted event preserves the invariant. Together with
/// `lemma_initial_inv` this is the "at all times" guarantee: `concurrency`
/// and `queue_capacity` never fall below one, and outstanding permits never
/// exceed either pool's size.
pub proof fn lemma_event_preserves_inv(v: ConfView, e: Event)
    requires
        inv(v),
        event_permitted(v, e),
    ensures
        inv(event_next(v, e)),
{
    match e {
        Event::Stop { elapsed, now } => lemma_stop_preserves_inv(v, elapsed, now),
        Event::Start => lemma_start_preserves_inv(v),
        Event::AdmitWaiting => {},
        Event::AbandonWait => {},
        Event::ReleaseUnsampled => {},
    }
}

/// The state after a sequence of events, fed to the limiter in order.
pub open spec fn run(v: ConfView, evs: Seq<Event>) -> ConfView
    decreases evs.len(),
{
    if evs.len() == 0 {
        v
    } else {
        run(event_next(v, evs.first()), evs.drop_first())
    }
}

/// The completion events carry recording times that are in order, none
/// preceding `lb`; the other events carry no time and may fall anywhere.
pub open spec fn times_ordered(evs: Seq<Event>, lb: int) -> bool {
    &&& forall|k: int|
        0 <= k < evs.len() && (#[trigger] evs[k]) is Stop ==> lb <= event_time(evs[k])
    &&& forall|k: int, m: int|
        0 <= k <= m < evs.len() && (#[trigger] evs[k]) is Stop && (#[trigger] evs[m]) is Stop
            ==> event_time(evs[k]) <= event_time(evs[m])
}

/// No event changes the limiter's configuration.
proof fn lemma_run_keeps_config(v: ConfView, evs: Seq<Event>)
    ensures
        run(v, evs).target == v.target,
        run(v, evs).ewma_num == v.ewma_num,
        run(v, evs).ewma_den == v.ewma_den,
    decreases evs.len(),
{
    if evs.len() > 0 {
        lemma_run_keeps_config(event_next(v, evs.first()), evs.drop_first());
    }
}

/// Feeding one more event after a prefix equals stepping the prefix's state
/// once.
proof fn lemma_run_step(v: ConfView, evs: Seq<Event>, i: int)
    requires
        0 <= i < evs.len(),
    ensures
        run(v, evs.take(i + 1)) == event_next(run(v, evs.take(i)), evs[i]),
    decreases i,
{
    if i == 0 {
        assert(evs.take(0) =~= Seq::<Event>::empty());
        assert(evs.take(1).first() == evs[0]);
        assert(evs.take(1).drop_first() =~= Seq::<Event>::empty());
        assert(run(event_next(v, evs[0]), Seq::<Event>::empty()) == event_next(v, evs[0]));
    } else {
        let v1 = event_next(v, evs.first());
        lemma_run_step(v1, evs.drop_first(), i - 1);
        assert(evs.take(i + 1).first() == evs.first());
        assert(evs.take(i + 1).drop_first() =~= evs.drop_first().take(i));
        assert(evs.take(i).first() == evs.first());
        assert(evs.take(i).drop_first() =~= evs.drop_first().take(i - 1));
        assert(evs.drop_first()[i - 1] == evs[i]);
    }
}

/// A run over a prefix then over the rest equals the run over the whole.
proof fn lemma_run_between(v: ConfView, evs: Seq<Event>, i: int, j: int)
    requires
        0 <= i <= j <= evs.len(),
    ensures
        run(v, evs.take(j)) == run(run(v, evs.take(i)), evs.subrange(i, j)),
    decreases j - i,
{
    if i == j {
        assert(evs.subrange(i, j) =~= Seq::<Event>::empty());
    } else {
        lemma_run_step(v, evs, i);
        lemma_run_between(v, evs, i + 1, j);
        assert(evs.subrange(i, j).first() == evs[i]);
        assert(evs.subrange(i, j).drop_first() =~= evs.subrange(i + 1, j));
    }
}

/// Under in-order completion times, the recorded time of the last increase
/// never moves backwards.
proof fn lemma_run_last_increment_lb(v: ConfView, evs: Seq<Event>)
    requires
        times_ordered(evs, v.last_increment),
    ensures
        run(v, evs).last_increment >= v.last_increment,
    decreases evs.len(),
{
    if evs.len() > 0 {
        let e0 = evs.first();
        let v1 = event_next(v, e0);
        assert(v1.last_increment == v.last_increment || (e0 is Stop && v1.last_increment
            == event_time(e0)));
        let tail = evs.drop_first();
        assert forall|k: int|
            0 <= k < tail.len() && (#[trigger] tail[k]) is Stop implies v1.last_increment
            <= event_time(tail[k]) by {
            assert(tail[k] == evs[k + 1]);
            if e0 is Stop {
                assert(event_time(evs[0]) <= event_time(evs[k + 1]));
            }
        }
        assert forall|k: int, m: int|
            0 <= k <= m < tail.len() && (#[trigger] tail[k]) is Stop && (#[trigger] tail[m]) is Stop
            implies event_time(tail[k]) <= event_time(tail[m]) by {
            assert(tail[k] == evs[k + 1]);
            assert(tail[m] == evs[m + 1]);
        }
        lemma_run_last_increment_lb(v1, tail);
    }
}

/// Under in-order completion times, the recorded time of the last decrease
/// never moves backwards.
proof fn lemma_run_last_decrement_lb(v: ConfView, evs: Seq<Event>)
    requires
        times_ordered(evs, v.last_decrement),
    ensures
        run(v, evs).last_decrement >= v.last_decrement,
    decreases evs.len(),
{
    if evs.len() > 0 {
        let e0 = evs.first();
        let v1 = event_next(v, e0);
        assert(v1.last_decrement == v.last_decrement || (e0 is Stop && v1.last_decrement
            == event_time(e0)));
        let tail = evs.drop_first();
        assert forall|k: int|
            0 <= k < tail.len() && (#[trigger] tail[k]) is Stop implies v1.last_decrement
            <= event_time(tail[k]) by {
            assert(tail[k] == evs[k + 1]);
            if e0 is Stop {
                assert(event_time(evs[0]) <= event_time(evs[k + 1]));
            }
        }
        assert forall|k: int, m: int|
            0 <= k <= m < tail.len() && (#[trigger] tail[k]) is Stop && (#[trigger] tail[m]) is Stop
            implies event_time(tail[k]) <= event_time(tail[m]) by {
            assert(tail[k] == evs[k + 1]);
            assert(tail[m] == evs[m + 1]);
        }
        lemma_run_last_decrement_lb(v1, tail);
    }
}

/// Law: the concurrency limit never increases twice within the target
/// latency. Feed any sequence of admissions, waits, cancellations, and
/// in-time-order completions to a limiter, however fast requests arrive: any
/// two steps that both raise the limit are completions recorded more than
/// `target` nanoseconds apart.
pub proof fn lemma_increase_cooldown(v: ConfView, evs: Seq<Event>, i: int, j: int)
    requires
        times_ordered(evs, v.last_increment),
        0 <= i < j < evs.len(),
        event_next(run(v, evs.take(i)), evs[i]).concurrency > run(v, evs.take(i)).concurrency,
        event_next(run(v, evs.take(j)), evs[j]).concurrency > run(v, evs.take(j)).concurrency,
    ensures
        evs[i] is Stop && evs[j] is Stop,
        event_time(evs[j]) - event_time(evs[i]) > v.target,
{
    let vi = run(v, evs.take(i));
    let vj = run(v, evs.take(j));
    let w = event_next(vi, evs[i]);
    // only the grow branch of a completion raises the limit
    assert(evs[i] is Stop && crate::conf::stop_grows(vi, evs[i]->elapsed, evs[i]->now));
    assert(evs[j] is Stop && crate::conf::stop_grows(vj, evs[j]->elapsed, evs[j]->now));
    assert(w.last_increment == event_time(evs[i]));
    lemma_run_step(v, evs, i);
    lemma_run_between(v, evs, i + 1, j);
    let rest = evs.subrange(i + 1, j);
    assert forall|k: int|
        0 <= k < rest.len() && (#[trigger] rest[k]) is Stop implies w.last_increment
        <= event_time(rest[k]) by {
        assert(rest[k] == evs[i + 1 + k]);
        assert(event_time(evs[i]) <= event_time(evs[i + 1 + k]));
    }
    assert forall|k: int, m: int|
        0 <= k <= m < rest.len() && (#[trigger] rest[k]) is Stop && (#[trigger] rest[m]) is Stop
        implies event_time(rest[k]) <= event_time(rest[m]) by {
        assert(rest[k] == evs[i + 1 + k]);
        assert(rest[m] == evs[i + 1 + m]);
    }
    lemma_run_last_increment_lb(w, rest);
    assert(vj.last_increment >= event_time(evs[i]));
    lemma_run_keeps_config(v, evs.take(j));
    assert(evs[j]->now - vj.last_increment > v.target);
}

/// Law: the concurrency limit never decreases twice within the target
/// latency: any two steps of an in-time-order event sequence that both lower
/// the limit are completions recorded more than `target` nanoseconds apart.
pub proof fn lemma_decrease_cooldown(v: ConfView, evs: Seq<Event>, i: int, j: int)
    requires
        times_ordered(evs, v.last_decrement),
        0 <= i < j < evs.len(),
        event_next(run(v, evs.take(i)), evs[i]).concurrency < run(v, evs.take(i)).concurrency,
        event_next(run(v, evs.take(j)), evs[j]).concurrency < run(v, evs.take(j)).concurrency,
    ensures
        evs[i] is Stop && evs[j] is Stop,
        event_time(evs[j]) - event_time(evs[i]) > v.target,
{
    let vi = run(v, evs.take(i));
    let vj = run(v, evs.take(j));
    let w = event_next(vi, evs[i]);
    // only the shrink branch of a completion lowers the limit
    assert(evs[i] is Stop && crate::conf::stop_shrinks(vi, evs[i]->elapsed, evs[i]->now));
    assert(evs[j] is Stop && crate::conf::stop_shrinks(vj, evs[j]->elapsed, evs[j]->now));
    assert(w.last_decrement == event_time(evs[i]));
    lemma_run_step(v, evs, i);
    lemma_run_between(v, evs, i + 1, j);
    let rest = evs.subrange(i + 1, j);
    assert forall|k: int|
        0 <= k < rest.len() && (#[trigger] rest[k]) is Stop implies w.last_decrement
        <= event_time(rest[k]) by {
        assert(rest[k] == evs[i + 1 + k]);
        assert(event_time(evs[i]) <= event_time(evs[i + 1 + k]));
    }
    assert forall|k: int, m: int|
        0 <= k <= m < rest.len() && (#[trigger] rest[k]) is Stop && (#[trigger] rest[m]) is Stop
        implies event_time(rest[k]) <= event_time(rest[m]) by {
        assert(rest[k] == evs[i + 1 + k]);
        assert(rest[m] == evs[i + 1 + m]);
    }
    lemma_run_last_decrement_lb(w, rest);
    assert(vj.last_decrement >= event_time(evs[i]));
    lemma_run_keeps_config(v, evs.take(j));
    assert(evs[j]->now - vj.last_decrement > v.target);
}

} // verus!
