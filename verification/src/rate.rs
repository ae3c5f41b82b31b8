//! Monotonic time-limited "should fire" predicate shared by the source and
//! relay roles: the limiter fires on its first poll ever, and afterwards
//! exactly when at least the configured interval has elapsed since it
//! last fired.
//!
//! The clock is external; callers hand in the current reading of a
//! monotonic clock, in whatever unit they also give the interval in.

use vstd::prelude::*;

verus! {

/// Whether a limiter whose last firing was `last` (`None` when it never
/// fired, treated as infinitely in the past) fires at time `now` with the
/// given minimum interval.
pub open spec fn limiter_fires(last: Option<u64>, now: u64, interval: u64) -> bool {
    match last {
        None => true,
        Some(t) => now - t >= interval,
    }
}

/// The firing record after a poll at `now`.
pub open spec fn limiter_after(last: Option<u64>, now: u64, interval: u64) -> Option<u64> {
    if limiter_fires(last, now, interval) {
        Some(now)
    } else {
        last
    }
}

/// Tracks when the limiter last fired.
pub struct LastUpdate {
    last_update: Option<u64>,
}

impl View for LastUpdate {
    type V = Option<u64>;

    closed spec fn view(&self) -> Option<u64> {
        self.last_update
    }
}

impl LastUpdate {
    /// A limiter that has never fired.
    pub fn new() -> (r: LastUpdate)
        ensures
            r@ == Option::<u64>::None,
    {
        LastUpdate { last_update: None }
    }

    /// Polls the limiter at time `now`: true, resetting the internal record,
    /// on the first poll ever or when at least `interval` has elapsed since
    /// the last true result; false, without mutating state, otherwise.
    ///
    /// `now` readings must not run backwards past the last firing; a
    /// monotonic clock guarantees that.
    pub fn should_update(&mut self, now: u64, interval: u64) -> (r: bool)
        requires
            old(self)@ matches Some(t) ==> t <= now,
        ensures
            r == limiter_fires(old(self)@, now, interval),
            final(self)@ == limiter_after(old(self)@, now, interval),
    {
        match self.last_update {
            None => {
                self.last_update = Some(now);
                true
            },
            Some(t) => {
                if now - t >= interval {
                    self.last_update = Some(now);
                    true
                } else {
                    false
                }
            },
        }
    }
}

/// The limiter's firing record after a sequence of polls.
pub open spec fn limiter_run(last: Option<u64>, times: Seq<u64>, interval: u64) -> Option<u64>
    decreases times.len(),
{
    if times.len() == 0 {
        last
    } else {
        limiter_run(limiter_after(last, times[0], interval), times.drop_first(), interval)
    }
}

/// Which polls of a sequence make the limiter fire.
pub open spec fn limiter_trace(last: Option<u64>, times: Seq<u64>, interval: u64) -> Seq<bool>
    decreases times.len(),
{
    if times.len() == 0 {
        Seq::empty()
    } else {
        seq![limiter_fires(last, times[0], interval)] + limiter_trace(
            limiter_after(last, times[0], interval),
            times.drop_first(),
            interval,
        )
    }
}

proof fn lemma_trace_len(last: Option<u64>, times: Seq<u64>, interval: u64)
    ensures
        limiter_trace(last, times, interval).len() == times.len(),
    decreases times.len(),
{
    if times.len() != 0 {
        lemma_trace_len(limiter_after(last, times[0], interval), times.drop_first(), interval);
    }
}

proof fn lemma_trace_index(last: Option<u64>, times: Seq<u64>, interval: u64, i: int)
    requires
        0 <= i < times.len(),
    ensures
        limiter_trace(last, times, interval)[i] == limiter_fires(
            limiter_run(last, times.take(i), interval),
            times[i],
            interval,
        ),
    decreases i,
{
    lemma_trace_len(limiter_after(last, times[0], interval), times.drop_first(), interval);
    if i == 0 {
        assert(times.take(0) =~= Seq::<u64>::empty());
    } else {
        lemma_trace_index(limiter_after(last, times[0], interval), times.drop_first(), interval, i - 1);
        assert(times.drop_first().take(i - 1) =~= times.take(i).drop_first());
        assert(limiter_run(last, times.take(i), interval) == limiter_run(
            limiter_after(last, times.take(i)[0], interval),
            times.take(i).drop_first(),
            interval,
        ));
    }
}

proof fn lemma_run_state_after_fire(
    last: Option<u64>,
    times: Seq<u64>,
    interval: u64,
    i: int,
    j: int,
)
    requires
        0 <= i < j <= times.len(),
        limiter_trace(last, times, interval)[i],
        forall|k: int| i < k < j ==> !limiter_trace(last, times, interval)[k],
    ensures
        limiter_run(last, times.take(j), interval) == Some(times[i]),
    decreases j - i,
{
    lemma_trace_len(last, times, interval);
    if j == i + 1 {
        lemma_trace_index(last, times, interval, i);
        assert(times.take(j).drop_last() =~= times.take(i));
        lemma_run_take_snoc(last, times, interval, i);
    } else {
        lemma_run_state_after_fire(last, times, interval, i, j - 1);
        lemma_trace_index(last, times, interval, j - 1);
        lemma_run_take_snoc(last, times, interval, j - 1);
    }
}

proof fn lemma_run_take_snoc(last: Option<u64>, times: Seq<u64>, interval: u64, i: int)
    requires
        0 <= i < times.len(),
    ensures
        limiter_run(last, times.take(i + 1), interval) == limiter_after(
            limiter_run(last, times.take(i), interval),
            times[i],
            interval,
        ),
    decreases i,
{
    if i == 0 {
        assert(times.take(0) =~= Seq::<u64>::empty());
        assert(times.take(1) =~= seq![times[0]]);
        assert(times.take(1).drop_first() =~= Seq::<u64>::empty());
        assert(times.take(1)[0] == times[0]);
        assert(limiter_run(last, times.take(1), interval) == limiter_after(last, times[0], interval));
        assert(limiter_run(last, times.take(0), interval) == last);
    } else {
        let first = times[0];
        let rest = times.drop_first();
        lemma_run_take_snoc(limiter_after(last, first, interval), rest, interval, i - 1);
        assert(times.take(i + 1).drop_first() =~= rest.take(i));
        assert(times.take(i).drop_first() =~= rest.take(i - 1));
        assert(times.take(i + 1)[0] == first);
        assert(times.take(i)[0] == first);
        assert(rest[i - 1] == times[i]);
        assert(limiter_run(last, times.take(i + 1), interval) == limiter_run(
            limiter_after(last, first, interval),
            times.take(i + 1).drop_first(),
            interval,
        ));
        assert(limiter_run(last, times.take(i), interval) == limiter_run(
            limiter_after(last, first, interval),
            times.take(i).drop_first(),
            interval,
        ));
    }
}

/// The limiter fires on the first poll of its life.
pub proof fn lemma_first_poll_fires(times: Seq<u64>, interval: u64)
    requires
        times.len() > 0,
    ensures
        limiter_trace(None, times, interval)[0],
{
}

/// No double firing: between any two firings of the limiter with none in
/// between, at least `interval` elapses.
pub proof fn lemma_min_spacing(times: Seq<u64>, interval: u64, i: int, j: int)
    requires
        0 <= i < j < times.len(),
        limiter_trace(None, times, interval)[i],
        limiter_trace(None, times, interval)[j],
        forall|k: int| i < k < j ==> !limiter_trace(None, times, interval)[k],
    ensures
        times[j] >= times[i] && times[j] - times[i] >= interval,
{
    lemma_run_state_after_fire(None, times, interval, i, j);
    lemma_trace_index(None, times, interval, j);
}

/// No missed firing: once at least `interval` has elapsed since the last
/// firing, the very next poll fires.
pub proof fn lemma_limiter_fires_when_due(times: Seq<u64>, interval: u64, i: int, j: int)
    requires
        0 <= i < j < times.len(),
        limiter_trace(None, times, interval)[i],
        forall|k: int| i < k < j ==> !limiter_trace(None, times, interval)[k],
        times[j] >= times[i],
        times[j] - times[i] >= interval,
    ensures
        limiter_trace(None, times, interval)[j],
{
    lemma_run_state_after_fire(None, times, interval, i, j);
    lemma_trace_index(None, times, interval, j);
}

} // verus!
