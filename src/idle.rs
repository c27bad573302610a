//! The idle watcher's decision: from the current idle flag and a sample of
//! the seconds since the last user input, the heartbeats to emit and the next
//! idle flag.
use vstd::prelude::*;

use crate::error::WatcherError;

verus! {

/// How far after the boundary heartbeat the heartbeat that opens the new
/// state is stamped. A collector that deduplicates by timestamp needs the two
/// to differ, so the value is part of the reporting contract.
pub const TRANSITION_OFFSET_MS: i64 = 1;

/// Milliseconds in one second.
pub const MS_PER_SEC: i64 = 1000;

/// One heartbeat: whether the user was idle, the instant it speaks of
/// (milliseconds since the Unix epoch) and the idle interval that closes at
/// that instant, in whole seconds.
#[derive(Clone, Copy, Debug, PartialEq, Eq, Structural)]
pub struct Ping {
    pub was_idle: bool,
    pub timestamp_ms: i64,
    pub duration_secs: u32,
}

/// The result of one poll: the heartbeats to send, in order, and the idle
/// flag to carry into the next poll once they have all been delivered.
#[derive(Debug)]
pub struct IdleTick {
    pub is_idle: bool,
    pub pings: Vec<Ping>,
}

/// The instant of the last input: `now` less the idle seconds.
pub open spec fn last_input_ms(now_ms: int, seconds_since_input: u32) -> int {
    now_ms - MS_PER_SEC * seconds_since_input
}

/// Whether the timestamps of a poll at `now_ms` fit in an `i64`.
pub open spec fn timestamps_fit(now_ms: int, seconds_since_input: u32) -> bool {
    &&& i64::MIN <= last_input_ms(now_ms, seconds_since_input)
    &&& last_input_ms(now_ms, seconds_since_input) + TRANSITION_OFFSET_MS <= i64::MAX
}

/// The user was idle and has touched the machine within the timeout.
pub open spec fn returns_active(is_idle: bool, seconds_since_input: u32, timeout_secs: u64) -> bool {
    is_idle && (seconds_since_input as int) < timeout_secs
}

/// The user was active and has not touched the machine for the timeout.
pub open spec fn goes_idle(is_idle: bool, seconds_since_input: u32, timeout_secs: u64) -> bool {
    !is_idle && (seconds_since_input as int) >= timeout_secs
}

/// Neither transition happens on this sample.
pub open spec fn is_steady(is_idle: bool, seconds_since_input: u32, timeout_secs: u64) -> bool {
    !returns_active(is_idle, seconds_since_input, timeout_secs) && !goes_idle(
        is_idle,
        seconds_since_input,
        timeout_secs,
    )
}

/// The idle flag after a sample.
pub open spec fn next_idle(is_idle: bool, seconds_since_input: u32, timeout_secs: u64) -> bool {
    if returns_active(is_idle, seconds_since_input, timeout_secs) {
        false
    } else if goes_idle(is_idle, seconds_since_input, timeout_secs) {
        true
    } else {
        is_idle
    }
}

pub open spec fn ping_of(was_idle: bool, timestamp_ms: int, duration_secs: u32) -> Ping {
    Ping { was_idle, timestamp_ms: timestamp_ms as i64, duration_secs }
}

/// The heartbeats of one poll at `now_ms`. A transition sends two: one that
/// closes the old state at the last input, and one a millisecond later that
/// opens the new state. A steady poll sends one.
pub open spec fn tick_pings(
    is_idle: bool,
    seconds_since_input: u32,
    now_ms: int,
    timeout_secs: u64,
) -> Seq<Ping> {
    let last = last_input_ms(now_ms, seconds_since_input);
    if returns_active(is_idle, seconds_since_input, timeout_secs) {
        seq![ping_of(true, last, 0), ping_of(true, last + TRANSITION_OFFSET_MS, 0)]
    } else if goes_idle(is_idle, seconds_since_input, timeout_secs) {
        seq![
            ping_of(false, last, 0),
            ping_of(false, last + TRANSITION_OFFSET_MS, seconds_since_input),
        ]
    } else if is_idle {
        seq![ping_of(true, last, seconds_since_input)]
    } else {
        seq![ping_of(false, last, 0)]
    }
}

/// The idle flag after a run of samples, starting from `is_idle`.
pub open spec fn idle_after(is_idle: bool, samples: Seq<u32>, timeout_secs: u64) -> bool
    decreases samples.len(),
{
    if samples.len() == 0 {
        is_idle
    } else {
        next_idle(idle_after(is_idle, samples.drop_last(), timeout_secs), samples.last(), timeout_secs)
    }
}

/// Tracks whether the user is at the machine, given the idle timeout.
/// A value exists only once the idle counter has been found readable.
pub struct IdleWatcher {
    idle_timeout_secs: u64,
}

impl IdleWatcher {
    pub closed spec fn timeout(&self) -> u64 {
        self.idle_timeout_secs
    }

    /// Builds the watcher from what setting up the idle counter gave:
    /// whether the windowing session opened, and the trial read of the
    /// counter. Either failure refuses the watcher, so nothing can run it.
    pub fn new(idle_timeout_secs: u64, session_open: bool, trial_read: Option<u32>) -> (r: Result<
        IdleWatcher,
        WatcherError,
    >)
        ensures
            !session_open ==> r == Err::<IdleWatcher, WatcherError>(
                WatcherError::SessionUnavailable,
            ),
            session_open && trial_read is None ==> r == Err::<IdleWatcher, WatcherError>(
                WatcherError::IdleCounterUnsupported,
            ),
            session_open && trial_read is Some ==> r is Ok && r->Ok_0.timeout()
                == idle_timeout_secs,
    {
        if !session_open {
            Err(WatcherError::SessionUnavailable)
        } else if trial_read.is_none() {
            Err(WatcherError::IdleCounterUnsupported)
        } else {
            Ok(IdleWatcher { idle_timeout_secs })
        }
    }

    /// The idle timeout in seconds.
    pub fn idle_timeout_secs(&self) -> (r: u64)
        ensures
            r == self.timeout(),
    {
        self.idle_timeout_secs
    }

    /// One poll at the instant `now_ms`, with `seconds_since_input` read from
    /// the idle counter.
    pub fn run_at(&self, is_idle: bool, seconds_since_input: u32, now_ms: i64) -> (r: IdleTick)
        requires
            timestamps_fit(now_ms as int, seconds_since_input),
        ensures
            r.is_idle == next_idle(is_idle, seconds_since_input, self.timeout()),
            r.pings@ == tick_pings(is_idle, seconds_since_input, now_ms as int, self.timeout()),
    {
        let last_input: i64 = now_ms - MS_PER_SEC * (seconds_since_input as i64);
        let idle_secs: u64 = seconds_since_input as u64;
        let mut pings: Vec<Ping> = Vec::new();
        let mut is_idle_again = is_idle;
        if is_idle && idle_secs < self.idle_timeout_secs {
            pings.push(Ping { was_idle: is_idle, timestamp_ms: last_input, duration_secs: 0 });
            is_idle_again = false;
            pings.push(
                Ping {
                    was_idle: is_idle,
                    timestamp_ms: last_input + TRANSITION_OFFSET_MS,
                    duration_secs: 0,
                },
            );
        } else if !is_idle && idle_secs >= self.idle_timeout_secs {
            pings.push(Ping { was_idle: is_idle, timestamp_ms: last_input, duration_secs: 0 });
            is_idle_again = true;
            pings.push(
                Ping {
                    was_idle: is_idle,
                    timestamp_ms: last_input + TRANSITION_OFFSET_MS,
                    duration_secs: seconds_since_input,
                },
            );
        } else if is_idle {
            pings.push(
                Ping {
                    was_idle: is_idle,
                    timestamp_ms: last_input,
                    duration_secs: seconds_since_input,
                },
            );
        } else {
            pings.push(Ping { was_idle: is_idle, timestamp_ms: last_input, duration_secs: 0 });
        }
        assert(pings@ =~= tick_pings(is_idle, seconds_since_input, now_ms as int, self.timeout()));
        IdleTick { is_idle: is_idle_again, pings }
    }

    /// The idle flag to carry into the next poll, once `delivered` of the
    /// tick's heartbeats went out before the first failure (or all of them).
    /// A tick whose heartbeats did not all go out counts as no transition.
    pub fn settle(&self, is_idle: bool, tick: &IdleTick, delivered: usize) -> (r: bool)
        ensures
            r == if delivered >= tick.pings.len() {
                tick.is_idle
            } else {
                is_idle
            },
    {
        if delivered >= tick.pings.len() {
            tick.is_idle
        } else {
            is_idle
        }
    }
}

/// A steady poll leaves the idle flag as it was and sends exactly one
/// heartbeat, whose idle flag is the current one.
pub proof fn lemma_steady_tick(is_idle: bool, seconds_since_input: u32, now_ms: int, timeout_secs: u64)
    requires
        is_steady(is_idle, seconds_since_input, timeout_secs),
    ensures
        next_idle(is_idle, seconds_since_input, timeout_secs) == is_idle,
        tick_pings(is_idle, seconds_since_input, now_ms, timeout_secs).len() == 1,
        tick_pings(is_idle, seconds_since_input, now_ms, timeout_secs)[0].was_idle == is_idle,
{
}

/// Any run of polls none of which is a transition from the current flag
/// leaves the idle flag unchanged.
pub proof fn lemma_steady_run(is_idle: bool, samples: Seq<u32>, timeout_secs: u64)
    requires
        forall|i: int| 0 <= i < samples.len() ==> is_steady(is_idle, #[trigger] samples[i], timeout_secs),
    ensures
        idle_after(is_idle, samples, timeout_secs) == is_idle,
    decreases samples.len(),
{
    if samples.len() > 0 {
        let prefix = samples.drop_last();
        assert forall|i: int| 0 <= i < prefix.len() implies is_steady(is_idle, #[trigger] prefix[i], timeout_secs) by {
            assert(prefix[i] == samples[i]);
        }
        lemma_steady_run(is_idle, prefix, timeout_secs);
        assert(is_steady(is_idle, samples[samples.len() - 1], timeout_secs));
    }
}

/// Every heartbeat of a poll carries the idle flag that held before it.
pub proof fn lemma_pings_report_prior_state(
    is_idle: bool,
    seconds_since_input: u32,
    now_ms: int,
    timeout_secs: u64,
)
    ensures
        forall|i: int|
            0 <= i < tick_pings(is_idle, seconds_since_input, now_ms, timeout_secs).len()
                ==> (#[trigger] tick_pings(is_idle, seconds_since_input, now_ms, timeout_secs)[i]).was_idle
                == is_idle,
{
}

/// On a transition the heartbeat that opens the new state is stamped one
/// millisecond after the one that closes the old state, so strictly after it.
pub proof fn lemma_transition_stamps_ordered(
    is_idle: bool,
    seconds_since_input: u32,
    now_ms: int,
    timeout_secs: u64,
)
    requires
        timestamps_fit(now_ms, seconds_since_input),
        !is_steady(is_idle, seconds_since_input, timeout_secs),
    ensures
        tick_pings(is_idle, seconds_since_input, now_ms, timeout_secs).len() == 2,
        tick_pings(is_idle, seconds_since_input, now_ms, timeout_secs)[1].timestamp_ms
            == tick_pings(is_idle, seconds_since_input, now_ms, timeout_secs)[0].timestamp_ms
            + TRANSITION_OFFSET_MS,
        tick_pings(is_idle, seconds_since_input, now_ms, timeout_secs)[0].timestamp_ms
            < tick_pings(is_idle, seconds_since_input, now_ms, timeout_secs)[1].timestamp_ms,
{
}

} // verus!
