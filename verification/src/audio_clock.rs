//! Falling back from the audio cursor to the wall clock when an opened stream stops
//! advancing.

use vstd::prelude::*;
use std::time::Duration;
use crate::clock::{duration_nanos, nanos_of};
use crate::timing::Samples;

verus! {

/// How long the audio cursor may stand still before the wall clock takes over, in ms.
pub const AUDIO_CURSOR_STALL_TIMEOUT_MS: u64 = 750;

/// What drives the gameplay clock after an observation.
#[derive(Debug, Clone, Copy, PartialEq, Eq, Structural)]
pub enum AudioClockDecision {
    Audio(Samples),
    SwitchToWall(Samples),
    Wall,
}

/// The last cursor that advanced, the wall time it advanced at (in nanoseconds on a
/// monotonic clock), and whether the wall clock has taken over.
#[derive(Debug, Clone, Copy, PartialEq, Eq, Structural)]
pub struct AudioClockFallback {
    pub last_cursor: Samples,
    pub last_wall_nanos: u128,
    pub fallback: bool,
}

/// One observation of the audio cursor at wall time `now` (nanoseconds).
pub open spec fn observe_spec(s: AudioClockFallback, cursor: Samples, now: int) -> (
    AudioClockFallback,
    AudioClockDecision,
) {
    if s.fallback {
        (s, AudioClockDecision::Wall)
    } else if cursor.0 > s.last_cursor.0 {
        (AudioClockFallback { last_cursor: cursor, last_wall_nanos: now as u128, ..s }, AudioClockDecision::Audio(cursor))
    } else if now - s.last_wall_nanos < AUDIO_CURSOR_STALL_TIMEOUT_MS * 1_000_000 {
        (s, AudioClockDecision::Audio(cursor))
    } else {
        (AudioClockFallback { fallback: true, ..s }, AudioClockDecision::SwitchToWall(cursor))
    }
}

impl AudioClockFallback {
    /// Starts watching at wall time `now` (a reading of a monotonic clock).
    pub fn new(now: Duration) -> (r: Self)
        ensures
            r.last_cursor.0 == 0,
            r.last_wall_nanos == duration_nanos(now),
            !r.fallback,
    {
        AudioClockFallback { last_cursor: Samples(0), last_wall_nanos: nanos_of(now), fallback: false }
    }

    pub fn reset(&mut self, now: Duration)
        ensures
            final(self).last_cursor.0 == 0,
            final(self).last_wall_nanos == duration_nanos(now),
            !final(self).fallback,
    {
        *self = AudioClockFallback::new(now);
    }

    /// Keeps the audio clock while the cursor advances or has stood still for less than
    /// the stall timeout (a wall time before the last advance counts as no time); then
    /// switches to the wall clock, once and for good.
    pub fn observe(&mut self, cursor: Samples, now: Duration) -> (r: AudioClockDecision)
        ensures
            (*final(self), r) == observe_spec(*old(self), cursor, duration_nanos(now) as int),
    {
        if self.fallback {
            return AudioClockDecision::Wall;
        }
        let now_nanos = nanos_of(now);
        if cursor.0 > self.last_cursor.0 {
            self.last_cursor = cursor;
            self.last_wall_nanos = now_nanos;
            return AudioClockDecision::Audio(cursor);
        }
        let stalled: u128 = if now_nanos > self.last_wall_nanos { now_nanos - self.last_wall_nanos } else { 0 };
        if stalled < (AUDIO_CURSOR_STALL_TIMEOUT_MS as u128) * 1_000_000 {
            return AudioClockDecision::Audio(cursor);
        }
        self.fallback = true;
        AudioClockDecision::SwitchToWall(cursor)
    }
}

/// Once the wall clock has taken over it keeps the clock: every later observation says
/// `Wall` and changes nothing.
pub proof fn law_wall_clock_is_final(s: AudioClockFallback, cursor: Samples, now: int, later: Samples, then: int)
    requires
        observe_spec(s, cursor, now).1 is SwitchToWall,
    ensures
        observe_spec(observe_spec(s, cursor, now).0, later, then)
            == (observe_spec(s, cursor, now).0, AudioClockDecision::Wall),
{
}

/// An advancing cursor always keeps the audio clock while not in fallback.
pub proof fn law_advancing_cursor_keeps_audio(s: AudioClockFallback, cursor: Samples, now: int)
    requires
        !s.fallback,
        cursor.0 > s.last_cursor.0,
    ensures
        observe_spec(s, cursor, now).1 == AudioClockDecision::Audio(cursor),
{
}

/// The state and the decisions after observing each `(cursor, wall time)` of `obs` in
/// turn.
pub open spec fn observe_seq(s: AudioClockFallback, obs: Seq<(Samples, int)>) -> (
    AudioClockFallback,
    Seq<AudioClockDecision>,
)
    decreases obs.len(),
{
    if obs.len() == 0 {
        (s, Seq::empty())
    } else {
        let (t, ds) = observe_seq(s, obs.drop_last());
        let (u, d) = observe_spec(t, obs.last().0, obs.last().1);
        (u, ds.push(d))
    }
}

/// Over any run of observations the switch to the wall clock happens at most once:
/// after a `SwitchToWall`, every later decision is `Wall` (until a reset), and the
/// watcher stays in fallback.
pub proof fn law_switch_to_wall_once(s: AudioClockFallback, obs: Seq<(Samples, int)>)
    ensures
        observe_seq(s, obs).1.len() == obs.len(),
        forall|i: int, j: int|
            #![trigger observe_seq(s, obs).1[i], observe_seq(s, obs).1[j]]
            0 <= i < j < obs.len() && observe_seq(s, obs).1[i] is SwitchToWall
                ==> observe_seq(s, obs).1[j] == AudioClockDecision::Wall,
        forall|i: int|
            #![trigger observe_seq(s, obs).1[i]]
            0 <= i < obs.len() && observe_seq(s, obs).1[i] is SwitchToWall ==> observe_seq(s, obs).0.fallback,
    decreases obs.len(),
{
    if obs.len() > 0 {
        let prev = obs.drop_last();
        law_switch_to_wall_once(s, prev);
        let (t, ds) = observe_seq(s, prev);
        let (u, d) = observe_spec(t, obs.last().0, obs.last().1);
        let all = observe_seq(s, obs).1;
        assert(all == ds.push(d));
        assert forall|i: int| 0 <= i < ds.len() implies #[trigger] all[i] == ds[i] by {}
        assert(all[ds.len() as int] == d);
        assert forall|i: int| 0 <= i < obs.len() && #[trigger] all[i] is SwitchToWall implies u.fallback by {
            if i < ds.len() {
                assert(ds[i] is SwitchToWall);
                assert(t.fallback);
            }
        }
        assert forall|i: int, j: int| 0 <= i < j < obs.len() && #[trigger] all[i] is SwitchToWall implies #[trigger] all[j]
            == AudioClockDecision::Wall by {
            assert(ds[i] is SwitchToWall);
            if j < ds.len() {
                assert(ds[j] == AudioClockDecision::Wall);
            } else {
                assert(t.fallback);
            }
        }
    }
}

} // verus!
