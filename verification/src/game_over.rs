//! The game-over screen: when the death loop starts, and when a confirmed restart
//! may proceed.

use vstd::prelude::*;
use std::time::Duration;
use crate::clock::{duration_nanos, nanos_of, duration_from_millis};
use crate::timing::Samples;

verus! {

/// How long the confirm jingle plays before the song restarts, in milliseconds.
pub const CONFIRM_RESTART_DELAY_MS: u64 = 1030;

/// The confirm-restart delay.
pub fn confirm_restart_delay() -> (d: Duration)
    ensures
        duration_nanos(d) == CONFIRM_RESTART_DELAY_MS as int * 1_000_000,
{
    duration_from_millis(CONFIRM_RESTART_DELAY_MS)
}

/// Whether a gameplay step enters the game-over screen: the reset key or a death does,
/// except in practice mode.
pub fn enters_game_over(reset_pressed: bool, dead: bool, practice_mode: bool) -> (r: bool)
    ensures
        r == ((reset_pressed || dead) && !practice_mode),
{
    (reset_pressed || dead) && !practice_mode
}

/// Death-animation timing: the song cursor at death, where the death loop starts, and
/// whether it has started.
#[derive(Debug, Clone, Copy, PartialEq, Eq, Structural)]
pub struct GameOverState {
    pub song_cursor: Samples,
    pub loop_at: Samples,
    pub loop_started: bool,
}

/// Whole samples in `nanos` nanoseconds at `rate` samples per second, rounded half up.
pub open spec fn rounded_samples(nanos: int, rate: int) -> int {
    (nanos * rate + 500_000_000) / 1_000_000_000
}

/// Samples elapsed over `elapsed` at `sample_rate` (at least one sample per second),
/// rounded to the nearest sample and capped at `i64::MAX`.
pub open spec fn elapsed_samples_spec(elapsed: Duration, sample_rate: u32) -> int {
    let rate = if sample_rate == 0 { 1 } else { sample_rate as int };
    let n = rounded_samples(duration_nanos(elapsed) as int, rate);
    if n > i64::MAX { i64::MAX as int } else { n }
}

pub fn elapsed_samples(elapsed: Duration, sample_rate: u32) -> (r: i64)
    ensures
        r == elapsed_samples_spec(elapsed, sample_rate),
{
    let rate: u128 = if sample_rate == 0 { 1 } else { sample_rate as u128 };
    let nanos: u128 = nanos_of(elapsed);
    let whole = nanos / 1_000_000_000;
    let part = nanos % 1_000_000_000;
    // nanos * rate == whole * rate * 1e9 + part * rate, computed without overflow
    proof {
        assert(part * rate < 1_000_000_000 * 0x1_0000_0000) by (nonlinear_arith)
            requires part < 1_000_000_000, rate <= 0xffff_ffff;
    }
    let scaled_part: u128 = part * rate + 500_000_000;
    let carry: u128 = scaled_part / 1_000_000_000;
    proof {
        vstd::arithmetic::div_mod::lemma_fundamental_div_mod(nanos as int, 1_000_000_000);
        assert(nanos as int == 1_000_000_000 * whole + part);
        assert(nanos * rate + 500_000_000 == (whole * rate) * 1_000_000_000 + scaled_part) by (nonlinear_arith)
            requires nanos as int == 1_000_000_000 * whole + part, scaled_part == part * rate + 500_000_000;
        vstd::arithmetic::div_mod::lemma_fundamental_div_mod(scaled_part as int, 1_000_000_000);
        let s0 = scaled_part as int % 1_000_000_000;
        assert(nanos * rate + 500_000_000 == 1_000_000_000 * (whole * rate + carry) + s0) by (nonlinear_arith)
            requires
                nanos * rate + 500_000_000 == (whole * rate) * 1_000_000_000 + scaled_part,
                scaled_part as int == 1_000_000_000 * carry + s0;
        vstd::arithmetic::div_mod::lemma_div_multiples_vanish_fancy(
            (whole * rate + carry) as int,
            s0,
            1_000_000_000,
        );
    }
    if whole > (i64::MAX as u128) {
        proof {
            assert(whole * rate >= whole) by (nonlinear_arith) requires rate >= 1, whole >= 0;
        }
        return i64::MAX;
    }
    proof {
        assert(whole * rate <= 0x7fff_ffff_ffff_ffff * 0xffff_ffff) by (nonlinear_arith)
            requires whole <= 0x7fff_ffff_ffff_ffff, rate <= 0xffff_ffff;
    }
    let big: u128 = whole * rate;
    if big > (i64::MAX as u128) || big + carry > (i64::MAX as u128) {
        i64::MAX
    } else {
        (big + carry) as i64
    }
}

impl GameOverState {
    /// The death loop starts `loop_after` samples after the song cursor at death.
    pub fn new(song_cursor: Samples, loop_after: Samples) -> (r: Self)
        requires
            i64::MIN <= song_cursor.0 + loop_after.0 <= i64::MAX,
        ensures
            r.song_cursor == song_cursor,
            r.loop_at.0 == song_cursor.0 + loop_after.0,
            !r.loop_started,
    {
        GameOverState {
            song_cursor,
            loop_at: Samples(song_cursor.0 + loop_after.0),
            loop_started: false,
        }
    }

    /// The death-animation cursor `elapsed` after the animation started.
    pub fn cursor(self, elapsed: Duration, sample_rate: u32) -> (r: Samples)
        requires
            self.song_cursor.0 + elapsed_samples_spec(elapsed, sample_rate) <= i64::MAX,
        ensures
            r.0 == self.song_cursor.0 + elapsed_samples_spec(elapsed, sample_rate),
    {
        let e = elapsed_samples(elapsed, sample_rate);
        Samples(self.song_cursor.0 + e)
    }

    /// Starts the death loop once the cursor reaches its start, exactly once; returns
    /// where it starts.
    pub fn start_loop_if_due(&mut self, cursor: Samples) -> (r: Option<Samples>)
        ensures
            (*final(self), r) == loop_step(*old(self), cursor),
    {
        if self.loop_started || cursor.0 < self.loop_at.0 {
            None
        } else {
            self.loop_started = true;
            Some(self.loop_at)
        }
    }
}

/// One poll of the death loop: it starts when the cursor has reached its start and it
/// has not started yet.
pub open spec fn loop_step(s: GameOverState, cursor: Samples) -> (GameOverState, Option<Samples>) {
    if s.loop_started || cursor.0 < s.loop_at.0 {
        (s, None)
    } else {
        (GameOverState { loop_started: true, ..s }, Some(s.loop_at))
    }
}

/// The death loop starts exactly once: the first poll at or past its start reports it,
/// and no poll after a report reports it again.
pub proof fn law_death_loop_starts_once(s: GameOverState, first: Samples, later: Samples)
    ensures
        !s.loop_started && first.0 >= s.loop_at.0 ==> loop_step(s, first).1 == Some(s.loop_at),
        loop_step(s, first).1 is Some ==> loop_step(loop_step(s, first).0, later).1 is None,
        first.0 < s.loop_at.0 ==> loop_step(s, first).1 is None,
{
}

/// A confirmed restart: due once its delay has passed.
#[derive(Debug, Clone, Copy)]
pub struct GameOverRestart {
    pub delay: Duration,
}

impl GameOverRestart {
    pub fn new() -> (r: Self)
        ensures
            duration_nanos(r.delay) == CONFIRM_RESTART_DELAY_MS as int * 1_000_000,
    {
        GameOverRestart { delay: confirm_restart_delay() }
    }

    /// Whether `elapsed` since the confirmation has reached the delay.
    pub fn is_due(self, elapsed: Duration) -> (r: bool)
        ensures
            r == (duration_nanos(elapsed) >= duration_nanos(self.delay)),
    {
        nanos_of(elapsed) >= nanos_of(self.delay)
    }
}

} // verus!
