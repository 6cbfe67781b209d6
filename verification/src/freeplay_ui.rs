//! Freeplay screen rules: the DJ's backing text, the difficulty-star animation frame,
//! and when a selection's preview music is queued and started.

use vstd::prelude::*;
use std::time::Duration;
use crate::clock::{duration_nanos, nanos_of};
use crate::songs::PreviewTarget;
use crate::text::str_eq;
use crate::timing::Samples;

verus! {

/// The three lines of scrolling text behind the Freeplay DJ.
#[derive(Debug, Clone, PartialEq, Eq)]
pub struct FreeplayBackingText {
    pub text1: String,
    pub text2: String,
    pub text3: String,
}

impl FreeplayBackingText {
    pub fn new(text1: String, text2: String, text3: String) -> (r: Self)
        ensures
            r.text1@ == text1@,
            r.text2@ == text2@,
            r.text3@ == text3@,
    {
        FreeplayBackingText { text1, text2, text3 }
    }

    /// Boyfriend's backing text.
    pub fn boyfriend() -> (r: Self)
        ensures
            r.text1@ == "BOYFRIEND"@,
            r.text2@ == "HOT BLOODED IN MORE WAYS THAN ONE"@,
            r.text3@ == "PROTECT YO NUTS"@,
    {
        FreeplayBackingText::new(
            "BOYFRIEND".to_owned(),
            "HOT BLOODED IN MORE WAYS THAN ONE".to_owned(),
            "PROTECT YO NUTS".to_owned(),
        )
    }

    pub fn texts(&self) -> (r: (&str, &str, &str))
        ensures
            r.0@ == self.text1@,
            r.1@ == self.text2@,
            r.2@ == self.text3@,
    {
        (self.text1.as_str(), self.text2.as_str(), self.text3.as_str())
    }
}

/// Frame of the star animation for a rating with no stars.
pub const STARS_ZERO_FRAME: u32 = 1500;

/// Frames per rating block.
pub const STARS_BLOCK_FRAMES: u32 = 100;

/// Frame rate of the star animation.
pub const STARS_FPS: u16 = 24;

/// The star animation frame for a rating: rating 0 has its own frame; ratings 1 to 15
/// (higher ones count as 15) each loop inside their own block of 100 frames, at 24
/// frames per second from cursor 0 (earlier cursors count as 0).
pub open spec fn difficulty_frame_spec(rating: u8, cursor: Samples, sample_rate: u32) -> int {
    if rating == 0 {
        STARS_ZERO_FRAME as int
    } else {
        let block = (if rating > 15 { 15 } else { rating as int }) - 1;
        let elapsed = if cursor.0 < 0 { 0 } else { cursor.0 as int };
        let rate = if sample_rate == 0 { 1 } else { sample_rate as int };
        let frame = (elapsed * STARS_FPS / rate) % 0x1_0000_0000;
        block * STARS_BLOCK_FRAMES + frame % STARS_BLOCK_FRAMES as int
    }
}

pub fn difficulty_frame(rating: u8, cursor: Samples, sample_rate: u32) -> (r: u32)
    ensures
        r == difficulty_frame_spec(rating, cursor, sample_rate),
{
    if rating == 0 {
        return STARS_ZERO_FRAME;
    }
    let block: u32 = (if rating > 15 { 15 } else { rating as u32 }) - 1;
    let elapsed: u128 = if cursor.0 < 0 { 0 } else { cursor.0 as u128 };
    let rate: u128 = if sample_rate == 0 { 1 } else { sample_rate as u128 };
    assert(elapsed * 24 <= 0x7fff_ffff_ffff_ffff * 24) by (nonlinear_arith)
        requires elapsed <= 0x7fff_ffff_ffff_ffff;
    let frame: u32 = ((elapsed * (STARS_FPS as u128) / rate) % 0x1_0000_0000) as u32;
    block * STARS_BLOCK_FRAMES + frame % STARS_BLOCK_FRAMES
}

/// The frame of a `frame_count`-frame Freeplay sprite animation at `cursor`, counted at
/// `fps` from cursor 0 (earlier cursors count as 0; the frame number is taken as a
/// `usize`, truncating): looping animations wrap, others hold their last frame; none
/// for an empty animation.
pub open spec fn frame_for_cursor_spec(frame_count: usize, cursor: Samples, sample_rate: u32, fps: u16, looped: bool) -> Option<usize> {
    if frame_count == 0 {
        None
    } else {
        let elapsed = if cursor.0 < 0 { 0 } else { cursor.0 as int };
        let rate = if sample_rate == 0 { 1 } else { sample_rate as int };
        let index = (elapsed * fps / rate) as usize;
        Some(if looped {
            index % frame_count
        } else if index < frame_count {
            index
        } else {
            (frame_count - 1) as usize
        })
    }
}

pub fn frame_for_cursor(frame_count: usize, cursor: Samples, sample_rate: u32, fps: u16, looped: bool) -> (r: Option<usize>)
    ensures
        r == frame_for_cursor_spec(frame_count, cursor, sample_rate, fps, looped),
{
    if frame_count == 0 {
        return None;
    }
    let elapsed: u128 = if cursor.0 < 0 { 0 } else { cursor.0 as u128 };
    let rate: u128 = if sample_rate == 0 { 1 } else { sample_rate as u128 };
    assert(elapsed * fps <= 0x7fff_ffff_ffff_ffff * 0xffff) by (nonlinear_arith)
        requires elapsed <= 0x7fff_ffff_ffff_ffff, fps <= 0xffff;
    let index: usize = (elapsed * (fps as u128) / rate) as usize;
    if looped {
        Some(index % frame_count)
    } else if index < frame_count {
        Some(index)
    } else {
        Some(frame_count - 1)
    }
}

/// How long a selection must stay before its preview loads, in milliseconds.
pub const PREVIEW_DELAY_MS: u64 = 250;

/// Whether the preview delay has passed.
pub fn preview_delay_elapsed(elapsed: Duration) -> (r: bool)
    ensures
        r == (duration_nanos(elapsed) >= PREVIEW_DELAY_MS * 1_000_000),
{
    nanos_of(elapsed) >= (PREVIEW_DELAY_MS as u128) * 1_000_000
}

pub open spec fn opt_view(o: Option<&'static str>) -> Option<Seq<char>> {
    match o {
        Some(s) => Some(s@),
        None => None,
    }
}

/// Two preview targets are the same when they are both random, or the same song (by
/// folder and legacy track), difficulty and variation.
pub open spec fn same_target(a: PreviewTarget, b: PreviewTarget) -> bool {
    match (a, b) {
        (PreviewTarget::Random, PreviewTarget::Random) => true,
        (PreviewTarget::Song(x), PreviewTarget::Song(y)) => x.song.folder@ == y.song.folder@
            && x.song.legacy_inst@ == y.song.legacy_inst@ && x.difficulty == y.difficulty
            && opt_view(x.variation) == opt_view(y.variation),
        _ => false,
    }
}

fn same_target_exec(a: PreviewTarget, b: PreviewTarget) -> (r: bool)
    ensures
        r == same_target(a, b),
{
    match (a, b) {
        (PreviewTarget::Random, PreviewTarget::Random) => true,
        (PreviewTarget::Song(x), PreviewTarget::Song(y)) => {
            let same_variation = match (x.variation, y.variation) {
                (Some(p), Some(q)) => str_eq(p, q),
                (None, None) => true,
                _ => false,
            };
            str_eq(x.song.folder, y.song.folder) && str_eq(x.song.legacy_inst, y.song.legacy_inst)
                && x.difficulty == y.difficulty && same_variation
        },
        _ => false,
    }
}

/// The preview that plays and the one waiting for its delay (with the time it was
/// queued, in nanoseconds on a monotonic clock).
#[derive(Debug, Clone, Copy)]
pub struct PreviewQueue {
    pub target: Option<PreviewTarget>,
    pub queued: Option<(PreviewTarget, u128)>,
}

impl PreviewQueue {
    pub fn new() -> (r: Self)
        ensures
            r.target is None && r.queued is None,
    {
        PreviewQueue { target: None, queued: None }
    }

    /// Drops the playing and the waiting preview.
    pub fn stop(&mut self)
        ensures
            final(self).target is None && final(self).queued is None,
    {
        self.target = None;
        self.queued = None;
    }

    /// Asks for `target` at `now`: ignored (false) when it already plays or waits;
    /// otherwise whatever played stops and it waits for its delay (true).
    pub fn queue(&mut self, target: PreviewTarget, now: Duration) -> (r: bool)
        ensures
            r == !((old(self).target matches Some(t) && same_target(t, target))
                || (old(self).queued matches Some(q) && same_target(q.0, target))),
            !r ==> final(self).target == old(self).target && final(self).queued == old(self).queued,
            r ==> final(self).target is None && final(self).queued == Some((target, duration_nanos(now))),
    {
        let playing = match self.target {
            Some(t) => same_target_exec(t, target),
            None => false,
        };
        let waiting = match self.queued {
            Some(q) => same_target_exec(q.0, target),
            None => false,
        };
        if playing || waiting {
            return false;
        }
        self.stop();
        self.queued = Some((target, nanos_of(now)));
        true
    }

    /// The waiting preview, once its delay has passed at `now`; it stops waiting.
    pub fn take_due(&mut self, now: Duration) -> (r: Option<PreviewTarget>)
        ensures
            final(self).target == old(self).target,
            match old(self).queued {
                Some(q) => if duration_nanos(now) >= q.1 + PREVIEW_DELAY_MS * 1_000_000 {
                    r == Some(q.0) && final(self).queued is None
                } else {
                    r is None && final(self).queued == old(self).queued
                },
                None => r is None && final(self).queued is None,
            },
    {
        match self.queued {
            Some(q) => {
                let n = nanos_of(now);
                if n >= q.1 && n - q.1 >= (PREVIEW_DELAY_MS as u128) * 1_000_000 {
                    self.queued = None;
                    Some(q.0)
                } else {
                    None
                }
            },
            None => None,
        }
    }

    /// Records that `target` started playing.
    pub fn started(&mut self, target: PreviewTarget)
        ensures
            final(self).target == Some(target),
            final(self).queued == old(self).queued,
    {
        self.target = Some(target);
    }
}

} // verus!
