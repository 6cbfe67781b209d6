//! Sample-cursor time and Flixel-style frame timing.

use vstd::prelude::*;

verus! {

/// A position on the audio timeline, counted in output samples.
#[derive(Debug, Clone, Copy, PartialEq, Eq, Structural, Hash, Default)]
pub struct Samples(pub i64);

/// `a - b`, saturating at the bounds of `i64` (`i64::saturating_sub`).
pub open spec fn sat_sub_i64(a: i64, b: i64) -> i64 {
    if a - b > i64::MAX {
        i64::MAX
    } else if a - b < i64::MIN {
        i64::MIN
    } else {
        (a - b) as i64
    }
}

/// `a + b`, saturating at the bounds of `i64` (`i64::saturating_add`).
pub open spec fn sat_add_i64(a: i64, b: i64) -> i64 {
    if a + b > i64::MAX {
        i64::MAX
    } else if a + b < i64::MIN {
        i64::MIN
    } else {
        (a + b) as i64
    }
}

pub fn saturating_sub_i64(a: i64, b: i64) -> (r: i64)
    ensures
        r == sat_sub_i64(a, b),
{
    let d = (a as i128) - (b as i128);
    if d > i64::MAX as i128 {
        i64::MAX
    } else if d < i64::MIN as i128 {
        i64::MIN
    } else {
        d as i64
    }
}

pub fn saturating_add_i64(a: i64, b: i64) -> (r: i64)
    ensures
        r == sat_add_i64(a, b),
{
    let d = (a as i128) + (b as i128);
    if d > i64::MAX as i128 {
        i64::MAX
    } else if d < i64::MIN as i128 {
        i64::MIN
    } else {
        d as i64
    }
}

/// Samples elapsed from `started_at` to `cursor`, never negative.
pub open spec fn elapsed_samples(cursor: Samples, started_at: Samples) -> int {
    let d = sat_sub_i64(cursor.0, started_at.0);
    if d < 0 {
        0
    } else {
        d as int
    }
}

pub open spec fn at_least_one(x: int) -> int {
    if x < 1 {
        1
    } else {
        x
    }
}

/// Frames completed since `started_at` at `fps`: Flixel advances only once the
/// accumulated time strictly exceeds a frame's length, so an exact boundary still
/// shows the earlier frame.
pub open spec fn raw_flixel_frame_spec(cursor: Samples, sample_rate: u32, started_at: Samples, fps: u16) -> int {
    let e = elapsed_samples(cursor, started_at);
    if e == 0 {
        0
    } else {
        let f = (e * at_least_one(fps as int) - 1) / at_least_one(sample_rate as int);
        if f > usize::MAX {
            usize::MAX as int
        } else {
            f
        }
    }
}

pub fn elapsed_since(cursor: Samples, started_at: Samples) -> (e: u64)
    ensures
        e == elapsed_samples(cursor, started_at),
{
    let d = saturating_sub_i64(cursor.0, started_at.0);
    if d < 0 {
        0
    } else {
        d as u64
    }
}

fn raw_flixel_frame(cursor: Samples, sample_rate: u32, started_at: Samples, fps: u16) -> (r: usize)
    ensures
        r == raw_flixel_frame_spec(cursor, sample_rate, started_at, fps),
{
    let elapsed = elapsed_since(cursor, started_at) as u128;
    if elapsed == 0 {
        return 0;
    }
    let fps1: u128 = if fps == 0 {
        1
    } else {
        fps as u128
    };
    let sr1: u128 = if sample_rate == 0 {
        1
    } else {
        sample_rate as u128
    };
    assert(elapsed * fps1 <= 0xffff_ffff_ffff_ffffu128 * 0xffffu128) by (nonlinear_arith)
        requires
            elapsed <= 0xffff_ffff_ffff_ffffu128,
            fps1 <= 0xffffu128,
    ;
    let numerator = elapsed * fps1;
    assert(numerator >= 1) by (nonlinear_arith)
        requires
            numerator == elapsed * fps1,
            elapsed >= 1,
            fps1 >= 1,
    ;
    let f = (numerator - 1) / sr1;
    if f > usize::MAX as u128 {
        usize::MAX
    } else {
        f as usize
    }
}

/// Frame of a `frame_count`-frame animation started at `started_at`: looping wraps,
/// one-shot holds the last frame; animations of at most one frame stay on frame 0.
pub open spec fn flixel_frame_index_spec(
    cursor: Samples,
    sample_rate: u32,
    started_at: Samples,
    fps: u16,
    frame_count: usize,
    looped: bool,
) -> int {
    if frame_count <= 1 {
        0
    } else {
        let f = raw_flixel_frame_spec(cursor, sample_rate, started_at, fps);
        if looped {
            f % (frame_count as int)
        } else if f < frame_count - 1 {
            f
        } else {
            frame_count - 1
        }
    }
}

pub fn flixel_frame_index(
    cursor: Samples,
    sample_rate: u32,
    started_at: Samples,
    fps: u16,
    frame_count: usize,
    looped: bool,
) -> (r: usize)
    ensures
        r == flixel_frame_index_spec(cursor, sample_rate, started_at, fps, frame_count, looped),
        frame_count > 0 ==> r < frame_count,
{
    if frame_count <= 1 {
        return 0;
    }
    let frame = raw_flixel_frame(cursor, sample_rate, started_at, fps);
    if looped {
        frame % frame_count
    } else if frame < frame_count - 1 {
        frame
    } else {
        frame_count - 1
    }
}

/// Like [`flixel_frame_index`], but a one-shot animation disappears once it has played
/// through, and nothing shows before it starts.
pub open spec fn visible_flixel_frame_index_spec(
    cursor: Samples,
    sample_rate: u32,
    started_at: Samples,
    fps: u16,
    frame_count: usize,
    looped: bool,
) -> Option<int> {
    if frame_count == 0 || cursor.0 < started_at.0 {
        None
    } else {
        let f = raw_flixel_frame_spec(cursor, sample_rate, started_at, fps);
        if looped {
            Some(f % (frame_count as int))
        } else if f < frame_count {
            Some(f)
        } else {
            None
        }
    }
}

pub fn visible_flixel_frame_index(
    cursor: Samples,
    sample_rate: u32,
    started_at: Samples,
    fps: u16,
    frame_count: usize,
    looped: bool,
) -> (r: Option<usize>)
    ensures
        match visible_flixel_frame_index_spec(cursor, sample_rate, started_at, fps, frame_count, looped) {
            Some(i) => r == Some(i as usize) && i < frame_count,
            None => r is None,
        },
{
    if frame_count == 0 || cursor.0 < started_at.0 {
        return None;
    }
    let frame = raw_flixel_frame(cursor, sample_rate, started_at, fps);
    if looped {
        Some(frame % frame_count)
    } else if frame < frame_count {
        Some(frame)
    } else {
        None
    }
}

/// Whole frames elapsed at `fps` since `started_at` (truncating).
pub open spec fn elapsed_frame_spec(cursor: Samples, started_at: Samples, sample_rate: u32, fps: u16) -> int {
    elapsed_samples(cursor, started_at) * (fps as int) / at_least_one(sample_rate as int)
}

pub fn elapsed_frame(cursor: Samples, started_at: Samples, sample_rate: u32, fps: u16) -> (r: u32)
    ensures
        r == elapsed_frame_spec(cursor, started_at, sample_rate, fps) % 0x1_0000_0000,
{
    let elapsed = elapsed_since(cursor, started_at) as u128;
    let sr1: u128 = if sample_rate == 0 {
        1
    } else {
        sample_rate as u128
    };
    assert(elapsed * (fps as u128) <= 0xffff_ffff_ffff_ffffu128 * 0xffffu128) by (nonlinear_arith)
        requires
            elapsed <= 0xffff_ffff_ffff_ffffu128,
            fps <= 0xffff,
    ;
    let f = elapsed * (fps as u128) / sr1;
    (f % 0x1_0000_0000) as u32
}

/// Frame offset into a label of `frame_count` frames: looping wraps, one-shot holds the
/// last frame.
pub open spec fn label_frame_offset_spec(
    cursor: Samples,
    started_at: Samples,
    sample_rate: u32,
    fps: u16,
    frame_count: u32,
    looped: bool,
) -> int {
    if frame_count <= 1 {
        0
    } else {
        let f = elapsed_frame_spec(cursor, started_at, sample_rate, fps) % 0x1_0000_0000;
        if looped {
            f % (frame_count as int)
        } else if f < frame_count - 1 {
            f
        } else {
            frame_count - 1
        }
    }
}

pub fn label_frame_offset(
    cursor: Samples,
    started_at: Samples,
    sample_rate: u32,
    fps: u16,
    frame_count: u32,
    looped: bool,
) -> (r: u32)
    ensures
        r == label_frame_offset_spec(cursor, started_at, sample_rate, fps, frame_count, looped),
{
    if frame_count <= 1 {
        return 0;
    }
    let frame = elapsed_frame(cursor, started_at, sample_rate, fps);
    if looped {
        frame % frame_count
    } else if frame < frame_count - 1 {
        frame
    } else {
        frame_count - 1
    }
}

/// Samples that `frame_count` frames last at `fps` (at least one frame, truncating
/// division, then the bits of the quotient as an `i64`).
pub open spec fn animation_duration_samples_spec(frame_count: u32, sample_rate: u32, fps: u16) -> i64 {
    (#[verifier::truncate] ((at_least_one(frame_count as int) * at_least_one(sample_rate as int)
        / at_least_one(fps as int)) as i64))
}

pub fn animation_duration_samples(frame_count: u32, sample_rate: u32, fps: u16) -> (r: i64)
    ensures
        r == animation_duration_samples_spec(frame_count, sample_rate, fps),
{
    let fc: u128 = if frame_count == 0 {
        1
    } else {
        frame_count as u128
    };
    let sr: u128 = if sample_rate == 0 {
        1
    } else {
        sample_rate as u128
    };
    let f: u128 = if fps == 0 {
        1
    } else {
        fps as u128
    };
    assert(fc * sr <= 0xffff_ffffu128 * 0xffff_ffffu128) by (nonlinear_arith)
        requires
            fc <= 0xffff_ffffu128,
            sr <= 0xffff_ffffu128,
    ;
    let prod = fc * sr;
    assert(prod / f <= prod) by (nonlinear_arith)
        requires
            f >= 1,
            prod >= 0,
    ;
    let q = prod / f;
    #[verifier::truncate]
    (q as i64)
}

/// Samples in `seconds` whole seconds at `sample_rate` (at least 1 Hz).
pub open spec fn whole_seconds_to_samples_spec(seconds: u16, sample_rate: u32) -> int {
    seconds * at_least_one(sample_rate as int)
}

pub fn whole_seconds_to_samples(seconds: u16, sample_rate: u32) -> (r: i64)
    ensures
        r == whole_seconds_to_samples_spec(seconds, sample_rate),
{
    let sr: i64 = if sample_rate == 0 {
        1
    } else {
        sample_rate as i64
    };
    assert((seconds as i64) * sr <= 0xffffi64 * 0xffff_ffffi64) by (nonlinear_arith)
        requires
            0 <= seconds <= 0xffff,
            1 <= sr <= 0xffff_ffff,
    ;
    (seconds as i64) * sr
}

} // verus!
