//! The four countdown cues before a song starts, and which one is due at a cursor.

use vstd::prelude::*;
use crate::timing::Samples;

verus! {

#[derive(Debug, Clone, Copy, PartialEq, Eq, Structural)]
pub enum CountdownStep {
    Three,
    Two,
    One,
    Go,
}

/// The cue whose window holds the cursor, counting back from the song start in beats
/// (`crochet` samples each): Three in the fourth beat before it, then Two, One, Go;
/// none before those four beats or from the song start on.
pub open spec fn countdown_step_spec(cursor: Samples, crochet: i64) -> Option<CountdownStep> {
    let c = cursor.0 as int;
    let q = crochet as int;
    if c < -4 * q || c >= 0 {
        None
    } else if c < -3 * q {
        Some(CountdownStep::Three)
    } else if c < -2 * q {
        Some(CountdownStep::Two)
    } else if c < -q {
        Some(CountdownStep::One)
    } else {
        Some(CountdownStep::Go)
    }
}

pub fn countdown_step(cursor: Samples, crochet: i64) -> (r: Option<CountdownStep>)
    requires
        -0x1fff_ffff_ffff_ffff <= crochet <= 0x1fff_ffff_ffff_ffff,
    ensures
        r == countdown_step_spec(cursor, crochet),
{
    if cursor.0 < -4 * crochet || cursor.0 >= 0 {
        return None;
    }
    if cursor.0 < -3 * crochet {
        Some(CountdownStep::Three)
    } else if cursor.0 < -2 * crochet {
        Some(CountdownStep::Two)
    } else if cursor.0 < -crochet {
        Some(CountdownStep::One)
    } else {
        Some(CountdownStep::Go)
    }
}

/// The four countdown sounds (Ogg Vorbis bytes).
#[derive(Debug, Clone)]
pub struct CountdownSounds {
    pub three: Vec<u8>,
    pub two: Vec<u8>,
    pub one: Vec<u8>,
    pub go: Vec<u8>,
}

/// The name of a cue's sound under `sounds/gameplay/countdown/funkin/`.
pub fn countdown_sound_name(step: CountdownStep) -> (r: &'static str)
    ensures
        r@ == match step {
            CountdownStep::Three => "introTHREE"@,
            CountdownStep::Two => "introTWO"@,
            CountdownStep::One => "introONE"@,
            CountdownStep::Go => "introGO"@,
        },
{
    proof {
        reveal_strlit("introTHREE");
        reveal_strlit("introTWO");
        reveal_strlit("introONE");
        reveal_strlit("introGO");
    }
    match step {
        CountdownStep::Three => "introTHREE",
        CountdownStep::Two => "introTWO",
        CountdownStep::One => "introONE",
        CountdownStep::Go => "introGO",
    }
}

impl CountdownSounds {
    /// The sound of a cue.
    pub fn source(&self, step: CountdownStep) -> (r: &Vec<u8>)
        ensures
            *r == match step {
                CountdownStep::Three => self.three,
                CountdownStep::Two => self.two,
                CountdownStep::One => self.one,
                CountdownStep::Go => self.go,
            },
    {
        match step {
            CountdownStep::Three => &self.three,
            CountdownStep::Two => &self.two,
            CountdownStep::One => &self.one,
            CountdownStep::Go => &self.go,
        }
    }
}

/// Countdown cue playback: the loaded sounds, if any, and the last cue window seen, so
/// that each window plays once.
#[derive(Debug, Clone)]
pub struct CountdownAudio {
    pub sounds: Option<CountdownSounds>,
    pub last_step: Option<CountdownStep>,
}

/// One debounced poll: the cue, when the cursor's window differs from the last one seen.
pub open spec fn next_step_spec(last: Option<CountdownStep>, cursor: Samples, crochet: i64) -> (
    Option<CountdownStep>,
    Option<CountdownStep>,
) {
    let step = countdown_step_spec(cursor, crochet);
    if step == last {
        (last, None)
    } else {
        (step, step)
    }
}

impl CountdownAudio {
    /// Silent countdown: no sounds, no window seen.
    pub fn silent() -> (r: Self)
        ensures
            r.sounds is None,
            r.last_step is None,
    {
        CountdownAudio { sounds: None, last_step: None }
    }

    /// Countdown playback from the default sounds when audio is enabled: `loaded` is
    /// what loading them gave (`None` when a sound could not be read or decoded). With
    /// audio disabled nothing is used.
    pub fn load_default_or_warn(audio_enabled: bool, loaded: Option<CountdownSounds>) -> (r: Self)
        ensures
            r.last_step is None,
            !audio_enabled ==> r.sounds is None,
            audio_enabled ==> r.sounds == loaded,
    {
        if !audio_enabled {
            return CountdownAudio::silent();
        }
        CountdownAudio { sounds: loaded, last_step: None }
    }

    /// Forgets the last window seen, so the countdown can play again.
    pub fn reset(&mut self)
        ensures
            final(self).last_step is None,
            final(self).sounds == old(self).sounds,
    {
        self.last_step = None;
    }

    /// The cue to play at `cursor`: one per window, the first time a poll lands in it.
    pub fn next_step(&mut self, cursor: Samples, crochet: i64) -> (r: Option<CountdownStep>)
        requires
            -0x1fff_ffff_ffff_ffff <= crochet <= 0x1fff_ffff_ffff_ffff,
        ensures
            (final(self).last_step, r) == next_step_spec(old(self).last_step, cursor, crochet),
            final(self).sounds == old(self).sounds,
    {
        let step = countdown_step(cursor, crochet);
        if step == self.last_step {
            return None;
        }
        self.last_step = step;
        step
    }

    /// The sound to play at `cursor`, if a new cue is due and sounds are loaded.
    pub fn tick(&mut self, cursor: Samples, crochet: i64) -> (r: Option<CountdownStep>)
        requires
            -0x1fff_ffff_ffff_ffff <= crochet <= 0x1fff_ffff_ffff_ffff,
        ensures
            final(self).last_step == next_step_spec(old(self).last_step, cursor, crochet).0,
            final(self).sounds == old(self).sounds,
            r == (if old(self).sounds is Some { next_step_spec(old(self).last_step, cursor, crochet).1 } else { None }),
    {
        let step = self.next_step(cursor, crochet);
        if self.sounds.is_none() {
            return None;
        }
        step
    }
}

/// Each cue window plays once: right after a poll, a second poll whose cursor lies in
/// the same window reports nothing.
pub proof fn law_countdown_debounce(last: Option<CountdownStep>, c1: Samples, c2: Samples, crochet: i64)
    requires
        countdown_step_spec(c1, crochet) == countdown_step_spec(c2, crochet),
    ensures
        next_step_spec(next_step_spec(last, c1, crochet).0, c2, crochet).1 is None,
{
}

/// The Ready, Set and Go images.
#[derive(Debug, Clone, Copy, PartialEq, Eq, Structural)]
pub enum CountdownImage {
    Ready,
    SetImage,
    Go,
}

/// The image shown at the cursor and the cursor its beat began at: Ready in the third
/// beat before the song, then Set, then Go; none outside those three beats.
pub open spec fn countdown_image_spec(cursor: Samples, crochet: i64) -> Option<(CountdownImage, int)> {
    let c = cursor.0 as int;
    let q = crochet as int;
    if c < -3 * q || c >= 0 {
        None
    } else if c < -2 * q {
        Some((CountdownImage::Ready, -3 * q))
    } else if c < -q {
        Some((CountdownImage::SetImage, -2 * q))
    } else {
        Some((CountdownImage::Go, -q))
    }
}

pub fn countdown_image_at(cursor: Samples, crochet: i64) -> (r: Option<(CountdownImage, i64)>)
    requires
        -0x1fff_ffff_ffff_ffff <= crochet <= 0x1fff_ffff_ffff_ffff,
    ensures
        match countdown_image_spec(cursor, crochet) {
            Some((image, start)) => r == Some((image, start as i64)),
            None => r is None,
        },
{
    if cursor.0 < -3 * crochet || cursor.0 >= 0 {
        return None;
    }
    if cursor.0 < -2 * crochet {
        Some((CountdownImage::Ready, -3 * crochet))
    } else if cursor.0 < -crochet {
        Some((CountdownImage::SetImage, -2 * crochet))
    } else {
        Some((CountdownImage::Go, -crochet))
    }
}

/// The countdown starts five beats before the song.
pub fn countdown_start_cursor(crochet: i64) -> (r: Samples)
    requires
        -0x1999_9999_9999_9999 <= crochet <= 0x1999_9999_9999_9999,
    ensures
        r.0 == -5 * crochet,
{
    Samples(-5 * crochet)
}

} // verus!
