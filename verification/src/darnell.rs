//! The Darnell story-mode can cutscene: ten seconds of scripted sounds, character poses
//! and can kicks before the countdown, timed on the song's sample cursor.
//!
//! Cue times are milliseconds after the cutscene starts; a cue is reached once
//! `elapsed_samples / sample_rate >= ms / 1000`, compared exactly.

use vstd::prelude::*;
use crate::assets::DarnellCutsceneAudio;
use crate::timing::{Samples, at_least_one, sat_sub_i64, sat_add_i64, saturating_sub_i64,
    saturating_add_i64, whole_seconds_to_samples, whole_seconds_to_samples_spec};

verus! {

/// Length of the cutscene in whole seconds.
pub const CUTSCENE_DURATION_SECONDS: u16 = 10;

/// Frame rate of the can animations.
pub const CUTSCENE_FPS: u16 = 24;

/// Number of sound cues.
pub const CUTSCENE_AUDIO_CUE_COUNT: usize = 8;

/// When each sound cue plays, in milliseconds after the start.
pub open spec fn audio_cue_ms(i: int) -> int {
    if i == 0 { 700 }
    else if i == 1 { 5000 }
    else if i == 2 { 6000 }
    else if i == 3 { 6400 }
    else if i == 4 { 6900 }
    else if i == 5 { 7100 }
    else if i == 6 { 7900 }
    else { 8200 }
}

pub open spec fn audio_cue_sound(i: int) -> DarnellCutsceneAudio {
    if i == 0 { DarnellCutsceneAudio::Music }
    else if i == 1 { DarnellCutsceneAudio::Lighter }
    else if i == 2 { DarnellCutsceneAudio::GunPrep }
    else if i == 3 { DarnellCutsceneAudio::KickCanUp }
    else if i == 4 { DarnellCutsceneAudio::KickCanForward }
    else if i == 5 { DarnellCutsceneAudio::Shot }
    else if i == 6 { DarnellCutsceneAudio::DarnellLaugh }
    else { DarnellCutsceneAudio::NeneLaugh }
}

fn audio_cue(i: usize) -> (r: (u64, DarnellCutsceneAudio))
    requires
        i < CUTSCENE_AUDIO_CUE_COUNT,
    ensures
        r.0 == audio_cue_ms(i as int),
        r.1 == audio_cue_sound(i as int),
{
    if i == 0 { (700, DarnellCutsceneAudio::Music) }
    else if i == 1 { (5000, DarnellCutsceneAudio::Lighter) }
    else if i == 2 { (6000, DarnellCutsceneAudio::GunPrep) }
    else if i == 3 { (6400, DarnellCutsceneAudio::KickCanUp) }
    else if i == 4 { (6900, DarnellCutsceneAudio::KickCanForward) }
    else if i == 5 { (7100, DarnellCutsceneAudio::Shot) }
    else if i == 6 { (7900, DarnellCutsceneAudio::DarnellLaugh) }
    else { (8200, DarnellCutsceneAudio::NeneLaugh) }
}

/// Whether `elapsed` samples at `sample_rate` (at least 1 Hz) reach `ms` milliseconds.
pub open spec fn reached(elapsed: int, ms: int, sample_rate: u32) -> bool {
    elapsed * 1000 >= ms * at_least_one(sample_rate as int)
}

/// `ms` milliseconds in samples at `sample_rate` (at least 1 Hz), rounded half up.
pub open spec fn ms_to_samples(ms: int, sample_rate: u32) -> int {
    (ms * at_least_one(sample_rate as int) + 500) / 1000
}

fn ms_to_samples_exec(ms: u64, sample_rate: u32) -> (r: i64)
    requires
        ms <= 10_000,
    ensures
        r == ms_to_samples(ms as int, sample_rate),
{
    let rate: u64 = if sample_rate == 0 { 1 } else { sample_rate as u64 };
    proof {
        assert(ms * rate <= 10_000 * 0xffff_ffff) by (nonlinear_arith)
            requires ms <= 10_000, rate <= 0xffff_ffff;
    }
    ((ms * rate + 500) / 1000) as i64
}

/// The cutscene's timeline: it starts ten seconds before the countdown cursor and ends
/// there; which sound cues have played.
#[derive(Debug, Clone)]
pub struct DarnellIntroCutsceneState {
    pub started_at: Samples,
    pub countdown_cursor: Samples,
    pub played_audio: Vec<bool>,
}

/// Samples elapsed since the start, never negative.
pub open spec fn elapsed_since_start(started_at: Samples, cursor: Samples) -> int {
    let d = sat_sub_i64(cursor.0, started_at.0);
    if d < 0 { 0 } else { d as int }
}

/// The sound cues due at `elapsed` that have not played, among the first `n`, in order.
pub open spec fn due_cues(played: Seq<bool>, elapsed: int, sample_rate: u32, n: int) -> Seq<DarnellCutsceneAudio>
    decreases n,
{
    if n <= 0 {
        Seq::empty()
    } else {
        due_cues(played, elapsed, sample_rate, n - 1) + if !played[n - 1] && reached(
            elapsed,
            audio_cue_ms(n - 1),
            sample_rate,
        ) {
            seq![audio_cue_sound(n - 1)]
        } else {
            Seq::empty()
        }
    }
}

impl DarnellIntroCutsceneState {
    pub open spec fn wf(&self) -> bool {
        self.played_audio.len() == CUTSCENE_AUDIO_CUE_COUNT
    }

    pub open spec fn active_spec(&self, cursor: Samples) -> bool {
        cursor.0 >= self.started_at.0 && cursor.0 < self.countdown_cursor.0
    }

    /// A cutscene ending at `countdown_cursor`, started ten seconds (at `sample_rate`,
    /// at least 1 Hz) before it, with no sound played.
    pub fn new(countdown_cursor: Samples, sample_rate: u32) -> (r: Self)
        ensures
            r.wf(),
            r.started_at.0 == sat_sub_i64(
                countdown_cursor.0,
                whole_seconds_to_samples_spec(CUTSCENE_DURATION_SECONDS, sample_rate) as i64,
            ),
            r.countdown_cursor == countdown_cursor,
            forall|i: int| 0 <= i < CUTSCENE_AUDIO_CUE_COUNT ==> !r.played_audio@[i],
    {
        let length = whole_seconds_to_samples(CUTSCENE_DURATION_SECONDS, sample_rate);
        let mut played: Vec<bool> = Vec::new();
        let mut i: usize = 0;
        while i < CUTSCENE_AUDIO_CUE_COUNT
            invariant
                i <= CUTSCENE_AUDIO_CUE_COUNT,
                played@.len() == i,
                forall|j: int| 0 <= j < i ==> !played@[j],
            decreases CUTSCENE_AUDIO_CUE_COUNT - i,
        {
            played.push(false);
            i = i + 1;
        }
        DarnellIntroCutsceneState {
            started_at: Samples(saturating_sub_i64(countdown_cursor.0, length)),
            countdown_cursor,
            played_audio: played,
        }
    }

    /// The song's clock starts where the cutscene starts.
    pub fn song_start_cursor(&self) -> (r: Samples)
        ensures
            r == self.started_at,
    {
        self.started_at
    }

    /// Gameplay input waits until the countdown.
    pub fn blocks_input(&self, cursor: Samples) -> (r: bool)
        ensures
            r == (cursor.0 < self.countdown_cursor.0),
    {
        cursor.0 < self.countdown_cursor.0
    }

    /// The cutscene shows from its start until the countdown.
    pub fn active_at(&self, cursor: Samples) -> (r: bool)
        ensures
            r == self.active_spec(cursor),
    {
        cursor.0 >= self.started_at.0 && cursor.0 < self.countdown_cursor.0
    }

    fn elapsed(&self, cursor: Samples) -> (r: i64)
        ensures
            r == elapsed_since_start(self.started_at, cursor),
            r >= 0,
    {
        let d = saturating_sub_i64(cursor.0, self.started_at.0);
        if d < 0 { 0 } else { d }
    }

    /// The sound cues to play now: while active, every cue reached that has not played,
    /// in cue order, each marked played. Outside the cutscene nothing plays or changes.
    pub fn tick_audio(&mut self, cursor: Samples, sample_rate: u32) -> (r: Vec<DarnellCutsceneAudio>)
        requires
            old(self).wf(),
        ensures
            final(self).wf(),
            final(self).started_at == old(self).started_at,
            final(self).countdown_cursor == old(self).countdown_cursor,
            !old(self).active_spec(cursor) ==> r@.len() == 0 && final(self).played_audio@
                == old(self).played_audio@,
            old(self).active_spec(cursor) ==> {
                let e = elapsed_since_start(old(self).started_at, cursor);
                &&& r@ == due_cues(old(self).played_audio@, e, sample_rate, CUTSCENE_AUDIO_CUE_COUNT as int)
                &&& forall|i: int| 0 <= i < CUTSCENE_AUDIO_CUE_COUNT ==> #[trigger] final(self).played_audio@[i]
                    == (old(self).played_audio@[i] || reached(e, audio_cue_ms(i), sample_rate))
            },
    {
        let mut out: Vec<DarnellCutsceneAudio> = Vec::new();
        if !self.active_at(cursor) {
            return out;
        }
        let elapsed = self.elapsed(cursor);
        let rate: u64 = if sample_rate == 0 { 1 } else { sample_rate as u64 };
        let ghost old_played = self.played_audio@;
        let mut i: usize = 0;
        while i < CUTSCENE_AUDIO_CUE_COUNT
            invariant
                i <= CUTSCENE_AUDIO_CUE_COUNT,
                self.played_audio@.len() == CUTSCENE_AUDIO_CUE_COUNT,
                old_played.len() == CUTSCENE_AUDIO_CUE_COUNT,
                self.started_at == old(self).started_at,
                self.countdown_cursor == old(self).countdown_cursor,
                old_played == old(self).played_audio@,
                elapsed == elapsed_since_start(self.started_at, cursor),
                elapsed >= 0,
                rate == at_least_one(sample_rate as int),
                out@ == due_cues(old_played, elapsed as int, sample_rate, i as int),
                forall|j: int| 0 <= j < i ==> #[trigger] self.played_audio@[j]
                    == (old_played[j] || reached(elapsed as int, audio_cue_ms(j), sample_rate)),
                forall|j: int| i <= j < CUTSCENE_AUDIO_CUE_COUNT ==> #[trigger] self.played_audio@[j]
                    == old_played[j],
            decreases CUTSCENE_AUDIO_CUE_COUNT - i,
        {
            let (at_ms, sound) = audio_cue(i);
            let reached_now: bool = (elapsed as i128) * 1000 >= (at_ms as i128) * (rate as i128);
            if !self.played_audio[i] && reached_now {
                self.played_audio.set(i, true);
                out.push(sound);
            }
            i = i + 1;
        }
        out
    }

    /// The character poses the script has started by `cursor` while active: each as
    /// (character, animation, cursor at which it started).
    pub fn due_poses(&self, cursor: Samples, sample_rate: u32) -> (r: Vec<(&'static str, &'static str, Samples)>)
        ensures
            !self.active_spec(cursor) ==> r@.len() == 0,
            self.active_spec(cursor) ==> r@ == due_poses_spec(self.started_at, cursor, sample_rate, 8),
    {
        let mut out: Vec<(&'static str, &'static str, Samples)> = Vec::new();
        if !self.active_at(cursor) {
            return out;
        }
        let mut i: usize = 0;
        while i < 8
            invariant
                i <= 8,
                out@ == due_poses_spec(self.started_at, cursor, sample_rate, i as int),
            decreases 8 - i,
        {
            let (at_ms, target, pose) = pose_cue(i);
            let started = Samples(saturating_add_i64(self.started_at.0, ms_to_samples_exec(at_ms, sample_rate)));
            if cursor.0 >= started.0 {
                out.push((target, pose, started));
            }
            i = i + 1;
        }
        out
    }
}

fn pose_cue(i: usize) -> (r: (u64, &'static str, &'static str))
    requires
        i < 8,
    ensures
        r.0 <= 10_000,
        (r.0 as int, r.1, r.2) == pose_cue_table(i as int),
{
    if i == 0 { (0, "boyfriend", "intro1") }
    else if i == 1 { (5000, "dad", "lightCan") }
    else if i == 2 { (6000, "boyfriend", "cock") }
    else if i == 3 { (6400, "dad", "kickCan") }
    else if i == 4 { (6900, "dad", "kneeCan") }
    else if i == 5 { (7100, "boyfriend", "intro2") }
    else if i == 6 { (7900, "dad", "laughCutscene") }
    else { (8200, "girlfriend", "laughCutscene") }
}

/// The scripted poses: milliseconds after the start, character, animation.
pub open spec fn pose_cue_table(i: int) -> (int, &'static str, &'static str) {
    if i == 0 { (0, "boyfriend", "intro1") }
    else if i == 1 { (5000, "dad", "lightCan") }
    else if i == 2 { (6000, "boyfriend", "cock") }
    else if i == 3 { (6400, "dad", "kickCan") }
    else if i == 4 { (6900, "dad", "kneeCan") }
    else if i == 5 { (7100, "boyfriend", "intro2") }
    else if i == 6 { (7900, "dad", "laughCutscene") }
    else { (8200, "girlfriend", "laughCutscene") }
}

/// The poses among the first `n` whose start has been reached, with their start cursors.
pub open spec fn due_poses_spec(started_at: Samples, cursor: Samples, sample_rate: u32, n: int) -> Seq<
    (&'static str, &'static str, Samples),
>
    decreases n,
{
    if n <= 0 {
        Seq::empty()
    } else {
        let (ms, target, pose) = pose_cue_table(n - 1);
        let start = sat_add_i64(started_at.0, ms_to_samples(ms, sample_rate) as i64);
        due_poses_spec(started_at, cursor, sample_rate, n - 1) + if cursor.0 >= start {
            seq![(target, pose, Samples(start))]
        } else {
            Seq::empty()
        }
    }
}

/// The two can animations.
#[derive(Debug, Clone, Copy, PartialEq, Eq, Structural)]
pub enum CanClip {
    KickedUp,
    KickedForward,
}

/// The can clip showing `elapsed` samples into the cutscene, with the offset (in
/// samples from the start) at which it began: kicked up from 6.4 s to 6.9 s, kicked
/// forward from 6.9 s to 7.1 s.
pub open spec fn can_clip_spec(elapsed: int, sample_rate: u32) -> Option<(CanClip, Samples)> {
    if reached(elapsed, 6400, sample_rate) && !reached(elapsed, 6900, sample_rate) {
        Some((CanClip::KickedUp, Samples(ms_to_samples(6400, sample_rate) as i64)))
    } else if reached(elapsed, 6900, sample_rate) && !reached(elapsed, 7100, sample_rate) {
        Some((CanClip::KickedForward, Samples(ms_to_samples(6900, sample_rate) as i64)))
    } else {
        None
    }
}

pub fn can_clip_at(elapsed: i64, sample_rate: u32) -> (r: Option<(CanClip, Samples)>)
    ensures
        r == can_clip_spec(elapsed as int, sample_rate),
{
    let rate: i128 = if sample_rate == 0 { 1 } else { sample_rate as i128 };
    let e: i128 = (elapsed as i128) * 1000;
    if e >= 6400 * rate && e < 6900 * rate {
        return Some((CanClip::KickedUp, Samples(ms_to_samples_exec(6400, sample_rate))));
    }
    if e >= 6900 * rate && e < 7100 * rate {
        return Some((CanClip::KickedForward, Samples(ms_to_samples_exec(6900, sample_rate))));
    }
    None
}

/// The frame index of a clip of `frame_count` frames started at `started_at`, at 24
/// frames per second, held on its last frame; none for an empty clip.
pub open spec fn frame_for_cursor_spec(frame_count: usize, cursor: Samples, started_at: Samples, sample_rate: u32) -> Option<usize> {
    if frame_count == 0 {
        None
    } else {
        let index = elapsed_since_start(started_at, cursor) * CUTSCENE_FPS / at_least_one(sample_rate as int);
        Some(if index > frame_count - 1 { (frame_count - 1) as usize } else { index as usize })
    }
}

pub fn frame_for_cursor(frame_count: usize, cursor: Samples, started_at: Samples, sample_rate: u32) -> (r: Option<usize>)
    requires
        elapsed_since_start(started_at, cursor) * CUTSCENE_FPS <= i64::MAX,
    ensures
        r == frame_for_cursor_spec(frame_count, cursor, started_at, sample_rate),
{
    if frame_count == 0 {
        return None;
    }
    let d = saturating_sub_i64(cursor.0, started_at.0);
    let elapsed: i64 = if d < 0 { 0 } else { d };
    let rate: i64 = if sample_rate == 0 { 1 } else { sample_rate as i64 };
    let index: i64 = elapsed * (CUTSCENE_FPS as i64) / rate;
    let last: usize = frame_count - 1;
    if (index as i128) > (last as i128) {
        Some(last)
    } else {
        Some(index as usize)
    }
}

/// The script's sound cues fire once each: after a tick, a tick at the same cursor
/// plays nothing more.
pub proof fn law_cues_play_once(played: Seq<bool>, elapsed: int, sample_rate: u32)
    requires
        played.len() == CUTSCENE_AUDIO_CUE_COUNT,
    ensures
        ({
            let after = Seq::new(
                CUTSCENE_AUDIO_CUE_COUNT as nat,
                |i: int| played[i] || reached(elapsed, audio_cue_ms(i), sample_rate),
            );
            due_cues(after, elapsed, sample_rate, CUTSCENE_AUDIO_CUE_COUNT as int).len() == 0
        }),
{
    let after = Seq::new(
        CUTSCENE_AUDIO_CUE_COUNT as nat,
        |i: int| played[i] || reached(elapsed, audio_cue_ms(i), sample_rate),
    );
    lemma_due_cues_none(after, elapsed, sample_rate, CUTSCENE_AUDIO_CUE_COUNT as int);
}

proof fn lemma_due_cues_none(played: Seq<bool>, elapsed: int, sample_rate: u32, n: int)
    requires
        n <= played.len(),
        forall|i: int| 0 <= i < n ==> played[i] || !reached(elapsed, audio_cue_ms(i), sample_rate),
    ensures
        due_cues(played, elapsed, sample_rate, n).len() == 0,
    decreases n,
{
    if n > 0 {
        lemma_due_cues_none(played, elapsed, sample_rate, n - 1);
    }
}

} // verus!
