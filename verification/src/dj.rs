//! The Freeplay DJ's state machine: intro, idle, the once-per-idle AFK easter egg, the
//! cartoon after two idle minutes, and the confirm animation.

use vstd::prelude::*;
use crate::timing::{Samples, sat_sub_i64, saturating_sub_i64, elapsed_frame, elapsed_frame_spec,
    label_frame_offset, label_frame_offset_spec, animation_duration_samples,
    animation_duration_samples_spec, whole_seconds_to_samples, whole_seconds_to_samples_spec};

verus! {

/// Frame rate of the DJ animations.
pub const DJ_FPS: u16 = 24;

pub const DJ_INTRO_LABEL: &'static str = "Intro";

pub const DJ_IDLE_LABEL: &'static str = "Idle";

pub const DJ_CONFIRM_LABEL: &'static str = "Confirm";

pub const DJ_AFK_LABEL: &'static str = "AFK";

pub const DJ_CARTOON_LABEL: &'static str = "Watching TV";

/// Idle seconds before the AFK easter egg.
pub const DJ_IDLE_EGG_SECONDS: u16 = 60;

/// Idle seconds before the cartoon.
pub const DJ_IDLE_CARTOON_SECONDS: u16 = 120;

#[derive(Debug, Clone, Copy, PartialEq, Eq, Structural)]
pub enum DjState {
    Intro,
    Idle,
    IdleEasterEgg,
    Cartoon,
    Confirm,
}

/// A label's frame count from its duration: at least one frame when the label exists,
/// `missing` when it does not.
pub fn label_frame_count(duration: Option<u32>, missing: u32) -> (r: u32)
    ensures
        r == match duration {
            Some(d) => if d == 0 { 1 } else { d },
            None => missing,
        },
{
    match duration {
        Some(d) => if d == 0 { 1 } else { d },
        None => missing,
    }
}

/// The DJ's label frame counts and where it is in its state machine.
#[derive(Debug, Clone, Copy, PartialEq, Eq, Structural)]
pub struct DjClock {
    pub intro_frame_count: u32,
    pub idle_frame_count: u32,
    pub confirm_frame_count: u32,
    pub afk_frame_count: u32,
    pub cartoon_frame_count: u32,
    pub state: DjState,
    pub state_started_at: Samples,
    pub idle_started_at: Samples,
    pub seen_idle_easter_egg: bool,
}

/// One tick: the intro and the easter egg give way to idle once played through (the new
/// state starting where the old one ended); idle turns to the cartoon after two minutes
/// when there is one, else to the easter egg after one minute if it has not played since
/// idling began.
pub open spec fn tick_spec(s: DjClock, cursor: Samples, sample_rate: u32) -> DjClock {
    match s.state {
        DjState::Intro => {
            if elapsed_frame_spec(cursor, s.state_started_at, sample_rate, DJ_FPS) % 0x1_0000_0000
                >= s.intro_frame_count {
                let start = Samples(
                    (s.state_started_at.0 + animation_duration_samples_spec(s.intro_frame_count, sample_rate, DJ_FPS)) as i64,
                );
                DjClock {
                    state: DjState::Idle,
                    state_started_at: start,
                    idle_started_at: start,
                    seen_idle_easter_egg: false,
                    ..s
                }
            } else {
                s
            }
        },
        DjState::Idle => {
            let idle = sat_sub_i64(cursor.0, s.idle_started_at.0);
            if s.cartoon_frame_count > 0 && idle >= whole_seconds_to_samples_spec(DJ_IDLE_CARTOON_SECONDS, sample_rate) {
                DjClock { state: DjState::Cartoon, state_started_at: cursor, ..s }
            } else if s.afk_frame_count > 0 && !s.seen_idle_easter_egg && idle
                >= whole_seconds_to_samples_spec(DJ_IDLE_EGG_SECONDS, sample_rate) {
                DjClock {
                    state: DjState::IdleEasterEgg,
                    state_started_at: cursor,
                    seen_idle_easter_egg: true,
                    ..s
                }
            } else {
                s
            }
        },
        DjState::IdleEasterEgg => {
            if elapsed_frame_spec(cursor, s.state_started_at, sample_rate, DJ_FPS) % 0x1_0000_0000
                >= s.afk_frame_count {
                DjClock {
                    state: DjState::Idle,
                    state_started_at: Samples(
                        (s.state_started_at.0 + animation_duration_samples_spec(s.afk_frame_count, sample_rate, DJ_FPS)) as i64,
                    ),
                    ..s
                }
            } else {
                s
            }
        },
        DjState::Cartoon => s,
        DjState::Confirm => s,
    }
}

/// The DJ replaying its intro from `cursor`, with the idle timer and the easter egg
/// restarted.
pub open spec fn reset_intro_spec(s: DjClock, cursor: Samples) -> DjClock {
    DjClock {
        state: DjState::Intro,
        state_started_at: cursor,
        idle_started_at: cursor,
        seen_idle_easter_egg: false,
        ..s
    }
}

/// The DJ playing its confirm animation from `cursor`.
pub open spec fn enter_confirm_spec(s: DjClock, cursor: Samples) -> DjClock {
    DjClock { state: DjState::Confirm, state_started_at: cursor, ..s }
}

/// A player action: an idle state (idle, easter egg, cartoon) returns to idle at
/// `cursor` with the idle timer and the easter egg restarted; intro and confirm go on.
pub open spec fn player_action_spec(s: DjClock, cursor: Samples) -> DjClock {
    match s.state {
        DjState::Idle | DjState::IdleEasterEgg | DjState::Cartoon => DjClock {
            state: DjState::Idle,
            state_started_at: cursor,
            idle_started_at: cursor,
            seen_idle_easter_egg: false,
            ..s
        },
        _ => s,
    }
}

/// The end of an intro or easter egg started at the state start fits the timeline.
pub open spec fn tick_fits(s: DjClock, sample_rate: u32) -> bool {
    &&& s.state_started_at.0 + animation_duration_samples_spec(s.intro_frame_count, sample_rate, DJ_FPS) <= i64::MAX
    &&& s.state_started_at.0 + animation_duration_samples_spec(s.afk_frame_count, sample_rate, DJ_FPS) <= i64::MAX
    &&& s.state_started_at.0 + animation_duration_samples_spec(s.intro_frame_count, sample_rate, DJ_FPS) >= i64::MIN
    &&& s.state_started_at.0 + animation_duration_samples_spec(s.afk_frame_count, sample_rate, DJ_FPS) >= i64::MIN
}

/// The label that a state plays, its frame count, and whether it loops.
pub open spec fn state_label(s: DjClock) -> (&'static str, u32, bool) {
    match s.state {
        DjState::Intro => (DJ_INTRO_LABEL, s.intro_frame_count, false),
        DjState::Idle => (DJ_IDLE_LABEL, s.idle_frame_count, true),
        DjState::IdleEasterEgg => (DJ_AFK_LABEL, s.afk_frame_count, false),
        DjState::Cartoon => (DJ_CARTOON_LABEL, s.cartoon_frame_count, true),
        DjState::Confirm => (DJ_CONFIRM_LABEL, s.confirm_frame_count, false),
    }
}

impl DjClock {
    /// A DJ idling from cursor 0 (the Freeplay screen restarts it with `reset_intro`).
    pub fn new(
        intro_frame_count: u32,
        idle_frame_count: u32,
        confirm_frame_count: u32,
        afk_frame_count: u32,
        cartoon_frame_count: u32,
    ) -> (r: Self)
        ensures
            r == (DjClock {
                intro_frame_count,
                idle_frame_count,
                confirm_frame_count,
                afk_frame_count,
                cartoon_frame_count,
                state: DjState::Idle,
                state_started_at: Samples(0),
                idle_started_at: Samples(0),
                seen_idle_easter_egg: false,
            }),
    {
        DjClock {
            intro_frame_count,
            idle_frame_count,
            confirm_frame_count,
            afk_frame_count,
            cartoon_frame_count,
            state: DjState::Idle,
            state_started_at: Samples(0),
            idle_started_at: Samples(0),
            seen_idle_easter_egg: false,
        }
    }

    /// Replays the intro from `cursor`, restarting the idle timer and the easter egg.
    pub fn reset_intro(&mut self, cursor: Samples)
        ensures
            *final(self) == reset_intro_spec(*old(self), cursor),
    {
        self.state = DjState::Intro;
        self.state_started_at = cursor;
        self.idle_started_at = cursor;
        self.seen_idle_easter_egg = false;
    }

    /// Plays the confirm animation from `cursor`.
    pub fn enter_confirm(&mut self, cursor: Samples)
        ensures
            *final(self) == enter_confirm_spec(*old(self), cursor),
    {
        self.state = DjState::Confirm;
        self.state_started_at = cursor;
    }

    /// A player action in an idle state (idle, easter egg, cartoon) returns to idle at
    /// `cursor` and restarts the idle timer and the easter egg; intro and confirm go on.
    pub fn on_player_action(&mut self, cursor: Samples)
        ensures
            *final(self) == player_action_spec(*old(self), cursor),
    {
        match self.state {
            DjState::Idle | DjState::IdleEasterEgg | DjState::Cartoon => {
                self.state = DjState::Idle;
                self.state_started_at = cursor;
                self.idle_started_at = cursor;
                self.seen_idle_easter_egg = false;
            },
            _ => {},
        }
    }

    pub fn tick(&mut self, cursor: Samples, sample_rate: u32)
        requires
            tick_fits(*old(self), sample_rate),
        ensures
            *final(self) == tick_spec(*old(self), cursor, sample_rate),
    {
        match self.state {
            DjState::Intro => {
                if elapsed_frame(cursor, self.state_started_at, sample_rate, DJ_FPS) >= self.intro_frame_count {
                    let intro_samples = animation_duration_samples(self.intro_frame_count, sample_rate, DJ_FPS);
                    self.state = DjState::Idle;
                    self.state_started_at = Samples(self.state_started_at.0 + intro_samples);
                    self.idle_started_at = self.state_started_at;
                    self.seen_idle_easter_egg = false;
                }
            },
            DjState::Idle => {
                let idle = saturating_sub_i64(cursor.0, self.idle_started_at.0);
                if self.cartoon_frame_count > 0 && idle >= whole_seconds_to_samples(
                    DJ_IDLE_CARTOON_SECONDS,
                    sample_rate,
                ) {
                    self.state = DjState::Cartoon;
                    self.state_started_at = cursor;
                } else if self.afk_frame_count > 0 && !self.seen_idle_easter_egg && idle
                    >= whole_seconds_to_samples(DJ_IDLE_EGG_SECONDS, sample_rate) {
                    self.state = DjState::IdleEasterEgg;
                    self.state_started_at = cursor;
                    self.seen_idle_easter_egg = true;
                }
            },
            DjState::IdleEasterEgg => {
                if elapsed_frame(cursor, self.state_started_at, sample_rate, DJ_FPS) >= self.afk_frame_count {
                    let afk_samples = animation_duration_samples(self.afk_frame_count, sample_rate, DJ_FPS);
                    self.state = DjState::Idle;
                    self.state_started_at = Samples(self.state_started_at.0 + afk_samples);
                }
            },
            DjState::Cartoon => {},
            DjState::Confirm => {},
        }
    }

    /// The label to draw and the frame within it: looping labels wrap, one-shot labels
    /// hold their last frame.
    pub fn label_frame(&self, cursor: Samples, sample_rate: u32) -> (r: (&'static str, u32))
        ensures
            r.0 == state_label(*self).0,
            r.1 == label_frame_offset_spec(
                cursor,
                self.state_started_at,
                sample_rate,
                DJ_FPS,
                state_label(*self).1,
                state_label(*self).2,
            ),
    {
        let (label, frame_count, looped) = match self.state {
            DjState::Intro => (DJ_INTRO_LABEL, self.intro_frame_count, false),
            DjState::Idle => (DJ_IDLE_LABEL, self.idle_frame_count, true),
            DjState::IdleEasterEgg => (DJ_AFK_LABEL, self.afk_frame_count, false),
            DjState::Cartoon => (DJ_CARTOON_LABEL, self.cartoon_frame_count, true),
            DjState::Confirm => (DJ_CONFIRM_LABEL, self.confirm_frame_count, false),
        };
        (label, label_frame_offset(cursor, self.state_started_at, sample_rate, DJ_FPS, frame_count, looped))
    }
}

/// The easter egg plays at most once per idle period: once seen, ticks keep it seen
/// (outside the intro, which starts a new period) and never enter it again; the cartoon
/// and confirm states are left only by an action or a reset.
pub proof fn law_dj_easter_egg_once(s: DjClock, cursor: Samples, sample_rate: u32)
    ensures
        s.seen_idle_easter_egg && s.state != DjState::Intro ==> tick_spec(s, cursor, sample_rate).seen_idle_easter_egg,
        s.seen_idle_easter_egg && s.state == DjState::Idle ==> tick_spec(s, cursor, sample_rate).state
            != DjState::IdleEasterEgg,
        s.state == DjState::Cartoon ==> tick_spec(s, cursor, sample_rate) == s,
        s.state == DjState::Confirm ==> tick_spec(s, cursor, sample_rate) == s,
{
}

} // verus!
