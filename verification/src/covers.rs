//! Hold covers: the sparks over a receptor while a hold note is held, played as a start
//! animation, a looping hold animation, then an end animation.

use vstd::prelude::*;
use crate::holds::{Lane, lane_idx, lane_at, lane_index};
use crate::timing::Samples;

verus! {

/// Frame rate of the cover animations.
pub const COVER_FPS: u16 = 24;

#[derive(Debug, Clone, Copy, PartialEq, Eq, Structural)]
pub enum HoldCoverPhase {
    Start,
    Hold,
    End,
}

#[derive(Debug, Clone, Copy, PartialEq, Eq, Structural)]
pub struct ActiveHoldCover {
    pub lane: Lane,
    pub hold_end_at: Samples,
    pub phase: HoldCoverPhase,
    pub phase_started_at: Samples,
}

/// Frames in a lane's start, hold and end animations.
#[derive(Debug, Clone, Copy, PartialEq, Eq, Structural)]
pub struct CoverFrameCounts {
    pub start: usize,
    pub hold: usize,
    pub end: usize,
}

/// The frame `cursor` shows of an animation of `count` frames started at `started_at`,
/// at 24 frames per second: wrapping when looped, none past the end otherwise, none
/// before the start or for an empty animation.
pub open spec fn cover_frame_spec(cursor: Samples, sample_rate: u32, started_at: Samples, count: usize, looped: bool) -> Option<usize> {
    if count == 0 || cursor.0 < started_at.0 {
        None
    } else {
        let rate = if sample_rate == 0 { 1 } else { sample_rate as int };
        let f = (cursor.0 - started_at.0) * COVER_FPS / rate;
        if looped {
            Some((f % (count as int)) as usize)
        } else if f < count {
            Some(f as usize)
        } else {
            None
        }
    }
}

pub fn cover_frame(cursor: Samples, sample_rate: u32, started_at: Samples, count: usize, looped: bool) -> (r: Option<usize>)
    ensures
        r == cover_frame_spec(cursor, sample_rate, started_at, count, looped),
{
    if count == 0 || cursor.0 < started_at.0 {
        return None;
    }
    let rate: i128 = if sample_rate == 0 { 1 } else { sample_rate as i128 };
    let d: i128 = (cursor.0 as i128) - (started_at.0 as i128);
    assert(0 <= d * 24 <= 0xffff_ffff_ffff_ffff * 24) by (nonlinear_arith)
        requires 0 <= d <= 0xffff_ffff_ffff_ffff;
    let f: i128 = d * (COVER_FPS as i128) / rate;
    if looped {
        Some((f % (count as i128)) as usize)
    } else if f < (count as i128) {
        Some(f as usize)
    } else {
        None
    }
}

/// One draw of a cover: a cover still holding at its hold end turns to its end
/// animation from there; a finished start animation gives way to the hold loop from
/// `cursor`. Returns the cover as it stays (none once it has played out) and the frame
/// to draw.
pub open spec fn cover_step(a: ActiveHoldCover, cursor: Samples, sample_rate: u32, counts: CoverFrameCounts) -> (
    Option<ActiveHoldCover>,
    Option<(HoldCoverPhase, usize)>,
) {
    let a1 = if a.phase != HoldCoverPhase::End && cursor.0 >= a.hold_end_at.0 {
        ActiveHoldCover { phase: HoldCoverPhase::End, phase_started_at: a.hold_end_at, ..a }
    } else {
        a
    };
    let (a2, frame): (ActiveHoldCover, Option<(HoldCoverPhase, usize)>) = match a1.phase {
        HoldCoverPhase::Start => match cover_frame_spec(cursor, sample_rate, a1.phase_started_at, counts.start, false) {
            Some(i) => (a1, Some((HoldCoverPhase::Start, i))),
            None => {
                let h = ActiveHoldCover { phase: HoldCoverPhase::Hold, phase_started_at: cursor, ..a1 };
                match cover_frame_spec(cursor, sample_rate, cursor, counts.hold, true) {
                    Some(i) => (h, Some((HoldCoverPhase::Hold, i))),
                    None => (h, None),
                }
            },
        },
        HoldCoverPhase::Hold => match cover_frame_spec(cursor, sample_rate, a1.phase_started_at, counts.hold, true) {
            Some(i) => (a1, Some((HoldCoverPhase::Hold, i))),
            None => (a1, None),
        },
        HoldCoverPhase::End => match cover_frame_spec(cursor, sample_rate, a1.phase_started_at, counts.end, false) {
            Some(i) => (a1, Some((HoldCoverPhase::End, i))),
            None => (a1, None),
        },
    };
    match frame {
        Some(f) => (Some(a2), Some(f)),
        None => (None, None),
    }
}

/// The frames drawn for the first `n` lanes, in lane order.
pub open spec fn covers_output(
    active: Seq<Option<ActiveHoldCover>>,
    cursor: Samples,
    sample_rate: u32,
    counts: Seq<CoverFrameCounts>,
    n: int,
) -> Seq<(Lane, HoldCoverPhase, usize)>
    decreases n,
{
    if n <= 0 {
        Seq::empty()
    } else {
        let rest = covers_output(active, cursor, sample_rate, counts, n - 1);
        match active[n - 1] {
            Some(a) => match cover_step(a, cursor, sample_rate, counts[lane_idx(a.lane)]).1 {
                Some((phase, i)) => rest.push((a.lane, phase, i)),
                None => rest,
            },
            None => rest,
        }
    }
}

/// The covers of the four lanes.
#[derive(Debug, Clone)]
pub struct HoldCovers {
    pub active: Vec<Option<ActiveHoldCover>>,
}

impl HoldCovers {
    pub open spec fn wf(&self) -> bool {
        self.active.len() == 4
    }

    pub fn new() -> (r: Self)
        ensures
            r.wf(),
            forall|i: int| 0 <= i < 4 ==> r.active@[i] is None,
    {
        HoldCovers { active: vec![None, None, None, None] }
    }

    /// Starts a lane's cover for a hold ending at `hold_end_at`; a hold already over
    /// at `cursor` gets none.
    pub fn start(&mut self, lane: Lane, cursor: Samples, hold_end_at: Samples)
        requires
            old(self).wf(),
        ensures
            final(self).wf(),
            hold_end_at.0 <= cursor.0 ==> final(self).active@ == old(self).active@,
            hold_end_at.0 > cursor.0 ==> final(self).active@ == old(self).active@.update(
                lane_idx(lane),
                Some(ActiveHoldCover { lane, hold_end_at, phase: HoldCoverPhase::Start, phase_started_at: cursor }),
            ),
    {
        if hold_end_at.0 <= cursor.0 {
            return;
        }
        self.active.set(
            lane_index(lane),
            Some(ActiveHoldCover { lane, hold_end_at, phase: HoldCoverPhase::Start, phase_started_at: cursor }),
        );
    }

    /// Ends a lane's cover at `cursor` unless it is already ending.
    pub fn end(&mut self, lane: Lane, cursor: Samples)
        requires
            old(self).wf(),
        ensures
            final(self).wf(),
            final(self).active@ == match old(self).active@[lane_idx(lane)] {
                Some(a) if a.phase != HoldCoverPhase::End => old(self).active@.update(
                    lane_idx(lane),
                    Some(ActiveHoldCover { phase: HoldCoverPhase::End, phase_started_at: cursor, ..a }),
                ),
                _ => old(self).active@,
            },
    {
        let i = lane_index(lane);
        match self.active[i] {
            Some(a) => {
                if a.phase != HoldCoverPhase::End {
                    self.active.set(i, Some(ActiveHoldCover { phase: HoldCoverPhase::End, phase_started_at: cursor, ..a }));
                }
            },
            None => {},
        }
    }

    /// The frames to draw at `cursor` for each lane with a cover, in lane order, moving
    /// each cover on as [`cover_step`] says and dropping those that have played out.
    pub fn frames(&mut self, cursor: Samples, sample_rate: u32, counts: [CoverFrameCounts; 4]) -> (r: Vec<(Lane, HoldCoverPhase, usize)>)
        requires
            old(self).wf(),
        ensures
            final(self).wf(),
            r@ == covers_output(old(self).active@, cursor, sample_rate, counts@, 4),
            forall|i: int| 0 <= i < 4 ==> #[trigger] final(self).active@[i] == match old(self).active@[i] {
                Some(a) => cover_step(a, cursor, sample_rate, counts@[lane_idx(a.lane)]).0,
                None => None,
            },
    {
        let ghost before = self.active@;
        let mut out: Vec<(Lane, HoldCoverPhase, usize)> = Vec::new();
        let mut i: usize = 0;
        while i < 4
            invariant
                i <= 4,
                self.active@.len() == 4,
                before.len() == 4,
                before == old(self).active@,
                counts@.len() == 4,
                out@ == covers_output(before, cursor, sample_rate, counts@, i as int),
                forall|k: int| 0 <= k < i ==> #[trigger] self.active@[k] == match before[k] {
                    Some(a) => cover_step(a, cursor, sample_rate, counts@[lane_idx(a.lane)]).0,
                    None => None,
                },
                forall|k: int| i <= k < 4 ==> #[trigger] self.active@[k] == before[k],
            decreases 4 - i,
        {
            match self.active[i] {
                Some(a) => {
                    let (next, frame) = step_cover(a, cursor, sample_rate, counts[lane_index(a.lane)]);
                    self.active.set(i, next);
                    match frame {
                        Some((phase, f)) => out.push((a.lane, phase, f)),
                        None => {},
                    }
                },
                None => {},
            }
            i = i + 1;
        }
        out
    }
}

fn step_cover(a: ActiveHoldCover, cursor: Samples, sample_rate: u32, counts: CoverFrameCounts) -> (r: (
    Option<ActiveHoldCover>,
    Option<(HoldCoverPhase, usize)>,
))
    ensures
        r == cover_step(a, cursor, sample_rate, counts),
{
    let a1 = if a.phase != HoldCoverPhase::End && cursor.0 >= a.hold_end_at.0 {
        ActiveHoldCover { phase: HoldCoverPhase::End, phase_started_at: a.hold_end_at, ..a }
    } else {
        a
    };
    let (a2, frame) = match a1.phase {
        HoldCoverPhase::Start => match cover_frame(cursor, sample_rate, a1.phase_started_at, counts.start, false) {
            Some(i) => (a1, Some((HoldCoverPhase::Start, i))),
            None => {
                let h = ActiveHoldCover { phase: HoldCoverPhase::Hold, phase_started_at: cursor, ..a1 };
                match cover_frame(cursor, sample_rate, cursor, counts.hold, true) {
                    Some(i) => (h, Some((HoldCoverPhase::Hold, i))),
                    None => (h, None),
                }
            },
        },
        HoldCoverPhase::Hold => match cover_frame(cursor, sample_rate, a1.phase_started_at, counts.hold, true) {
            Some(i) => (a1, Some((HoldCoverPhase::Hold, i))),
            None => (a1, None),
        },
        HoldCoverPhase::End => match cover_frame(cursor, sample_rate, a1.phase_started_at, counts.end, false) {
            Some(i) => (a1, Some((HoldCoverPhase::End, i))),
            None => (a1, None),
        },
    };
    match frame {
        Some(f) => (Some(a2), Some(f)),
        None => (None, None),
    }
}

/// A cover never goes back: once ending it stays ending while it is drawn.
pub proof fn law_cover_end_is_final(a: ActiveHoldCover, cursor: Samples, sample_rate: u32, counts: CoverFrameCounts)
    requires
        a.phase == HoldCoverPhase::End,
    ensures
        cover_step(a, cursor, sample_rate, counts).0 matches Some(b) ==> b.phase == HoldCoverPhase::End
            && b.phase_started_at == a.phase_started_at,
{
}

} // verus!
