//! Gameplay lanes: held keys, receptor animation state and active hold notes.

use vstd::prelude::*;
use crate::timing::{Samples, sat_sub_i64, saturating_sub_i64};

verus! {

/// The four note lanes, in FNF order.
#[derive(Debug, Clone, Copy, PartialEq, Eq, Structural, Hash)]
pub enum Lane {
    Left,
    Down,
    Up,
    Right,
}

/// Player actions after key mapping.
#[derive(Debug, Clone, Copy, PartialEq, Eq, Structural, Hash)]
pub enum InputAction {
    LaneLeft,
    LaneDown,
    LaneUp,
    LaneRight,
    UiUp,
    UiDown,
    UiLeft,
    UiRight,
    Confirm,
    Back,
    Pause,
    UiPauseScroll,
    UiSelect,
    UiJumpTop,
    UiJumpBottom,
    Debug,
    Reset,
}

#[derive(Debug, Clone, Copy, PartialEq, Eq, Structural, Hash)]
pub enum InputState {
    Pressed,
    Released,
}

/// An input event with the audio cursor at which it was received.
#[derive(Debug, Clone, Copy, PartialEq, Eq, Structural)]
pub struct NormalizedInputEvent {
    pub action: InputAction,
    pub state: InputState,
    pub received_at_nanos: u64,
    pub audio_sample_cursor_at_receive: Samples,
}

impl NormalizedInputEvent {
    pub fn new(
        action: InputAction,
        state: InputState,
        received_at_nanos: u64,
        audio_sample_cursor_at_receive: Samples,
    ) -> (r: Self)
        ensures
            r == (NormalizedInputEvent {
                action,
                state,
                received_at_nanos,
                audio_sample_cursor_at_receive,
            }),
    {
        NormalizedInputEvent { action, state, received_at_nanos, audio_sample_cursor_at_receive }
    }
}

/// Identifies a chart note.
#[derive(Debug, Clone, Copy, PartialEq, Eq, Structural, Hash)]
pub struct NoteId(pub u64);

impl NoteId {
    pub fn new(id: u64) -> (r: Self)
        ensures
            r == NoteId(id),
    {
        NoteId(id)
    }
}

pub open spec fn lane_idx(lane: Lane) -> int {
    match lane {
        Lane::Left => 0,
        Lane::Down => 1,
        Lane::Up => 2,
        Lane::Right => 3,
    }
}

pub open spec fn lane_at(i: int) -> Lane {
    if i == 0 {
        Lane::Left
    } else if i == 1 {
        Lane::Down
    } else if i == 2 {
        Lane::Up
    } else {
        Lane::Right
    }
}

pub fn lane_index(lane: Lane) -> (r: usize)
    ensures
        r == lane_idx(lane),
        r < 4,
{
    match lane {
        Lane::Left => 0,
        Lane::Down => 1,
        Lane::Up => 2,
        Lane::Right => 3,
    }
}

fn lane_of_index(i: usize) -> (r: Lane)
    requires
        i < 4,
    ensures
        r == lane_at(i as int),
        lane_idx(r) == i,
{
    if i == 0 {
        Lane::Left
    } else if i == 1 {
        Lane::Down
    } else if i == 2 {
        Lane::Up
    } else {
        Lane::Right
    }
}

pub open spec fn lane_for_action_spec(action: InputAction) -> Option<Lane> {
    match action {
        InputAction::LaneLeft => Some(Lane::Left),
        InputAction::LaneDown => Some(Lane::Down),
        InputAction::LaneUp => Some(Lane::Up),
        InputAction::LaneRight => Some(Lane::Right),
        _ => None,
    }
}

/// The lane a lane action presses; other actions press none.
pub fn lane_for_action(action: InputAction) -> (r: Option<Lane>)
    ensures
        r == lane_for_action_spec(action),
{
    match action {
        InputAction::LaneLeft => Some(Lane::Left),
        InputAction::LaneDown => Some(Lane::Down),
        InputAction::LaneUp => Some(Lane::Up),
        InputAction::LaneRight => Some(Lane::Right),
        _ => None,
    }
}

// ----- active holds -----

#[derive(Debug, Clone, Copy, PartialEq, Eq, Structural)]
pub struct ActiveHold {
    pub end_at: Samples,
    pub scored_until: Samples,
}

/// A stretch of a hold note scored in one tick.
#[derive(Debug, Clone, Copy, PartialEq, Eq, Structural)]
pub struct HoldTick {
    pub lane: Lane,
    pub elapsed_samples: i64,
}

/// A hold let go of early, with the part of it not yet scored.
#[derive(Debug, Clone, Copy, PartialEq, Eq, Structural)]
pub struct HoldRelease {
    pub hold_end_at: Samples,
    pub elapsed_samples: i64,
}

/// One optional active hold per lane.
#[derive(Debug, Clone, Default)]
pub struct ActiveHolds {
    pub active: [Option<ActiveHold>; 4],
}

pub open spec fn min_samples(a: Samples, b: Samples) -> Samples {
    if a.0 <= b.0 {
        a
    } else {
        b
    }
}

/// Unscored time of a hold up to `cursor` (or its end, whichever is earlier).
pub open spec fn elapsed_until_spec(h: ActiveHold, cursor: Samples) -> i64 {
    sat_sub_i64(min_samples(h.end_at, cursor).0, h.scored_until.0)
}

fn elapsed_until(h: ActiveHold, cursor: Samples) -> (r: i64)
    ensures
        r == elapsed_until_spec(h, cursor),
{
    let until = if h.end_at.0 <= cursor.0 {
        h.end_at
    } else {
        cursor
    };
    saturating_sub_i64(until.0, h.scored_until.0)
}

/// Lanes (in lane order, among the first `n`) whose index satisfies `pred`.
pub open spec fn lanes_where(pred: spec_fn(int) -> bool, n: int) -> Seq<Lane>
    decreases n,
{
    if n <= 0 {
        Seq::empty()
    } else {
        lanes_where(pred, n - 1) + if pred(n - 1) {
            seq![lane_at(n - 1)]
        } else {
            Seq::empty()
        }
    }
}

pub proof fn lemma_lanes_where(pred: spec_fn(int) -> bool, n: int)
    requires
        0 <= n <= 4,
    ensures
        forall|i: int, j: int|
            0 <= i < j < lanes_where(pred, n).len() ==> lane_idx(lanes_where(pred, n)[i]) < lane_idx(
                lanes_where(pred, n)[j],
            ),
        forall|i: int| 0 <= i < lanes_where(pred, n).len() ==> 0 <= lane_idx(#[trigger] lanes_where(pred, n)[i]) < n,
        forall|k: int| 0 <= k < 4 ==> (lanes_where(pred, n).contains(#[trigger] lane_at(k)) <==> (k < n && pred(k))),
    decreases n,
{
    if n > 0 {
        lemma_lanes_where(pred, n - 1);
        let p = lanes_where(pred, n - 1);
        let q = lanes_where(pred, n);
        assert forall|k: int| 0 <= k < 4 implies (q.contains(#[trigger] lane_at(k)) <==> (k < n && pred(k))) by {
            if pred(n - 1) {
                assert(q =~= p.push(lane_at(n - 1)));
                if q.contains(lane_at(k)) {
                    let i = choose|i: int| 0 <= i < q.len() && q[i] == lane_at(k);
                    if i < p.len() {
                        assert(p[i] == lane_at(k));
                        assert(p.contains(lane_at(k)));
                    } else {
                        assert(lane_idx(lane_at(k)) == k);
                        assert(lane_idx(lane_at(n - 1)) == n - 1);
                    }
                }
                if k < n && pred(k) {
                    if k == n - 1 {
                        assert(q[p.len() as int] == lane_at(k));
                    } else {
                        let i = choose|i: int| 0 <= i < p.len() && p[i] == lane_at(k);
                        assert(q[i] == lane_at(k));
                    }
                }
            } else {
                assert(q =~= p);
            }
        }
        if pred(n - 1) {
            assert(q =~= p.push(lane_at(n - 1)));
        } else {
            assert(q =~= p);
        }
    }
}

/// Lanes whose hold is still running at `cursor`, among the first `n`.
pub open spec fn running_lanes(active: Seq<Option<ActiveHold>>, cursor: Samples, n: int) -> Seq<Lane> {
    lanes_where(|k: int| active[k] is Some && active[k]->0.end_at.0 > cursor.0, n)
}

/// Lanes whose hold has ended by `cursor`, among the first `n`.
pub open spec fn ended_lanes(active: Seq<Option<ActiveHold>>, cursor: Samples, n: int) -> Seq<Lane> {
    lanes_where(|k: int| active[k] is Some && active[k]->0.end_at.0 <= cursor.0, n)
}

/// Ticks (in lane order, among the first `n`) of the holds with time left to score.
pub open spec fn ticks_spec(active: Seq<Option<ActiveHold>>, cursor: Samples, n: int) -> Seq<HoldTick>
    decreases n,
{
    if n <= 0 {
        Seq::empty()
    } else {
        ticks_spec(active, cursor, n - 1) + if active[n - 1] is Some && elapsed_until_spec(
            active[n - 1]->0,
            cursor,
        ) > 0 {
            seq![HoldTick { lane: lane_at(n - 1), elapsed_samples: elapsed_until_spec(active[n - 1]->0, cursor) }]
        } else {
            Seq::empty()
        }
    }
}

/// The holds left once those ended by `cursor` are completed.
pub open spec fn after_complete(a: Seq<Option<ActiveHold>>, cursor: Samples) -> Seq<Option<ActiveHold>> {
    Seq::new(4, |k: int| if a[k] is Some && a[k]->0.end_at.0 <= cursor.0 { None } else { a[k] })
}

/// The holds once scored up to `cursor`.
pub open spec fn after_score(a: Seq<Option<ActiveHold>>, cursor: Samples) -> Seq<Option<ActiveHold>> {
    Seq::new(
        4,
        |k: int| match a[k] {
            None => None,
            Some(h) => Some(ActiveHold { end_at: h.end_at, scored_until: min_samples(h.end_at, cursor) }),
        },
    )
}

/// The release reported for lane `k` of `a` at `cursor`.
pub open spec fn release_spec(a: Seq<Option<ActiveHold>>, k: int, cursor: Samples) -> Option<HoldRelease> {
    match a[k] {
        None => None,
        Some(h) => Some(HoldRelease { hold_end_at: h.end_at, elapsed_samples: elapsed_until_spec(h, cursor) }),
    }
}

/// A completed hold is reported once: after completing the holds ended by `c1`, none
/// of those lanes is reported again, runs, or can be released at any later cursor.
pub proof fn law_completion_reported_once(a: Seq<Option<ActiveHold>>, c1: Samples, c2: Samples, k: int)
    requires
        a.len() == 4,
        0 <= k < 4,
        ended_lanes(a, c1, 4).contains(lane_at(k)),
    ensures
        !ended_lanes(after_complete(a, c1), c2, 4).contains(lane_at(k)),
        !running_lanes(after_complete(a, c1), c2, 4).contains(lane_at(k)),
        release_spec(after_complete(a, c1), k, c2) is None,
{
    let b = after_complete(a, c1);
    lemma_lanes_where(|j: int| a[j] is Some && a[j]->0.end_at.0 <= c1.0, 4);
    lemma_lanes_where(|j: int| b[j] is Some && b[j]->0.end_at.0 <= c2.0, 4);
    lemma_lanes_where(|j: int| b[j] is Some && b[j]->0.end_at.0 > c2.0, 4);
}

/// A released hold is gone: releasing the lane again reports nothing, and the lane is
/// neither running nor completed afterwards.
pub proof fn law_release_once(a: Seq<Option<ActiveHold>>, k: int, c1: Samples, c2: Samples)
    requires
        a.len() == 4,
        0 <= k < 4,
    ensures
        release_spec(a.update(k, None), k, c2) is None,
        !ended_lanes(a.update(k, None), c2, 4).contains(lane_at(k)),
        !running_lanes(a.update(k, None), c2, 4).contains(lane_at(k)),
{
    let b = a.update(k, None);
    lemma_lanes_where(|j: int| b[j] is Some && b[j]->0.end_at.0 <= c2.0, 4);
    lemma_lanes_where(|j: int| b[j] is Some && b[j]->0.end_at.0 > c2.0, 4);
}

proof fn lemma_no_ticks(a: Seq<Option<ActiveHold>>, cursor: Samples, n: int)
    requires
        0 <= n <= a.len(),
        forall|k: int| 0 <= k < n ==> (#[trigger] a[k] is Some ==> elapsed_until_spec(a[k]->0, cursor) <= 0),
    ensures
        ticks_spec(a, cursor, n).len() == 0,
    decreases n,
{
    if n > 0 {
        lemma_no_ticks(a, cursor, n - 1);
    }
}

/// Hold time is scored once: right after scoring up to a cursor, scoring again up to
/// the same cursor (or an earlier one) reports nothing.
pub proof fn law_hold_time_scored_once(a: Seq<Option<ActiveHold>>, c1: Samples, c2: Samples)
    requires
        a.len() == 4,
        c2.0 <= c1.0,
    ensures
        ticks_spec(after_score(a, c1), c2, 4).len() == 0,
{
    lemma_no_ticks(after_score(a, c1), c2, 4);
}

/// The hold time a list of ticks scores for `lane`.
pub open spec fn lane_time(ticks: Seq<HoldTick>, lane: Lane) -> int
    decreases ticks.len(),
{
    if ticks.len() == 0 {
        0
    } else {
        lane_time(ticks.drop_last(), lane) + if ticks.last().lane == lane {
            ticks.last().elapsed_samples as int
        } else {
            0
        }
    }
}

/// The holds after scoring at each cursor of `cursors` in turn.
pub open spec fn scored_through(a: Seq<Option<ActiveHold>>, cursors: Seq<Samples>) -> Seq<Option<ActiveHold>>
    decreases cursors.len(),
{
    if cursors.len() == 0 {
        a
    } else {
        after_score(scored_through(a, cursors.drop_last()), cursors.last())
    }
}

/// The hold time scored for `lane` over scoring at each cursor of `cursors` in turn.
pub open spec fn ticked_time(a: Seq<Option<ActiveHold>>, cursors: Seq<Samples>, lane: Lane) -> int
    decreases cursors.len(),
{
    if cursors.len() == 0 {
        0
    } else {
        ticked_time(a, cursors.drop_last(), lane) + lane_time(
            ticks_spec(scored_through(a, cursors.drop_last()), cursors.last(), 4),
            lane,
        )
    }
}

proof fn lemma_lane_time_push(s: Seq<HoldTick>, t: Seq<HoldTick>, lane: Lane)
    requires
        t.len() <= 1,
    ensures
        lane_time(s + t, lane) == lane_time(s, lane) + lane_time(t, lane),
{
    if t.len() == 1 {
        assert((s + t).drop_last() =~= s);
        assert((s + t).last() == t[0]);
        assert(t.drop_last() =~= Seq::<HoldTick>::empty());
        assert(lane_time(Seq::<HoldTick>::empty(), lane) == 0);
        assert(lane_time(t, lane) == lane_time(t.drop_last(), lane) + if t.last().lane == lane {
            t.last().elapsed_samples as int
        } else {
            0
        });
    } else {
        assert(s + t =~= s);
    }
}

/// One scoring pass gives lane `k` the tick of its hold, if that has time to score.
proof fn lemma_lane_time_ticks(a: Seq<Option<ActiveHold>>, cursor: Samples, n: int, k: int)
    requires
        0 <= n <= 4,
        0 <= k < 4,
        a.len() == 4,
    ensures
        lane_time(ticks_spec(a, cursor, n), lane_at(k)) == if k < n && a[k] is Some && elapsed_until_spec(
            a[k]->0,
            cursor,
        ) > 0 {
            elapsed_until_spec(a[k]->0, cursor) as int
        } else {
            0
        },
    decreases n,
{
    if n > 0 {
        lemma_lane_time_ticks(a, cursor, n - 1, k);
        let t = if a[n - 1] is Some && elapsed_until_spec(a[n - 1]->0, cursor) > 0 {
            seq![HoldTick { lane: lane_at(n - 1), elapsed_samples: elapsed_until_spec(a[n - 1]->0, cursor) }]
        } else {
            Seq::empty()
        };
        lemma_lane_time_push(ticks_spec(a, cursor, n - 1), t, lane_at(k));
        assert(ticks_spec(a, cursor, n) == ticks_spec(a, cursor, n - 1) + t);
        assert(lane_idx(lane_at(n - 1)) == n - 1 && lane_idx(lane_at(k)) == k);
        assert(lane_time(Seq::<HoldTick>::empty(), lane_at(k)) == 0);
        if t.len() == 1 {
            assert(t.drop_last() =~= Seq::<HoldTick>::empty());
            assert(lane_time(t, lane_at(k)) == if n - 1 == k { elapsed_until_spec(a[n - 1]->0, cursor) as int } else { 0 });
        } else {
            assert(t =~= Seq::<HoldTick>::empty());
        }
    }
}

proof fn lemma_scored_through(a: Seq<Option<ActiveHold>>, cursors: Seq<Samples>, k: int, e: Samples, c0: Samples)
    requires
        a.len() == 4,
        0 <= k < 4,
        a[k] == Some(ActiveHold { end_at: e, scored_until: c0 }),
        c0.0 < e.0,
        e.0 - c0.0 <= i64::MAX,
        forall|i: int| 0 <= i < cursors.len() ==> c0.0 <= (#[trigger] cursors[i]).0,
        forall|i: int, j: int| 0 <= i <= j < cursors.len() ==> cursors[i].0 <= cursors[j].0,
    ensures
        scored_through(a, cursors).len() == 4,
        scored_through(a, cursors)[k] == Some(ActiveHold {
            end_at: e,
            scored_until: if cursors.len() == 0 { c0 } else { min_samples(e, cursors.last()) },
        }),
        ticked_time(a, cursors, lane_at(k)) == (if cursors.len() == 0 { c0 } else { min_samples(e, cursors.last()) }).0 - c0.0,
    decreases cursors.len(),
{
    if cursors.len() > 0 {
        let prev = cursors.drop_last();
        lemma_scored_through(a, prev, k, e, c0);
        let b = scored_through(a, prev);
        let su = if prev.len() == 0 { c0 } else { min_samples(e, prev.last()) };
        let c = cursors.last();
        if prev.len() > 0 {
            assert(prev.last() == cursors[prev.len() - 1]);
            assert(prev.last().0 <= c.0);
        }
        assert(c0.0 <= c.0);
        lemma_lane_time_ticks(b, c, 4, k);
    }
}

/// Hold time is counted exactly once: for a hold started in lane `k` at `c0` to end at
/// `e`, the time that scoring passes at rising cursors (none before `c0`) report for the
/// lane, plus the time its release at a later cursor `c` reports, is the hold's length up
/// to `c`: `min(e, c) - c0`. Each pass reports the lanes in lane order, each at most once
/// and only with time to score.
pub proof fn law_hold_time_adds_up(
    a: Seq<Option<ActiveHold>>,
    k: int,
    e: Samples,
    c0: Samples,
    cursors: Seq<Samples>,
    c: Samples,
)
    requires
        a.len() == 4,
        0 <= k < 4,
        a[k] == Some(ActiveHold { end_at: e, scored_until: c0 }),
        c0.0 < e.0,
        e.0 - c0.0 <= i64::MAX,
        forall|i: int| 0 <= i < cursors.len() ==> c0.0 <= (#[trigger] cursors[i]).0 && cursors[i].0 <= c.0,
        forall|i: int, j: int| 0 <= i <= j < cursors.len() ==> cursors[i].0 <= cursors[j].0,
        c0.0 <= c.0,
    ensures
        release_spec(scored_through(a, cursors), k, c) matches Some(r)
            && ticked_time(a, cursors, lane_at(k)) + r.elapsed_samples == min_samples(e, c).0 - c0.0,
        forall|i: int|
            0 <= i < cursors.len() ==> ({
                let ticks = #[trigger] ticks_spec(scored_through(a, cursors.take(i)), cursors[i], 4);
                &&& forall|x: int, y: int| 0 <= x < y < ticks.len() ==> lane_idx(ticks[x].lane) < lane_idx(ticks[y].lane)
                &&& forall|x: int| 0 <= x < ticks.len() ==> ticks[x].elapsed_samples > 0
            }),
{
    lemma_scored_through(a, cursors, k, e, c0);
    if cursors.len() > 0 {
        assert(cursors.last() == cursors[cursors.len() - 1]);
    }
    assert forall|i: int| 0 <= i < cursors.len() implies ({
        let ticks = #[trigger] ticks_spec(scored_through(a, cursors.take(i)), cursors[i], 4);
        &&& forall|x: int, y: int| 0 <= x < y < ticks.len() ==> lane_idx(ticks[x].lane) < lane_idx(ticks[y].lane)
        &&& forall|x: int| 0 <= x < ticks.len() ==> ticks[x].elapsed_samples > 0
    }) by {
        lemma_ticks_ordered(scored_through(a, cursors.take(i)), cursors[i], 4);
    }
}

/// A scoring pass lists lanes in lane order, each with time to score.
proof fn lemma_ticks_ordered(a: Seq<Option<ActiveHold>>, cursor: Samples, n: int)
    requires
        0 <= n <= 4,
    ensures
        forall|x: int, y: int|
            0 <= x < y < ticks_spec(a, cursor, n).len() ==> lane_idx(ticks_spec(a, cursor, n)[x].lane) < lane_idx(
                ticks_spec(a, cursor, n)[y].lane,
            ),
        forall|x: int| 0 <= x < ticks_spec(a, cursor, n).len() ==> ticks_spec(a, cursor, n)[x].elapsed_samples > 0
            && 0 <= lane_idx(ticks_spec(a, cursor, n)[x].lane) < n,
    decreases n,
{
    if n > 0 {
        lemma_ticks_ordered(a, cursor, n - 1);
        let p = ticks_spec(a, cursor, n - 1);
        if a[n - 1] is Some && elapsed_until_spec(a[n - 1]->0, cursor) > 0 {
            let t = HoldTick { lane: lane_at(n - 1), elapsed_samples: elapsed_until_spec(a[n - 1]->0, cursor) };
            assert(ticks_spec(a, cursor, n) =~= p.push(t));
            assert(lane_idx(lane_at(n - 1)) == n - 1);
        } else {
            assert(ticks_spec(a, cursor, n) =~= p);
        }
    }
}

impl ActiveHolds {
    pub open spec fn view(&self) -> Seq<Option<ActiveHold>> {
        self.active@
    }

    pub fn new() -> (r: Self)
        ensures
            r@ == seq![None::<ActiveHold>, None, None, None],
    {
        let r = ActiveHolds { active: [None, None, None, None] };
        assert(r@ =~= seq![None::<ActiveHold>, None, None, None]);
        r
    }

    /// Starts a hold in `lane` until `hold_end_at`, if that lies after `cursor`.
    pub fn start(&mut self, lane: Lane, hold_end_at: Samples, cursor: Samples)
        ensures
            hold_end_at.0 > cursor.0 ==> final(self)@ == old(self)@.update(
                lane_idx(lane),
                Some(ActiveHold { end_at: hold_end_at, scored_until: cursor }),
            ),
            hold_end_at.0 <= cursor.0 ==> final(self)@ == old(self)@,
    {
        if hold_end_at.0 > cursor.0 {
            let i = lane_index(lane);
            self.active[i] = Some(ActiveHold { end_at: hold_end_at, scored_until: cursor });
        }
    }

    /// Lets go of the hold in `lane`, reporting its end and its unscored time.
    pub fn release(&mut self, lane: Lane, cursor: Samples) -> (r: Option<HoldRelease>)
        ensures
            final(self)@ == old(self)@.update(lane_idx(lane), None),
            r == match old(self)@[lane_idx(lane)] {
                None => None,
                Some(h) => Some(
                    HoldRelease { hold_end_at: h.end_at, elapsed_samples: elapsed_until_spec(h, cursor) },
                ),
            },
    {
        let i = lane_index(lane);
        let taken = self.active[i];
        self.active[i] = None;
        match taken {
            None => None,
            Some(h) => Some(HoldRelease { hold_end_at: h.end_at, elapsed_samples: elapsed_until(h, cursor) }),
        }
    }

    /// Lanes whose hold is still running at `cursor`, in lane order.
    pub fn active_lanes(&self, cursor: Samples) -> (r: Vec<Lane>)
        ensures
            r@ == running_lanes(self@, cursor, 4),
    {
        let mut out: Vec<Lane> = Vec::new();
        let mut i: usize = 0;
        while i < 4
            invariant
                i <= 4,
                self@.len() == 4,
                out@ == running_lanes(self@, cursor, i as int),
            decreases 4 - i,
        {
            let running = match self.active[i] {
                Some(h) => h.end_at.0 > cursor.0,
                None => false,
            };
            if running {
                out.push(lane_of_index(i));
            }
            assert(out@ =~= running_lanes(self@, cursor, i + 1));
            i = i + 1;
        }
        out
    }

    /// Scores every active hold up to `cursor` (or its end), reporting the newly scored time.
    pub fn score_ticks(&mut self, cursor: Samples) -> (r: Vec<HoldTick>)
        ensures
            r@ == ticks_spec(old(self)@, cursor, 4),
            final(self)@ == after_score(old(self)@, cursor),
            forall|k: int|
                0 <= k < 4 ==> (#[trigger] final(self)@[k]) == match old(self)@[k] {
                    None => None,
                    Some(h) => Some(
                        ActiveHold { end_at: h.end_at, scored_until: min_samples(h.end_at, cursor) },
                    ),
                },
    {
        let ghost before = self@;
        let mut out: Vec<HoldTick> = Vec::new();
        let mut i: usize = 0;
        while i < 4
            invariant
                i <= 4,
                self@.len() == 4,
                before.len() == 4,
                out@ == ticks_spec(before, cursor, i as int),
                forall|k: int| i <= k < 4 ==> #[trigger] self@[k] == before[k],
                forall|k: int|
                    0 <= k < i ==> (#[trigger] self@[k]) == match before[k] {
                        None => None,
                        Some(h) => Some(
                            ActiveHold { end_at: h.end_at, scored_until: min_samples(h.end_at, cursor) },
                        ),
                    },
            decreases 4 - i,
        {
            match self.active[i] {
                None => {
                    assert(out@ =~= ticks_spec(before, cursor, i + 1));
                },
                Some(h) => {
                    let elapsed = elapsed_until(h, cursor);
                    let until = if h.end_at.0 <= cursor.0 {
                        h.end_at
                    } else {
                        cursor
                    };
                    self.active[i] = Some(ActiveHold { end_at: h.end_at, scored_until: until });
                    if elapsed > 0 {
                        out.push(HoldTick { lane: lane_of_index(i), elapsed_samples: elapsed });
                    }
                    assert(out@ =~= ticks_spec(before, cursor, i + 1));
                },
            }
            i = i + 1;
        }
        out
    }

    /// Ends every hold that has reached its end by `cursor`, reporting their lanes in order.
    pub fn complete_elapsed(&mut self, cursor: Samples) -> (r: Vec<Lane>)
        ensures
            r@ == ended_lanes(old(self)@, cursor, 4),
            final(self)@ == after_complete(old(self)@, cursor),
            forall|k: int|
                0 <= k < 4 ==> (#[trigger] final(self)@[k]) == if old(self)@[k] is Some && old(
                    self,
                )@[k]->0.end_at.0 <= cursor.0 {
                    None
                } else {
                    old(self)@[k]
                },
    {
        let ghost before = self@;
        let mut out: Vec<Lane> = Vec::new();
        let mut i: usize = 0;
        while i < 4
            invariant
                i <= 4,
                self@.len() == 4,
                before.len() == 4,
                out@ == ended_lanes(before, cursor, i as int),
                forall|k: int| i <= k < 4 ==> #[trigger] self@[k] == before[k],
                forall|k: int|
                    0 <= k < i ==> (#[trigger] self@[k]) == if before[k] is Some && before[k]->0.end_at.0
                        <= cursor.0 {
                        None
                    } else {
                        before[k]
                    },
            decreases 4 - i,
        {
            let ended = match self.active[i] {
                Some(h) => h.end_at.0 <= cursor.0,
                None => false,
            };
            if ended {
                self.active[i] = None;
                out.push(lane_of_index(i));
            }
            assert(out@ =~= ended_lanes(before, cursor, i + 1));
            i = i + 1;
        }
        out
    }
}


// ----- held keys and receptors -----

/// What a lane's receptor shows.
#[derive(Debug, Clone, Copy, PartialEq, Eq, Structural)]
pub enum ReceptorState {
    Static,
    Pressed { started_at: Samples },
    Confirm { started_at: Samples, hold: bool },
}

/// Per-lane key and receptor-confirm state.
#[derive(Debug, Clone, Default)]
pub struct HeldLanes {
    pub pressed: [bool; 4],
    pub pressed_started: [Samples; 4],
    pub confirm_started: [Samples; 4],
    pub confirm_until: [Samples; 4],
    pub hold_confirming: [bool; 4],
}

/// Whether lane `i` shows its confirm animation at `cursor`: a confirm was set (its end is
/// not the reset value 0) and it has not run out, or the key is still held.
pub open spec fn confirming_at(h: HeldLanes, i: int, cursor: Samples) -> bool {
    h.confirm_until@[i].0 != 0 && (h.confirm_until@[i].0 >= cursor.0 || h.pressed@[i])
}

pub open spec fn receptor_state_spec(h: HeldLanes, i: int, cursor: Samples) -> ReceptorState {
    if confirming_at(h, i, cursor) {
        ReceptorState::Confirm { started_at: h.confirm_started@[i], hold: h.hold_confirming@[i] }
    } else if h.pressed@[i] {
        ReceptorState::Pressed { started_at: h.pressed_started@[i] }
    } else {
        ReceptorState::Static
    }
}

/// Lanes whose key is held, among the first `n`.
pub open spec fn held_lanes_spec(pressed: Seq<bool>, n: int) -> Seq<Lane> {
    lanes_where(|k: int| pressed[k], n)
}

pub open spec fn max_samples(a: Samples, b: Samples) -> Samples {
    if a.0 >= b.0 {
        a
    } else {
        b
    }
}

/// `started_at + max(duration, 0)`.
pub open spec fn confirm_end(started_at: Samples, duration: Samples) -> int {
    started_at.0 + if duration.0 < 0 {
        0
    } else {
        duration.0 as int
    }
}

impl HeldLanes {
    pub fn new() -> (r: Self)
        ensures
            r.pressed@ == seq![false, false, false, false],
            r.confirm_until@ == seq![Samples(0), Samples(0), Samples(0), Samples(0)],
            r.hold_confirming@ == seq![false, false, false, false],
    {
        let r = HeldLanes {
            pressed: [false, false, false, false],
            pressed_started: [Samples(0), Samples(0), Samples(0), Samples(0)],
            confirm_started: [Samples(0), Samples(0), Samples(0), Samples(0)],
            confirm_until: [Samples(0), Samples(0), Samples(0), Samples(0)],
            hold_confirming: [false, false, false, false],
        };
        assert(r.pressed@ =~= seq![false, false, false, false]);
        assert(r.confirm_until@ =~= seq![Samples(0), Samples(0), Samples(0), Samples(0)]);
        assert(r.hold_confirming@ =~= seq![false, false, false, false]);
        r
    }

    /// Records a key event; a press restarts the pressed animation only when the key was up.
    pub fn apply(&mut self, event: &NormalizedInputEvent) -> (r: Option<Lane>)
        ensures
            r == lane_for_action_spec(event.action),
            match r {
                None => *final(self) == *old(self),
                Some(lane) => {
                    let i = lane_idx(lane);
                    &&& final(self).pressed@ == old(self).pressed@.update(
                        i,
                        event.state == InputState::Pressed,
                    )
                    &&& final(self).pressed_started@ == if event.state == InputState::Pressed
                        && !old(self).pressed@[i] {
                        old(self).pressed_started@.update(i, event.audio_sample_cursor_at_receive)
                    } else {
                        old(self).pressed_started@
                    }
                    &&& final(self).confirm_started == old(self).confirm_started
                    &&& final(self).confirm_until == old(self).confirm_until
                    &&& final(self).hold_confirming == old(self).hold_confirming
                },
            },
    {
        let lane = match lane_for_action(event.action) {
            None => {
                return None;
            },
            Some(l) => l,
        };
        let i = lane_index(lane);
        let was_pressed = self.pressed[i];
        let now_pressed = match event.state {
            InputState::Pressed => true,
            InputState::Released => false,
        };
        self.pressed[i] = now_pressed;
        if now_pressed && !was_pressed {
            self.pressed_started[i] = event.audio_sample_cursor_at_receive;
        }
        Some(lane)
    }

    /// Lanes whose key is held, in lane order.
    pub fn active_lanes(&self) -> (r: Vec<Lane>)
        ensures
            r@ == held_lanes_spec(self.pressed@, 4),
    {
        let mut out: Vec<Lane> = Vec::new();
        let mut i: usize = 0;
        while i < 4
            invariant
                i <= 4,
                out@ == held_lanes_spec(self.pressed@, i as int),
            decreases 4 - i,
        {
            if self.pressed[i] {
                out.push(lane_of_index(i));
            }
            assert(out@ =~= held_lanes_spec(self.pressed@, i + 1));
            i = i + 1;
        }
        out
    }

    pub fn is_held(&self, lane: Lane) -> (r: bool)
        ensures
            r == self.pressed@[lane_idx(lane)],
    {
        self.pressed[lane_index(lane)]
    }

    /// Starts a confirm at `started_at` lasting `duration` (negative durations count as 0).
    pub fn confirm(&mut self, lane: Lane, started_at: Samples, duration: Samples)
        requires
            confirm_end(started_at, duration) <= i64::MAX,
        ensures
            final(self).confirm_started@ == old(self).confirm_started@.update(lane_idx(lane), started_at),
            final(self).confirm_until@ == old(self).confirm_until@.update(
                lane_idx(lane),
                Samples(confirm_end(started_at, duration) as i64),
            ),
            final(self).hold_confirming@ == old(self).hold_confirming@.update(lane_idx(lane), false),
            final(self).pressed == old(self).pressed,
            final(self).pressed_started == old(self).pressed_started,
    {
        let i = lane_index(lane);
        let d = if duration.0 < 0 {
            0
        } else {
            duration.0
        };
        self.confirm_started[i] = started_at;
        self.confirm_until[i] = Samples(started_at.0 + d);
        self.hold_confirming[i] = false;
    }

    /// Whether the lane shows its confirm animation at `cursor`.
    pub fn is_confirming(&self, lane: Lane, cursor: Samples) -> (r: bool)
        ensures
            r == confirming_at(*self, lane_idx(lane), cursor),
    {
        let i = lane_index(lane);
        let until = self.confirm_until[i];
        if until.0 == 0 {
            return false;
        }
        until.0 >= cursor.0 || self.pressed[i]
    }

    /// Keeps the confirm going for a held note: restart it only when it is not showing,
    /// mark it as a hold, and extend its end to at least `cursor + duration`.
    pub fn hold_confirm(&mut self, lane: Lane, cursor: Samples, duration: Samples)
        requires
            confirm_end(cursor, duration) <= i64::MAX,
        ensures
            final(self).confirm_started@ == if confirming_at(*old(self), lane_idx(lane), cursor) {
                old(self).confirm_started@
            } else {
                old(self).confirm_started@.update(lane_idx(lane), cursor)
            },
            final(self).hold_confirming@ == old(self).hold_confirming@.update(lane_idx(lane), true),
            final(self).confirm_until@ == old(self).confirm_until@.update(
                lane_idx(lane),
                max_samples(
                    old(self).confirm_until@[lane_idx(lane)],
                    Samples(confirm_end(cursor, duration) as i64),
                ),
            ),
            final(self).pressed == old(self).pressed,
            final(self).pressed_started == old(self).pressed_started,
    {
        let i = lane_index(lane);
        if !self.is_confirming(lane, cursor) {
            self.confirm_started[i] = cursor;
        }
        self.hold_confirming[i] = true;
        let d = if duration.0 < 0 {
            0
        } else {
            duration.0
        };
        let until = Samples(cursor.0 + d);
        if until.0 > self.confirm_until[i].0 {
            self.confirm_until[i] = until;
        }
    }

    /// The hold that drove the confirm has finished.
    pub fn complete_hold(&mut self, lane: Lane)
        ensures
            final(self).hold_confirming@ == old(self).hold_confirming@.update(lane_idx(lane), false),
            final(self).pressed == old(self).pressed,
            final(self).pressed_started == old(self).pressed_started,
            final(self).confirm_started == old(self).confirm_started,
            final(self).confirm_until == old(self).confirm_until,
    {
        let i = lane_index(lane);
        self.hold_confirming[i] = false;
    }

    /// Back to the static receptor: the confirm is cleared.
    pub fn play_static(&mut self, lane: Lane)
        ensures
            final(self).confirm_started@ == old(self).confirm_started@.update(lane_idx(lane), Samples(0)),
            final(self).confirm_until@ == old(self).confirm_until@.update(lane_idx(lane), Samples(0)),
            final(self).hold_confirming@ == old(self).hold_confirming@.update(lane_idx(lane), false),
            final(self).pressed == old(self).pressed,
            final(self).pressed_started == old(self).pressed_started,
    {
        let i = lane_index(lane);
        self.confirm_started[i] = Samples(0);
        self.confirm_until[i] = Samples(0);
        self.hold_confirming[i] = false;
    }

    /// A hold in the lane has completed: if its key is still down the confirm goes on
    /// without the hold (`complete_hold`), else the receptor returns to static
    /// (`play_static`).
    pub fn finish_hold(&mut self, lane: Lane)
        ensures
            final(self).pressed == old(self).pressed,
            final(self).pressed_started == old(self).pressed_started,
            final(self).hold_confirming@ == old(self).hold_confirming@.update(lane_idx(lane), false),
            old(self).pressed@[lane_idx(lane)] ==> final(self).confirm_started == old(self).confirm_started
                && final(self).confirm_until == old(self).confirm_until,
            !old(self).pressed@[lane_idx(lane)] ==> final(self).confirm_started@
                == old(self).confirm_started@.update(lane_idx(lane), Samples(0)) && final(self).confirm_until@
                == old(self).confirm_until@.update(lane_idx(lane), Samples(0)),
    {
        if self.is_held(lane) {
            self.complete_hold(lane);
        } else {
            self.play_static(lane);
        }
    }

    /// Restarts the pressed animation at `started_at` if the key is down, clearing the confirm.
    pub fn play_press(&mut self, lane: Lane, started_at: Samples)
        ensures
            final(self).pressed_started@ == if old(self).pressed@[lane_idx(lane)] {
                old(self).pressed_started@.update(lane_idx(lane), started_at)
            } else {
                old(self).pressed_started@
            },
            final(self).confirm_started@ == old(self).confirm_started@.update(lane_idx(lane), Samples(0)),
            final(self).confirm_until@ == old(self).confirm_until@.update(lane_idx(lane), Samples(0)),
            final(self).hold_confirming@ == old(self).hold_confirming@.update(lane_idx(lane), false),
            final(self).pressed == old(self).pressed,
    {
        let i = lane_index(lane);
        if self.pressed[i] {
            self.pressed_started[i] = started_at;
        }
        self.play_static(lane);
    }

    /// What the lane's receptor shows at `cursor`: confirm first, then pressed, then static.
    pub fn receptor_state(&self, lane: Lane, cursor: Samples) -> (r: ReceptorState)
        ensures
            r == receptor_state_spec(*self, lane_idx(lane), cursor),
    {
        let i = lane_index(lane);
        if self.is_confirming(lane, cursor) {
            ReceptorState::Confirm { started_at: self.confirm_started[i], hold: self.hold_confirming[i] }
        } else if self.pressed[i] {
            ReceptorState::Pressed { started_at: self.pressed_started[i] }
        } else {
            ReceptorState::Static
        }
    }
}


/// Receptors driven by the opponent's (or a bot's) hits: confirm on each hit, hold the
/// confirm while a hold note runs, and return to static when it completes.
#[derive(Debug, Clone, Default)]
pub struct AutoReceptors {
    pub holds: ActiveHolds,
    pub lanes: HeldLanes,
}

/// A lane's confirm fields after `play_static`.
pub open spec fn lane_after_static(old: HeldLanes, new: HeldLanes, k: int) -> bool {
    &&& new.confirm_started@[k] == Samples(0)
    &&& new.confirm_until@[k] == Samples(0)
    &&& new.hold_confirming@[k] == false
}

/// A lane's confirm fields after `hold_confirm(cursor, duration)`.
pub open spec fn lane_after_hold_confirm(old: HeldLanes, new: HeldLanes, k: int, cursor: Samples, duration: Samples) -> bool {
    &&& new.confirm_started@[k] == if confirming_at(old, k, cursor) {
        old.confirm_started@[k]
    } else {
        cursor
    }
    &&& new.hold_confirming@[k] == true
    &&& new.confirm_until@[k] == max_samples(
        old.confirm_until@[k],
        Samples(confirm_end(cursor, duration) as i64),
    )
}

pub open spec fn lane_unchanged(old: HeldLanes, new: HeldLanes, k: int) -> bool {
    &&& new.confirm_started@[k] == old.confirm_started@[k]
    &&& new.confirm_until@[k] == old.confirm_until@[k]
    &&& new.hold_confirming@[k] == old.hold_confirming@[k]
}

impl AutoReceptors {
    pub fn new() -> (r: Self)
        ensures
            r.holds@ == seq![None::<ActiveHold>, None, None, None],
            r.lanes.pressed@ == seq![false, false, false, false],
            r.lanes.confirm_until@ == seq![Samples(0), Samples(0), Samples(0), Samples(0)],
            r.lanes.hold_confirming@ == seq![false, false, false, false],
    {
        AutoReceptors { holds: ActiveHolds::new(), lanes: HeldLanes::new() }
    }

    /// Completed holds return their lane to static; running holds keep their lane confirming.
    pub fn update(&mut self, cursor: Samples, confirm_duration: Samples)
        requires
            confirm_end(cursor, confirm_duration) <= i64::MAX,
        ensures
            forall|k: int|
                0 <= k < 4 ==> (#[trigger] final(self).holds@[k]) == if old(self).holds@[k] is Some
                    && old(self).holds@[k]->0.end_at.0 <= cursor.0 {
                    None
                } else {
                    old(self).holds@[k]
                },
            forall|k: int|
                0 <= k < 4 ==> ((#[trigger] old(self).holds@[k]) matches Some(h) ==> (if h.end_at.0
                    <= cursor.0 {
                    lane_after_static(old(self).lanes, final(self).lanes, k)
                } else {
                    lane_after_hold_confirm(old(self).lanes, final(self).lanes, k, cursor, confirm_duration)
                })),
            forall|k: int|
                0 <= k < 4 ==> (#[trigger] old(self).holds@[k]) is None ==> lane_unchanged(
                    old(self).lanes,
                    final(self).lanes,
                    k,
                ),
            final(self).lanes.pressed == old(self).lanes.pressed,
            final(self).lanes.pressed_started == old(self).lanes.pressed_started,
    {
        let ghost h0 = self.holds@;
        let ghost l0 = self.lanes;
        let completed = self.holds.complete_elapsed(cursor);
        let ghost hc = self.holds@;
        proof {
            lemma_lanes_where(|k: int| h0[k] is Some && h0[k]->0.end_at.0 <= cursor.0, 4);
        }
        let mut j: usize = 0;
        while j < completed.len()
            invariant
                j <= completed.len(),
                completed@ == ended_lanes(h0, cursor, 4),
                h0.len() == 4,
                self.holds@ == hc,
                forall|i: int, m: int|
                    0 <= i < m < completed@.len() ==> lane_idx(completed@[i]) < lane_idx(completed@[m]),
                forall|k: int| 0 <= k < 4 ==> (completed@.contains(#[trigger] lane_at(k)) <==> (h0[k] is Some && h0[k]->0.end_at.0 <= cursor.0)),
                self.lanes.pressed == l0.pressed,
                self.lanes.pressed_started == l0.pressed_started,
                forall|k: int|
                    0 <= k < 4 ==> if completed@.take(j as int).contains(#[trigger] lane_at(k)) {
                        lane_after_static(l0, self.lanes, k)
                    } else {
                        lane_unchanged(l0, self.lanes, k)
                    },
            decreases completed.len() - j,
        {
            let lane = completed[j];
            let ghost before = self.lanes;
            self.lanes.play_static(lane);
            proof {
                let t0 = completed@.take(j as int);
                let t1 = completed@.take(j + 1);
                assert(t1 =~= t0.push(lane));
                assert forall|k: int| 0 <= k < 4 implies (if t1.contains(#[trigger] lane_at(k)) {
                    lane_after_static(l0, self.lanes, k)
                } else {
                    lane_unchanged(l0, self.lanes, k)
                }) by {
                    assert(lane_idx(lane_at(k)) == k);
                    if k == lane_idx(lane) {
                        assert(lane_at(k) == lane);
                        assert(t1[j as int] == lane);
                    } else {
                        if t1.contains(lane_at(k)) {
                            let i = choose|i: int| 0 <= i < t1.len() && t1[i] == lane_at(k);
                            if i == j {
                                assert(lane_idx(t1[i]) == lane_idx(lane));
                            } else {
                                assert(t0[i] == lane_at(k));
                            }
                        } else {
                            if t0.contains(lane_at(k)) {
                                let i = choose|i: int| 0 <= i < t0.len() && t0[i] == lane_at(k);
                                assert(t1[i] == lane_at(k));
                            }
                        }
                    }
                }
            }
            j = j + 1;
        }
        assert(completed@.take(completed.len() as int) =~= completed@);
        let ghost h1 = self.holds@;
        let ghost l1 = self.lanes;
        let running = self.holds.active_lanes(cursor);
        proof {
            lemma_lanes_where(|k: int| h1[k] is Some && h1[k]->0.end_at.0 > cursor.0, 4);
        }
        let mut j: usize = 0;
        while j < running.len()
            invariant
                j <= running.len(),
                running@ == running_lanes(h1, cursor, 4),
                h1.len() == 4,
                self.holds@ == h1,
                confirm_end(cursor, confirm_duration) <= i64::MAX,
                forall|i: int, m: int|
                    0 <= i < m < running@.len() ==> lane_idx(running@[i]) < lane_idx(running@[m]),
                forall|k: int| 0 <= k < 4 ==> (running@.contains(#[trigger] lane_at(k)) <==> (h1[k] is Some && h1[k]->0.end_at.0 > cursor.0)),
                self.lanes.pressed == l1.pressed,
                self.lanes.pressed_started == l1.pressed_started,
                forall|k: int|
                    0 <= k < 4 ==> if running@.take(j as int).contains(#[trigger] lane_at(k)) {
                        lane_after_hold_confirm(l1, self.lanes, k, cursor, confirm_duration)
                    } else {
                        lane_unchanged(l1, self.lanes, k)
                    },
            decreases running.len() - j,
        {
            let lane = running[j];
            let ghost before = self.lanes;
            proof {
                let t0 = running@.take(j as int);
                assert(!t0.contains(lane)) by {
                    if t0.contains(lane) {
                        let i = choose|i: int| 0 <= i < t0.len() && t0[i] == lane;
                        assert(running@[i] == lane);
                        assert(running@[j as int] == lane);
                    }
                }
                assert(lane_at(lane_idx(lane)) == lane);
                assert(lane_unchanged(l1, before, lane_idx(lane)));
                assert(confirming_at(before, lane_idx(lane), cursor) == confirming_at(l1, lane_idx(lane), cursor));
            }
            self.lanes.hold_confirm(lane, cursor, confirm_duration);
            proof {
                let t0 = running@.take(j as int);
                let t1 = running@.take(j + 1);
                assert(t1 =~= t0.push(lane));
                assert forall|k: int| 0 <= k < 4 implies (if t1.contains(#[trigger] lane_at(k)) {
                    lane_after_hold_confirm(l1, self.lanes, k, cursor, confirm_duration)
                } else {
                    lane_unchanged(l1, self.lanes, k)
                }) by {
                    assert(lane_idx(lane_at(k)) == k);
                    if k == lane_idx(lane) {
                        assert(lane_at(k) == lane);
                        assert(t1[j as int] == lane);
                    } else {
                        if t1.contains(lane_at(k)) {
                            let i = choose|i: int| 0 <= i < t1.len() && t1[i] == lane_at(k);
                            if i == j {
                                assert(lane_idx(t1[i]) == lane_idx(lane));
                            } else {
                                assert(t0[i] == lane_at(k));
                            }
                        } else {
                            if t0.contains(lane_at(k)) {
                                let i = choose|i: int| 0 <= i < t0.len() && t0[i] == lane_at(k);
                                assert(t1[i] == lane_at(k));
                            }
                        }
                    }
                }
            }
            j = j + 1;
        }
        assert(running@.take(running.len() as int) =~= running@);
        proof {
            assert forall|k: int| 0 <= k < 4 && (#[trigger] h0[k]) is Some implies (if h0[k]->0.end_at.0
                <= cursor.0 {
                lane_after_static(l0, self.lanes, k)
            } else {
                lane_after_hold_confirm(l0, self.lanes, k, cursor, confirm_duration)
            }) by {
                assert(completed@.contains(lane_at(k)) <==> (h0[k] is Some && h0[k]->0.end_at.0 <= cursor.0));
                assert(running@.contains(lane_at(k)) <==> (h1[k] is Some && h1[k]->0.end_at.0 > cursor.0));
            }
            assert forall|k: int| 0 <= k < 4 && (#[trigger] h0[k]) is None implies lane_unchanged(
                l0,
                self.lanes,
                k,
            ) by {
                assert(completed@.contains(lane_at(k)) <==> (h0[k] is Some && h0[k]->0.end_at.0 <= cursor.0));
                assert(running@.contains(lane_at(k)) <==> (h1[k] is Some && h1[k]->0.end_at.0 > cursor.0));
            }
        }
    }

    /// A hit in `lane`: start its confirm.
    pub fn confirm(&mut self, lane: Lane, cursor: Samples, confirm_duration: Samples)
        requires
            confirm_end(cursor, confirm_duration) <= i64::MAX,
        ensures
            final(self).holds == old(self).holds,
            final(self).lanes.confirm_started@ == old(self).lanes.confirm_started@.update(lane_idx(lane), cursor),
            final(self).lanes.confirm_until@ == old(self).lanes.confirm_until@.update(
                lane_idx(lane),
                Samples(confirm_end(cursor, confirm_duration) as i64),
            ),
            final(self).lanes.hold_confirming@ == old(self).lanes.hold_confirming@.update(lane_idx(lane), false),
            final(self).lanes.pressed == old(self).lanes.pressed,
            final(self).lanes.pressed_started == old(self).lanes.pressed_started,
    {
        self.lanes.confirm(lane, cursor, confirm_duration);
    }

    /// A hold note hit in `lane`, running until `hold_end_at`.
    pub fn start_hold(&mut self, lane: Lane, hold_end_at: Samples, cursor: Samples, note_id: NoteId)
        ensures
            hold_end_at.0 > cursor.0 ==> final(self).holds@ == old(self).holds@.update(
                lane_idx(lane),
                Some(ActiveHold { end_at: hold_end_at, scored_until: cursor }),
            ),
            hold_end_at.0 <= cursor.0 ==> final(self).holds@ == old(self).holds@,
            final(self).lanes == old(self).lanes,
    {
        self.holds.start(lane, hold_end_at, cursor);
    }

    pub fn receptor_state(&self, lane: Lane, cursor: Samples) -> (r: ReceptorState)
        ensures
            r == receptor_state_spec(self.lanes, lane_idx(lane), cursor),
    {
        self.lanes.receptor_state(lane, cursor)
    }
}

/// Each lane key presses its own lane: the four lane actions give the Left, Down, Up
/// and Right lanes respectively, no other action gives a lane, and no two actions give
/// the same lane.
pub proof fn law_lane_actions_press_their_lane(a: InputAction, b: InputAction)
    ensures
        lane_for_action_spec(InputAction::LaneLeft) == Some(Lane::Left),
        lane_for_action_spec(InputAction::LaneDown) == Some(Lane::Down),
        lane_for_action_spec(InputAction::LaneUp) == Some(Lane::Up),
        lane_for_action_spec(InputAction::LaneRight) == Some(Lane::Right),
        lane_for_action_spec(a) is Some <==> (a == InputAction::LaneLeft || a == InputAction::LaneDown
            || a == InputAction::LaneUp || a == InputAction::LaneRight),
        lane_for_action_spec(a) is Some && lane_for_action_spec(a) == lane_for_action_spec(b) ==> a == b,
        lane_idx(Lane::Left) == 0 && lane_idx(Lane::Down) == 1 && lane_idx(Lane::Up) == 2 && lane_idx(Lane::Right) == 3,
        forall|l: Lane| #[trigger] lane_at(lane_idx(l)) == l,
{
}

} // verus!
