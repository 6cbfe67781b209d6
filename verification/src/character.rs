//! Character poses driven by note hits, misses, chart events and the beat: who sings,
//! who dances, and when each returns to idle.
//!
//! Lengths of time arrive in samples: the caller turns the song's tempo into the beat
//! index, the chart-animation hold and each sing hold.

use vstd::prelude::*;
use crate::assets::{starts_with_seq, ends_with_seq, starts_with, ends_with};
use crate::holds::Lane;
use crate::text::{chars_of, str_eq, eq_ignore_ascii_case, eq_ignore_ascii_case_seq};
use crate::timing::{Samples, sat_sub_i64, saturating_sub_i64};

verus! {

/// Hit judgments.
#[derive(Debug, Clone, Copy, PartialEq, Eq, Structural)]
pub enum Judgment {
    Sick,
    Good,
    Bad,
    Shit,
}

/// Number of girlfriend combo and drop animation slots.
pub const COUNT_ANIM_SLOTS: usize = 4;

/// A girlfriend combo or drop animation: the count it plays at, and how long it lasts
/// in samples.
#[derive(Debug, Clone, Copy, PartialEq, Eq, Structural)]
pub struct CountAnimationTiming {
    pub count: u32,
    pub duration_samples: i64,
}

/// The girlfriend's combo and drop animations, four slots each.
#[derive(Debug, Clone, Copy, PartialEq, Eq)]
pub struct CharacterAnimTimings {
    pub girlfriend_combo_timings: [Option<CountAnimationTiming>; 4],
    pub girlfriend_drop_timings: [Option<CountAnimationTiming>; 4],
}

impl CharacterAnimTimings {
    /// No combo or drop animations.
    pub fn none() -> (r: Self)
        ensures
            forall|i: int| 0 <= i < 4 ==> r.girlfriend_combo_timings@[i] is None && r.girlfriend_drop_timings@[i] is None,
    {
        CharacterAnimTimings { girlfriend_combo_timings: [None, None, None, None], girlfriend_drop_timings: [None, None, None, None] }
    }
}

/// What a note kind asks of the character that hits or misses it.
#[derive(Debug, Clone, Copy, PartialEq, Eq)]
pub enum NoteKindAction {
    Fallthrough,
    Skip,
    SingSuffix(&'static str),
    MissSuffix(&'static str),
    Pose(&'static str),
}

#[derive(Debug, Clone, Copy, PartialEq, Eq)]
pub struct CharacterPoseRequest {
    pub name: &'static str,
    pub started_at: Samples,
}

#[derive(Debug, Clone, Copy, PartialEq, Eq)]
pub struct CharacterPoseNames {
    pub girlfriend: CharacterPoseRequest,
    pub opponent: CharacterPoseRequest,
    pub player: CharacterPoseRequest,
}

fn str_starts_with(s: &str, prefix: &str) -> (r: bool)
    ensures
        r == starts_with_seq(s@, prefix@),
{
    starts_with(&chars_of(s), &chars_of(prefix))
}

fn str_ends_with(s: &str, suffix: &str) -> (r: bool)
    ensures
        r == ends_with_seq(s@, suffix@),
{
    ends_with(&chars_of(s), &chars_of(suffix))
}

/// Chart-event animations that characters know.
pub open spec fn known_chart_pose(a: Seq<char>) -> bool {
    ||| a == "hey"@
    ||| a == "cheer"@
    ||| a == "redheadsAnim"@
    ||| a == "knifeToss"@
    ||| a == "stressPicoEnding"@
    ||| a == "laughEnd"@
    ||| a == "laughEnd-loop"@
    ||| a == "intro1"@
    ||| a == "intro2"@
    ||| a == "lightCan"@
    ||| a == "cock"@
    ||| a == "kickCan"@
    ||| a == "kneeCan"@
    ||| a == "laughCutscene"@
}

/// The pose for a chart-event animation, when it is a known one.
pub fn chart_animation_pose(animation: &str) -> (r: Option<&'static str>)
    ensures
        match r {
            Some(p) => known_chart_pose(animation@) && p@ == animation@,
            None => !known_chart_pose(animation@),
        },
{
    if str_eq(animation, "hey") { Some("hey") }
    else if str_eq(animation, "cheer") { Some("cheer") }
    else if str_eq(animation, "redheadsAnim") { Some("redheadsAnim") }
    else if str_eq(animation, "knifeToss") { Some("knifeToss") }
    else if str_eq(animation, "stressPicoEnding") { Some("stressPicoEnding") }
    else if str_eq(animation, "laughEnd") { Some("laughEnd") }
    else if str_eq(animation, "laughEnd-loop") { Some("laughEnd-loop") }
    else if str_eq(animation, "intro1") { Some("intro1") }
    else if str_eq(animation, "intro2") { Some("intro2") }
    else if str_eq(animation, "lightCan") { Some("lightCan") }
    else if str_eq(animation, "cock") { Some("cock") }
    else if str_eq(animation, "kickCan") { Some("kickCan") }
    else if str_eq(animation, "kneeCan") { Some("kneeCan") }
    else if str_eq(animation, "laughCutscene") { Some("laughCutscene") }
    else { None }
}

/// Poses set by chart events and scripts: neither dancing, idling, singing nor dying.
pub open spec fn chart_special(p: Seq<char>) -> bool {
    !starts_with_seq(p, "dance"@) && !starts_with_seq(p, "idle"@) && !starts_with_seq(p, "sing"@)
        && !starts_with_seq(p, "death"@)
}

pub fn is_chart_special_pose(pose: &str) -> (r: bool)
    ensures
        r == chart_special(pose@),
{
    !str_starts_with(pose, "dance") && !str_starts_with(pose, "idle") && !str_starts_with(pose, "sing")
        && !str_starts_with(pose, "death")
}

/// The girlfriend's combo and drop poses.
pub open spec fn girlfriend_count(p: Seq<char>) -> bool {
    starts_with_seq(p, "combo"@) || starts_with_seq(p, "drop"@)
}

pub fn is_girlfriend_count_pose(pose: &str) -> (r: bool)
    ensures
        r == girlfriend_count(pose@),
{
    str_starts_with(pose, "combo") || str_starts_with(pose, "drop")
}

/// The combo pose for a count: 50 and 200 have one.
pub fn combo_pose(count: u32) -> (r: Option<&'static str>)
    ensures
        count == 50 ==> r == Some("combo50"),
        count == 200 ==> r == Some("combo200"),
        count != 50 && count != 200 ==> r is None,
{
    if count == 50 { Some("combo50") } else if count == 200 { Some("combo200") } else { None }
}

/// The drop pose for a count: 70 has one.
pub fn drop_pose(count: u32) -> (r: Option<&'static str>)
    ensures
        count == 70 ==> r == Some("drop70"),
        count != 70 ==> r is None,
{
    if count == 70 { Some("drop70") } else { None }
}

pub open spec fn sing_pose_spec(lane: Lane) -> &'static str {
    match lane {
        Lane::Left => "singLEFT",
        Lane::Down => "singDOWN",
        Lane::Up => "singUP",
        Lane::Right => "singRIGHT",
    }
}

pub fn sing_pose(lane: Lane) -> (r: &'static str)
    ensures
        r == sing_pose_spec(lane),
{
    match lane {
        Lane::Left => "singLEFT",
        Lane::Down => "singDOWN",
        Lane::Up => "singUP",
        Lane::Right => "singRIGHT",
    }
}

pub open spec fn miss_pose_spec(lane: Lane) -> &'static str {
    match lane {
        Lane::Left => "singLEFTmiss",
        Lane::Down => "singDOWNmiss",
        Lane::Up => "singUPmiss",
        Lane::Right => "singRIGHTmiss",
    }
}

pub fn miss_pose(lane: Lane) -> (r: &'static str)
    ensures
        r == miss_pose_spec(lane),
{
    match lane {
        Lane::Left => "singLEFTmiss",
        Lane::Down => "singDOWNmiss",
        Lane::Up => "singUPmiss",
        Lane::Right => "singRIGHTmiss",
    }
}

/// The lane's sing pose with a known suffix (`alt`, `censor`, `joint`, `bf1`, `bf2`)
/// appended after a dash; the plain sing pose for any other suffix.
pub open spec fn sing_pose_with_suffix_spec(lane: Lane, suffix: Seq<char>) -> Seq<char> {
    if suffix == "alt"@ || suffix == "censor"@ || suffix == "joint"@ || suffix == "bf1"@ || suffix == "bf2"@ {
        sing_pose_spec(lane)@ + "-"@ + suffix
    } else {
        sing_pose_spec(lane)@
    }
}

pub fn sing_pose_with_suffix(lane: Lane, suffix: &str) -> (r: &'static str)
    ensures
        r@ == sing_pose_with_suffix_spec(lane, suffix@),
{
    proof {
        reveal_strlit("-");
        reveal_strlit("singLEFT");
        reveal_strlit("singDOWN");
        reveal_strlit("singUP");
        reveal_strlit("singRIGHT");
        reveal_strlit("alt");
        reveal_strlit("censor");
        reveal_strlit("joint");
        reveal_strlit("bf1");
        reveal_strlit("bf2");
        reveal_strlit("singLEFT-alt");
        reveal_strlit("singDOWN-alt");
        reveal_strlit("singUP-alt");
        reveal_strlit("singRIGHT-alt");
        reveal_strlit("singLEFT-censor");
        reveal_strlit("singDOWN-censor");
        reveal_strlit("singUP-censor");
        reveal_strlit("singRIGHT-censor");
        reveal_strlit("singLEFT-joint");
        reveal_strlit("singDOWN-joint");
        reveal_strlit("singUP-joint");
        reveal_strlit("singRIGHT-joint");
        reveal_strlit("singLEFT-bf1");
        reveal_strlit("singDOWN-bf1");
        reveal_strlit("singUP-bf1");
        reveal_strlit("singRIGHT-bf1");
        reveal_strlit("singLEFT-bf2");
        reveal_strlit("singDOWN-bf2");
        reveal_strlit("singUP-bf2");
        reveal_strlit("singRIGHT-bf2");
    }
    if str_eq(suffix, "alt") {
        match lane {
            Lane::Left => "singLEFT-alt",
            Lane::Down => "singDOWN-alt",
            Lane::Up => "singUP-alt",
            Lane::Right => "singRIGHT-alt",
        }
    } else if str_eq(suffix, "censor") {
        match lane {
            Lane::Left => "singLEFT-censor",
            Lane::Down => "singDOWN-censor",
            Lane::Up => "singUP-censor",
            Lane::Right => "singRIGHT-censor",
        }
    } else if str_eq(suffix, "joint") {
        match lane {
            Lane::Left => "singLEFT-joint",
            Lane::Down => "singDOWN-joint",
            Lane::Up => "singUP-joint",
            Lane::Right => "singRIGHT-joint",
        }
    } else if str_eq(suffix, "bf1") {
        match lane {
            Lane::Left => "singLEFT-bf1",
            Lane::Down => "singDOWN-bf1",
            Lane::Up => "singUP-bf1",
            Lane::Right => "singRIGHT-bf1",
        }
    } else if str_eq(suffix, "bf2") {
        match lane {
            Lane::Left => "singLEFT-bf2",
            Lane::Down => "singDOWN-bf2",
            Lane::Up => "singUP-bf2",
            Lane::Right => "singRIGHT-bf2",
        }
    } else {
        sing_pose(lane)
    }
}

/// The lane's miss pose with a known suffix (`joint`, `bf2`) appended after a dash; the
/// plain miss pose for any other suffix.
pub open spec fn miss_pose_with_suffix_spec(lane: Lane, suffix: Seq<char>) -> Seq<char> {
    if suffix == "joint"@ || suffix == "bf2"@ {
        miss_pose_spec(lane)@ + "-"@ + suffix
    } else {
        miss_pose_spec(lane)@
    }
}

pub fn miss_pose_with_suffix(lane: Lane, suffix: &str) -> (r: &'static str)
    ensures
        r@ == miss_pose_with_suffix_spec(lane, suffix@),
{
    proof {
        reveal_strlit("-");
        reveal_strlit("singLEFTmiss");
        reveal_strlit("singDOWNmiss");
        reveal_strlit("singUPmiss");
        reveal_strlit("singRIGHTmiss");
        reveal_strlit("joint");
        reveal_strlit("bf2");
        reveal_strlit("singLEFTmiss-joint");
        reveal_strlit("singDOWNmiss-joint");
        reveal_strlit("singUPmiss-joint");
        reveal_strlit("singRIGHTmiss-joint");
        reveal_strlit("singLEFTmiss-bf2");
        reveal_strlit("singDOWNmiss-bf2");
        reveal_strlit("singUPmiss-bf2");
        reveal_strlit("singRIGHTmiss-bf2");
    }
    if str_eq(suffix, "joint") {
        match lane {
            Lane::Left => "singLEFTmiss-joint",
            Lane::Down => "singDOWNmiss-joint",
            Lane::Up => "singUPmiss-joint",
            Lane::Right => "singRIGHTmiss-joint",
        }
    } else if str_eq(suffix, "bf2") {
        match lane {
            Lane::Left => "singLEFTmiss-bf2",
            Lane::Down => "singDOWNmiss-bf2",
            Lane::Up => "singUPmiss-bf2",
            Lane::Right => "singRIGHTmiss-bf2",
        }
    } else {
        miss_pose(lane)
    }
}

/// The first filled slot whose count equals `combo_count`.
pub open spec fn exact_count_spec(timings: Seq<Option<CountAnimationTiming>>, combo_count: u32) -> Option<CountAnimationTiming>
    decreases timings.len(),
{
    if timings.len() == 0 {
        None
    } else {
        match timings[0] {
            Some(t) if t.count == combo_count => Some(t),
            _ => exact_count_spec(timings.drop_first(), combo_count),
        }
    }
}

/// Whether slot `i` holds a drop animation that a combo of `combo_count` has reached.
pub open spec fn drop_reached(timings: Seq<Option<CountAnimationTiming>>, combo_count: u32, i: int) -> bool {
    0 <= i < timings.len() && timings[i] is Some && combo_count >= timings[i]->0.count
}

/// Whether slot `i` is the highest reached drop: reached, and every other reached slot
/// has a lower count or the same count earlier.
pub open spec fn is_highest_drop(timings: Seq<Option<CountAnimationTiming>>, combo_count: u32, i: int) -> bool {
    &&& drop_reached(timings, combo_count, i)
    &&& forall|j: int|
        #![trigger drop_reached(timings, combo_count, j)]
        drop_reached(timings, combo_count, j) ==> (timings[j]->0.count < timings[i]->0.count || (
        timings[j]->0.count == timings[i]->0.count && j <= i))
}

/// The drop animation to play: among the filled slots whose count `combo_count` has
/// reached, the one with the highest count (the last such slot among equals); none when
/// no slot is reached.
pub open spec fn highest_drop_spec(timings: Seq<Option<CountAnimationTiming>>, combo_count: u32) -> Option<CountAnimationTiming> {
    if exists|i: int| is_highest_drop(timings, combo_count, i) {
        timings[choose|i: int| is_highest_drop(timings, combo_count, i)]
    } else {
        None
    }
}

/// The running best of a scan over the slots, as the scan keeps it.
spec fn best_drop_scan(timings: Seq<Option<CountAnimationTiming>>, combo_count: u32) -> Option<CountAnimationTiming>
    decreases timings.len(),
{
    if timings.len() == 0 {
        None
    } else {
        let rest = best_drop_scan(timings.drop_last(), combo_count);
        match timings.last() {
            Some(t) if combo_count >= t.count => match rest {
                Some(b) if b.count > t.count => Some(b),
                _ => Some(t),
            },
            _ => rest,
        }
    }
}

proof fn lemma_highest_drop_unique(timings: Seq<Option<CountAnimationTiming>>, combo_count: u32, i: int, j: int)
    requires
        is_highest_drop(timings, combo_count, i),
        is_highest_drop(timings, combo_count, j),
    ensures
        i == j,
{
    assert(drop_reached(timings, combo_count, j));
    assert(drop_reached(timings, combo_count, i));
}

/// The scan finds the highest reached drop.
proof fn lemma_best_drop_scan(timings: Seq<Option<CountAnimationTiming>>, combo_count: u32)
    ensures
        match best_drop_scan(timings, combo_count) {
            Some(t) => exists|i: int| #[trigger] is_highest_drop(timings, combo_count, i) && timings[i] == Some(t),
            None => forall|i: int| !#[trigger] drop_reached(timings, combo_count, i),
        },
    decreases timings.len(),
{
    if timings.len() > 0 {
        let p = timings.drop_last();
        let n = timings.len() - 1;
        lemma_best_drop_scan(p, combo_count);
        assert forall|j: int| 0 <= j < n implies #[trigger] drop_reached(timings, combo_count, j) == drop_reached(
            p,
            combo_count,
            j,
        ) by {
            assert(p[j] == timings[j]);
        }
        let rest = best_drop_scan(p, combo_count);
        match rest {
            Some(b) => {
                let i = choose|i: int| #[trigger] is_highest_drop(p, combo_count, i) && p[i] == Some(b);
                assert(p[i] == timings[i]);
                assert(drop_reached(timings, combo_count, i));
                if drop_reached(timings, combo_count, n) && !(b.count > timings[n]->0.count) {
                    assert(is_highest_drop(timings, combo_count, n)) by {
                        assert forall|j: int| drop_reached(timings, combo_count, j) implies (timings[j]->0.count
                            < timings[n]->0.count || (timings[j]->0.count == timings[n]->0.count && j <= n)) by {
                            if j < n {
                                assert(drop_reached(p, combo_count, j));
                                assert(p[j] == timings[j]);
                            }
                        }
                    }
                } else {
                    assert(is_highest_drop(timings, combo_count, i)) by {
                        assert forall|j: int| drop_reached(timings, combo_count, j) implies (timings[j]->0.count
                            < timings[i]->0.count || (timings[j]->0.count == timings[i]->0.count && j <= i)) by {
                            if j < n {
                                assert(drop_reached(p, combo_count, j));
                                assert(p[j] == timings[j]);
                            }
                        }
                    }
                }
            },
            None => {
                if drop_reached(timings, combo_count, n) {
                    assert(is_highest_drop(timings, combo_count, n)) by {
                        assert forall|j: int| drop_reached(timings, combo_count, j) implies (timings[j]->0.count
                            < timings[n]->0.count || (timings[j]->0.count == timings[n]->0.count && j <= n)) by {
                            if j < n {
                                assert(!drop_reached(p, combo_count, j));
                            }
                        }
                    }
                } else {
                    assert forall|j: int| !#[trigger] drop_reached(timings, combo_count, j) by {
                        if 0 <= j < n {
                            assert(!drop_reached(p, combo_count, j));
                        }
                    }
                }
            },
        }
    }
}

proof fn lemma_best_drop_scan_is_highest(timings: Seq<Option<CountAnimationTiming>>, combo_count: u32)
    ensures
        best_drop_scan(timings, combo_count) == highest_drop_spec(timings, combo_count),
{
    lemma_best_drop_scan(timings, combo_count);
    match best_drop_scan(timings, combo_count) {
        Some(t) => {
            let i = choose|i: int| #[trigger] is_highest_drop(timings, combo_count, i) && timings[i] == Some(t);
            let k = choose|k: int| is_highest_drop(timings, combo_count, k);
            lemma_highest_drop_unique(timings, combo_count, i, k);
        },
        None => {
            if exists|i: int| is_highest_drop(timings, combo_count, i) {
                let k = choose|k: int| is_highest_drop(timings, combo_count, k);
                assert(drop_reached(timings, combo_count, k));
            }
        },
    }
}

pub fn exact_count_timing(timings: &[Option<CountAnimationTiming>; 4], combo_count: u32) -> (r: Option<CountAnimationTiming>)
    ensures
        r == exact_count_spec(timings@, combo_count),
{
    let mut i: usize = 0;
    assert(timings@.subrange(0, 4) =~= timings@);
    while i < 4
        invariant
            i <= 4,
            timings@.len() == 4,
            exact_count_spec(timings@, combo_count) == exact_count_spec(timings@.subrange(i as int, 4), combo_count),
        decreases 4 - i,
    {
        assert(timings@.subrange(i as int, 4).drop_first() =~= timings@.subrange(i + 1, 4));
        match timings[i] {
            Some(t) => {
                if t.count == combo_count {
                    return Some(t);
                }
            },
            None => {},
        }
        i = i + 1;
    }
    assert(timings@.subrange(4, 4).len() == 0);
    None
}

pub fn highest_drop_timing(timings: &[Option<CountAnimationTiming>; 4], combo_count: u32) -> (r: Option<CountAnimationTiming>)
    ensures
        r == highest_drop_spec(timings@, combo_count),
{
    let mut best: Option<CountAnimationTiming> = None;
    let mut i: usize = 0;
    assert(timings@.subrange(0, 0).len() == 0);
    while i < 4
        invariant
            i <= 4,
            best == best_drop_scan(timings@.subrange(0, i as int), combo_count),
        decreases 4 - i,
    {
        assert(timings@.subrange(0, i + 1).drop_last() =~= timings@.subrange(0, i as int));
        match timings[i] {
            Some(t) => {
                if combo_count >= t.count {
                    best = match best {
                        Some(b) => if b.count > t.count { Some(b) } else { Some(t) },
                        None => Some(t),
                    };
                }
            },
            None => {},
        }
        i = i + 1;
    }
    assert(timings@.subrange(0, 4) =~= timings@);
    proof {
        lemma_best_drop_scan_is_highest(timings@, combo_count);
    }
    best
}

/// The three characters' poses and the bookkeeping that moves them.
#[derive(Debug, Clone, Copy)]
pub struct CharacterAnimState {
    pub girlfriend_pose: &'static str,
    pub opponent_pose: &'static str,
    pub player_pose: &'static str,
    pub girlfriend_started: Samples,
    pub opponent_started: Samples,
    pub player_started: Samples,
    pub opponent_until: Samples,
    pub player_until: Samples,
    pub girlfriend_count_duration: Option<i64>,
    pub timings: CharacterAnimTimings,
    pub last_beat: i64,
    pub gf_danced: bool,
}

/// The starting poses: the girlfriend about to dance left, both singers idle.
pub open spec fn initial_state(timings: CharacterAnimTimings) -> CharacterAnimState {
    CharacterAnimState {
        girlfriend_pose: "danceLeft",
        opponent_pose: "idle",
        player_pose: "idle",
        girlfriend_started: Samples(0),
        opponent_started: Samples(0),
        player_started: Samples(0),
        opponent_until: Samples(0),
        player_until: Samples(0),
        girlfriend_count_duration: None,
        timings,
        last_beat: i64::MIN,
        gf_danced: true,
    }
}

/// The girlfriend's next dance: right after left, left after right.
pub open spec fn dance_girlfriend(s: CharacterAnimState, cursor: Samples) -> CharacterAnimState {
    CharacterAnimState {
        girlfriend_pose: if s.gf_danced { "danceRight" } else { "danceLeft" },
        gf_danced: !s.gf_danced,
        girlfriend_started: cursor,
        girlfriend_count_duration: None,
        ..s
    }
}

pub open spec fn dances_or_idles(p: Seq<char>) -> bool {
    starts_with_seq(p, "idle"@) || starts_with_seq(p, "dance"@)
}

/// On a new beat the girlfriend dances on, and idle or dancing singers restart idle.
pub open spec fn beat_step(s: CharacterAnimState, cursor: Samples, beat: i64) -> CharacterAnimState {
    if beat <= s.last_beat {
        s
    } else {
        let s1 = CharacterAnimState { last_beat: beat, ..s };
        let s2 = if starts_with_seq(s1.girlfriend_pose@, "dance"@) { dance_girlfriend(s1, cursor) } else { s1 };
        let s3 = if dances_or_idles(s2.opponent_pose@) {
            CharacterAnimState { opponent_pose: "idle", opponent_started: cursor, ..s2 }
        } else {
            s2
        };
        if dances_or_idles(s3.player_pose@) {
            CharacterAnimState { player_pose: "idle", player_started: cursor, ..s3 }
        } else {
            s3
        }
    }
}

pub open spec fn count_finished(s: CharacterAnimState, cursor: Samples) -> bool {
    match s.girlfriend_count_duration {
        None => false,
        Some(d) => sat_sub_i64(cursor.0, s.girlfriend_started.0) >= if d < 1 { 1 } else { d },
    }
}

/// Chart and count poses end: a combo or drop after its duration, other chart poses
/// after `hold` samples; the girlfriend then dances, the singers idle.
pub open spec fn resets_step(s: CharacterAnimState, cursor: Samples, hold: i64) -> CharacterAnimState {
    let s1 = if girlfriend_count(s.girlfriend_pose@) {
        if count_finished(s, cursor) { dance_girlfriend(s, cursor) } else { s }
    } else if chart_special(s.girlfriend_pose@) && sat_sub_i64(cursor.0, s.girlfriend_started.0) >= hold {
        dance_girlfriend(s, cursor)
    } else {
        s
    };
    let s2 = if chart_special(s1.opponent_pose@) && sat_sub_i64(cursor.0, s1.opponent_started.0) >= hold {
        CharacterAnimState { opponent_pose: "idle", opponent_started: cursor, ..s1 }
    } else {
        s1
    };
    if chart_special(s2.player_pose@) && sat_sub_i64(cursor.0, s2.player_started.0) >= hold {
        CharacterAnimState { player_pose: "idle", player_started: cursor, ..s2 }
    } else {
        s2
    }
}

/// Singing ends at its hold: the opponent always, the player once released (a miss
/// pose even while held).
pub open spec fn sing_step(s: CharacterAnimState, cursor: Samples, player_holding: bool) -> CharacterAnimState {
    let s1 = if starts_with_seq(s.opponent_pose@, "sing"@) && cursor.0 >= s.opponent_until.0 {
        CharacterAnimState { opponent_pose: "idle", opponent_started: cursor, ..s }
    } else {
        s
    };
    if starts_with_seq(s1.player_pose@, "sing"@) && (ends_with_seq(s1.player_pose@, "miss"@) || !player_holding)
        && cursor.0 >= s1.player_until.0 {
        CharacterAnimState { player_pose: "idle", player_started: cursor, ..s1 }
    } else {
        s1
    }
}

pub open spec fn update_spec(s: CharacterAnimState, cursor: Samples, beat: i64, hold: i64, player_holding: bool) -> CharacterAnimState {
    sing_step(resets_step(beat_step(s, cursor, beat), cursor, hold), cursor, player_holding)
}

pub open spec fn is_player_target(t: Seq<char>) -> bool {
    eq_ignore_ascii_case_seq(t, "bf"@) || eq_ignore_ascii_case_seq(t, "boyfriend"@) || eq_ignore_ascii_case_seq(t, "player"@)
}

pub open spec fn is_opponent_target(t: Seq<char>) -> bool {
    eq_ignore_ascii_case_seq(t, "dad"@) || eq_ignore_ascii_case_seq(t, "opponent"@)
}

pub open spec fn is_girlfriend_target(t: Seq<char>) -> bool {
    eq_ignore_ascii_case_seq(t, "gf"@) || eq_ignore_ascii_case_seq(t, "girlfriend"@)
}

/// A chart event's animation on a target (any letter case): a known pose on a known
/// character; it restarts only when forced or different from the current pose.
pub open spec fn chart_animation_spec(s: CharacterAnimState, target: Seq<char>, pose: &'static str, cursor: Samples, force: bool) -> (CharacterAnimState, bool) {
    if is_player_target(target) {
        if force || s.player_pose@ != pose@ {
            (CharacterAnimState { player_pose: pose, player_started: cursor, ..s }, true)
        } else {
            (s, true)
        }
    } else if is_opponent_target(target) {
        if force || s.opponent_pose@ != pose@ {
            (CharacterAnimState { opponent_pose: pose, opponent_started: cursor, ..s }, true)
        } else {
            (s, true)
        }
    } else if is_girlfriend_target(target) {
        if force || s.girlfriend_pose@ != pose@ {
            (CharacterAnimState { girlfriend_pose: pose, girlfriend_started: cursor, girlfriend_count_duration: None, ..s }, true)
        } else {
            (s, true)
        }
    } else {
        (s, false)
    }
}

/// The action of a note: its kind's action where it has a kind, else an ordinary note.
pub open spec fn kind_action(kind: Option<NoteKindAction>) -> NoteKindAction {
    match kind {
        Some(a) => a,
        None => NoteKindAction::Fallthrough,
    }
}

/// The player's pose after a note kind's action on a hit (`miss` false) or a miss.
pub open spec fn player_action_result(
    s: CharacterAnimState,
    t: CharacterAnimState,
    action: NoteKindAction,
    lane: Lane,
    cursor: Samples,
    sing_hold: i64,
    miss_hold: i64,
    miss: bool,
) -> bool {
    match action {
        NoteKindAction::Skip => t == s,
        NoteKindAction::SingSuffix(suffix) => t.player_pose@ == sing_pose_with_suffix_spec(lane, suffix@)
            && t == (CharacterAnimState {
                player_pose: t.player_pose,
                player_started: cursor,
                player_until: Samples((cursor.0 + sing_hold) as i64),
                ..s
            }),
        NoteKindAction::MissSuffix(suffix) => t.player_pose@ == miss_pose_with_suffix_spec(lane, suffix@)
            && t == (CharacterAnimState {
                player_pose: t.player_pose,
                player_started: cursor,
                player_until: Samples((cursor.0 + miss_hold) as i64),
                ..s
            }),
        NoteKindAction::Pose(pose) => t == (CharacterAnimState { player_pose: pose, player_started: cursor, ..s }),
        NoteKindAction::Fallthrough => if miss {
            t == (CharacterAnimState {
                player_pose: miss_pose_spec(lane),
                player_started: cursor,
                player_until: Samples((cursor.0 + miss_hold) as i64),
                ..s
            })
        } else {
            t == (CharacterAnimState {
                player_pose: sing_pose_spec(lane),
                player_started: cursor,
                player_until: Samples((cursor.0 + sing_hold) as i64),
                ..s
            })
        },
    }
}

impl Default for CharacterAnimState {
    fn default() -> (r: Self)
        ensures
            r == initial_state(r.timings),
            forall|i: int| 0 <= i < 4 ==> r.timings.girlfriend_combo_timings@[i] is None
                && r.timings.girlfriend_drop_timings@[i] is None,
    {
        CharacterAnimState::with_timings(CharacterAnimTimings::none())
    }
}

impl CharacterAnimState {
    /// The starting poses with the given timings.
    pub fn with_timings(timings: CharacterAnimTimings) -> (r: Self)
        ensures
            r == initial_state(timings),
    {
        CharacterAnimState {
            girlfriend_pose: "danceLeft",
            opponent_pose: "idle",
            player_pose: "idle",
            girlfriend_started: Samples(0),
            opponent_started: Samples(0),
            player_started: Samples(0),
            opponent_until: Samples(0),
            player_until: Samples(0),
            girlfriend_count_duration: None,
            timings,
            last_beat: i64::MIN,
            gf_danced: true,
        }
    }

    pub fn poses(&self) -> (r: CharacterPoseNames)
        ensures
            r.girlfriend == (CharacterPoseRequest { name: self.girlfriend_pose, started_at: self.girlfriend_started }),
            r.opponent == (CharacterPoseRequest { name: self.opponent_pose, started_at: self.opponent_started }),
            r.player == (CharacterPoseRequest { name: self.player_pose, started_at: self.player_started }),
    {
        CharacterPoseNames {
            girlfriend: CharacterPoseRequest { name: self.girlfriend_pose, started_at: self.girlfriend_started },
            opponent: CharacterPoseRequest { name: self.opponent_pose, started_at: self.opponent_started },
            player: CharacterPoseRequest { name: self.player_pose, started_at: self.player_started },
        }
    }

    pub fn set_timings(&mut self, timings: CharacterAnimTimings)
        ensures
            *final(self) == (CharacterAnimState { timings, ..*old(self) }),
    {
        self.timings = timings;
    }

    /// Back to the starting poses, keeping the loaded timings.
    pub fn reset_song(&mut self)
        ensures
            *final(self) == initial_state(old(self).timings),
    {
        *self = CharacterAnimState::with_timings(self.timings);
    }

    fn dance_girlfriend_now(&mut self, cursor: Samples)
        ensures
            *final(self) == dance_girlfriend(*old(self), cursor),
    {
        self.girlfriend_pose = if self.gf_danced { "danceRight" } else { "danceLeft" };
        self.gf_danced = !self.gf_danced;
        self.girlfriend_started = cursor;
        self.girlfriend_count_duration = None;
    }

    fn update_beat_dances(&mut self, cursor: Samples, beat: i64)
        ensures
            *final(self) == beat_step(*old(self), cursor, beat),
    {
        if beat <= self.last_beat {
            return;
        }
        self.last_beat = beat;
        if str_starts_with(self.girlfriend_pose, "dance") {
            self.dance_girlfriend_now(cursor);
        }
        if str_starts_with(self.opponent_pose, "idle") || str_starts_with(self.opponent_pose, "dance") {
            self.opponent_pose = "idle";
            self.opponent_started = cursor;
        }
        if str_starts_with(self.player_pose, "idle") || str_starts_with(self.player_pose, "dance") {
            self.player_pose = "idle";
            self.player_started = cursor;
        }
    }

    fn girlfriend_count_finished(&self, cursor: Samples) -> (r: bool)
        ensures
            r == count_finished(*self, cursor),
    {
        match self.girlfriend_count_duration {
            None => false,
            Some(d) => saturating_sub_i64(cursor.0, self.girlfriend_started.0) >= if d < 1 { 1 } else { d },
        }
    }

    fn update_chart_animation_resets(&mut self, cursor: Samples, hold: i64)
        ensures
            *final(self) == resets_step(*old(self), cursor, hold),
    {
        if is_girlfriend_count_pose(self.girlfriend_pose) {
            if self.girlfriend_count_finished(cursor) {
                self.dance_girlfriend_now(cursor);
            }
        } else if is_chart_special_pose(self.girlfriend_pose)
            && saturating_sub_i64(cursor.0, self.girlfriend_started.0) >= hold {
            self.dance_girlfriend_now(cursor);
        }
        if is_chart_special_pose(self.opponent_pose) && saturating_sub_i64(cursor.0, self.opponent_started.0) >= hold {
            self.opponent_pose = "idle";
            self.opponent_started = cursor;
        }
        if is_chart_special_pose(self.player_pose) && saturating_sub_i64(cursor.0, self.player_started.0) >= hold {
            self.player_pose = "idle";
            self.player_started = cursor;
        }
    }

    /// One frame: beat dances for a new `beat`, chart poses ending after `hold`
    /// samples, singing ending at its hold.
    pub fn update(&mut self, cursor: Samples, beat: i64, hold: i64, player_holding: bool)
        ensures
            *final(self) == update_spec(*old(self), cursor, beat, hold, player_holding),
    {
        self.update_beat_dances(cursor, beat);
        self.update_chart_animation_resets(cursor, hold);
        if str_starts_with(self.opponent_pose, "sing") && cursor.0 >= self.opponent_until.0 {
            self.opponent_pose = "idle";
            self.opponent_started = cursor;
        }
        if str_starts_with(self.player_pose, "sing") && (str_ends_with(self.player_pose, "miss") || !player_holding)
            && cursor.0 >= self.player_until.0 {
            self.player_pose = "idle";
            self.player_started = cursor;
        }
    }

    /// Plays a chart event's animation on `target`; false when the animation or the
    /// target is unknown.
    pub fn play_chart_animation(&mut self, target: &str, animation: &str, cursor: Samples, force: bool) -> (r: bool)
        ensures
            !known_chart_pose(animation@) ==> !r && *final(self) == *old(self),
            known_chart_pose(animation@) ==> exists|p: &'static str| p@ == animation@
                && (*final(self), r) == chart_animation_spec(*old(self), target@, p, cursor, force),
    {
        let pose = match chart_animation_pose(animation) {
            Some(p) => p,
            None => return false,
        };
        if eq_ignore_ascii_case(target, "bf") || eq_ignore_ascii_case(target, "boyfriend")
            || eq_ignore_ascii_case(target, "player") {
            if force || !str_eq(self.player_pose, pose) {
                self.player_pose = pose;
                self.player_started = cursor;
            }
            true
        } else if eq_ignore_ascii_case(target, "dad") || eq_ignore_ascii_case(target, "opponent") {
            if force || !str_eq(self.opponent_pose, pose) {
                self.opponent_pose = pose;
                self.opponent_started = cursor;
            }
            true
        } else if eq_ignore_ascii_case(target, "gf") || eq_ignore_ascii_case(target, "girlfriend") {
            if force || !str_eq(self.girlfriend_pose, pose) {
                self.girlfriend_pose = pose;
                self.girlfriend_started = cursor;
                self.girlfriend_count_duration = None;
            }
            true
        } else {
            false
        }
    }

    /// The opponent sings the lane until `sing_hold` samples from now.
    pub fn opponent_note_hit(&mut self, lane: Lane, cursor: Samples, sing_hold: i64)
        requires
            i64::MIN <= cursor.0 + sing_hold <= i64::MAX,
        ensures
            *final(self) == (CharacterAnimState {
                opponent_pose: sing_pose_spec(lane),
                opponent_started: cursor,
                opponent_until: Samples((cursor.0 + sing_hold) as i64),
                ..*old(self)
            }),
    {
        self.opponent_pose = sing_pose(lane);
        self.opponent_started = cursor;
        self.opponent_until = Samples(cursor.0 + sing_hold);
    }

    /// The player sings the lane until `sing_hold` samples from now.
    pub fn player_note_hit(&mut self, lane: Lane, cursor: Samples, sing_hold: i64)
        requires
            i64::MIN <= cursor.0 + sing_hold <= i64::MAX,
        ensures
            *final(self) == (CharacterAnimState {
                player_pose: sing_pose_spec(lane),
                player_started: cursor,
                player_until: Samples((cursor.0 + sing_hold) as i64),
                ..*old(self)
            }),
    {
        self.player_pose = sing_pose(lane);
        self.player_started = cursor;
        self.player_until = Samples(cursor.0 + sing_hold);
    }

    /// The player shows the lane's miss pose until `miss_hold` samples from now (twice
    /// the sing time, as the caller computes it).
    pub fn player_note_miss(&mut self, lane: Lane, cursor: Samples, miss_hold: i64)
        requires
            i64::MIN <= cursor.0 + miss_hold <= i64::MAX,
        ensures
            *final(self) == (CharacterAnimState {
                player_pose: miss_pose_spec(lane),
                player_started: cursor,
                player_until: Samples((cursor.0 + miss_hold) as i64),
                ..*old(self)
            }),
    {
        self.player_pose = miss_pose(lane);
        self.player_started = cursor;
        self.player_until = Samples(cursor.0 + miss_hold);
    }

    /// An opponent hit on a note whose kind, where it has one, resolves to `kind`: skip
    /// leaves the pose, a sing suffix sings the suffixed pose, a pose plays it; otherwise
    /// an ordinary hit.
    pub fn opponent_note_hit_kind(&mut self, kind: Option<NoteKindAction>, lane: Lane, cursor: Samples, sing_hold: i64)
        requires
            i64::MIN <= cursor.0 + sing_hold <= i64::MAX,
        ensures
            match kind_action(kind) {
                NoteKindAction::Skip => *final(self) == *old(self),
                NoteKindAction::SingSuffix(suffix) => final(self).opponent_pose@ == sing_pose_with_suffix_spec(lane, suffix@)
                    && *final(self) == (CharacterAnimState {
                        opponent_pose: final(self).opponent_pose,
                        opponent_started: cursor,
                        opponent_until: Samples((cursor.0 + sing_hold) as i64),
                        ..*old(self)
                    }),
                NoteKindAction::Pose(pose) => *final(self) == (CharacterAnimState {
                    opponent_pose: pose,
                    opponent_started: cursor,
                    ..*old(self)
                }),
                _ => *final(self) == (CharacterAnimState {
                    opponent_pose: sing_pose_spec(lane),
                    opponent_started: cursor,
                    opponent_until: Samples((cursor.0 + sing_hold) as i64),
                    ..*old(self)
                }),
            },
    {
        let action = match kind {
            Some(a) => a,
            None => NoteKindAction::Fallthrough,
        };
        match action {
            NoteKindAction::Skip => {},
            NoteKindAction::SingSuffix(suffix) => {
                self.opponent_pose = sing_pose_with_suffix(lane, suffix);
                self.opponent_started = cursor;
                self.opponent_until = Samples(cursor.0 + sing_hold);
            },
            NoteKindAction::Pose(pose) => {
                self.opponent_pose = pose;
                self.opponent_started = cursor;
            },
            _ => self.opponent_note_hit(lane, cursor, sing_hold),
        }
    }

    /// A player hit on a note whose kind, where it has one, resolves to `kind`: skip
    /// leaves the pose, a sing suffix sings the suffixed pose, a miss suffix shows the
    /// suffixed miss pose for `miss_hold`, a pose plays it; otherwise an ordinary hit.
    pub fn player_note_hit_kind(
        &mut self,
        kind: Option<NoteKindAction>,
        lane: Lane,
        cursor: Samples,
        sing_hold: i64,
        miss_hold: i64,
    )
        requires
            i64::MIN <= cursor.0 + sing_hold <= i64::MAX,
            i64::MIN <= cursor.0 + miss_hold <= i64::MAX,
        ensures
            player_action_result(*old(self), *final(self), kind_action(kind), lane, cursor, sing_hold, miss_hold, false),
    {
        let action = match kind {
            Some(a) => a,
            None => NoteKindAction::Fallthrough,
        };
        match action {
            NoteKindAction::Skip => {},
            NoteKindAction::SingSuffix(suffix) => {
                self.player_pose = sing_pose_with_suffix(lane, suffix);
                self.player_started = cursor;
                self.player_until = Samples(cursor.0 + sing_hold);
            },
            NoteKindAction::MissSuffix(suffix) => {
                self.player_pose = miss_pose_with_suffix(lane, suffix);
                self.player_started = cursor;
                self.player_until = Samples(cursor.0 + miss_hold);
            },
            NoteKindAction::Pose(pose) => {
                self.player_pose = pose;
                self.player_started = cursor;
            },
            NoteKindAction::Fallthrough => self.player_note_hit(lane, cursor, sing_hold),
        }
    }

    /// A player miss on a note whose kind, where it has one, resolves to `kind`: as for a
    /// hit, except that a note without a kind action is an ordinary miss.
    pub fn player_note_miss_kind(
        &mut self,
        kind: Option<NoteKindAction>,
        lane: Lane,
        cursor: Samples,
        sing_hold: i64,
        miss_hold: i64,
    )
        requires
            i64::MIN <= cursor.0 + sing_hold <= i64::MAX,
            i64::MIN <= cursor.0 + miss_hold <= i64::MAX,
        ensures
            player_action_result(*old(self), *final(self), kind_action(kind), lane, cursor, sing_hold, miss_hold, true),
    {
        match kind {
            Some(NoteKindAction::Fallthrough) | None => self.player_note_miss(lane, cursor, miss_hold),
            _ => self.player_note_hit_kind(kind, lane, cursor, sing_hold, miss_hold),
        }
    }

    fn play_girlfriend_count_animation(&mut self, pose: Option<&'static str>, timing: CountAnimationTiming, cursor: Samples)
        ensures
            *final(self) == match pose {
                Some(p) => CharacterAnimState {
                    girlfriend_pose: p,
                    girlfriend_started: cursor,
                    girlfriend_count_duration: Some(timing.duration_samples),
                    ..*old(self)
                },
                None => *old(self),
            },
    {
        match pose {
            Some(p) => {
                self.girlfriend_pose = p;
                self.girlfriend_started = cursor;
                self.girlfriend_count_duration = Some(timing.duration_samples);
            },
            None => {},
        }
    }

    /// A combo drop: the highest drop animation the count has reached, when it has a pose.
    pub fn girlfriend_combo_drop(&mut self, combo_count: u32, cursor: Samples)
        ensures
            *final(self) == match highest_drop_spec(old(self).timings.girlfriend_drop_timings@, combo_count) {
                Some(t) if t.count == 70 => CharacterAnimState {
                    girlfriend_pose: "drop70",
                    girlfriend_started: cursor,
                    girlfriend_count_duration: Some(t.duration_samples),
                    ..*old(self)
                },
                _ => *old(self),
            },
    {
        match highest_drop_timing(&self.timings.girlfriend_drop_timings, combo_count) {
            Some(drop) => {
                let pose = drop_pose(drop.count);
                self.play_girlfriend_count_animation(pose, drop, cursor);
            },
            None => {},
        }
    }

    /// A good or sick hit plays the combo animation whose count equals the combo; a
    /// worse hit counts as a combo drop.
    pub fn girlfriend_note_hit(&mut self, judgment: Judgment, combo_count: u32, cursor: Samples)
        ensures
            (judgment == Judgment::Sick || judgment == Judgment::Good) ==> *final(self) == match exact_count_spec(
                old(self).timings.girlfriend_combo_timings@,
                combo_count,
            ) {
                Some(t) if t.count == 50 || t.count == 200 => CharacterAnimState {
                    girlfriend_pose: if t.count == 50 { "combo50" } else { "combo200" },
                    girlfriend_started: cursor,
                    girlfriend_count_duration: Some(t.duration_samples),
                    ..*old(self)
                },
                _ => *old(self),
            },
            !(judgment == Judgment::Sick || judgment == Judgment::Good) ==> *final(self) == match highest_drop_spec(
                old(self).timings.girlfriend_drop_timings@,
                combo_count,
            ) {
                Some(t) if t.count == 70 => CharacterAnimState {
                    girlfriend_pose: "drop70",
                    girlfriend_started: cursor,
                    girlfriend_count_duration: Some(t.duration_samples),
                    ..*old(self)
                },
                _ => *old(self),
            },
    {
        match judgment {
            Judgment::Sick | Judgment::Good => {
                match exact_count_timing(&self.timings.girlfriend_combo_timings, combo_count) {
                    Some(timing) => {
                        let pose = combo_pose(timing.count);
                        self.play_girlfriend_count_animation(pose, timing, cursor);
                    },
                    None => {},
                }
            },
            _ => self.girlfriend_combo_drop(combo_count, cursor),
        }
    }

    pub fn player_first_death(&mut self, cursor: Samples)
        ensures
            *final(self) == (CharacterAnimState { player_pose: "firstDeath", player_started: cursor, ..*old(self) }),
    {
        self.player_pose = "firstDeath";
        self.player_started = cursor;
    }

    pub fn player_death_loop(&mut self, cursor: Samples)
        ensures
            *final(self) == (CharacterAnimState { player_pose: "deathLoop", player_started: cursor, ..*old(self) }),
    {
        self.player_pose = "deathLoop";
        self.player_started = cursor;
    }

    pub fn player_death_confirm(&mut self, cursor: Samples)
        ensures
            *final(self) == (CharacterAnimState { player_pose: "deathConfirm", player_started: cursor, ..*old(self) }),
    {
        self.player_pose = "deathConfirm";
        self.player_started = cursor;
    }
}

/// Beat dances happen once per beat: a second update on a beat already seen makes no
/// beat move, and the girlfriend alternates left and right on successive beats.
pub proof fn law_beat_dances_once_per_beat(s: CharacterAnimState, cursor: Samples, later: Samples, beat: i64)
    requires
        beat > s.last_beat,
    ensures
        beat_step(beat_step(s, cursor, beat), later, beat) == beat_step(s, cursor, beat),
        starts_with_seq(s.girlfriend_pose@, "dance"@) ==> beat_step(s, cursor, beat).gf_danced == !s.gf_danced,
{
}

/// Pose names follow the lanes: the sing pose of a lane is `sing` and the lane's
/// direction in capitals, different lanes sing different poses, and the miss pose of a
/// lane is its sing pose followed by `miss`.
pub proof fn law_pose_names_follow_lanes(lane: Lane, other: Lane)
    ensures
        sing_pose_spec(Lane::Left)@ == "singLEFT"@,
        sing_pose_spec(Lane::Down)@ == "singDOWN"@,
        sing_pose_spec(Lane::Up)@ == "singUP"@,
        sing_pose_spec(Lane::Right)@ == "singRIGHT"@,
        miss_pose_spec(lane)@ == sing_pose_spec(lane)@ + "miss"@,
        lane != other ==> sing_pose_spec(lane)@ != sing_pose_spec(other)@,
        lane != other ==> miss_pose_spec(lane)@ != miss_pose_spec(other)@,
        forall|suffix: Seq<char>|
            #[trigger] sing_pose_with_suffix_spec(lane, suffix) == sing_pose_spec(lane)@
                || sing_pose_with_suffix_spec(lane, suffix) == sing_pose_spec(lane)@ + "-"@ + suffix,
        forall|suffix: Seq<char>|
            #[trigger] miss_pose_with_suffix_spec(lane, suffix) == miss_pose_spec(lane)@
                || miss_pose_with_suffix_spec(lane, suffix) == miss_pose_spec(lane)@ + "-"@ + suffix,
        sing_pose_with_suffix_spec(lane, "alt"@) == sing_pose_spec(lane)@ + "-alt"@,
        miss_pose_with_suffix_spec(lane, "bf2"@) == miss_pose_spec(lane)@ + "-bf2"@,
{
    reveal_strlit("alt");
    reveal_strlit("-alt");
    reveal_strlit("bf2");
    reveal_strlit("-bf2");
    reveal_strlit("-");
    assert("-"@ + "alt"@ =~= "-alt"@);
    assert("-"@ + "bf2"@ =~= "-bf2"@);
    assert(sing_pose_spec(lane)@ + "-"@ + "alt"@ =~= sing_pose_spec(lane)@ + ("-"@ + "alt"@));
    assert(miss_pose_spec(lane)@ + "-"@ + "bf2"@ =~= miss_pose_spec(lane)@ + ("-"@ + "bf2"@));
    reveal_strlit("singLEFT");
    reveal_strlit("singDOWN");
    reveal_strlit("singUP");
    reveal_strlit("singRIGHT");
    reveal_strlit("singLEFTmiss");
    reveal_strlit("singDOWNmiss");
    reveal_strlit("singUPmiss");
    reveal_strlit("singRIGHTmiss");
    reveal_strlit("miss");
    assert("singLEFT"@ + "miss"@ =~= "singLEFTmiss"@);
    assert("singDOWN"@ + "miss"@ =~= "singDOWNmiss"@);
    assert("singUP"@ + "miss"@ =~= "singUPmiss"@);
    assert("singRIGHT"@ + "miss"@ =~= "singRIGHTmiss"@);
    if lane != other {
        assert(sing_pose_spec(lane)@.len() != sing_pose_spec(other)@.len() || sing_pose_spec(lane)@[4]
            != sing_pose_spec(other)@[4] || sing_pose_spec(lane)@[5] != sing_pose_spec(other)@[5]);
        assert(miss_pose_spec(lane)@.len() != miss_pose_spec(other)@.len() || miss_pose_spec(lane)@[4]
            != miss_pose_spec(other)@[4] || miss_pose_spec(lane)@[5] != miss_pose_spec(other)@[5]);
    }
}

} // verus!
