//! Character animation bookkeeping shared by atlas-based characters: which pose a
//! request resolves to, how long a pose lasts, and where its files are.

use vstd::prelude::*;
use crate::text::{chars_of, str_eq, string_from_chars};
use crate::timing::{Samples, sat_sub_i64, sat_add_i64, saturating_sub_i64, saturating_add_i64};

verus! {

/// A character pose: its animation name, frame rate, frame count and whether it loops.
#[derive(Debug, Clone)]
pub struct PoseInfo {
    pub name: String,
    pub fps: u16,
    pub frame_count: usize,
    pub looped: bool,
}

/// Samples that `frame_count` frames last at `fps` (both at least 1, the sample rate at
/// least 1 Hz), rounded up.
pub open spec fn pose_duration_spec(sample_rate: u32, fps: u16, frame_count: usize) -> int {
    let r = if sample_rate == 0 { 1 } else { sample_rate as int };
    let f = if fps == 0 { 1 } else { fps as int };
    let n = if frame_count == 0 { 1 } else { frame_count as int };
    (r * n + f - 1) / f
}

pub fn pose_duration_samples(sample_rate: u32, fps: u16, frame_count: usize) -> (r: Samples)
    requires
        pose_duration_spec(sample_rate, fps, frame_count) <= i64::MAX,
    ensures
        r.0 == pose_duration_spec(sample_rate, fps, frame_count),
{
    let r: u128 = if sample_rate == 0 { 1 } else { sample_rate as u128 };
    let f: u128 = if fps == 0 { 1 } else { fps as u128 };
    let n: u128 = if frame_count == 0 { 1 } else { frame_count as u128 };
    assert(r * n <= 0xffff_ffff * 0xffff_ffff_ffff_ffff) by (nonlinear_arith)
        requires r <= 0xffff_ffff, n <= 0xffff_ffff_ffff_ffff;
    Samples(((r * n + f - 1) / f) as i64)
}

/// The first pose whose name is `name` followed by `-hold`.
pub open spec fn is_hold_of(candidate: Seq<char>, name: Seq<char>) -> bool {
    candidate == name + "-hold"@
}

pub fn find_pose(poses: &Vec<PoseInfo>, name: &str) -> (r: Option<usize>)
    ensures
        match r {
            Some(i) => i < poses.len() && poses@[i as int].name@ == name@
                && forall|j: int| 0 <= j < i ==> poses@[j].name@ != name@,
            None => forall|j: int| 0 <= j < poses.len() ==> poses@[j].name@ != name@,
        },
{
    let mut i: usize = 0;
    while i < poses.len()
        invariant
            i <= poses.len(),
            forall|j: int| 0 <= j < i ==> poses@[j].name@ != name@,
        decreases poses.len() - i,
    {
        if str_eq(poses[i].name.as_str(), name) {
            return Some(i);
        }
        i = i + 1;
    }
    None
}

/// The first pose that holds `name` when it has played through.
pub fn hold_pose_for(poses: &Vec<PoseInfo>, name: &str) -> (r: Option<usize>)
    ensures
        match r {
            Some(i) => i < poses.len() && is_hold_of(poses@[i as int].name@, name@)
                && forall|j: int| 0 <= j < i ==> !is_hold_of(poses@[j].name@, name@),
            None => forall|j: int| 0 <= j < poses.len() ==> !is_hold_of(poses@[j].name@, name@),
        },
{
    let mut target = String::new();
    target.append(name);
    target.append("-hold");
    let mut i: usize = 0;
    while i < poses.len()
        invariant
            i <= poses.len(),
            target@ == name@ + "-hold"@,
            forall|j: int| 0 <= j < i ==> !is_hold_of(poses@[j].name@, name@),
        decreases poses.len() - i,
    {
        if str_eq(poses[i].name.as_str(), target.as_str()) {
            return Some(i);
        }
        i = i + 1;
    }
    None
}

/// A requested pose, or once a one-shot pose has played through and has a hold pose,
/// that hold pose, starting where the one-shot ended. Unknown names fall back to the
/// initial pose.
pub fn resolve_pose_for_request(
    poses: &Vec<PoseInfo>,
    initial: usize,
    name: &str,
    started_at: Samples,
    cursor: Samples,
    sample_rate: u32,
) -> (r: (usize, Samples))
    requires
        initial < poses.len(),
        forall|i: int| 0 <= i < poses.len() ==> pose_duration_spec(sample_rate, poses@[i].fps, poses@[i].frame_count) <= i64::MAX,
    ensures
        r.0 < poses.len(),
        ({
            let p = match find_pose_spec(poses@, name@) { Some(i) => i, None => initial as int };
            let d = pose_duration_spec(sample_rate, poses@[p].fps, poses@[p].frame_count);
            if !poses@[p].looped && sat_sub_i64(cursor.0, started_at.0) >= d && first_hold(poses@, poses@[p].name@) is Some {
                r == (first_hold(poses@, poses@[p].name@)->0 as usize, Samples(sat_add_i64(started_at.0, d as i64)))
            } else {
                r == (p as usize, started_at)
            }
        }),
{
    let p = match find_pose(poses, name) {
        Some(i) => i,
        None => initial,
    };
    proof {
        lemma_find_pose_spec(poses@, name@, p as int);
    }
    let pose = &poses[p];
    let duration = pose_duration_samples(sample_rate, pose.fps, pose.frame_count);
    if !pose.looped && saturating_sub_i64(cursor.0, started_at.0) >= duration.0 {
        match hold_pose_for(poses, pose.name.as_str()) {
            Some(h) => {
                proof {
                    lemma_first_hold(poses@, pose.name@, h as int);
                }
                return (h, Samples(saturating_add_i64(started_at.0, duration.0)));
            },
            None => {
                proof {
                    lemma_first_hold_none(poses@, pose.name@);
                }
            },
        }
    }
    (p, started_at)
}

/// The first pose named `name`.
pub open spec fn find_pose_spec(poses: Seq<PoseInfo>, name: Seq<char>) -> Option<int>
    decreases poses.len(),
{
    if poses.len() == 0 {
        None
    } else if poses.last().name@ == name && find_pose_spec(poses.drop_last(), name) is None {
        Some(poses.len() - 1)
    } else {
        find_pose_spec(poses.drop_last(), name)
    }
}

/// The first pose holding `name`.
pub open spec fn first_hold(poses: Seq<PoseInfo>, name: Seq<char>) -> Option<int>
    decreases poses.len(),
{
    if poses.len() == 0 {
        None
    } else if is_hold_of(poses.last().name@, name) && first_hold(poses.drop_last(), name) is None {
        Some(poses.len() - 1)
    } else {
        first_hold(poses.drop_last(), name)
    }
}

proof fn lemma_find_pose_spec(poses: Seq<PoseInfo>, name: Seq<char>, p: int)
    ensures
        (0 <= p < poses.len() && poses[p].name@ == name && forall|j: int| 0 <= j < p ==> poses[j].name@ != name)
            ==> find_pose_spec(poses, name) == Some(p),
        (forall|j: int| 0 <= j < poses.len() ==> poses[j].name@ != name) ==> find_pose_spec(poses, name) is None,
    decreases poses.len(),
{
    if poses.len() > 0 {
        lemma_find_pose_spec(poses.drop_last(), name, p);
        if 0 <= p < poses.len() - 1 && poses[p].name@ == name && forall|j: int| 0 <= j < p ==> poses[j].name@ != name {
            assert(poses.drop_last()[p] == poses[p]);
            assert forall|j: int| 0 <= j < p implies poses.drop_last()[j].name@ != name by {
                assert(poses.drop_last()[j] == poses[j]);
            }
        }
        if p == poses.len() - 1 && poses[p].name@ == name && forall|j: int| 0 <= j < p ==> poses[j].name@ != name {
            assert forall|j: int| 0 <= j < poses.drop_last().len() implies poses.drop_last()[j].name@ != name by {
                assert(poses.drop_last()[j] == poses[j]);
            }
        }
        if forall|j: int| 0 <= j < poses.len() ==> poses[j].name@ != name {
            assert forall|j: int| 0 <= j < poses.drop_last().len() implies poses.drop_last()[j].name@ != name by {
                assert(poses.drop_last()[j] == poses[j]);
            }
            assert(poses[poses.len() - 1].name@ != name);
        }
    }
}

proof fn lemma_first_hold(poses: Seq<PoseInfo>, name: Seq<char>, h: int)
    requires
        0 <= h < poses.len(),
        is_hold_of(poses[h].name@, name),
        forall|j: int| 0 <= j < h ==> !is_hold_of(poses[j].name@, name),
    ensures
        first_hold(poses, name) == Some(h),
    decreases poses.len(),
{
    if h < poses.len() - 1 {
        assert forall|j: int| 0 <= j < h implies !is_hold_of(poses.drop_last()[j].name@, name) by {
            assert(poses.drop_last()[j] == poses[j]);
        }
        assert(poses.drop_last()[h] == poses[h]);
        lemma_first_hold(poses.drop_last(), name, h);
    } else {
        lemma_first_hold_none(poses.drop_last(), name);
    }
}

proof fn lemma_first_hold_none(poses: Seq<PoseInfo>, name: Seq<char>)
    requires
        forall|j: int| 0 <= j < poses.len() ==> !is_hold_of(poses[j].name@, name),
    ensures
        first_hold(poses, name) is None,
    decreases poses.len(),
{
    if poses.len() > 0 {
        assert forall|j: int| 0 <= j < poses.drop_last().len() implies !is_hold_of(poses.drop_last()[j].name@, name) by {
            assert(poses.drop_last()[j] == poses[j]);
        }
        lemma_first_hold_none(poses.drop_last(), name);
        assert(!is_hold_of(poses[poses.len() - 1].name@, name));
    }
}

/// The frame of an animation to show at a sequence position: its `indices` entry when
/// it lists one, else the position itself.
pub fn animation_frame_offset(indices: &Vec<u16>, sequence_index: usize) -> (r: u32)
    ensures
        sequence_index < indices.len() ==> r == indices@[sequence_index as int],
        sequence_index >= indices.len() ==> r == (sequence_index as int) % 0x1_0000_0000,
{
    if sequence_index < indices.len() {
        indices[sequence_index] as u32
    } else {
        ((sequence_index as u64) % 0x1_0000_0000) as u32
    }
}

/// A player character faces the other way from its definition.
pub fn effective_flip_x(flip_x: bool, is_player: bool) -> (r: bool)
    ensures
        r == (flip_x != is_player),
{
    if is_player { !flip_x } else { flip_x }
}

/// The part of a text after its first `:`, or all of it.
pub open spec fn after_first_colon(s: Seq<char>) -> Seq<char> {
    if exists|i: int| 0 <= i < s.len() && s[i] == ':' {
        let i = choose|i: int| 0 <= i < s.len() && s[i] == ':' && forall|j: int| 0 <= j < i ==> s[j] != ':';
        s.subrange(i + 1, s.len() as int)
    } else {
        s
    }
}

fn first_colon(chars: &Vec<char>) -> (r: Option<usize>)
    ensures
        match r {
            Some(i) => i < chars.len() && chars@[i as int] == ':' && forall|j: int| 0 <= j < i ==> chars@[j] != ':',
            None => forall|j: int| 0 <= j < chars.len() ==> chars@[j] != ':',
        },
{
    let mut i: usize = 0;
    while i < chars.len()
        invariant
            i <= chars.len(),
            forall|j: int| 0 <= j < i ==> chars@[j] != ':',
        decreases chars.len() - i,
    {
        if chars[i] == ':' {
            return Some(i);
        }
        i = i + 1;
    }
    None
}

/// A file of an atlas asset: `images/`, the asset path without any `library:` prefix,
/// `/`, the file name.
pub fn animate_asset_file(asset_path: &str, file_name: &str) -> (r: String)
    ensures
        r@ == "images/"@ + after_first_colon(asset_path@) + "/"@ + file_name@,
{
    let chars = chars_of(asset_path);
    let start: usize = match first_colon(&chars) {
        Some(i) => i + 1,
        None => 0,
    };
    proof {
        if start == 0 {
            assert(!exists|k: int| 0 <= k < asset_path@.len() && asset_path@[k] == ':');
        } else {
            let k = choose|k: int| 0 <= k < asset_path@.len() && asset_path@[k] == ':' && forall|j: int| 0 <= j < k ==> asset_path@[j] != ':';
            assert(k == start - 1) by {
                if k < start - 1 {
                    assert(chars@[k] != ':');
                } else if k > start - 1 {
                    assert(asset_path@[start - 1] == ':');
                }
            }
        }
    }
    let mut rest: Vec<char> = Vec::new();
    let mut k: usize = start;
    while k < chars.len()
        invariant
            start <= k <= chars.len(),
            rest@ == chars@.subrange(start as int, k as int),
        decreases chars.len() - k,
    {
        rest.push(chars[k]);
        k = k + 1;
    }
    let mut out = "images/".to_owned();
    out.append(string_from_chars(&rest).as_str());
    out.append("/");
    out.append(file_name);
    proof {
        if start == 0 {
            assert(chars@.subrange(0, chars@.len() as int) =~= asset_path@);
        }
    }
    out
}

} // verus!
