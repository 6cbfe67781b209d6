use rustic_app::character::{
    chart_animation_pose, combo_pose, drop_pose, exact_count_timing, highest_drop_timing,
    is_chart_special_pose, is_girlfriend_count_pose, miss_pose_with_suffix,
    sing_pose_with_suffix, CharacterAnimState, CharacterAnimTimings, CountAnimationTiming,
    Judgment, NoteKindAction,
};
use rustic_app::character_assets::{
    animate_asset_file, animation_frame_offset, effective_flip_x, hold_pose_for,
    pose_duration_samples, resolve_pose_for_request, PoseInfo,
};
use rustic_app::holds::Lane;
use rustic_app::timing::Samples;

// At 48 kHz and 100 BPM a step lasts 7 200 samples and a beat 28 800.
const STEP: i64 = 7_200;
const CHART_HOLD: i64 = 4 * STEP;
const SING_HOLD: i64 = 8 * STEP;

fn beat_at(cursor: i64) -> i64 {
    cursor.div_euclid(4 * STEP)
}

fn update(state: &mut CharacterAnimState, cursor: i64, holding: bool) {
    state.update(Samples(cursor), beat_at(cursor), CHART_HOLD, holding);
}

fn count_timing(count: u32, duration_samples: i64) -> CountAnimationTiming {
    CountAnimationTiming {
        count,
        duration_samples,
    }
}

#[test]
fn opponent_sings_then_returns_to_idle_after_dad_hold_time() {
    let mut state = CharacterAnimState::default();
    state.opponent_note_hit(Lane::Left, Samples(1_000), SING_HOLD);

    assert_eq!(state.poses().opponent.name, "singLEFT");
    assert_eq!(state.poses().opponent.started_at, Samples(1_000));
    update(&mut state, 58_599, false);
    assert_eq!(state.poses().opponent.name, "singLEFT");
    update(&mut state, 58_600, false);
    assert_eq!(state.poses().opponent.name, "idle");
    assert_eq!(state.poses().opponent.started_at, Samples(58_600));
}

#[test]
fn player_hold_keeps_sing_pose_until_sing_time_after_release() {
    let mut state = CharacterAnimState::default();
    state.player_note_hit(Lane::Down, Samples(0), SING_HOLD);

    update(&mut state, 30_000, true);
    assert_eq!(state.poses().player.name, "singDOWN");
    update(&mut state, 30_000, false);
    assert_eq!(state.poses().player.name, "singDOWN");
    update(&mut state, 57_600, false);
    assert_eq!(state.poses().player.name, "idle");
}

#[test]
fn plain_notes_and_fallthrough_kinds_sing_and_miss_normally() {
    let mut state = CharacterAnimState::default();

    state.opponent_note_hit_kind(None, Lane::Down, Samples(10), SING_HOLD);
    assert_eq!(state.poses().opponent.name, "singDOWN");
    state.player_note_hit_kind(Some(NoteKindAction::Fallthrough), Lane::Up, Samples(20), SING_HOLD, 2 * SING_HOLD);
    assert_eq!(state.poses().player.name, "singUP");
    state.player_note_miss_kind(None, Lane::Left, Samples(30), SING_HOLD, 2 * SING_HOLD);
    assert_eq!(state.poses().player.name, "singLEFTmiss");
    state.player_note_miss_kind(Some(NoteKindAction::MissSuffix("bf2")), Lane::Right, Samples(40), SING_HOLD, 2 * SING_HOLD);
    assert_eq!(state.poses().player.name, "singRIGHTmiss-bf2");
}

#[test]
fn character_sing_timing_uses_loaded_vslice_steps() {
    let mut state = CharacterAnimState::default();
    // 5 and 6.5 steps
    state.player_note_hit(Lane::Down, Samples(0), 36_000);
    update(&mut state, 35_999, false);
    assert_eq!(state.poses().player.name, "singDOWN");
    update(&mut state, 36_000, false);
    assert_eq!(state.poses().player.name, "idle");

    state.opponent_note_hit(Lane::Up, Samples(0), 46_800);
    update(&mut state, 46_799, false);
    assert_eq!(state.poses().opponent.name, "singUP");
    update(&mut state, 46_800, false);
    assert_eq!(state.poses().opponent.name, "idle");
}

#[test]
fn note_kind_hit_overrides_use_scripted_character_poses() {
    let mut state = CharacterAnimState::default();

    state.opponent_note_hit_kind(Some(NoteKindAction::Pose("ugh")), Lane::Up, Samples(1_000), SING_HOLD);
    assert_eq!(state.poses().opponent.name, "ugh");

    state.opponent_note_hit_kind(Some(NoteKindAction::SingSuffix("alt")), Lane::Left, Samples(2_000), SING_HOLD);
    assert_eq!(state.poses().opponent.name, "singLEFT-alt");

    state.player_note_hit_kind(Some(NoteKindAction::SingSuffix("censor")),
        Lane::Right,
        Samples(3_000),
        SING_HOLD,
        2 * SING_HOLD,
    );
    assert_eq!(state.poses().player.name, "singRIGHT-censor");
}

#[test]
fn noanim_hit_preserves_current_pose() {
    let mut state = CharacterAnimState::default();

    state.player_note_hit_kind(Some(NoteKindAction::Skip), Lane::Right, Samples(3_000), SING_HOLD, 2 * SING_HOLD);

    assert_eq!(state.poses().player.name, "idle");
}

#[test]
fn girlfriend_toggles_dance_on_new_beat() {
    let mut state = CharacterAnimState::default();

    assert_eq!(state.poses().girlfriend.name, "danceLeft");
    update(&mut state, 0, false);
    assert_eq!(state.poses().girlfriend.name, "danceRight");
    assert_eq!(state.poses().girlfriend.started_at, Samples(0));
    update(&mut state, 28_800, false);
    assert_eq!(state.poses().girlfriend.name, "danceLeft");
    assert_eq!(state.poses().girlfriend.started_at, Samples(28_800));
}

#[test]
fn girlfriend_dances_through_negative_countdown_beats() {
    let mut state = CharacterAnimState::default();

    update(&mut state, -144_000, false);
    assert_eq!(state.poses().girlfriend.name, "danceRight");
    update(&mut state, -115_200, false);
    assert_eq!(state.poses().girlfriend.name, "danceLeft");
    update(&mut state, -86_400, false);
    assert_eq!(state.poses().girlfriend.name, "danceRight");
    update(&mut state, -57_600, false);
    assert_eq!(state.poses().girlfriend.name, "danceLeft");
    update(&mut state, -28_800, false);
    assert_eq!(state.poses().girlfriend.name, "danceRight");
    update(&mut state, 0, false);
    assert_eq!(state.poses().girlfriend.name, "danceLeft");
}

#[test]
fn player_idle_restarts_on_each_beat_when_not_singing() {
    let mut state = CharacterAnimState::default();
    update(&mut state, 0, false);
    update(&mut state, 28_800, false);
    assert_eq!(state.poses().player.name, "idle");
    assert_eq!(state.poses().player.started_at, Samples(28_800));
}

#[test]
fn opponent_idle_restarts_on_each_beat_when_not_singing() {
    let mut state = CharacterAnimState::default();
    update(&mut state, 0, false);
    update(&mut state, 28_800, false);
    assert_eq!(state.poses().opponent.name, "idle");
    assert_eq!(state.poses().opponent.started_at, Samples(28_800));
}

#[test]
fn chart_event_triggers_bf_hey_until_next_beat() {
    let mut state = CharacterAnimState::default();

    assert!(state.play_chart_animation("bf", "hey", Samples(201_600), true));
    assert_eq!(state.poses().player.name, "hey");
    assert_eq!(state.poses().player.started_at, Samples(201_600));

    update(&mut state, 230_400, false);
    assert_eq!(state.poses().player.name, "idle");
    assert_eq!(state.poses().player.started_at, Samples(230_400));
}

#[test]
fn chart_event_triggers_known_girlfriend_animation() {
    let mut state = CharacterAnimState::default();
    assert!(state.play_chart_animation("girlfriend", "cheer", Samples(500), true));
    assert_eq!(state.poses().girlfriend.name, "cheer");
    assert_eq!(state.poses().girlfriend.started_at, Samples(500));
}

#[test]
fn stress_pico_chart_events_trigger_scripted_poses() {
    let mut state = CharacterAnimState::default();

    assert!(state.play_chart_animation("dad", "redheadsAnim", Samples(1_000), true));
    assert!(state.play_chart_animation("boyfriend", "knifeToss", Samples(2_000), true));

    assert_eq!(state.poses().opponent.name, "redheadsAnim");
    assert_eq!(state.poses().opponent.started_at, Samples(1_000));
    assert_eq!(state.poses().player.name, "knifeToss");
    assert_eq!(state.poses().player.started_at, Samples(2_000));
}

#[test]
fn stress_pico_end_cutscene_poses_are_allowed() {
    let mut state = CharacterAnimState::default();

    assert!(state.play_chart_animation("dad", "stressPicoEnding", Samples(1_000), true));
    assert!(state.play_chart_animation("boyfriend", "laughEnd", Samples(2_000), true));
    assert!(state.play_chart_animation("boyfriend", "laughEnd-loop", Samples(3_000), true));

    assert_eq!(state.poses().opponent.name, "stressPicoEnding");
    assert_eq!(state.poses().player.name, "laughEnd-loop");
    assert_eq!(state.poses().player.started_at, Samples(3_000));
}

#[test]
fn unknown_chart_animations_and_targets_are_refused() {
    let mut state = CharacterAnimState::default();
    assert!(!state.play_chart_animation("bf", "dab", Samples(1), true));
    assert!(!state.play_chart_animation("crowd", "hey", Samples(1), true));
    assert!(state.play_chart_animation("BF", "hey", Samples(5), true));
    assert!(state.play_chart_animation("Bf", "hey", Samples(9), false));
    assert_eq!(state.poses().player.started_at, Samples(5));
    assert_eq!(chart_animation_pose("cheer"), Some("cheer"));
    assert_eq!(chart_animation_pose("Cheer"), None);
}

#[test]
fn girlfriend_chart_animation_returns_to_dance_after_hold_time() {
    let mut state = CharacterAnimState::default();
    state.play_chart_animation("girlfriend", "cheer", Samples(0), true);

    update(&mut state, 28_799, false);
    assert_eq!(state.poses().girlfriend.name, "cheer");
    update(&mut state, 28_800, false);
    assert_eq!(state.poses().girlfriend.name, "danceRight");
    assert_eq!(state.poses().girlfriend.started_at, Samples(28_800));
}

#[test]
fn girlfriend_plays_combo_animation_only_on_matching_good_hit_count() {
    let mut state = CharacterAnimState::default();
    let mut timings = CharacterAnimTimings::none();
    timings.girlfriend_combo_timings = [Some(count_timing(50, 24_000)), None, None, None];
    state.set_timings(timings);

    state.girlfriend_note_hit(Judgment::Sick, 49, Samples(100));
    assert_eq!(state.poses().girlfriend.name, "danceLeft");

    state.girlfriend_note_hit(Judgment::Good, 50, Samples(200));
    assert_eq!(state.poses().girlfriend.name, "combo50");
    assert_eq!(state.poses().girlfriend.started_at, Samples(200));
}

#[test]
fn girlfriend_plays_highest_matching_drop_animation() {
    let mut state = CharacterAnimState::default();
    let mut timings = CharacterAnimTimings::none();
    timings.girlfriend_drop_timings = [
        Some(count_timing(10, 4_800)),
        Some(count_timing(70, 24_000)),
        None,
        None,
    ];
    state.set_timings(timings);

    state.girlfriend_note_hit(Judgment::Bad, 69, Samples(100));
    assert_eq!(state.poses().girlfriend.name, "danceLeft");

    state.girlfriend_combo_drop(70, Samples(200));
    assert_eq!(state.poses().girlfriend.name, "drop70");
    assert_eq!(state.poses().girlfriend.started_at, Samples(200));
}

#[test]
fn girlfriend_count_animation_returns_to_dance_after_source_duration() {
    let mut state = CharacterAnimState::default();
    let mut timings = CharacterAnimTimings::none();
    // a quarter of a second at 48 kHz
    timings.girlfriend_combo_timings = [Some(count_timing(50, 12_000)), None, None, None];
    state.set_timings(timings);

    state.girlfriend_note_hit(Judgment::Sick, 50, Samples(1_000));
    update(&mut state, 12_999, false);
    assert_eq!(state.poses().girlfriend.name, "combo50");
    update(&mut state, 13_000, false);
    assert_eq!(state.poses().girlfriend.name, "danceRight");
    assert_eq!(state.poses().girlfriend.started_at, Samples(13_000));
}

#[test]
fn opponent_chart_animation_returns_to_idle_after_hold_time() {
    let mut state = CharacterAnimState::default();
    state.play_chart_animation("dad", "cheer", Samples(0), true);

    update(&mut state, 28_799, false);
    assert_eq!(state.poses().opponent.name, "cheer");
    update(&mut state, 28_800, false);
    assert_eq!(state.poses().opponent.name, "idle");
    assert_eq!(state.poses().opponent.started_at, Samples(28_800));
}

#[test]
fn miss_pose_restarts_from_the_miss_cursor() {
    let mut state = CharacterAnimState::default();
    state.player_note_miss(Lane::Right, Samples(1_234), 2 * SING_HOLD);
    assert_eq!(state.poses().player.name, "singRIGHTmiss");
    assert_eq!(state.poses().player.started_at, Samples(1_234));
}

#[test]
fn miss_pose_returns_to_idle_after_extended_sing_time() {
    let mut state = CharacterAnimState::default();
    state.player_note_miss(Lane::Right, Samples(0), 2 * SING_HOLD);

    update(&mut state, 115_199, true);
    assert_eq!(state.poses().player.name, "singRIGHTmiss");
    update(&mut state, 115_200, true);
    assert_eq!(state.poses().player.name, "idle");
    assert_eq!(state.poses().player.started_at, Samples(115_200));
}

#[test]
fn death_poses_restart_from_death_cursors() {
    let mut state = CharacterAnimState::default();
    state.player_first_death(Samples(4_800));
    assert_eq!(state.poses().player.name, "firstDeath");
    assert_eq!(state.poses().player.started_at, Samples(4_800));

    state.player_death_loop(Samples(9_600));
    assert_eq!(state.poses().player.name, "deathLoop");
    assert_eq!(state.poses().player.started_at, Samples(9_600));

    state.player_death_confirm(Samples(14_400));
    assert_eq!(state.poses().player.name, "deathConfirm");
    assert_eq!(state.poses().player.started_at, Samples(14_400));
}

#[test]
fn reset_song_restores_starting_poses_and_keeps_loaded_timings() {
    let mut state = CharacterAnimState::default();
    let mut timings = CharacterAnimTimings::none();
    timings.girlfriend_combo_timings = [Some(count_timing(50, 24_000)), None, None, None];
    timings.girlfriend_drop_timings = [Some(count_timing(70, 24_000)), None, None, None];
    state.set_timings(timings);
    state.player_note_hit(Lane::Left, Samples(1_000), SING_HOLD);
    state.opponent_note_hit(Lane::Right, Samples(1_000), SING_HOLD);

    state.reset_song();

    assert_eq!(state.poses().girlfriend.name, "danceLeft");
    assert_eq!(state.poses().opponent.name, "idle");
    assert_eq!(state.poses().player.name, "idle");
    assert_eq!(state.timings, timings);
}

#[test]
fn pose_classification() {
    assert!(is_chart_special_pose("hey"));
    assert!(!is_chart_special_pose("singLEFT"));
    assert!(!is_chart_special_pose("deathLoop"));
    assert!(is_girlfriend_count_pose("combo50"));
    assert!(is_girlfriend_count_pose("drop70"));
    assert!(!is_girlfriend_count_pose("danceLeft"));
    assert_eq!(combo_pose(200), Some("combo200"));
    assert_eq!(combo_pose(100), None);
    assert_eq!(drop_pose(70), Some("drop70"));
    assert_eq!(drop_pose(10), None);
    assert_eq!(sing_pose_with_suffix(Lane::Down, "bf1"), "singDOWN-bf1");
    assert_eq!(sing_pose_with_suffix(Lane::Down, "other"), "singDOWN");
    assert_eq!(miss_pose_with_suffix(Lane::Up, "joint"), "singUPmiss-joint");
    assert_eq!(miss_pose_with_suffix(Lane::Up, "alt"), "singUPmiss");
}

#[test]
fn count_timings_pick_exact_and_highest() {
    let slots = [
        Some(count_timing(10, 1)),
        None,
        Some(count_timing(70, 2)),
        Some(count_timing(70, 3)),
    ];
    assert_eq!(exact_count_timing(&slots, 70), Some(count_timing(70, 2)));
    assert_eq!(exact_count_timing(&slots, 11), None);
    assert_eq!(highest_drop_timing(&slots, 69), Some(count_timing(10, 1)));
    assert_eq!(highest_drop_timing(&slots, 100), Some(count_timing(70, 3)));
    assert_eq!(highest_drop_timing(&slots, 5), None);
}

fn pose(name: &str, frames: usize, looped: bool) -> PoseInfo {
    PoseInfo {
        name: name.to_string(),
        fps: 24,
        frame_count: frames,
        looped,
    }
}

#[test]
fn finished_animate_pose_switches_to_matching_hold_animation() {
    let poses = vec![pose("idle", 10, false), pose("singUP", 6, false), pose("singUP-hold", 4, true)];
    assert_eq!(hold_pose_for(&poses, "singUP"), Some(2));
    assert_eq!(hold_pose_for(&poses, "idle"), None);
    // six frames at 24 fps last 12 000 samples at 48 kHz
    assert_eq!(
        resolve_pose_for_request(&poses, 0, "singUP", Samples(1_000), Samples(12_999), 48_000),
        (1, Samples(1_000))
    );
    assert_eq!(
        resolve_pose_for_request(&poses, 0, "singUP", Samples(1_000), Samples(13_000), 48_000),
        (2, Samples(13_000))
    );
    assert_eq!(
        resolve_pose_for_request(&poses, 0, "missing", Samples(0), Samples(99_999), 48_000),
        (0, Samples(0))
    );
}

#[test]
fn pose_durations_round_up() {
    assert_eq!(pose_duration_samples(44_100, 24, 1), Samples(1_838));
    assert_eq!(pose_duration_samples(48_000, 24, 0), Samples(2_000));
    assert_eq!(pose_duration_samples(0, 0, 3), Samples(3));
}

#[test]
fn character_asset_helpers() {
    assert_eq!(animation_frame_offset(&vec![4, 2], 1), 2);
    assert_eq!(animation_frame_offset(&vec![4, 2], 5), 5);
    assert!(effective_flip_x(false, true));
    assert!(!effective_flip_x(true, true));
    assert!(effective_flip_x(true, false));
    assert_eq!(animate_asset_file("shared:characters/gf", "Animation.json"), "images/characters/gf/Animation.json");
    assert_eq!(animate_asset_file("characters/gf", "spritemap1.png"), "images/characters/gf/spritemap1.png");
}
