use rustic_app::dj::{label_frame_count, DjClock, DjState, DJ_FPS};
use rustic_app::timing::{
    animation_duration_samples, elapsed_frame, flixel_frame_index, label_frame_offset,
    visible_flixel_frame_index, whole_seconds_to_samples, Samples,
};

#[test]
fn flixel_frame_index_holds_previous_frame_on_exact_boundary() {
    assert_eq!(
        flixel_frame_index(Samples(0), 48_000, Samples(0), 24, 3, false),
        0
    );
    assert_eq!(
        flixel_frame_index(Samples(1_999), 48_000, Samples(0), 24, 3, false),
        0
    );
    assert_eq!(
        flixel_frame_index(Samples(2_000), 48_000, Samples(0), 24, 3, false),
        0
    );
    assert_eq!(
        flixel_frame_index(Samples(2_001), 48_000, Samples(0), 24, 3, false),
        1
    );
}

#[test]
fn flixel_frame_index_wraps_after_loop_boundary() {
    assert_eq!(
        flixel_frame_index(Samples(6_000), 48_000, Samples(0), 24, 3, true),
        2
    );
    assert_eq!(
        flixel_frame_index(Samples(6_001), 48_000, Samples(0), 24, 3, true),
        0
    );
}

#[test]
fn visible_frame_keeps_final_frame_through_exact_duration() {
    assert_eq!(
        visible_flixel_frame_index(Samples(6_000), 48_000, Samples(0), 24, 3, false),
        Some(2)
    );
    assert_eq!(
        visible_flixel_frame_index(Samples(6_001), 48_000, Samples(0), 24, 3, false),
        None
    );
}

#[test]
fn label_frame_offset_loops_when_idle() {
    assert_eq!(
        label_frame_offset(Samples(0), Samples(0), 48_000, 24, 10, true),
        0
    );
    assert_eq!(
        label_frame_offset(Samples(2_000), Samples(0), 48_000, 24, 10, true),
        1
    );
    assert_eq!(
        label_frame_offset(Samples(2_000 * 10), Samples(0), 48_000, 24, 10, true),
        0
    );
}

#[test]
fn label_frame_offset_clamps_when_one_shot() {
    assert_eq!(
        label_frame_offset(Samples(2_000 * 4), Samples(0), 48_000, 24, 10, false),
        4
    );
    assert_eq!(
        label_frame_offset(Samples(2_000 * 100), Samples(0), 48_000, 24, 10, false),
        9
    );
}

#[test]
fn label_frame_offset_is_relative_to_state_start() {
    assert_eq!(
        label_frame_offset(Samples(2_000 * 5), Samples(2_000 * 5), 48_000, 24, 17, false),
        0
    );
    assert_eq!(
        label_frame_offset(Samples(2_000 * 7), Samples(2_000 * 5), 48_000, 24, 17, false),
        2
    );
}

#[test]
fn elapsed_frame_and_duration_use_freeplay_dj_rate() {
    assert_eq!(elapsed_frame(Samples(2_000), Samples(0), 48_000, 24), 1);
    assert_eq!(animation_duration_samples(24, 48_000, 24), 48_000);
    assert_eq!(whole_seconds_to_samples(60, 48_000), 2_880_000);
}

fn dj_with(afk: u32, cartoon: u32) -> DjClock {
    DjClock::new(
        label_frame_count(Some(20), 1),
        label_frame_count(Some(24), 1),
        label_frame_count(Some(12), 1),
        label_frame_count(if afk == 0 { None } else { Some(afk) }, 0),
        label_frame_count(if cartoon == 0 { None } else { Some(cartoon) }, 0),
    )
}

#[test]
fn bf_idle_egg_only_plays_once_before_cartoon_state() {
    let mut dj = dj_with(48, 96);
    let egg = whole_seconds_to_samples(60, 48_000);

    dj.tick(Samples(egg), 48_000);
    assert_eq!(dj.state, DjState::IdleEasterEgg);

    let afk_end = Samples(egg + animation_duration_samples(dj.afk_frame_count, 48_000, DJ_FPS));
    dj.tick(afk_end, 48_000);
    assert_eq!(dj.state, DjState::Idle);
    assert!(dj.seen_idle_easter_egg);

    dj.tick(Samples(whole_seconds_to_samples(120, 48_000)), 48_000);
    assert_eq!(dj.state, DjState::Cartoon);
}

#[test]
fn pico_without_cartoon_label_stays_on_idle_egg_path() {
    let mut dj = dj_with(48, 0);
    assert_eq!(dj.cartoon_frame_count, 0);

    dj.tick(Samples(whole_seconds_to_samples(120, 48_000)), 48_000);

    assert_eq!(dj.state, DjState::IdleEasterEgg);
}

#[test]
fn player_action_leaves_cartoon_and_resets_idle_timer() {
    let mut dj = dj_with(48, 96);
    dj.tick(Samples(whole_seconds_to_samples(120, 48_000)), 48_000);
    assert_eq!(dj.state, DjState::Cartoon);

    dj.on_player_action(Samples(6_000_000));

    assert_eq!(dj.state, DjState::Idle);
    assert_eq!(dj.idle_started_at, Samples(6_000_000));
    assert!(!dj.seen_idle_easter_egg);
}

#[test]
fn player_action_restarts_idle_countdown() {
    let mut dj = dj_with(48, 96);
    dj.on_player_action(Samples(1_000_000));
    dj.tick(Samples(1_000_000 + whole_seconds_to_samples(60, 48_000) - 1), 48_000);
    assert_eq!(dj.state, DjState::Idle);
    dj.tick(Samples(1_000_000 + whole_seconds_to_samples(60, 48_000)), 48_000);
    assert_eq!(dj.state, DjState::IdleEasterEgg);
}

#[test]
fn dj_intro_gives_way_to_idle_and_confirm_holds() {
    let mut dj = dj_with(48, 96);
    dj.reset_intro(Samples(10_000));
    assert_eq!(dj.label_frame(Samples(10_000), 48_000), ("Intro", 0));
    dj.tick(Samples(10_000 + 2_000 * 19), 48_000);
    assert_eq!(dj.state, DjState::Intro);
    dj.tick(Samples(10_000 + 2_000 * 20 + 1), 48_000);
    assert_eq!(dj.state, DjState::Idle);
    assert_eq!(dj.state_started_at, Samples(10_000 + 40_000));
    dj.enter_confirm(Samples(100_000));
    dj.on_player_action(Samples(200_000));
    assert_eq!(dj.state, DjState::Confirm);
    assert_eq!(dj.label_frame(Samples(100_000 + 2_000 * 50), 48_000), ("Confirm", 11));
}

#[test]
fn label_frame_counts_default_when_missing() {
    assert_eq!(label_frame_count(Some(0), 0), 1);
    assert_eq!(label_frame_count(None, 1), 1);
    assert_eq!(label_frame_count(Some(7), 0), 7);
}
