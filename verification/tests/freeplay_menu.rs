use rustic_app::dj::{DjClock, DjState};
use rustic_app::freeplay_menu::{jumped_selection, toggled_variation, wrapped_selection, FreeplayAssets};
use rustic_app::holds::InputAction;
use rustic_app::menu_input::{
    main_menu_step, menu_command, menu_index_down, menu_index_up, song_select_command,
    story_menu_step, MenuCommand, MenuStep,
};
use rustic_app::songs::{PreviewSong, VARIATION_BF, VARIATION_PICO};
use rustic_app::timing::Samples;

fn songs() -> Vec<PreviewSong> {
    vec![PreviewSong::tutorial(), PreviewSong::bopeebo(), PreviewSong::senpai()]
}

fn dj() -> DjClock {
    DjClock::new(10, 20, 30, 40, 0)
}

#[test]
fn capsule_list_puts_random_first() {
    let assets = FreeplayAssets::new(&songs(), None);
    assert_eq!(assets.item_count(), 4);
    assert!(assets.is_random_at(0));
    assert!(!assets.is_random_at(1));
    assert!(!assets.is_random_at(4));
    assert_eq!(assets.song_at(0), None);
    assert_eq!(assets.song_at(2), Some(PreviewSong::bopeebo()));
    assert_eq!(assets.song_at(9), None);
}

#[test]
fn index_of_finds_songs_behind_random_capsule() {
    let assets = FreeplayAssets::new(&songs(), None);
    assert_eq!(assets.index_of(PreviewSong::tutorial()), Some(1));
    assert_eq!(assets.index_of(PreviewSong::senpai()), Some(3));
    assert_eq!(assets.index_of(PreviewSong::thorns()), None);
}

#[test]
fn random_pick_skips_random_capsule() {
    let assets = FreeplayAssets::new(&songs(), None);
    assert_eq!(assets.choose_random_song(0), Some((1, PreviewSong::tutorial())));
    assert_eq!(assets.choose_random_song(4), Some((2, PreviewSong::bopeebo())));
    assert_eq!(assets.choose_random_song(5), Some((3, PreviewSong::senpai())));
    let empty = FreeplayAssets::new(&Vec::new(), None);
    assert_eq!(empty.choose_random_song(7), None);
}

#[test]
fn entering_freeplay_replays_dj_intro_and_starts_slide() {
    let mut assets = FreeplayAssets::new(&songs(), Some(dj()));
    assert_eq!(assets.enter_started_at, None);
    assets.reset_dj_intro(Samples(500));
    assert_eq!(assets.enter_started_at, Some(Samples(500)));
    assert_eq!(assets.dj.unwrap().state, DjState::Intro);
    assets.dj_enter_confirm(Samples(900));
    assert_eq!(assets.dj.unwrap().state, DjState::Confirm);
    assert_eq!(assets.dj.unwrap().state_started_at, Samples(900));

    let mut without_dj = FreeplayAssets::new(&songs(), None);
    without_dj.reset_dj_intro(Samples(5));
    without_dj.dj_on_player_action(Samples(6));
    assert!(without_dj.dj.is_none());
    assert_eq!(without_dj.enter_started_at, Some(Samples(5)));
}

#[test]
fn player_action_returns_idling_dj_to_idle() {
    let mut assets = FreeplayAssets::new(&songs(), Some(dj()));
    assets.dj_on_player_action(Samples(1_000));
    assert_eq!(assets.dj.unwrap().idle_started_at, Samples(1_000));
    assets.tick(Samples(1_001), 48_000);
    assert_eq!(assets.dj.unwrap().state, DjState::Idle);
}

#[test]
fn menu_cursor_wraps_both_ways() {
    assert_eq!(menu_index_up(0, 5), 4);
    assert_eq!(menu_index_up(3, 5), 2);
    assert_eq!(menu_index_down(4, 5), 0);
    assert_eq!(menu_index_down(1, 5), 2);
    assert_eq!(menu_index_up(0, 1), 0);
    assert_eq!(menu_index_down(menu_index_up(0, 7), 7), 0);
}

#[test]
fn freeplay_selection_wraps_with_euclidean_remainder() {
    assert_eq!(wrapped_selection(0, -1, 4), 3);
    assert_eq!(wrapped_selection(3, 1, 4), 0);
    assert_eq!(wrapped_selection(2, -6, 4), 0);
    assert_eq!(wrapped_selection(1, -4, 4), 1);
    assert_eq!(wrapped_selection(1, 9, 4), 2);
    assert_eq!(wrapped_selection(wrapped_selection(1, -7, 4), 7, 4), 1);
}

#[test]
fn jump_clamps_to_last_capsule() {
    assert_eq!(jumped_selection(0, 4), Some(0));
    assert_eq!(jumped_selection(usize::MAX, 4), Some(3));
    assert_eq!(jumped_selection(2, 0), None);
}

#[test]
fn character_toggle_swaps_boyfriend_and_pico() {
    assert_eq!(toggled_variation(VARIATION_BF), VARIATION_PICO);
    assert_eq!(toggled_variation(VARIATION_PICO), VARIATION_BF);
    assert_eq!(toggled_variation("erect"), VARIATION_BF);
    assert_eq!(toggled_variation(toggled_variation(VARIATION_BF)), VARIATION_BF);
}

#[test]
fn menu_commands_merge_lane_and_ui_keys() {
    assert_eq!(menu_command(InputAction::LaneUp), MenuCommand::Up);
    assert_eq!(menu_command(InputAction::UiUp), MenuCommand::Up);
    assert_eq!(menu_command(InputAction::LaneRight), MenuCommand::Right);
    assert_eq!(menu_command(InputAction::UiSelect), MenuCommand::ToggleCharacter);
    assert_eq!(menu_command(InputAction::UiJumpBottom), MenuCommand::JumpBottom);
    assert_eq!(menu_command(InputAction::Pause), MenuCommand::Other);
}

#[test]
fn main_menu_moves_confirms_and_ignores_other_keys() {
    assert_eq!(main_menu_step(0, 5, false, true, InputAction::UiUp), MenuStep::Select(4));
    assert_eq!(main_menu_step(4, 5, false, true, InputAction::LaneDown), MenuStep::Select(0));
    assert_eq!(main_menu_step(2, 5, false, true, InputAction::Confirm), MenuStep::Confirm);
    assert_eq!(main_menu_step(2, 5, false, true, InputAction::Back), MenuStep::Back);
    assert_eq!(main_menu_step(2, 5, false, true, InputAction::UiLeft), MenuStep::Ignore);
    assert_eq!(main_menu_step(2, 5, false, false, InputAction::UiUp), MenuStep::Ignore);
    assert_eq!(main_menu_step(2, 5, true, true, InputAction::Confirm), MenuStep::Ignore);
    assert_eq!(main_menu_step(0, 0, false, true, InputAction::UiDown), MenuStep::Select(0));
}

#[test]
fn story_menu_steps_difficulty_with_left_and_right() {
    assert_eq!(story_menu_step(1, 3, false, true, InputAction::UiLeft), MenuStep::Difficulty(false));
    assert_eq!(story_menu_step(1, 3, false, true, InputAction::LaneRight), MenuStep::Difficulty(true));
    assert_eq!(story_menu_step(1, 3, false, true, InputAction::UiUp), MenuStep::Select(0));
    assert_eq!(story_menu_step(1, 3, true, true, InputAction::UiLeft), MenuStep::Ignore);
}

#[test]
fn song_select_ignores_keys_while_confirming() {
    assert_eq!(song_select_command(false, true, InputAction::UiJumpTop), Some(MenuCommand::JumpTop));
    assert_eq!(song_select_command(true, true, InputAction::Back), None);
    assert_eq!(song_select_command(false, false, InputAction::Back), None);
}
