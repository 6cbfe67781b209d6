use rustic_app::assets::{
    GameOverAudioStyle, CONFIRM_MUSIC_PATH, LOOP_MUSIC_PATH, LOSS_SOUND_PATH,
    LOSS_SOUND_PICO_NENE_PATH, START_MUSIC_PATH,
};
use rustic_app::game_over::{
    confirm_restart_delay, elapsed_samples, enters_game_over, GameOverRestart, GameOverState,
};
use rustic_app::timing::Samples;
use std::time::Duration;

#[test]
fn death_loop_starts_once_after_first_death_duration() {
    let mut state = GameOverState::new(Samples(1_000), Samples(500));
    assert_eq!(state.start_loop_if_due(Samples(1_499)), None);
    assert_eq!(
        state.start_loop_if_due(Samples(1_500)),
        Some(Samples(1_500))
    );
    assert_eq!(state.start_loop_if_due(Samples(2_000)), None);
}

#[test]
fn confirm_restart_delay_uses_og_end_music_timer() {
    assert_eq!(confirm_restart_delay(), Duration::from_millis(1_030));
}

#[test]
fn restart_is_due_after_delay() {
    let restart = GameOverRestart::new();
    assert!(!restart.is_due(Duration::from_millis(1_029)));
    assert!(restart.is_due(Duration::from_millis(1_030)));
}

#[test]
fn death_cursor_rounds_elapsed_samples() {
    assert_eq!(elapsed_samples(Duration::from_millis(500), 48_000), 24_000);
    assert_eq!(elapsed_samples(Duration::from_nanos(10_417), 48_000), 1);
    assert_eq!(elapsed_samples(Duration::from_nanos(10_416), 48_000), 0);
    assert_eq!(elapsed_samples(Duration::from_secs(2), 0), 2);
    let state = GameOverState::new(Samples(100), Samples(0));
    assert_eq!(state.cursor(Duration::from_secs(1), 48_000), Samples(48_100));
}

#[test]
fn game_over_audio_paths_match_og_assets() {
    assert_eq!(LOSS_SOUND_PATH, "sounds/gameplay/gameover/fnf_loss_sfx.ogg");
    assert_eq!(
        LOSS_SOUND_PICO_NENE_PATH,
        "sounds/gameplay/gameover/fnf_loss_sfx-pico-and-nene.ogg"
    );
    assert_eq!(
        START_MUSIC_PATH,
        "music/gameplay/gameover/gameOverStart.ogg"
    );
    assert_eq!(LOOP_MUSIC_PATH, "music/gameplay/gameover/gameOver.ogg");
    assert_eq!(
        CONFIRM_MUSIC_PATH,
        "music/gameplay/gameover/gameOverEnd.ogg"
    );
}

#[test]
fn pico_player_icon_uses_pico_and_nene_loss_sound() {
    assert_eq!(
        GameOverAudioStyle::for_player_icon_id("pico"),
        GameOverAudioStyle::PicoAndNene
    );
    assert_eq!(
        GameOverAudioStyle::for_player_icon_id("bf"),
        GameOverAudioStyle::Boyfriend
    );
    assert_eq!(
        GameOverAudioStyle::PicoAndNene.loss_sound_path(),
        LOSS_SOUND_PICO_NENE_PATH
    );
}

#[test]
fn reset_or_death_enters_game_over_outside_practice() {
    assert!(enters_game_over(true, false, false));
    assert!(enters_game_over(false, true, false));
    assert!(!enters_game_over(false, false, false));
    assert!(!enters_game_over(true, true, true));
}
