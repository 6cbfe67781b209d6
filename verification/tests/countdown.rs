use rustic_app::audio_clock::{AudioClockDecision, AudioClockFallback};
use rustic_app::countdown::{
    countdown_image_at, countdown_sound_name, countdown_start_cursor, countdown_step,
    CountdownAudio, CountdownImage, CountdownSounds, CountdownStep,
};
use rustic_app::timing::Samples;
use std::time::Duration;

// One beat at 48 kHz and 100 BPM lasts 28 800 samples.
const CROCHET: i64 = 28_800;

#[test]
fn countdown_sound_windows_follow_og_steps() {
    assert_eq!(countdown_step(Samples(-144_000), CROCHET), None);
    assert_eq!(
        countdown_step(Samples(-115_200), CROCHET),
        Some(CountdownStep::Three)
    );
    assert_eq!(
        countdown_step(Samples(-86_400), CROCHET),
        Some(CountdownStep::Two)
    );
    assert_eq!(
        countdown_step(Samples(-57_600), CROCHET),
        Some(CountdownStep::One)
    );
    assert_eq!(
        countdown_step(Samples(-28_800), CROCHET),
        Some(CountdownStep::Go)
    );
    assert_eq!(countdown_step(Samples(0), CROCHET), None);
}

#[test]
fn countdown_audio_debounces_each_step_window() {
    let mut audio = CountdownAudio::silent();

    assert_eq!(
        audio.next_step(Samples(-115_200), CROCHET),
        Some(CountdownStep::Three)
    );
    assert_eq!(audio.next_step(Samples(-100_000), CROCHET), None);
    assert_eq!(
        audio.next_step(Samples(-86_400), CROCHET),
        Some(CountdownStep::Two)
    );
}

#[test]
fn countdown_reset_replays_and_sounds_are_chosen() {
    let sounds = CountdownSounds {
        three: vec![3],
        two: vec![2],
        one: vec![1],
        go: vec![0],
    };
    let mut audio = CountdownAudio::load_default_or_warn(true, Some(sounds));
    assert_eq!(audio.tick(Samples(-57_600), CROCHET), Some(CountdownStep::One));
    assert_eq!(audio.tick(Samples(-57_000), CROCHET), None);
    audio.reset();
    assert_eq!(audio.tick(Samples(-57_000), CROCHET), Some(CountdownStep::One));
    assert_eq!(audio.sounds.as_ref().unwrap().source(CountdownStep::Go), &vec![0]);
    assert_eq!(countdown_sound_name(CountdownStep::Three), "introTHREE");

    let disabled = CountdownAudio::load_default_or_warn(false, None);
    assert!(disabled.sounds.is_none());
    let mut silent = CountdownAudio::silent();
    assert_eq!(silent.tick(Samples(-57_600), CROCHET), None);
}

#[test]
fn countdown_windows_match_og_ready_set_go_beats() {
    assert_eq!(countdown_image_at(Samples(-144_000), CROCHET), None);
    assert_eq!(
        countdown_image_at(Samples(-86_400), CROCHET),
        Some((CountdownImage::Ready, -86_400))
    );
    assert_eq!(
        countdown_image_at(Samples(-57_600), CROCHET),
        Some((CountdownImage::SetImage, -57_600))
    );
    assert_eq!(
        countdown_image_at(Samples(-28_800), CROCHET),
        Some((CountdownImage::Go, -28_800))
    );
    assert_eq!(countdown_image_at(Samples(0), CROCHET), None);
}

#[test]
fn countdown_starts_at_minus_five_crochets() {
    assert_eq!(countdown_start_cursor(CROCHET), Samples(-144_000));
}

#[test]
fn advancing_audio_cursor_keeps_audio_clock() {
    let now = Duration::from_secs(5);
    let mut clock = AudioClockFallback::new(now);

    assert_eq!(
        clock.observe(Samples(1), now + Duration::from_millis(800)),
        AudioClockDecision::Audio(Samples(1))
    );
}

#[test]
fn stalled_audio_cursor_switches_to_wall_clock_once() {
    let now = Duration::from_secs(5);
    let mut clock = AudioClockFallback::new(now);

    assert_eq!(
        clock.observe(Samples(0), now + Duration::from_millis(749)),
        AudioClockDecision::Audio(Samples(0))
    );
    assert_eq!(
        clock.observe(Samples(0), now + Duration::from_millis(750)),
        AudioClockDecision::SwitchToWall(Samples(0))
    );
    assert_eq!(
        clock.observe(Samples(10), now + Duration::from_millis(760)),
        AudioClockDecision::Wall
    );
}

#[test]
fn audio_clock_reset_returns_to_audio() {
    let mut clock = AudioClockFallback::new(Duration::ZERO);
    clock.observe(Samples(0), Duration::from_secs(1));
    assert!(clock.fallback);
    clock.reset(Duration::from_secs(2));
    assert_eq!(
        clock.observe(Samples(0), Duration::from_secs(2)),
        AudioClockDecision::Audio(Samples(0))
    );
}

#[test]
fn wall_clock_stays_after_a_single_switch() {
    let mut clock = AudioClockFallback::new(Duration::ZERO);
    let mut switches = 0;
    for (cursor, ms) in [(0i64, 100u64), (0, 900), (5, 950), (10, 2_000), (0, 3_000)] {
        match clock.observe(Samples(cursor), Duration::from_millis(ms)) {
            AudioClockDecision::SwitchToWall(_) => switches += 1,
            AudioClockDecision::Wall => assert_eq!(switches, 1),
            AudioClockDecision::Audio(_) => assert_eq!(switches, 0),
        }
    }
    assert_eq!(switches, 1);
    assert!(clock.fallback);
}
