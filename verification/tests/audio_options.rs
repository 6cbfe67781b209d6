use rustic_app::audio_options::{audio_disabled_value, audio_open_timeout, AUDIO_OPEN_TIMEOUT_MS};
use std::time::Duration;

#[test]
fn audio_open_timeout_uses_env_milliseconds() {
    assert_eq!(audio_open_timeout(Some("125")), Duration::from_millis(125));
}

#[test]
fn audio_open_timeout_rejects_zero_and_invalid_values() {
    assert_eq!(
        audio_open_timeout(Some("0")),
        Duration::from_millis(AUDIO_OPEN_TIMEOUT_MS)
    );
    assert_eq!(
        audio_open_timeout(Some("nope")),
        Duration::from_millis(AUDIO_OPEN_TIMEOUT_MS)
    );
}

#[test]
fn audio_disable_env_accepts_off_values() {
    assert!(audio_disabled_value(Some("off")));
    assert!(audio_disabled_value(Some("0")));
    assert!(audio_disabled_value(Some("false")));
    assert!(audio_disabled_value(Some("none")));
    assert!(!audio_disabled_value(Some("on")));
    assert!(!audio_disabled_value(None));
}

#[test]
fn audio_open_timeout_trims_and_defaults() {
    assert_eq!(audio_open_timeout(Some("  300 ")), Duration::from_millis(300));
    assert_eq!(audio_open_timeout(None), Duration::from_millis(750));
    assert_eq!(audio_open_timeout(Some("+40")), Duration::from_millis(40));
    assert_eq!(
        audio_open_timeout(Some("18446744073709551616")),
        Duration::from_millis(750)
    );
    assert_eq!(audio_open_timeout(Some("-5")), Duration::from_millis(750));
}

#[test]
fn audio_disable_trims_and_is_case_sensitive() {
    assert!(audio_disabled_value(Some("  off\n")));
    assert!(!audio_disabled_value(Some("OFF")));
    assert!(!audio_disabled_value(Some("")));
}
