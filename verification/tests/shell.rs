use rustic_app::holds::InputAction;
use rustic_app::shell::{
    baked_assets_root, is_freeplay_player_action, is_gameplay_pause_action, map_key,
    should_pause_on_unfocus, AppMode, AppOptions, DebugOverlayLine, Key,
};

#[test]
fn pause_on_unfocus_only_applies_to_live_gameplay() {
    assert!(should_pause_on_unfocus(true, AppMode::Play, false, false, false, false));
    assert!(!should_pause_on_unfocus(false, AppMode::Play, false, false, false, false));
    assert!(!should_pause_on_unfocus(true, AppMode::SongSelect, false, false, false, false));
    assert!(!should_pause_on_unfocus(true, AppMode::Play, true, false, false, false));
    assert!(!should_pause_on_unfocus(true, AppMode::Play, false, true, false, false));
    assert!(!should_pause_on_unfocus(true, AppMode::Play, false, false, true, false));
    assert!(!should_pause_on_unfocus(true, AppMode::Play, false, false, false, true));
}

#[test]
fn gameplay_pause_hotkeys_exclude_confirm_action() {
    assert!(is_gameplay_pause_action(InputAction::Pause));
    assert!(is_gameplay_pause_action(InputAction::Back));
    assert!(!is_gameplay_pause_action(InputAction::Confirm));
}

#[test]
fn freeplay_player_actions_reset_dj_idle_timer() {
    assert!(is_freeplay_player_action(InputAction::UiUp));
    assert!(is_freeplay_player_action(InputAction::UiSelect));
    assert!(is_freeplay_player_action(InputAction::Confirm));
    assert!(!is_freeplay_player_action(InputAction::Debug));
}

#[test]
fn function_keys_drive_preview_selection_actions() {
    assert_eq!(map_key(Key::KeyQ), Some(InputAction::UiLeft));
    assert_eq!(map_key(Key::F6), Some(InputAction::UiLeft));
    assert_eq!(map_key(Key::KeyE), Some(InputAction::UiRight));
    assert_eq!(map_key(Key::F7), Some(InputAction::UiRight));
}

#[test]
fn p_key_drives_pause_action() {
    assert_eq!(map_key(Key::KeyP), Some(InputAction::Pause));
}

#[test]
fn tab_drives_ui_select_action() {
    assert_eq!(map_key(Key::Tab), Some(InputAction::UiSelect));
}

#[test]
fn shift_drives_menu_pause_scroll_action() {
    assert_eq!(map_key(Key::ShiftLeft), Some(InputAction::UiPauseScroll));
    assert_eq!(map_key(Key::ShiftRight), Some(InputAction::UiPauseScroll));
}

#[test]
fn desktop_default_action_keys_match_supported_funkin_binds() {
    assert_eq!(map_key(Key::KeyZ), Some(InputAction::Confirm));
    assert_eq!(map_key(Key::KeyX), Some(InputAction::Back));
    assert_eq!(map_key(Key::Backspace), Some(InputAction::Back));
    assert_eq!(map_key(Key::KeyR), Some(InputAction::Reset));
}

#[test]
fn unbound_keys_map_to_nothing() {
    assert_eq!(map_key(Key::Other), None);
    assert_eq!(map_key(Key::ArrowDown), Some(InputAction::LaneDown));
}

#[test]
fn default_window_options() {
    let options = AppOptions::default();
    assert_eq!(options.title, "RusticV3");
    assert_eq!((options.width, options.height), (1280, 720));
}

#[test]
fn baked_assets_root_prefers_working_directory() {
    assert_eq!(baked_assets_root(true, "/ws"), "assets/baked");
    assert_eq!(baked_assets_root(false, "/ws"), "/ws/assets/baked");
    assert_eq!(baked_assets_root(false, "/ws/"), "/ws/assets/baked");
    assert_eq!(baked_assets_root(false, ""), "assets/baked");
}

#[test]
fn debug_overlay_line_keeps_text() {
    assert_eq!(DebugOverlayLine::new("fps 60.0".to_string()).text, "fps 60.0");
}
