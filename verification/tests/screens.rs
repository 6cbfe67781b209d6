use rustic_app::atlas::{Atlas, RawSprite};
use rustic_app::animation::AtlasError;
use rustic_app::camera::{focus_anchor, is_classic_ease, CameraEase, FocusAnchor};
use rustic_app::covers::{CoverFrameCounts, HoldCoverPhase, HoldCovers};
use rustic_app::credits::{credit_lines, fallback_credits, CreditEntry, CreditsScrollState};
use rustic_app::holds::Lane;
use rustic_app::timing::Samples;

fn raw(name: &str, size_positive: bool, rotated: bool) -> RawSprite {
    RawSprite {
        name: name.to_string(),
        size_positive,
        rotated,
    }
}

#[test]
fn parses_spritemap_frames_and_uvs() {
    let atlas = Atlas::parse_spritemap(true, &vec![raw("0", true, false), raw("head", true, true)]).unwrap();
    assert_eq!(atlas.sprites.len(), 1);
    assert_eq!(atlas.sprites[0].frames.len(), 2);
    let (s, f) = atlas.frame("0").unwrap();
    assert!(!atlas.sprites[s].frames[f].rotated);
    let (s, f) = atlas.frame("head").unwrap();
    assert!(atlas.sprites[s].frames[f].rotated);
    assert_eq!(atlas.sprites[s].frames[f].index, 1);
    assert_eq!(atlas.frame("missing"), None);
}

#[test]
fn rejects_zero_texture_size() {
    assert!(matches!(
        Atlas::parse_spritemap(false, &vec![]),
        Err(AtlasError::ZeroTextureSize)
    ));
}

#[test]
fn rejects_empty_frame_names() {
    assert!(matches!(
        Atlas::parse_spritemap(true, &vec![raw("", true, false)]),
        Err(AtlasError::EmptyFrameName)
    ));
    assert!(matches!(
        Atlas::parse_spritemap(true, &vec![raw("  ", true, false)]),
        Err(AtlasError::EmptyFrameName)
    ));
}

#[test]
fn rejects_non_positive_frame_sizes() {
    assert_eq!(
        Atlas::parse_spritemap(true, &vec![raw("a", true, false), raw("b", false, false)]).err(),
        Some(AtlasError::NonPositiveFrameSize("b".to_string()))
    );
}

#[test]
fn camera_ease_names() {
    assert_eq!(CameraEase::from_name("INSTANT"), CameraEase::Instant);
    assert_eq!(CameraEase::from_name("quad"), CameraEase::QuadIn);
    assert_eq!(CameraEase::from_name("expo"), CameraEase::ExpoIn);
    assert_eq!(CameraEase::from_name("smoothStepIn"), CameraEase::SmoothStep);
    assert_eq!(CameraEase::from_name("elasticInOut"), CameraEase::ElasticInOut);
    assert_eq!(CameraEase::from_name("instant"), CameraEase::Linear);
    assert!(is_classic_ease("classic"));
    assert!(!is_classic_ease("linear"));
}

#[test]
fn focus_camera_ignores_missing_girlfriend() {
    assert_eq!(focus_anchor(Some(2), false), None);
    assert_eq!(focus_anchor(Some(2), true), Some(FocusAnchor::Girlfriend));
}

#[test]
fn initial_camera_focus_starts_on_opponent() {
    assert_eq!(focus_anchor(Some(1), true), Some(FocusAnchor::Opponent));
    assert_eq!(focus_anchor(None, true), Some(FocusAnchor::Player));
    assert_eq!(focus_anchor(Some(-1), true), Some(FocusAnchor::Origin));
    assert_eq!(focus_anchor(Some(3), true), None);
}

fn counts() -> [CoverFrameCounts; 4] {
    let c = CoverFrameCounts {
        start: 4,
        hold: 6,
        end: 5,
    };
    [c, c, c, c]
}

#[test]
fn covers_transition_from_start_to_hold_to_end() {
    let mut covers = HoldCovers::new();
    covers.start(Lane::Down, Samples(0), Samples(48_000));

    let start = covers.frames(Samples(0), 48_000, counts());
    assert_eq!(start, vec![(Lane::Down, HoldCoverPhase::Start, 0)]);

    let hold = covers.frames(Samples(8_100), 48_000, counts());
    assert_eq!(hold, vec![(Lane::Down, HoldCoverPhase::Hold, 0)]);

    covers.end(Lane::Down, Samples(9_000));
    let end = covers.frames(Samples(9_000), 48_000, counts());
    assert_eq!(end, vec![(Lane::Down, HoldCoverPhase::End, 0)]);

    let done = covers.frames(Samples(19_000), 48_000, counts());
    assert!(done.is_empty());
    assert!(covers.active[1].is_none());
}

#[test]
fn covers_end_at_hold_end_and_skip_past_holds() {
    let mut covers = HoldCovers::new();
    covers.start(Lane::Left, Samples(100), Samples(100));
    assert!(covers.active[0].is_none());
    covers.start(Lane::Up, Samples(0), Samples(20_000));
    let frames = covers.frames(Samples(22_000), 48_000, counts());
    assert_eq!(frames, vec![(Lane::Up, HoldCoverPhase::End, 1)]);
}

#[test]
fn credits_start_below_screen_and_scroll_up() {
    let lines = credit_lines(&fallback_credits());
    assert_eq!(lines[0].text, "Friday Night Funkin'");
    assert_eq!(lines[0].offset_y, 0);
    assert!(lines[0].header);
    assert_eq!(lines[1].offset_y, 64);
    assert_eq!(lines[2].offset_y, 88);
    assert_eq!(lines[3].offset_y, 172);
    assert_eq!(fallback_credits().len(), 7);
}

#[test]
fn credits_layout_without_header() {
    let entries = vec![CreditEntry {
        header: None,
        body: vec!["a".to_string(), "b".to_string()],
    }];
    let lines = credit_lines(&entries);
    assert_eq!(lines.len(), 2);
    assert_eq!((lines[0].offset_y, lines[1].offset_y), (0, 24));
    assert!(!lines[0].header);
}

#[test]
fn credits_scroll_state_matches_held_input_speeds() {
    let mut scroll = CreditsScrollState::new();
    assert_eq!(scroll.advance(Samples(0)), (0, 100));
    assert_eq!(scroll.advance(Samples(48_000)), (48_000, 100));
    scroll.set_fast_held(true);
    assert_eq!(scroll.advance(Samples(96_000)), (48_000, 400));
    scroll.set_fast_held(false);
    scroll.set_pause_held(true);
    assert_eq!(scroll.advance(Samples(144_000)), (48_000, 0));
    scroll.set_pause_held(false);
    assert_eq!(scroll.advance(Samples(192_000)), (48_000, 100));
}

#[test]
fn credits_fast_scroll_takes_priority_over_pause_scroll() {
    let mut scroll = CreditsScrollState::new();
    scroll.advance(Samples(0));
    scroll.set_fast_held(true);
    scroll.set_pause_held(true);
    assert_eq!(scroll.advance(Samples(48_000)), (48_000, 400));
    scroll.reset();
    assert_eq!(scroll.advance(Samples(1)), (0, 100));
}
