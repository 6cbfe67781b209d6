use rustic_app::freeplay_meta::{
    clamp_selection_difficulty, cycle_selection_difficulty, difficulties_for_metadata,
    difficulties_for_selection,
    ordered_unique_difficulties, FreeplayDifficultyRatings, FreeplayLoadedSongMetadata,
    FreeplaySongMetadata,
};
use rustic_app::freeplay_ui::{difficulty_frame, frame_for_cursor, FreeplayBackingText, STARS_ZERO_FRAME};
use rustic_app::hex::{parse_argb_color, parse_rgb_color, Rgba8};
use rustic_app::songs::{
    PreviewDifficulty, PreviewSelection, PreviewSong, VARIATION_BF, VARIATION_PICO,
};
use rustic_app::timing::Samples;

use PreviewDifficulty::{Easy, Erect, Hard, Nightmare, Normal};

fn ratings(pairs: &[(&str, u8)]) -> FreeplayDifficultyRatings {
    let table: Vec<(String, u8)> = pairs.iter().map(|(k, v)| (k.to_string(), *v)).collect();
    FreeplayDifficultyRatings::from_map(&table)
}

fn bopeebo_metadata() -> FreeplaySongMetadata {
    FreeplaySongMetadata::new(
        "volume1".to_string(),
        vec![
            ("erect".to_string(), "volume3".to_string()),
            ("pico".to_string(), "volume4".to_string()),
        ],
        ratings(&[("easy", 1), ("normal", 2), ("hard", 3)]),
        vec![
            ("erect".to_string(), ratings(&[("erect", 6), ("nightmare", 8)])),
            ("pico".to_string(), ratings(&[("easy", 2), ("normal", 3), ("hard", 5)])),
        ],
        Some("dad".to_string()),
        vec![("pico".to_string(), "dad-pico".to_string())],
    )
}

#[test]
fn song_metadata_difficulties_follow_active_character_variation() {
    let bopeebo = bopeebo_metadata();

    assert_eq!(
        bopeebo.difficulties_for_variation(None),
        vec![Easy, Normal, Hard, Erect, Nightmare]
    );
    assert_eq!(
        bopeebo.difficulties_for_variation(Some(VARIATION_PICO)),
        vec![Easy, Normal, Hard]
    );
    assert_eq!(
        difficulties_for_metadata(&bopeebo, Some(VARIATION_BF)),
        vec![Easy, Normal, Hard]
    );
}

#[test]
fn song_album_map_uses_base_and_variant_metadata() {
    let bopeebo = bopeebo_metadata();
    assert_eq!(
        bopeebo.album_id_for_selection(PreviewSelection::new(PreviewSong::bopeebo(), Normal)),
        "volume1"
    );
    assert_eq!(
        bopeebo.album_id_for_selection(PreviewSelection::new(PreviewSong::bopeebo(), Erect)),
        "volume3"
    );
    assert_eq!(
        bopeebo.album_id_for_selection(
            PreviewSelection::new(PreviewSong::bopeebo(), Normal).with_variation(Some(VARIATION_PICO))
        ),
        "volume4"
    );
    assert_eq!(bopeebo.album_ids(), vec!["volume1", "volume3", "volume4"]);
}

#[test]
fn song_metadata_map_uses_variant_difficulty_ratings() {
    let bopeebo = bopeebo_metadata();
    let pico_normal = PreviewSelection::new(PreviewSong::bopeebo(), Normal)
        .with_variation(Some(VARIATION_PICO));
    assert_eq!(bopeebo.rating_for_selection(pico_normal), Some(3));
    assert_eq!(
        bopeebo.rating_for_selection(PreviewSelection::new(PreviewSong::bopeebo(), Normal)),
        Some(2)
    );
    // the Erect variant has no Normal rating, so the base one is used
    assert_eq!(
        bopeebo.rating_for_selection(
            PreviewSelection::new(PreviewSong::bopeebo(), Normal).with_variation(Some("erect"))
        ),
        Some(2)
    );
    assert_eq!(
        bopeebo.rating_for_selection(PreviewSelection::new(PreviewSong::bopeebo(), Nightmare)),
        Some(8)
    );
}

#[test]
fn song_metadata_map_exposes_freeplay_icon_character_ids() {
    let bopeebo = bopeebo_metadata();
    assert_eq!(
        bopeebo.icon_id_for_selection(PreviewSelection::new(PreviewSong::bopeebo(), Normal)),
        Some("dad")
    );
    assert_eq!(
        bopeebo.icon_id_for_selection(
            PreviewSelection::new(PreviewSong::bopeebo(), Hard).with_variation(Some(VARIATION_PICO))
        ),
        Some("dad-pico")
    );
}

#[test]
fn ratings_read_known_names_only() {
    let r = ratings(&[("hard", 4), ("bogus", 9), ("hard", 7)]);
    assert_eq!(r.get(Hard), Some(4));
    assert_eq!(r.get(Easy), None);
    assert_eq!(r.difficulties(), vec![Hard]);
}

#[test]
fn ordered_unique_difficulties_sorts_dedups_and_defaults() {
    assert_eq!(
        ordered_unique_difficulties(vec![Nightmare, Easy, Nightmare, Hard]),
        vec![Easy, Hard, Nightmare]
    );
    assert_eq!(ordered_unique_difficulties(vec![]), vec![Normal]);
}

#[test]
fn cycling_difficulty_wraps_both_ways() {
    let list = vec![Easy, Normal, Hard];
    let sel = PreviewSelection::new(PreviewSong::bopeebo(), Hard);
    assert_eq!(cycle_selection_difficulty(&list, sel, 1).difficulty, Easy);
    assert_eq!(cycle_selection_difficulty(&list, sel, -1).difficulty, Normal);
    assert_eq!(cycle_selection_difficulty(&list, sel, -7).difficulty, Normal);
    let missing = PreviewSelection::new(PreviewSong::bopeebo(), Erect);
    assert_eq!(cycle_selection_difficulty(&list, missing, 1).difficulty, Hard);
    let no_normal = vec![Erect, Nightmare];
    let sel = PreviewSelection::new(PreviewSong::bopeebo(), Easy);
    assert_eq!(cycle_selection_difficulty(&no_normal, sel, 1).difficulty, Nightmare);
}

#[test]
fn clamping_difficulty_prefers_normal() {
    let sel = PreviewSelection::new(PreviewSong::bopeebo(), Erect);
    assert_eq!(clamp_selection_difficulty(&vec![Easy, Normal], sel).difficulty, Normal);
    assert_eq!(clamp_selection_difficulty(&vec![Hard, Easy], sel).difficulty, Hard);
    assert_eq!(clamp_selection_difficulty(&vec![Erect], sel).difficulty, Erect);
}

#[test]
fn fallback_metadata_has_album_only() {
    let m = FreeplayLoadedSongMetadata::fallback("volume1");
    assert_eq!(m.album, "volume1");
    assert_eq!(m.ratings.difficulties(), Vec::<PreviewDifficulty>::new());
    assert!(m.opponent.is_none());
}

#[test]
fn difficulty_rating_selects_hundred_frame_blocks() {
    assert_eq!(difficulty_frame(0, Samples(0), 48_000), STARS_ZERO_FRAME);
    assert_eq!(difficulty_frame(1, Samples(0), 48_000), 0);
    assert_eq!(difficulty_frame(8, Samples(0), 48_000), 700);
    assert_eq!(difficulty_frame(99, Samples(0), 48_000), 1400);
}

#[test]
fn difficulty_rating_loops_inside_selected_block() {
    assert_eq!(difficulty_frame(2, Samples(0), 48_000), 100);
    assert_eq!(difficulty_frame(2, Samples(2_000), 48_000), 101);
    assert_eq!(difficulty_frame(2, Samples(2_000 * 100), 48_000), 100);
}

#[test]
fn boyfriend_backing_text() {
    let text = FreeplayBackingText::boyfriend();
    assert_eq!(
        text.texts(),
        ("BOYFRIEND", "HOT BLOODED IN MORE WAYS THAN ONE", "PROTECT YO NUTS")
    );
}

#[test]
fn parses_aarrggbb_backdrop_color() {
    let color = parse_argb_color("#BFB3DFD8").unwrap();
    assert_eq!(color.r, 0xB3);
    assert_eq!(color.a, 0xBF);
    assert_eq!(
        parse_argb_color(" #102030 "),
        Some(Rgba8 { r: 0x10, g: 0x20, b: 0x30, a: 255 })
    );
    assert_eq!(parse_argb_color("102030"), None);
    assert_eq!(parse_argb_color("#12345"), None);
    assert_eq!(parse_argb_color("#GG0000"), None);
}

#[test]
fn capsule_colors_parse_six_hex_digits() {
    assert_eq!(parse_rgb_color("#CC6600"), Some(Rgba8 { r: 0xCC, g: 0x66, b: 0, a: 255 }));
    assert_eq!(parse_rgb_color("##cc9900"), Some(Rgba8 { r: 0xCC, g: 0x99, b: 0, a: 255 }));
    assert_eq!(parse_rgb_color("+F+F+F"), Some(Rgba8 { r: 15, g: 15, b: 15, a: 255 }));
    assert_eq!(parse_rgb_color("#CC66"), None);
    assert_eq!(parse_rgb_color("#CC66XY"), None);
}

#[test]
fn frame_for_cursor_handles_empty() {
    assert!(frame_for_cursor(0, Samples(0), 48_000, 24, true).is_none());
}

#[test]
fn frame_for_cursor_loops_or_holds_last_frame() {
    // 24 fps at 48 kHz: one frame every 2_000 samples.
    assert_eq!(frame_for_cursor(3, Samples(-50), 48_000, 24, false), Some(0));
    assert_eq!(frame_for_cursor(3, Samples(1_999), 48_000, 24, true), Some(0));
    assert_eq!(frame_for_cursor(3, Samples(2_000), 48_000, 24, true), Some(1));
    assert_eq!(frame_for_cursor(3, Samples(6_000), 48_000, 24, true), Some(0));
    assert_eq!(frame_for_cursor(3, Samples(6_000), 48_000, 24, false), Some(2));
    assert_eq!(frame_for_cursor(3, Samples(60_000), 0, 24, false), Some(2));
}

#[test]
fn cycling_difficulty_back_and_round_returns_to_start() {
    let list = vec![Easy, Normal, Hard, Erect];
    let sel = PreviewSelection::new(PreviewSong::bopeebo(), Normal);
    for delta in [-9isize, -1, 0, 1, 2, 5] {
        let moved = cycle_selection_difficulty(&list, sel, delta);
        assert!(list.contains(&moved.difficulty));
        assert_eq!(moved.song, sel.song);
        assert_eq!(cycle_selection_difficulty(&list, moved, -delta), sel);
    }
    let mut round = sel;
    for _ in 0..list.len() {
        round = cycle_selection_difficulty(&list, round, 1);
    }
    assert_eq!(round, sel);
}

#[test]
fn difficulties_for_selection_uses_metadata_or_song_list() {
    let albums = vec![("bopeebo".to_string(), bopeebo_metadata())];
    let fallback = vec![Easy, Normal];
    let bopeebo = PreviewSelection::new(PreviewSong::bopeebo(), Normal);
    assert_eq!(
        difficulties_for_selection(&albums, bopeebo, &fallback),
        vec![Easy, Normal, Hard, Erect, Nightmare]
    );
    let pico = bopeebo.with_variation(Some(VARIATION_PICO));
    assert_eq!(difficulties_for_selection(&albums, pico, &fallback), vec![Easy, Normal, Hard]);
    let tutorial = PreviewSelection::new(PreviewSong::tutorial(), Normal);
    assert_eq!(difficulties_for_selection(&albums, tutorial, &fallback), fallback);
}

#[test]
fn cycling_difficulty_accepts_deltas_up_to_the_overflow_point() {
    let list = vec![Easy, Normal, Hard];
    let sel = PreviewSelection::new(PreviewSong::bopeebo(), Easy);
    assert_eq!(cycle_selection_difficulty(&list, sel, isize::MAX).difficulty, Normal);
    let last = PreviewSelection::new(PreviewSong::bopeebo(), Hard);
    assert_eq!(cycle_selection_difficulty(&list, last, isize::MIN).difficulty, Easy);
}
