use rustic_app::freeplay_ui::{preview_delay_elapsed, PreviewQueue};
use rustic_app::songs::{
    conversation_id_for_selection, preview_paths, should_play_darnell_intro_cutscene,
    PreviewDifficulty, PreviewSelection, PreviewSong, PreviewTarget, VARIATION_PICO,
};
use std::time::Duration;

#[test]
fn erect_preview_prefers_variant_inst_then_base_then_legacy() {
    let paths = preview_paths(PreviewTarget::Song(PreviewSelection::new(
        PreviewSong::bopeebo(),
        PreviewDifficulty::Erect,
    )));

    assert_eq!(
        paths,
        vec![
            "songs/bopeebo/Inst-erect.ogg",
            "songs/bopeebo/Inst.ogg",
            "music/Bopeebo_Inst.ogg"
        ]
    );
}

#[test]
fn pico_preview_prefers_character_variant_inst() {
    let paths = preview_paths(PreviewTarget::Song(
        PreviewSelection::new(PreviewSong::bopeebo(), PreviewDifficulty::Hard)
            .with_variation(Some(VARIATION_PICO)),
    ));

    assert_eq!(
        paths,
        vec![
            "songs/bopeebo/Inst-pico.ogg",
            "songs/bopeebo/Inst.ogg",
            "music/Bopeebo_Inst.ogg"
        ]
    );
}

#[test]
fn random_preview_uses_og_freeplay_random_track() {
    assert_eq!(
        preview_paths(PreviewTarget::Random),
        vec!["music/freeplayRandom/freeplayRandom.ogg"]
    );
}

#[test]
fn preview_waits_before_loading_like_og_timer() {
    assert!(!preview_delay_elapsed(Duration::from_millis(249)));
    assert!(preview_delay_elapsed(Duration::from_millis(250)));
}

#[test]
fn normal_preview_skips_variant_inst() {
    let paths = preview_paths(PreviewTarget::Song(PreviewSelection::new(
        PreviewSong::bopeebo(),
        PreviewDifficulty::Normal,
    )));
    assert_eq!(paths, vec!["songs/bopeebo/Inst.ogg", "music/Bopeebo_Inst.ogg"]);
}

#[test]
fn nightmare_selection_uses_erect_suffix() {
    let sel = PreviewSelection::new(PreviewSong::bopeebo(), PreviewDifficulty::Nightmare);
    assert_eq!(sel.effective_variation_suffix(), Some("erect"));
    let pico = sel.with_variation(Some(VARIATION_PICO));
    assert_eq!(pico.effective_variation_suffix(), Some("pico"));
    assert_eq!(
        PreviewSelection::new(PreviewSong::bopeebo(), PreviewDifficulty::Easy)
            .effective_variation_suffix(),
        None
    );
}

#[test]
fn week6_songs_map_to_expected_conversations() {
    assert_eq!(
        conversation_id_for_selection(PreviewSelection::new(
            PreviewSong::senpai(),
            PreviewDifficulty::Normal
        )),
        Some("senpai")
    );
    assert_eq!(
        conversation_id_for_selection(
            PreviewSelection::new(PreviewSong::roses(), PreviewDifficulty::Normal)
                .with_variation(Some(VARIATION_PICO))
        ),
        Some("roses-pico")
    );
    assert_eq!(
        conversation_id_for_selection(PreviewSelection::new(
            PreviewSong::thorns(),
            PreviewDifficulty::Normal
        )),
        Some("thorns")
    );
}

#[test]
fn non_week6_songs_have_no_conversation() {
    assert_eq!(
        conversation_id_for_selection(PreviewSelection::new(
            PreviewSong::bopeebo(),
            PreviewDifficulty::Normal
        )),
        None
    );
    assert_eq!(
        conversation_id_for_selection(
            PreviewSelection::new(PreviewSong::senpai(), PreviewDifficulty::Hard)
                .with_variation(Some(VARIATION_PICO))
        ),
        Some("senpai-pico")
    );
}

#[test]
fn only_story_darnell_uses_intro_cutscene() {
    let darnell = PreviewSelection::new(PreviewSong::darnell(), PreviewDifficulty::Hard);
    let lit_up = PreviewSelection::new(PreviewSong::lit_up(), PreviewDifficulty::Hard);

    assert!(should_play_darnell_intro_cutscene(darnell, true));
    assert!(!should_play_darnell_intro_cutscene(darnell, false));
    assert!(!should_play_darnell_intro_cutscene(lit_up, true));
}

#[test]
fn preview_queue_ignores_repeats_and_waits_for_delay() {
    let mut queue = PreviewQueue::new();
    let target = PreviewTarget::Song(PreviewSelection::new(
        PreviewSong::bopeebo(),
        PreviewDifficulty::Hard,
    ));
    assert!(queue.queue(target, Duration::from_millis(1_000)));
    assert!(!queue.queue(target, Duration::from_millis(1_100)));
    assert_eq!(queue.take_due(Duration::from_millis(1_249)), None);
    assert_eq!(queue.take_due(Duration::from_millis(1_250)), Some(target));
    assert_eq!(queue.take_due(Duration::from_millis(1_300)), None);
    queue.started(target);
    assert!(!queue.queue(target, Duration::from_millis(2_000)));
    assert!(queue.queue(PreviewTarget::Random, Duration::from_millis(2_000)));
    assert!(queue.target.is_none());
}
