use rustic_app::assets::DarnellCutsceneAudio;
use rustic_app::darnell::{can_clip_at, frame_for_cursor, CanClip, DarnellIntroCutsceneState};
use rustic_app::dialogue::{
    flatten_dialogue, DialogueAdvance, DialogueLine, DialogueState, RawDialogueEntry,
};
use rustic_app::timing::Samples;
use std::time::Duration;

#[test]
fn cutscene_extends_song_clock_before_countdown() {
    let cutscene = DarnellIntroCutsceneState::new(Samples(-90_000), 48_000);

    assert_eq!(cutscene.song_start_cursor(), Samples(-570_000));
    assert!(cutscene.blocks_input(Samples(-90_001)));
    assert!(!cutscene.blocks_input(Samples(-90_000)));
}

#[test]
fn can_clip_tracks_scripted_kick_windows() {
    // 6.39 s, 6.4 s, 6.95 s and 7.1 s at 48 kHz
    assert_eq!(can_clip_at(306_720, 48_000), None);
    assert_eq!(
        can_clip_at(307_200, 48_000).map(|clip| clip.0),
        Some(CanClip::KickedUp)
    );
    assert_eq!(
        can_clip_at(333_600, 48_000).map(|clip| clip.0),
        Some(CanClip::KickedForward)
    );
    assert_eq!(can_clip_at(340_800, 48_000), None);
    assert_eq!(can_clip_at(307_200, 48_000).map(|clip| clip.1), Some(Samples(307_200)));
}

#[test]
fn cutscene_sounds_play_once_in_script_order() {
    let mut cutscene = DarnellIntroCutsceneState::new(Samples(0), 48_000);
    let start = -480_000;
    assert_eq!(cutscene.tick_audio(Samples(start + 33_599), 48_000), vec![]);
    assert_eq!(
        cutscene.tick_audio(Samples(start + 33_600), 48_000),
        vec![DarnellCutsceneAudio::Music]
    );
    assert_eq!(cutscene.tick_audio(Samples(start + 33_600), 48_000), vec![]);
    assert_eq!(
        cutscene.tick_audio(Samples(start + 7 * 48_000), 48_000),
        vec![
            DarnellCutsceneAudio::Lighter,
            DarnellCutsceneAudio::GunPrep,
            DarnellCutsceneAudio::KickCanUp,
            DarnellCutsceneAudio::KickCanForward
        ]
    );
    assert_eq!(cutscene.tick_audio(Samples(10), 48_000), vec![]);
}

#[test]
fn cutscene_poses_start_on_schedule() {
    let cutscene = DarnellIntroCutsceneState::new(Samples(0), 48_000);
    let start = -480_000;
    let poses = cutscene.due_poses(Samples(start + 6 * 48_000), 48_000);
    assert_eq!(
        poses,
        vec![
            ("boyfriend", "intro1", Samples(start)),
            ("dad", "lightCan", Samples(start + 240_000)),
            ("boyfriend", "cock", Samples(start + 288_000)),
        ]
    );
    assert!(cutscene.due_poses(Samples(0), 48_000).is_empty());
    assert!(cutscene.active_at(Samples(start)));
    assert!(!cutscene.active_at(Samples(0)));
}

#[test]
fn can_frames_hold_last_and_handle_empty() {
    assert_eq!(frame_for_cursor(0, Samples(10), Samples(0), 48_000), None);
    assert_eq!(frame_for_cursor(5, Samples(2_000), Samples(0), 48_000), Some(1));
    assert_eq!(frame_for_cursor(5, Samples(200_000), Samples(0), 48_000), Some(4));
    assert_eq!(frame_for_cursor(5, Samples(-5), Samples(0), 48_000), Some(0));
}

fn senpai_lines() -> Vec<DialogueLine> {
    let entries = vec![
        RawDialogueEntry {
            speaker: Some("senpai".to_string()),
            box_id: None,
            box_alias: Some("senpai".to_string()),
            speed_millis: 50,
            text: vec![
                "Ah, a new fair maiden has come in search of true love!".to_string(),
                "A serenade between gentlemen shall decide where her beautiful heart shall reside.".to_string(),
            ],
        },
        RawDialogueEntry {
            speaker: Some("bf".to_string()),
            box_id: Some("bf".to_string()),
            box_alias: None,
            speed_millis: 50,
            text: vec!["Beep bo bop".to_string()],
        },
    ];
    flatten_dialogue(&entries)
}

#[test]
fn loads_and_flattens_conversation_text() {
    let lines = senpai_lines();
    assert_eq!(lines.len(), 3);
    assert_eq!(lines[0].speaker, "senpai");
    assert_eq!(lines[0].box_id, "senpai");
    assert_eq!(lines[2].box_id, "bf");
    let mut state = DialogueState::new(lines, Duration::ZERO);
    assert_eq!(state.current_line().map(|line| line.speaker.as_str()), Some("senpai"));
    let later = Duration::from_secs(60);
    assert_eq!(state.advance(later), DialogueAdvance::Advanced);
    assert_eq!(state.advance(later + later), DialogueAdvance::Advanced);
    assert_eq!(state.advance(later * 3), DialogueAdvance::Finished);
}

#[test]
fn confirm_skips_typewriter_before_advancing() {
    let mut state = DialogueState::new(senpai_lines(), Duration::from_secs(1));
    let now = Duration::from_secs(1);

    assert_eq!(state.visible_text_at(now), "A");
    assert_eq!(state.advance(now), DialogueAdvance::Skipped);
    assert_eq!(
        state.visible_text_at(now),
        "Ah, a new fair maiden has come in search of true love!"
    );
    assert_eq!(state.advance(now), DialogueAdvance::Advanced);
}

#[test]
fn typewriter_reveals_one_character_per_delay() {
    let state = DialogueState::new(senpai_lines(), Duration::ZERO);
    assert_eq!(state.visible_text_at(Duration::from_millis(49)), "A");
    assert_eq!(state.visible_text_at(Duration::from_millis(50)), "Ah");
    assert_eq!(state.visible_text_at(Duration::from_millis(100)), "Ah,");
    assert!(!state.current_line_complete_at(Duration::from_millis(100)));
    assert!(state.current_line_complete_at(Duration::from_secs(10)));
}
