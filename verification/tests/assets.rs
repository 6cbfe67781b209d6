use rustic_app::assets::{
    asset_id_for_path, freeplay_icon_key_for_character, hit_sfx_for_kind, image_asset_path,
    miss_sfx_for_kind, shot_index, DarnellCutsceneAudio, FreeplayStyle, GameplayNoteSfx,
    NoteKind,
};
use rustic_app::number_text::format_money;
use rustic_app::timing::Samples;

#[test]
fn character_ids_map_to_existing_freeplay_icon_names() {
    assert_eq!(freeplay_icon_key_for_character("bf-pixel"), "bfpixel");
    assert_eq!(
        freeplay_icon_key_for_character("pico-playable"),
        "picopixel"
    );
    assert_eq!(
        freeplay_icon_key_for_character("spooky-dark"),
        "spookypixel"
    );
    assert_eq!(
        freeplay_icon_key_for_character("tankman-bloody"),
        "tankmanpixel"
    );
    assert_eq!(
        freeplay_icon_key_for_character("sserafim-kazuha"),
        "sserafim-kazuhapixel"
    );
}

#[test]
fn icon_keys_cover_every_alias() {
    assert_eq!(freeplay_icon_key_for_character("darnell-blazin"), "darnellpixel");
    assert_eq!(freeplay_icon_key_for_character("mom-car"), "mompixel");
    assert_eq!(freeplay_icon_key_for_character("monster-christmas"), "monsterpixel");
    assert_eq!(freeplay_icon_key_for_character("pico-pixel"), "picopixel");
    assert_eq!(freeplay_icon_key_for_character("senpai-angry"), "senpaipixel");
    assert_eq!(freeplay_icon_key_for_character("gf"), "gfpixel");
}

#[test]
fn score_text_formats_with_commas() {
    assert_eq!(format_money(0), "0");
    assert_eq!(format_money(12_345), "12,345");
    assert_eq!(format_money(-9_876_543), "-9,876,543");
}

#[test]
fn money_formats_extremes() {
    assert_eq!(format_money(999), "999");
    assert_eq!(format_money(1_000), "1,000");
    assert_eq!(format_money(i64::MIN), "-9,223,372,036,854,775,808");
    assert_eq!(format_money(i64::MAX), "9,223,372,036,854,775,807");
}

#[test]
fn weekend1_gun_sound_paths_match_pico_script_assets() {
    assert_eq!(GameplayNoteSfx::GunPrep.path(), "sounds/Gun_Prep.ogg");
    assert_eq!(GameplayNoteSfx::PicoBonk.path(), "sounds/Pico_Bonk.ogg");
    assert_eq!(GameplayNoteSfx::Shot(0).path(), "sounds/shot1.ogg");
    assert_eq!(GameplayNoteSfx::Shot(3).path(), "sounds/shot4.ogg");
}

#[test]
fn weekend1_firegun_hit_and_miss_choose_scripted_sounds() {
    assert!(matches!(
        hit_sfx_for_kind(NoteKind::Weekend1FireGun, Samples(0), 0),
        Some(GameplayNoteSfx::Shot(_))
    ));
    assert_eq!(
        miss_sfx_for_kind(NoteKind::Weekend1FireGun),
        Some(GameplayNoteSfx::PicoBonk)
    );
    assert_eq!(
        hit_sfx_for_kind(NoteKind::Weekend1CockGun, Samples(0), 0),
        Some(GameplayNoteSfx::GunPrep)
    );
}

#[test]
fn shot_index_mixes_counter_and_cursor() {
    assert_eq!(shot_index(0, Samples(0)), 0);
    assert_eq!(shot_index(3, Samples(0)), 3);
    assert_eq!(shot_index(5, Samples(0)), 1);
    // 1 rotated left by 17 is 131072, a multiple of 4
    assert_eq!(shot_index(1, Samples(1)), 1);
    assert_eq!(hit_sfx_for_kind(NoteKind::Normal, Samples(0), 0), None);
    assert_eq!(miss_sfx_for_kind(NoteKind::Weekend1CockGun), None);
}

#[test]
fn freeplay_style_paths() {
    assert_eq!(FreeplayStyle::Pico.data_path(), "data/ui/freeplay/styles/pico.json");
    assert_eq!(FreeplayStyle::Bf.dj_asset_path(), "images/freeplay/freeplay-boyfriend");
    assert_eq!(FreeplayStyle::Pico.player_data_path(), "data/players/pico.json");
}

#[test]
fn image_asset_paths_add_prefix_and_extension_once() {
    assert_eq!(image_asset_path("freeplay/bg", "png"), "images/freeplay/bg.png");
    assert_eq!(image_asset_path("images/freeplay/bg.png", "png"), "images/freeplay/bg.png");
    assert_eq!(image_asset_path("freeplay/sel.xml", "xml"), "images/freeplay/sel.xml");
}

#[test]
fn darnell_sounds_use_script_paths() {
    assert_eq!(DarnellCutsceneAudio::Shot.path(), "sounds/shot1.ogg");
    assert_eq!(
        DarnellCutsceneAudio::Music.path(),
        "music/darnellCanCutscene/darnellCanCutscene.ogg"
    );
}

#[test]
fn asset_ids_are_fnv1a_of_the_path() {
    assert_eq!(asset_id_for_path(""), 0xcbf2_9ce4_8422_2325);
    assert_eq!(asset_id_for_path("a"), 0xaf63_dc4c_8601_ec8c);
    assert_ne!(asset_id_for_path("images/ready.png"), asset_id_for_path("images/set.png"));
}

#[test]
fn money_text_reads_back_with_three_digit_groups() {
    for n in [0i64, 7, -7, 999, 1_000, -1_000, 12_345, 1_234_567, i64::MAX, i64::MIN] {
        let s = format_money(n);
        assert_eq!(s.replace(',', "").parse::<i64>(), Ok(n));
        assert_eq!(s.starts_with('-'), n < 0);
        let body = s.trim_start_matches('-');
        let groups: Vec<&str> = body.split(',').collect();
        assert!((1..=3).contains(&groups[0].len()));
        assert!(groups[1..].iter().all(|g| g.len() == 3));
    }
    assert_eq!(format_money(i64::MIN), "-9,223,372,036,854,775,808");
    assert_eq!(format_money(-1_000), "-1,000");
}

#[test]
fn image_asset_path_of_an_image_asset_path_is_itself() {
    for (asset, ext) in [("freeplay/freeplayBGweek1-pico", "png"), ("images/images/x", "xml"), ("a.png", "png"), ("", "png")] {
        let once = image_asset_path(asset, ext);
        assert!(once.starts_with("images/"));
        assert!(once.ends_with(&format!(".{ext}")));
        assert_eq!(image_asset_path(&once, ext), once);
    }
    assert_eq!(
        image_asset_path("freeplay/freeplayBGweek1-pico", "png"),
        "images/freeplay/freeplayBGweek1-pico.png"
    );
}
