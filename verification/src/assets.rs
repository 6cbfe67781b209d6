//! Asset paths and identifiers chosen by game rules.

use vstd::prelude::*;
use vstd::string::StringSliceAdditionalSpecFns;
use crate::text::{chars_of, str_eq, string_from_chars};
use crate::timing::Samples;

verus! {

pub open spec fn ends_with_seq(s: Seq<char>, suffix: Seq<char>) -> bool {
    s.len() >= suffix.len() && s.subrange(s.len() - suffix.len(), s.len() as int) == suffix
}

pub open spec fn starts_with_seq(s: Seq<char>, prefix: Seq<char>) -> bool {
    s.len() >= prefix.len() && s.subrange(0, prefix.len() as int) == prefix
}

/// `str::strip_suffix(..).unwrap_or(s)`.
pub open spec fn strip_suffix_or_self(s: Seq<char>, suffix: Seq<char>) -> Seq<char> {
    if ends_with_seq(s, suffix) {
        s.subrange(0, s.len() - suffix.len())
    } else {
        s
    }
}

/// `str::strip_prefix(..).unwrap_or(s)`.
pub open spec fn strip_prefix_or_self(s: Seq<char>, prefix: Seq<char>) -> Seq<char> {
    if starts_with_seq(s, prefix) {
        s.subrange(prefix.len() as int, s.len() as int)
    } else {
        s
    }
}

pub fn ends_with(s: &Vec<char>, suffix: &Vec<char>) -> (r: bool)
    ensures
        r == ends_with_seq(s@, suffix@),
{
    if s.len() < suffix.len() {
        return false;
    }
    let off = s.len() - suffix.len();
    let mut i: usize = 0;
    while i < suffix.len()
        invariant
            off == s.len() - suffix.len(),
            i <= suffix.len(),
            forall|k: int| 0 <= k < i ==> s@[off + k] == suffix@[k],
        decreases suffix.len() - i,
    {
        if s[off + i] != suffix[i] {
            assert(s@.subrange(off as int, s.len() as int)[i as int] != suffix@[i as int]);
            return false;
        }
        i = i + 1;
    }
    assert(s@.subrange(off as int, s.len() as int) =~= suffix@);
    true
}

pub fn starts_with(s: &Vec<char>, prefix: &Vec<char>) -> (r: bool)
    ensures
        r == starts_with_seq(s@, prefix@),
{
    if s.len() < prefix.len() {
        return false;
    }
    let mut i: usize = 0;
    while i < prefix.len()
        invariant
            prefix.len() <= s.len(),
            i <= prefix.len(),
            forall|k: int| 0 <= k < i ==> s@[k] == prefix@[k],
        decreases prefix.len() - i,
    {
        if s[i] != prefix[i] {
            assert(s@.subrange(0, prefix.len() as int)[i as int] != prefix@[i as int]);
            return false;
        }
        i = i + 1;
    }
    assert(s@.subrange(0, prefix.len() as int) =~= prefix@);
    true
}

fn sub_chars(s: &Vec<char>, from: usize, to: usize) -> (r: Vec<char>)
    requires
        from <= to <= s.len(),
    ensures
        r@ == s@.subrange(from as int, to as int),
{
    let mut out: Vec<char> = Vec::new();
    let mut i = from;
    while i < to
        invariant
            from <= i <= to <= s.len(),
            out@ == s@.subrange(from as int, i as int),
        decreases to - i,
    {
        out.push(s[i]);
        i = i + 1;
        assert(out@ =~= s@.subrange(from as int, i as int));
    }
    out
}

/// Character whose Freeplay capsule icon is shared, mapped to the icon's base name.
pub open spec fn icon_root(id: Seq<char>) -> Seq<char> {
    if id == "darnell-blazin"@ {
        "darnell"@
    } else if id == "mom-car"@ {
        "mom"@
    } else if id == "monster-christmas"@ {
        "monster"@
    } else if id == "pico-playable"@ || id == "pico-pixel"@ {
        "pico"@
    } else if id == "senpai-angry"@ {
        "senpai"@
    } else if id == "spooky-dark"@ {
        "spooky"@
    } else if id == "tankman-bloody"@ {
        "tankman"@
    } else {
        strip_suffix_or_self(id, "-pixel"@)
    }
}

/// The pixel icon key for a character: its base name followed by `pixel`.
pub fn freeplay_icon_key_for_character(character_id: &str) -> (r: String)
    ensures
        r@ == icon_root(character_id@) + "pixel"@,
{
    let mut root: String = if str_eq(character_id, "darnell-blazin") {
        "darnell".to_owned()
    } else if str_eq(character_id, "mom-car") {
        "mom".to_owned()
    } else if str_eq(character_id, "monster-christmas") {
        "monster".to_owned()
    } else if str_eq(character_id, "pico-playable") || str_eq(character_id, "pico-pixel") {
        "pico".to_owned()
    } else if str_eq(character_id, "senpai-angry") {
        "senpai".to_owned()
    } else if str_eq(character_id, "spooky-dark") {
        "spooky".to_owned()
    } else if str_eq(character_id, "tankman-bloody") {
        "tankman".to_owned()
    } else {
        let v = chars_of(character_id);
        let suffix = chars_of("-pixel");
        if ends_with(&v, &suffix) {
            let kept = sub_chars(&v, 0, v.len() - suffix.len());
            string_from_chars(&kept)
        } else {
            string_from_chars(&v)
        }
    };
    root.append("pixel");
    root
}

pub const LOSS_SOUND_PATH: &'static str = "sounds/gameplay/gameover/fnf_loss_sfx.ogg";

pub const LOSS_SOUND_PICO_NENE_PATH: &'static str = "sounds/gameplay/gameover/fnf_loss_sfx-pico-and-nene.ogg";

pub const START_MUSIC_PATH: &'static str = "music/gameplay/gameover/gameOverStart.ogg";

pub const LOOP_MUSIC_PATH: &'static str = "music/gameplay/gameover/gameOver.ogg";

pub const CONFIRM_MUSIC_PATH: &'static str = "music/gameplay/gameover/gameOverEnd.ogg";

/// Which game-over sounds play.
#[derive(Debug, Clone, Copy, PartialEq, Eq, Structural)]
pub enum GameOverAudioStyle {
    Boyfriend,
    PicoAndNene,
}

impl GameOverAudioStyle {
    /// Pico's player icon picks the Pico-and-Nene sounds; every other icon Boyfriend's.
    pub fn for_player_icon_id(icon_id: &str) -> (r: Self)
        ensures
            r == if icon_id@ == "pico"@ {
                GameOverAudioStyle::PicoAndNene
            } else {
                GameOverAudioStyle::Boyfriend
            },
    {
        if str_eq(icon_id, "pico") {
            GameOverAudioStyle::PicoAndNene
        } else {
            GameOverAudioStyle::Boyfriend
        }
    }

    pub fn loss_sound_path(self) -> (r: &'static str)
        ensures
            r == match self {
                GameOverAudioStyle::Boyfriend => LOSS_SOUND_PATH,
                GameOverAudioStyle::PicoAndNene => LOSS_SOUND_PICO_NENE_PATH,
            },
    {
        match self {
            GameOverAudioStyle::Boyfriend => LOSS_SOUND_PATH,
            GameOverAudioStyle::PicoAndNene => LOSS_SOUND_PICO_NENE_PATH,
        }
    }
}

/// Kinds of chart notes that carry scripted behaviour.
#[derive(Debug, Clone, Copy, PartialEq, Eq, Structural, Hash)]
pub enum NoteKind {
    Normal,
    Weekend1CockGun,
    Weekend1FireGun,
    Other,
}

/// Scripted Weekend 1 note sounds.
#[derive(Debug, Clone, Copy, PartialEq, Eq, Structural)]
pub enum GameplayNoteSfx {
    GunPrep,
    PicoBonk,
    Shot(usize),
}

impl GameplayNoteSfx {
    pub fn path(self) -> (r: &'static str)
        ensures
            r@ == match self {
                GameplayNoteSfx::GunPrep => "sounds/Gun_Prep.ogg"@,
                GameplayNoteSfx::PicoBonk => "sounds/Pico_Bonk.ogg"@,
                GameplayNoteSfx::Shot(n) => if n == 0 {
                    "sounds/shot1.ogg"@
                } else if n == 1 {
                    "sounds/shot2.ogg"@
                } else if n == 2 {
                    "sounds/shot3.ogg"@
                } else {
                    "sounds/shot4.ogg"@
                },
            },
    {
        match self {
            GameplayNoteSfx::GunPrep => "sounds/Gun_Prep.ogg",
            GameplayNoteSfx::PicoBonk => "sounds/Pico_Bonk.ogg",
            GameplayNoteSfx::Shot(0) => "sounds/shot1.ogg",
            GameplayNoteSfx::Shot(1) => "sounds/shot2.ogg",
            GameplayNoteSfx::Shot(2) => "sounds/shot3.ogg",
            GameplayNoteSfx::Shot(_) => "sounds/shot4.ogg",
        }
    }
}

/// `x.rotate_left(17)` for a 64-bit value.
pub open spec fn rotl17(x: u64) -> int {
    (x as int % 0x8000_0000_0000) * 0x20000 + x as int / 0x8000_0000_0000
}

/// Which of the four gunshots plays: the shot counter plus the cursor's bits rotated
/// left by 17, wrapping, modulo 4.
pub open spec fn shot_index_spec(roll: u64, cursor: Samples) -> int {
    ((roll as int + rotl17(cursor.0 as u64)) % 0x1_0000_0000_0000_0000) % 4
}

pub fn shot_index(roll: u64, cursor: Samples) -> (r: usize)
    ensures
        r == shot_index_spec(roll, cursor),
        r < 4,
{
    let x = cursor.0 as u64;
    let low = x % 0x8000_0000_0000;
    let high = x / 0x8000_0000_0000;
    assert(low * 0x20000 + high < 0x1_0000_0000_0000_0000) by (nonlinear_arith)
        requires
            low < 0x8000_0000_0000,
            high < 0x20000,
    ;
    let rotated = low * 0x20000 + high;
    let sum = roll.wrapping_add(rotated);
    (sum % 4) as usize
}

/// The sound a note kind plays when hit; `roll` is the running shot counter.
pub open spec fn hit_sfx_spec(kind: NoteKind, cursor: Samples, roll: u64) -> Option<GameplayNoteSfx> {
    match kind {
        NoteKind::Weekend1CockGun => Some(GameplayNoteSfx::GunPrep),
        NoteKind::Weekend1FireGun => Some(GameplayNoteSfx::Shot(shot_index_spec(roll, cursor) as usize)),
        _ => None,
    }
}

pub fn hit_sfx_for_kind(kind: NoteKind, cursor: Samples, roll: u64) -> (r: Option<GameplayNoteSfx>)
    ensures
        r == hit_sfx_spec(kind, cursor, roll),
{
    match kind {
        NoteKind::Weekend1CockGun => Some(GameplayNoteSfx::GunPrep),
        NoteKind::Weekend1FireGun => Some(GameplayNoteSfx::Shot(shot_index(roll, cursor))),
        _ => None,
    }
}

/// The sound a note kind plays when missed.
pub fn miss_sfx_for_kind(kind: NoteKind) -> (r: Option<GameplayNoteSfx>)
    ensures
        r == match kind {
            NoteKind::Weekend1FireGun => Some(GameplayNoteSfx::PicoBonk),
            _ => None,
        },
{
    match kind {
        NoteKind::Weekend1FireGun => Some(GameplayNoteSfx::PicoBonk),
        _ => None,
    }
}

/// The Freeplay look: Boyfriend's or Pico's.
#[derive(Debug, Clone, Copy, PartialEq, Eq, Structural)]
pub enum FreeplayStyle {
    Bf,
    Pico,
}

impl FreeplayStyle {
    pub fn data_path(self) -> (r: &'static str)
        ensures
            r@ == match self {
                FreeplayStyle::Bf => "data/ui/freeplay/styles/bf.json"@,
                FreeplayStyle::Pico => "data/ui/freeplay/styles/pico.json"@,
            },
    {
        match self {
            FreeplayStyle::Bf => "data/ui/freeplay/styles/bf.json",
            FreeplayStyle::Pico => "data/ui/freeplay/styles/pico.json",
        }
    }

    pub fn dj_asset_path(self) -> (r: &'static str)
        ensures
            r@ == match self {
                FreeplayStyle::Bf => "images/freeplay/freeplay-boyfriend"@,
                FreeplayStyle::Pico => "images/freeplay/freeplay-pico"@,
            },
    {
        match self {
            FreeplayStyle::Bf => "images/freeplay/freeplay-boyfriend",
            FreeplayStyle::Pico => "images/freeplay/freeplay-pico",
        }
    }

    pub fn player_data_path(self) -> (r: &'static str)
        ensures
            r@ == match self {
                FreeplayStyle::Bf => "data/players/bf.json"@,
                FreeplayStyle::Pico => "data/players/pico.json"@,
            },
    {
        match self {
            FreeplayStyle::Bf => "data/players/bf.json",
            FreeplayStyle::Pico => "data/players/pico.json",
        }
    }
}

/// An image asset path: under `images/` (a leading `images/` is not doubled) and ending
/// in `.extension` (added when missing).
pub open spec fn image_asset_path_spec(asset: Seq<char>, extension: Seq<char>) -> Seq<char> {
    let with_prefix = "images/"@ + strip_prefix_or_self(asset, "images/"@);
    if ends_with_seq(with_prefix, "."@ + extension) {
        with_prefix
    } else {
        with_prefix + "."@ + extension
    }
}

pub fn image_asset_path(asset: &str, extension: &str) -> (r: String)
    ensures
        r@ == image_asset_path_spec(asset@, extension@),
{
    let a = chars_of(asset);
    let prefix = chars_of("images/");
    let rest = if starts_with(&a, &prefix) {
        sub_chars(&a, prefix.len(), a.len())
    } else {
        sub_chars(&a, 0, a.len())
    };
    assert(a@.subrange(0, a.len() as int) =~= a@);
    let mut with_prefix = "images/".to_owned();
    let rest_s = string_from_chars(&rest);
    with_prefix.append(rest_s.as_str());
    let mut dot_ext = ".".to_owned();
    dot_ext.append(extension);
    let wp = chars_of(with_prefix.as_str());
    let de = chars_of(dot_ext.as_str());
    if ends_with(&wp, &de) {
        with_prefix
    } else {
        with_prefix.append(dot_ext.as_str());
        with_prefix
    }
}

/// An image asset path is already one: it starts with `images/`, ends with the
/// extension, and making it an image asset path again leaves it unchanged.
pub proof fn law_image_asset_path_idempotent(asset: Seq<char>, extension: Seq<char>)
    ensures
        starts_with_seq(image_asset_path_spec(asset, extension), "images/"@),
        ends_with_seq(image_asset_path_spec(asset, extension), "."@ + extension),
        image_asset_path_spec(image_asset_path_spec(asset, extension), extension)
            == image_asset_path_spec(asset, extension),
{
    reveal_strlit("images/");
    reveal_strlit(".");
    let p = "images/"@;
    let d = "."@ + extension;
    let wp = p + strip_prefix_or_self(asset, p);
    let r = image_asset_path_spec(asset, extension);
    if !ends_with_seq(wp, d) {
        assert(r == wp + d);
        assert(r.subrange(r.len() - d.len(), r.len() as int) =~= d);
    }
    assert(r.subrange(0, p.len() as int) =~= p);
    assert(starts_with_seq(r, p));
    assert(p + strip_prefix_or_self(r, p) =~= r);
}

/// Darnell cutscene sounds.
#[derive(Debug, Clone, Copy, PartialEq, Eq, Structural)]
pub enum DarnellCutsceneAudio {
    Music,
    Lighter,
    GunPrep,
    KickCanUp,
    KickCanForward,
    Shot,
    DarnellLaugh,
    NeneLaugh,
}

impl DarnellCutsceneAudio {
    pub fn path(self) -> (r: &'static str)
        ensures
            r@ == match self {
                DarnellCutsceneAudio::Music => "music/darnellCanCutscene/darnellCanCutscene.ogg"@,
                DarnellCutsceneAudio::Lighter => "sounds/Darnell_Lighter.ogg"@,
                DarnellCutsceneAudio::GunPrep => "sounds/Gun_Prep.ogg"@,
                DarnellCutsceneAudio::KickCanUp => "sounds/Kick_Can_UP.ogg"@,
                DarnellCutsceneAudio::KickCanForward => "sounds/Kick_Can_FORWARD.ogg"@,
                DarnellCutsceneAudio::Shot => "sounds/shot1.ogg"@,
                DarnellCutsceneAudio::DarnellLaugh => "sounds/cutscene/darnell_laugh.ogg"@,
                DarnellCutsceneAudio::NeneLaugh => "sounds/cutscene/nene_laugh.ogg"@,
            },
    {
        match self {
            DarnellCutsceneAudio::Music => "music/darnellCanCutscene/darnellCanCutscene.ogg",
            DarnellCutsceneAudio::Lighter => "sounds/Darnell_Lighter.ogg",
            DarnellCutsceneAudio::GunPrep => "sounds/Gun_Prep.ogg",
            DarnellCutsceneAudio::KickCanUp => "sounds/Kick_Can_UP.ogg",
            DarnellCutsceneAudio::KickCanForward => "sounds/Kick_Can_FORWARD.ogg",
            DarnellCutsceneAudio::Shot => "sounds/shot1.ogg",
            DarnellCutsceneAudio::DarnellLaugh => "sounds/cutscene/darnell_laugh.ogg",
            DarnellCutsceneAudio::NeneLaugh => "sounds/cutscene/nene_laugh.ogg",
        }
    }
}

/// FNV-1a offset basis and prime (64-bit).
pub const FNV_OFFSET_BASIS: u64 = 0xcbf2_9ce4_8422_2325;

pub const FNV_PRIME: u64 = 0x0000_0100_0000_01b3;

/// 64-bit FNV-1a over bytes: xor each byte in, then multiply by the prime modulo 2^64.
pub open spec fn fnv1a64(bytes: Seq<u8>) -> u64
    decreases bytes.len(),
{
    if bytes.len() == 0 {
        FNV_OFFSET_BASIS
    } else {
        let h = fnv1a64(bytes.drop_last()) ^ (bytes.last() as u64);
        ((h as nat * FNV_PRIME as nat) % 0x1_0000_0000_0000_0000nat) as u64
    }
}

/// The texture id of an asset path: the FNV-1a hash of its UTF-8 bytes.
pub fn asset_id_for_path(path: &str) -> (r: u64)
    ensures
        r == fnv1a64(path.spec_bytes()),
{
    let bytes = path.as_bytes();
    let mut hash: u64 = FNV_OFFSET_BASIS;
    let mut i: usize = 0;
    while i < bytes.len()
        invariant
            i <= bytes@.len(),
            bytes@ == path.spec_bytes(),
            hash == fnv1a64(bytes@.subrange(0, i as int)),
        decreases bytes.len() - i,
    {
        assert(bytes@.subrange(0, i + 1).drop_last() =~= bytes@.subrange(0, i as int));
        hash = hash ^ (bytes[i] as u64);
        hash = hash.wrapping_mul(FNV_PRIME);
        i = i + 1;
    }
    assert(bytes@.subrange(0, bytes@.len() as int) =~= bytes@);
    hash
}

} // verus!
