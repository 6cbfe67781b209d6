//! Songs, difficulties and variations, and the asset paths and scripted content
//! that follow from a selection.

use vstd::prelude::*;
use crate::text::{chars_of, chars_eq, str_eq, string_from_chars};

verus! {

pub const VARIATION_BF: &'static str = "bf";

pub const VARIATION_PICO: &'static str = "pico";

pub const VARIATION_ERECT: &'static str = "erect";

#[derive(Debug, Clone, Copy, PartialEq, Eq, Structural, Hash)]
pub enum PreviewDifficulty {
    Easy,
    Normal,
    Hard,
    Erect,
    Nightmare,
}

/// A song: its folder under `songs/` and its legacy instrumental track.
#[derive(Debug, Clone, Copy, PartialEq, Eq, Hash)]
pub struct PreviewSong {
    pub folder: &'static str,
    pub legacy_inst: &'static str,
}

/// Songs are told apart by folder.
pub open spec fn same_song(a: PreviewSong, b: PreviewSong) -> bool {
    a.folder@ == b.folder@
}

impl PreviewSong {
    pub fn new(folder: &'static str, legacy_inst: &'static str) -> (r: Self)
        ensures
            r.folder == folder,
            r.legacy_inst == legacy_inst,
    {
        PreviewSong { folder, legacy_inst }
    }

    pub fn tutorial() -> (r: Self)
        ensures
            r.folder@ == "tutorial"@,
    {
        PreviewSong::new("tutorial", "music/Tutorial_Inst.ogg")
    }

    pub fn bopeebo() -> (r: Self)
        ensures
            r.folder@ == "bopeebo"@,
            r.legacy_inst@ == "music/Bopeebo_Inst.ogg"@,
    {
        PreviewSong::new("bopeebo", "music/Bopeebo_Inst.ogg")
    }

    pub fn senpai() -> (r: Self)
        ensures
            r.folder@ == "senpai"@,
    {
        PreviewSong::new("senpai", "music/Senpai_Inst.ogg")
    }

    pub fn roses() -> (r: Self)
        ensures
            r.folder@ == "roses"@,
    {
        PreviewSong::new("roses", "music/Roses_Inst.ogg")
    }

    pub fn thorns() -> (r: Self)
        ensures
            r.folder@ == "thorns"@,
    {
        PreviewSong::new("thorns", "music/Thorns_Inst.ogg")
    }

    pub fn darnell() -> (r: Self)
        ensures
            r.folder@ == "darnell"@,
    {
        PreviewSong::new("darnell", "music/Darnell_Inst.ogg")
    }

    pub fn lit_up() -> (r: Self)
        ensures
            r.folder@ == "lit-up"@,
    {
        PreviewSong::new("lit-up", "music/Lit-Up_Inst.ogg")
    }

    /// The legacy instrumental path.
    pub fn inst_path(&self) -> (r: &'static str)
        ensures
            r == self.legacy_inst,
    {
        self.legacy_inst
    }

    /// Whether two songs are the same song.
    pub fn is(&self, other: &PreviewSong) -> (r: bool)
        ensures
            r == same_song(*self, *other),
    {
        str_eq(self.folder, other.folder)
    }
}

/// A song at a difficulty, optionally as a character variation.
#[derive(Debug, Clone, Copy, PartialEq, Eq, Hash)]
pub struct PreviewSelection {
    pub song: PreviewSong,
    pub difficulty: PreviewDifficulty,
    pub variation: Option<&'static str>,
}

pub open spec fn opt_str_view(o: Option<&'static str>) -> Option<Seq<char>> {
    match o {
        Some(s) => Some(s@),
        None => None,
    }
}

/// The variation suffix that picks variant assets: the character variation when one is
/// chosen, `erect` for the Erect and Nightmare difficulties, none otherwise.
pub open spec fn effective_suffix(sel: PreviewSelection) -> Option<Seq<char>> {
    match sel.variation {
        Some(v) => Some(v@),
        None => match sel.difficulty {
            PreviewDifficulty::Erect | PreviewDifficulty::Nightmare => Some("erect"@),
            _ => None,
        },
    }
}

impl PreviewSelection {
    pub fn new(song: PreviewSong, difficulty: PreviewDifficulty) -> (r: Self)
        ensures
            r == (PreviewSelection { song, difficulty, variation: None }),
    {
        PreviewSelection { song, difficulty, variation: None }
    }

    pub fn with_variation(self, variation: Option<&'static str>) -> (r: Self)
        ensures
            r == (PreviewSelection { variation, ..self }),
    {
        PreviewSelection { song: self.song, difficulty: self.difficulty, variation }
    }

    pub open spec fn with_difficulty_spec(self, difficulty: PreviewDifficulty) -> Self {
        PreviewSelection { difficulty, ..self }
    }

    pub fn with_difficulty(self, difficulty: PreviewDifficulty) -> (r: Self)
        ensures
            r == self.with_difficulty_spec(difficulty),
    {
        PreviewSelection { song: self.song, difficulty, variation: self.variation }
    }

    pub fn effective_variation_suffix(&self) -> (r: Option<&'static str>)
        ensures
            opt_str_view(r) == effective_suffix(*self),
    {
        match self.variation {
            Some(v) => Some(v),
            None => match self.difficulty {
                PreviewDifficulty::Erect | PreviewDifficulty::Nightmare => Some(VARIATION_ERECT),
                _ => None,
            },
        }
    }
}

fn is_variation(o: Option<&'static str>, name: &str) -> (r: bool)
    ensures
        r == match o {
            Some(v) => v@ == name@,
            None => false,
        },
{
    match o {
        Some(v) => str_eq(v, name),
        None => false,
    }
}

/// The dialogue conversation that plays before a selection: Week 6 songs only, with the
/// Pico variants of Senpai and Roses.
pub open spec fn conversation_spec(sel: PreviewSelection) -> Option<Seq<char>> {
    let pico = match sel.variation {
        Some(v) => v@ == "pico"@,
        None => false,
    };
    if sel.song.folder@ == "senpai"@ {
        Some(if pico { "senpai-pico"@ } else { "senpai"@ })
    } else if sel.song.folder@ == "roses"@ {
        Some(if pico { "roses-pico"@ } else { "roses"@ })
    } else if sel.song.folder@ == "thorns"@ {
        Some("thorns"@)
    } else {
        None
    }
}

pub fn conversation_id_for_selection(selection: PreviewSelection) -> (r: Option<&'static str>)
    ensures
        opt_str_view(r) == conversation_spec(selection),
{
    let pico = is_variation(selection.variation, VARIATION_PICO);
    if str_eq(selection.song.folder, "senpai") {
        if pico {
            Some("senpai-pico")
        } else {
            Some("senpai")
        }
    } else if str_eq(selection.song.folder, "roses") {
        if pico {
            Some("roses-pico")
        } else {
            Some("roses")
        }
    } else if str_eq(selection.song.folder, "thorns") {
        Some("thorns")
    } else {
        None
    }
}

/// The Darnell can cutscene plays only for Darnell in story mode.
pub fn should_play_darnell_intro_cutscene(selection: PreviewSelection, story_mode: bool) -> (r: bool)
    ensures
        r == (story_mode && selection.song.folder@ == "darnell"@),
{
    story_mode && str_eq(selection.song.folder, "darnell")
}

/// What the Freeplay preview plays: the random track, or a song selection.
#[derive(Debug, Clone, Copy, PartialEq, Eq)]
pub enum PreviewTarget {
    Random,
    Song(PreviewSelection),
}

fn owned_concat3(a: &str, b: &str, c: &str) -> (r: String)
    ensures
        r@ == a@ + b@ + c@,
{
    let mut s = String::new();
    s.append(a);
    s.append(b);
    s.append(c);
    s
}

fn owned_concat5(a: &str, b: &str, c: &str, d: &str, e: &str) -> (r: String)
    ensures
        r@ == a@ + b@ + c@ + d@ + e@,
{
    let mut s = String::new();
    s.append(a);
    s.append(b);
    s.append(c);
    s.append(d);
    s.append(e);
    s
}

/// Preview tracks to try in order: the variation's instrumental, the base
/// instrumental, then the legacy instrumental; the random track for Random.
pub open spec fn preview_paths_spec(target: PreviewTarget) -> Seq<Seq<char>> {
    match target {
        PreviewTarget::Random => seq!["music/freeplayRandom/freeplayRandom.ogg"@],
        PreviewTarget::Song(sel) => {
            let base = seq![
                "songs/"@ + sel.song.folder@ + "/Inst.ogg"@,
                sel.song.legacy_inst@,
            ];
            match effective_suffix(sel) {
                Some(suffix) => seq!["songs/"@ + sel.song.folder@ + "/Inst-"@ + suffix + ".ogg"@]
                    + base,
                None => base,
            }
        },
    }
}

pub fn preview_paths(target: PreviewTarget) -> (r: Vec<String>)
    ensures
        r@.map_values(|s: String| s@) == preview_paths_spec(target),
{
    let mut paths: Vec<String> = Vec::new();
    match target {
        PreviewTarget::Random => {
            paths.push("music/freeplayRandom/freeplayRandom.ogg".to_owned());
            assert(paths@.map_values(|s: String| s@) =~= preview_paths_spec(target));
        },
        PreviewTarget::Song(selection) => {
            match selection.effective_variation_suffix() {
                Some(suffix) => {
                    paths.push(owned_concat5("songs/", selection.song.folder, "/Inst-", suffix, ".ogg"));
                },
                None => {},
            }
            paths.push(owned_concat3("songs/", selection.song.folder, "/Inst.ogg"));
            paths.push(selection.song.inst_path().to_owned());
            assert(paths@.map_values(|s: String| s@) =~= preview_paths_spec(target));
        },
    }
    paths
}

} // verus!
