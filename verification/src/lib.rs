//! Verified core of a rhythm-game client: Adobe Animate timeline flattening,
//! frame timing, hold-note and receptor state, menus and cue scheduling.

pub mod animation;
pub mod assets;
pub mod audio_options;
pub mod animation_build;
pub mod atlas;
pub mod audio_clock;
pub mod camera;
pub mod character;
pub mod character_assets;
pub mod clock;
pub mod countdown;
pub mod covers;
pub mod credits;
pub mod darnell;
pub mod dialogue;
pub mod dj;
pub mod freeplay_menu;
pub mod freeplay_meta;
pub mod freeplay_ui;
pub mod game_over;
pub mod hex;
pub mod holds;
pub mod menu_input;
pub mod number_text;
pub mod shell;
pub mod songs;
pub mod sort;
pub mod text;
pub mod timing;

use vstd::prelude::*;

verus! {

} // verus!
