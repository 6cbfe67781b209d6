//! Application shell rules: window options, screens, key bindings and when losing
//! focus pauses the game.

use vstd::prelude::*;
use crate::holds::InputAction;
use crate::text::{chars_of, push_char};

verus! {

/// Window options.
#[derive(Debug, Clone)]
#[non_exhaustive]
pub struct AppOptions {
    pub title: &'static str,
    pub width: u32,
    pub height: u32,
}

impl Default for AppOptions {
    /// A 1280x720 window titled "RusticV3".
    fn default() -> (r: Self)
        ensures
            r.title@ == "RusticV3"@,
            r.width == 1280,
            r.height == 720,
    {
        proof {
            reveal_strlit("RusticV3");
        }
        AppOptions { title: "RusticV3", width: 1280, height: 720 }
    }
}

/// The screen the application shows.
#[derive(Debug, Clone, Copy, PartialEq, Eq, Structural)]
pub enum AppMode {
    Title,
    MainMenu,
    Credits,
    Options,
    StoryMenu,
    SongSelect,
    Play,
}

/// Losing focus pauses only live gameplay: the option is on, a song is playing, and no
/// pause menu, game-over screen, dialogue or cutscene is up.
pub fn should_pause_on_unfocus(
    enabled: bool,
    mode: AppMode,
    pause_menu_active: bool,
    game_over_active: bool,
    dialogue_active: bool,
    cutscene_active: bool,
) -> (r: bool)
    ensures
        r == (enabled && mode == AppMode::Play && !pause_menu_active && !game_over_active
            && !dialogue_active && !cutscene_active),
{
    enabled && mode == AppMode::Play && !pause_menu_active && !game_over_active && !dialogue_active
        && !cutscene_active
}

/// Pause and Back pause gameplay; Confirm does not.
pub fn is_gameplay_pause_action(action: InputAction) -> (r: bool)
    ensures
        r == (action == InputAction::Pause || action == InputAction::Back),
{
    match action {
        InputAction::Pause | InputAction::Back => true,
        _ => false,
    }
}

/// Freeplay menu actions that count as the player doing something (they restart the
/// DJ's idle timer): moving, paging, selecting, jumping, confirming and going back.
pub open spec fn freeplay_player_action(action: InputAction) -> bool {
    match action {
        InputAction::LaneUp | InputAction::UiUp | InputAction::LaneDown | InputAction::UiDown
        | InputAction::LaneLeft | InputAction::UiLeft | InputAction::LaneRight | InputAction::UiRight
        | InputAction::UiSelect | InputAction::UiJumpTop | InputAction::UiJumpBottom
        | InputAction::Confirm | InputAction::Back => true,
        _ => false,
    }
}

pub fn is_freeplay_player_action(action: InputAction) -> (r: bool)
    ensures
        r == freeplay_player_action(action),
{
    match action {
        InputAction::LaneUp | InputAction::UiUp | InputAction::LaneDown | InputAction::UiDown
        | InputAction::LaneLeft | InputAction::UiLeft | InputAction::LaneRight | InputAction::UiRight
        | InputAction::UiSelect | InputAction::UiJumpTop | InputAction::UiJumpBottom
        | InputAction::Confirm | InputAction::Back => true,
        _ => false,
    }
}

/// The physical keys that the default bindings use.
#[derive(Debug, Clone, Copy, PartialEq, Eq, Structural)]
pub enum Key {
    ArrowLeft,
    ArrowDown,
    ArrowUp,
    ArrowRight,
    KeyA,
    KeyS,
    KeyW,
    KeyD,
    KeyZ,
    Enter,
    Space,
    KeyX,
    Backspace,
    Escape,
    KeyP,
    ShiftLeft,
    ShiftRight,
    F3,
    KeyR,
    F5,
    KeyQ,
    F6,
    KeyE,
    F7,
    Tab,
    Pause,
    Other,
}

pub open spec fn map_key_spec(key: Key) -> Option<InputAction> {
    match key {
        Key::ArrowLeft | Key::KeyA => Some(InputAction::LaneLeft),
        Key::ArrowDown | Key::KeyS => Some(InputAction::LaneDown),
        Key::ArrowUp | Key::KeyW => Some(InputAction::LaneUp),
        Key::ArrowRight | Key::KeyD => Some(InputAction::LaneRight),
        Key::KeyZ | Key::Enter | Key::Space => Some(InputAction::Confirm),
        Key::KeyX | Key::Backspace | Key::Escape => Some(InputAction::Back),
        Key::KeyP | Key::Pause => Some(InputAction::Pause),
        Key::ShiftLeft | Key::ShiftRight => Some(InputAction::UiPauseScroll),
        Key::F3 => Some(InputAction::Debug),
        Key::KeyR | Key::F5 => Some(InputAction::Reset),
        Key::KeyQ | Key::F6 => Some(InputAction::UiLeft),
        Key::KeyE | Key::F7 => Some(InputAction::UiRight),
        Key::Tab => Some(InputAction::UiSelect),
        Key::Other => None,
    }
}

/// The default bindings: arrows and WASD for lanes, Z/Enter/Space confirm,
/// X/Backspace/Escape back, P and Pause pause, Shift scrolls the pause menu, F3 debug,
/// R/F5 reset, Q/F6 and E/F7 page left and right, Tab selects.
pub fn map_key(key: Key) -> (r: Option<InputAction>)
    ensures
        r == map_key_spec(key),
{
    match key {
        Key::ArrowLeft | Key::KeyA => Some(InputAction::LaneLeft),
        Key::ArrowDown | Key::KeyS => Some(InputAction::LaneDown),
        Key::ArrowUp | Key::KeyW => Some(InputAction::LaneUp),
        Key::ArrowRight | Key::KeyD => Some(InputAction::LaneRight),
        Key::KeyZ | Key::Enter | Key::Space => Some(InputAction::Confirm),
        Key::KeyX | Key::Backspace | Key::Escape => Some(InputAction::Back),
        Key::KeyP | Key::Pause => Some(InputAction::Pause),
        Key::ShiftLeft | Key::ShiftRight => Some(InputAction::UiPauseScroll),
        Key::F3 => Some(InputAction::Debug),
        Key::KeyR | Key::F5 => Some(InputAction::Reset),
        Key::KeyQ | Key::F6 => Some(InputAction::UiLeft),
        Key::KeyE | Key::F7 => Some(InputAction::UiRight),
        Key::Tab => Some(InputAction::UiSelect),
        Key::Other => None,
    }
}

/// One line of the debug overlay.
#[derive(Debug, Clone)]
pub struct DebugOverlayLine {
    pub text: String,
}

impl DebugOverlayLine {
    pub fn new(text: String) -> (r: Self)
        ensures
            r.text@ == text@,
    {
        DebugOverlayLine { text }
    }
}

/// `rel` joined onto `base` as a relative path: `rel` alone for an empty base, else
/// with one `/` between them.
pub open spec fn join_path_spec(base: Seq<char>, rel: Seq<char>) -> Seq<char> {
    if base.len() == 0 {
        rel
    } else if base.last() == '/' {
        base + rel
    } else {
        base + seq!['/'] + rel
    }
}

/// Where the baked assets are: `assets/baked` under the working directory when it has
/// one, else under the workspace root.
pub fn baked_assets_root(cwd_has_baked_assets: bool, workspace_root: &str) -> (r: String)
    ensures
        r@ == (if cwd_has_baked_assets {
            "assets/baked"@
        } else {
            join_path_spec(workspace_root@, "assets/baked"@)
        }),
{
    proof {
        reveal_strlit("assets/baked");
    }
    if cwd_has_baked_assets {
        return "assets/baked".to_owned();
    }
    let base = chars_of(workspace_root);
    let mut out = workspace_root.to_owned();
    if base.len() > 0 && base[base.len() - 1] != '/' {
        push_char(&mut out, '/');
    }
    out.append("assets/baked");
    out
}

} // verus!
