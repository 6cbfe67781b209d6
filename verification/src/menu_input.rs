//! What a key press does on the menus: which command it is, and how the main menu,
//! the story menu and the Freeplay list answer it.

use vstd::prelude::*;
use vstd::arithmetic::div_mod::{lemma_small_mod, lemma_mod_self_0, lemma_mod_bound,
    lemma_fundamental_div_mod_converse};
use crate::holds::InputAction;

verus! {

/// The entry above `index` in a menu of `count` entries that wraps at the top.
pub open spec fn wrap_up(index: int, count: int) -> int {
    (index + count - 1) % count
}

/// The entry below `index` in a menu of `count` entries that wraps at the bottom.
pub open spec fn wrap_down(index: int, count: int) -> int {
    (index + 1) % count
}

/// Moves a menu cursor up one entry (`count` is at least 1).
pub fn menu_index_up(index: usize, count: usize) -> (r: usize)
    requires
        1 <= count,
        index + count - 1 <= usize::MAX,
    ensures
        r == wrap_up(index as int, count as int),
{
    (index + (count - 1)) % count
}

/// Moves a menu cursor down one entry (`count` is at least 1).
pub fn menu_index_down(index: usize, count: usize) -> (r: usize)
    requires
        1 <= count,
        index + 1 <= usize::MAX,
    ensures
        r == wrap_down(index as int, count as int),
{
    (index + 1) % count
}

/// Moving a menu cursor up and then down, or down and then up, returns it to where it
/// was, and it never leaves the menu.
pub proof fn law_menu_up_down_inverse(index: int, count: int)
    requires
        0 <= index < count,
    ensures
        0 <= wrap_up(index, count) < count,
        0 <= wrap_down(index, count) < count,
        wrap_down(wrap_up(index, count), count) == index,
        wrap_up(wrap_down(index, count), count) == index,
{
    lemma_mod_bound(index + count - 1, count);
    lemma_mod_bound(index + 1, count);
    if index == 0 {
        lemma_small_mod((count - 1) as nat, count as nat);
        lemma_mod_self_0(count);
    } else {
        lemma_fundamental_div_mod_converse(index + count - 1, count, 1, index - 1);
        lemma_small_mod(index as nat, count as nat);
    }
    if index == count - 1 {
        lemma_mod_self_0(count);
        lemma_small_mod((count - 1) as nat, count as nat);
    } else {
        lemma_small_mod((index + 1) as nat, count as nat);
        lemma_fundamental_div_mod_converse(index + 1 + count - 1, count, 1, index);
    }
}

/// The menu command of a key: the lane and UI arrows move, select toggles the
/// character, the jump keys jump, and confirm and back keep their meaning.
#[derive(Debug, Clone, Copy, PartialEq, Eq, Structural)]
pub enum MenuCommand {
    Up,
    Down,
    Left,
    Right,
    ToggleCharacter,
    JumpTop,
    JumpBottom,
    Confirm,
    Back,
    Other,
}

pub open spec fn menu_command_spec(action: InputAction) -> MenuCommand {
    match action {
        InputAction::LaneUp | InputAction::UiUp => MenuCommand::Up,
        InputAction::LaneDown | InputAction::UiDown => MenuCommand::Down,
        InputAction::LaneLeft | InputAction::UiLeft => MenuCommand::Left,
        InputAction::LaneRight | InputAction::UiRight => MenuCommand::Right,
        InputAction::UiSelect => MenuCommand::ToggleCharacter,
        InputAction::UiJumpTop => MenuCommand::JumpTop,
        InputAction::UiJumpBottom => MenuCommand::JumpBottom,
        InputAction::Confirm => MenuCommand::Confirm,
        InputAction::Back => MenuCommand::Back,
        _ => MenuCommand::Other,
    }
}

pub fn menu_command(action: InputAction) -> (r: MenuCommand)
    ensures
        r == menu_command_spec(action),
{
    match action {
        InputAction::LaneUp | InputAction::UiUp => MenuCommand::Up,
        InputAction::LaneDown | InputAction::UiDown => MenuCommand::Down,
        InputAction::LaneLeft | InputAction::UiLeft => MenuCommand::Left,
        InputAction::LaneRight | InputAction::UiRight => MenuCommand::Right,
        InputAction::UiSelect => MenuCommand::ToggleCharacter,
        InputAction::UiJumpTop => MenuCommand::JumpTop,
        InputAction::UiJumpBottom => MenuCommand::JumpBottom,
        InputAction::Confirm => MenuCommand::Confirm,
        InputAction::Back => MenuCommand::Back,
        _ => MenuCommand::Other,
    }
}

/// What a key does on the main or story menu: nothing, a move of the cursor to an
/// entry (with the scroll sound), a difficulty step left or right (story menu), the
/// confirmation of the entry, or going back.
#[derive(Debug, Clone, Copy, PartialEq, Eq, Structural)]
pub enum MenuStep {
    Ignore,
    Select(usize),
    Difficulty(bool),
    Confirm,
    Back,
}

/// The entry count a menu moves over: its items, or one for an empty menu.
pub open spec fn menu_count(item_count: usize) -> int {
    if item_count == 0 { 1 } else { item_count as int }
}

/// A key on the main menu: released keys, and any key while an entry is confirming,
/// are ignored; up and down wrap over the entries; confirm and back act.
pub open spec fn main_menu_step_spec(index: usize, item_count: usize, confirming: bool, pressed: bool, action: InputAction) -> MenuStep {
    if !pressed || confirming {
        MenuStep::Ignore
    } else {
        match menu_command_spec(action) {
            MenuCommand::Up => MenuStep::Select(wrap_up(index as int, menu_count(item_count)) as usize),
            MenuCommand::Down => MenuStep::Select(wrap_down(index as int, menu_count(item_count)) as usize),
            MenuCommand::Confirm => MenuStep::Confirm,
            MenuCommand::Back => MenuStep::Back,
            _ => MenuStep::Ignore,
        }
    }
}

/// A key on the story menu: as on the main menu, and left and right step the
/// difficulty (right is `Difficulty(true)`).
pub open spec fn story_menu_step_spec(index: usize, item_count: usize, confirming: bool, pressed: bool, action: InputAction) -> MenuStep {
    if pressed && !confirming && menu_command_spec(action) == MenuCommand::Left {
        MenuStep::Difficulty(false)
    } else if pressed && !confirming && menu_command_spec(action) == MenuCommand::Right {
        MenuStep::Difficulty(true)
    } else {
        main_menu_step_spec(index, item_count, confirming, pressed, action)
    }
}

fn menu_step(index: usize, item_count: usize, confirming: bool, pressed: bool, action: InputAction, difficulty: bool) -> (r: MenuStep)
    requires
        index + menu_count(item_count) <= usize::MAX,
    ensures
        r == (if difficulty {
            story_menu_step_spec(index, item_count, confirming, pressed, action)
        } else {
            main_menu_step_spec(index, item_count, confirming, pressed, action)
        }),
{
    if !pressed || confirming {
        return MenuStep::Ignore;
    }
    let count: usize = if item_count == 0 { 1 } else { item_count };
    match menu_command(action) {
        MenuCommand::Up => MenuStep::Select(menu_index_up(index, count)),
        MenuCommand::Down => MenuStep::Select(menu_index_down(index, count)),
        MenuCommand::Left if difficulty => MenuStep::Difficulty(false),
        MenuCommand::Right if difficulty => MenuStep::Difficulty(true),
        MenuCommand::Confirm => MenuStep::Confirm,
        MenuCommand::Back => MenuStep::Back,
        _ => MenuStep::Ignore,
    }
}

/// A key on the main menu with `item_count` entries and the cursor at `index`.
pub fn main_menu_step(index: usize, item_count: usize, confirming: bool, pressed: bool, action: InputAction) -> (r: MenuStep)
    requires
        index + menu_count(item_count) <= usize::MAX,
    ensures
        r == main_menu_step_spec(index, item_count, confirming, pressed, action),
{
    menu_step(index, item_count, confirming, pressed, action, false)
}

/// A key on the story menu with `item_count` weeks and the cursor at `index`.
pub fn story_menu_step(index: usize, item_count: usize, confirming: bool, pressed: bool, action: InputAction) -> (r: MenuStep)
    requires
        index + menu_count(item_count) <= usize::MAX,
    ensures
        r == story_menu_step_spec(index, item_count, confirming, pressed, action),
{
    menu_step(index, item_count, confirming, pressed, action, true)
}

/// The command a key gives the Freeplay list: none for a released key or while a
/// picked song is confirming.
pub fn song_select_command(confirming: bool, pressed: bool, action: InputAction) -> (r: Option<MenuCommand>)
    ensures
        r == (if !pressed || confirming { None } else { Some(menu_command_spec(action)) }),
{
    if !pressed || confirming {
        None
    } else {
        Some(menu_command(action))
    }
}

/// On the main and story menus the cursor stays on an entry, and an up press followed
/// by a down press (or the reverse) leaves it where it was.
pub proof fn law_menu_steps_return(index: usize, item_count: usize, action: InputAction)
    requires
        index < menu_count(item_count),
        index + menu_count(item_count) <= usize::MAX,
        menu_command_spec(action) == MenuCommand::Up || menu_command_spec(action) == MenuCommand::Down,
    ensures
        main_menu_step_spec(index, item_count, false, true, action) matches MenuStep::Select(moved)
            && moved < menu_count(item_count) && ({
                let back = if menu_command_spec(action) == MenuCommand::Up { InputAction::UiDown } else { InputAction::UiUp };
                main_menu_step_spec(moved, item_count, false, true, back) == MenuStep::Select(index)
            }),
{
    law_menu_up_down_inverse(index as int, menu_count(item_count));
}

} // verus!
