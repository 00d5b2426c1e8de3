//! The decisions around a round: which screen a menu choice leads to, and
//! what a key press does to the round.

use crate::round::{restarted, RoundState, RoundView};
use vstd::prelude::*;

verus! {

/// The screen the program is on.
#[derive(Clone, Copy, Debug, PartialEq, Eq, Structural)]
pub enum AppMode {
    /// The main menu.
    Menu,
    /// A typing round.
    Typing,
    /// The list of past rounds.
    Log,
    /// Leaving the program.
    Exit,
}

/// The menu entry that starts typing.
pub const MENU_START: usize = 0;

/// The menu entry that shows the log.
pub const MENU_LOG: usize = 2;

/// The menu entry that leaves the program.
pub const MENU_EXIT: usize = 5;

/// The screen that a menu choice leads to, and whether the choice opens a
/// screen of its own.
///
/// The entries for typing and for the log open their screens. The exit
/// entry, or leaving the menu without a choice, ends the program. Every
/// other entry stays on the menu.
pub fn select_mode(selection: Option<usize>) -> (r: (AppMode, bool))
    ensures
        selection == Some(MENU_START) ==> r == (AppMode::Typing, true),
        selection == Some(MENU_LOG) ==> r == (AppMode::Log, true),
        selection == Some(MENU_EXIT) || selection is None ==> r == (AppMode::Exit, false),
        selection is Some && selection != Some(MENU_START) && selection != Some(MENU_LOG)
            && selection != Some(MENU_EXIT) ==> r == (AppMode::Menu, false),
{
    match selection {
        Some(choice) => {
            if choice == MENU_START {
                (AppMode::Typing, true)
            } else if choice == MENU_LOG {
                (AppMode::Log, true)
            } else if choice == MENU_EXIT {
                (AppMode::Exit, false)
            } else {
                (AppMode::Menu, false)
            }
        },
        None => (AppMode::Exit, false),
    }
}

/// A key press, as far as a round tells keys apart.
#[derive(Clone, Copy, Debug, PartialEq, Eq, Structural)]
pub enum KeyInput {
    /// The escape key.
    Escape,
    /// The backspace key.
    Backspace,
    /// A key that types a character.
    Char(char),
    /// Any other key.
    Other,
}

/// What is to be done after a key press.
#[derive(Clone, Copy, Debug, PartialEq, Eq, Structural)]
pub enum KeyAction {
    /// Go on with the round.
    Continue,
    /// The phrase is complete: score the round and load the next phrase.
    RoundComplete,
    /// Leave the typing screen.
    Quit,
}

/// The round after the key press `key`.
pub open spec fn after_key(round: RoundView, key: KeyInput) -> RoundView {
    match key {
        KeyInput::Escape => RoundView::start(restarted(round.units)),
        KeyInput::Backspace => round.backspace(),
        KeyInput::Char(c) => round.key(c),
        KeyInput::Other => round,
    }
}

/// What is to be done after the key press `key`.
pub open spec fn action_of(round: RoundView, key: KeyInput) -> KeyAction {
    match key {
        KeyInput::Escape => KeyAction::Quit,
        KeyInput::Char(c) => if round.key(c).is_complete() {
            KeyAction::RoundComplete
        } else {
            KeyAction::Continue
        },
        _ => KeyAction::Continue,
    }
}

/// Applies one key press to the round and says what is to be done next.
///
/// Escape abandons the round: it is started over and the typing screen is
/// left. Backspace and character keys go to the input engine; a character
/// key that leaves the phrase complete ends the round. Other keys do
/// nothing.
pub fn handle_key(round: &mut RoundState, key: KeyInput) -> (action: KeyAction)
    requires
        old(round).wf(),
        key is Char ==> old(round)@.mistakes < u32::MAX,
    ensures
        final(round).wf(),
        final(round)@ == after_key(old(round)@, key),
        action == action_of(old(round)@, key),
        key is Char ==> final(round).start_time() is Some,
        !(key is Char) || old(round).start_time() is Some ==> final(round).start_time() == old(
            round,
        ).start_time(),
{
    match key {
        KeyInput::Escape => {
            round.restart();
            KeyAction::Quit
        },
        KeyInput::Backspace => {
            round.handle_backspace();
            KeyAction::Continue
        },
        KeyInput::Char(c) => {
            round.handle_char_input(c);
            if round.is_question_complete() {
                KeyAction::RoundComplete
            } else {
                KeyAction::Continue
            }
        },
        KeyInput::Other => KeyAction::Continue,
    }
}

} // verus!
