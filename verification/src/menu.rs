use vstd::prelude::*;
use crate::text::text_eq;

verus! {

/// What the menu asks for.
#[derive(Clone, Copy, Debug, PartialEq, Eq, Structural)]
pub enum MenuAction {
    Nothing,
    NewGame,
    LoadGame,
    Exit,
}

/// The screen that the menu shows.
#[derive(Clone, Copy, Debug, PartialEq, Eq, Structural)]
pub enum MenuState {
    Main,
    NewGame,
    LoadGame,
}

/// What a click on the button with the given label asks for.
pub open spec fn action_of(label: Seq<char>) -> MenuAction {
    if label == "NEW GAME"@ {
        MenuAction::NewGame
    } else if label == "EXIT"@ {
        MenuAction::Exit
    } else {
        MenuAction::Nothing
    }
}

/// Computes [`action_of`].
pub fn button_action(label: &str) -> (action: MenuAction)
    ensures
        action == action_of(label@),
{
    if text_eq(label, "NEW GAME") {
        MenuAction::NewGame
    } else if text_eq(label, "EXIT") {
        MenuAction::Exit
    } else {
        MenuAction::Nothing
    }
}

} // verus!
