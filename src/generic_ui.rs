use vstd::prelude::*;
use crate::app_state::AppState;
use crate::game::Situation;

verus! {

/// What pressing a button does.
pub enum ButtonActionType {
    /// Ask for a move to another screen.
    ChangeAppState(AppState),
    /// End the round with the given failure message.
    EndGame(String),
    /// Delay the end of the round for one situation.
    ProlongInevitable(Situation),
}

pub struct ButtonAction {
    pub action_type: ButtonActionType,
}

/// The colour a button shows.
#[derive(Debug, Clone, Copy, PartialEq, Eq, Structural)]
pub enum ButtonColour {
    Normal,
    Hovered,
    Pressed,
}

/// How the pointer deals with a button in this frame.
#[derive(Debug, Clone, Copy, PartialEq, Eq, Structural)]
pub enum Interaction {
    Pressed,
    Hovered,
    Idle,
}

/// A button of the current screen.
pub struct Button {
    pub label: String,
    pub action: ButtonAction,
    pub colour: ButtonColour,
}

pub open spec fn is_end_game(a: ButtonActionType, message: Seq<char>) -> bool {
    a matches ButtonActionType::EndGame(m) && m@ == message
}

/// Button `b` shows `text` in the idle colour.
pub open spec fn shows(b: Button, text: Seq<char>) -> bool {
    b.label@ == text && b.colour == ButtonColour::Normal
}

/// Adds a button showing `text` that does `action_type` when pressed.
pub fn spawn_button(buttons: &mut Vec<Button>, text: &str, action_type: ButtonActionType)
    ensures
        final(buttons)@.len() == old(buttons)@.len() + 1,
        final(buttons)@.subrange(0, old(buttons)@.len() as int) == old(buttons)@,
        shows(final(buttons)@.last(), text@),
        final(buttons)@.last().action.action_type == action_type,
{
    let b = Button {
        label: text.to_string(),
        action: ButtonAction { action_type },
        colour: ButtonColour::Normal,
    };
    buttons.push(b);
    assert(buttons@.subrange(0, old(buttons)@.len() as int) =~= old(buttons)@);
}

} // verus!
