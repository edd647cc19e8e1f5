//! What a click in the menu brings about.

use crate::actions::{Actions, InputDevice};
use vstd::prelude::*;

verus! {

/// How the pointer stands to a button.
#[derive(Clone, Copy, Debug, PartialEq, Eq, Structural)]
pub enum Interaction {
    Pressed,
    Hovered,
    Idle,
}

/// What a button of the menu is for.
#[derive(Clone, Copy, Debug, PartialEq, Eq, Structural)]
pub struct MenuButton {
    /// Whether the button leads on to another state of the game.
    pub changes_state: bool,
    /// The device that the button chooses, if it chooses one.
    pub changes_input: Option<InputDevice>,
    /// Whether the button opens a link.
    pub opens_link: bool,
}

/// What the menu is to do about a button.
#[derive(Clone, Copy, Debug, PartialEq, Eq, Structural)]
pub enum MenuCommand {
    /// Go on to the state that the button names.
    ChangeState,
    /// Open the button's link.
    OpenLink,
    /// Show the button in its hovered colour.
    ShowHovered,
    /// Show the button in its normal colour.
    ShowNormal,
    Nothing,
}

/// What the menu does about a button in the given interaction.
pub open spec fn menu_command(interaction: Interaction, button: MenuButton) -> MenuCommand {
    match interaction {
        Interaction::Pressed => if button.changes_state {
            MenuCommand::ChangeState
        } else if button.opens_link {
            MenuCommand::OpenLink
        } else {
            MenuCommand::Nothing
        },
        Interaction::Hovered => MenuCommand::ShowHovered,
        Interaction::Idle => MenuCommand::ShowNormal,
    }
}

/// Answers an interaction with a button. A pressed button that leads on
/// also sets the input device, if it chooses one; nothing else of `actions`
/// changes.
pub fn click_play_button(actions: &mut Actions, interaction: Interaction, button: MenuButton) -> (command:
    MenuCommand)
    ensures
        command == menu_command(interaction, button),
        *final(actions) == (Actions {
            input_device: if command == MenuCommand::ChangeState && button.changes_input
                is Some {
                button.changes_input->Some_0
            } else {
                old(actions).input_device
            },
            ..*old(actions)
        }),
{
    match interaction {
        Interaction::Pressed => {
            if button.changes_state {
                if let Some(device) = button.changes_input {
                    actions.input_device = device;
                }
                MenuCommand::ChangeState
            } else if button.opens_link {
                MenuCommand::OpenLink
            } else {
                MenuCommand::Nothing
            }
        },
        Interaction::Hovered => MenuCommand::ShowHovered,
        Interaction::Idle => MenuCommand::ShowNormal,
    }
}

} // verus!
