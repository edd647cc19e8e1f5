//! When the flower sound is to be heard.

use crate::actions::Actions;
use vstd::prelude::*;

verus! {

/// What the sound that was last started is doing.
#[derive(Clone, Copy, Debug, PartialEq, Eq, Structural)]
pub enum Playback {
    Queued,
    Playing,
    Pausing,
    Paused,
    Stopping,
    Stopped,
}

/// What the player of sounds is asked to do.
#[derive(Clone, Copy, Debug, PartialEq, Eq, Structural)]
pub enum SoundCommand {
    /// Leave the sound as it is.
    Nothing,
    /// Let a paused sound go on.
    Resume,
    /// Start the running sound over from its beginning.
    Rewind,
    /// Play the sound anew.
    PlayAgain,
}

/// What the flower sound is to do, given its state and the pickup signal.
pub open spec fn flower_sound(flower_gotten: bool, state: Playback) -> SoundCommand {
    match state {
        Playback::Paused => SoundCommand::Resume,
        Playback::Playing | Playback::Stopping => if flower_gotten {
            SoundCommand::Rewind
        } else {
            SoundCommand::Nothing
        },
        Playback::Stopped => if flower_gotten {
            SoundCommand::PlayAgain
        } else {
            SoundCommand::Nothing
        },
        _ => SoundCommand::Nothing,
    }
}

/// Decides what the flower sound does in this frame. The pickup signal is
/// taken down when it makes the sound start over or play anew, and stays up
/// otherwise, so that each pickup is heard once.
pub fn play_flower_sound(actions: &mut Actions, state: Playback) -> (command: SoundCommand)
    ensures
        command == flower_sound(old(actions).flower_gotten, state),
        *final(actions) == (Actions {
            flower_gotten: old(actions).flower_gotten && (command == SoundCommand::Nothing
                || command == SoundCommand::Resume),
            ..*old(actions)
        }),
{
    match state {
        Playback::Paused => SoundCommand::Resume,
        Playback::Playing | Playback::Stopping => {
            if actions.flower_gotten {
                actions.flower_gotten = false;
                SoundCommand::Rewind
            } else {
                SoundCommand::Nothing
            }
        },
        Playback::Stopped => {
            if actions.flower_gotten {
                actions.flower_gotten = false;
                SoundCommand::PlayAgain
            } else {
                SoundCommand::Nothing
            }
        },
        _ => SoundCommand::Nothing,
    }
}

} // verus!
