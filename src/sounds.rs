//! The audio cues of mode changes. Playing them is the host's part.

use vstd::prelude::*;
use crate::dispatch::ModeChange;

verus! {

/// A cue the host plays to report a change of mode.
#[derive(Clone, Copy, Debug, PartialEq, Eq, Hash, Structural)]
pub enum Sound {
    ModeActivated,
    ModeDeactivated,
}

pub open spec fn cue_of(change: ModeChange) -> Sound {
    match change {
        ModeChange::Activated => Sound::ModeActivated,
        ModeChange::Deactivated => Sound::ModeDeactivated,
    }
}

/// The cue to play when a mode becomes active.
pub fn play_mode_activated() -> (r: Sound)
    ensures
        r == cue_of(ModeChange::Activated),
{
    Sound::ModeActivated
}

/// The cue to play when the active mode is left.
pub fn play_mode_deactivated() -> (r: Sound)
    ensures
        r == cue_of(ModeChange::Deactivated),
{
    Sound::ModeDeactivated
}

} // verus!
