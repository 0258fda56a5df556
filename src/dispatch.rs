//! The dispatch state machine: what a pressed trigger does, given the active
//! mode.

use vstd::prelude::*;
use crate::action::{MapAction, MapActionView};
use crate::group::{MapGroup, MapGroupView};
use crate::keys::HeadphoneButton;
use crate::table::same_trigger;

verus! {

/// A change of the active mode.
#[derive(Clone, Copy, Debug, PartialEq, Eq, Hash, Structural)]
pub enum ModeChange {
    Activated,
    Deactivated,
}

/// The state kept between presses: the trigger of the active mode, if any.
#[derive(Debug, Default)]
pub struct DispatchState {
    pub in_mode: Option<Vec<HeadphoneButton>>,
}

impl View for DispatchState {
    type V = Option<Seq<HeadphoneButton>>;

    open spec fn view(&self) -> Option<Seq<HeadphoneButton>> {
        match &self.in_mode {
            Some(m) => Some(m@),
            None => None,
        }
    }
}

/// What one press does: the action to run, if any, and the change of mode,
/// if any. Neither means that nothing happens.
#[derive(Debug)]
pub struct KeyActionResult<'a> {
    pub action: Option<&'a MapAction>,
    pub mode_change: Option<ModeChange>,
}

pub struct Outcome {
    pub action: Option<MapActionView>,
    pub mode_change: Option<ModeChange>,
}

impl<'a> View for KeyActionResult<'a> {
    type V = Outcome;

    open spec fn view(&self) -> Outcome {
        Outcome {
            action: match self.action {
                Some(a) => Some(a@),
                None => None,
            },
            mode_change: self.mode_change,
        }
    }
}

/// The action that `t` runs in state `state`: from the active mode's table,
/// or from the top-level table when no mode is active.
pub open spec fn action_for(
    g: MapGroupView,
    state: Option<Seq<HeadphoneButton>>,
    t: Seq<HeadphoneButton>,
) -> Option<MapActionView> {
    match state {
        Some(m) => if g.modes.contains_key(m) && g.modes[m].contains_key(t) {
            Some(g.modes[m][t])
        } else {
            None
        },
        None => if g.maps.contains_key(t) {
            Some(g.maps[t])
        } else {
            None
        },
    }
}

/// One press of trigger `t` in state `state`: the next state and the outcome.
/// Pressing the active mode's trigger leaves the mode and does nothing else.
/// Otherwise the action for `t` runs, and if `t` is a mode's trigger that mode
/// becomes the active one, also when another mode was active.
pub open spec fn step(
    g: MapGroupView,
    state: Option<Seq<HeadphoneButton>>,
    t: Seq<HeadphoneButton>,
) -> (Option<Seq<HeadphoneButton>>, Outcome) {
    if state == Some(t) {
        (None, Outcome { action: None, mode_change: Some(ModeChange::Deactivated) })
    } else if g.modes.contains_key(t) {
        (Some(t), Outcome { action: action_for(g, state, t), mode_change: Some(ModeChange::Activated) })
    } else {
        (state, Outcome { action: action_for(g, state, t), mode_change: None })
    }
}

impl DispatchState {
    /// The state at start: no mode is active.
    pub fn new() -> (r: DispatchState)
        ensures
            r@ is None,
    {
        DispatchState { in_mode: None }
    }
}

fn copy_trigger(t: &[HeadphoneButton]) -> (r: Vec<HeadphoneButton>)
    ensures
        r@ == t@,
{
    let mut r: Vec<HeadphoneButton> = Vec::new();
    let mut i: usize = 0;
    while i < t.len()
        invariant
            i <= t@.len(),
            r@ == t@.subrange(0, i as int),
        decreases t@.len() - i,
    {
        r.push(t[i]);
        i = i + 1;
        assert(r@ =~= t@.subrange(0, i as int));
    }
    assert(r@ =~= t@);
    r
}

/// Handles one press of `trigger`: updates the active mode and says what to
/// run. It answers every trigger, in every state.
pub fn run_key_action<'a>(
    state: &mut DispatchState,
    group: &'a MapGroup,
    trigger: &[HeadphoneButton],
) -> (r: KeyActionResult<'a>)
    requires
        group.wf(),
    ensures
        (final(state)@, r@) == step(group@, old(state)@, trigger@),
{
    let mut action: Option<&'a MapAction> = None;
    match &state.in_mode {
        Some(m) => {
            if same_trigger(m.as_slice(), trigger) {
                state.in_mode = None;
                return KeyActionResult { action: None, mode_change: Some(ModeChange::Deactivated) };
            }
            if let Some(table) = group.mode(m.as_slice()) {
                action = table.get(trigger);
            }
        },
        None => {
            action = group.maps().get(trigger);
        },
    }
    if group.mode(trigger).is_some() {
        state.in_mode = Some(copy_trigger(trigger));
        KeyActionResult { action, mode_change: Some(ModeChange::Activated) }
    } else {
        KeyActionResult { action, mode_change: None }
    }
}

} // verus!
