//! What a trigger is mapped to, and the resolution of keystroke actions.

use vstd::prelude::*;
use crate::error::{Failure, Expected, ParseError, lemma_merge_no_stop, reports, stop};
use crate::keys::KeyboardKeyWithModifiers;
use crate::keystroke::{keystrokes, spec_keystrokes};
use crate::text::chars_of;

verus! {

/// How an action's text is read: as keystrokes (`map`), or as a shell
/// command (`cmd`).
#[derive(Clone, Copy, Debug, PartialEq, Eq, Hash, Structural)]
pub enum MapKind {
    Keys,
    Command,
}

/// What pressing a trigger does, seen from the host: keystrokes, a command,
/// or a mode switch.
#[derive(Clone, Copy, Debug, PartialEq, Eq, Hash, Structural)]
pub enum ActionKind {
    Keys,
    Command,
    Mode,
}

/// An action: raw text (a command, or keystrokes not yet resolved), or the
/// keystrokes that a `map` action's text describes.
#[derive(Debug, PartialEq, Eq)]
pub enum Action {
    String(String),
    Keys(Vec<KeyboardKeyWithModifiers>),
}

pub enum ActionView {
    String(Seq<char>),
    Keys(Seq<KeyboardKeyWithModifiers>),
}

impl View for Action {
    type V = ActionView;

    open spec fn view(&self) -> ActionView {
        match self {
            Action::String(s) => ActionView::String(s@),
            Action::Keys(k) => ActionView::Keys(k@),
        }
    }
}

/// An action with the kind of declaration that gave it.
#[derive(Debug, PartialEq, Eq)]
pub struct MapAction {
    pub action: Action,
    pub kind: MapKind,
}

pub struct MapActionView {
    pub action: ActionView,
    pub kind: MapKind,
}

impl View for MapAction {
    type V = MapActionView;

    open spec fn view(&self) -> MapActionView {
        MapActionView { action: self.action@, kind: self.kind }
    }
}

/// The action once resolved: the text of a `map` action becomes its
/// keystrokes. A command, an action already resolved, and a text that is not
/// keystrokes are kept as they are; such a text stays raw, and running it does
/// nothing.
pub open spec fn resolved(a: MapActionView) -> MapActionView {
    match a.kind {
        MapKind::Keys => match a.action {
            ActionView::String(t) => match spec_keystrokes(t) {
                Ok(k) => MapActionView { action: ActionView::Keys(k), kind: MapKind::Keys },
                Err(_) => a,
            },
            ActionView::Keys(_) => a,
        },
        MapKind::Command => a,
    }
}

impl MapAction {
    /// Resolves a `map` action's text into keystrokes.
    pub fn parse(&mut self)
        ensures
            final(self)@ == resolved(old(self)@),
    {
        match self.kind {
            MapKind::Keys => {
                let keys = match &self.action {
                    Action::String(s) => {
                        let cs = chars_of(s.as_str());
                        match keystrokes(&cs) {
                            Ok(v) => Some(v),
                            Err(_) => None,
                        }
                    },
                    Action::Keys(_) => None,
                };
                if let Some(v) = keys {
                    self.action = Action::Keys(v);
                }
            },
            MapKind::Command => {},
        }
    }
}

/// Reads the whole of `text` as keystrokes. The error gives the position of
/// the first keystroke that cannot be read.
pub fn action_map(text: &str) -> (r: Result<Action, ParseError>)
    requires
        text@.len() < usize::MAX,
    ensures
        match spec_keystrokes(text@) {
            Ok(k) => r matches Ok(a) && a@ == ActionView::Keys(k),
            Err(p) => r matches Err(e) && reports(e, text@, stop(p, Expected::Keystroke)),
        },
{
    let cs = chars_of(text);
    match keystrokes(&cs) {
        Ok(v) => Ok(Action::Keys(v)),
        Err(p) => {
            let mut f = Failure::new();
            f.note(p, Expected::Keystroke);
            proof {
                lemma_merge_no_stop(stop(p as int, Expected::Keystroke));
            }
            Err(f.into_error(&cs))
        },
    }
}

} // verus!
