//! Buttons, modifiers and the keys that a keystroke can press.

use vstd::prelude::*;

verus! {

/// A button of a headphone remote.
#[derive(Clone, Copy, Debug, PartialEq, Eq, Hash, Structural)]
pub enum HeadphoneButton {
    Play,
    Up,
    Down,
}

/// A modifier key held down for the length of one keystroke.
#[derive(Clone, Copy, Debug, PartialEq, Eq, Hash, Structural)]
pub enum Flag {
    Meta,
    Alt,
    Control,
    Shift,
}

/// A set of modifiers: the order in which they were written does not matter,
/// and a repeated one counts once.
#[derive(Clone, Copy, Debug, PartialEq, Eq, Hash, Structural)]
pub struct Modifiers {
    pub meta: bool,
    pub alt: bool,
    pub control: bool,
    pub shift: bool,
}

impl Modifiers {
    pub open spec fn empty() -> Modifiers {
        Modifiers { meta: false, alt: false, control: false, shift: false }
    }

    pub open spec fn has(self, f: Flag) -> bool {
        match f {
            Flag::Meta => self.meta,
            Flag::Alt => self.alt,
            Flag::Control => self.control,
            Flag::Shift => self.shift,
        }
    }

    pub open spec fn with(self, f: Flag) -> Modifiers {
        match f {
            Flag::Meta => Modifiers { meta: true, ..self },
            Flag::Alt => Modifiers { alt: true, ..self },
            Flag::Control => Modifiers { control: true, ..self },
            Flag::Shift => Modifiers { shift: true, ..self },
        }
    }

    /// The set without any modifier.
    pub fn none() -> (r: Modifiers)
        ensures
            r == Modifiers::empty(),
    {
        Modifiers { meta: false, alt: false, control: false, shift: false }
    }

    /// The set with `f` added.
    pub fn add(self, f: Flag) -> (r: Modifiers)
        ensures
            r == self.with(f),
    {
        match f {
            Flag::Meta => Modifiers { meta: true, ..self },
            Flag::Alt => Modifiers { alt: true, ..self },
            Flag::Control => Modifiers { control: true, ..self },
            Flag::Shift => Modifiers { shift: true, ..self },
        }
    }

    /// Whether `f` is in the set.
    pub fn contains(&self, f: Flag) -> (r: bool)
        ensures
            r == self.has(f),
    {
        match f {
            Flag::Meta => self.meta,
            Flag::Alt => self.alt,
            Flag::Control => self.control,
            Flag::Shift => self.shift,
        }
    }

    /// The set of the modifiers in `flags`.
    pub fn from_flags(flags: &[Flag]) -> (r: Modifiers)
        ensures
            forall|f: Flag| #[trigger] r.has(f) <==> flags@.contains(f),
    {
        let mut r = Modifiers::none();
        let mut i: usize = 0;
        while i < flags.len()
            invariant
                i <= flags@.len(),
                forall|f: Flag| #[trigger] r.has(f) <==> flags@.subrange(0, i as int).contains(f),
            decreases flags@.len() - i,
        {
            let ghost before = r;
            r = r.add(flags[i]);
            proof {
                let prev = flags@.subrange(0, i as int);
                let next = flags@.subrange(0, i + 1);
                assert(next == prev.push(flags@[i as int]));
                assert forall|f: Flag| #[trigger] r.has(f) <==> next.contains(f) by {
                    assert(r.has(f) == (before.has(f) || f == flags@[i as int]));
                    if prev.contains(f) {
                        let k = choose|k: int| 0 <= k < prev.len() && #[trigger] prev[k] == f;
                        assert(next[k] == f);
                    }
                    if next.contains(f) {
                        let k = choose|k: int| 0 <= k < next.len() && #[trigger] next[k] == f;
                        if k < i {
                            assert(prev[k] == f);
                        }
                    }
                    if f == flags@[i as int] {
                        assert(next[i as int] == f);
                    }
                }
            }
            i = i + 1;
        }
        proof {
            assert(flags@.subrange(0, flags@.len() as int) == flags@);
        }
        r
    }
}

/// A key of the keyboard that is known by name.
#[derive(Clone, Copy, Debug, PartialEq, Eq, Hash, Structural)]
pub enum KeyCode {
    F1,
    F2,
    F3,
    F4,
    F5,
    F6,
    F7,
    F8,
    F9,
    F10,
    F11,
    F12,
    LeftArrow,
    RightArrow,
    DownArrow,
    UpArrow,
    Home,
    End,
    PageUp,
    PageDown,
    Return,
    Delete,
    Backspace,
    Escape,
    CapsLock,
    Tab,
    Space,
}

/// A system or media key (volume, brightness, playback and the like).
#[derive(Clone, Copy, Debug, PartialEq, Eq, Hash, Structural)]
pub enum NXKey {
    SoundUp,
    SoundDown,
    BrightnessUp,
    BrightnessDown,
    Help,
    Power,
    Mute,
    NumLock,
    ContrastUp,
    ContrastDown,
    Eject,
    VidMirror,
    Play,
    Next,
    Previous,
    Fast,
    Rewind,
    IlluminationUp,
    IlluminationDown,
    IlluminationToggle,
}

impl NXKey {
    pub open spec fn spec_code(self) -> i16 {
        match self {
            NXKey::SoundUp => 0,
            NXKey::SoundDown => 1,
            NXKey::BrightnessUp => 2,
            NXKey::BrightnessDown => 3,
            NXKey::Help => 5,
            NXKey::Power => 6,
            NXKey::Mute => 7,
            NXKey::NumLock => 10,
            NXKey::ContrastUp => 11,
            NXKey::ContrastDown => 12,
            NXKey::Eject => 14,
            NXKey::VidMirror => 15,
            NXKey::Play => 16,
            NXKey::Next => 17,
            NXKey::Previous => 18,
            NXKey::Fast => 19,
            NXKey::Rewind => 20,
            NXKey::IlluminationUp => 21,
            NXKey::IlluminationDown => 22,
            NXKey::IlluminationToggle => 23,
        }
    }

    /// The key's number in the system's table of special keys (`NX_KEYTYPE_*`).
    pub fn code(self) -> (r: i16)
        ensures
            r == self.spec_code(),
    {
        match self {
            NXKey::SoundUp => 0,
            NXKey::SoundDown => 1,
            NXKey::BrightnessUp => 2,
            NXKey::BrightnessDown => 3,
            NXKey::Help => 5,
            NXKey::Power => 6,
            NXKey::Mute => 7,
            NXKey::NumLock => 10,
            NXKey::ContrastUp => 11,
            NXKey::ContrastDown => 12,
            NXKey::Eject => 14,
            NXKey::VidMirror => 15,
            NXKey::Play => 16,
            NXKey::Next => 17,
            NXKey::Previous => 18,
            NXKey::Fast => 19,
            NXKey::Rewind => 20,
            NXKey::IlluminationUp => 21,
            NXKey::IlluminationDown => 22,
            NXKey::IlluminationToggle => 23,
        }
    }
}

/// What one keystroke presses.
#[derive(Clone, Copy, Debug, PartialEq, Eq, Hash, Structural)]
pub enum KeyboardKey {
    Character(char),
    KeyCode(KeyCode),
    NXKey(NXKey),
    Nop,
}

/// One keystroke: a key, pressed with a set of modifiers that hold for this
/// keystroke only.
#[derive(Clone, Copy, Debug, PartialEq, Eq, Hash, Structural)]
pub struct KeyboardKeyWithModifiers {
    pub key: KeyboardKey,
    pub flags: Modifiers,
}

impl KeyboardKeyWithModifiers {
    /// The keystroke of `key` with the modifiers in `modifiers`.
    pub fn new(key: KeyboardKey, modifiers: Vec<Flag>) -> (r: KeyboardKeyWithModifiers)
        ensures
            r.key == key,
            forall|f: Flag| #[trigger] r.flags.has(f) <==> modifiers@.contains(f),
    {
        KeyboardKeyWithModifiers { key, flags: Modifiers::from_flags(modifiers.as_slice()) }
    }
}

} // verus!
