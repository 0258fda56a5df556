//! The keystroke language of `map` actions.
//!
//! An action's whole text is read as a sequence of keystrokes; a text that is
//! not keystrokes from end to end is not resolved. A keystroke is a literal
//! character (`\\` stands for a backslash and `\<` for `<`), or a token between
//! `<` and `>`: modifiers (`D-`, `A-`, `C-`, `S-`) before a key name, modifiers
//! before a literal character, or `Nop`. Names and modifiers are read without
//! regard to ASCII case. A name is taken only where `>` follows it directly, so
//! that `<F10>` is the tenth function key and not the first.

use vstd::prelude::*;
use crate::keys::{Flag, KeyCode, KeyboardKey, KeyboardKeyWithModifiers, Modifiers, NXKey};
use crate::text::{same_letter, same_letter_exec, word_at, word_at_exec};

verus! {

/// The number of key names.
pub const NAMED_KEYS: usize = 49;

/// The key names, in the order in which they are tried: keyboard keys, then
/// system and media keys.
pub open spec fn named_key_entry(k: usize) -> (Seq<char>, KeyboardKey) {
    match k {
        0 => ("F1"@, KeyboardKey::KeyCode(KeyCode::F1)),
        1 => ("F2"@, KeyboardKey::KeyCode(KeyCode::F2)),
        2 => ("F3"@, KeyboardKey::KeyCode(KeyCode::F3)),
        3 => ("F4"@, KeyboardKey::KeyCode(KeyCode::F4)),
        4 => ("F5"@, KeyboardKey::KeyCode(KeyCode::F5)),
        5 => ("F6"@, KeyboardKey::KeyCode(KeyCode::F6)),
        6 => ("F7"@, KeyboardKey::KeyCode(KeyCode::F7)),
        7 => ("F8"@, KeyboardKey::KeyCode(KeyCode::F8)),
        8 => ("F9"@, KeyboardKey::KeyCode(KeyCode::F9)),
        9 => ("F10"@, KeyboardKey::KeyCode(KeyCode::F10)),
        10 => ("F11"@, KeyboardKey::KeyCode(KeyCode::F11)),
        11 => ("F12"@, KeyboardKey::KeyCode(KeyCode::F12)),
        12 => ("Left"@, KeyboardKey::KeyCode(KeyCode::LeftArrow)),
        13 => ("Right"@, KeyboardKey::KeyCode(KeyCode::RightArrow)),
        14 => ("Down"@, KeyboardKey::KeyCode(KeyCode::DownArrow)),
        15 => ("Up"@, KeyboardKey::KeyCode(KeyCode::UpArrow)),
        16 => ("Home"@, KeyboardKey::KeyCode(KeyCode::Home)),
        17 => ("End"@, KeyboardKey::KeyCode(KeyCode::End)),
        18 => ("PageUp"@, KeyboardKey::KeyCode(KeyCode::PageUp)),
        19 => ("PageDown"@, KeyboardKey::KeyCode(KeyCode::PageDown)),
        20 => ("Return"@, KeyboardKey::KeyCode(KeyCode::Return)),
        21 => ("Enter"@, KeyboardKey::KeyCode(KeyCode::Return)),
        22 => ("CR"@, KeyboardKey::KeyCode(KeyCode::Return)),
        23 => ("Del"@, KeyboardKey::KeyCode(KeyCode::Delete)),
        24 => ("BS"@, KeyboardKey::KeyCode(KeyCode::Backspace)),
        25 => ("Esc"@, KeyboardKey::KeyCode(KeyCode::Escape)),
        26 => ("CapsLock"@, KeyboardKey::KeyCode(KeyCode::CapsLock)),
        27 => ("Tab"@, KeyboardKey::KeyCode(KeyCode::Tab)),
        28 => ("Space"@, KeyboardKey::KeyCode(KeyCode::Space)),
        29 => ("VolumeUp"@, KeyboardKey::NXKey(NXKey::SoundUp)),
        30 => ("VolumeDown"@, KeyboardKey::NXKey(NXKey::SoundDown)),
        31 => ("Mute"@, KeyboardKey::NXKey(NXKey::Mute)),
        32 => ("BrightnessUp"@, KeyboardKey::NXKey(NXKey::BrightnessUp)),
        33 => ("BrightnessDown"@, KeyboardKey::NXKey(NXKey::BrightnessDown)),
        34 => ("Help"@, KeyboardKey::NXKey(NXKey::Help)),
        35 => ("Power"@, KeyboardKey::NXKey(NXKey::Power)),
        36 => ("NumLock"@, KeyboardKey::NXKey(NXKey::NumLock)),
        37 => ("ContrastUp"@, KeyboardKey::NXKey(NXKey::ContrastUp)),
        38 => ("ContrastDown"@, KeyboardKey::NXKey(NXKey::ContrastDown)),
        39 => ("Eject"@, KeyboardKey::NXKey(NXKey::Eject)),
        40 => ("VidMirror"@, KeyboardKey::NXKey(NXKey::VidMirror)),
        41 => ("Play"@, KeyboardKey::NXKey(NXKey::Play)),
        42 => ("Next"@, KeyboardKey::NXKey(NXKey::Next)),
        43 => ("Previous"@, KeyboardKey::NXKey(NXKey::Previous)),
        44 => ("Fast"@, KeyboardKey::NXKey(NXKey::Fast)),
        45 => ("Rewind"@, KeyboardKey::NXKey(NXKey::Rewind)),
        46 => ("IlluminationUp"@, KeyboardKey::NXKey(NXKey::IlluminationUp)),
        47 => ("IlluminationDown"@, KeyboardKey::NXKey(NXKey::IlluminationDown)),
        _ => ("IlluminationToggle"@, KeyboardKey::NXKey(NXKey::IlluminationToggle)),
    }
}

/// The modifier written as a letter and `-` at position `j`.
pub open spec fn key_modifier_at(s: Seq<char>, j: int) -> Option<Flag> {
    if 0 <= j && j + 1 < s.len() && s[j + 1] == '-' {
        if same_letter(s[j], 'd') {
            Some(Flag::Meta)
        } else if same_letter(s[j], 'a') {
            Some(Flag::Alt)
        } else if same_letter(s[j], 'c') {
            Some(Flag::Control)
        } else if same_letter(s[j], 's') {
            Some(Flag::Shift)
        } else {
            None
        }
    } else {
        None
    }
}

/// The modifiers written one after another from position `j`, and where they
/// end.
pub open spec fn modifiers_from(s: Seq<char>, j: int) -> (Modifiers, int)
    decreases s.len() - j,
{
    match key_modifier_at(s, j) {
        Some(f) => {
            let (m, e) = modifiers_from(s, j + 2);
            (m.with(f), e)
        },
        None => (Modifiers::empty(), j),
    }
}

/// The first key name, from entry `k` of the table on, that stands at
/// position `j` with `>` right after it; the key and the position after `>`.
pub open spec fn named_key_from(s: Seq<char>, j: int, k: int) -> Option<(KeyboardKey, int)>
    decreases NAMED_KEYS - k,
{
    if k < 0 || k >= NAMED_KEYS {
        None
    } else {
        let (name, key) = named_key_entry(k as usize);
        let e = j + name.len();
        if word_at(s, j, name) && e < s.len() && s[e] == '>' {
            Some((key, e + 1))
        } else {
            named_key_from(s, j, k + 1)
        }
    }
}

/// A literal character at position `i`: one of the two escapes, or any
/// character but `\` and `<`.
pub open spec fn literal_at(s: Seq<char>, i: int) -> Option<(char, int)> {
    if i < 0 || i >= s.len() {
        None
    } else if s[i] == '\\' {
        if i + 1 < s.len() && (s[i + 1] == '\\' || s[i + 1] == '<') {
            Some((s[i + 1], i + 2))
        } else {
            None
        }
    } else if s[i] == '<' {
        None
    } else {
        Some((s[i], i + 1))
    }
}

/// The keystroke of a token whose text starts at `j`, just after its `<`.
pub open spec fn bracket_key(s: Seq<char>, j: int) -> Option<(KeyboardKeyWithModifiers, int)> {
    let (m, k) = modifiers_from(s, j);
    match named_key_from(s, k, 0) {
        Some((key, e)) => Some((KeyboardKeyWithModifiers { key, flags: m }, e)),
        None => {
            let literal = if k > j {
                match literal_at(s, k) {
                    Some((c, e)) => if e < s.len() && s[e] == '>' {
                        Some((KeyboardKeyWithModifiers { key: KeyboardKey::Character(c), flags: m }, e + 1))
                    } else {
                        None
                    },
                    None => None,
                }
            } else {
                None
            };
            match literal {
                Some(r) => Some(r),
                None => if word_at(s, j, "nop"@) && j + 3 < s.len() && s[j + 3] == '>' {
                    Some((KeyboardKeyWithModifiers { key: KeyboardKey::Nop, flags: Modifiers::empty() }, j + 4))
                } else {
                    None
                },
            }
        },
    }
}

/// The keystroke written at position `i`, and where it ends.
pub open spec fn keystroke_at(s: Seq<char>, i: int) -> Option<(KeyboardKeyWithModifiers, int)> {
    if 0 <= i < s.len() && s[i] == '<' {
        bracket_key(s, i + 1)
    } else {
        match literal_at(s, i) {
            Some((c, e)) => Some((KeyboardKeyWithModifiers { key: KeyboardKey::Character(c), flags: Modifiers::empty() }, e)),
            None => None,
        }
    }
}

/// The keystrokes written from position `i` to the end of `s`, or the
/// position of the first one that cannot be read.
pub open spec fn keystrokes_from(s: Seq<char>, i: int) -> Result<Seq<KeyboardKeyWithModifiers>, int>
    decreases s.len() - i,
{
    if i < 0 || i >= s.len() {
        Ok(Seq::empty())
    } else {
        match keystroke_at(s, i) {
            Some((k, e)) => if i < e <= s.len() {
                match keystrokes_from(s, e) {
                    Ok(rest) => Ok(seq![k] + rest),
                    Err(p) => Err(p),
                }
            } else {
                Err(i)
            },
            None => Err(i),
        }
    }
}

/// The keystrokes that the whole of `s` describes, or the position of the
/// first one that cannot be read.
pub open spec fn spec_keystrokes(s: Seq<char>) -> Result<Seq<KeyboardKeyWithModifiers>, int> {
    keystrokes_from(s, 0)
}

/// Entry `k` of the table of key names.
fn named_key_table(k: usize) -> (r: (&'static str, KeyboardKey))
    requires
        k < NAMED_KEYS,
    ensures
        r.0@ == named_key_entry(k).0,
        r.1 == named_key_entry(k).1,
{
    match k {
        0 => ("F1", KeyboardKey::KeyCode(KeyCode::F1)),
        1 => ("F2", KeyboardKey::KeyCode(KeyCode::F2)),
        2 => ("F3", KeyboardKey::KeyCode(KeyCode::F3)),
        3 => ("F4", KeyboardKey::KeyCode(KeyCode::F4)),
        4 => ("F5", KeyboardKey::KeyCode(KeyCode::F5)),
        5 => ("F6", KeyboardKey::KeyCode(KeyCode::F6)),
        6 => ("F7", KeyboardKey::KeyCode(KeyCode::F7)),
        7 => ("F8", KeyboardKey::KeyCode(KeyCode::F8)),
        8 => ("F9", KeyboardKey::KeyCode(KeyCode::F9)),
        9 => ("F10", KeyboardKey::KeyCode(KeyCode::F10)),
        10 => ("F11", KeyboardKey::KeyCode(KeyCode::F11)),
        11 => ("F12", KeyboardKey::KeyCode(KeyCode::F12)),
        12 => ("Left", KeyboardKey::KeyCode(KeyCode::LeftArrow)),
        13 => ("Right", KeyboardKey::KeyCode(KeyCode::RightArrow)),
        14 => ("Down", KeyboardKey::KeyCode(KeyCode::DownArrow)),
        15 => ("Up", KeyboardKey::KeyCode(KeyCode::UpArrow)),
        16 => ("Home", KeyboardKey::KeyCode(KeyCode::Home)),
        17 => ("End", KeyboardKey::KeyCode(KeyCode::End)),
        18 => ("PageUp", KeyboardKey::KeyCode(KeyCode::PageUp)),
        19 => ("PageDown", KeyboardKey::KeyCode(KeyCode::PageDown)),
        20 => ("Return", KeyboardKey::KeyCode(KeyCode::Return)),
        21 => ("Enter", KeyboardKey::KeyCode(KeyCode::Return)),
        22 => ("CR", KeyboardKey::KeyCode(KeyCode::Return)),
        23 => ("Del", KeyboardKey::KeyCode(KeyCode::Delete)),
        24 => ("BS", KeyboardKey::KeyCode(KeyCode::Backspace)),
        25 => ("Esc", KeyboardKey::KeyCode(KeyCode::Escape)),
        26 => ("CapsLock", KeyboardKey::KeyCode(KeyCode::CapsLock)),
        27 => ("Tab", KeyboardKey::KeyCode(KeyCode::Tab)),
        28 => ("Space", KeyboardKey::KeyCode(KeyCode::Space)),
        29 => ("VolumeUp", KeyboardKey::NXKey(NXKey::SoundUp)),
        30 => ("VolumeDown", KeyboardKey::NXKey(NXKey::SoundDown)),
        31 => ("Mute", KeyboardKey::NXKey(NXKey::Mute)),
        32 => ("BrightnessUp", KeyboardKey::NXKey(NXKey::BrightnessUp)),
        33 => ("BrightnessDown", KeyboardKey::NXKey(NXKey::BrightnessDown)),
        34 => ("Help", KeyboardKey::NXKey(NXKey::Help)),
        35 => ("Power", KeyboardKey::NXKey(NXKey::Power)),
        36 => ("NumLock", KeyboardKey::NXKey(NXKey::NumLock)),
        37 => ("ContrastUp", KeyboardKey::NXKey(NXKey::ContrastUp)),
        38 => ("ContrastDown", KeyboardKey::NXKey(NXKey::ContrastDown)),
        39 => ("Eject", KeyboardKey::NXKey(NXKey::Eject)),
        40 => ("VidMirror", KeyboardKey::NXKey(NXKey::VidMirror)),
        41 => ("Play", KeyboardKey::NXKey(NXKey::Play)),
        42 => ("Next", KeyboardKey::NXKey(NXKey::Next)),
        43 => ("Previous", KeyboardKey::NXKey(NXKey::Previous)),
        44 => ("Fast", KeyboardKey::NXKey(NXKey::Fast)),
        45 => ("Rewind", KeyboardKey::NXKey(NXKey::Rewind)),
        46 => ("IlluminationUp", KeyboardKey::NXKey(NXKey::IlluminationUp)),
        47 => ("IlluminationDown", KeyboardKey::NXKey(NXKey::IlluminationDown)),
        _ => ("IlluminationToggle", KeyboardKey::NXKey(NXKey::IlluminationToggle)),
    }
}

/// The modifier written at position `j`, if any.
pub fn key_modifier(s: &Vec<char>, j: usize) -> (r: Option<Flag>)
    ensures
        r == key_modifier_at(s@, j as int),
{
    if j < s.len() && s.len() - j > 1 && s[j + 1] == '-' {
        let c = s[j];
        if same_letter_exec(c, 'd') {
            Some(Flag::Meta)
        } else if same_letter_exec(c, 'a') {
            Some(Flag::Alt)
        } else if same_letter_exec(c, 'c') {
            Some(Flag::Control)
        } else if same_letter_exec(c, 's') {
            Some(Flag::Shift)
        } else {
            None
        }
    } else {
        None
    }
}

/// The modifiers written from position `j` on, and where they end.
fn key_modifiers(s: &Vec<char>, j: usize) -> (r: (Modifiers, usize))
    requires
        j <= s@.len(),
    ensures
        (r.0, r.1 as int) == modifiers_from(s@, j as int),
        j <= r.1 <= s@.len(),
    decreases s@.len() - j,
{
    let n = s.len();
    match key_modifier(s, j) {
        Some(f) => {
            let (m, e) = key_modifiers(s, j + 2);
            (m.add(f), e)
        },
        None => (Modifiers::none(), j),
    }
}

/// The key whose name stands at position `j`, followed by `>`; the key and
/// the position after `>`.
pub fn named_key(s: &Vec<char>, j: usize) -> (r: Option<(KeyboardKey, usize)>)
    requires
        j <= s@.len(),
    ensures
        match r {
            Some((key, e)) => named_key_from(s@, j as int, 0) == Some((key, e as int)) && j < e <= s@.len(),
            None => named_key_from(s@, j as int, 0) is None,
        },
{
    let mut k: usize = 0;
    while k < NAMED_KEYS
        invariant
            k <= NAMED_KEYS,
            j <= s@.len(),
            named_key_from(s@, j as int, 0) == named_key_from(s@, j as int, k as int),
        decreases NAMED_KEYS - k,
    {
        let (name, key) = named_key_table(k);
        if word_at_exec(s, j, name) {
            let n = s.len();
            let e = j + name.unicode_len();
            if e < n && s[e] == '>' {
                return Some((key, e + 1));
            }
        }
        k = k + 1;
    }
    None
}

/// A literal character at position `i`, and where it ends.
pub fn action_character(s: &Vec<char>, i: usize) -> (r: Option<(char, usize)>)
    ensures
        match r {
            Some((c, e)) => literal_at(s@, i as int) == Some((c, e as int)) && i < e <= s@.len(),
            None => literal_at(s@, i as int) is None,
        },
{
    if i >= s.len() {
        None
    } else if s[i] == '\\' {
        action_escape(s, i)
    } else if s[i] == '<' {
        None
    } else {
        Some((s[i], i + 1))
    }
}

/// The escape that starts with the `\` at position `i`.
fn action_escape(s: &Vec<char>, i: usize) -> (r: Option<(char, usize)>)
    requires
        i < s@.len(),
        s@[i as int] == '\\',
    ensures
        match r {
            Some((c, e)) => literal_at(s@, i as int) == Some((c, e as int)) && i < e <= s@.len(),
            None => literal_at(s@, i as int) is None,
        },
{
    if s.len() - i > 1 && (s[i + 1] == '\\' || s[i + 1] == '<') {
        Some((s[i + 1], i + 2))
    } else {
        None
    }
}

/// The keystroke of the token whose text starts at `j`, just after `<`.
pub fn special_key(s: &Vec<char>, j: usize) -> (r: Option<(KeyboardKeyWithModifiers, usize)>)
    requires
        j <= s@.len(),
    ensures
        match r {
            Some((k, e)) => bracket_key(s@, j as int) == Some((k, e as int)) && j < e <= s@.len(),
            None => bracket_key(s@, j as int) is None,
        },
{
    let (m, k) = key_modifiers(s, j);
    if let Some((key, e)) = named_key(s, k) {
        return Some((KeyboardKeyWithModifiers { key, flags: m }, e));
    }
    if k > j {
        if let Some((c, e)) = action_character(s, k) {
            if e < s.len() && s[e] == '>' {
                return Some((KeyboardKeyWithModifiers { key: KeyboardKey::Character(c), flags: m }, e + 1));
            }
        }
    }
    if word_at_exec(s, j, "nop") {
        proof {
            reveal_strlit("nop");
        }
        if s.len() - j > 3 && s[j + 3] == '>' {
            return Some((KeyboardKeyWithModifiers { key: KeyboardKey::Nop, flags: Modifiers::none() }, j + 4));
        }
    }
    None
}

/// The keystroke written at position `i`, and where it ends.
pub fn keystroke(s: &Vec<char>, i: usize) -> (r: Option<(KeyboardKeyWithModifiers, usize)>)
    requires
        i < s@.len(),
    ensures
        match r {
            Some((k, e)) => keystroke_at(s@, i as int) == Some((k, e as int)) && i < e <= s@.len(),
            None => keystroke_at(s@, i as int) is None,
        },
{
    let n = s.len();
    if s[i] == '<' {
        special_key(s, i + 1)
    } else {
        match action_character(s, i) {
            Some((c, e)) => Some((KeyboardKeyWithModifiers { key: KeyboardKey::Character(c), flags: Modifiers::none() }, e)),
            None => None,
        }
    }
}

/// The keystrokes that the whole of `s` describes, or the position of the
/// first one that cannot be read.
pub fn keystrokes(s: &Vec<char>) -> (r: Result<Vec<KeyboardKeyWithModifiers>, usize>)
    ensures
        match r {
            Ok(v) => spec_keystrokes(s@) == Ok::<Seq<KeyboardKeyWithModifiers>, int>(v@),
            Err(p) => spec_keystrokes(s@) == Err::<Seq<KeyboardKeyWithModifiers>, int>(p as int) && p < s@.len(),
        },
{
    let mut out: Vec<KeyboardKeyWithModifiers> = Vec::new();
    let mut i: usize = 0;
    while i < s.len()
        invariant
            i <= s@.len(),
            keystrokes_from(s@, 0) == (match keystrokes_from(s@, i as int) {
                Ok(rest) => Ok(out@ + rest),
                Err(p) => Err::<Seq<KeyboardKeyWithModifiers>, int>(p),
            }),
        decreases s@.len() - i,
    {
        match keystroke(s, i) {
            Some((k, e)) => {
                proof {
                    match keystrokes_from(s@, e as int) {
                        Ok(rest) => {
                            assert(out@.push(k) + rest =~= out@ + (seq![k] + rest));
                        },
                        Err(p) => {},
                    }
                }
                out.push(k);
                i = e;
            },
            None => {
                return Err(i);
            },
        }
    }
    assert(out@ + Seq::<KeyboardKeyWithModifiers>::empty() =~= out@);
    Ok(out)
}

} // verus!
