use dome_key_map::{
    action_map, Action, Expected, Flag, KeyCode, KeyboardKey, KeyboardKeyWithModifiers, MapAction,
    MapKind, Modifiers, NXKey,
};

fn key(k: KeyboardKey, flags: Vec<Flag>) -> KeyboardKeyWithModifiers {
    KeyboardKeyWithModifiers::new(k, flags)
}

#[test]
fn escaped_less_than_is_one_literal_keystroke() {
    assert_eq!(action_map("\\<"), Ok(Action::Keys(vec![key(KeyboardKey::Character('<'), vec![])])));
}

#[test]
fn escaped_backslash_is_one_literal_keystroke() {
    assert_eq!(action_map("\\\\"), Ok(Action::Keys(vec![key(KeyboardKey::Character('\\'), vec![])])));
}

#[test]
fn lone_backslash_is_not_a_keystroke() {
    let e = action_map("a\\b").unwrap_err();

    assert_eq!((e.line, e.column), (1, 2));
    assert_eq!(e.unexpected, Some('\\'));
    assert_eq!(e.expected, vec![Expected::Keystroke]);
}

#[test]
fn empty_text_is_no_keystrokes() {
    assert_eq!(action_map(""), Ok(Action::Keys(vec![])));
}

#[test]
fn two_digit_function_keys() {
    assert_eq!(
        action_map("<F10><f11><F12>"),
        Ok(Action::Keys(vec![
            key(KeyboardKey::KeyCode(KeyCode::F10), vec![]),
            key(KeyboardKey::KeyCode(KeyCode::F11), vec![]),
            key(KeyboardKey::KeyCode(KeyCode::F12), vec![]),
        ]))
    );
}

#[test]
fn return_synonyms_and_repeated_modifiers() {
    assert_eq!(
        action_map("<cr><RETURN><c-C-x>"),
        Ok(Action::Keys(vec![
            key(KeyboardKey::KeyCode(KeyCode::Return), vec![]),
            key(KeyboardKey::KeyCode(KeyCode::Return), vec![]),
            key(KeyboardKey::Character('x'), vec![Flag::Control]),
        ]))
    );
}

#[test]
fn modifier_before_escaped_less_than() {
    assert_eq!(
        action_map("<S-\\<>"),
        Ok(Action::Keys(vec![key(KeyboardKey::Character('<'), vec![Flag::Shift])]))
    );
}

#[test]
fn media_keys_by_name() {
    assert_eq!(
        action_map("<VolumeUp><illuminationtoggle><D-Mute>"),
        Ok(Action::Keys(vec![
            key(KeyboardKey::NXKey(NXKey::SoundUp), vec![]),
            key(KeyboardKey::NXKey(NXKey::IlluminationToggle), vec![]),
            key(KeyboardKey::NXKey(NXKey::Mute), vec![Flag::Meta]),
        ]))
    );
}

#[test]
fn unknown_token_is_an_error_at_its_start() {
    let e = action_map("ab<Foo>").unwrap_err();

    assert_eq!((e.line, e.column), (1, 3));
    assert_eq!(e.unexpected, Some('<'));
}

#[test]
fn nop_takes_no_modifiers() {
    assert!(action_map("<C-Nop>").is_err());
}

#[test]
fn system_key_codes() {
    assert_eq!(NXKey::SoundUp.code(), 0);
    assert_eq!(NXKey::Play.code(), 16);
    assert_eq!(NXKey::IlluminationToggle.code(), 23);
}

#[test]
fn modifiers_collapse_into_a_set() {
    let m = Modifiers::from_flags(&[Flag::Alt, Flag::Alt, Flag::Shift]);

    assert!(m.contains(Flag::Alt));
    assert!(m.contains(Flag::Shift));
    assert!(!m.contains(Flag::Meta));
    assert_eq!(m, Modifiers::none().add(Flag::Shift).add(Flag::Alt));
}

#[test]
fn resolving_a_map_action_parses_its_text() {
    let mut a = MapAction { action: Action::String("<A-Left>".to_owned()), kind: MapKind::Keys };
    a.parse();

    assert_eq!(a.action, Action::Keys(vec![key(KeyboardKey::KeyCode(KeyCode::LeftArrow), vec![Flag::Alt])]));
}

#[test]
fn resolving_a_command_keeps_its_text() {
    let mut a = MapAction { action: Action::String("<A-Left>".to_owned()), kind: MapKind::Command };
    a.parse();

    assert_eq!(a.action, Action::String("<A-Left>".to_owned()));
}
