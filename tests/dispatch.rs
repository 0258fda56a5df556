use dome_key_map::{
    load, play_mode_activated, play_mode_deactivated, run_key_action, Action, DispatchState,
    Flag, HeadphoneButton, KeyboardKey, KeyboardKeyWithModifiers, MapAction, MapKind, ModeChange,
    NXKey, Sound,
};

use HeadphoneButton::{Down, Play, Up};

fn keys_action(keys: Vec<KeyboardKeyWithModifiers>) -> MapAction {
    MapAction { action: Action::Keys(keys), kind: MapKind::Keys }
}

fn chr(c: char) -> KeyboardKeyWithModifiers {
    KeyboardKeyWithModifiers::new(KeyboardKey::Character(c), Vec::<Flag>::new())
}

#[test]
fn mode_is_entered_used_and_left() {
    let group = load("mode <down><up> {\n    map <play> p\n}\n").unwrap();
    let mut state = DispatchState::new();

    let r = run_key_action(&mut state, &group, &[Down, Up]);
    assert_eq!(r.mode_change, Some(ModeChange::Activated));
    assert_eq!(r.action, None);
    assert_eq!(state.in_mode, Some(vec![Down, Up]));

    let r = run_key_action(&mut state, &group, &[Play]);
    assert_eq!(r.action, Some(&keys_action(vec![chr('p')])));
    assert_eq!(r.mode_change, None);
    assert_eq!(state.in_mode, Some(vec![Down, Up]));

    let r = run_key_action(&mut state, &group, &[Down, Up]);
    assert_eq!(r.mode_change, Some(ModeChange::Deactivated));
    assert_eq!(r.action, None);
    assert_eq!(state.in_mode, None);
}

#[test]
fn unmapped_trigger_does_nothing_while_idle() {
    let group = load("mode <down><up> {\n    map <play> p\n}\n").unwrap();
    let mut state = DispatchState::new();

    let r = run_key_action(&mut state, &group, &[Up, Up, Play]);
    assert_eq!(r.action, None);
    assert_eq!(r.mode_change, None);
    assert_eq!(state.in_mode, None);
}

#[test]
fn top_level_action_runs_while_idle() {
    let group = load("").unwrap();
    let mut state = DispatchState::new();

    let r = run_key_action(&mut state, &group, &[Play]);
    assert_eq!(
        r.action,
        Some(&keys_action(vec![KeyboardKeyWithModifiers::new(KeyboardKey::NXKey(NXKey::Play), vec![])]))
    );
    assert_eq!(r.mode_change, None);
}

#[test]
fn top_level_actions_do_not_run_in_a_mode() {
    let group = load("mode <down><up> {\n    map <play> p\n}\n").unwrap();
    let mut state = DispatchState::new();
    run_key_action(&mut state, &group, &[Down, Up]);

    let r = run_key_action(&mut state, &group, &[Up]);
    assert_eq!(r.action, None);
    assert_eq!(r.mode_change, None);
    assert_eq!(state.in_mode, Some(vec![Down, Up]));
}

#[test]
fn mode_round_trip() {
    let group = load("mode <play> {\n    cmd <up> echo\n}\n").unwrap();
    let mut state = DispatchState::new();

    let r = run_key_action(&mut state, &group, &[Play]);
    assert_eq!(r.mode_change, Some(ModeChange::Activated));
    assert_eq!(state.in_mode, Some(vec![Play]));
    let r = run_key_action(&mut state, &group, &[Play]);
    assert_eq!(r.mode_change, Some(ModeChange::Deactivated));
    assert_eq!(r.action, None);
    assert_eq!(state.in_mode, None);
}

#[test]
fn mode_trigger_that_is_also_mapped_runs_and_enters() {
    let group = load("map <up> u\nmode <up> {\n    map <down> d\n}\n").unwrap();
    let mut state = DispatchState::new();

    let r = run_key_action(&mut state, &group, &[Up]);
    assert_eq!(r.action, Some(&keys_action(vec![chr('u')])));
    assert_eq!(r.mode_change, Some(ModeChange::Activated));
    assert_eq!(state.in_mode, Some(vec![Up]));
}

#[test]
fn another_mode_trigger_in_a_mode_runs_its_entry_and_switches_mode() {
    let group = load("mode <up> {\n    map <down> x\n}\nmode <down> {\n    map <play> y\n}\n").unwrap();
    let mut state = DispatchState::new();
    run_key_action(&mut state, &group, &[Up]);

    let r = run_key_action(&mut state, &group, &[Down]);
    assert_eq!(r.action, Some(&keys_action(vec![chr('x')])));
    assert_eq!(r.mode_change, Some(ModeChange::Activated));
    assert_eq!(state.in_mode, Some(vec![Down]));
}

#[test]
fn cues_for_mode_changes() {
    assert_eq!(play_mode_activated(), Sound::ModeActivated);
    assert_eq!(play_mode_deactivated(), Sound::ModeDeactivated);
}
