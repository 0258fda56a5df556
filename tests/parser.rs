use dome_key_map::{
    action, action_map, definitions, headphone_button, map_collection, map_group, map_kind, maps,
    mode, Action, Definition, Expected, Flag, HeadphoneButton, KeyCode, KeyboardKey,
    KeyboardKeyWithModifiers, MapAction, MapCollection, MapGroup, MapKind, Mapping, NXKey,
    ParseError,
};

fn key(k: KeyboardKey, flags: Vec<Flag>) -> KeyboardKeyWithModifiers {
    KeyboardKeyWithModifiers::new(k, flags)
}

fn chr(c: char) -> KeyboardKeyWithModifiers {
    key(KeyboardKey::Character(c), vec![])
}

fn text_action(s: &str, kind: MapKind) -> MapAction {
    MapAction { action: Action::String(s.to_owned()), kind }
}

fn keys_action(keys: Vec<KeyboardKeyWithModifiers>) -> MapAction {
    MapAction { action: Action::Keys(keys), kind: MapKind::Keys }
}

fn same_table(a: &MapCollection, b: &MapCollection) -> bool {
    a.len() == b.len()
        && b.entries().iter().all(|e| a.get(&e.trigger) == Some(&e.action))
}

fn same_group(a: &MapGroup, b: &MapGroup) -> bool {
    same_table(a.maps(), b.maps())
        && a.mode_count() == b.mode_count()
        && b.modes().iter().all(|m| match a.mode(&m.trigger) {
            Some(t) => same_table(t, &m.maps),
            None => false,
        })
}

fn default_maps() -> MapCollection {
    let mut maps = MapCollection::new();
    maps.insert(vec![HeadphoneButton::Up], keys_action(vec![key(KeyboardKey::NXKey(NXKey::SoundUp), vec![])]));
    maps.insert(vec![HeadphoneButton::Play], keys_action(vec![key(KeyboardKey::NXKey(NXKey::Play), vec![])]));
    maps.insert(vec![HeadphoneButton::Down], keys_action(vec![key(KeyboardKey::NXKey(NXKey::SoundDown), vec![])]));
    maps
}

fn sorted_descriptions(e: &ParseError) -> Vec<&'static str> {
    let mut v: Vec<&'static str> = e.expected.iter().map(|x| x.describe()).collect();
    v.sort();
    v
}

#[test]
fn map_kind_parses_kind_map() {
    let text = "map";
    let result = map_kind(text);

    assert_eq!(result, Ok(MapKind::Keys));
}

#[test]
fn map_kind_parses_kind_command() {
    let text = "cmd";
    let result = map_kind(text);

    assert_eq!(result, Ok(MapKind::Command));
}

#[test]
fn headphone_button_parses_play() {
    let text = "<play>";
    let result = headphone_button(text);

    assert_eq!(result, Ok(HeadphoneButton::Play));
}

#[test]
fn headphone_button_ignores_case() {
    let text = "<Play>";
    let result = headphone_button(text);

    assert_eq!(result, Ok(HeadphoneButton::Play));
}

#[test]
fn trigger_parses_headphone_button_sequence() {
    let text = "<up><down><play>";
    let result = dome_key_map::grammar::trigger(text);

    assert_eq!(result, Ok(vec![HeadphoneButton::Up, HeadphoneButton::Down, HeadphoneButton::Play]));
}

#[test]
fn action_parses_string_to_end_of_line() {
    let text = "/usr/bin/say 'hello'\n";
    let expected: Action = Action::String("/usr/bin/say 'hello'".to_owned());
    let result = action(text);

    assert_eq!(result, Ok(expected));
}

#[test]
fn action_parses_map_with_simple_characters() {
    let text = "type hello!";

    let expected = Action::Keys(vec![
        chr('t'), chr('y'), chr('p'), chr('e'), chr(' '), chr('h'), chr('e'), chr('l'), chr('l'),
        chr('o'), chr('!'),
    ]);
    let result = action_map(text);

    assert_eq!(result, Ok(expected));
}

#[test]
fn action_parses_map_with_modifier() {
    let text = "one<C-l>two<D-s><A-Left>";

    let expected = Action::Keys(vec![
        chr('o'),
        chr('n'),
        chr('e'),
        key(KeyboardKey::Character('l'), vec![Flag::Control]),
        chr('t'),
        chr('w'),
        chr('o'),
        key(KeyboardKey::Character('s'), vec![Flag::Meta]),
        key(KeyboardKey::KeyCode(KeyCode::LeftArrow), vec![Flag::Alt]),
    ]);
    let result = action_map(text);

    assert_eq!(result, Ok(expected));
}

#[test]
fn action_parses_map_with_multiple_modifiers() {
    let text = "<C-A-g><D-S-s><D-A-C-S-Home>";

    let expected = Action::Keys(vec![
        key(KeyboardKey::Character('g'), vec![Flag::Control, Flag::Alt]),
        key(KeyboardKey::Character('s'), vec![Flag::Meta, Flag::Shift]),
        key(KeyboardKey::KeyCode(KeyCode::Home), vec![Flag::Meta, Flag::Alt, Flag::Control, Flag::Shift]),
    ]);
    let result = action_map(text);

    assert_eq!(result, Ok(expected));
}

#[test]
fn action_parses_map_with_special_key() {
    let text = "ready<F2><space>go<Esc>";

    let expected = Action::Keys(vec![
        chr('r'),
        chr('e'),
        chr('a'),
        chr('d'),
        chr('y'),
        key(KeyboardKey::KeyCode(KeyCode::F2), vec![]),
        key(KeyboardKey::KeyCode(KeyCode::Space), vec![]),
        chr('g'),
        chr('o'),
        key(KeyboardKey::KeyCode(KeyCode::Escape), vec![]),
    ]);
    let result = action_map(text);

    assert_eq!(result, Ok(expected));
}

#[test]
fn action_parses_map_with_nx_key() {
    let text = "<A-Play><Enter>";

    let expected = Action::Keys(vec![
        key(KeyboardKey::NXKey(NXKey::Play), vec![Flag::Alt]),
        key(KeyboardKey::KeyCode(KeyCode::Return), vec![]),
    ]);
    let result = action_map(text);

    assert_eq!(result, Ok(expected));
}

#[test]
fn action_parses_map_with_backslash_escape() {
    let text = "type\\\\onebslash";

    let expected = Action::Keys(vec![
        chr('t'), chr('y'), chr('p'), chr('e'), chr('\\'), chr('o'), chr('n'), chr('e'), chr('b'),
        chr('s'), chr('l'), chr('a'), chr('s'), chr('h'),
    ]);
    let result = action_map(text);

    assert_eq!(result, Ok(expected));
}

#[test]
fn action_parses_map_with_less_than_escape() {
    let text = "type\\<lt>";

    let expected = Action::Keys(vec![
        chr('t'), chr('y'), chr('p'), chr('e'), chr('<'), chr('l'), chr('t'), chr('>'),
    ]);
    let result = action_map(text);

    assert_eq!(result, Ok(expected));
}

#[test]
fn action_parses_map_with_nop() {
    let text = "<Nop>";

    let expected = Action::Keys(vec![key(KeyboardKey::Nop, vec![])]);
    let result = action_map(text);

    assert_eq!(result, Ok(expected));
}

#[test]
fn map_parses_map_line() {
    let text = "map <play><down> test\n";
    let expected = Mapping {
        trigger: vec![HeadphoneButton::Play, HeadphoneButton::Down],
        action: Action::String("test".to_owned()),
        kind: MapKind::Keys,
    };
    let result = dome_key_map::grammar::map(text);

    assert_eq!(result, Ok(expected));
}

#[test]
fn maps_parses_multiple_maps() {
    let text = "map <play><down> test\ncmd <down> echo test\n";
    let mut expected = MapCollection::new();
    expected.insert(vec![HeadphoneButton::Play, HeadphoneButton::Down], text_action("test", MapKind::Keys));
    expected.insert(vec![HeadphoneButton::Down], text_action("echo test", MapKind::Command));
    let result = maps(text).unwrap();

    assert!(same_table(&result, &expected));
}

#[test]
fn map_collection_fails_without_terminating_newline() {
    let text = "map <play> works\nmap <down> fails";
    let result = map_collection(text);

    match result {
        Err(e) => {
            assert_eq!((e.line, e.column), (2, 17));
            assert_eq!(e.unexpected, None);
            assert_eq!(e.expected, vec![Expected::Newline]);
        },
        Ok(_) => panic!("a declaration without its line break was accepted"),
    }
}

#[test]
fn map_collection_parses_maps() {
    let text = "
# Test comment
    # continued

map <up><down> test
map <play> salt and pepper

# Another comment
cmd <down> /usr/bin/say 'hello'
";
    let result = map_collection(text).unwrap();

    let mut expected = MapCollection::new();
    expected.insert(vec![HeadphoneButton::Up, HeadphoneButton::Down], text_action("test", MapKind::Keys));
    expected.insert(vec![HeadphoneButton::Play], text_action("salt and pepper", MapKind::Keys));
    expected.insert(vec![HeadphoneButton::Down], text_action("/usr/bin/say 'hello'", MapKind::Command));

    assert!(same_table(&result, &expected));
}

#[test]
fn mode_parses_a_mode() {
    let text = "mode <down><up> {
\tcmd <up><play> echo hello
\tmap <down> insert {}
  \t}";
    let result = mode(text).unwrap();

    let mut expected = MapCollection::new();
    expected.insert(vec![HeadphoneButton::Up, HeadphoneButton::Play], text_action("echo hello", MapKind::Command));
    expected.insert(vec![HeadphoneButton::Down], text_action("insert {}", MapKind::Keys));

    assert_eq!(result.trigger, vec![HeadphoneButton::Down, HeadphoneButton::Up]);
    assert!(same_table(&result.maps, &expected));
}

#[test]
fn definitions_parses_modes_and_maps() {
    let text = "

mode <up> {
    cmd <down> j
}
map <play> m
mode <down><up> {
    cmd <down> j
}

map <down> k
";
    let result = definitions(text).unwrap();

    let mut mode_up_maps = MapCollection::new();
    mode_up_maps.insert(vec![HeadphoneButton::Down], text_action("j", MapKind::Command));
    let mut mode_down_up_maps = MapCollection::new();
    mode_down_up_maps.insert(vec![HeadphoneButton::Down], text_action("j", MapKind::Command));

    assert_eq!(result.len(), 4);
    match &result[0] {
        Definition::Mode(m) => {
            assert_eq!(m.trigger, vec![HeadphoneButton::Up]);
            assert!(same_table(&m.maps, &mode_up_maps));
        },
        Definition::Mapping(_) => panic!("expected a mode"),
    }
    match &result[1] {
        Definition::Mapping(m) => assert_eq!(
            m,
            &Mapping {
                trigger: vec![HeadphoneButton::Play],
                action: Action::String("m".to_owned()),
                kind: MapKind::Keys,
            }
        ),
        Definition::Mode(_) => panic!("expected a mapping"),
    }
    match &result[2] {
        Definition::Mode(m) => {
            assert_eq!(m.trigger, vec![HeadphoneButton::Down, HeadphoneButton::Up]);
            assert!(same_table(&m.maps, &mode_down_up_maps));
        },
        Definition::Mapping(_) => panic!("expected a mode"),
    }
    match &result[3] {
        Definition::Mapping(m) => assert_eq!(
            m,
            &Mapping {
                trigger: vec![HeadphoneButton::Down],
                action: Action::String("k".to_owned()),
                kind: MapKind::Keys,
            }
        ),
        Definition::Mode(_) => panic!("expected a mapping"),
    }
}

#[test]
fn map_group_parses_a_whole_map_file_string() {
    let text = "map <play> some text

# The following does nothing
cmd <down> /bin/echo nothing

mode <down><up> {
    map <play> p
}

cmd <play> /usr/bin/say hello
";
    let result = map_group(text).unwrap();

    let mut maps = MapCollection::new();
    maps.insert(vec![HeadphoneButton::Up], keys_action(vec![key(KeyboardKey::NXKey(NXKey::SoundUp), vec![])]));
    maps.insert(vec![HeadphoneButton::Down], text_action("/bin/echo nothing", MapKind::Command));
    maps.insert(vec![HeadphoneButton::Play], text_action("/usr/bin/say hello", MapKind::Command));
    let mut mode_maps = MapCollection::new();
    mode_maps.insert(vec![HeadphoneButton::Play], text_action("p", MapKind::Keys));

    assert!(same_table(result.maps(), &maps));
    assert_eq!(result.mode_count(), 1);
    assert!(same_table(result.mode(&[HeadphoneButton::Down, HeadphoneButton::Up]).unwrap(), &mode_maps));
}

#[test]
fn map_group_empty_input_does_not_fail() {
    let text = "";
    let result = map_group(text).unwrap();
    let expected = MapGroup::default();

    assert!(same_group(&result, &expected));
}

#[test]
fn map_group_skipped_input_outputs_default_map_group() {
    let text = "
# test
    # a test
    ";
    let result = map_group(text).unwrap();
    let expected = MapGroup::default();

    assert!(same_group(&result, &expected));
}

#[test]
fn map_group_with_invalid_input_fails() {
    let text = "map <up> <Up>
not-a-kind <play> <Nop>
";
    let result = map_group(text);

    match result {
        Err(e) => {
            assert_eq!((e.line, e.column), (2, 1));
            assert_eq!(e.unexpected, Some('n'));
            let mut expected = vec!["map", "cmd", "mode", "lf newline", "whitespace", "tab", "'#'", "end of input"];
            expected.sort();
            assert_eq!(sorted_descriptions(&e), expected);
        },
        Ok(_) => panic!("an unknown declaration kind was accepted"),
    }
}

#[test]
fn empty_input_gives_default_group() {
    let result = map_group("").unwrap();

    assert!(same_table(result.maps(), &default_maps()));
    assert_eq!(result.mode_count(), 0);
}

#[test]
fn single_map_resolves_to_keystrokes() {
    let group = dome_key_map::load("map <up> k\n").unwrap();
    let mut expected = default_maps();
    expected.insert(vec![HeadphoneButton::Up], keys_action(vec![chr('k')]));

    assert_eq!(group.maps().get(&[HeadphoneButton::Up]), Some(&keys_action(vec![chr('k')])));
    assert!(same_table(group.maps(), &expected));
    assert_eq!(group.mode_count(), 0);
}

#[test]
fn mode_block_gives_one_mode() {
    let group = dome_key_map::load("mode <down><up> {\n    map <play> p\n}\n").unwrap();
    let mut expected = MapCollection::new();
    expected.insert(vec![HeadphoneButton::Play], keys_action(vec![chr('p')]));

    assert_eq!(group.mode_count(), 1);
    assert!(same_table(group.mode(&[HeadphoneButton::Down, HeadphoneButton::Up]).unwrap(), &expected));
    assert!(same_table(group.maps(), &default_maps()));
}

#[test]
fn missing_final_newline_fails_at_its_place() {
    let result = map_group("map <up> works\nmap <down> fails");

    match result {
        Err(e) => {
            assert_eq!((e.line, e.column), (2, 17));
            assert_eq!(e.unexpected, None);
            assert!(e.expected.contains(&Expected::Newline));
        },
        Ok(_) => panic!("a declaration without its line break was accepted"),
    }
}

#[test]
fn later_declaration_of_a_trigger_wins() {
    let group = map_group("map <play> first\ncmd <play> second\nmode <up> {\n map <down> a\n map <down> b\n}\n").unwrap();

    assert_eq!(group.maps().get(&[HeadphoneButton::Play]), Some(&text_action("second", MapKind::Command)));
    assert_eq!(group.maps().len(), 3);
    let mode = group.mode(&[HeadphoneButton::Up]).unwrap();
    assert_eq!(mode.len(), 1);
    assert_eq!(mode.get(&[HeadphoneButton::Down]), Some(&text_action("b", MapKind::Keys)));
}

#[test]
fn later_mode_block_of_a_trigger_wins() {
    let group = map_group("mode <up> {\n map <down> a\n}\nmode <up> {\n map <play> b\n}\n").unwrap();

    assert_eq!(group.mode_count(), 1);
    let mode = group.mode(&[HeadphoneButton::Up]).unwrap();
    assert_eq!(mode.len(), 1);
    assert_eq!(mode.get(&[HeadphoneButton::Play]), Some(&text_action("b", MapKind::Keys)));
    assert_eq!(mode.get(&[HeadphoneButton::Down]), None);
}

#[test]
fn commands_are_never_resolved() {
    let group = dome_key_map::load("cmd <up> echo <F1>\n").unwrap();

    assert_eq!(group.maps().get(&[HeadphoneButton::Up]), Some(&text_action("echo <F1>", MapKind::Command)));
}

#[test]
fn unreadable_keystrokes_stay_raw() {
    let group = dome_key_map::load("map <up> <bogus>\n").unwrap();

    assert_eq!(group.maps().get(&[HeadphoneButton::Up]), Some(&text_action("<bogus>", MapKind::Keys)));
}

#[test]
fn button_names_ignore_case_in_declarations() {
    let group = map_group("map <UP><Down> x\n").unwrap();

    assert!(group.maps().get(&[HeadphoneButton::Up, HeadphoneButton::Down]).is_some());
}

#[test]
fn unknown_button_is_an_error() {
    let result = headphone_button("<left>");

    match result {
        Err(e) => {
            assert_eq!((e.line, e.column), (1, 2));
            assert_eq!(e.unexpected, Some('l'));
            assert_eq!(e.expected, vec![Expected::ButtonName]);
        },
        Ok(_) => panic!("an unknown button was accepted"),
    }
}

#[test]
fn mode_without_closing_brace_fails() {
    let result = map_group("mode <up> {\n map <down> a\n");

    assert!(result.is_err());
}

#[test]
fn nested_mode_is_rejected() {
    let result = map_group("mode <up> {\n mode <down> {\n  map <play> a\n }\n}\n");

    assert!(result.is_err());
}

#[test]
fn declarations_after_a_comment_on_the_same_line_as_a_block_end() {
    let group = map_group("mode <up> {\n map <down> a\n} # done\nmap <play> b\n").unwrap();

    assert_eq!(group.mode_count(), 1);
    assert_eq!(group.maps().get(&[HeadphoneButton::Play]), Some(&text_action("b", MapKind::Keys)));
}

#[test]
fn missing_separator_expects_whitespace_or_tab() {
    let e = map_group("map <up>x\n").err().unwrap();

    assert_eq!((e.line, e.column), (1, 9));
    assert_eq!(e.unexpected, Some('x'));
    let mut expected = e.expected.clone();
    expected.sort();
    assert_eq!(expected, vec![Expected::Whitespace, Expected::Tab, Expected::ButtonStart]);
}

#[test]
fn mode_without_brace_expects_a_brace() {
    let e = map_group("mode <up> x\n").err().unwrap();

    assert_eq!((e.line, e.column), (1, 11));
    assert_eq!(e.unexpected, Some('x'));
    let mut expected = e.expected.clone();
    expected.sort();
    assert_eq!(expected, vec![Expected::Whitespace, Expected::Tab, Expected::BlockStart]);
}

#[test]
fn expected_tokens_read_as_in_messages() {
    assert_eq!(Expected::Newline.describe(), "lf newline");
    assert_eq!(Expected::Comment.describe(), "'#'");
    assert_eq!(Expected::EndOfInput.describe(), "end of input");
}
