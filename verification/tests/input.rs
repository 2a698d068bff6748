use termway::input::{
    click, key, scroll, unicode_keymap, xkb_keymap, KeyboardRequest, OutOfBounds, PointerButton,
    PointerRequest, UnicodeTable, BTN_LEFT, BTN_RIGHT,
};

#[test]
fn builds_unicode_xkb_keymap() {
    let keymap = unicode_keymap(&['你', '😀']);
    assert!(keymap.contains("<K1> = 9;"));
    assert!(keymap.contains("key <K1> { [ U4F60 ] };"));
    assert!(keymap.contains("key <K2> { [ U1F600 ] };"));
    assert!(keymap.ends_with('\0'));
}

#[test]
fn maps_virtual_pointer_buttons_to_linux_evdev_codes() {
    assert_eq!(PointerButton::Left.evdev_code(), BTN_LEFT);
    assert_eq!(PointerButton::Right.evdev_code(), BTN_RIGHT);
}

#[test]
fn unicode_keymap_is_written_out() {
    assert_eq!(
        unicode_keymap(&['é']),
        "xkb_keymap {\nxkb_keycodes \"termway\" {\nminimum = 8;\nmaximum = 10;\n<K1> = 9;\n};\nxkb_types \"termway\" { include \"complete\" };\nxkb_compatibility \"termway\" { include \"complete\" };\nxkb_symbols \"termway\" {\nkey <K1> { [ U00E9 ] };\n};\n};\n\0"
    );
    assert!(xkb_keymap().starts_with("xkb_keymap {\n  xkb_keycodes"));
    assert!(xkb_keymap().ends_with("};\n\0"));
}

#[test]
fn a_click_moves_presses_and_releases() {
    assert_eq!(
        click(3, 4, 10, 20, PointerButton::Right),
        Ok(vec![
            PointerRequest::MotionAbsolute(3, 4, 10, 20),
            PointerRequest::Frame,
            PointerRequest::Button(BTN_RIGHT, true),
            PointerRequest::Frame,
            PointerRequest::Button(BTN_RIGHT, false),
            PointerRequest::Frame,
        ])
    );
    let outside = OutOfBounds { x: 10, y: 4, width: 10, height: 20 };
    assert_eq!(click(10, 4, 10, 20, PointerButton::Left), Err(outside));
    assert_eq!(
        outside.message(),
        "refusing out-of-bounds pointer coordinate (10,4) in 10x20"
    );
    assert!(click(0, 0, 0, 5, PointerButton::Left).is_err());
}

#[test]
fn scrolling_sends_one_wheel_frame() {
    assert_eq!(
        scroll(0, 0, 1, 1, true, -3),
        Ok(vec![
            PointerRequest::MotionAbsolute(0, 0, 1, 1),
            PointerRequest::WheelSource,
            PointerRequest::AxisDiscrete(true, -45, -3),
            PointerRequest::Frame,
        ])
    );
    assert_eq!(scroll(0, 0, 1, 1, false, 0), Ok(Vec::new()));
    assert!(scroll(0, 1, 1, 1, false, 0).is_err());
}

#[test]
fn keys_are_released_with_their_modifiers() {
    assert_eq!(
        key(30, 5),
        vec![
            KeyboardRequest::Modifiers(5),
            KeyboardRequest::Key(30, true),
            KeyboardRequest::Key(30, false),
            KeyboardRequest::Modifiers(0),
        ]
    );
}

#[test]
fn characters_get_keys_as_they_are_typed() {
    let mut table = UnicodeTable::new();
    let (first, typed) = table.unicode('é');
    assert_eq!(first, Some(unicode_keymap(&['é'])));
    assert_eq!(
        typed,
        vec![
            KeyboardRequest::Modifiers(0),
            KeyboardRequest::Key(1, true),
            KeyboardRequest::Key(1, false),
        ]
    );
    let (second, typed) = table.unicode('ö');
    assert_eq!(second, Some(unicode_keymap(&['é', 'ö'])));
    assert_eq!(typed[1], KeyboardRequest::Key(2, true));
    let (again, typed) = table.unicode('é');
    assert_eq!(again, None);
    assert_eq!(typed[1], KeyboardRequest::Key(1, true));
}

#[test]
fn a_full_character_table_starts_anew() {
    let mut table = UnicodeTable::new();
    for code in 0..512u32 {
        let (keymap, typed) = table.unicode(char::from_u32(0x4e00 + code).unwrap());
        assert!(keymap.is_some());
        assert_eq!(typed[1], KeyboardRequest::Key(code + 1, true));
    }
    let (keymap, typed) = table.unicode('ß');
    assert_eq!(keymap, Some(unicode_keymap(&['ß'])));
    assert_eq!(typed[1], KeyboardRequest::Key(1, true));
    assert_eq!(table.characters, vec!['ß']);
}
