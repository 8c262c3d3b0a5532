use goxkey::ffi::{event_type_from_number, CGEventMaskBit, CGEventSourceStateID, EventType};
use goxkey::keymap::{
    get_char, get_key_from_char, get_predefined_chars, get_printable_char, KeyboardLayout,
    LayoutKey,
};
use goxkey::platform::{
    KeyModifier, PressedKey, KEY_DELETE, KEY_ENTER, KEY_ESCAPE, KEY_SPACE, KEY_TAB,
    MODIFIER_ALT, MODIFIER_CAPSLOCK, MODIFIER_CONTROL, MODIFIER_SHIFT, MODIFIER_SUPER,
};
use goxkey::ui::{format_letter_key, letter_key_to_char};

#[test]
fn new_modifier_set_is_empty() {
    let m = KeyModifier::new();
    assert!(m.is_empty());
    assert_eq!(m.bits(), 0);
    assert!(!m.is_shift() && !m.is_super() && !m.is_control() && !m.is_alt() && !m.is_capslock());
    assert_eq!(m.to_string(), "");
}

#[test]
fn add_sets_one_modifier() {
    let mut m = KeyModifier::new();
    m.add_shift();
    assert!(m.is_shift());
    assert_eq!(m.bits(), MODIFIER_SHIFT);
    m.add_super();
    assert_eq!(m.bits(), MODIFIER_SHIFT | MODIFIER_SUPER);
    m.add_control();
    m.add_alt();
    m.add_capslock();
    assert_eq!(m.bits(), 0b11111);
    assert!(m.is_shift() && m.is_super() && m.is_control() && m.is_alt() && m.is_capslock());
    m.add_alt();
    assert_eq!(m.bits(), 0b11111);
    assert!(!m.is_empty());
}

#[test]
fn apply_sets_all_five() {
    let mut m = KeyModifier::from_bits_truncate(0b11111);
    m.apply(true, false, true, false, false);
    assert_eq!(m.bits(), MODIFIER_SUPER | MODIFIER_ALT);
    m.apply(false, true, false, true, true);
    assert_eq!(m.bits(), MODIFIER_CONTROL | MODIFIER_SHIFT | MODIFIER_CAPSLOCK);
    m.apply(false, false, false, false, false);
    assert!(m.is_empty());
}

#[test]
fn set_algebra() {
    let mut m = KeyModifier::from_bits_truncate(MODIFIER_SHIFT | MODIFIER_ALT);
    let other = KeyModifier::from_bits_truncate(MODIFIER_ALT | MODIFIER_SUPER);
    assert!(!m.contains(other));
    m.insert(other);
    assert!(m.contains(other));
    assert_eq!(m.bits(), MODIFIER_SHIFT | MODIFIER_ALT | MODIFIER_SUPER);
    m.remove(KeyModifier::from_bits_truncate(MODIFIER_ALT));
    assert_eq!(m.bits(), MODIFIER_SHIFT | MODIFIER_SUPER);
    m.set(other, false);
    assert_eq!(m.bits(), MODIFIER_SHIFT);
    m.set(other, true);
    assert_eq!(m.bits(), MODIFIER_SHIFT | MODIFIER_ALT | MODIFIER_SUPER);
    assert!(m.contains(KeyModifier::new()));
    assert!(m.same(&KeyModifier::from_bits_truncate(0b01011)));
    assert!(!m.same(&other));
}

#[test]
fn unknown_bits_are_dropped() {
    let m = KeyModifier::from_bits_truncate(0xffff_ffe0 | MODIFIER_CONTROL);
    assert_eq!(m.bits(), MODIFIER_CONTROL);
    assert_eq!(m, KeyModifier::from_bits_truncate(MODIFIER_CONTROL));
}

#[test]
fn modifier_text() {
    let mut m = KeyModifier::new();
    m.apply(true, true, true, true, true);
    assert_eq!(m.to_string(), "super+ctrl+alt+shift+capslock+");
    m.apply(false, true, false, true, false);
    assert_eq!(m.to_string(), "ctrl+shift+");
}

#[test]
fn printable_chars_of_the_us_layout() {
    assert_eq!(get_printable_char(0), Some('a'));
    assert_eq!(get_printable_char(46), Some('m'));
    assert_eq!(get_printable_char(31), Some('o'));
    assert_eq!(get_printable_char(10), None);
    assert_eq!(get_printable_char(18), None);
    assert_eq!(get_printable_char(49), None);
    let mut letters: Vec<char> = (0u16..128).filter_map(get_printable_char).collect();
    letters.sort();
    assert_eq!(letters, ('a'..='z').collect::<Vec<char>>());
}

#[test]
fn keys_of_the_predefined_chars() {
    let chars = get_predefined_chars();
    assert_eq!(chars.len(), 47);
    assert_eq!(chars[0], 'a');
    assert_eq!(chars[46], '/');
    assert_eq!(get_key_from_char('a'), LayoutKey::KeyA);
    assert_eq!(get_key_from_char('`'), LayoutKey::BackQuote);
    assert_eq!(get_key_from_char('0'), LayoutKey::Num0);
    assert_eq!(get_key_from_char('\\'), LayoutKey::BackSlash);
    assert_eq!(get_key_from_char('\''), LayoutKey::Quote);
    assert_eq!(get_key_from_char('/'), LayoutKey::Slash);
    assert_eq!(get_key_from_char('A'), LayoutKey::Unknown(0));
    assert_eq!(get_key_from_char(' '), LayoutKey::Unknown(0));
    for c in chars {
        assert_ne!(get_key_from_char(c), LayoutKey::Unknown(0));
    }
}

fn us_layout() -> KeyboardLayout {
    let mut layout = KeyboardLayout::new();
    let answers: Vec<Option<char>> = get_predefined_chars().into_iter().map(Some).collect();
    layout.rebuild(&answers);
    layout
}

#[test]
fn classification_on_the_us_layout() {
    let layout = us_layout();
    assert_eq!(get_char(0, &layout), Some(PressedKey::Char('a')));
    assert_eq!(get_char(18, &layout), Some(PressedKey::Char('1')));
    assert_eq!(get_char(22, &layout), Some(PressedKey::Char('6')));
    assert_eq!(get_char(23, &layout), Some(PressedKey::Char('5')));
    assert_eq!(get_char(47, &layout), Some(PressedKey::Char('.')));
    assert_eq!(get_char(39, &layout), Some(PressedKey::Char('\'')));
    assert_eq!(get_char(36, &layout), Some(PressedKey::Char(KEY_ENTER)));
    assert_eq!(get_char(52, &layout), Some(PressedKey::Char(KEY_ENTER)));
    assert_eq!(get_char(49, &layout), Some(PressedKey::Char(KEY_SPACE)));
    assert_eq!(get_char(48, &layout), Some(PressedKey::Char(KEY_TAB)));
    assert_eq!(get_char(51, &layout), Some(PressedKey::Char(KEY_DELETE)));
    assert_eq!(get_char(53, &layout), Some(PressedKey::Char(KEY_ESCAPE)));
    assert_eq!(get_char(0x7b, &layout), Some(PressedKey::Raw(0x7b)));
    assert_eq!(get_char(0xb3, &layout), Some(PressedKey::Raw(0xb3)));
    assert_eq!(get_char(10, &layout), Some(PressedKey::Raw(10)));
}

#[test]
fn classification_follows_the_layout() {
    let mut layout = KeyboardLayout::new();
    assert_eq!(get_char(0, &layout), None);
    assert_eq!(get_char(49, &layout), Some(PressedKey::Char(KEY_SPACE)));
    let mut answers: Vec<Option<char>> = get_predefined_chars().into_iter().map(Some).collect();
    answers[0] = Some('q');
    answers[14] = Some('a');
    answers[1] = None;
    layout.rebuild(&answers);
    assert_eq!(get_char(0, &layout), Some(PressedKey::Char('q')));
    assert_eq!(get_char(12, &layout), Some(PressedKey::Char('a')));
    assert_eq!(layout.get('`'), None);
    assert_eq!(layout.get('a'), Some('q'));
    assert_eq!(layout.get('A'), None);
}

#[test]
fn rebuild_depends_on_the_answers_alone() {
    let answers: Vec<Option<char>> = vec![Some('x'), None, Some('!')];
    let mut a = KeyboardLayout::new();
    a.rebuild(&answers);
    let mut b = us_layout();
    b.rebuild(&answers);
    b.rebuild(&answers);
    for c in get_predefined_chars() {
        assert_eq!(a.get(c), b.get(c));
    }
    assert_eq!(a.get('a'), Some('x'));
    assert_eq!(a.get('`'), None);
    assert_eq!(a.get('1'), Some('!'));
    assert_eq!(a.get('2'), None);
    let mut long: Vec<Option<char>> = vec![Some('k'); 60];
    long[46] = Some('?');
    a.rebuild(&long);
    assert_eq!(a.get('/'), Some('?'));
    assert_eq!(a.get('a'), Some('k'));
}

#[test]
fn letter_key_text() {
    assert_eq!(format_letter_key(Some(' ')), "Space");
    assert_eq!(format_letter_key(Some('\t')), "Space");
    assert_eq!(format_letter_key(Some('z')), "Z");
    assert_eq!(format_letter_key(Some('Z')), "Z");
    assert_eq!(format_letter_key(Some('1')), "1");
    assert_eq!(format_letter_key(Some('é')), "é");
    assert_eq!(format_letter_key(None), "");
}

#[test]
fn letter_key_is_read_back() {
    assert_eq!(letter_key_to_char("Space"), Some(' '));
    assert_eq!(letter_key_to_char("a"), Some('a'));
    assert_eq!(letter_key_to_char("Z"), Some('Z'));
    assert_eq!(letter_key_to_char(" "), Some(' '));
    assert_eq!(letter_key_to_char(""), None);
    assert_eq!(letter_key_to_char("ab"), None);
    assert_eq!(letter_key_to_char("space"), None);
    assert_eq!(letter_key_to_char("é"), None);
}

#[test]
fn event_numbers() {
    assert_eq!(CGEventMaskBit(10), 1 << 10);
    assert_eq!(CGEventMaskBit(0), 1);
    assert_eq!(CGEventMaskBit(63), 1 << 63);
    assert_eq!(
        CGEventMaskBit(10) | CGEventMaskBit(11) | CGEventMaskBit(12),
        0x1c00
    );
    assert_eq!(event_type_from_number(10), Some(EventType::KeyDown));
    assert_eq!(event_type_from_number(11), Some(EventType::KeyUp));
    assert_eq!(event_type_from_number(12), Some(EventType::FlagsChanged));
    assert_eq!(event_type_from_number(13), None);
    assert_eq!(CGEventSourceStateID::Private.number(), -1);
    assert_eq!(CGEventSourceStateID::CombinedSessionState.number(), 0);
    assert_eq!(CGEventSourceStateID::HIDSystemState.number(), 1);
}
