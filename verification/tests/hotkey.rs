use goxkey::hotkey::{Hotkey, SYMBOL_ALT, SYMBOL_CTRL, SYMBOL_SHIFT, SYMBOL_SUPER};
use goxkey::platform::{KeyModifier, KEY_SPACE};

#[test]
fn test_parse() {
    let hotkey = Hotkey::from_str("super+shift+z");
    let mut actual_modifier = KeyModifier::new();
    actual_modifier.add_shift();
    actual_modifier.add_super();
    assert_eq!(hotkey.inner().0, actual_modifier);
    assert_eq!(hotkey.inner().1, Some('Z'));
    assert!(hotkey.is_match(actual_modifier, Some('z')));
}

#[test]
fn test_parse_long_input() {
    let hotkey = Hotkey::from_str("super+shift+ctrl+alt+w");
    let mut actual_modifier = KeyModifier::new();
    actual_modifier.add_shift();
    actual_modifier.add_super();
    actual_modifier.add_control();
    actual_modifier.add_alt();
    assert_eq!(hotkey.inner().0, actual_modifier);
    assert_eq!(hotkey.inner().1, Some('W'));
    assert!(hotkey.is_match(actual_modifier, Some('W')));
}

#[test]
fn test_parse_with_named_keycode() {
    let hotkey = Hotkey::from_str("super+ctrl+space");
    let mut actual_modifier = KeyModifier::new();
    actual_modifier.add_super();
    actual_modifier.add_control();
    assert_eq!(hotkey.inner().0, actual_modifier);
    assert_eq!(hotkey.inner().1, Some(KEY_SPACE));
    assert!(hotkey.is_match(actual_modifier, Some(KEY_SPACE)));
}

#[test]
fn test_can_match_with_or_without_capslock() {
    let hotkey = Hotkey::from_str("super+ctrl+space");
    let mut actual_modifier = KeyModifier::new();
    actual_modifier.add_super();
    actual_modifier.add_control();
    assert_eq!(hotkey.is_match(actual_modifier, Some(' ')), true);

    actual_modifier.add_capslock();
    assert!(hotkey.is_match(actual_modifier, Some(' ')));
}

#[test]
fn test_parse_with_just_modifiers() {
    let hotkey = Hotkey::from_str("ctrl+shift");
    let mut actual_modifier = KeyModifier::new();
    actual_modifier.add_control();
    actual_modifier.add_shift();
    assert_eq!(hotkey.inner().0, actual_modifier);
    assert_eq!(hotkey.inner().1, None);
    assert!(hotkey.is_match(actual_modifier, None));
}

#[test]
fn test_display() {
    assert_eq!(
        Hotkey::from_str("super+ctrl+space").to_string(),
        format!("{} {} Space", SYMBOL_CTRL, SYMBOL_SUPER)
    );

    assert_eq!(
        Hotkey::from_str("super+alt+z").to_string(),
        format!("{} {} Z", SYMBOL_ALT, SYMBOL_SUPER)
    );

    assert_eq!(
        Hotkey::from_str("ctrl+shift+o").to_string(),
        format!("{} {} O", SYMBOL_CTRL, SYMBOL_SHIFT)
    );
}

#[test]
fn tokens_are_trimmed_and_case_is_set_aside() {
    let hotkey = Hotkey::from_str(" Super + CTRL +  Space ");
    let mut held = KeyModifier::new();
    held.add_super();
    held.add_control();
    assert_eq!(hotkey.inner(), (held, Some(KEY_SPACE)));
}

#[test]
fn the_last_key_token_wins() {
    assert_eq!(Hotkey::from_str("a+b").inner().1, Some('B'));
    assert_eq!(Hotkey::from_str("a+enter").inner().1, Some('\x13'));
    assert_eq!(Hotkey::from_str("enter+xyz").inner().1, Some('Z'));
    assert_eq!(Hotkey::from_str("a+").inner().1, None);
    assert_eq!(Hotkey::from_str("").inner().1, None);
    assert_eq!(Hotkey::from_str("+").inner(), (KeyModifier::new(), None));
}

#[test]
fn named_keys() {
    assert_eq!(Hotkey::from_str("tab").inner().1, Some('\x09'));
    assert_eq!(Hotkey::from_str("delete").inner().1, Some('\x08'));
    assert_eq!(Hotkey::from_str("esc").inner().1, Some('\x26'));
    assert_eq!(Hotkey::from_str("ctrl+tab").to_string(), "⌃ Tab");
    assert_eq!(Hotkey::from_str("delete").to_string(), "Del");
    assert_eq!(Hotkey::from_str("shift+esc").to_string(), "⇧ Esc");
    assert_eq!(Hotkey::from_str("alt+enter").to_string(), "⌥ Enter");
    assert_eq!(Hotkey::from_str("ctrl+shift").to_string(), "⌃ ⇧ ");
}

#[test]
fn tokens_are_put_in_upper_case_by_unicode() {
    assert_eq!(Hotkey::from_str("ctrl+é").inner().1, Some('É'));
    assert_eq!(Hotkey::from_str("ctrl+ß").inner().1, Some('S'));
}

#[test]
fn match_needs_the_same_modifiers() {
    let hotkey = Hotkey::from_str("ctrl+space");
    let mut held = KeyModifier::new();
    held.add_control();
    assert!(hotkey.is_match(held, Some(' ')));
    assert!(!hotkey.is_match(held, None));
    assert!(!hotkey.is_match(held, Some('x')));
    held.add_shift();
    assert!(!hotkey.is_match(held, Some(' ')));
    assert!(!hotkey.is_match(KeyModifier::new(), Some(' ')));
    let letters = Hotkey::from_str("super+é");
    let mut sup = KeyModifier::new();
    sup.add_super();
    assert!(letters.is_match(sup, Some('É')));
    assert!(!letters.is_match(sup, Some('é')));
}

#[test]
fn apply_token_takes_the_token_as_given() {
    let mut hotkey = Hotkey::new();
    hotkey.apply_token("shift");
    assert_eq!(hotkey.inner(), (KeyModifier::new(), Some('t')));
    hotkey.apply_token("SHIFT");
    let mut held = KeyModifier::new();
    held.add_shift();
    assert_eq!(hotkey.inner(), (held, Some('t')));
}
