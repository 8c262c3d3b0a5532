use goxkey::config::ConfigStore;
use goxkey::handler::{
    commit_word, do_macro_replace, do_restore_word, do_transform_keys, event_handler,
    finish_keystroke, handle_key, Action, KeyOutcome, Transformed,
};
use goxkey::input::{InputState, TypingMethod};
use goxkey::platform::{
    EventTapType, KeyModifier, PressedKey, KEY_DELETE, KEY_ENTER, KEY_ESCAPE, KEY_SPACE, KEY_TAB,
    MODIFIER_ALT, MODIFIER_CAPSLOCK, MODIFIER_CONTROL, MODIFIER_SHIFT, MODIFIER_SUPER,
    RAW_ARROW_LEFT, RAW_KEY_GLOBE,
};

fn mods(bits: u32) -> KeyModifier {
    KeyModifier::from_bits_truncate(bits)
}

fn quiet() -> KeyOutcome {
    KeyOutcome {
        handled: false,
        actions: vec![],
        awaits_transform: false,
    }
}

fn engine(state: &InputState) -> Option<Transformed> {
    let mut output = String::new();
    let definition = match state.get_method() {
        TypingMethod::Telex => &vi::TELEX,
        TypingMethod::VNI => &vi::VNI,
    };
    let result = vi::transform_buffer(definition, state.get_typing_buffer().chars(), &mut output);
    Some(Transformed {
        output,
        tone_mark_removed: result.tone_mark_removed,
        letter_modification_removed: result.letter_modification_removed,
    })
}

/// Sends one key through both steps and returns the keystrokes asked for.
fn press(state: &mut InputState, config: &mut ConfigStore, c: char, held: u32) -> KeyOutcome {
    let first = event_handler(
        state,
        config,
        EventTapType::KeyDown,
        Some(PressedKey::Char(c)),
        mods(held),
        false,
    );
    if first.awaits_transform {
        assert!(first.actions.is_empty());
        assert!(!first.handled);
        let outcome = engine(state);
        finish_keystroke(state, outcome, false)
    } else {
        first
    }
}

fn type_word(state: &mut InputState, config: &mut ConfigStore, word: &str) {
    for c in word.chars() {
        press(state, config, c, 0);
    }
}

fn flags(state: &mut InputState, config: &mut ConfigStore, held: u32) -> KeyOutcome {
    event_handler(
        state,
        config,
        EventTapType::FlagsChanged,
        None,
        mods(held),
        false,
    )
}

#[test]
fn plain_letters_pass_and_are_kept() {
    let mut config = ConfigStore::new();
    let mut state = InputState::new(&config);
    for (i, c) in "banh".chars().enumerate() {
        let r = press(&mut state, &mut config, c, 0);
        assert_eq!(r, quiet());
        assert_eq!(state.get_typing_buffer(), &"banh"[..i + 1]);
        assert_eq!(state.get_displaying_word(), &"banh"[..i + 1]);
    }
}

#[test]
fn a_tone_key_rewrites_the_word() {
    let mut config = ConfigStore::new();
    let mut state = InputState::new(&config);
    type_word(&mut state, &mut config, "chao");
    let r = press(&mut state, &mut config, 'f', 0);
    assert_eq!(
        r,
        KeyOutcome {
            handled: true,
            actions: vec![
                Action::SendBackspace(4),
                Action::SendString("chào".to_string())
            ],
            awaits_transform: false,
        }
    );
    assert_eq!(state.get_typing_buffer(), "chaof");
    assert_eq!(state.get_displaying_word(), "chào");
    assert!(state.is_tracking());
}

#[test]
fn a_key_behind_a_rewritten_word_passes_when_the_screen_is_right() {
    let mut config = ConfigStore::new();
    let mut state = InputState::new(&config);
    type_word(&mut state, &mut config, "tas");
    assert_eq!(state.get_displaying_word(), "tá");
    let r = press(&mut state, &mut config, 'c', 0);
    assert_eq!(r, quiet());
    assert_eq!(state.get_typing_buffer(), "tasc");
    assert_eq!(state.get_displaying_word(), "tác");
}

#[test]
fn typing_buffer_is_the_literal_keys_under_telex() {
    let mut config = ConfigStore::new();
    let mut state = InputState::new(&config);
    let keys = "vieetj";
    let mut so_far = String::new();
    for c in keys.chars() {
        press(&mut state, &mut config, c, 0);
        so_far.push(c);
        assert_eq!(state.get_typing_buffer(), so_far);
    }
    assert_eq!(state.get_displaying_word(), "việt");
}

#[test]
fn engine_output_without_marks_is_a_fixed_point() {
    let mut once = String::new();
    vi::transform_buffer(&vi::TELEX, "banh".chars(), &mut once);
    assert_eq!(once, "banh");
    let mut twice = String::new();
    vi::transform_buffer(&vi::TELEX, once.chars(), &mut twice);
    assert_eq!(twice, once);
}

#[test]
fn engine_reads_keys_not_marked_letters() {
    let mut once = String::new();
    vi::transform_buffer(&vi::TELEX, "as".chars(), &mut once);
    assert_eq!(once, "á");
    let mut twice = String::new();
    vi::transform_buffer(&vi::TELEX, once.chars(), &mut twice);
    assert_eq!(twice, "a");
}

#[test]
fn doubled_tone_key_suspends_tracking() {
    let mut config = ConfigStore::new();
    let mut state = InputState::new(&config);
    press(&mut state, &mut config, 's', 0);
    assert!(state.is_tracking());
    assert_eq!(state.get_typing_buffer(), "s");
    press(&mut state, &mut config, 's', 0);
    assert!(!state.is_tracking());
    assert!(state.is_buffer_empty());
    assert_eq!(state.get_displaying_word(), "");

    let r = press(&mut state, &mut config, 'a', 0);
    assert_eq!(r, quiet());
    assert!(!state.is_tracking());
    assert!(state.is_buffer_empty());

    press(&mut state, &mut config, KEY_SPACE, 0);
    assert!(state.is_tracking());
    press(&mut state, &mut config, 'a', 0);
    assert_eq!(state.get_typing_buffer(), "a");
    assert_eq!(state.get_displaying_word(), "a");
}

#[test]
fn a_removed_tone_gives_the_word_up() {
    let mut config = ConfigStore::new();
    let mut state = InputState::new(&config);
    type_word(&mut state, &mut config, "as");
    assert_eq!(state.get_displaying_word(), "á");
    let r = press(&mut state, &mut config, 's', 0);
    assert_eq!(
        r,
        KeyOutcome {
            handled: true,
            actions: vec![
                Action::SendBackspace(1),
                Action::SendString("as".to_string())
            ],
            awaits_transform: false,
        }
    );
    assert!(!state.is_tracking());
    assert!(state.is_buffer_empty());
    assert_eq!(state.get_previous_word(), "ass");
}

#[test]
fn an_eleventh_key_is_dropped() {
    let mut config = ConfigStore::new();
    let mut state = InputState::new(&config);
    type_word(&mut state, &mut config, "bcdghklmnp");
    assert_eq!(state.get_typing_buffer(), "bcdghklmnp");
    let r = press(&mut state, &mut config, 'q', 0);
    assert_eq!(r, quiet());
    assert_eq!(state.get_typing_buffer(), "bcdghklmnp");
    assert_eq!(state.get_displaying_word(), "bcdghklmnp");
    assert!(state.is_tracking());
    press(&mut state, &mut config, KEY_SPACE, 0);
    assert!(state.is_buffer_empty());
    assert_eq!(state.get_previous_word(), "bcdghklmnp");
}

#[test]
fn a_failed_engine_changes_nothing() {
    let config = ConfigStore::new();
    let mut state = InputState::new(&config);
    state.push('a');
    state.push('s');
    let r = finish_keystroke(&mut state, None, false);
    assert_eq!(r, quiet());
    assert_eq!(state.get_typing_buffer(), "as");
    assert_eq!(state.get_displaying_word(), "as");
    assert!(state.is_tracking());
}

#[test]
fn restore_sends_the_literal_keys() {
    let mut config = ConfigStore::new();
    let mut state = InputState::new(&config);
    for c in "thw".chars() {
        state.push(c);
    }
    state.replace("thŵ".to_string());
    let r = event_handler(
        &mut state,
        &mut config,
        EventTapType::KeyDown,
        Some(PressedKey::Char(KEY_SPACE)),
        mods(0),
        false,
    );
    assert_eq!(
        r,
        KeyOutcome {
            handled: false,
            actions: vec![
                Action::SendBackspace(3),
                Action::SendString("thw".to_string())
            ],
            awaits_transform: false,
        }
    );
    assert!(state.is_buffer_empty());
    assert!(state.is_tracking());
    assert_eq!(state.get_previous_word(), "thw");
}

#[test]
fn restore_fires_for_a_word_the_validator_refuses() {
    let config = ConfigStore::new();
    let mut state = InputState::new(&config);
    for c in "thw".chars() {
        state.push(c);
    }
    state.replace("thư".to_string());
    let r = commit_word(&mut state, &config, KEY_SPACE, false, false);
    assert_eq!(
        r.actions,
        vec![
            Action::SendBackspace(3),
            Action::SendString("thw".to_string())
        ]
    );
    assert!(!r.handled);
    assert!(state.is_buffer_empty());
}

#[test]
fn a_valid_word_is_not_restored() {
    let mut config = ConfigStore::new();
    let mut state = InputState::new(&config);
    type_word(&mut state, &mut config, "vieetj");
    for key in [KEY_SPACE, KEY_ENTER, KEY_TAB, KEY_ESCAPE] {
        let mut s = InputState::new(&config);
        type_word(&mut s, &mut config, "vieetj");
        let r = press(&mut s, &mut config, key, 0);
        assert_eq!(r, quiet());
        assert!(s.is_buffer_empty());
        assert!(s.is_tracking());
        assert_eq!(s.get_previous_word(), "vieetj");
    }
    assert_eq!(state.get_displaying_word(), "việt");
}

#[test]
fn an_untouched_word_is_not_restored() {
    let config = ConfigStore::new();
    let mut state = InputState::new(&config);
    for c in "xyz".chars() {
        state.push(c);
    }
    let r = commit_word(&mut state, &config, KEY_ENTER, false, false);
    assert_eq!(r, quiet());
}

#[test]
fn an_allowed_word_is_not_restored() {
    let config = ConfigStore::new();
    let mut state = InputState::new(&config);
    for c in "ddc".chars() {
        state.push(c);
    }
    state.replace("đc".to_string());
    let r = commit_word(&mut state, &config, KEY_SPACE, false, false);
    assert_eq!(r, quiet());
    assert!(state.is_buffer_empty());
}

#[test]
fn macro_replaces_the_word_at_tab() {
    let mut config = ConfigStore::new();
    config.add_macro("btw".to_string(), "by the way".to_string());
    let mut state = InputState::new(&config);
    type_word(&mut state, &mut config, "btw");
    assert_eq!(state.get_displaying_word(), "btw");
    let r = press(&mut state, &mut config, KEY_TAB, 0);
    assert_eq!(
        r,
        KeyOutcome {
            handled: false,
            actions: vec![
                Action::SendBackspace(3),
                Action::SendString("by the way".to_string())
            ],
            awaits_transform: false,
        }
    );
    assert!(state.is_buffer_empty());
    assert!(state.is_tracking());
}

#[test]
fn macro_takes_the_place_of_the_restore() {
    let mut config = ConfigStore::new();
    config.add_macro("thŵ".to_string(), "macro".to_string());
    let mut state = InputState::new(&config);
    for c in "thw".chars() {
        state.push(c);
    }
    state.replace("thŵ".to_string());
    let r = commit_word(&mut state, &config, KEY_SPACE, false, false);
    assert_eq!(
        r.actions,
        vec![
            Action::SendBackspace(3),
            Action::SendString("macro".to_string())
        ]
    );
}

#[test]
fn macro_is_not_looked_up_at_enter() {
    let mut config = ConfigStore::new();
    config.add_macro("btw".to_string(), "by the way".to_string());
    let mut state = InputState::new(&config);
    type_word(&mut state, &mut config, "btw");
    let r = press(&mut state, &mut config, KEY_ENTER, 0);
    assert_eq!(r, quiet());
}

#[test]
fn a_stop_word_is_forgotten_at_the_next_boundary() {
    let mut config = ConfigStore::new();
    let mut state = InputState::new(&config);
    press(&mut state, &mut config, '?', 0);
    assert_eq!(state.get_typing_buffer(), "?");
    press(&mut state, &mut config, KEY_SPACE, 0);
    assert_eq!(state.get_previous_word(), "?");
    press(&mut state, &mut config, 'a', 0);
    assert!(!state.is_tracking());
    assert_eq!(state.get_previous_word(), "a");
    press(&mut state, &mut config, KEY_SPACE, 0);
    assert!(state.is_tracking());
    press(&mut state, &mut config, 'a', 0);
    assert_eq!(state.get_typing_buffer(), "a");
}

#[test]
fn delete_pops_one_character() {
    let mut config = ConfigStore::new();
    let mut state = InputState::new(&config);
    type_word(&mut state, &mut config, "chaof");
    let r = press(&mut state, &mut config, KEY_DELETE, 0);
    assert_eq!(r, quiet());
    assert_eq!(state.get_typing_buffer(), "chao");
    assert_eq!(state.get_displaying_word(), "chà");
    let r = press(&mut state, &mut config, KEY_DELETE, MODIFIER_SHIFT);
    assert_eq!(r, quiet());
    assert_eq!(state.get_typing_buffer(), "cha");
}

#[test]
fn delete_with_another_modifier_ends_the_word() {
    for held in [
        MODIFIER_CONTROL,
        MODIFIER_ALT,
        MODIFIER_SUPER,
        MODIFIER_CAPSLOCK,
        MODIFIER_CONTROL | MODIFIER_SHIFT,
    ] {
        let mut config = ConfigStore::new();
        let mut state = InputState::new(&config);
        type_word(&mut state, &mut config, "chao");
        let r = press(&mut state, &mut config, KEY_DELETE, held);
        assert_eq!(r, quiet());
        assert!(state.is_buffer_empty(), "{}", held);
        assert_eq!(state.get_previous_word(), "chao");
    }
}

#[test]
fn punctuation_ends_the_word_without_joining_it() {
    for c in "()[]{}<>/\\!@#$%^&*-_=+|~`,.;'\"".chars() {
        let mut config = ConfigStore::new();
        let mut state = InputState::new(&config);
        type_word(&mut state, &mut config, "chao");
        let r = press(&mut state, &mut config, c, 0);
        assert_eq!(r, quiet());
        assert!(state.is_buffer_empty(), "{}", c);
        assert_eq!(state.get_previous_word(), "chao");
    }
}

#[test]
fn a_shifted_digit_joins_the_word_and_ends_it() {
    let mut config = ConfigStore::new();
    let mut state = InputState::new(&config);
    type_word(&mut state, &mut config, "ab");
    let r = press(&mut state, &mut config, '1', MODIFIER_SHIFT);
    assert_eq!(r, quiet());
    assert!(state.is_buffer_empty());
    assert_eq!(state.get_previous_word(), "ab1");
}

#[test]
fn a_plain_digit_is_typed_into_the_word() {
    let mut config = ConfigStore::new();
    config.set_method("vni");
    let mut state = InputState::new(&config);
    type_word(&mut state, &mut config, "a");
    let r = press(&mut state, &mut config, '1', 0);
    assert_eq!(
        r.actions,
        vec![
            Action::SendBackspace(1),
            Action::SendString("á".to_string())
        ]
    );
    assert_eq!(state.get_typing_buffer(), "a1");
}

#[test]
fn a_shortcut_ends_the_word() {
    for held in [MODIFIER_SUPER, MODIFIER_ALT] {
        let mut config = ConfigStore::new();
        let mut state = InputState::new(&config);
        type_word(&mut state, &mut config, "chao");
        let r = press(&mut state, &mut config, 'c', held);
        assert_eq!(r, quiet());
        assert!(state.is_buffer_empty());
    }
}

#[test]
fn shift_and_caps_lock_type_capitals() {
    let mut config = ConfigStore::new();
    let mut state = InputState::new(&config);
    press(&mut state, &mut config, 'v', MODIFIER_SHIFT);
    press(&mut state, &mut config, 'i', MODIFIER_CAPSLOCK);
    press(&mut state, &mut config, 'e', 0);
    assert_eq!(state.get_typing_buffer(), "VIe");
}

#[test]
fn arrows_end_the_word() {
    let mut config = ConfigStore::new();
    let mut state = InputState::new(&config);
    type_word(&mut state, &mut config, "chao");
    let r = event_handler(
        &mut state,
        &mut config,
        EventTapType::KeyDown,
        Some(PressedKey::Raw(RAW_ARROW_LEFT)),
        mods(0),
        false,
    );
    assert_eq!(r, quiet());
    assert!(state.is_buffer_empty());
}

#[test]
fn an_unknown_raw_key_changes_nothing() {
    let mut config = ConfigStore::new();
    let mut state = InputState::new(&config);
    type_word(&mut state, &mut config, "chao");
    let r = event_handler(
        &mut state,
        &mut config,
        EventTapType::KeyDown,
        Some(PressedKey::Raw(0x60)),
        mods(0),
        false,
    );
    assert_eq!(r, quiet());
    assert_eq!(state.get_typing_buffer(), "chao");
}

#[test]
fn the_globe_key_toggles_and_is_used_up() {
    let mut config = ConfigStore::new();
    let mut state = InputState::new(&config);
    type_word(&mut state, &mut config, "chao");
    let r = event_handler(
        &mut state,
        &mut config,
        EventTapType::KeyDown,
        Some(PressedKey::Raw(RAW_KEY_GLOBE)),
        mods(0),
        false,
    );
    assert!(r.handled);
    assert!(r.actions.is_empty());
    assert!(!state.is_enabled());
    assert!(state.is_buffer_empty());
}

#[test]
fn a_key_press_without_a_key_ends_the_word() {
    let mut config = ConfigStore::new();
    let mut state = InputState::new(&config);
    type_word(&mut state, &mut config, "chao");
    let r = event_handler(
        &mut state,
        &mut config,
        EventTapType::KeyDown,
        None,
        mods(0),
        false,
    );
    assert_eq!(r, quiet());
    assert!(state.is_buffer_empty());
}

#[test]
fn shift_alone_does_not_end_the_word() {
    let mut config = ConfigStore::new();
    let mut state = InputState::new(&config);
    type_word(&mut state, &mut config, "vie");
    flags(&mut state, &mut config, MODIFIER_SHIFT);
    flags(&mut state, &mut config, 0);
    assert_eq!(state.get_typing_buffer(), "vie");
    flags(&mut state, &mut config, MODIFIER_SUPER);
    assert!(state.is_buffer_empty());
}

#[test]
fn disabled_tracker_follows_nothing() {
    let mut config = ConfigStore::new();
    let mut state = InputState::new(&config);
    state.toggle_vietnamese(&mut config);
    let r = press(&mut state, &mut config, 'a', 0);
    assert_eq!(r, quiet());
    assert!(state.is_buffer_empty());
    state.push('x');
    press(&mut state, &mut config, 'a', 0);
    assert_eq!(state.get_typing_buffer(), "x");
    press(&mut state, &mut config, 'a', MODIFIER_CONTROL);
    assert!(state.is_buffer_empty());
    state.push('x');
    press(&mut state, &mut config, KEY_ENTER, 0);
    assert!(state.is_buffer_empty());
}

#[test]
fn hotkey_toggles_once_per_chord() {
    let mut config = ConfigStore::new();
    config.set_hotkey("super+ctrl+space");
    let mut state = InputState::new(&config);
    let held = MODIFIER_SUPER | MODIFIER_CONTROL;
    assert!(state.is_enabled());

    flags(&mut state, &mut config, held);
    assert!(state.is_enabled());
    press(&mut state, &mut config, ' ', held);
    flags(&mut state, &mut config, 0);
    assert!(!state.is_enabled());
    flags(&mut state, &mut config, 0);
    assert!(!state.is_enabled());

    flags(&mut state, &mut config, held);
    press(&mut state, &mut config, ' ', held);
    flags(&mut state, &mut config, 0);
    assert!(state.is_enabled());
}

#[test]
fn hotkey_does_not_fire_for_another_key() {
    let mut config = ConfigStore::new();
    config.set_hotkey("super+ctrl+space");
    let mut state = InputState::new(&config);
    let held = MODIFIER_SUPER | MODIFIER_CONTROL;

    flags(&mut state, &mut config, held);
    press(&mut state, &mut config, 'x', held);
    assert!(state.is_enabled());
    flags(&mut state, &mut config, 0);
    assert!(state.is_enabled());
}

#[test]
fn hotkey_is_broken_by_another_key_behind_it() {
    let mut config = ConfigStore::new();
    config.set_hotkey("super+ctrl+space");
    let mut state = InputState::new(&config);
    let held = MODIFIER_SUPER | MODIFIER_CONTROL;

    flags(&mut state, &mut config, held);
    press(&mut state, &mut config, ' ', held);
    press(&mut state, &mut config, 'x', held);
    flags(&mut state, &mut config, 0);
    assert!(state.is_enabled());

    flags(&mut state, &mut config, held);
    press(&mut state, &mut config, ' ', held);
    flags(&mut state, &mut config, 0);
    assert!(!state.is_enabled());
}

#[test]
fn hotkey_of_modifiers_alone() {
    let mut config = ConfigStore::new();
    config.set_hotkey("ctrl+shift");
    let mut state = InputState::new(&config);
    flags(&mut state, &mut config, MODIFIER_CONTROL);
    flags(&mut state, &mut config, MODIFIER_CONTROL | MODIFIER_SHIFT);
    flags(&mut state, &mut config, 0);
    assert!(!state.is_enabled());
    flags(&mut state, &mut config, MODIFIER_CONTROL | MODIFIER_SHIFT | MODIFIER_CAPSLOCK);
    flags(&mut state, &mut config, 0);
    assert!(state.is_enabled());
}

#[test]
fn selection_adds_a_backspace() {
    let mut config = ConfigStore::new();
    let mut state = InputState::new(&config);
    type_word(&mut state, &mut config, "chao");
    let first = event_handler(
        &mut state,
        &mut config,
        EventTapType::KeyDown,
        Some(PressedKey::Char('f')),
        mods(0),
        true,
    );
    assert!(first.awaits_transform);
    let outcome = engine(&state);
    let r = finish_keystroke(&mut state, outcome, true);
    assert_eq!(
        r.actions,
        vec![
            Action::SendBackspace(5),
            Action::SendString("chào".to_string())
        ]
    );
}

#[test]
fn the_browser_selection_is_dismissed_first() {
    let config = ConfigStore::new();
    let mut state = InputState::new(&config);
    state.update_active_app("/Applications/Firefox.app".to_string(), &config);
    for c in "as".chars() {
        state.push(c);
    }
    let r = do_transform_keys(
        &mut state,
        Some(Transformed {
            output: "á".to_string(),
            tone_mark_removed: false,
            letter_modification_removed: false,
        }),
        false,
        false,
    );
    assert_eq!(
        r.actions,
        vec![
            Action::SendString(" ".to_string()),
            Action::SendBackspace(1),
            Action::SendBackspace(1),
            Action::SendString("á".to_string()),
        ]
    );
    assert!(r.handled);
    assert_eq!(state.get_displaying_word(), "á");
}

#[test]
fn a_deletion_always_rewrites() {
    let config = ConfigStore::new();
    let mut state = InputState::new(&config);
    for c in "as".chars() {
        state.push(c);
    }
    let same = Transformed {
        output: "as".to_string(),
        tone_mark_removed: false,
        letter_modification_removed: false,
    };
    let r = do_transform_keys(&mut state, Some(same.clone()), false, false);
    assert_eq!(r, quiet());
    let r = do_transform_keys(&mut state, Some(same), true, false);
    assert_eq!(
        r.actions,
        vec![
            Action::SendBackspace(2),
            Action::SendString("as".to_string())
        ]
    );
    assert!(r.handled);
}

#[test]
fn restore_and_macro_replace_rewrite_the_screen() {
    let config = ConfigStore::new();
    let mut state = InputState::new(&config);
    for c in "chaof".chars() {
        state.push(c);
    }
    state.replace("chào".to_string());
    let actions = do_restore_word(&mut state, false);
    assert_eq!(
        actions,
        vec![
            Action::SendBackspace(4),
            Action::SendString("chaof".to_string())
        ]
    );
    assert_eq!(state.get_displaying_word(), "chaof");
    let actions = do_macro_replace(&mut state, &"hello".to_string(), true);
    assert_eq!(
        actions,
        vec![
            Action::SendBackspace(6),
            Action::SendString("hello".to_string())
        ]
    );
    assert_eq!(state.get_displaying_word(), "hello");
    assert_eq!(state.get_typing_buffer(), "chaof");
}

#[test]
fn handle_key_takes_the_validity_as_given() {
    let mut config = ConfigStore::new();
    let mut state = InputState::new(&config);
    for c in "vieetj".chars() {
        state.push(c);
    }
    state.replace("việt".to_string());
    let r = handle_key(
        &mut state,
        &mut config,
        EventTapType::KeyDown,
        Some(PressedKey::Char(KEY_SPACE)),
        mods(0),
        false,
        false,
    );
    assert_eq!(
        r.actions,
        vec![
            Action::SendBackspace(4),
            Action::SendString("vieetj".to_string())
        ]
    );
}
