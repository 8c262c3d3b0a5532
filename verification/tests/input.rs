use goxkey::config::ConfigStore;
use goxkey::input::{InputState, TypingMethod, MAX_POSSIBLE_WORD_LENGTH};

fn fresh() -> InputState {
    InputState::new(&ConfigStore::new())
}

fn typed(word: &str) -> InputState {
    let mut state = fresh();
    for c in word.chars() {
        state.push(c);
    }
    state
}

#[test]
fn new_state_is_idle_with_defaults() {
    let state = fresh();
    assert!(state.is_enabled());
    assert!(state.is_tracking());
    assert!(state.is_buffer_empty());
    assert!(state.is_macro_enabled());
    assert_eq!(state.get_typing_buffer(), "");
    assert_eq!(state.get_displaying_word(), "");
    assert_eq!(state.get_previous_word(), "");
    assert_eq!(state.get_method(), TypingMethod::Telex);
    assert_eq!(state.get_hotkey().to_string(), "⌃ Space");
    assert_eq!(state.get_macro_table().len(), 0);
}

#[test]
fn new_state_takes_method_hotkey_and_macros_from_config() {
    let mut config = ConfigStore::new();
    config.set_method("VNI");
    config.set_hotkey("super+shift+z");
    config.add_macro("btw".to_string(), "by the way".to_string());
    let state = InputState::new(&config);
    assert_eq!(state.get_method(), TypingMethod::VNI);
    assert_eq!(state.get_hotkey().inner().1, Some('Z'));
    assert_eq!(
        state.get_macro_table().get("btw"),
        Some(&"by the way".to_string())
    );
}

#[test]
fn typing_buffer_keeps_the_keys_whatever_is_shown() {
    let keys = "vieetjnamx";
    assert_eq!(keys.chars().count(), MAX_POSSIBLE_WORD_LENGTH);
    let mut state = fresh();
    let mut so_far = String::new();
    for (i, c) in keys.chars().enumerate() {
        state.push(c);
        so_far.push(c);
        state.replace(format!("shown{}", i));
        assert_eq!(state.get_typing_buffer(), so_far);
        assert_eq!(state.get_displaying_word(), format!("shown{}", i));
    }
    assert_eq!(state.get_typing_buffer(), keys);
}

#[test]
fn push_goes_into_both_buffers() {
    let state = typed("abc");
    assert_eq!(state.get_typing_buffer(), "abc");
    assert_eq!(state.get_displaying_word(), "abc");
    assert!(!state.is_buffer_empty());
}

#[test]
fn push_is_dropped_once_the_word_is_full() {
    let mut state = fresh();
    for _ in 0..10 {
        state.push('b');
    }
    assert_eq!(state.get_typing_buffer(), "bbbbbbbbbb");
    assert_eq!(state.get_displaying_word(), "bbbbbbbbbb");
    state.push('b');
    assert_eq!(state.get_typing_buffer(), "bbbbbbbbbb");
    assert_eq!(state.get_displaying_word(), "bbbbbbbbbb");
    state.push('c');
    assert_eq!(state.get_typing_buffer().chars().count(), MAX_POSSIBLE_WORD_LENGTH);
    assert!(state.is_tracking());
}

#[test]
fn push_leaves_the_screen_alone_once_the_word_is_full() {
    let mut state = typed("abcdefghij");
    state.replace("shown".to_string());
    state.push('k');
    assert_eq!(state.get_typing_buffer(), "abcdefghij");
    assert_eq!(state.get_displaying_word(), "shown");
}

#[test]
fn push_counts_characters_not_bytes() {
    let mut state = fresh();
    for _ in 0..10 {
        state.push('ệ');
    }
    assert_eq!(state.get_typing_buffer().chars().count(), 10);
    assert_eq!(state.get_typing_buffer().len(), 30);
    state.push('ệ');
    assert_eq!(state.get_typing_buffer().chars().count(), 10);
}

#[test]
fn the_word_never_passes_the_limit() {
    let mut state = fresh();
    for (i, c) in "abcdefghijklmnopqrstuvwxyz".chars().enumerate() {
        state.push(c);
        if i % 3 == 0 {
            state.replace(format!("shown{}", i));
        }
        if i % 7 == 6 {
            state.pop();
        }
        assert!(state.get_typing_buffer().chars().count() <= MAX_POSSIBLE_WORD_LENGTH);
    }
}

#[test]
fn pop_takes_one_character_from_each_buffer() {
    let mut state = typed("vieetj");
    state.replace("việt".to_string());
    state.pop();
    assert_eq!(state.get_typing_buffer(), "vieet");
    assert_eq!(state.get_displaying_word(), "việ");
    assert!(state.is_tracking());
}

#[test]
fn pop_of_the_last_character_starts_a_new_word() {
    let mut state = typed("a");
    state.stop_tracking();
    state.push('b');
    assert!(!state.is_tracking());
    state.pop();
    assert!(state.is_buffer_empty());
    assert_eq!(state.get_displaying_word(), "");
    assert!(state.is_tracking());
}

#[test]
fn pop_on_empty_buffers_keeps_them_empty() {
    let mut state = fresh();
    state.pop();
    assert!(state.is_buffer_empty());
    assert_eq!(state.get_displaying_word(), "");
    assert!(state.is_tracking());
}

#[test]
fn clear_remembers_the_word() {
    let mut state = typed("xin");
    state.replace("xịn".to_string());
    state.clear();
    assert_eq!(state.get_previous_word(), "xin");
    assert_eq!(state.get_typing_buffer(), "");
    assert_eq!(state.get_displaying_word(), "");
    state.clear_previous_word();
    assert_eq!(state.get_previous_word(), "");
}

#[test]
fn new_word_clears_and_rearms() {
    let mut state = typed("chao");
    state.stop_tracking();
    assert!(!state.is_tracking());
    assert_eq!(state.get_previous_word(), "chao");
    state.new_word();
    assert!(state.is_tracking());
    assert!(state.is_buffer_empty());
    assert_eq!(state.get_previous_word(), "chao");
}

#[test]
fn new_word_on_an_empty_word_keeps_the_previous_word() {
    let mut state = typed("ab");
    state.new_word();
    assert_eq!(state.get_previous_word(), "ab");
    state.replace("left over".to_string());
    state.new_word();
    assert_eq!(state.get_previous_word(), "ab");
    assert_eq!(state.get_displaying_word(), "");
}

#[test]
fn stop_tracking_suspends() {
    let mut state = typed("ass");
    state.stop_tracking();
    assert!(!state.is_tracking());
    assert!(state.is_buffer_empty());
    assert_eq!(state.get_displaying_word(), "");
    assert_eq!(state.get_previous_word(), "ass");
}

#[test]
fn backspace_count_for_a_deletion_is_the_whole_word() {
    let mut state = fresh();
    state.replace("chaò".to_string());
    assert_eq!(state.get_backspace_count(true, false), 4);
}

#[test]
fn backspace_count_for_a_key_is_one_less() {
    let mut state = fresh();
    state.replace("chao".to_string());
    assert_eq!(state.get_backspace_count(false, false), 3);
}

#[test]
fn backspace_count_with_a_selection_is_one_more() {
    let mut state = fresh();
    state.replace("chào".to_string());
    assert_eq!(state.get_backspace_count(false, true), 4);
    assert_eq!(state.get_backspace_count(true, true), 5);
}

#[test]
fn backspace_count_of_an_empty_word() {
    let state = fresh();
    assert_eq!(state.get_backspace_count(false, false), 0);
    assert_eq!(state.get_backspace_count(true, false), 0);
    assert_eq!(state.get_backspace_count(false, true), 1);
}

#[test]
fn should_stop_on_doubled_tone_keys() {
    for word in [
        "ss", "ff", "jj", "rr", "xx", "ww", "kk", "tt", "nn", "mm", "yy", "hh", "ii", "aaa",
        "eee", "ooo",
    ] {
        let state = typed(word);
        assert!(state.should_stop_tracking(), "{}", word);
    }
    assert!(typed("vieSS").should_stop_tracking());
    assert!(typed("hoOOa").should_stop_tracking());
}

#[test]
fn should_not_stop_on_plain_words() {
    for word in ["", "s", "as", "vieetj", "aa", "oo", "abcdefghij"] {
        let state = typed(word);
        assert!(!state.should_stop_tracking(), "{}", word);
    }
}

#[test]
fn a_full_word_does_not_stop_by_its_length() {
    assert!(!typed("abcdefghij").should_stop_tracking());
    let state = typed("abcdefghijk");
    assert_eq!(state.get_typing_buffer(), "abcdefghij");
    assert!(!state.should_stop_tracking());
}

#[test]
fn should_stop_after_a_lone_punctuation_mark() {
    for mark in [";", "'", "?", "/"] {
        let mut state = typed(mark);
        state.new_word();
        assert_eq!(state.get_previous_word(), mark);
        assert!(state.previous_word_is_stop_tracking_words());
        state.push('a');
        assert!(state.should_stop_tracking());
    }
    let mut state = typed("!");
    state.new_word();
    assert!(!state.previous_word_is_stop_tracking_words());
    assert!(!state.should_stop_tracking());
}

#[test]
fn stop_tracking_if_needed_only_stops_when_needed() {
    let mut state = typed("as");
    state.stop_tracking_if_needed();
    assert!(state.is_tracking());
    assert_eq!(state.get_typing_buffer(), "as");
    state.push('s');
    state.stop_tracking_if_needed();
    assert!(!state.is_tracking());
    assert!(state.is_buffer_empty());
}

#[test]
fn should_send_keyboard_event_when_the_word_differs_from_the_screen() {
    let mut state = typed("as");
    assert!(state.should_send_keyboard_event("á"));
    assert!(!state.should_send_keyboard_event("as"));
    state.replace("á".to_string());
    assert!(!state.should_send_keyboard_event("á"));
    assert!(state.should_send_keyboard_event("as"));
}

#[test]
fn should_transform_keys_by_method() {
    let mut config = ConfigStore::new();
    let mut state = InputState::new(&config);
    for c in "aeodstjfxrwz".chars() {
        assert!(state.should_transform_keys(&c), "{}", c);
    }
    assert!(!state.should_transform_keys(&'b'));
    assert!(!state.should_transform_keys(&'1'));
    state.set_method(TypingMethod::VNI, &mut config);
    assert!(state.should_transform_keys(&'1'));
    assert!(state.should_transform_keys(&'٣'));
    assert!(!state.should_transform_keys(&'a'));
    state.toggle_vietnamese(&mut config);
    assert!(!state.should_transform_keys(&'1'));
}

#[test]
fn set_method_writes_through_and_starts_a_new_word() {
    let mut config = ConfigStore::new();
    let mut state = InputState::new(&config);
    state.push('a');
    state.set_method(TypingMethod::VNI, &mut config);
    assert_eq!(state.get_method(), TypingMethod::VNI);
    assert_eq!(config.get_method(), "vni");
    assert!(state.is_buffer_empty());
    assert_eq!(state.get_previous_word(), "a");
}

#[test]
fn set_hotkey_writes_through() {
    let mut config = ConfigStore::new();
    let mut state = InputState::new(&config);
    state.set_hotkey("super+alt+z", &mut config);
    assert_eq!(config.get_hotkey(), "super+alt+z");
    assert_eq!(state.get_hotkey().to_string(), "⌥ ⌘ Z");
}

#[test]
fn toggle_vietnamese_files_the_application() {
    let mut config = ConfigStore::new();
    let mut state = InputState::new(&config);
    state.update_active_app("/Applications/Notes.app".to_string(), &config);
    state.push('a');
    state.toggle_vietnamese(&mut config);
    assert!(!state.is_enabled());
    assert!(state.is_buffer_empty());
    assert!(config.is_english_app("/Applications/Notes.app"));
    assert!(!config.is_vietnamese_app("/Applications/Notes.app"));
    state.toggle_vietnamese(&mut config);
    assert!(state.is_enabled());
    assert!(config.is_vietnamese_app("/Applications/Notes.app"));
    assert!(!config.is_english_app("/Applications/Notes.app"));
}

#[test]
fn update_active_app_follows_the_lists() {
    let mut config = ConfigStore::new();
    config.add_english_app("Terminal");
    config.add_vietnamese_app("Notes");
    let mut state = InputState::new(&config);
    state.update_active_app("Terminal".to_string(), &config);
    assert!(!state.is_enabled());
    state.update_active_app("Unknown".to_string(), &config);
    assert!(!state.is_enabled());
    state.update_active_app("Notes".to_string(), &config);
    assert!(state.is_enabled());
    state.update_active_app("Unknown".to_string(), &config);
    assert!(state.is_enabled());
}

#[test]
fn macros_are_looked_up_by_the_word_on_screen() {
    let mut config = ConfigStore::new();
    let mut state = InputState::new(&config);
    state.add_macro("btw".to_string(), "by the way".to_string(), &mut config);
    assert_eq!(state.get_macro_target(), None);
    for c in "btw".chars() {
        state.push(c);
    }
    assert_eq!(state.get_macro_target(), Some(&"by the way".to_string()));
    state.toggle_macro_enabled();
    assert!(!state.is_macro_enabled());
    assert_eq!(state.get_macro_target(), None);
    state.toggle_macro_enabled();
    state.delete_macro(&"btw".to_string(), &mut config);
    assert_eq!(state.get_macro_target(), None);
    assert_eq!(config.get_macro_table().len(), 0);
}

#[test]
fn dismiss_selection_only_for_the_named_browser() {
    let config = ConfigStore::new();
    let mut state = InputState::new(&config);
    assert!(!state.should_dismiss_selection_if_needed());
    state.update_active_app("/Applications/Firefox.app".to_string(), &config);
    assert!(state.should_dismiss_selection_if_needed());
    state.update_active_app("/Applications/firefox.app".to_string(), &config);
    assert!(!state.should_dismiss_selection_if_needed());
}

#[test]
fn typing_method_names() {
    assert_eq!(TypingMethod::from_str("vni"), Ok(TypingMethod::VNI));
    assert_eq!(TypingMethod::from_str("VnI"), Ok(TypingMethod::VNI));
    assert_eq!(TypingMethod::from_str("telex"), Ok(TypingMethod::Telex));
    assert_eq!(TypingMethod::from_str(""), Ok(TypingMethod::Telex));
    assert_eq!(TypingMethod::from_str("vni "), Ok(TypingMethod::Telex));
    assert_eq!(TypingMethod::VNI.to_string(), "vni");
    assert_eq!(TypingMethod::Telex.to_string(), "telex");
}
