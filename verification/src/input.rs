//! The state of the word under the cursor: what was typed, what is shown,
//! and whether the word is still followed.
use crate::config::{with_english_app, with_vietnamese_app, ConfigModel, ConfigStore};
use crate::hotkey::{parse_hotkey, Hotkey, HotkeyModel};
use crate::macros::MacroTable;
use crate::platform::{KeyModifier, ModifierSet};
use crate::text::{
    ascii_lower_seq, char_is_numeric, chars_of, contains, contains_seq, str_eq, string_of_range,
    string_push, to_ascii_lower_vec, unicode_numeric,
};
use vstd::prelude::*;

verus! {

/// The longest word that is followed. The longest Vietnamese word has seven
/// letters; tone and letter marks add a few keys.
pub const MAX_POSSIBLE_WORD_LENGTH: usize = 10;

/// The way Vietnamese marks are typed.
#[allow(clippy::upper_case_acronyms)]
#[derive(PartialEq, Eq, Clone, Copy, Debug, Structural)]
pub enum TypingMethod {
    VNI,
    Telex,
}

/// The method that a name stands for: `vni` in any ASCII case is VNI, every
/// other name is Telex.
pub open spec fn method_of_name(name: Seq<char>) -> TypingMethod {
    if ascii_lower_seq(name) == "vni"@ {
        TypingMethod::VNI
    } else {
        TypingMethod::Telex
    }
}

/// The name of a method.
pub open spec fn name_of_method(method: TypingMethod) -> Seq<char> {
    match method {
        TypingMethod::VNI => "vni"@,
        TypingMethod::Telex => "telex"@,
    }
}

impl TypingMethod {
    /// The method that `s` names. No name is refused.
    pub fn from_str(s: &str) -> (r: Result<TypingMethod, ()>)
        ensures
            r == Ok::<TypingMethod, ()>(method_of_name(s@)),
    {
        let lower = to_ascii_lower_vec(&chars_of(s));
        let vni = chars_of("vni");
        if crate::text::vec_eq(&lower, &vni) {
            Ok(TypingMethod::VNI)
        } else {
            Ok(TypingMethod::Telex)
        }
    }

    /// The name of the method: `vni` or `telex`.
    pub fn to_string(&self) -> (r: String)
        ensures
            r@ == name_of_method(*self),
    {
        match self {
            TypingMethod::VNI => "vni".to_owned(),
            TypingMethod::Telex => "telex".to_owned(),
        }
    }
}

/// The sequences of letters that end the following of a word: a tone key
/// typed twice, or a vowel key typed three times, asks for the plain letters.
pub open spec fn tone_duplicate_patterns() -> Seq<Seq<char>> {
    seq![
        "ss"@,
        "ff"@,
        "jj"@,
        "rr"@,
        "xx"@,
        "ww"@,
        "kk"@,
        "tt"@,
        "nn"@,
        "mm"@,
        "yy"@,
        "hh"@,
        "ii"@,
        "aaa"@,
        "eee"@,
        "ooo"@,
    ]
}

/// The words after which the next word is not followed.
pub open spec fn stop_tracking_words() -> Seq<Seq<char>> {
    seq![";"@, "'"@, "?"@, "/"@]
}

/// Some pattern of `tone_duplicate_patterns` occurs in `s`.
pub open spec fn has_duplicate_pattern(s: Seq<char>) -> bool {
    exists|i: int|
        0 <= i < tone_duplicate_patterns().len() && contains(
            s,
            #[trigger] tone_duplicate_patterns()[i],
        )
}

/// The keys that are looked at while a hotkey is being pressed.
pub struct ChordModel {
    /// The modifiers seen since all of them were last released.
    pub modifiers: ModifierSet,
    /// The last event matched the hotkey.
    pub matching: bool,
    /// Some event since the match did not: the hotkey does not fire at release.
    pub circuit_break: bool,
}

/// The state of the tracker as a mathematical value.
pub struct InputModel {
    /// The keys of the word as they were typed.
    pub typing: Seq<char>,
    /// The word as it stands on screen.
    pub display: Seq<char>,
    /// What was typed of the word before, when it was given up.
    pub previous_word: Seq<char>,
    pub enabled: bool,
    /// Keys are still added to the word.
    pub tracking: bool,
    pub method: TypingMethod,
    pub hotkey: HotkeyModel,
    pub active_app: Seq<char>,
    pub macro_enabled: bool,
    pub macros: Map<Seq<char>, Seq<char>>,
    pub chord: ChordModel,
}

impl InputModel {
    /// No word is under way and the next key starts one.
    pub open spec fn is_idle(self) -> bool {
        self.typing.len() == 0 && self.display.len() == 0 && self.tracking
    }

    /// The word is given up until the next word starts.
    pub open spec fn is_suspended(self) -> bool {
        self.typing.len() == 0 && self.display.len() == 0 && !self.tracking
    }

    /// The state after the word was given up: what was typed is remembered as
    /// the previous word and both buffers are empty.
    pub open spec fn cleared(self) -> InputModel {
        InputModel {
            previous_word: self.typing,
            typing: Seq::empty(),
            display: Seq::empty(),
            ..self
        }
    }

    /// The state at the start of a new word: both buffers empty and keys
    /// followed again. What was typed, if anything, is the previous word.
    pub open spec fn new_word(self) -> InputModel {
        if self.typing.len() > 0 {
            InputModel { tracking: true, ..self.cleared() }
        } else {
            InputModel { display: Seq::empty(), tracking: true, ..self }
        }
    }

    /// The state after following was stopped for the rest of the word.
    pub open spec fn stopped(self) -> InputModel {
        InputModel { tracking: false, ..self.cleared() }
    }

    /// The word holds no more keys than the limit allows.
    pub open spec fn within_limit(self) -> bool {
        self.typing.len() <= MAX_POSSIBLE_WORD_LENGTH
    }

    /// The state after the key `c` went into both buffers. A word that holds
    /// as many keys as the limit allows takes no more: the key is dropped.
    pub open spec fn pushed(self, c: char) -> InputModel {
        if self.typing.len() < MAX_POSSIBLE_WORD_LENGTH {
            InputModel { typing: self.typing.push(c), display: self.display.push(c), ..self }
        } else {
            self
        }
    }

    /// The state after one character was deleted: each buffer loses its last
    /// character, and a word of which nothing is left ends.
    pub open spec fn popped(self) -> InputModel {
        let typing = if self.typing.len() > 0 {
            self.typing.drop_last()
        } else {
            self.typing
        };
        let display = if self.display.len() > 0 {
            self.display.drop_last()
        } else {
            self.display
        };
        if typing.len() == 0 {
            InputModel { typing, display: Seq::empty(), tracking: true, ..self }
        } else {
            InputModel { typing, display, ..self }
        }
    }

    /// The state after the word on screen became `shown`.
    pub open spec fn replaced(self, shown: Seq<char>) -> InputModel {
        InputModel { display: shown, ..self }
    }

    /// The previous word is one of the words after which nothing is followed.
    pub open spec fn previous_word_stops(self) -> bool {
        stop_tracking_words().contains(self.previous_word)
    }

    /// Following must stop: the word is too long, or it holds a doubled tone
    /// key, or the previous word was a lone punctuation mark.
    pub open spec fn should_stop(self) -> bool {
        ||| self.typing.len() > MAX_POSSIBLE_WORD_LENGTH
        ||| has_duplicate_pattern(ascii_lower_seq(self.typing))
        ||| self.previous_word_stops()
    }

    /// The text that the word on screen is a macro for, if macros are on and
    /// the table has it.
    pub open spec fn macro_target(self) -> Option<Seq<char>> {
        if self.macro_enabled && self.macros.contains_key(self.display) {
            Some(self.macros[self.display])
        } else {
            None
        }
    }

    /// The state after Vietnamese was switched on or off: a new word starts.
    pub open spec fn toggled(self) -> InputModel {
        InputModel { enabled: !self.enabled, ..self }.new_word()
    }
}

/// The number of backspaces that take the word on screen away. A key that was
/// just typed is not on screen yet, so one backspace less is needed unless the
/// change comes from a deletion. A selection in the text field swallows one
/// backspace more. The count never passes `usize::MAX`.
pub open spec fn backspace_count(shown: nat, is_delete: bool, in_text_selection: bool) -> nat {
    let base: nat = if is_delete || shown == 0 {
        shown
    } else {
        (shown - 1) as nat
    };
    if in_text_selection && base < usize::MAX {
        base + 1
    } else {
        base
    }
}

/// Whether the key `c` can change the word under the method `method`: a
/// number key under VNI, one of `aeodstjfxrwz` under Telex.
pub open spec fn is_transform_key(method: TypingMethod, c: char) -> bool {
    match method {
        TypingMethod::VNI => unicode_numeric(c),
        TypingMethod::Telex => c == 'a' || c == 'e' || c == 'o' || c == 'd' || c == 's' || c == 't'
            || c == 'j' || c == 'f' || c == 'x' || c == 'r' || c == 'w' || c == 'z',
    }
}

/// The tracker: the word under the cursor and the settings that decide what
/// is done with it.
pub struct InputState {
    buffer: String,
    display_buffer: String,
    method: TypingMethod,
    hotkey: Hotkey,
    enabled: bool,
    should_track: bool,
    previous_word: String,
    active_app: String,
    is_macro_enabled: bool,
    macro_table: MacroTable,
    hotkey_modifiers: KeyModifier,
    hotkey_matching: bool,
    hotkey_circuit_break: bool,
}

impl View for InputState {
    type V = InputModel;

    closed spec fn view(&self) -> InputModel {
        InputModel {
            typing: self.buffer@,
            display: self.display_buffer@,
            previous_word: self.previous_word@,
            enabled: self.enabled,
            tracking: self.should_track,
            method: self.method,
            hotkey: self.hotkey@,
            active_app: self.active_app@,
            macro_enabled: self.is_macro_enabled,
            macros: self.macro_table@,
            chord: ChordModel {
                modifiers: self.hotkey_modifiers@,
                matching: self.hotkey_matching,
                circuit_break: self.hotkey_circuit_break,
            },
        }
    }
}

/// The state of a tracker that was just made from the settings `c`.
pub open spec fn fresh_state(c: ConfigModel) -> InputModel {
    InputModel {
        typing: Seq::empty(),
        display: Seq::empty(),
        previous_word: Seq::empty(),
        enabled: true,
        tracking: true,
        method: method_of_name(c.method),
        hotkey: parse_hotkey(c.hotkey),
        active_app: Seq::empty(),
        macro_enabled: true,
        macros: c.macros,
        chord: ChordModel { modifiers: ModifierSet::empty(), matching: false, circuit_break: false },
    }
}

impl InputState {
    /// A tracker with the method, the hotkey and the macros of the settings.
    /// It starts idle, with Vietnamese and macros on.
    pub fn new(config: &ConfigStore) -> (r: InputState)
        ensures
            r@ == fresh_state(config@),
            r@.is_idle(),
    {
        let method = match TypingMethod::from_str(config.get_method()) {
            Ok(m) => m,
            Err(_) => TypingMethod::Telex,
        };
        InputState {
            buffer: String::new(),
            display_buffer: String::new(),
            method,
            hotkey: Hotkey::from_str(config.get_hotkey()),
            enabled: true,
            should_track: true,
            previous_word: String::new(),
            active_app: String::new(),
            is_macro_enabled: true,
            macro_table: config.get_macro_table().clone(),
            hotkey_modifiers: KeyModifier::new(),
            hotkey_matching: false,
            hotkey_circuit_break: false,
        }
    }

    /// Takes note of the application in front. An application on the
    /// Vietnamese list switches Vietnamese on, one on the English list
    /// switches it off; the English list wins where both hold it.
    pub fn update_active_app(&mut self, app_name: String, config: &ConfigStore)
        ensures
            final(self)@ == (InputModel {
                active_app: app_name@,
                enabled: if config@.en_apps.contains(app_name@) {
                    false
                } else if config@.vn_apps.contains(app_name@) {
                    true
                } else {
                    old(self)@.enabled
                },
                ..old(self)@
            }),
    {
        self.active_app = app_name;
        if config.is_vietnamese_app(self.active_app.as_str()) {
            self.enabled = true;
        }
        if config.is_english_app(self.active_app.as_str()) {
            self.enabled = false;
        }
    }

    pub fn is_enabled(&self) -> (r: bool)
        ensures
            r == self@.enabled,
    {
        self.enabled
    }

    pub fn is_tracking(&self) -> (r: bool)
        ensures
            r == self@.tracking,
    {
        self.should_track
    }

    pub fn is_buffer_empty(&self) -> (r: bool)
        ensures
            r == (self@.typing.len() == 0),
    {
        self.buffer.as_str().unicode_len() == 0
    }

    /// Starts a new word.
    pub fn new_word(&mut self)
        ensures
            final(self)@ == old(self)@.new_word(),
            final(self)@.is_idle(),
    {
        if !self.is_buffer_empty() {
            self.clear();
        } else {
            self.display_buffer = String::new();
        }
        self.should_track = true;
    }

    /// The text that the word on screen is a macro for.
    pub fn get_macro_target(&self) -> (r: Option<&String>)
        ensures
            match r {
                Some(target) => self@.macro_target() == Some(target@),
                None => self@.macro_target().is_none(),
            },
    {
        if !self.is_macro_enabled {
            return None;
        }
        self.macro_table.get(self.display_buffer.as_str())
    }

    pub fn get_typing_buffer(&self) -> (r: &str)
        ensures
            r@ == self@.typing,
    {
        self.buffer.as_str()
    }

    pub fn get_displaying_word(&self) -> (r: &str)
        ensures
            r@ == self@.display,
    {
        self.display_buffer.as_str()
    }

    /// Gives the word up and follows no key until the next word.
    pub fn stop_tracking(&mut self)
        ensures
            final(self)@ == old(self)@.stopped(),
            final(self)@.is_suspended(),
    {
        self.clear();
        self.should_track = false;
    }

    /// Switches Vietnamese on or off and files the application in front under
    /// the language now in use. A new word starts.
    pub fn toggle_vietnamese(&mut self, config: &mut ConfigStore)
        ensures
            final(self)@ == old(self)@.toggled(),
            final(config)@ == if old(self)@.enabled {
                with_english_app(old(config)@, old(self)@.active_app)
            } else {
                with_vietnamese_app(old(config)@, old(self)@.active_app)
            },
    {
        self.enabled = !self.enabled;
        if self.enabled {
            config.add_vietnamese_app(self.active_app.as_str());
        } else {
            config.add_english_app(self.active_app.as_str());
        }
        self.new_word();
    }

    /// Changes the method, in the tracker and in the settings. A new word
    /// starts.
    pub fn set_method(&mut self, method: TypingMethod, config: &mut ConfigStore)
        ensures
            final(self)@ == (InputModel { method, ..old(self)@ }).new_word(),
            final(config)@ == (ConfigModel { method: name_of_method(method), ..old(config)@ }),
    {
        self.method = method;
        self.new_word();
        let name = method.to_string();
        config.set_method(name.as_str());
    }

    pub fn get_method(&self) -> (r: TypingMethod)
        ensures
            r == self@.method,
    {
        self.method
    }

    /// Changes the hotkey, in the tracker and in the settings.
    pub fn set_hotkey(&mut self, key_sequence: &str, config: &mut ConfigStore)
        ensures
            final(self)@ == (InputModel { hotkey: parse_hotkey(key_sequence@), ..old(self)@ }),
            final(config)@ == (ConfigModel { hotkey: key_sequence@, ..old(config)@ }),
    {
        self.hotkey = Hotkey::from_str(key_sequence);
        config.set_hotkey(key_sequence);
    }

    pub fn get_hotkey(&self) -> (r: &Hotkey)
        ensures
            r@ == self@.hotkey,
    {
        &self.hotkey
    }

    pub fn is_macro_enabled(&self) -> (r: bool)
        ensures
            r == self@.macro_enabled,
    {
        self.is_macro_enabled
    }

    pub fn toggle_macro_enabled(&mut self)
        ensures
            final(self)@ == (InputModel {
                macro_enabled: !old(self)@.macro_enabled,
                ..old(self)@
            }),
    {
        self.is_macro_enabled = !self.is_macro_enabled
    }

    pub fn get_macro_table(&self) -> (r: &MacroTable)
        ensures
            r@ == self@.macros,
    {
        &self.macro_table
    }

    /// Takes a macro out, in the tracker and in the settings.
    pub fn delete_macro(&mut self, from: &String, config: &mut ConfigStore)
        ensures
            final(self)@ == (InputModel { macros: old(self)@.macros.remove(from@), ..old(self)@ }),
            final(config)@ == (ConfigModel {
                macros: old(config)@.macros.remove(from@),
                ..old(config)@
            }),
    {
        self.macro_table.remove(from.as_str());
        config.delete_macro(from);
    }

    /// Adds a macro, in the tracker and in the settings.
    pub fn add_macro(&mut self, from: String, to: String, config: &mut ConfigStore)
        ensures
            final(self)@ == (InputModel {
                macros: old(self)@.macros.insert(from@, to@),
                ..old(self)@
            }),
            final(config)@ == (ConfigModel {
                macros: old(config)@.macros.insert(from@, to@),
                ..old(config)@
            }),
    {
        config.add_macro(from.clone(), to.clone());
        self.macro_table.insert(from, to);
    }

    /// Whether the key `c` can change the word: Vietnamese is on and the key
    /// is one that the method gives a meaning to.
    pub fn should_transform_keys(&self, c: &char) -> (r: bool)
        ensures
            r == (self@.enabled && is_transform_key(self@.method, *c)),
    {
        let c = *c;
        self.enabled && match self.method {
            TypingMethod::VNI => char_is_numeric(c),
            TypingMethod::Telex => c == 'a' || c == 'e' || c == 'o' || c == 'd' || c == 's' || c
                == 't' || c == 'j' || c == 'f' || c == 'x' || c == 'r' || c == 'w' || c == 'z',
        }
    }

    /// Whether `word` differs from the word on screen, so that the screen has
    /// to be rewritten to show it.
    pub fn should_send_keyboard_event(&self, word: &str) -> (r: bool)
        ensures
            r == (word@ != self@.display),
    {
        !str_eq(self.display_buffer.as_str(), word)
    }

    /// Whether the application in front is one whose text field selects its
    /// content by itself, so that the selection must be dismissed first.
    pub fn should_dismiss_selection_if_needed(&self) -> (r: bool)
        ensures
            r == contains(self@.active_app, "Firefox"@),
    {
        let app = chars_of(self.active_app.as_str());
        let name = chars_of("Firefox");
        contains_seq(&app, &name)
    }

    /// The number of backspaces that take the word on screen away.
    pub fn get_backspace_count(&self, is_delete: bool, in_text_selection: bool) -> (r: usize)
        ensures
            r == backspace_count(self@.display.len(), is_delete, in_text_selection),
    {
        let dp_len: usize = self.display_buffer.as_str().unicode_len();
        let count: usize = if is_delete || dp_len == 0 {
            dp_len
        } else {
            dp_len - 1
        };
        if in_text_selection && count < usize::MAX {
            count + 1
        } else {
            count
        }
    }

    /// Makes `buf` the word on screen.
    pub fn replace(&mut self, buf: String)
        ensures
            final(self)@ == old(self)@.replaced(buf@),
    {
        self.display_buffer = buf;
    }

    /// Adds a key to the word, unless the word is full.
    pub fn push(&mut self, c: char)
        ensures
            final(self)@ == old(self)@.pushed(c),
    {
        if self.buffer.as_str().unicode_len() < MAX_POSSIBLE_WORD_LENGTH {
            string_push(&mut self.buffer, c);
            string_push(&mut self.display_buffer, c);
        }
    }

    /// Deletes the last character of the word.
    pub fn pop(&mut self)
        ensures
            final(self)@ == old(self)@.popped(),
    {
        self.display_buffer = without_last(self.display_buffer.as_str());
        self.buffer = without_last(self.buffer.as_str());
        if self.is_buffer_empty() {
            proof {
                assert(self.buffer@ =~= Seq::<char>::empty());
            }
            self.display_buffer = String::new();
            self.should_track = true;
        }
    }

    /// Gives the word up: what was typed becomes the previous word.
    pub fn clear(&mut self)
        ensures
            final(self)@ == old(self)@.cleared(),
    {
        self.previous_word = self.buffer.clone();
        self.buffer = String::new();
        self.display_buffer = String::new();
    }

    pub fn get_previous_word(&self) -> (r: &str)
        ensures
            r@ == self@.previous_word,
    {
        self.previous_word.as_str()
    }

    pub fn clear_previous_word(&mut self)
        ensures
            final(self)@ == (InputModel { previous_word: Seq::empty(), ..old(self)@ }),
    {
        self.previous_word = String::new();
    }

    pub fn previous_word_is_stop_tracking_words(&self) -> (r: bool)
        ensures
            r == self@.previous_word_stops(),
    {
        let w = self.previous_word.as_str();
        let r = str_eq(w, ";") || str_eq(w, "'") || str_eq(w, "?") || str_eq(w, "/");
        proof {
            let words = stop_tracking_words();
            assert(words[0] == ";"@ && words[1] == "'"@ && words[2] == "?"@ && words[3] == "/"@);
        }
        r
    }

    /// Whether following must stop.
    pub fn should_stop_tracking(&self) -> (r: bool)
        ensures
            r == self@.should_stop(),
    {
        let typed = chars_of(self.buffer.as_str());
        if typed.len() > MAX_POSSIBLE_WORD_LENGTH {
            return true;
        }
        let lower = to_ascii_lower_vec(&typed);
        if holds_duplicate_pattern(&lower) {
            return true;
        }
        self.previous_word_is_stop_tracking_words()
    }

    /// Stops following if it must stop.
    pub fn stop_tracking_if_needed(&mut self)
        ensures
            final(self)@ == if old(self)@.should_stop() {
                old(self)@.stopped()
            } else {
                old(self)@
            },
    {
        if self.should_stop_tracking() {
            self.stop_tracking();
        }
    }

    /// The modifiers seen since all of them were last released.
    pub fn get_hotkey_modifiers(&self) -> (r: KeyModifier)
        ensures
            r@ == self@.chord.modifiers,
    {
        self.hotkey_modifiers
    }

    /// Whether the last event matched the hotkey.
    pub fn is_hotkey_matching(&self) -> (r: bool)
        ensures
            r == self@.chord.matching,
    {
        self.hotkey_matching
    }

    /// Whether some event since the match did not match any more.
    pub fn is_hotkey_circuit_break(&self) -> (r: bool)
        ensures
            r == self@.chord.circuit_break,
    {
        self.hotkey_circuit_break
    }

    /// Forgets the keys of a hotkey seen so far.
    pub fn reset_hotkey_chord(&mut self)
        ensures
            final(self)@ == (InputModel {
                chord: ChordModel {
                    modifiers: ModifierSet::empty(),
                    matching: false,
                    circuit_break: false,
                },
                ..old(self)@
            }),
    {
        self.hotkey_modifiers = KeyModifier::new();
        self.hotkey_matching = false;
        self.hotkey_circuit_break = false;
    }

    /// Adds modifiers to those seen since the last release.
    pub fn hold_hotkey_modifiers(&mut self, modifiers: KeyModifier)
        ensures
            final(self)@ == (InputModel {
                chord: ChordModel {
                    modifiers: old(self)@.chord.modifiers.union(modifiers@),
                    ..old(self)@.chord
                },
                ..old(self)@
            }),
    {
        let mut held = self.hotkey_modifiers;
        held.insert(modifiers);
        self.hotkey_modifiers = held;
    }

    /// Takes note of whether the event at hand matched the hotkey. A match
    /// that is followed by an event that does not match breaks the chord.
    pub fn note_hotkey_match(&mut self, matched: bool)
        ensures
            final(self)@ == (InputModel {
                chord: ChordModel {
                    matching: matched,
                    circuit_break: old(self)@.chord.circuit_break || (old(self)@.chord.matching
                        && !matched),
                    ..old(self)@.chord
                },
                ..old(self)@
            }),
    {
        if self.hotkey_matching && !matched {
            self.hotkey_circuit_break = true;
        }
        self.hotkey_matching = matched;
    }
}

/// `s` without its last character; an empty text stays empty.
pub fn without_last(s: &str) -> (r: String)
    ensures
        r@ == if s@.len() > 0 {
            s@.drop_last()
        } else {
            s@
        },
{
    let chars = chars_of(s);
    let n: usize = chars.len();
    if n > 0 {
        string_of_range(&chars, 0, n - 1)
    } else {
        proof {
            assert(s@ =~= Seq::<char>::empty());
        }
        String::new()
    }
}

/// Whether some pattern of `tone_duplicate_patterns` occurs in `s`.
pub fn holds_duplicate_pattern(s: &Vec<char>) -> (r: bool)
    ensures
        r == has_duplicate_pattern(s@),
{
    let patterns: [&str; 16] = [
        "ss",
        "ff",
        "jj",
        "rr",
        "xx",
        "ww",
        "kk",
        "tt",
        "nn",
        "mm",
        "yy",
        "hh",
        "ii",
        "aaa",
        "eee",
        "ooo",
    ];
    proof {
        assert(tone_duplicate_patterns().len() == 16);
        assert forall|k: int| 0 <= k < 16 implies patterns@[k]@ == #[trigger]
            tone_duplicate_patterns()[k] by {}
    }
    let mut i: usize = 0;
    while i < 16
        invariant
            i <= 16,
            tone_duplicate_patterns().len() == 16,
            forall|k: int| 0 <= k < 16 ==> patterns@[k]@ == #[trigger] tone_duplicate_patterns()[k],
            forall|k: int| 0 <= k < i ==> !contains(s@, #[trigger] tone_duplicate_patterns()[k]),
        decreases 16 - i,
    {
        let pattern = chars_of(patterns[i]);
        if contains_seq(s, &pattern) {
            return true;
        }
        i += 1;
    }
    false
}

/// The state after the first `n` keys of `keys` were typed, the word on
/// screen having been rewritten to `shown[i]` after the key `keys[i]`.
pub open spec fn typed_through(m: InputModel, keys: Seq<char>, shown: Seq<Seq<char>>, n: int) -> InputModel
    decreases n,
{
    if n <= 0 {
        m
    } else {
        typed_through(m, keys, shown, n - 1).pushed(keys[n - 1]).replaced(shown[n - 1])
    }
}

/// The typing buffer holds the keys as they were typed, whatever the word on
/// screen was rewritten to in between: as long as the word does not pass the
/// limit, `n` keys typed after one another leave the buffer as it was with
/// those keys behind it.
pub proof fn lemma_typing_buffer_keeps_keys(
    m: InputModel,
    keys: Seq<char>,
    shown: Seq<Seq<char>>,
    n: int,
)
    requires
        0 <= n <= keys.len(),
        n <= shown.len(),
        m.typing.len() + n <= MAX_POSSIBLE_WORD_LENGTH,
    ensures
        typed_through(m, keys, shown, n).typing == m.typing + keys.subrange(0, n),
        typed_through(m, keys, shown, n).tracking == m.tracking,
        typed_through(m, keys, shown, n).previous_word == m.previous_word,
    decreases n,
{
    if n <= 0 {
        assert(m.typing + keys.subrange(0, 0) =~= m.typing);
    } else {
        lemma_typing_buffer_keeps_keys(m, keys, shown, n - 1);
        assert((m.typing + keys.subrange(0, n - 1)).push(keys[n - 1]) =~= m.typing
            + keys.subrange(0, n));
    }
}

/// A word that starts on an idle tracker and has at most as many keys as the
/// limit allows stands in the typing buffer exactly as it was typed.
pub proof fn lemma_fresh_word_is_kept(m: InputModel, keys: Seq<char>, shown: Seq<Seq<char>>)
    requires
        m.is_idle(),
        keys.len() <= MAX_POSSIBLE_WORD_LENGTH,
        keys.len() <= shown.len(),
    ensures
        typed_through(m, keys, shown, keys.len() as int).typing == keys,
{
    lemma_typing_buffer_keeps_keys(m, keys, shown, keys.len() as int);
    assert(m.typing + keys.subrange(0, keys.len() as int) =~= keys);
}

/// The typing buffer never holds more keys than the limit allows: a tracker
/// that was just made is within the limit, and a tracker within the limit
/// stays within it whatever is done to the word. A key for a full word is
/// dropped and changes nothing.
pub proof fn lemma_word_limit_is_kept(m: InputModel, c: char, shown: Seq<char>)
    requires
        m.within_limit(),
    ensures
        m.pushed(c).within_limit(),
        m.popped().within_limit(),
        m.replaced(shown).within_limit(),
        m.cleared().within_limit(),
        m.new_word().within_limit(),
        m.stopped().within_limit(),
        m.toggled().within_limit(),
        m.typing.len() == MAX_POSSIBLE_WORD_LENGTH ==> m.pushed(c) == m,
        !(m.typing.len() > MAX_POSSIBLE_WORD_LENGTH),
{
}

/// A tracker that was just made holds no key.
pub proof fn lemma_fresh_state_is_within_limit(c: ConfigModel)
    ensures
        fresh_state(c).within_limit(),
        fresh_state(c).is_idle(),
{
}

/// A doubled tone key at the end of what was typed stops the following of
/// the word, whatever else was typed.
pub proof fn lemma_pattern_stops(m: InputModel, i: int, at: int)
    requires
        0 <= i < tone_duplicate_patterns().len(),
        crate::text::occurs_at(ascii_lower_seq(m.typing), tone_duplicate_patterns()[i], at),
    ensures
        m.should_stop(),
        m.stopped().is_suspended(),
{
    assert(contains(ascii_lower_seq(m.typing), tone_duplicate_patterns()[i]));
}

} // verus!
