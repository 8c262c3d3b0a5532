//! How the key of the hotkey is written in the settings window and read back
//! from it.
use crate::input::TypingMethod;
use crate::platform::{modifier_text, KeyModifier, ModifierSet};
use crate::text::{
    ascii_upper, char_is_ascii_whitespace, chars_of, find, find_from, find_in, is_ascii_whitespace,
    str_eq, string_of_range, string_push, to_ascii_upper,
};
use vstd::prelude::*;

verus! {

/// The text of the key of a hotkey in the settings window: `Space` for white
/// space, the key in upper case otherwise, and nothing for no key.
pub open spec fn letter_key_text(c: Option<char>) -> Seq<char> {
    match c {
        Some(c) => if is_ascii_whitespace(c) {
            "Space"@
        } else {
            seq![ascii_upper(c)]
        },
        None => Seq::<char>::empty(),
    }
}

/// The key that a text of the settings window stands for: a space for
/// `Space`, the character itself for a text of one ASCII character, and no
/// key for every other text.
pub open spec fn letter_key_of(input: Seq<char>) -> Option<char> {
    if input == "Space"@ {
        Some(' ')
    } else if input.len() == 1 && (input[0] as u32) < 0x80 {
        Some(input[0])
    } else {
        None
    }
}

pub fn format_letter_key(c: Option<char>) -> (r: String)
    ensures
        r@ == letter_key_text(c),
{
    match c {
        Some(c) => {
            if char_is_ascii_whitespace(c) {
                "Space".to_owned()
            } else {
                let mut out = String::new();
                string_push(&mut out, to_ascii_upper(c));
                proof {
                    assert(out@ =~= seq![ascii_upper(c)]);
                }
                out
            }
        },
        None => String::new(),
    }
}

pub fn letter_key_to_char(input: &str) -> (r: Option<char>)
    ensures
        r == letter_key_of(input@),
{
    if str_eq(input, "Space") {
        Some(' ')
    } else {
        let chars = chars_of(input);
        if chars.len() == 1 && (chars[0] as u32) < 0x80 {
            Some(chars[0])
        } else {
            None
        }
    }
}

/// The title of the input method in the menu bar. While Vietnamese is on it
/// is `VN`, or `gõ` in the playful mode; while it is off it is `EN`, or in
/// the playful mode `gox` under Telex and `go4` under VNI.
pub open spec fn tray_title_text(is_enabled: bool, is_gox_mode: bool, method: TypingMethod) -> Seq<
    char,
> {
    if is_enabled {
        if is_gox_mode {
            "gõ"@
        } else {
            "VN"@
        }
    } else if is_gox_mode {
        match method {
            TypingMethod::Telex => "gox"@,
            TypingMethod::VNI => "go4"@,
        }
    } else {
        "EN"@
    }
}

pub fn tray_title(is_enabled: bool, is_gox_mode: bool, method: TypingMethod) -> (r: &'static str)
    ensures
        r@ == tray_title_text(is_enabled, is_gox_mode, method),
{
    if is_enabled {
        if is_gox_mode {
            "gõ"
        } else {
            "VN"
        }
    } else if is_gox_mode {
        match method {
            TypingMethod::Telex => "gox",
            TypingMethod::VNI => "go4",
        }
    } else {
        "EN"
    }
}

/// The text form of a hotkey made of the modifiers `held` and the key `key`:
/// the names of the modifiers, each followed by `+`, then `space` for a
/// space, the key itself for another key, and nothing for no key.
pub open spec fn hotkey_sequence_text(held: ModifierSet, key: Option<char>) -> Seq<char> {
    modifier_text(held) + match key {
        Some(c) => if c == ' ' {
            "space"@
        } else {
            seq![c]
        },
        None => Seq::<char>::empty(),
    }
}

pub fn hotkey_sequence(modifiers: KeyModifier, key: Option<char>) -> (r: String)
    ensures
        r@ == hotkey_sequence_text(modifiers@, key),
{
    let mut out = modifiers.to_string();
    match key {
        Some(c) => {
            if c == ' ' {
                out.append("space");
            } else {
                string_push(&mut out, c);
            }
        },
        None => {},
    }
    proof {
        assert(out@ =~= hotkey_sequence_text(modifiers@, key));
    }
    out
}

/// The path of the application bundle that holds the program at `exe_path`:
/// where `.app/` occurs exactly once in the path, the path up to and with
/// `.app`; every other path as it is.
pub open spec fn bundle_path_of(exe_path: Seq<char>) -> Seq<char> {
    let mark = ".app/"@;
    match find(exe_path, mark) {
        Some(i) => if 0 <= i && i + mark.len() <= exe_path.len() && find_from(
            exe_path,
            mark,
            i + mark.len(),
        ).is_none() {
            exe_path.subrange(0, i) + ".app"@
        } else {
            exe_path
        },
        None => exe_path,
    }
}

pub fn app_bundle_path(exe_path: &str) -> (r: String)
    ensures
        r@ == bundle_path_of(exe_path@),
{
    let chars = chars_of(exe_path);
    let mark = chars_of(".app/");
    let n: usize = chars.len();
    match find_in(&chars, &mark, 0) {
        Some(i) => {
            if find_in(&chars, &mark, i + mark.len()).is_none() {
                let mut out = string_of_range(&chars, 0, i);
                out.append(".app");
                out
            } else {
                exe_path.to_owned()
            }
        },
        None => exe_path.to_owned(),
    }
}

} // verus!
