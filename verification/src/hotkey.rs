//! The key combination that switches the input method on and off: how it is
//! read from its text form, shown, and matched against the keys held.
use crate::platform::{
    KeyModifier, ModifierSet, KEY_DELETE, KEY_ENTER, KEY_ESCAPE, KEY_SPACE, KEY_TAB,
    MODIFIER_CAPSLOCK,
};
use crate::text::{
    ascii_upper, chars_of, eq_ignoring_ascii_case, same_ignoring_ascii_case, split, split_on,
    str_eq, str_to_uppercase, string_of, string_push, to_ascii_upper, trim, trimmed,
    unicode_upper, views,
};
use vstd::prelude::*;

verus! {

pub const SYMBOL_SHIFT: &'static str = "⇧";

pub const SYMBOL_CTRL: &'static str = "⌃";

pub const SYMBOL_SUPER: &'static str = "⌘";

pub const SYMBOL_ALT: &'static str = "⌥";

/// A hotkey as a mathematical value: the modifiers to hold, and the key to
/// press with them, if any.
pub struct HotkeyModel {
    pub modifiers: ModifierSet,
    pub keycode: Option<char>,
}

/// What one token of a hotkey text adds to a hotkey. The token is taken
/// trimmed and in upper case. A name of a modifier adds that modifier, a name
/// of a key sets the key, and any other token sets the key to its last
/// character, or to none if it is empty.
pub open spec fn token_effect(h: HotkeyModel, token: Seq<char>) -> HotkeyModel {
    if token == "SHIFT"@ {
        HotkeyModel { modifiers: ModifierSet { shift: true, ..h.modifiers }, ..h }
    } else if token == "ALT"@ {
        HotkeyModel { modifiers: ModifierSet { alt: true, ..h.modifiers }, ..h }
    } else if token == "SUPER"@ {
        HotkeyModel { modifiers: ModifierSet { super_key: true, ..h.modifiers }, ..h }
    } else if token == "CTRL"@ {
        HotkeyModel { modifiers: ModifierSet { control: true, ..h.modifiers }, ..h }
    } else if token == "ENTER"@ {
        HotkeyModel { keycode: Some(KEY_ENTER), ..h }
    } else if token == "SPACE"@ {
        HotkeyModel { keycode: Some(KEY_SPACE), ..h }
    } else if token == "TAB"@ {
        HotkeyModel { keycode: Some(KEY_TAB), ..h }
    } else if token == "DELETE"@ {
        HotkeyModel { keycode: Some(KEY_DELETE), ..h }
    } else if token == "ESC"@ {
        HotkeyModel { keycode: Some(KEY_ESCAPE), ..h }
    } else if token.len() > 0 {
        HotkeyModel { keycode: Some(token.last()), ..h }
    } else {
        HotkeyModel { keycode: None, ..h }
    }
}

/// The hotkey after the pieces `pieces[from..]` of a hotkey text, each trimmed
/// and put in upper case, have been applied to `h` in order.
pub open spec fn apply_pieces(h: HotkeyModel, pieces: Seq<Seq<char>>, from: int) -> HotkeyModel
    decreases pieces.len() - from,
{
    if from < 0 || from >= pieces.len() {
        h
    } else {
        apply_pieces(token_effect(h, unicode_upper(trimmed(pieces[from]))), pieces, from + 1)
    }
}

/// The hotkey with no modifier and no key.
pub open spec fn no_hotkey() -> HotkeyModel {
    HotkeyModel { modifiers: ModifierSet::empty(), keycode: None }
}

/// The hotkey that a text stands for: its pieces between `+` signs, applied
/// from left to right.
pub open spec fn parse_hotkey(input: Seq<char>) -> HotkeyModel {
    apply_pieces(no_hotkey(), split(input, '+'), 0)
}

/// Whether a pressed key stands for the key of a hotkey. Letters match without
/// regard to ASCII case; no key matches only no key.
pub open spec fn key_matches(wanted: Option<char>, pressed: Option<char>) -> bool {
    match (wanted, pressed) {
        (Some(a), Some(b)) => same_ignoring_ascii_case(a, b),
        (None, None) => true,
        _ => false,
    }
}

/// Whether the modifiers held and the key pressed are those of the hotkey.
/// Caps lock among the modifiers held is not counted.
pub open spec fn hotkey_matches(h: HotkeyModel, held: ModifierSet, pressed: Option<char>) -> bool {
    h.modifiers == held.without_capslock() && key_matches(h.keycode, pressed)
}

/// The text of the key of a hotkey, as it is shown.
pub open spec fn key_text(keycode: Option<char>) -> Seq<char> {
    match keycode {
        Some(c) => if c == KEY_ENTER {
            "Enter"@
        } else if c == KEY_SPACE {
            "Space"@
        } else if c == KEY_TAB {
            "Tab"@
        } else if c == KEY_DELETE {
            "Del"@
        } else if c == KEY_ESCAPE {
            "Esc"@
        } else {
            seq![ascii_upper(c)]
        },
        None => Seq::<char>::empty(),
    }
}

/// The symbol of a modifier followed by a space if the modifier is held, and
/// nothing if not.
pub open spec fn symbol_text(held: bool, symbol: Seq<char>) -> Seq<char> {
    if held {
        symbol + seq![' ']
    } else {
        Seq::<char>::empty()
    }
}

/// The text of a hotkey, as it is shown: the symbols of its modifiers in the
/// order control, shift, alt, super, each followed by a space, then its key.
pub open spec fn hotkey_text(h: HotkeyModel) -> Seq<char> {
    symbol_text(h.modifiers.control, SYMBOL_CTRL@) + symbol_text(h.modifiers.shift, SYMBOL_SHIFT@)
        + symbol_text(h.modifiers.alt, SYMBOL_ALT@) + symbol_text(
        h.modifiers.super_key,
        SYMBOL_SUPER@,
    ) + key_text(h.keycode)
}

fn push_symbol(out: &mut String, held: bool, symbol: &str)
    ensures
        final(out)@ == old(out)@ + symbol_text(held, symbol@),
{
    if held {
        out.append(symbol);
        out.append(" ");
        proof {
            reveal_strlit(" ");
            assert(" "@ =~= seq![' ']);
            assert(out@ =~= old(out)@ + symbol_text(held, symbol@));
        }
    } else {
        proof {
            assert(out@ =~= old(out)@ + symbol_text(held, symbol@));
        }
    }
}

/// The text of the key of a hotkey, as it is shown.
pub fn key_name(keycode: Option<char>) -> (r: String)
    ensures
        r@ == key_text(keycode),
{
    let mut out = String::new();
    match keycode {
        Some(c) => {
            if c == KEY_ENTER {
                out.append("Enter");
            } else if c == KEY_SPACE {
                out.append("Space");
            } else if c == KEY_TAB {
                out.append("Tab");
            } else if c == KEY_DELETE {
                out.append("Del");
            } else if c == KEY_ESCAPE {
                out.append("Esc");
            } else {
                string_push(&mut out, to_ascii_upper(c));
            }
        },
        None => {},
    }
    proof {
        assert(out@ =~= key_text(keycode));
    }
    out
}

/// A key combination: modifiers and at most one key.
#[derive(Debug, Clone, Copy)]
pub struct Hotkey {
    modifiers: KeyModifier,
    keycode: Option<char>,
}

impl View for Hotkey {
    type V = HotkeyModel;

    closed spec fn view(&self) -> HotkeyModel {
        HotkeyModel { modifiers: self.modifiers@, keycode: self.keycode }
    }
}

impl Hotkey {
    /// The hotkey with no modifier and no key.
    pub fn new() -> (r: Hotkey)
        ensures
            r@ == no_hotkey(),
    {
        Hotkey { modifiers: KeyModifier::new(), keycode: None }
    }

    /// Applies one token of a hotkey text, given trimmed and in upper case.
    pub fn apply_token(&mut self, token: &str)
        ensures
            final(self)@ == token_effect(old(self)@, token@),
    {
        if str_eq(token, "SHIFT") {
            self.modifiers.add_shift();
        } else if str_eq(token, "ALT") {
            self.modifiers.add_alt();
        } else if str_eq(token, "SUPER") {
            self.modifiers.add_super();
        } else if str_eq(token, "CTRL") {
            self.modifiers.add_control();
        } else if str_eq(token, "ENTER") {
            self.keycode = Some(KEY_ENTER);
        } else if str_eq(token, "SPACE") {
            self.keycode = Some(KEY_SPACE);
        } else if str_eq(token, "TAB") {
            self.keycode = Some(KEY_TAB);
        } else if str_eq(token, "DELETE") {
            self.keycode = Some(KEY_DELETE);
        } else if str_eq(token, "ESC") {
            self.keycode = Some(KEY_ESCAPE);
        } else {
            let chars = chars_of(token);
            let n: usize = chars.len();
            if n > 0 {
                self.keycode = Some(chars[n - 1]);
            } else {
                self.keycode = None;
            }
        }
    }

    /// Reads a hotkey from its text form: tokens joined by `+`, each one of
    /// `shift`, `alt`, `super`, `ctrl`, a key name or a character, in any
    /// case and with white space around it. The last token that is no
    /// modifier gives the key.
    pub fn from_str(input: &str) -> (r: Hotkey)
        ensures
            r@ == parse_hotkey(input@),
    {
        let chars = chars_of(input);
        let pieces = split_on(&chars, '+');
        let mut hotkey = Hotkey::new();
        let mut i: usize = 0;
        while i < pieces.len()
            invariant
                i <= pieces@.len(),
                views(pieces@) == split(input@, '+'),
                apply_pieces(hotkey@, views(pieces@), i as int) == parse_hotkey(input@),
            decreases pieces.len() - i,
        {
            let piece = trim(&pieces[i]);
            let text = string_of(&piece);
            let upper = str_to_uppercase(text.as_str());
            proof {
                assert(views(pieces@)[i as int] == pieces@[i as int]@);
            }
            hotkey.apply_token(upper.as_str());
            i += 1;
        }
        hotkey
    }

    /// Whether the modifiers held and the key pressed are those of this
    /// hotkey. Caps lock is not counted.
    pub fn is_match(&self, modifiers: KeyModifier, keycode: Option<char>) -> (r: bool)
        ensures
            r == hotkey_matches(self@, modifiers@, keycode),
    {
        let mut held = modifiers;
        held.remove(KeyModifier::from_bits_truncate(MODIFIER_CAPSLOCK));
        proof {
            crate::platform::lemma_capslock_bit();
        }
        let letter_matched = match (self.keycode, keycode) {
            (Some(a), Some(b)) => eq_ignoring_ascii_case(a, b),
            (None, None) => true,
            _ => false,
        };
        self.modifiers.same(&held) && letter_matched
    }

    /// The modifiers and the key of this hotkey.
    pub fn inner(&self) -> (r: (KeyModifier, Option<char>))
        ensures
            r.0@ == self@.modifiers,
            r.0 == self.spec_modifiers(),
            r.1 == self@.keycode,
    {
        (self.modifiers, self.keycode)
    }

    /// The modifiers of this hotkey.
    pub closed spec fn spec_modifiers(&self) -> KeyModifier {
        self.modifiers
    }

    /// The text under which the hotkey is shown.
    pub fn to_string(&self) -> (r: String)
        ensures
            r@ == hotkey_text(self@),
    {
        let mut out = String::new();
        push_symbol(&mut out, self.modifiers.is_control(), SYMBOL_CTRL);
        push_symbol(&mut out, self.modifiers.is_shift(), SYMBOL_SHIFT);
        push_symbol(&mut out, self.modifiers.is_alt(), SYMBOL_ALT);
        push_symbol(&mut out, self.modifiers.is_super(), SYMBOL_SUPER);
        let key = key_name(self.keycode);
        out.append(key.as_str());
        proof {
            assert(out@ =~= hotkey_text(self@));
        }
        out
    }
}

/// Caps lock does not count: a hotkey matches with it exactly when it
/// matches without it.
pub proof fn lemma_capslock_is_not_counted(h: HotkeyModel, held: ModifierSet, pressed: Option<char>)
    ensures
        hotkey_matches(h, held, pressed) == hotkey_matches(
            h,
            ModifierSet { capslock: !held.capslock, ..held },
            pressed,
        ),
{
}

/// The order of the tokens does not count for the modifiers: two tokens
/// applied one way or the other leave the same modifiers.
pub proof fn lemma_token_order_keeps_modifiers(h: HotkeyModel, a: Seq<char>, b: Seq<char>)
    ensures
        token_effect(token_effect(h, a), b).modifiers == token_effect(
            token_effect(h, b),
            a,
        ).modifiers,
{
}

/// The key of a hotkey is that of the last token applied that is no name of a
/// modifier.
pub proof fn lemma_last_key_token_wins(h: HotkeyModel, a: Seq<char>, b: Seq<char>)
    requires
        b != "SHIFT"@,
        b != "ALT"@,
        b != "SUPER"@,
        b != "CTRL"@,
    ensures
        token_effect(token_effect(h, a), b).keycode == token_effect(h, b).keycode,
{
}

} // verus!
