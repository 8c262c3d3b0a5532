//! The keys of the keyboard: which character a key code stands for on the
//! layout in use, and which keys are asked of the layout when it changes.
use crate::platform::{PressedKey, KEY_DELETE, KEY_ENTER, KEY_ESCAPE, KEY_SPACE, KEY_TAB};
use vstd::prelude::*;

verus! {

/// The characters of the keys that depend on the layout, as the US layout
/// types them without modifiers.
pub open spec fn predefined_chars() -> Seq<char> {
    seq![
        'a',
        '`',
        '1',
        '2',
        '3',
        '4',
        '5',
        '6',
        '7',
        '8',
        '9',
        '0',
        '-',
        '=',
        'q',
        'w',
        'e',
        'r',
        't',
        'y',
        'u',
        'i',
        'o',
        'p',
        '[',
        ']',
        's',
        'd',
        'f',
        'g',
        'h',
        'j',
        'k',
        'l',
        ';',
        '\'',
        '\\',
        'z',
        'x',
        'c',
        'v',
        'b',
        'n',
        'm',
        ',',
        '.',
        '/',
    ]
}

/// The characters of the keys that depend on the layout.
pub fn get_predefined_chars() -> (r: Vec<char>)
    ensures
        r@ == predefined_chars(),
{
    let chars: [char; 47] = [
        'a',
        '`',
        '1',
        '2',
        '3',
        '4',
        '5',
        '6',
        '7',
        '8',
        '9',
        '0',
        '-',
        '=',
        'q',
        'w',
        'e',
        'r',
        't',
        'y',
        'u',
        'i',
        'o',
        'p',
        '[',
        ']',
        's',
        'd',
        'f',
        'g',
        'h',
        'j',
        'k',
        'l',
        ';',
        '\'',
        '\\',
        'z',
        'x',
        'c',
        'v',
        'b',
        'n',
        'm',
        ',',
        '.',
        '/',
    ];
    let mut out: Vec<char> = Vec::new();
    let mut i: usize = 0;
    while i < 47
        invariant
            i <= 47,
            out@ == chars@.subrange(0, i as int),
        decreases 47 - i,
    {
        out.push(chars[i]);
        i += 1;
        proof {
            assert(out@ =~= chars@.subrange(0, i as int));
        }
    }
    proof {
        assert(chars@.subrange(0, 47) =~= chars@);
        assert(chars@ =~= predefined_chars());
    }
    out
}

/// A key of the keyboard by its place, named after what the US layout has
/// there.
#[derive(Debug, Clone, Copy, PartialEq, Eq, Structural)]
pub enum LayoutKey {
    KeyA,
    BackQuote,
    Num1,
    Num2,
    Num3,
    Num4,
    Num5,
    Num6,
    Num7,
    Num8,
    Num9,
    Num0,
    Minus,
    Equal,
    KeyQ,
    KeyW,
    KeyE,
    KeyR,
    KeyT,
    KeyY,
    KeyU,
    KeyI,
    KeyO,
    KeyP,
    LeftBracket,
    RightBracket,
    KeyS,
    KeyD,
    KeyF,
    KeyG,
    KeyH,
    KeyJ,
    KeyK,
    KeyL,
    SemiColon,
    Quote,
    BackSlash,
    KeyZ,
    KeyX,
    KeyC,
    KeyV,
    KeyB,
    KeyN,
    KeyM,
    Comma,
    Dot,
    Slash,
    /// A key that is not asked of the layout, by a code.
    Unknown(u32),
}

/// The key on which the US layout has the character `c`.
pub open spec fn key_of_char(c: char) -> LayoutKey {
    if c == 'a' {
        LayoutKey::KeyA
    } else if c == '`' {
        LayoutKey::BackQuote
    } else if c == '1' {
        LayoutKey::Num1
    } else if c == '2' {
        LayoutKey::Num2
    } else if c == '3' {
        LayoutKey::Num3
    } else if c == '4' {
        LayoutKey::Num4
    } else if c == '5' {
        LayoutKey::Num5
    } else if c == '6' {
        LayoutKey::Num6
    } else if c == '7' {
        LayoutKey::Num7
    } else if c == '8' {
        LayoutKey::Num8
    } else if c == '9' {
        LayoutKey::Num9
    } else if c == '0' {
        LayoutKey::Num0
    } else if c == '-' {
        LayoutKey::Minus
    } else if c == '=' {
        LayoutKey::Equal
    } else if c == 'q' {
        LayoutKey::KeyQ
    } else if c == 'w' {
        LayoutKey::KeyW
    } else if c == 'e' {
        LayoutKey::KeyE
    } else if c == 'r' {
        LayoutKey::KeyR
    } else if c == 't' {
        LayoutKey::KeyT
    } else if c == 'y' {
        LayoutKey::KeyY
    } else if c == 'u' {
        LayoutKey::KeyU
    } else if c == 'i' {
        LayoutKey::KeyI
    } else if c == 'o' {
        LayoutKey::KeyO
    } else if c == 'p' {
        LayoutKey::KeyP
    } else if c == '[' {
        LayoutKey::LeftBracket
    } else if c == ']' {
        LayoutKey::RightBracket
    } else if c == 's' {
        LayoutKey::KeyS
    } else if c == 'd' {
        LayoutKey::KeyD
    } else if c == 'f' {
        LayoutKey::KeyF
    } else if c == 'g' {
        LayoutKey::KeyG
    } else if c == 'h' {
        LayoutKey::KeyH
    } else if c == 'j' {
        LayoutKey::KeyJ
    } else if c == 'k' {
        LayoutKey::KeyK
    } else if c == 'l' {
        LayoutKey::KeyL
    } else if c == ';' {
        LayoutKey::SemiColon
    } else if c == '\'' {
        LayoutKey::Quote
    } else if c == '\\' {
        LayoutKey::BackSlash
    } else if c == 'z' {
        LayoutKey::KeyZ
    } else if c == 'x' {
        LayoutKey::KeyX
    } else if c == 'c' {
        LayoutKey::KeyC
    } else if c == 'v' {
        LayoutKey::KeyV
    } else if c == 'b' {
        LayoutKey::KeyB
    } else if c == 'n' {
        LayoutKey::KeyN
    } else if c == 'm' {
        LayoutKey::KeyM
    } else if c == ',' {
        LayoutKey::Comma
    } else if c == '.' {
        LayoutKey::Dot
    } else if c == '/' {
        LayoutKey::Slash
    } else {
        LayoutKey::Unknown(0)
    }
}

/// The key on which the US layout has the character `c`, and an unknown key
/// for every other character.
pub fn get_key_from_char(c: char) -> (r: LayoutKey)
    ensures
        r == key_of_char(c),
        predefined_chars().contains(c) <==> r != LayoutKey::Unknown(0),
{
    proof {
        lemma_predefined_chars(c);
    }
    match c {
        'a' => LayoutKey::KeyA,
        '`' => LayoutKey::BackQuote,
        '1' => LayoutKey::Num1,
        '2' => LayoutKey::Num2,
        '3' => LayoutKey::Num3,
        '4' => LayoutKey::Num4,
        '5' => LayoutKey::Num5,
        '6' => LayoutKey::Num6,
        '7' => LayoutKey::Num7,
        '8' => LayoutKey::Num8,
        '9' => LayoutKey::Num9,
        '0' => LayoutKey::Num0,
        '-' => LayoutKey::Minus,
        '=' => LayoutKey::Equal,
        'q' => LayoutKey::KeyQ,
        'w' => LayoutKey::KeyW,
        'e' => LayoutKey::KeyE,
        'r' => LayoutKey::KeyR,
        't' => LayoutKey::KeyT,
        'y' => LayoutKey::KeyY,
        'u' => LayoutKey::KeyU,
        'i' => LayoutKey::KeyI,
        'o' => LayoutKey::KeyO,
        'p' => LayoutKey::KeyP,
        '[' => LayoutKey::LeftBracket,
        ']' => LayoutKey::RightBracket,
        's' => LayoutKey::KeyS,
        'd' => LayoutKey::KeyD,
        'f' => LayoutKey::KeyF,
        'g' => LayoutKey::KeyG,
        'h' => LayoutKey::KeyH,
        'j' => LayoutKey::KeyJ,
        'k' => LayoutKey::KeyK,
        'l' => LayoutKey::KeyL,
        ';' => LayoutKey::SemiColon,
        '\'' => LayoutKey::Quote,
        '\\' => LayoutKey::BackSlash,
        'z' => LayoutKey::KeyZ,
        'x' => LayoutKey::KeyX,
        'c' => LayoutKey::KeyC,
        'v' => LayoutKey::KeyV,
        'b' => LayoutKey::KeyB,
        'n' => LayoutKey::KeyN,
        'm' => LayoutKey::KeyM,
        ',' => LayoutKey::Comma,
        '.' => LayoutKey::Dot,
        '/' => LayoutKey::Slash,
        _ => LayoutKey::Unknown(0),
    }
}

/// The characters that have a key of their own are the predefined ones.
pub proof fn lemma_predefined_chars(c: char)
    ensures
        predefined_chars().contains(c) <==> key_of_char(c) != LayoutKey::Unknown(0),
{
    let s = predefined_chars();
    if key_of_char(c) != LayoutKey::Unknown(0) {
        if c == 'a' {
            assert(s[0] == c);
        } else if c == '`' {
            assert(s[1] == c);
        } else if c == '1' {
            assert(s[2] == c);
        } else if c == '2' {
            assert(s[3] == c);
        } else if c == '3' {
            assert(s[4] == c);
        } else if c == '4' {
            assert(s[5] == c);
        } else if c == '5' {
            assert(s[6] == c);
        } else if c == '6' {
            assert(s[7] == c);
        } else if c == '7' {
            assert(s[8] == c);
        } else if c == '8' {
            assert(s[9] == c);
        } else if c == '9' {
            assert(s[10] == c);
        } else if c == '0' {
            assert(s[11] == c);
        } else if c == '-' {
            assert(s[12] == c);
        } else if c == '=' {
            assert(s[13] == c);
        } else if c == 'q' {
            assert(s[14] == c);
        } else if c == 'w' {
            assert(s[15] == c);
        } else if c == 'e' {
            assert(s[16] == c);
        } else if c == 'r' {
            assert(s[17] == c);
        } else if c == 't' {
            assert(s[18] == c);
        } else if c == 'y' {
            assert(s[19] == c);
        } else if c == 'u' {
            assert(s[20] == c);
        } else if c == 'i' {
            assert(s[21] == c);
        } else if c == 'o' {
            assert(s[22] == c);
        } else if c == 'p' {
            assert(s[23] == c);
        } else if c == '[' {
            assert(s[24] == c);
        } else if c == ']' {
            assert(s[25] == c);
        } else if c == 's' {
            assert(s[26] == c);
        } else if c == 'd' {
            assert(s[27] == c);
        } else if c == 'f' {
            assert(s[28] == c);
        } else if c == 'g' {
            assert(s[29] == c);
        } else if c == 'h' {
            assert(s[30] == c);
        } else if c == 'j' {
            assert(s[31] == c);
        } else if c == 'k' {
            assert(s[32] == c);
        } else if c == 'l' {
            assert(s[33] == c);
        } else if c == ';' {
            assert(s[34] == c);
        } else if c == '\'' {
            assert(s[35] == c);
        } else if c == '\\' {
            assert(s[36] == c);
        } else if c == 'z' {
            assert(s[37] == c);
        } else if c == 'x' {
            assert(s[38] == c);
        } else if c == 'c' {
            assert(s[39] == c);
        } else if c == 'v' {
            assert(s[40] == c);
        } else if c == 'b' {
            assert(s[41] == c);
        } else if c == 'n' {
            assert(s[42] == c);
        } else if c == 'm' {
            assert(s[43] == c);
        } else if c == ',' {
            assert(s[44] == c);
        } else if c == '.' {
            assert(s[45] == c);
        } else if c == '/' {
            assert(s[46] == c);
        }
    }
}

/// The character that the US layout has on the key with the code `keycode`,
/// for the keys that depend on the layout.
pub open spec fn base_char(keycode: u16) -> Option<char> {
    if keycode == 0 {
        Some('a')
    } else if keycode == 1 {
        Some('s')
    } else if keycode == 2 {
        Some('d')
    } else if keycode == 3 {
        Some('f')
    } else if keycode == 4 {
        Some('h')
    } else if keycode == 5 {
        Some('g')
    } else if keycode == 6 {
        Some('z')
    } else if keycode == 7 {
        Some('x')
    } else if keycode == 8 {
        Some('c')
    } else if keycode == 9 {
        Some('v')
    } else if keycode == 11 {
        Some('b')
    } else if keycode == 12 {
        Some('q')
    } else if keycode == 13 {
        Some('w')
    } else if keycode == 14 {
        Some('e')
    } else if keycode == 15 {
        Some('r')
    } else if keycode == 16 {
        Some('y')
    } else if keycode == 17 {
        Some('t')
    } else if keycode == 18 {
        Some('1')
    } else if keycode == 19 {
        Some('2')
    } else if keycode == 20 {
        Some('3')
    } else if keycode == 21 {
        Some('4')
    } else if keycode == 22 {
        Some('6')
    } else if keycode == 23 {
        Some('5')
    } else if keycode == 24 {
        Some('=')
    } else if keycode == 25 {
        Some('9')
    } else if keycode == 26 {
        Some('7')
    } else if keycode == 27 {
        Some('-')
    } else if keycode == 28 {
        Some('8')
    } else if keycode == 29 {
        Some('0')
    } else if keycode == 30 {
        Some(']')
    } else if keycode == 31 {
        Some('o')
    } else if keycode == 32 {
        Some('u')
    } else if keycode == 33 {
        Some('[')
    } else if keycode == 34 {
        Some('i')
    } else if keycode == 35 {
        Some('p')
    } else if keycode == 37 {
        Some('l')
    } else if keycode == 38 {
        Some('j')
    } else if keycode == 39 {
        Some('\'')
    } else if keycode == 40 {
        Some('k')
    } else if keycode == 41 {
        Some(';')
    } else if keycode == 42 {
        Some('\\')
    } else if keycode == 43 {
        Some(',')
    } else if keycode == 44 {
        Some('/')
    } else if keycode == 45 {
        Some('n')
    } else if keycode == 46 {
        Some('m')
    } else if keycode == 47 {
        Some('.')
    } else {
        None
    }
}

/// The character that the US layout has on the key with the code `keycode`.
pub fn get_base_char(keycode: u16) -> (r: Option<char>)
    ensures
        r == base_char(keycode),
{
    match keycode {
        0 => Some('a'),
        1 => Some('s'),
        2 => Some('d'),
        3 => Some('f'),
        4 => Some('h'),
        5 => Some('g'),
        6 => Some('z'),
        7 => Some('x'),
        8 => Some('c'),
        9 => Some('v'),
        11 => Some('b'),
        12 => Some('q'),
        13 => Some('w'),
        14 => Some('e'),
        15 => Some('r'),
        16 => Some('y'),
        17 => Some('t'),
        31 => Some('o'),
        32 => Some('u'),
        34 => Some('i'),
        35 => Some('p'),
        37 => Some('l'),
        38 => Some('j'),
        40 => Some('k'),
        45 => Some('n'),
        46 => Some('m'),
        18 => Some('1'),
        19 => Some('2'),
        20 => Some('3'),
        21 => Some('4'),
        22 => Some('6'),
        23 => Some('5'),
        25 => Some('9'),
        26 => Some('7'),
        28 => Some('8'),
        29 => Some('0'),
        27 => Some('-'),
        33 => Some('['),
        30 => Some(']'),
        41 => Some(';'),
        43 => Some(','),
        24 => Some('='),
        42 => Some('\\'),
        44 => Some('/'),
        39 => Some('\''),
        47 => Some('.'),
        _ => None,
    }
}

/// The letter on the key with the code `keycode`, if the US layout has a
/// letter there.
pub open spec fn printable_char(keycode: u16) -> Option<char> {
    match base_char(keycode) {
        Some(c) => if 'a' <= c && c <= 'z' {
            Some(c)
        } else {
            None
        },
        None => None,
    }
}

/// The letter on the key with the code `keycode`, if the US layout has a
/// letter there.
pub fn get_printable_char(keycode: u16) -> (r: Option<char>)
    ensures
        r == printable_char(keycode),
{
    match keycode {
        0 => Some('a'),
        1 => Some('s'),
        2 => Some('d'),
        3 => Some('f'),
        4 => Some('h'),
        5 => Some('g'),
        6 => Some('z'),
        7 => Some('x'),
        8 => Some('c'),
        9 => Some('v'),
        11 => Some('b'),
        12 => Some('q'),
        13 => Some('w'),
        14 => Some('e'),
        15 => Some('r'),
        16 => Some('y'),
        17 => Some('t'),
        31 => Some('o'),
        32 => Some('u'),
        34 => Some('i'),
        35 => Some('p'),
        37 => Some('l'),
        38 => Some('j'),
        40 => Some('k'),
        45 => Some('n'),
        46 => Some('m'),
        _ => None,
    }
}

/// What `entries[..n]` say of the character `c`: the character of the last
/// entry for it.
pub open spec fn lookup(entries: Seq<(char, char)>, c: char, n: int) -> Option<char>
    decreases n,
{
    if n <= 0 {
        None
    } else if entries[n - 1].0 == c {
        Some(entries[n - 1].1)
    } else {
        lookup(entries, c, n - 1)
    }
}

/// The map that `entries[..n]` stand for: each entry put in after the ones
/// before it.
pub open spec fn map_from(entries: Seq<(char, char)>, n: int) -> Map<char, char>
    decreases n,
{
    if n <= 0 {
        Map::empty()
    } else {
        map_from(entries, n - 1).insert(entries[n - 1].0, entries[n - 1].1)
    }
}

/// The layout that the answers of the keyboard give: `answers[i]` is the
/// character that the key of `predefined_chars()[i]` types, if it types one.
/// Answers beyond the predefined keys are not looked at.
pub open spec fn layout_from(answers: Seq<Option<char>>, n: int) -> Map<char, char>
    decreases n,
{
    if n <= 0 {
        Map::empty()
    } else if n <= answers.len() && n <= predefined_chars().len() && answers[n - 1].is_some() {
        layout_from(answers, n - 1).insert(predefined_chars()[n - 1], answers[n - 1].unwrap())
    } else {
        layout_from(answers, n - 1)
    }
}

/// The layout that the answers of the keyboard give.
pub open spec fn layout_of(answers: Seq<Option<char>>) -> Map<char, char> {
    layout_from(
        answers,
        if answers.len() <= predefined_chars().len() {
            answers.len() as int
        } else {
            predefined_chars().len() as int
        },
    )
}

proof fn lemma_lookup(entries: Seq<(char, char)>, c: char, n: int)
    requires
        0 <= n <= entries.len(),
    ensures
        map_from(entries, n).contains_key(c) == lookup(entries, c, n).is_some(),
        lookup(entries, c, n).is_some() ==> map_from(entries, n)[c] == lookup(
            entries,
            c,
            n,
        ).unwrap(),
    decreases n,
{
    if n > 0 {
        lemma_lookup(entries, c, n - 1);
    }
}

proof fn lemma_map_from_prefix(a: Seq<(char, char)>, b: Seq<(char, char)>, n: int)
    requires
        0 <= n <= a.len(),
        n <= b.len(),
        forall|i: int| 0 <= i < n ==> a[i] == b[i],
    ensures
        map_from(a, n) == map_from(b, n),
    decreases n,
{
    if n > 0 {
        lemma_map_from_prefix(a, b, n - 1);
    }
}

/// The characters that the keys type on the layout in use, by the character
/// that the US layout has on the key.
pub struct KeyboardLayout {
    entries: Vec<(char, char)>,
}

impl View for KeyboardLayout {
    type V = Map<char, char>;

    closed spec fn view(&self) -> Map<char, char> {
        map_from(self.entries@, self.entries@.len() as int)
    }
}

impl KeyboardLayout {
    /// A layout of which nothing is known yet.
    pub fn new() -> (r: KeyboardLayout)
        ensures
            r@ == Map::<char, char>::empty(),
    {
        KeyboardLayout { entries: Vec::new() }
    }

    /// Takes the answers of the keyboard in the place of what was known: the
    /// layout afterwards depends on the answers alone.
    pub fn rebuild(&mut self, answers: &Vec<Option<char>>)
        ensures
            final(self)@ == layout_of(answers@),
    {
        let chars = get_predefined_chars();
        let mut entries: Vec<(char, char)> = Vec::new();
        let n: usize = if answers.len() <= chars.len() {
            answers.len()
        } else {
            chars.len()
        };
        let mut i: usize = 0;
        while i < n
            invariant
                i <= n,
                n <= answers@.len(),
                n <= chars@.len(),
                chars@ == predefined_chars(),
                map_from(entries@, entries@.len() as int) == layout_from(answers@, i as int),
            decreases n - i,
        {
            match answers[i] {
                Some(ch) => {
                    let ghost before_push = entries@;
                    entries.push((chars[i], ch));
                    proof {
                        lemma_map_from_prefix(entries@, before_push, before_push.len() as int);
                    }
                },
                None => {},
            }
            i += 1;
        }
        self.entries = entries;
    }

    /// The character that the key of `c` types on the layout in use.
    pub fn get(&self, c: char) -> (r: Option<char>)
        ensures
            r == if self@.contains_key(c) {
                Some(self@[c])
            } else {
                None
            },
    {
        let mut i: usize = self.entries.len();
        proof {
            lemma_lookup(self.entries@, c, self.entries@.len() as int);
        }
        while i > 0
            invariant
                i <= self.entries@.len(),
                lookup(self.entries@, c, self.entries@.len() as int) == lookup(
                    self.entries@,
                    c,
                    i as int,
                ),
                self@.contains_key(c) == lookup(self.entries@, c, i as int).is_some(),
                lookup(self.entries@, c, i as int).is_some() ==> self@[c] == lookup(
                    self.entries@,
                    c,
                    i as int,
                ).unwrap(),
            decreases i,
        {
            if self.entries[i - 1].0 == c {
                return Some(self.entries[i - 1].1);
            }
            i -= 1;
        }
        None
    }
}

/// The key that a key code stands for on the layout `layout`. A key that
/// depends on the layout is the character that the layout has there, and no
/// key if the layout has none. Enter, space, tab, delete and escape are their
/// own characters. Every other key is a raw key.
pub open spec fn classify(keycode: u16, layout: Map<char, char>) -> Option<PressedKey> {
    match base_char(keycode) {
        Some(c) => if layout.contains_key(c) {
            Some(PressedKey::Char(layout[c]))
        } else {
            None
        },
        None => if keycode == 36 || keycode == 52 {
            Some(PressedKey::Char(KEY_ENTER))
        } else if keycode == 49 {
            Some(PressedKey::Char(KEY_SPACE))
        } else if keycode == 48 {
            Some(PressedKey::Char(KEY_TAB))
        } else if keycode == 51 {
            Some(PressedKey::Char(KEY_DELETE))
        } else if keycode == 53 {
            Some(PressedKey::Char(KEY_ESCAPE))
        } else {
            Some(PressedKey::Raw(keycode))
        },
    }
}

/// The key that a key code stands for on the layout `layout`.
pub fn get_char(keycode: u16, layout: &KeyboardLayout) -> (r: Option<PressedKey>)
    ensures
        r == classify(keycode, layout@),
{
    match get_base_char(keycode) {
        Some(c) => match layout.get(c) {
            Some(typed) => Some(PressedKey::Char(typed)),
            None => None,
        },
        None => match keycode {
            36 | 52 => Some(PressedKey::Char(KEY_ENTER)),
            49 => Some(PressedKey::Char(KEY_SPACE)),
            48 => Some(PressedKey::Char(KEY_TAB)),
            51 => Some(PressedKey::Char(KEY_DELETE)),
            53 => Some(PressedKey::Char(KEY_ESCAPE)),
            _ => Some(PressedKey::Raw(keycode)),
        },
    }
}

} // verus!
