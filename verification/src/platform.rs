//! What a keyboard event is made of: the keys that the tracker tells apart,
//! and the set of modifiers held with them.
use vstd::prelude::*;

verus! {

/// Raw code of the key that switches the input method on and off.
pub const RAW_KEY_GLOBE: u16 = 0xb3;

pub const RAW_ARROW_DOWN: u16 = 0x7d;

pub const RAW_ARROW_UP: u16 = 0x7e;

pub const RAW_ARROW_LEFT: u16 = 0x7b;

pub const RAW_ARROW_RIGHT: u16 = 0x7c;

pub const KEY_ENTER: char = '\x13';

pub const KEY_SPACE: char = '\u{0020}';

pub const KEY_TAB: char = '\x09';

pub const KEY_DELETE: char = '\x08';

pub const KEY_ESCAPE: char = '\x26';

pub const MODIFIER_NONE: u32 = 0b00000000;

pub const MODIFIER_SHIFT: u32 = 0b00000001;

pub const MODIFIER_SUPER: u32 = 0b00000010;

pub const MODIFIER_CONTROL: u32 = 0b00000100;

pub const MODIFIER_ALT: u32 = 0b00001000;

pub const MODIFIER_CAPSLOCK: u32 = 0b00010000;

/// Every bit that stands for a modifier.
pub const MODIFIER_ALL: u32 = 0b00011111;

/// A set of modifiers, as a mathematical value.
pub struct ModifierSet {
    pub shift: bool,
    pub super_key: bool,
    pub control: bool,
    pub alt: bool,
    pub capslock: bool,
}

impl ModifierSet {
    pub open spec fn empty() -> ModifierSet {
        ModifierSet {
            shift: false,
            super_key: false,
            control: false,
            alt: false,
            capslock: false,
        }
    }

    pub open spec fn is_empty(self) -> bool {
        !self.shift && !self.super_key && !self.control && !self.alt && !self.capslock
    }

    pub open spec fn union(self, other: ModifierSet) -> ModifierSet {
        ModifierSet {
            shift: self.shift || other.shift,
            super_key: self.super_key || other.super_key,
            control: self.control || other.control,
            alt: self.alt || other.alt,
            capslock: self.capslock || other.capslock,
        }
    }

    pub open spec fn minus(self, other: ModifierSet) -> ModifierSet {
        ModifierSet {
            shift: self.shift && !other.shift,
            super_key: self.super_key && !other.super_key,
            control: self.control && !other.control,
            alt: self.alt && !other.alt,
            capslock: self.capslock && !other.capslock,
        }
    }

    pub open spec fn includes(self, other: ModifierSet) -> bool {
        &&& other.shift ==> self.shift
        &&& other.super_key ==> self.super_key
        &&& other.control ==> self.control
        &&& other.alt ==> self.alt
        &&& other.capslock ==> self.capslock
    }

    /// The set without caps lock.
    pub open spec fn without_capslock(self) -> ModifierSet {
        ModifierSet { capslock: false, ..self }
    }

    /// Some modifier other than shift is in the set.
    pub open spec fn has_other_than_shift(self) -> bool {
        self.super_key || self.control || self.alt || self.capslock
    }
}

/// The set of modifiers that a bit pattern stands for. Bits above the five
/// known ones stand for nothing.
pub open spec fn set_of_bits(bits: u32) -> ModifierSet {
    ModifierSet {
        shift: bits & 1 != 0,
        super_key: bits & 2 != 0,
        control: bits & 4 != 0,
        alt: bits & 8 != 0,
        capslock: bits & 16 != 0,
    }
}

/// The bit pattern of a set of modifiers.
pub open spec fn bits_of_set(s: ModifierSet) -> u32 {
    ((if s.shift {
        1int
    } else {
        0int
    }) + (if s.super_key {
        2int
    } else {
        0int
    }) + (if s.control {
        4int
    } else {
        0int
    }) + (if s.alt {
        8int
    } else {
        0int
    }) + (if s.capslock {
        16int
    } else {
        0int
    })) as u32
}

proof fn lemma_bits_union(a: u32, b: u32)
    requires
        a <= 31,
        b <= 31,
    ensures
        (a | b) <= 31,
        set_of_bits(a | b) == set_of_bits(a).union(set_of_bits(b)),
{
    assert((a | b) <= 31 && (((a | b) & 1 != 0) == ((a & 1 != 0) || (b & 1 != 0))) && (((a | b) & 2
        != 0) == ((a & 2 != 0) || (b & 2 != 0))) && (((a | b) & 4 != 0) == ((a & 4 != 0) || (b & 4
        != 0))) && (((a | b) & 8 != 0) == ((a & 8 != 0) || (b & 8 != 0))) && (((a | b) & 16 != 0)
        == ((a & 16 != 0) || (b & 16 != 0)))) by (bit_vector)
        requires
            a <= 31,
            b <= 31,
    ;
}

proof fn lemma_bits_minus(a: u32, b: u32)
    requires
        a <= 31,
        b <= 31,
    ensures
        (a & !b) <= 31,
        set_of_bits(a & !b) == set_of_bits(a).minus(set_of_bits(b)),
{
    assert((a & !b) <= 31 && (((a & !b) & 1 != 0) == ((a & 1 != 0) && !(b & 1 != 0))) && (((a & !b)
        & 2 != 0) == ((a & 2 != 0) && !(b & 2 != 0))) && (((a & !b) & 4 != 0) == ((a & 4 != 0)
        && !(b & 4 != 0))) && (((a & !b) & 8 != 0) == ((a & 8 != 0) && !(b & 8 != 0))) && (((a
        & !b) & 16 != 0) == ((a & 16 != 0) && !(b & 16 != 0)))) by (bit_vector)
        requires
            a <= 31,
            b <= 31,
    ;
}

proof fn lemma_bits_includes(a: u32, b: u32)
    requires
        a <= 31,
        b <= 31,
    ensures
        ((a & b) == b) == set_of_bits(a).includes(set_of_bits(b)),
{
    assert(((a & b) == b) == (((b & 1 != 0) ==> (a & 1 != 0)) && ((b & 2 != 0) ==> (a & 2 != 0))
        && ((b & 4 != 0) ==> (a & 4 != 0)) && ((b & 8 != 0) ==> (a & 8 != 0)) && ((b & 16 != 0)
        ==> (a & 16 != 0)))) by (bit_vector)
        requires
            a <= 31,
            b <= 31,
    ;
}

proof fn lemma_bits_of_set(a: u32)
    requires
        a <= 31,
    ensures
        bits_of_set(set_of_bits(a)) == a,
{
    assert(a == (if a & 1 != 0 {
        1u32
    } else {
        0u32
    }) + (if a & 2 != 0 {
        2u32
    } else {
        0u32
    }) + (if a & 4 != 0 {
        4u32
    } else {
        0u32
    }) + (if a & 8 != 0 {
        8u32
    } else {
        0u32
    }) + (if a & 16 != 0 {
        16u32
    } else {
        0u32
    })) by (bit_vector)
        requires
            a <= 31,
    ;
}

proof fn lemma_bits_truncate(a: u32)
    ensures
        (a & 31) <= 31,
        set_of_bits(a & 31) == set_of_bits(a),
        a <= 31 ==> (a & 31) == a,
{
    assert((a & 31) <= 31 && (((a & 31) & 1 != 0) == (a & 1 != 0)) && (((a & 31) & 2 != 0) == (a & 2
        != 0)) && (((a & 31) & 4 != 0) == (a & 4 != 0)) && (((a & 31) & 8 != 0) == (a & 8 != 0))
        && (((a & 31) & 16 != 0) == (a & 16 != 0)) && (a <= 31 ==> (a & 31) == a))
        by (bit_vector);
}

/// The modifiers held at one moment: shift, super, control, alt, caps lock.
#[derive(Debug, Clone, Copy, PartialEq, Eq, Structural)]
pub struct KeyModifier {
    bits: u32,
}

impl View for KeyModifier {
    type V = ModifierSet;

    closed spec fn view(&self) -> ModifierSet {
        set_of_bits(self.bits)
    }
}

impl KeyModifier {
    #[verifier::type_invariant]
    spec fn well_formed(self) -> bool {
        self.bits <= 31
    }

    /// The bit pattern of this set, one of the `MODIFIER_` bits for each member.
    pub closed spec fn spec_bits(self) -> u32 {
        self.bits
    }

    /// No modifier.
    pub fn new() -> (r: KeyModifier)
        ensures
            r@ == ModifierSet::empty(),
            r.spec_bits() == 0,
    {
        proof {
            lemma_single_bits();
        }
        KeyModifier { bits: 0 }
    }

    /// The modifiers whose bits are set in `bits`; other bits are dropped.
    pub fn from_bits_truncate(bits: u32) -> (r: KeyModifier)
        ensures
            r@ == set_of_bits(bits),
            bits <= MODIFIER_ALL ==> r.spec_bits() == bits,
    {
        proof {
            lemma_bits_truncate(bits);
        }
        KeyModifier { bits: bits & MODIFIER_ALL }
    }

    /// The bit pattern of this set.
    pub fn bits(&self) -> (r: u32)
        ensures
            r == self.spec_bits(),
            r == bits_of_set(self@),
            r <= MODIFIER_ALL,
    {
        proof {
            use_type_invariant(self);
            lemma_bits_of_set(self.bits);
        }
        self.bits
    }

    pub fn is_empty(&self) -> (r: bool)
        ensures
            r == self@.is_empty(),
    {
        proof {
            use_type_invariant(self);
            lemma_bits_of_set(self.bits);
        }
        self.bits == 0
    }

    /// Whether every modifier of `other` is in this set.
    pub fn contains(&self, other: KeyModifier) -> (r: bool)
        ensures
            r == self@.includes(other@),
    {
        proof {
            use_type_invariant(self);
            use_type_invariant(&other);
            lemma_bits_includes(self.bits, other.bits);
        }
        (self.bits & other.bits) == other.bits
    }

    /// Adds the modifiers of `other`.
    pub fn insert(&mut self, other: KeyModifier)
        ensures
            final(self)@ == old(self)@.union(other@),
    {
        proof {
            use_type_invariant(&*self);
            use_type_invariant(&other);
            lemma_bits_union(self.bits, other.bits);
        }
        self.bits = self.bits | other.bits;
    }

    /// Takes the modifiers of `other` out.
    pub fn remove(&mut self, other: KeyModifier)
        ensures
            final(self)@ == old(self)@.minus(other@),
    {
        proof {
            use_type_invariant(&*self);
            use_type_invariant(&other);
            lemma_bits_minus(self.bits, other.bits);
        }
        self.bits = self.bits & !other.bits;
    }

    /// Adds the modifiers of `other` if `value` holds, and takes them out if not.
    pub fn set(&mut self, other: KeyModifier, value: bool)
        ensures
            final(self)@ == if value {
                old(self)@.union(other@)
            } else {
                old(self)@.minus(other@)
            },
    {
        if value {
            self.insert(other);
        } else {
            self.remove(other);
        }
    }

    /// Makes the set hold exactly the modifiers whose flag is true.
    pub fn apply(
        &mut self,
        is_super: bool,
        is_ctrl: bool,
        is_alt: bool,
        is_shift: bool,
        is_capslock: bool,
    )
        ensures
            final(self)@ == (ModifierSet {
                shift: is_shift,
                super_key: is_super,
                control: is_ctrl,
                alt: is_alt,
                capslock: is_capslock,
            }),
    {
        self.set(KeyModifier::from_bits_truncate(MODIFIER_SUPER), is_super);
        self.set(KeyModifier::from_bits_truncate(MODIFIER_CONTROL), is_ctrl);
        self.set(KeyModifier::from_bits_truncate(MODIFIER_ALT), is_alt);
        self.set(KeyModifier::from_bits_truncate(MODIFIER_SHIFT), is_shift);
        self.set(KeyModifier::from_bits_truncate(MODIFIER_CAPSLOCK), is_capslock);
        proof {
            lemma_single_bits();
        }
    }

    pub fn add_shift(&mut self)
        ensures
            final(self)@ == (ModifierSet { shift: true, ..old(self)@ }),
    {
        proof {
            lemma_single_bits();
        }
        self.set(KeyModifier::from_bits_truncate(MODIFIER_SHIFT), true);
    }

    pub fn add_super(&mut self)
        ensures
            final(self)@ == (ModifierSet { super_key: true, ..old(self)@ }),
    {
        proof {
            lemma_single_bits();
        }
        self.set(KeyModifier::from_bits_truncate(MODIFIER_SUPER), true);
    }

    pub fn add_control(&mut self)
        ensures
            final(self)@ == (ModifierSet { control: true, ..old(self)@ }),
    {
        proof {
            lemma_single_bits();
        }
        self.set(KeyModifier::from_bits_truncate(MODIFIER_CONTROL), true);
    }

    pub fn add_alt(&mut self)
        ensures
            final(self)@ == (ModifierSet { alt: true, ..old(self)@ }),
    {
        proof {
            lemma_single_bits();
        }
        self.set(KeyModifier::from_bits_truncate(MODIFIER_ALT), true);
    }

    pub fn add_capslock(&mut self)
        ensures
            final(self)@ == (ModifierSet { capslock: true, ..old(self)@ }),
    {
        proof {
            lemma_single_bits();
        }
        self.set(KeyModifier::from_bits_truncate(MODIFIER_CAPSLOCK), true);
    }

    pub fn is_shift(&self) -> (r: bool)
        ensures
            r == self@.shift,
    {
        proof {
            lemma_single_bits();
        }
        self.contains(KeyModifier::from_bits_truncate(MODIFIER_SHIFT))
    }

    pub fn is_super(&self) -> (r: bool)
        ensures
            r == self@.super_key,
    {
        proof {
            lemma_single_bits();
        }
        self.contains(KeyModifier::from_bits_truncate(MODIFIER_SUPER))
    }

    pub fn is_control(&self) -> (r: bool)
        ensures
            r == self@.control,
    {
        proof {
            lemma_single_bits();
        }
        self.contains(KeyModifier::from_bits_truncate(MODIFIER_CONTROL))
    }

    pub fn is_alt(&self) -> (r: bool)
        ensures
            r == self@.alt,
    {
        proof {
            lemma_single_bits();
        }
        self.contains(KeyModifier::from_bits_truncate(MODIFIER_ALT))
    }

    pub fn is_capslock(&self) -> (r: bool)
        ensures
            r == self@.capslock,
    {
        proof {
            lemma_single_bits();
        }
        self.contains(KeyModifier::from_bits_truncate(MODIFIER_CAPSLOCK))
    }

    /// Whether the two sets hold the same modifiers.
    pub fn same(&self, other: &KeyModifier) -> (r: bool)
        ensures
            r == (self@ == other@),
            r == (*self == *other),
    {
        proof {
            use_type_invariant(self);
            use_type_invariant(other);
            lemma_bits_of_set(self.bits);
            lemma_bits_of_set(other.bits);
        }
        self.bits == other.bits
    }

    /// The names of the modifiers in the set, each followed by `+`, in the
    /// order super, ctrl, alt, shift, capslock.
    pub fn to_string(&self) -> (r: String)
        ensures
            r@ == modifier_text(self@),
    {
        let mut out = String::new();
        if self.is_super() {
            out.append("super+");
        }
        if self.is_control() {
            out.append("ctrl+");
        }
        if self.is_alt() {
            out.append("alt+");
        }
        if self.is_shift() {
            out.append("shift+");
        }
        if self.is_capslock() {
            out.append("capslock+");
        }
        proof {
            assert(out@ =~= modifier_text(self@));
        }
        out
    }
}

/// The sets that the five single bits stand for.
proof fn lemma_single_bits()
    ensures
        set_of_bits(MODIFIER_NONE) == ModifierSet::empty(),
        set_of_bits(MODIFIER_SHIFT) == (ModifierSet { shift: true, ..ModifierSet::empty() }),
        set_of_bits(MODIFIER_SUPER) == (ModifierSet { super_key: true, ..ModifierSet::empty() }),
        set_of_bits(MODIFIER_CONTROL) == (ModifierSet { control: true, ..ModifierSet::empty() }),
        set_of_bits(MODIFIER_ALT) == (ModifierSet { alt: true, ..ModifierSet::empty() }),
        set_of_bits(MODIFIER_CAPSLOCK) == (ModifierSet { capslock: true, ..ModifierSet::empty() }),
{
    assert(0u32 & 1 == 0 && 0u32 & 2 == 0 && 0u32 & 4 == 0 && 0u32 & 8 == 0 && 0u32 & 16 == 0
        && 1u32 & 1 != 0 && 1u32 & 2 == 0 && 1u32 & 4 == 0 && 1u32 & 8 == 0 && 1u32 & 16 == 0
        && 2u32 & 1 == 0 && 2u32 & 2 != 0 && 2u32 & 4 == 0 && 2u32 & 8 == 0 && 2u32 & 16 == 0
        && 4u32 & 1 == 0 && 4u32 & 2 == 0 && 4u32 & 4 != 0 && 4u32 & 8 == 0 && 4u32 & 16 == 0
        && 8u32 & 1 == 0 && 8u32 & 2 == 0 && 8u32 & 4 == 0 && 8u32 & 8 != 0 && 8u32 & 16 == 0
        && 16u32 & 1 == 0 && 16u32 & 2 == 0 && 16u32 & 4 == 0 && 16u32 & 8 == 0 && 16u32 & 16
        != 0) by (bit_vector);
}

/// The set that the caps lock bit stands for.
pub proof fn lemma_capslock_bit()
    ensures
        set_of_bits(MODIFIER_CAPSLOCK) == (ModifierSet { capslock: true, ..ModifierSet::empty() }),
{
    lemma_single_bits();
}

/// The text of a set of modifiers: each name followed by `+`.
pub open spec fn modifier_text(s: ModifierSet) -> Seq<char> {
    (if s.super_key {
        "super+"@
    } else {
        Seq::<char>::empty()
    }) + (if s.control {
        "ctrl+"@
    } else {
        Seq::<char>::empty()
    }) + (if s.alt {
        "alt+"@
    } else {
        Seq::<char>::empty()
    }) + (if s.shift {
        "shift+"@
    } else {
        Seq::<char>::empty()
    }) + (if s.capslock {
        "capslock+"@
    } else {
        Seq::<char>::empty()
    })
}

/// A key as the tracker sees it.
#[derive(Debug, Copy, Clone, PartialEq, Eq, Structural)]
pub enum PressedKey {
    /// A printable character, or one of the `KEY_` characters.
    Char(char),
    /// A key without a character, by its raw code.
    Raw(u16),
}

/// The kinds of event that reach the tracker.
#[derive(Debug, Copy, Clone, PartialEq, Eq, Structural)]
pub enum EventTapType {
    KeyDown,
    FlagsChanged,
    Other,
}

} // verus!
