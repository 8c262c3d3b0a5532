//! Character classes and sequence scanning shared by the tracker, the hotkey
//! and settings parsers and the rule-script parser.
//!
//! Text is modelled as `Seq<char>`. The executable functions work on
//! `Vec<char>` and are proved against the spec functions of the same module.
use vstd::prelude::*;

verus! {

// ---------------------------------------------------------------------------
// ASCII case
// ---------------------------------------------------------------------------
/// The ASCII upper-case form of `c`; characters outside `a..=z` are unchanged.
pub open spec fn ascii_upper(c: char) -> char {
    if 'a' <= c && c <= 'z' {
        ((c as u8) - 32) as char
    } else {
        c
    }
}

/// The ASCII lower-case form of `c`; characters outside `A..=Z` are unchanged.
pub open spec fn ascii_lower(c: char) -> char {
    if 'A' <= c && c <= 'Z' {
        ((c as u8) + 32) as char
    } else {
        c
    }
}

/// Two characters are the same letter once ASCII case is set aside.
pub open spec fn same_ignoring_ascii_case(a: char, b: char) -> bool {
    ascii_lower(a) == ascii_lower(b)
}

/// `s` with every character replaced by its ASCII lower-case form.
pub open spec fn ascii_lower_seq(s: Seq<char>) -> Seq<char> {
    Seq::new(s.len(), |i: int| ascii_lower(s[i]))
}

pub fn to_ascii_upper(c: char) -> (r: char)
    ensures
        r == ascii_upper(c),
{
    if 'a' <= c && c <= 'z' {
        ((c as u8) - 32) as char
    } else {
        c
    }
}

pub fn to_ascii_lower(c: char) -> (r: char)
    ensures
        r == ascii_lower(c),
{
    if 'A' <= c && c <= 'Z' {
        ((c as u8) + 32) as char
    } else {
        c
    }
}

pub fn eq_ignoring_ascii_case(a: char, b: char) -> (r: bool)
    ensures
        r == same_ignoring_ascii_case(a, b),
{
    to_ascii_lower(a) == to_ascii_lower(b)
}

pub fn to_ascii_lower_vec(v: &Vec<char>) -> (r: Vec<char>)
    ensures
        r@ == ascii_lower_seq(v@),
{
    let mut out: Vec<char> = Vec::new();
    let mut i: usize = 0;
    while i < v.len()
        invariant
            i <= v.len(),
            out@.len() == i,
            forall|k: int| 0 <= k < i ==> out@[k] == ascii_lower(v@[k]),
        decreases v.len() - i,
    {
        out.push(to_ascii_lower(v[i]));
        i += 1;
    }
    proof {
        assert(out@ =~= ascii_lower_seq(v@));
    }
    out
}

// ---------------------------------------------------------------------------
// Character classes
// ---------------------------------------------------------------------------
/// Whether `c` is alphabetic or numeric in the sense of the Unicode character
/// database, as `char::is_alphanumeric` decides it.
pub uninterp spec fn unicode_alphanumeric(c: char) -> bool;

/// Whether `c` is a number in the sense of the Unicode character database
/// (general categories Nd, Nl and No), as `char::is_numeric` decides it.
pub uninterp spec fn unicode_numeric(c: char) -> bool;

/// The upper-case form of a text under the Unicode case mapping, as
/// `str::to_uppercase` computes it. One character may become several.
pub uninterp spec fn unicode_upper(s: Seq<char>) -> Seq<char>;

/// The code points with the Unicode property `White_Space`.
pub open spec fn is_whitespace(c: char) -> bool {
    let u = c as u32;
    ||| (0x09 <= u && u <= 0x0d)
    ||| u == 0x20
    ||| u == 0x85
    ||| u == 0xa0
    ||| u == 0x1680
    ||| (0x2000 <= u && u <= 0x200a)
    ||| u == 0x2028
    ||| u == 0x2029
    ||| u == 0x202f
    ||| u == 0x205f
    ||| u == 0x3000
}

/// Space, tab, line feed, form feed and carriage return.
pub open spec fn is_ascii_whitespace(c: char) -> bool {
    c == ' ' || c == '\t' || c == '\n' || c == '\x0c' || c == '\r'
}

/// The blanks that separate the words of a rule script: space, tab, carriage
/// return and line feed.
pub open spec fn is_blank(c: char) -> bool {
    c == ' ' || c == '\t' || c == '\r' || c == '\n'
}

/// A character that may stand in an identifier of a rule script.
pub open spec fn is_identifier(c: char) -> bool {
    unicode_alphanumeric(c) || c == '_'
}

/// The classes of characters that the scanners can skip over.
#[derive(Clone, Copy, PartialEq, Eq, Structural, Debug)]
pub enum CharClass {
    /// Unicode white space.
    Whitespace,
    /// Space, tab, carriage return, line feed.
    Blank,
    /// Alphanumeric characters and the underscore.
    Identifier,
}

pub open spec fn in_class(class: CharClass, c: char) -> bool {
    match class {
        CharClass::Whitespace => is_whitespace(c),
        CharClass::Blank => is_blank(c),
        CharClass::Identifier => is_identifier(c),
    }
}

/// `char::is_alphanumeric` of the standard library. The contract only names
/// the answer: it is a function of the character alone.
#[verifier::external_body]
pub(crate) fn char_is_alphanumeric(c: char) -> (r: bool)
    ensures
        r == unicode_alphanumeric(c),
{
    c.is_alphanumeric()
}

/// `char::is_numeric` of the standard library. The contract only names the
/// answer: it is a function of the character alone.
#[verifier::external_body]
pub(crate) fn char_is_numeric(c: char) -> (r: bool)
    ensures
        r == unicode_numeric(c),
{
    c.is_numeric()
}

/// `str::to_uppercase` of the standard library. The contract only names the
/// result: it is a function of the text alone.
#[verifier::external_body]
pub(crate) fn str_to_uppercase(s: &str) -> (r: String)
    ensures
        r@ == unicode_upper(s@),
{
    s.to_uppercase()
}

/// `String::push` of the standard library: appends one character.
#[verifier::external_body]
pub(crate) fn string_push(s: &mut String, c: char)
    ensures
        final(s)@ == old(s)@.push(c),
{
    s.push(c)
}

pub fn char_is_whitespace(c: char) -> (r: bool)
    ensures
        r == is_whitespace(c),
{
    let u: u32 = c as u32;
    (0x09 <= u && u <= 0x0d) || u == 0x20 || u == 0x85 || u == 0xa0 || u == 0x1680 || (0x2000 <= u
        && u <= 0x200a) || u == 0x2028 || u == 0x2029 || u == 0x202f || u == 0x205f || u == 0x3000
}

pub fn char_is_ascii_whitespace(c: char) -> (r: bool)
    ensures
        r == is_ascii_whitespace(c),
{
    c == ' ' || c == '\t' || c == '\n' || c == '\x0c' || c == '\r'
}

pub fn char_is_blank(c: char) -> (r: bool)
    ensures
        r == is_blank(c),
{
    c == ' ' || c == '\t' || c == '\r' || c == '\n'
}

pub fn char_in_class(class: CharClass, c: char) -> (r: bool)
    ensures
        r == in_class(class, c),
{
    match class {
        CharClass::Whitespace => char_is_whitespace(c),
        CharClass::Blank => char_is_blank(c),
        CharClass::Identifier => char_is_alphanumeric(c) || c == '_',
    }
}

// ---------------------------------------------------------------------------
// Conversions between `str`, `String` and `Vec<char>`
// ---------------------------------------------------------------------------
/// The characters of `s`, in order.
pub fn chars_of(s: &str) -> (r: Vec<char>)
    ensures
        r@ == s@,
{
    broadcast use vstd::string::group_string_axioms;

    let mut out: Vec<char> = Vec::new();
    for c in it: s.chars()
        invariant
            it.seq() == s@,
            out@ == it.history(),
    {
        out.push(c);
    }
    out
}

/// A `String` that holds the characters `v[from..to]`.
pub fn string_of_range(v: &Vec<char>, from: usize, to: usize) -> (r: String)
    requires
        from <= to <= v@.len(),
    ensures
        r@ == v@.subrange(from as int, to as int),
{
    let mut out = String::new();
    let mut i: usize = from;
    while i < to
        invariant
            from <= i <= to <= v@.len(),
            out@ == v@.subrange(from as int, i as int),
        decreases to - i,
    {
        string_push(&mut out, v[i]);
        i += 1;
        proof {
            assert(out@ =~= v@.subrange(from as int, i as int));
        }
    }
    out
}

/// A `String` that holds the characters of `v`.
pub fn string_of(v: &Vec<char>) -> (r: String)
    ensures
        r@ == v@,
{
    proof {
        assert(v@.subrange(0, v@.len() as int) =~= v@);
    }
    string_of_range(v, 0, v.len())
}

/// Whether two texts hold the same characters.
pub fn vec_eq(a: &Vec<char>, b: &Vec<char>) -> (r: bool)
    ensures
        r == (a@ == b@),
{
    if a.len() != b.len() {
        return false;
    }
    let mut i: usize = 0;
    while i < a.len()
        invariant
            a@.len() == b@.len(),
            i <= a@.len(),
            forall|k: int| 0 <= k < i ==> a@[k] == b@[k],
        decreases a.len() - i,
    {
        if a[i] != b[i] {
            return false;
        }
        i += 1;
    }
    proof {
        assert(a@ =~= b@);
    }
    true
}

/// Whether two strings hold the same characters.
pub fn str_eq(a: &str, b: &str) -> (r: bool)
    ensures
        r == (a@ == b@),
{
    let x = chars_of(a);
    let y = chars_of(b);
    vec_eq(&x, &y)
}

// ---------------------------------------------------------------------------
// Searching
// ---------------------------------------------------------------------------
/// `pat` stands in `s` at index `i`.
pub open spec fn occurs_at(s: Seq<char>, pat: Seq<char>, i: int) -> bool {
    0 <= i && i + pat.len() <= s.len() && s.subrange(i, i + pat.len()) == pat
}

/// The index of the first occurrence of `pat` in `s` at or after `from`.
pub open spec fn find_from(s: Seq<char>, pat: Seq<char>, from: int) -> Option<int>
    decreases s.len() - from,
{
    if from < 0 || from + pat.len() > s.len() {
        None
    } else if occurs_at(s, pat, from) {
        Some(from)
    } else if from >= s.len() {
        None
    } else {
        find_from(s, pat, from + 1)
    }
}

/// The index of the first occurrence of `pat` in `s`.
pub open spec fn find(s: Seq<char>, pat: Seq<char>) -> Option<int> {
    find_from(s, pat, 0)
}

/// `pat` occurs somewhere in `s`.
pub open spec fn contains(s: Seq<char>, pat: Seq<char>) -> bool {
    exists|i: int| occurs_at(s, pat, i)
}

/// What `find_from` returns is the least index at or after `from` at which the
/// pattern stands, and it returns none only if there is no such index.
pub proof fn lemma_find_from(s: Seq<char>, pat: Seq<char>, from: int)
    requires
        0 <= from,
    ensures
        match find_from(s, pat, from) {
            Some(i) => from <= i && occurs_at(s, pat, i) && forall|j: int|
                from <= j < i ==> !occurs_at(s, pat, j),
            None => forall|j: int| from <= j ==> !occurs_at(s, pat, j),
        },
    decreases s.len() - from,
{
    if from + pat.len() > s.len() {
    } else if occurs_at(s, pat, from) {
    } else if from >= s.len() {
        assert(s.subrange(from, from + pat.len()) =~= pat);
    } else {
        lemma_find_from(s, pat, from + 1);
    }
}

/// `find` answers whether the pattern occurs at all.
pub proof fn lemma_find_contains(s: Seq<char>, pat: Seq<char>)
    ensures
        contains(s, pat) <==> find(s, pat).is_some(),
{
    lemma_find_from(s, pat, 0);
}

/// Whether `pat` stands in `s` at index `i`.
pub fn matches_at(s: &Vec<char>, pat: &Vec<char>, i: usize) -> (r: bool)
    ensures
        r == occurs_at(s@, pat@, i as int),
{
    if pat.len() > s.len() || i > s.len() - pat.len() {
        return false;
    }
    let mut k: usize = 0;
    while k < pat.len()
        invariant
            i + pat@.len() <= s@.len() <= usize::MAX,
            k <= pat@.len(),
            forall|j: int| 0 <= j < k ==> s@[i + j] == pat@[j],
        decreases pat.len() - k,
    {
        if s[i + k] != pat[k] {
            proof {
                assert(s@.subrange(i as int, i + pat@.len())[k as int] == s@[i + k]);
            }
            return false;
        }
        k += 1;
    }
    proof {
        assert(s@.subrange(i as int, i + pat@.len()) =~= pat@);
    }
    true
}

/// The index of the first occurrence of `pat` in `s` at or after `from`.
pub fn find_in(s: &Vec<char>, pat: &Vec<char>, from: usize) -> (r: Option<usize>)
    ensures
        match r {
            Some(i) => find_from(s@, pat@, from as int) == Some(i as int) && from <= i && i
                + pat@.len() <= s@.len(),
            None => find_from(s@, pat@, from as int).is_none(),
        },
{
    if pat.len() > s.len() {
        return None;
    }
    let last: usize = s.len() - pat.len();
    let mut i: usize = from;
    while i <= last
        invariant
            last == s@.len() - pat@.len(),
            from <= i,
            find_from(s@, pat@, from as int) == find_from(s@, pat@, i as int),
        decreases last + 1 - i,
    {
        if matches_at(s, pat, i) {
            return Some(i);
        }
        if i == last {
            proof {
                assert(find_from(s@, pat@, i + 1).is_none());
            }
            return None;
        }
        i += 1;
    }
    None
}

/// Whether `pat` occurs somewhere in `s`.
pub fn contains_seq(s: &Vec<char>, pat: &Vec<char>) -> (r: bool)
    ensures
        r == contains(s@, pat@),
{
    proof {
        lemma_find_contains(s@, pat@);
    }
    find_in(s, pat, 0).is_some()
}

// ---------------------------------------------------------------------------
// Skipping over a class of characters
// ---------------------------------------------------------------------------
/// The first index at or after `from` whose character is not in `class`, or
/// the length of `s` if there is none.
pub open spec fn skip(s: Seq<char>, class: CharClass, from: int) -> int
    decreases s.len() - from,
{
    if from < 0 || from >= s.len() {
        from
    } else if in_class(class, s[from]) {
        skip(s, class, from + 1)
    } else {
        from
    }
}

/// The end of the longest stretch before `to` that ends outside `class`: the
/// least index `k <= to` such that `s[k..to]` lies in `class`.
pub open spec fn skip_back(s: Seq<char>, class: CharClass, to: int) -> int
    decreases to,
{
    if to <= 0 || to > s.len() {
        to
    } else if in_class(class, s[to - 1]) {
        skip_back(s, class, to - 1)
    } else {
        to
    }
}

/// The first index at or after `from` whose character is not in `class`.
pub fn scan(s: &Vec<char>, class: CharClass, from: usize) -> (r: usize)
    requires
        from <= s@.len(),
    ensures
        r == skip(s@, class, from as int),
        from <= r <= s@.len(),
{
    let mut i: usize = from;
    while i < s.len() && char_in_class(class, s[i])
        invariant
            from <= i <= s@.len(),
            skip(s@, class, from as int) == skip(s@, class, i as int),
        decreases s.len() - i,
    {
        i += 1;
    }
    i
}

/// The least index `k <= to` such that `s[k..to]` lies in `class`.
pub fn scan_back(s: &Vec<char>, class: CharClass, to: usize) -> (r: usize)
    requires
        to <= s@.len(),
    ensures
        r == skip_back(s@, class, to as int),
        r <= to,
{
    let mut i: usize = to;
    while i > 0 && char_in_class(class, s[i - 1])
        invariant
            i <= to <= s@.len(),
            skip_back(s@, class, to as int) == skip_back(s@, class, i as int),
        decreases i,
    {
        i -= 1;
    }
    i
}

// ---------------------------------------------------------------------------
// Trimming
// ---------------------------------------------------------------------------
/// `s` without the white space at its two ends.
pub open spec fn trimmed(s: Seq<char>) -> Seq<char> {
    let a = skip(s, CharClass::Whitespace, 0);
    let b = skip_back(s, CharClass::Whitespace, s.len() as int);
    if a < b {
        s.subrange(a, b)
    } else {
        Seq::empty()
    }
}

/// `s` without the white space at its two ends.
pub fn trim(s: &Vec<char>) -> (r: Vec<char>)
    ensures
        r@ == trimmed(s@),
{
    let a: usize = scan(s, CharClass::Whitespace, 0);
    let b: usize = scan_back(s, CharClass::Whitespace, s.len());
    if a < b {
        slice_of(s, a, b)
    } else {
        Vec::new()
    }
}

/// A copy of `s[from..to]`.
pub fn slice_of(s: &Vec<char>, from: usize, to: usize) -> (r: Vec<char>)
    requires
        from <= to <= s@.len(),
    ensures
        r@ == s@.subrange(from as int, to as int),
{
    let mut out: Vec<char> = Vec::new();
    let mut i: usize = from;
    while i < to
        invariant
            from <= i <= to <= s@.len(),
            out@ == s@.subrange(from as int, i as int),
        decreases to - i,
    {
        out.push(s[i]);
        i += 1;
        proof {
            assert(out@ =~= s@.subrange(from as int, i as int));
        }
    }
    out
}

// ---------------------------------------------------------------------------
// Splitting on one character
// ---------------------------------------------------------------------------
/// The pieces of `s[from..]` between the occurrences of `sep`. There is always
/// at least one piece; an empty text has one empty piece.
pub open spec fn split_from(s: Seq<char>, sep: char, from: int) -> Seq<Seq<char>>
    decreases s.len() - from,
{
    match find_from(s, seq![sep], from) {
        Some(i) => if from <= i < s.len() {
            seq![s.subrange(from, i)] + split_from(s, sep, i + 1)
        } else {
            seq![s.subrange(from, s.len() as int)]
        },
        None => seq![s.subrange(from, s.len() as int)],
    }
}

/// The pieces of `s` between the occurrences of `sep`.
pub open spec fn split(s: Seq<char>, sep: char) -> Seq<Seq<char>> {
    split_from(s, sep, 0)
}

/// The views of the texts in `v`.
pub open spec fn views(v: Seq<Vec<char>>) -> Seq<Seq<char>> {
    Seq::new(v.len(), |i: int| v[i]@)
}

/// The pieces of `s` between the occurrences of `sep`.
pub fn split_on(s: &Vec<char>, sep: char) -> (r: Vec<Vec<char>>)
    ensures
        views(r@) == split(s@, sep),
{
    let mut out: Vec<Vec<char>> = Vec::new();
    let mut pat: Vec<char> = Vec::new();
    pat.push(sep);
    proof {
        assert(pat@ =~= seq![sep]);
    }
    let n: usize = s.len();
    let mut start: usize = 0;
    loop
        invariant
            pat@ == seq![sep],
            pat@.len() == 1,
            start <= s@.len() == n,
            split(s@, sep) == views(out@) + split_from(s@, sep, start as int),
        decreases s@.len() - start,
    {
        match find_in(s, &pat, start) {
            Some(i) => {
                let piece = slice_of(s, start, i);
                proof {
                    assert(views(out@.push(piece)) =~= views(out@) + seq![piece@]);
                }
                out.push(piece);
                start = i + 1;
            },
            None => {
                let piece = slice_of(s, start, s.len());
                proof {
                    assert(views(out@.push(piece)) =~= views(out@) + seq![piece@]);
                }
                out.push(piece);
                return out;
            },
        }
    }
}

// ---------------------------------------------------------------------------
// The order of texts
// ---------------------------------------------------------------------------
/// Whether `a[from..]` comes before `b[from..]` in the order of the dictionary,
/// characters compared by code point.
pub open spec fn before_from(a: Seq<char>, b: Seq<char>, from: int) -> bool
    decreases a.len() - from,
{
    if from < 0 || from >= b.len() {
        false
    } else if from >= a.len() {
        true
    } else if a[from] != b[from] {
        (a[from] as u32) < (b[from] as u32)
    } else {
        before_from(a, b, from + 1)
    }
}

/// Whether `a` comes before `b` in the order of the dictionary, characters
/// compared by code point. This is the order of `str` and `String`.
pub open spec fn before(a: Seq<char>, b: Seq<char>) -> bool {
    before_from(a, b, 0)
}

/// How one text stands to another in the order of the dictionary.
#[derive(Clone, Copy, PartialEq, Eq, Structural, Debug)]
pub enum Rank {
    Before,
    Same,
    After,
}

/// The rank of `a` against `b`.
pub open spec fn rank_of(a: Seq<char>, b: Seq<char>) -> Rank {
    if before(a, b) {
        Rank::Before
    } else if a == b {
        Rank::Same
    } else {
        Rank::After
    }
}

proof fn lemma_before_from_irreflexive(a: Seq<char>, from: int)
    requires
        0 <= from,
    ensures
        !before_from(a, a, from),
    decreases a.len() - from,
{
    if from < a.len() {
        lemma_before_from_irreflexive(a, from + 1);
    }
}

proof fn lemma_before_from_transitive(a: Seq<char>, b: Seq<char>, c: Seq<char>, from: int)
    requires
        0 <= from,
        before_from(a, b, from),
        before_from(b, c, from),
    ensures
        before_from(a, c, from),
    decreases a.len() - from,
{
    if from < a.len() && from < b.len() && from < c.len() && a[from] == b[from] && b[from]
        == c[from] {
        lemma_before_from_transitive(a, b, c, from + 1);
    }
}

/// No text comes before itself.
pub proof fn lemma_before_irreflexive(a: Seq<char>)
    ensures
        !before(a, a),
{
    lemma_before_from_irreflexive(a, 0);
}

/// If `a` comes before `b` and `b` before `c`, then `a` comes before `c`.
pub proof fn lemma_before_transitive(a: Seq<char>, b: Seq<char>, c: Seq<char>)
    requires
        before(a, b),
        before(b, c),
    ensures
        before(a, c),
{
    lemma_before_from_transitive(a, b, c, 0);
}

/// The rank of `a` against `b`: of two different texts one comes before the
/// other, and never both.
pub fn rank(a: &Vec<char>, b: &Vec<char>) -> (r: Rank)
    ensures
        r == rank_of(a@, b@),
        r == Rank::Before <==> before(a@, b@),
        r == Rank::Same <==> a@ == b@,
        r == Rank::After <==> before(b@, a@),
{
    let mut i: usize = 0;
    while i < a.len() && i < b.len()
        invariant
            i <= a@.len(),
            i <= b@.len(),
            forall|k: int| 0 <= k < i ==> a@[k] == b@[k],
            before(a@, b@) == before_from(a@, b@, i as int),
            before(b@, a@) == before_from(b@, a@, i as int),
        decreases a.len() - i,
    {
        if a[i] != b[i] {
            if (a[i] as u32) < (b[i] as u32) {
                return Rank::Before;
            } else {
                proof {
                    vstd::utf8::char_u32_cast(a@[i as int], a@[i as int] as u32);
                    vstd::utf8::char_u32_cast(b@[i as int], b@[i as int] as u32);
                }
                return Rank::After;
            }
        }
        i += 1;
    }
    if i < b.len() {
        Rank::Before
    } else if i < a.len() {
        Rank::After
    } else {
        proof {
            assert(a@ =~= b@);
            lemma_before_irreflexive(a@);
        }
        Rank::Same
    }
}

// ---------------------------------------------------------------------------
// Replacing and joining
// ---------------------------------------------------------------------------
/// `s[from..]` with every occurrence of `pat` replaced by `to`, the
/// occurrences taken from left to right without overlap. `pat` is not empty.
pub open spec fn replace_from(s: Seq<char>, pat: Seq<char>, to: Seq<char>, from: int) -> Seq<char>
    decreases s.len() - from,
{
    match find_from(s, pat, from) {
        Some(i) => if pat.len() > 0 && from <= i && i + pat.len() <= s.len() {
            s.subrange(from, i) + to + replace_from(s, pat, to, i + pat.len())
        } else {
            s.subrange(from, s.len() as int)
        },
        None => s.subrange(from, s.len() as int),
    }
}

/// `s` with every occurrence of `pat` replaced by `to`.
pub open spec fn replaced(s: Seq<char>, pat: Seq<char>, to: Seq<char>) -> Seq<char> {
    replace_from(s, pat, to, 0)
}

/// Adds the characters `s[from..to]` to `out`.
pub fn push_range(out: &mut Vec<char>, s: &Vec<char>, from: usize, to: usize)
    requires
        from <= to <= s@.len(),
    ensures
        final(out)@ == old(out)@ + s@.subrange(from as int, to as int),
{
    let mut i: usize = from;
    proof {
        assert(out@ =~= old(out)@ + s@.subrange(from as int, from as int));
    }
    while i < to
        invariant
            from <= i <= to <= s@.len(),
            out@ == old(out)@ + s@.subrange(from as int, i as int),
        decreases to - i,
    {
        out.push(s[i]);
        i += 1;
        proof {
            assert(out@ =~= old(out)@ + s@.subrange(from as int, i as int));
        }
    }
}

/// `s` with every occurrence of `pat` replaced by `to`.
pub fn replace_all(s: &Vec<char>, pat: &Vec<char>, to: &Vec<char>) -> (r: Vec<char>)
    requires
        pat@.len() > 0,
    ensures
        r@ == replaced(s@, pat@, to@),
{
    let mut out: Vec<char> = Vec::new();
    let n: usize = s.len();
    let mut start: usize = 0;
    proof {
        assert(out@ + replace_from(s@, pat@, to@, 0) =~= replaced(s@, pat@, to@));
    }
    loop
        invariant
            pat@.len() > 0,
            start <= s@.len() == n,
            out@ + replace_from(s@, pat@, to@, start as int) == replaced(s@, pat@, to@),
        decreases s@.len() - start,
    {
        match find_in(s, pat, start) {
            Some(i) => {
                let ghost before_push = out@;
                push_range(&mut out, s, start, i);
                push_range(&mut out, to, 0, to.len());
                proof {
                    assert(to@.subrange(0, to@.len() as int) =~= to@);
                    assert(out@ + replace_from(s@, pat@, to@, i + pat@.len()) =~= before_push
                        + replace_from(s@, pat@, to@, start as int));
                }
                start = i + pat.len();
            },
            None => {
                let ghost before_push = out@;
                push_range(&mut out, s, start, n);
                proof {
                    assert(out@ =~= before_push + replace_from(s@, pat@, to@, start as int));
                }
                return out;
            },
        }
    }
}

/// The texts `list[from..]` with `sep` between each two of them.
pub open spec fn join_from(list: Seq<Seq<char>>, sep: Seq<char>, from: int) -> Seq<char>
    decreases list.len() - from,
{
    if from < 0 || from >= list.len() {
        Seq::empty()
    } else if from == list.len() - 1 {
        list[from]
    } else {
        list[from] + sep + join_from(list, sep, from + 1)
    }
}

/// The texts of `list` with `sep` between each two of them.
pub open spec fn joined(list: Seq<Seq<char>>, sep: Seq<char>) -> Seq<char> {
    join_from(list, sep, 0)
}

} // verus!
