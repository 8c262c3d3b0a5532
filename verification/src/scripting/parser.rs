//! The parser of rule scripts. Each parser reads from the start of its input
//! and hands back what is left of the input with what it read.
//!
//! The grammar is written down as spec functions over the characters of the
//! input and a position in them; the parsers are proved to read exactly
//! what those functions say.
use crate::text::{
    char_is_alphanumeric, char_is_whitespace, chars_of, is_identifier, is_whitespace, matches_at,
    occurs_at, scan, skip, string_of_range, CharClass,
};
use vstd::prelude::*;

verus! {

/// Why a parser could not read on.
#[derive(Debug, Clone, Copy, PartialEq, Eq, Structural)]
pub enum ErrorKind {
    /// A word of the language was expected.
    Tag,
    /// An identifier was expected.
    TakeWhile1,
    /// A key was expected.
    TakeWhileMN,
    /// White space was expected.
    MultiSpace,
}

/// The place at which a parser could not read on, counted in characters from
/// the start of the input, and why.
#[derive(Debug, Clone, Copy, PartialEq, Eq, Structural)]
pub struct ParseError {
    pub position: usize,
    pub kind: ErrorKind,
}

/// A failure of the grammar: the position and the reason.
pub struct Failure {
    pub at: int,
    pub kind: ErrorKind,
}

/// What the grammar reads at a position: the position behind it and the
/// value, or a failure.
pub type Parsed<T> = Result<(int, T), Failure>;

/// An import of a script.
#[derive(Debug, PartialEq)]
pub struct Import {
    pub identifier: String,
}

/// A call in a block: the name of the function, then the names and the keys
/// that it is called with, if any.
#[derive(Debug, PartialEq)]
pub struct FunctionCall {
    pub identifier: String,
    pub identifier_list: Option<Vec<String>>,
    pub key_list: Option<Vec<String>>,
}

/// A block of a script: the keys that it is for and the calls to try.
#[derive(Debug, PartialEq)]
pub struct Block {
    pub key_list: Vec<String>,
    pub function_call_list: Vec<FunctionCall>,
}

/// A script: its imports and its blocks.
#[derive(Debug, PartialEq)]
pub struct Program {
    pub import_list: Option<Vec<Import>>,
    pub block_list: Option<Vec<Block>>,
}

pub struct ImportModel {
    pub identifier: Seq<char>,
}

pub struct FunctionCallModel {
    pub identifier: Seq<char>,
    pub identifier_list: Option<Seq<Seq<char>>>,
    pub key_list: Option<Seq<Seq<char>>>,
}

pub struct BlockModel {
    pub key_list: Seq<Seq<char>>,
    pub function_call_list: Seq<FunctionCallModel>,
}

pub struct ProgramModel {
    pub import_list: Option<Seq<ImportModel>>,
    pub block_list: Option<Seq<BlockModel>>,
}

impl DeepView for Import {
    type V = ImportModel;

    open spec fn deep_view(&self) -> ImportModel {
        ImportModel { identifier: self.identifier@ }
    }
}

impl DeepView for FunctionCall {
    type V = FunctionCallModel;

    open spec fn deep_view(&self) -> FunctionCallModel {
        FunctionCallModel {
            identifier: self.identifier@,
            identifier_list: self.identifier_list.deep_view(),
            key_list: self.key_list.deep_view(),
        }
    }
}

impl DeepView for Block {
    type V = BlockModel;

    open spec fn deep_view(&self) -> BlockModel {
        BlockModel {
            key_list: self.key_list.deep_view(),
            function_call_list: self.function_call_list.deep_view(),
        }
    }
}

impl DeepView for Program {
    type V = ProgramModel;

    open spec fn deep_view(&self) -> ProgramModel {
        ProgramModel {
            import_list: self.import_list.deep_view(),
            block_list: self.block_list.deep_view(),
        }
    }
}

// ---------------------------------------------------------------------------
// The grammar
// ---------------------------------------------------------------------------
/// The word `word` at `pos`.
pub open spec fn tag_at(s: Seq<char>, pos: int, word: Seq<char>) -> Parsed<()> {
    if occurs_at(s, word, pos) {
        Ok((pos + word.len(), ()))
    } else {
        Err(Failure { at: pos, kind: ErrorKind::Tag })
    }
}

/// The position behind the blanks at `pos`; there may be none.
pub open spec fn blanks0_at(s: Seq<char>, pos: int) -> int {
    skip(s, CharClass::Blank, pos)
}

/// The blanks at `pos`, of which there is at least one.
pub open spec fn blanks1_at(s: Seq<char>, pos: int) -> Parsed<()> {
    if skip(s, CharClass::Blank, pos) > pos {
        Ok((skip(s, CharClass::Blank, pos), ()))
    } else {
        Err(Failure { at: pos, kind: ErrorKind::MultiSpace })
    }
}

/// A key at `pos`: one character that is no white space.
pub open spec fn key_at(s: Seq<char>, pos: int) -> Parsed<Seq<char>> {
    if 0 <= pos < s.len() && !is_whitespace(s[pos]) {
        Ok((pos + 1, s.subrange(pos, pos + 1)))
    } else {
        Err(Failure { at: pos, kind: ErrorKind::TakeWhileMN })
    }
}

/// An identifier at `pos`: letters, digits and underscores, as many as there
/// are and at least one.
pub open spec fn identifier_at(s: Seq<char>, pos: int) -> Parsed<Seq<char>> {
    if skip(s, CharClass::Identifier, pos) > pos {
        Ok(
            (
                skip(s, CharClass::Identifier, pos),
                s.subrange(pos, skip(s, CharClass::Identifier, pos)),
            ),
        )
    } else {
        Err(Failure { at: pos, kind: ErrorKind::TakeWhile1 })
    }
}

/// The word `or` with blanks on both sides at `pos`.
pub open spec fn or_at(s: Seq<char>, pos: int) -> Parsed<()> {
    match blanks1_at(s, pos) {
        Ok((p1, _)) => match tag_at(s, p1, "or"@) {
            Ok((p2, _)) => blanks1_at(s, p2),
            Err(e) => Err(e),
        },
        Err(e) => Err(e),
    }
}

/// The two kinds of word that stand in lists joined by `or`.
#[derive(Debug, Clone, Copy, PartialEq, Eq, Structural)]
pub enum WordKind {
    Key,
    Identifier,
}

/// A word of the kind `kind` at `pos`.
pub open spec fn word_at(kind: WordKind, s: Seq<char>, pos: int) -> Parsed<Seq<char>> {
    match kind {
        WordKind::Key => key_at(s, pos),
        WordKind::Identifier => identifier_at(s, pos),
    }
}

/// The rest of a list of words behind its first word: as long as an `or` and
/// a word follow, the word joins the list. An `or` that no word follows is
/// not read.
pub open spec fn word_list_rest(kind: WordKind, s: Seq<char>, pos: int) -> (int, Seq<Seq<char>>)
    decreases s.len() - pos,
{
    match or_at(s, pos) {
        Ok((p, _)) => match word_at(kind, s, p) {
            Ok((q, w)) => if pos < q <= s.len() {
                let (end, rest) = word_list_rest(kind, s, q);
                (end, seq![w] + rest)
            } else {
                (pos, Seq::empty())
            },
            Err(_) => (pos, Seq::empty()),
        },
        Err(_) => (pos, Seq::empty()),
    }
}

/// A list of words of the kind `kind`, joined by `or`, at `pos`. It has at
/// least one word.
pub open spec fn word_list_at(kind: WordKind, s: Seq<char>, pos: int) -> Parsed<Seq<Seq<char>>> {
    match word_at(kind, s, pos) {
        Ok((p, w)) => {
            let (end, rest) = word_list_rest(kind, s, p);
            Ok((end, seq![w] + rest))
        },
        Err(e) => Err(e),
    }
}

/// An import at `pos`: the word `import`, blanks, and an identifier.
pub open spec fn import_at(s: Seq<char>, pos: int) -> Parsed<ImportModel> {
    match tag_at(s, pos, "import"@) {
        Ok((p1, _)) => match blanks1_at(s, p1) {
            Ok((p2, _)) => match identifier_at(s, p2) {
                Ok((p3, identifier)) => Ok((p3, ImportModel { identifier })),
                Err(e) => Err(e),
            },
            Err(e) => Err(e),
        },
        Err(e) => Err(e),
    }
}

/// The rest of a list of imports behind its first import: as long as blanks
/// and an import follow, the import joins the list.
pub open spec fn import_list_rest(s: Seq<char>, pos: int) -> (int, Seq<ImportModel>)
    decreases s.len() - pos,
{
    match blanks1_at(s, pos) {
        Ok((p, _)) => match import_at(s, p) {
            Ok((q, i)) => if pos < q <= s.len() {
                let (end, rest) = import_list_rest(s, q);
                (end, seq![i] + rest)
            } else {
                (pos, Seq::empty())
            },
            Err(_) => (pos, Seq::empty()),
        },
        Err(_) => (pos, Seq::empty()),
    }
}

/// A list of imports, with blanks between them, at `pos`.
pub open spec fn import_list_at(s: Seq<char>, pos: int) -> Parsed<Seq<ImportModel>> {
    match import_at(s, pos) {
        Ok((p, i)) => {
            let (end, rest) = import_list_rest(s, p);
            Ok((end, seq![i] + rest))
        },
        Err(e) => Err(e),
    }
}

/// What `list` reads if it reads anything, and nothing read at `pos` if not.
pub open spec fn optional<T>(list: Parsed<T>, pos: int) -> (int, Option<T>) {
    match list {
        Ok((p, v)) => (p, Some(v)),
        Err(_) => (pos, None),
    }
}

/// The keys of a call at `pos`: blanks, the word `for`, blanks, and a list
/// of keys.
pub open spec fn for_keys_at(s: Seq<char>, pos: int) -> Parsed<Seq<Seq<char>>> {
    match blanks1_at(s, pos) {
        Ok((p1, _)) => match tag_at(s, p1, "for"@) {
            Ok((p2, _)) => match blanks1_at(s, p2) {
                Ok((p3, _)) => word_list_at(WordKind::Key, s, p3),
                Err(e) => Err(e),
            },
            Err(e) => Err(e),
        },
        Err(e) => Err(e),
    }
}

/// A call at `pos`: an identifier, an opening bracket right behind it, then
/// between blanks a list of identifiers if there is one, the keys behind
/// `for` if there are any, and a closing bracket.
pub open spec fn function_call_at(s: Seq<char>, pos: int) -> Parsed<FunctionCallModel> {
    match identifier_at(s, pos) {
        Ok((p1, identifier)) => match tag_at(s, p1, "("@) {
            Ok((p2, _)) => {
                let p3 = blanks0_at(s, p2);
                let (p4, identifier_list) = optional(
                    word_list_at(WordKind::Identifier, s, p3),
                    p3,
                );
                let (p5, key_list) = optional(for_keys_at(s, p4), p4);
                let p6 = blanks0_at(s, p5);
                match tag_at(s, p6, ")"@) {
                    Ok((p7, _)) => Ok(
                        (p7, FunctionCallModel { identifier, identifier_list, key_list }),
                    ),
                    Err(e) => Err(e),
                }
            },
            Err(e) => Err(e),
        },
        Err(e) => Err(e),
    }
}

/// The rest of a list of calls behind its first call: as long as an `or` and
/// a call follow, the call joins the list.
pub open spec fn function_call_list_rest(s: Seq<char>, pos: int) -> (int, Seq<FunctionCallModel>)
    decreases s.len() - pos,
{
    match or_at(s, pos) {
        Ok((p, _)) => match function_call_at(s, p) {
            Ok((q, c)) => if pos < q <= s.len() {
                let (end, rest) = function_call_list_rest(s, q);
                (end, seq![c] + rest)
            } else {
                (pos, Seq::empty())
            },
            Err(_) => (pos, Seq::empty()),
        },
        Err(_) => (pos, Seq::empty()),
    }
}

/// A list of calls, joined by `or`, at `pos`.
pub open spec fn function_call_list_at(s: Seq<char>, pos: int) -> Parsed<Seq<FunctionCallModel>> {
    match function_call_at(s, pos) {
        Ok((p, c)) => {
            let (end, rest) = function_call_list_rest(s, p);
            Ok((end, seq![c] + rest))
        },
        Err(e) => Err(e),
    }
}

/// A block at `pos`: the word `on`, a list of keys, a colon, a list of calls
/// and the word `end`, with blanks between them; the blanks before the colon
/// may be missing.
pub open spec fn block_at(s: Seq<char>, pos: int) -> Parsed<BlockModel> {
    match tag_at(s, pos, "on"@) {
        Ok((p1, _)) => match blanks1_at(s, p1) {
            Ok((p2, _)) => match word_list_at(WordKind::Key, s, p2) {
                Ok((p3, key_list)) => match tag_at(s, blanks0_at(s, p3), ":"@) {
                    Ok((p5, _)) => match blanks1_at(s, p5) {
                        Ok((p6, _)) => match function_call_list_at(s, p6) {
                            Ok((p7, function_call_list)) => match blanks1_at(s, p7) {
                                Ok((p8, _)) => match tag_at(s, p8, "end"@) {
                                    Ok((p9, _)) => Ok(
                                        (p9, BlockModel { key_list, function_call_list }),
                                    ),
                                    Err(e) => Err(e),
                                },
                                Err(e) => Err(e),
                            },
                            Err(e) => Err(e),
                        },
                        Err(e) => Err(e),
                    },
                    Err(e) => Err(e),
                },
                Err(e) => Err(e),
            },
            Err(e) => Err(e),
        },
        Err(e) => Err(e),
    }
}

/// The rest of a list of blocks behind its first block: as long as blanks
/// and a block follow, the block joins the list.
pub open spec fn block_list_rest(s: Seq<char>, pos: int) -> (int, Seq<BlockModel>)
    decreases s.len() - pos,
{
    match blanks1_at(s, pos) {
        Ok((p, _)) => match block_at(s, p) {
            Ok((q, b)) => if pos < q <= s.len() {
                let (end, rest) = block_list_rest(s, q);
                (end, seq![b] + rest)
            } else {
                (pos, Seq::empty())
            },
            Err(_) => (pos, Seq::empty()),
        },
        Err(_) => (pos, Seq::empty()),
    }
}

/// A list of blocks, with blanks between them, at `pos`.
pub open spec fn block_list_at(s: Seq<char>, pos: int) -> Parsed<Seq<BlockModel>> {
    match block_at(s, pos) {
        Ok((p, b)) => {
            let (end, rest) = block_list_rest(s, p);
            Ok((end, seq![b] + rest))
        },
        Err(e) => Err(e),
    }
}

/// A script at `pos`: between blanks, the imports if there are any and the
/// blocks if there are any. Every input is a script; what does not belong to
/// it is left unread.
pub open spec fn program_at(s: Seq<char>, pos: int) -> (int, ProgramModel) {
    let p1 = blanks0_at(s, pos);
    let (p2, import_list) = optional(import_list_at(s, p1), p1);
    let p3 = blanks0_at(s, p2);
    let (p4, block_list) = optional(block_list_at(s, p3), p3);
    (blanks0_at(s, p4), ProgramModel { import_list, block_list })
}

/// Whether what a parser handed back is what the grammar reads: on success
/// the same position and value, on failure the same place and reason.
pub open spec fn reads<T: DeepView>(r: Result<(usize, T), ParseError>, m: Parsed<T::V>) -> bool {
    match (r, m) {
        (Ok((p, v)), Ok((q, w))) => p == q && v.deep_view() == w,
        (Err(e), Err(f)) => e.position == f.at && e.kind == f.kind,
        _ => false,
    }
}

/// Whether what a parser handed back for the input `input` is what the
/// grammar reads at its start: on success the rest of the input behind what
/// was read and the value, on failure the place and the reason.
pub open spec fn parses<T: DeepView>(
    r: Result<(&str, T), ParseError>,
    input: Seq<char>,
    m: Parsed<T::V>,
) -> bool {
    match (r, m) {
        (Ok((rest, v)), Ok((q, w))) => 0 <= q <= input.len() && rest@ == input.subrange(
            q,
            input.len() as int,
        ) && v.deep_view() == w,
        (Err(e), Err(f)) => e.position == f.at && e.kind == f.kind,
        _ => false,
    }
}

// ---------------------------------------------------------------------------
// The parsers on characters and positions
// ---------------------------------------------------------------------------
/// Checks whether a character may stand for a key: every character but white
/// space may.
pub fn is_key_char(c: char) -> (r: bool)
    ensures
        r == !is_whitespace(c),
{
    !char_is_whitespace(c)
}

/// Checks whether a character may stand in an identifier: letters, digits
/// and the underscore may.
pub fn is_identifier_char(c: char) -> (r: bool)
    ensures
        r == is_identifier(c),
{
    char_is_alphanumeric(c) || c == '_'
}

fn failure<T: DeepView>(position: usize, kind: ErrorKind) -> (r: Result<(usize, T), ParseError>)
    ensures
        r == Err::<(usize, T), ParseError>(ParseError { position, kind }),
{
    Err(ParseError { position, kind })
}

/// The position behind the word `word` at `pos`, if it stands there.
fn tag_in(s: &Vec<char>, pos: usize, word: &str) -> (r: Option<usize>)
    requires
        pos <= s@.len(),
    ensures
        match r {
            Some(p) => tag_at(s@, pos as int, word@) == Ok::<(int, ()), Failure>((p as int, ()))
                && pos <= p <= s@.len(),
            None => tag_at(s@, pos as int, word@) == Err::<(int, ()), Failure>(
                Failure { at: pos as int, kind: ErrorKind::Tag },
            ),
        },
{
    let w = chars_of(word);
    let n: usize = s.len();
    if w.len() <= n - pos && matches_at(s, &w, pos) {
        Some(pos + w.len())
    } else {
        None
    }
}

/// The position behind the blanks at `pos`.
fn blanks0_in(s: &Vec<char>, pos: usize) -> (r: usize)
    requires
        pos <= s@.len(),
    ensures
        r == blanks0_at(s@, pos as int),
        pos <= r <= s@.len(),
{
    scan(s, CharClass::Blank, pos)
}

/// The position behind the blanks at `pos`, if there is at least one.
fn blanks1_in(s: &Vec<char>, pos: usize) -> (r: Option<usize>)
    requires
        pos <= s@.len(),
    ensures
        match r {
            Some(p) => blanks1_at(s@, pos as int) == Ok::<(int, ()), Failure>((p as int, ()))
                && pos < p <= s@.len(),
            None => blanks1_at(s@, pos as int) == Err::<(int, ()), Failure>(
                Failure { at: pos as int, kind: ErrorKind::MultiSpace },
            ),
        },
{
    let p: usize = scan(s, CharClass::Blank, pos);
    if p > pos {
        Some(p)
    } else {
        None
    }
}

/// The position behind an `or` with blanks on both sides at `pos`.
fn or_in(s: &Vec<char>, pos: usize) -> (r: Option<usize>)
    requires
        pos <= s@.len(),
    ensures
        match r {
            Some(p) => or_at(s@, pos as int) == Ok::<(int, ()), Failure>((p as int, ())) && pos
                < p <= s@.len(),
            None => or_at(s@, pos as int).is_err(),
        },
{
    match blanks1_in(s, pos) {
        Some(p1) => match tag_in(s, p1, "or") {
            Some(p2) => blanks1_in(s, p2),
            None => None,
        },
        None => None,
    }
}

fn key_in(s: &Vec<char>, pos: usize) -> (r: Result<(usize, String), ParseError>)
    requires
        pos <= s@.len(),
    ensures
        reads(r, key_at(s@, pos as int)),
        r.is_ok() ==> pos < r.unwrap().0 <= s@.len(),
{
    if pos < s.len() && is_key_char(s[pos]) {
        Ok((pos + 1, string_of_range(s, pos, pos + 1)))
    } else {
        failure(pos, ErrorKind::TakeWhileMN)
    }
}

fn identifier_in(s: &Vec<char>, pos: usize) -> (r: Result<(usize, String), ParseError>)
    requires
        pos <= s@.len(),
    ensures
        reads(r, identifier_at(s@, pos as int)),
        r.is_ok() ==> pos < r.unwrap().0 <= s@.len(),
{
    let p: usize = scan(s, CharClass::Identifier, pos);
    if p > pos {
        Ok((p, string_of_range(s, pos, p)))
    } else {
        failure(pos, ErrorKind::TakeWhile1)
    }
}

fn word_in(kind: WordKind, s: &Vec<char>, pos: usize) -> (r: Result<(usize, String), ParseError>)
    requires
        pos <= s@.len(),
    ensures
        reads(r, word_at(kind, s@, pos as int)),
        r.is_ok() ==> pos < r.unwrap().0 <= s@.len(),
{
    match kind {
        WordKind::Key => key_in(s, pos),
        WordKind::Identifier => identifier_in(s, pos),
    }
}

fn word_list_in(kind: WordKind, s: &Vec<char>, pos: usize) -> (r: Result<
    (usize, Vec<String>),
    ParseError,
>)
    requires
        pos <= s@.len(),
    ensures
        reads(r, word_list_at(kind, s@, pos as int)),
        r.is_ok() ==> pos < r.unwrap().0 <= s@.len(),
{
    let (first_end, first) = match word_in(kind, s, pos) {
        Ok(found) => found,
        Err(e) => {
            return Err(e);
        },
    };
    let mut list: Vec<String> = Vec::new();
    let ghost first_view = first@;
    list.push(first);
    let mut cur: usize = first_end;
    proof {
        assert(list.deep_view() =~= seq![first_view]);
    }
    loop
        invariant
            pos < cur <= s@.len(),
            word_at(kind, s@, pos as int) == Ok::<(int, Seq<char>), Failure>(
                (first_end as int, first_view),
            ),
            word_list_rest(kind, s@, cur as int).0 == word_list_rest(
                kind,
                s@,
                first_end as int,
            ).0,
            list.deep_view() + word_list_rest(kind, s@, cur as int).1 == seq![first_view]
                + word_list_rest(kind, s@, first_end as int).1,
        decreases s@.len() - cur,
    {
        let next = match or_in(s, cur) {
            Some(p) => match word_in(kind, s, p) {
                Ok(found) => Some(found),
                Err(_) => None,
            },
            None => None,
        };
        match next {
            Some((q, w)) => {
                let ghost before_push = list.deep_view();
                let ghost w_view = w@;
                list.push(w);
                proof {
                    assert(list.deep_view() =~= before_push + seq![w_view]);
                    assert(list.deep_view() + word_list_rest(kind, s@, q as int).1 =~= before_push
                        + word_list_rest(kind, s@, cur as int).1);
                }
                cur = q;
            },
            None => {
                proof {
                    assert(list.deep_view() + Seq::<Seq<char>>::empty() =~= list.deep_view());
                }
                return Ok((cur, list));
            },
        }
    }
}

fn import_in(s: &Vec<char>, pos: usize) -> (r: Result<(usize, Import), ParseError>)
    requires
        pos <= s@.len(),
    ensures
        reads(r, import_at(s@, pos as int)),
        r.is_ok() ==> pos < r.unwrap().0 <= s@.len(),
{
    let p1 = match tag_in(s, pos, "import") {
        Some(p) => p,
        None => {
            return failure(pos, ErrorKind::Tag);
        },
    };
    let p2 = match blanks1_in(s, p1) {
        Some(p) => p,
        None => {
            return failure(p1, ErrorKind::MultiSpace);
        },
    };
    match identifier_in(s, p2) {
        Ok((p3, identifier)) => Ok((p3, Import { identifier })),
        Err(e) => Err(e),
    }
}

fn import_list_in(s: &Vec<char>, pos: usize) -> (r: Result<(usize, Vec<Import>), ParseError>)
    requires
        pos <= s@.len(),
    ensures
        reads(r, import_list_at(s@, pos as int)),
        r.is_ok() ==> pos < r.unwrap().0 <= s@.len(),
{
    let (first_end, first) = match import_in(s, pos) {
        Ok(found) => found,
        Err(e) => {
            return Err(e);
        },
    };
    let mut list: Vec<Import> = Vec::new();
    let ghost first_view = first.deep_view();
    list.push(first);
    let mut cur: usize = first_end;
    proof {
        assert(list.deep_view() =~= seq![first_view]);
    }
    loop
        invariant
            pos < cur <= s@.len(),
            import_at(s@, pos as int) == Ok::<(int, ImportModel), Failure>(
                (first_end as int, first_view),
            ),
            import_list_rest(s@, cur as int).0 == import_list_rest(s@, first_end as int).0,
            list.deep_view() + import_list_rest(s@, cur as int).1 == seq![first_view] + import_list_rest(
                s@,
                first_end as int,
            ).1,
        decreases s@.len() - cur,
    {
        let next = match blanks1_in(s, cur) {
            Some(p) => match import_in(s, p) {
                Ok(found) => Some(found),
                Err(_) => None,
            },
            None => None,
        };
        match next {
            Some((q, item)) => {
                let ghost before_push = list.deep_view();
                let ghost item_view = item.deep_view();
                list.push(item);
                proof {
                    assert(list.deep_view() =~= before_push + seq![item_view]);
                    assert(list.deep_view() + import_list_rest(s@, q as int).1 =~= before_push
                        + import_list_rest(s@, cur as int).1);
                }
                cur = q;
            },
            None => {
                proof {
                    assert(list.deep_view() + Seq::<ImportModel>::empty() =~= list.deep_view());
                }
                return Ok((cur, list));
            },
        }
    }
}

fn for_keys_in(s: &Vec<char>, pos: usize) -> (r: Result<(usize, Vec<String>), ParseError>)
    requires
        pos <= s@.len(),
    ensures
        reads(r, for_keys_at(s@, pos as int)),
        r.is_ok() ==> pos < r.unwrap().0 <= s@.len(),
{
    let p1 = match blanks1_in(s, pos) {
        Some(p) => p,
        None => {
            return failure(pos, ErrorKind::MultiSpace);
        },
    };
    let p2 = match tag_in(s, p1, "for") {
        Some(p) => p,
        None => {
            return failure(p1, ErrorKind::Tag);
        },
    };
    let p3 = match blanks1_in(s, p2) {
        Some(p) => p,
        None => {
            return failure(p2, ErrorKind::MultiSpace);
        },
    };
    word_list_in(WordKind::Key, s, p3)
}

fn function_call_in(s: &Vec<char>, pos: usize) -> (r: Result<(usize, FunctionCall), ParseError>)
    requires
        pos <= s@.len(),
    ensures
        reads(r, function_call_at(s@, pos as int)),
        r.is_ok() ==> pos < r.unwrap().0 <= s@.len(),
{
    let (p1, identifier) = match identifier_in(s, pos) {
        Ok(found) => found,
        Err(e) => {
            return Err(e);
        },
    };
    let p2 = match tag_in(s, p1, "(") {
        Some(p) => p,
        None => {
            return failure(p1, ErrorKind::Tag);
        },
    };
    let p3 = blanks0_in(s, p2);
    let (p4, identifier_list) = match word_list_in(WordKind::Identifier, s, p3) {
        Ok((p, list)) => (p, Some(list)),
        Err(_) => (p3, None),
    };
    let (p5, key_list) = match for_keys_in(s, p4) {
        Ok((p, list)) => (p, Some(list)),
        Err(_) => (p4, None),
    };
    let p6 = blanks0_in(s, p5);
    match tag_in(s, p6, ")") {
        Some(p7) => Ok((p7, FunctionCall { identifier, identifier_list, key_list })),
        None => failure(p6, ErrorKind::Tag),
    }
}

fn function_call_list_in(s: &Vec<char>, pos: usize) -> (r: Result<(usize, Vec<FunctionCall>), ParseError>)
    requires
        pos <= s@.len(),
    ensures
        reads(r, function_call_list_at(s@, pos as int)),
        r.is_ok() ==> pos < r.unwrap().0 <= s@.len(),
{
    let (first_end, first) = match function_call_in(s, pos) {
        Ok(found) => found,
        Err(e) => {
            return Err(e);
        },
    };
    let mut list: Vec<FunctionCall> = Vec::new();
    let ghost first_view = first.deep_view();
    list.push(first);
    let mut cur: usize = first_end;
    proof {
        assert(list.deep_view() =~= seq![first_view]);
    }
    loop
        invariant
            pos < cur <= s@.len(),
            function_call_at(s@, pos as int) == Ok::<(int, FunctionCallModel), Failure>(
                (first_end as int, first_view),
            ),
            function_call_list_rest(s@, cur as int).0 == function_call_list_rest(s@, first_end as int).0,
            list.deep_view() + function_call_list_rest(s@, cur as int).1 == seq![first_view] + function_call_list_rest(
                s@,
                first_end as int,
            ).1,
        decreases s@.len() - cur,
    {
        let next = match or_in(s, cur) {
            Some(p) => match function_call_in(s, p) {
                Ok(found) => Some(found),
                Err(_) => None,
            },
            None => None,
        };
        match next {
            Some((q, item)) => {
                let ghost before_push = list.deep_view();
                let ghost item_view = item.deep_view();
                list.push(item);
                proof {
                    assert(list.deep_view() =~= before_push + seq![item_view]);
                    assert(list.deep_view() + function_call_list_rest(s@, q as int).1 =~= before_push
                        + function_call_list_rest(s@, cur as int).1);
                }
                cur = q;
            },
            None => {
                proof {
                    assert(list.deep_view() + Seq::<FunctionCallModel>::empty() =~= list.deep_view());
                }
                return Ok((cur, list));
            },
        }
    }
}

fn block_in(s: &Vec<char>, pos: usize) -> (r: Result<(usize, Block), ParseError>)
    requires
        pos <= s@.len(),
    ensures
        reads(r, block_at(s@, pos as int)),
        r.is_ok() ==> pos < r.unwrap().0 <= s@.len(),
{
    let p1 = match tag_in(s, pos, "on") {
        Some(p) => p,
        None => {
            return failure(pos, ErrorKind::Tag);
        },
    };
    let p2 = match blanks1_in(s, p1) {
        Some(p) => p,
        None => {
            return failure(p1, ErrorKind::MultiSpace);
        },
    };
    let (p3, key_list) = match word_list_in(WordKind::Key, s, p2) {
        Ok(found) => found,
        Err(e) => {
            return Err(e);
        },
    };
    let p4 = blanks0_in(s, p3);
    let p5 = match tag_in(s, p4, ":") {
        Some(p) => p,
        None => {
            return failure(p4, ErrorKind::Tag);
        },
    };
    let p6 = match blanks1_in(s, p5) {
        Some(p) => p,
        None => {
            return failure(p5, ErrorKind::MultiSpace);
        },
    };
    let (p7, function_call_list) = match function_call_list_in(s, p6) {
        Ok(found) => found,
        Err(e) => {
            return Err(e);
        },
    };
    let p8 = match blanks1_in(s, p7) {
        Some(p) => p,
        None => {
            return failure(p7, ErrorKind::MultiSpace);
        },
    };
    match tag_in(s, p8, "end") {
        Some(p9) => Ok((p9, Block { key_list, function_call_list })),
        None => failure(p8, ErrorKind::Tag),
    }
}

fn block_list_in(s: &Vec<char>, pos: usize) -> (r: Result<(usize, Vec<Block>), ParseError>)
    requires
        pos <= s@.len(),
    ensures
        reads(r, block_list_at(s@, pos as int)),
        r.is_ok() ==> pos < r.unwrap().0 <= s@.len(),
{
    let (first_end, first) = match block_in(s, pos) {
        Ok(found) => found,
        Err(e) => {
            return Err(e);
        },
    };
    let mut list: Vec<Block> = Vec::new();
    let ghost first_view = first.deep_view();
    list.push(first);
    let mut cur: usize = first_end;
    proof {
        assert(list.deep_view() =~= seq![first_view]);
    }
    loop
        invariant
            pos < cur <= s@.len(),
            block_at(s@, pos as int) == Ok::<(int, BlockModel), Failure>(
                (first_end as int, first_view),
            ),
            block_list_rest(s@, cur as int).0 == block_list_rest(s@, first_end as int).0,
            list.deep_view() + block_list_rest(s@, cur as int).1 == seq![first_view] + block_list_rest(
                s@,
                first_end as int,
            ).1,
        decreases s@.len() - cur,
    {
        let next = match blanks1_in(s, cur) {
            Some(p) => match block_in(s, p) {
                Ok(found) => Some(found),
                Err(_) => None,
            },
            None => None,
        };
        match next {
            Some((q, item)) => {
                let ghost before_push = list.deep_view();
                let ghost item_view = item.deep_view();
                list.push(item);
                proof {
                    assert(list.deep_view() =~= before_push + seq![item_view]);
                    assert(list.deep_view() + block_list_rest(s@, q as int).1 =~= before_push
                        + block_list_rest(s@, cur as int).1);
                }
                cur = q;
            },
            None => {
                proof {
                    assert(list.deep_view() + Seq::<BlockModel>::empty() =~= list.deep_view());
                }
                return Ok((cur, list));
            },
        }
    }
}

fn program_in(s: &Vec<char>, pos: usize) -> (r: (usize, Program))
    requires
        pos <= s@.len(),
    ensures
        r.0 == program_at(s@, pos as int).0,
        r.1.deep_view() == program_at(s@, pos as int).1,
        pos <= r.0 <= s@.len(),
{
    let p1 = blanks0_in(s, pos);
    let (p2, import_list) = match import_list_in(s, p1) {
        Ok((p, list)) => (p, Some(list)),
        Err(_) => (p1, None),
    };
    let p3 = blanks0_in(s, p2);
    let (p4, block_list) = match block_list_in(s, p3) {
        Ok((p, list)) => (p, Some(list)),
        Err(_) => (p3, None),
    };
    (blanks0_in(s, p4), Program { import_list, block_list })
}

// ---------------------------------------------------------------------------
// The parsers on strings
// ---------------------------------------------------------------------------
/// Hands what a parser read on to the caller, with the rest of the input in
/// the place of the position.
fn rest_of<'a, T: DeepView>(
    input: &'a str,
    chars: &Vec<char>,
    r: Result<(usize, T), ParseError>,
) -> (out: Result<(&'a str, T), ParseError>)
    requires
        chars@ == input@,
        r.is_ok() ==> r.unwrap().0 <= input@.len(),
    ensures
        forall|m: Parsed<T::V>| reads(r, m) ==> parses(out, input@, m),
{
    match r {
        Ok((p, v)) => Ok((input.substring_char(p, chars.len()), v)),
        Err(e) => Err(e),
    }
}

/// Reads a key at the start of the input.
pub fn parse_key(input: &str) -> (r: Result<(&str, String), ParseError>)
    ensures
        parses(r, input@, key_at(input@, 0)),
{
    let chars = chars_of(input);
    rest_of(input, &chars, key_in(&chars, 0))
}

/// Reads a list of keys, joined by `or`, at the start of the input.
pub fn parse_key_list(input: &str) -> (r: Result<(&str, Vec<String>), ParseError>)
    ensures
        parses(r, input@, word_list_at(WordKind::Key, input@, 0)),
{
    let chars = chars_of(input);
    rest_of(input, &chars, word_list_in(WordKind::Key, &chars, 0))
}

/// Reads an identifier at the start of the input.
pub fn parse_identifier(input: &str) -> (r: Result<(&str, String), ParseError>)
    ensures
        parses(r, input@, identifier_at(input@, 0)),
{
    let chars = chars_of(input);
    rest_of(input, &chars, identifier_in(&chars, 0))
}

/// Reads a list of identifiers, joined by `or`, at the start of the input.
pub fn parse_identifier_list(input: &str) -> (r: Result<(&str, Vec<String>), ParseError>)
    ensures
        parses(r, input@, word_list_at(WordKind::Identifier, input@, 0)),
{
    let chars = chars_of(input);
    rest_of(input, &chars, word_list_in(WordKind::Identifier, &chars, 0))
}

/// Reads an import at the start of the input.
pub fn parse_import(input: &str) -> (r: Result<(&str, Import), ParseError>)
    ensures
        parses(r, input@, import_at(input@, 0)),
{
    let chars = chars_of(input);
    rest_of(input, &chars, import_in(&chars, 0))
}

/// Reads a list of imports at the start of the input.
pub fn parse_import_list(input: &str) -> (r: Result<(&str, Vec<Import>), ParseError>)
    ensures
        parses(r, input@, import_list_at(input@, 0)),
{
    let chars = chars_of(input);
    rest_of(input, &chars, import_list_in(&chars, 0))
}

/// Reads a call at the start of the input.
pub fn parse_function_call(input: &str) -> (r: Result<(&str, FunctionCall), ParseError>)
    ensures
        parses(r, input@, function_call_at(input@, 0)),
{
    let chars = chars_of(input);
    rest_of(input, &chars, function_call_in(&chars, 0))
}

/// Reads a list of calls, joined by `or`, at the start of the input.
pub fn parse_function_call_list(input: &str) -> (r: Result<(&str, Vec<FunctionCall>), ParseError>)
    ensures
        parses(r, input@, function_call_list_at(input@, 0)),
{
    let chars = chars_of(input);
    rest_of(input, &chars, function_call_list_in(&chars, 0))
}

/// Reads a block at the start of the input.
pub fn parse_block(input: &str) -> (r: Result<(&str, Block), ParseError>)
    ensures
        parses(r, input@, block_at(input@, 0)),
{
    let chars = chars_of(input);
    rest_of(input, &chars, block_in(&chars, 0))
}

/// Reads a script. Every input is a script: the result is never an error,
/// and what does not belong to the script is handed back unread.
pub fn parse_program(input: &str) -> (r: Result<(&str, Program), ParseError>)
    ensures
        parses(
            r,
            input@,
            Ok::<(int, ProgramModel), Failure>(program_at(input@, 0)),
        ),
        r.is_ok(),
{
    let chars = chars_of(input);
    let (p, program) = program_in(&chars, 0);
    Ok((input.substring_char(p, chars.len()), program))
}

} // verus!
