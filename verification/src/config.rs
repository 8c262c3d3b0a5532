//! The settings of the input method as they are held in memory. Reading them
//! from a file and writing them back is left to the caller: the store takes
//! the lines of the file one by one and gives back the lines to write.
use crate::macros::{Listing, MacroTable};
use crate::text::{
    chars_of, find, find_in, join_from, joined, replace_all, replaced, slice_of, split, split_on,
    str_eq, string_of, trim, trimmed, views,
};
use vstd::prelude::*;

verus! {

/// The views of a list of strings.
pub open spec fn texts(v: Seq<String>) -> Seq<Seq<char>> {
    Seq::new(v.len(), |i: int| v[i]@)
}

/// `s[from..]` without the entries equal to `x`.
pub open spec fn without_from(s: Seq<Seq<char>>, x: Seq<char>, from: int) -> Seq<Seq<char>>
    decreases s.len() - from,
{
    if from < 0 || from >= s.len() {
        Seq::empty()
    } else if s[from] == x {
        without_from(s, x, from + 1)
    } else {
        seq![s[from]] + without_from(s, x, from + 1)
    }
}

/// `s` without the entries equal to `x`, the others in their order.
pub open spec fn without(s: Seq<Seq<char>>, x: Seq<char>) -> Seq<Seq<char>> {
    without_from(s, x, 0)
}

/// The settings as a mathematical value.
pub struct ConfigModel {
    pub hotkey: Seq<char>,
    pub method: Seq<char>,
    pub vn_apps: Seq<Seq<char>>,
    pub en_apps: Seq<Seq<char>>,
    pub is_macro_enabled: bool,
    pub macros: Map<Seq<char>, Seq<char>>,
    pub is_auto_toggle_enabled: bool,
    pub is_gox_mode_enabled: bool,
    pub allowed_words: Seq<Seq<char>>,
}

/// The settings of a first start: the hotkey `ctrl+space`, the method
/// `telex`, the one allowed word `đc`, and everything else empty or off.
pub open spec fn default_config() -> ConfigModel {
    ConfigModel {
        hotkey: "ctrl+space"@,
        method: "telex"@,
        vn_apps: Seq::empty(),
        en_apps: Seq::empty(),
        is_macro_enabled: false,
        macros: Map::empty(),
        is_auto_toggle_enabled: false,
        is_gox_mode_enabled: false,
        allowed_words: seq!["đc"@],
    }
}

/// The settings after `app` was marked as an application to write Vietnamese
/// in: it leaves the English list and joins the Vietnamese one.
pub open spec fn with_vietnamese_app(c: ConfigModel, app: Seq<char>) -> ConfigModel {
    ConfigModel { en_apps: without(c.en_apps, app), vn_apps: c.vn_apps.push(app), ..c }
}

/// The settings after `app` was marked as an application to write English
/// in: it leaves the Vietnamese list and joins the English one.
pub open spec fn with_english_app(c: ConfigModel, app: Seq<char>) -> ConfigModel {
    ConfigModel { vn_apps: without(c.vn_apps, app), en_apps: c.en_apps.push(app), ..c }
}

/// Whether `list` holds `name`.
pub fn list_contains(list: &Vec<String>, name: &str) -> (r: bool)
    ensures
        r == texts(list@).contains(name@),
{
    let mut i: usize = 0;
    while i < list.len()
        invariant
            i <= list@.len(),
            forall|k: int| 0 <= k < i ==> texts(list@)[k] != name@,
        decreases list.len() - i,
    {
        if str_eq(list[i].as_str(), name) {
            proof {
                assert(texts(list@)[i as int] == name@);
            }
            return true;
        }
        i += 1;
    }
    false
}

/// `list` without the entries equal to `name`.
pub fn list_without(list: &Vec<String>, name: &str) -> (r: Vec<String>)
    ensures
        texts(r@) == without(texts(list@), name@),
{
    let mut out: Vec<String> = Vec::new();
    let mut i: usize = 0;
    proof {
        assert(texts(out@) =~= Seq::<Seq<char>>::empty());
    }
    while i < list.len()
        invariant
            i <= list@.len(),
            texts(out@) + without_from(texts(list@), name@, i as int) == without(
                texts(list@),
                name@,
            ),
        decreases list.len() - i,
    {
        let ghost before_push = out@;
        if !str_eq(list[i].as_str(), name) {
            out.push(list[i].clone());
            proof {
                assert(texts(out@) =~= texts(before_push) + seq![texts(list@)[i as int]]);
                assert(texts(out@) + without_from(texts(list@), name@, i + 1) =~= texts(
                    before_push,
                ) + without_from(texts(list@), name@, i as int));
            }
        }
        i += 1;
    }
    proof {
        assert(texts(out@) + Seq::<Seq<char>>::empty() =~= texts(out@));
    }
    out
}

/// The settings of the input method.
pub struct ConfigStore {
    hotkey: String,
    method: String,
    vn_apps: Vec<String>,
    en_apps: Vec<String>,
    is_macro_enabled: bool,
    macro_table: MacroTable,
    is_auto_toggle_enabled: bool,
    is_gox_mode_enabled: bool,
    allowed_words: Vec<String>,
}

impl View for ConfigStore {
    type V = ConfigModel;

    closed spec fn view(&self) -> ConfigModel {
        ConfigModel {
            hotkey: self.hotkey@,
            method: self.method@,
            vn_apps: texts(self.vn_apps@),
            en_apps: texts(self.en_apps@),
            is_macro_enabled: self.is_macro_enabled,
            macros: self.macro_table@,
            is_auto_toggle_enabled: self.is_auto_toggle_enabled,
            is_gox_mode_enabled: self.is_gox_mode_enabled,
            allowed_words: texts(self.allowed_words@),
        }
    }
}

impl ConfigStore {
    /// The macros in the order of their keys.
    pub closed spec fn macro_listing(&self) -> Listing {
        self.macro_table.listing()
    }

    /// The settings of a first start.
    pub fn new() -> (r: ConfigStore)
        ensures
            r@ == default_config(),
    {
        let mut allowed_words: Vec<String> = Vec::new();
        allowed_words.push("đc".to_owned());
        let r = ConfigStore {
            hotkey: "ctrl+space".to_owned(),
            method: "telex".to_owned(),
            vn_apps: Vec::new(),
            en_apps: Vec::new(),
            is_macro_enabled: false,
            macro_table: MacroTable::new(),
            is_auto_toggle_enabled: false,
            is_gox_mode_enabled: false,
            allowed_words,
        };
        proof {
            assert(r@.vn_apps =~= Seq::<Seq<char>>::empty());
            assert(r@.en_apps =~= Seq::<Seq<char>>::empty());
            assert(r@.allowed_words =~= seq!["đc"@]);
        }
        r
    }

    pub fn get_hotkey(&self) -> (r: &str)
        ensures
            r@ == self@.hotkey,
    {
        self.hotkey.as_str()
    }

    pub fn set_hotkey(&mut self, hotkey: &str)
        ensures
            final(self)@ == (ConfigModel { hotkey: hotkey@, ..old(self)@ }),
    {
        self.hotkey = hotkey.to_owned();
    }

    pub fn get_method(&self) -> (r: &str)
        ensures
            r@ == self@.method,
    {
        self.method.as_str()
    }

    pub fn set_method(&mut self, method: &str)
        ensures
            final(self)@ == (ConfigModel { method: method@, ..old(self)@ }),
    {
        self.method = method.to_owned();
    }

    pub fn is_vietnamese_app(&self, app_name: &str) -> (r: bool)
        ensures
            r == self@.vn_apps.contains(app_name@),
    {
        list_contains(&self.vn_apps, app_name)
    }

    pub fn is_english_app(&self, app_name: &str) -> (r: bool)
        ensures
            r == self@.en_apps.contains(app_name@),
    {
        list_contains(&self.en_apps, app_name)
    }

    pub fn add_vietnamese_app(&mut self, app_name: &str)
        ensures
            final(self)@ == with_vietnamese_app(old(self)@, app_name@),
    {
        let ghost before_push = self.vn_apps@;
        self.en_apps = list_without(&self.en_apps, app_name);
        self.vn_apps.push(app_name.to_owned());
        proof {
            assert(texts(self.vn_apps@) =~= texts(before_push).push(app_name@));
        }
    }

    pub fn add_english_app(&mut self, app_name: &str)
        ensures
            final(self)@ == with_english_app(old(self)@, app_name@),
    {
        let ghost before_push = self.en_apps@;
        self.vn_apps = list_without(&self.vn_apps, app_name);
        self.en_apps.push(app_name.to_owned());
        proof {
            assert(texts(self.en_apps@) =~= texts(before_push).push(app_name@));
        }
    }

    pub fn is_allowed_word(&self, word: &str) -> (r: bool)
        ensures
            r == self@.allowed_words.contains(word@),
    {
        list_contains(&self.allowed_words, word)
    }

    pub fn is_auto_toggle_enabled(&self) -> (r: bool)
        ensures
            r == self@.is_auto_toggle_enabled,
    {
        self.is_auto_toggle_enabled
    }

    pub fn set_auto_toggle_enabled(&mut self, flag: bool)
        ensures
            final(self)@ == (ConfigModel { is_auto_toggle_enabled: flag, ..old(self)@ }),
    {
        self.is_auto_toggle_enabled = flag;
    }

    pub fn is_gox_mode_enabled(&self) -> (r: bool)
        ensures
            r == self@.is_gox_mode_enabled,
    {
        self.is_gox_mode_enabled
    }

    pub fn set_gox_mode_enabled(&mut self, flag: bool)
        ensures
            final(self)@ == (ConfigModel { is_gox_mode_enabled: flag, ..old(self)@ }),
    {
        self.is_gox_mode_enabled = flag;
    }

    pub fn is_macro_enabled(&self) -> (r: bool)
        ensures
            r == self@.is_macro_enabled,
    {
        self.is_macro_enabled
    }

    pub fn set_macro_enabled(&mut self, flag: bool)
        ensures
            final(self)@ == (ConfigModel { is_macro_enabled: flag, ..old(self)@ }),
    {
        self.is_macro_enabled = flag;
    }

    pub fn get_macro_table(&self) -> (r: &MacroTable)
        ensures
            r@ == self@.macros,
            r.listing() == self.macro_listing(),
    {
        &self.macro_table
    }

    pub fn add_macro(&mut self, from: String, to: String)
        ensures
            final(self)@ == (ConfigModel {
                macros: old(self)@.macros.insert(from@, to@),
                ..old(self)@
            }),
    {
        self.macro_table.insert(from, to);
    }

    pub fn delete_macro(&mut self, from: &String)
        ensures
            final(self)@ == (ConfigModel { macros: old(self)@.macros.remove(from@), ..old(self)@ }),
    {
        self.macro_table.remove(from.as_str());
    }
}

// ---------------------------------------------------------------------------
// The lines of the settings file
// ---------------------------------------------------------------------------
/// The pieces `pieces[from..]`, trimmed, without the empty ones.
pub open spec fn items_from(pieces: Seq<Seq<char>>, from: int) -> Seq<Seq<char>>
    decreases pieces.len() - from,
{
    if from < 0 || from >= pieces.len() {
        Seq::empty()
    } else if trimmed(pieces[from]).len() > 0 {
        seq![trimmed(pieces[from])] + items_from(pieces, from + 1)
    } else {
        items_from(pieces, from + 1)
    }
}

/// The list that a line stands for: its pieces between commas, trimmed,
/// without the empty ones.
pub open spec fn list_of_line(line: Seq<char>) -> Seq<Seq<char>> {
    items_from(split(line, ','), 0)
}

/// `s` with a backslash put before every double quote.
pub open spec fn escaped(s: Seq<char>) -> Seq<char> {
    replaced(s, "\""@, "\\\""@)
}

/// `s` with every backslash and double quote in a row made a double quote.
pub open spec fn unescaped(s: Seq<char>) -> Seq<char> {
    replaced(s, "\\\""@, "\""@)
}

/// The key and the value that a line of the form `"key"="value"` stands for.
/// The line is cut at the first `"="`. There is no pair if the line has no
/// `"="`, does not start with a double quote or does not end with one.
pub open spec fn kv_of_line(line: Seq<char>) -> Option<(Seq<char>, Seq<char>)> {
    let sep = "\"=\""@;
    match find(line, sep) {
        Some(i) => if 0 < i && i + sep.len() < line.len() && line[0] == '"' && line.last()
            == '"' {
            Some(
                (
                    unescaped(line.subrange(1, i)),
                    unescaped(line.subrange(i + sep.len(), line.len() - 1)),
                ),
            )
        } else {
            None
        },
        None => None,
    }
}

/// The line of the form `"key"="value"` for a key and a value.
pub open spec fn kv_line(k: Seq<char>, v: Seq<char>) -> Seq<char> {
    "\""@ + escaped(k) + "\"=\""@ + escaped(v) + "\""@
}

/// The text of a flag: `true` or `false`.
pub open spec fn flag_text(flag: bool) -> Seq<char> {
    if flag {
        "true"@
    } else {
        "false"@
    }
}

/// The line that gives `value` to the setting `key`.
pub open spec fn setting_line(key: Seq<char>, value: Seq<char>) -> Seq<char> {
    key + " = "@ + value
}

/// The lines `macros = "key"="value"` for the entries `listing[from..]`.
pub open spec fn macro_lines(listing: Listing, from: int) -> Seq<Seq<char>>
    decreases listing.len() - from,
{
    if from < 0 || from >= listing.len() {
        Seq::empty()
    } else {
        seq![setting_line("macros"@, kv_line(listing[from].0, listing[from].1))] + macro_lines(
            listing,
            from + 1,
        )
    }
}

/// The lines of the settings file for the settings `c`, the macros in the
/// order of `listing`.
pub open spec fn config_lines(c: ConfigModel, listing: Listing) -> Seq<Seq<char>> {
    seq![
        setting_line("hotkey"@, c.hotkey),
        setting_line("method"@, c.method),
        setting_line("vn-apps"@, joined(c.vn_apps, ","@)),
        setting_line("en-apps"@, joined(c.en_apps, ","@)),
        setting_line("allowed_words"@, joined(c.allowed_words, ","@)),
        setting_line("is_auto_toggle_enabled"@, flag_text(c.is_auto_toggle_enabled)),
        setting_line("is_macro_enabled"@, flag_text(c.is_macro_enabled)),
    ] + macro_lines(listing, 0) + seq![
        setting_line("is_gox_mode_enabled"@, flag_text(c.is_gox_mode_enabled)),
    ]
}

/// The settings after one line of the settings file was read. A line has the
/// form `key = value`, cut at the first ` = `. A line of another form, or
/// with a key that is not known, changes nothing.
pub open spec fn after_line(c: ConfigModel, line: Seq<char>) -> ConfigModel {
    let sep = " = "@;
    match find(line, sep) {
        Some(i) => if 0 <= i && i + sep.len() <= line.len() {
            let key = line.subrange(0, i);
            let value = line.subrange(i + sep.len(), line.len() as int);
            if key == "hotkey"@ {
                ConfigModel { hotkey: value, ..c }
            } else if key == "method"@ {
                ConfigModel { method: value, ..c }
            } else if key == "vn-apps"@ {
                ConfigModel { vn_apps: list_of_line(value), ..c }
            } else if key == "en-apps"@ {
                ConfigModel { en_apps: list_of_line(value), ..c }
            } else if key == "allowed_words"@ {
                ConfigModel { allowed_words: list_of_line(value), ..c }
            } else if key == "is_auto_toggle_enabled"@ {
                ConfigModel { is_auto_toggle_enabled: trimmed(value) == "true"@, ..c }
            } else if key == "is_macro_enabled"@ {
                ConfigModel { is_macro_enabled: trimmed(value) == "true"@, ..c }
            } else if key == "macros"@ {
                match kv_of_line(value) {
                    Some(pair) => ConfigModel { macros: c.macros.insert(pair.0, pair.1), ..c },
                    None => c,
                }
            } else if key == "is_gox_mode_enabled"@ {
                ConfigModel { is_gox_mode_enabled: trimmed(value) == "true"@, ..c }
            } else {
                c
            }
        } else {
            c
        },
        None => c,
    }
}

/// The settings after the lines `lines[from..]` were read in order.
pub open spec fn after_lines(c: ConfigModel, lines: Seq<Seq<char>>, from: int) -> ConfigModel
    decreases lines.len() - from,
{
    if from < 0 || from >= lines.len() {
        c
    } else {
        after_lines(after_line(c, lines[from]), lines, from + 1)
    }
}

/// The list that a line stands for.
pub fn parse_vec_string(line: String) -> (r: Vec<String>)
    ensures
        texts(r@) == list_of_line(line@),
{
    let chars = chars_of(line.as_str());
    let pieces = split_on(&chars, ',');
    let mut out: Vec<String> = Vec::new();
    let mut i: usize = 0;
    proof {
        assert(texts(out@) =~= Seq::<Seq<char>>::empty());
        assert(texts(out@) + items_from(views(pieces@), 0) =~= list_of_line(line@));
    }
    while i < pieces.len()
        invariant
            i <= pieces@.len(),
            views(pieces@) == split(line@, ','),
            texts(out@) + items_from(views(pieces@), i as int) == list_of_line(line@),
        decreases pieces.len() - i,
    {
        let item = trim(&pieces[i]);
        proof {
            assert(views(pieces@)[i as int] == pieces@[i as int]@);
        }
        if item.len() > 0 {
            let ghost before_push = out@;
            out.push(string_of(&item));
            proof {
                assert(texts(out@) =~= texts(before_push) + seq![item@]);
                assert(texts(out@) + items_from(views(pieces@), i + 1) =~= texts(before_push)
                    + items_from(views(pieces@), i as int));
            }
        }
        i += 1;
    }
    proof {
        assert(texts(out@) + Seq::<Seq<char>>::empty() =~= texts(out@));
    }
    out
}

/// The key and the value of a line of the form `"key"="value"`.
pub fn parse_kv_string(line: &str) -> (r: Option<(String, String)>)
    ensures
        match r {
            Some(pair) => kv_of_line(line@) == Some((pair.0@, pair.1@)),
            None => kv_of_line(line@).is_none(),
        },
{
    let chars = chars_of(line);
    let sep = chars_of("\"=\"");
    let n: usize = chars.len();
    match find_in(&chars, &sep, 0) {
        Some(i) => {
            if 0 < i && i + sep.len() < n && chars[0] == '"' && chars[n - 1] == '"' {
                let quote = chars_of("\"");
                let escaped_quote = chars_of("\\\"");
                proof {
                    reveal_strlit("\\\"");
                }
                let left = slice_of(&chars, 1, i);
                let right = slice_of(&chars, i + sep.len(), n - 1);
                let key = replace_all(&left, &escaped_quote, &quote);
                let value = replace_all(&right, &escaped_quote, &quote);
                Some((string_of(&key), string_of(&value)))
            } else {
                None
            }
        },
        None => None,
    }
}

/// The line of the form `"key"="value"` for a key and a value.
pub fn build_kv_string(k: &str, v: &str) -> (r: String)
    ensures
        r@ == kv_line(k@, v@),
{
    let quote = chars_of("\"");
    let escaped_quote = chars_of("\\\"");
    proof {
        reveal_strlit("\"");
    }
    let key = string_of(&replace_all(&chars_of(k), &quote, &escaped_quote));
    let value = string_of(&replace_all(&chars_of(v), &quote, &escaped_quote));
    let mut out = String::new();
    out.append("\"");
    out.append(key.as_str());
    out.append("\"=\"");
    out.append(value.as_str());
    out.append("\"");
    proof {
        assert(out@ =~= kv_line(k@, v@));
    }
    out
}

/// The texts of `list` with `sep` between each two of them.
pub fn join_list(list: &Vec<String>, sep: &str) -> (r: String)
    ensures
        r@ == joined(texts(list@), sep@),
{
    let mut out = String::new();
    let mut i: usize = 0;
    while i < list.len()
        invariant
            i <= list@.len(),
            i == 0 ==> out@.len() == 0,
            joined(texts(list@), sep@) == if i == 0 {
                join_from(texts(list@), sep@, 0)
            } else if i < list@.len() {
                out@ + sep@ + join_from(texts(list@), sep@, i as int)
            } else {
                out@
            },
        decreases list.len() - i,
    {
        let ghost before = out@;
        if i > 0 {
            out.append(sep);
        }
        out.append(list[i].as_str());
        proof {
            let l = texts(list@);
            assert(l[i as int] == list@[i as int]@);
            if i == 0 {
                assert(out@ =~= l[0]);
            } else {
                assert(out@ =~= before + sep@ + l[i as int]);
            }
            if i + 1 < list@.len() {
                assert(join_from(l, sep@, i as int) =~= l[i as int] + sep@ + join_from(
                    l,
                    sep@,
                    i + 1,
                ));
                assert(out@ + sep@ + join_from(l, sep@, i + 1) =~= if i == 0 {
                    join_from(l, sep@, 0)
                } else {
                    before + sep@ + join_from(l, sep@, i as int)
                });
            } else {
                assert(join_from(l, sep@, i as int) == l[i as int]);
            }
        }
        i += 1;
    }
    proof {
        if list@.len() == 0 {
            assert(out@ =~= join_from(texts(list@), sep@, 0));
        }
    }
    out
}

/// The line that gives `value` to the setting `key`.
pub fn build_setting_line(key: &str, value: &str) -> (r: String)
    ensures
        r@ == setting_line(key@, value@),
{
    let mut out = String::new();
    out.append(key);
    out.append(" = ");
    out.append(value);
    proof {
        assert(out@ =~= setting_line(key@, value@));
    }
    out
}

fn flag_name(flag: bool) -> (r: &'static str)
    ensures
        r@ == flag_text(flag),
{
    if flag {
        "true"
    } else {
        "false"
    }
}

fn is_true(value: &Vec<char>) -> (r: bool)
    ensures
        r == (trimmed(value@) == "true"@),
{
    let t = trim(value);
    let wanted = chars_of("true");
    crate::text::vec_eq(&t, &wanted)
}

impl ConfigStore {
    /// Reads one line of the settings file.
    pub fn apply_line(&mut self, line: &str)
        ensures
            final(self)@ == after_line(old(self)@, line@),
    {
        let chars = chars_of(line);
        let sep = chars_of(" = ");
        let n: usize = chars.len();
        match find_in(&chars, &sep, 0) {
            Some(i) => {
                let key = string_of(&slice_of(&chars, 0, i));
                let value_chars = slice_of(&chars, i + sep.len(), n);
                let value = string_of(&value_chars);
                let key = key.as_str();
                if str_eq(key, "hotkey") {
                    self.hotkey = value;
                } else if str_eq(key, "method") {
                    self.method = value;
                } else if str_eq(key, "vn-apps") {
                    self.vn_apps = parse_vec_string(value);
                } else if str_eq(key, "en-apps") {
                    self.en_apps = parse_vec_string(value);
                } else if str_eq(key, "allowed_words") {
                    self.allowed_words = parse_vec_string(value);
                } else if str_eq(key, "is_auto_toggle_enabled") {
                    self.is_auto_toggle_enabled = is_true(&value_chars);
                } else if str_eq(key, "is_macro_enabled") {
                    self.is_macro_enabled = is_true(&value_chars);
                } else if str_eq(key, "macros") {
                    match parse_kv_string(value.as_str()) {
                        Some(pair) => {
                            self.macro_table.insert(pair.0, pair.1);
                        },
                        None => {},
                    }
                } else if str_eq(key, "is_gox_mode_enabled") {
                    self.is_gox_mode_enabled = is_true(&value_chars);
                }
            },
            None => {},
        }
    }

    /// The settings that the lines of a settings file give, read in order
    /// over the settings of a first start.
    pub fn from_lines(lines: &Vec<String>) -> (r: ConfigStore)
        ensures
            r@ == after_lines(default_config(), texts(lines@), 0),
    {
        let mut config = ConfigStore::new();
        let mut i: usize = 0;
        while i < lines.len()
            invariant
                i <= lines@.len(),
                after_lines(config@, texts(lines@), i as int) == after_lines(
                    default_config(),
                    texts(lines@),
                    0,
                ),
            decreases lines.len() - i,
        {
            proof {
                assert(texts(lines@)[i as int] == lines@[i as int]@);
            }
            config.apply_line(lines[i].as_str());
            i += 1;
        }
        config
    }

    /// The lines of the settings file for these settings.
    pub fn to_lines(&self) -> (r: Vec<String>)
        ensures
            texts(r@) == config_lines(self@, self.macro_listing()),
    {
        let mut out: Vec<String> = Vec::new();
        out.push(build_setting_line("hotkey", self.hotkey.as_str()));
        out.push(build_setting_line("method", self.method.as_str()));
        out.push(build_setting_line("vn-apps", join_list(&self.vn_apps, ",").as_str()));
        out.push(build_setting_line("en-apps", join_list(&self.en_apps, ",").as_str()));
        out.push(
            build_setting_line("allowed_words", join_list(&self.allowed_words, ",").as_str()),
        );
        out.push(
            build_setting_line("is_auto_toggle_enabled", flag_name(self.is_auto_toggle_enabled)),
        );
        out.push(build_setting_line("is_macro_enabled", flag_name(self.is_macro_enabled)));
        let ghost head = texts(out@);
        let entries = self.macro_table.entries();
        let ghost listing = self.macro_listing();
        let mut i: usize = 0;
        proof {
            assert(texts(out@) =~= head + Seq::<Seq<char>>::empty());
        }
        while i < entries.len()
            invariant
                i <= entries@.len(),
                crate::macros::pairs_of(entries@) == listing,
                texts(out@) + macro_lines(listing, i as int) == head + macro_lines(listing, 0),
            decreases entries.len() - i,
        {
            let ghost before_push = out@;
            let kv = build_kv_string(entries[i].0.as_str(), entries[i].1.as_str());
            out.push(build_setting_line("macros", kv.as_str()));
            proof {
                assert(listing[i as int] == (entries@[i as int].0@, entries@[i as int].1@));
                assert(texts(out@) =~= texts(before_push) + seq![
                    setting_line("macros"@, kv_line(listing[i as int].0, listing[i as int].1)),
                ]);
                assert(texts(out@) + macro_lines(listing, i + 1) =~= texts(before_push)
                    + macro_lines(listing, i as int));
            }
            i += 1;
        }
        let ghost body = texts(out@);
        out.push(build_setting_line("is_gox_mode_enabled", flag_name(self.is_gox_mode_enabled)));
        proof {
            assert(body =~= head + macro_lines(listing, 0));
            assert(texts(out@) =~= body + seq![
                setting_line("is_gox_mode_enabled"@, flag_text(self@.is_gox_mode_enabled)),
            ]);
            assert(head =~= seq![
                setting_line("hotkey"@, self@.hotkey),
                setting_line("method"@, self@.method),
                setting_line("vn-apps"@, joined(self@.vn_apps, ","@)),
                setting_line("en-apps"@, joined(self@.en_apps, ","@)),
                setting_line("allowed_words"@, joined(self@.allowed_words, ","@)),
                setting_line("is_auto_toggle_enabled"@, flag_text(self@.is_auto_toggle_enabled)),
                setting_line("is_macro_enabled"@, flag_text(self@.is_macro_enabled)),
            ]);
        }
        out
    }
}

} // verus!
