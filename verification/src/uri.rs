//! File URIs, percent-decoding, and the paths and URLs found under the
//! cursor (`gf`, `gx`, `gd`).

use crate::chars::{chars_of, concat, occurs_at, slice_of};
use crate::text::{contains, contains_exec, starts_with};
use crate::unicode::{char_is_alphanumeric, is_alphanumeric};
use vstd::prelude::*;

verus! {

// ---------------------------------------------------------------------
// Percent-decoding
// ---------------------------------------------------------------------

/// Value of a hexadecimal digit.
pub open spec fn hex_value(c: char) -> Option<nat> {
    if '0' <= c && c <= '9' {
        Some((c as u32 - '0' as u32) as nat)
    } else if 'a' <= c && c <= 'f' {
        Some((c as u32 - 'a' as u32 + 10) as nat)
    } else if 'A' <= c && c <= 'F' {
        Some((c as u32 - 'A' as u32 + 10) as nat)
    } else {
        None
    }
}

/// `u8::from_str_radix(s, 16)` for a two-character `s`: two hex digits,
/// or `+` and one hex digit.
pub open spec fn hex_byte(a: char, b: char) -> Option<nat> {
    if a == '+' {
        hex_value(b)
    } else {
        match (hex_value(a), hex_value(b)) {
            (Some(x), Some(y)) => Some(x * 16 + y),
            _ => None,
        }
    }
}

/// Bytes of a character in UTF-8 (as `str::len` counts them).
pub open spec fn char_bytes(c: char) -> nat {
    crate::unicode::utf8_width(c)
}

/// Percent-decoding of a URI: `%` and two hex digits (or `+` and one)
/// stand for the character of that byte value; a `%` not followed by such
/// a pair is kept with what follows it.
pub open spec fn url_decode_spec(s: Seq<char>) -> Seq<char>
    decreases s.len(),
{
    if s.len() == 0 {
        Seq::empty()
    } else if s[0] != '%' {
        seq![s[0]] + url_decode_spec(s.subrange(1, s.len() as int))
    } else {
        let hex = s.subrange(1, if s.len() >= 3 { 3 } else { s.len() as int });
        let rest = s.subrange(1 + hex.len() as int, s.len() as int);
        let ok = hex.len() == 2 && char_bytes(hex[0]) + char_bytes(hex[1]) == 2 && hex_byte(hex[0], hex[1]) is Some;
        if ok {
            seq![(hex_byte(hex[0], hex[1])->0) as char] + url_decode_spec(rest)
        } else {
            seq!['%'] + hex + url_decode_spec(rest)
        }
    }
}

fn hex_value_exec(c: char) -> (r: Option<u32>)
    ensures
        r matches Some(v) ==> hex_value(c) == Some(v as nat) && v < 16,
        r is None ==> hex_value(c) is None,
{
    if '0' <= c && c <= '9' {
        Some(c as u32 - '0' as u32)
    } else if 'a' <= c && c <= 'f' {
        Some(c as u32 - 'a' as u32 + 10)
    } else if 'A' <= c && c <= 'F' {
        Some(c as u32 - 'A' as u32 + 10)
    } else {
        None
    }
}

fn hex_byte_exec(a: char, b: char) -> (r: Option<u8>)
    ensures
        r matches Some(v) ==> hex_byte(a, b) == Some(v as nat),
        r is None ==> hex_byte(a, b) is None,
{
    if a == '+' {
        match hex_value_exec(b) {
            Some(v) => Some(v as u8),
            None => None,
        }
    } else {
        match (hex_value_exec(a), hex_value_exec(b)) {
            (Some(x), Some(y)) => Some((x * 16 + y) as u8),
            _ => None,
        }
    }
}

/// Decode `%XX` escapes in a URI.
pub fn url_decode(input: &Vec<char>) -> (r: Vec<char>)
    ensures
        r@ == url_decode_spec(input@),
{
    let n = input.len();
    let mut out: Vec<char> = Vec::new();
    let mut i: usize = 0;
    assert(input@.subrange(0, n as int) =~= input@);
    assert(out@ + url_decode_spec(input@) =~= url_decode_spec(input@));
    while i < n
        invariant
            n == input@.len(),
            i <= n,
            url_decode_spec(input@) == out@ + url_decode_spec(input@.subrange(i as int, n as int)),
        decreases n - i,
    {
        let ghost s = input@.subrange(i as int, n as int);
        let c = input[i];
        if c != '%' {
            out.push(c);
            i = i + 1;
            assert(s.subrange(1, s.len() as int) =~= input@.subrange(i as int, n as int));
        } else {
            let take = if n - i >= 3 {
                2
            } else {
                n - i - 1
            };
            let hex = slice_of(input, i + 1, i + 1 + take);
            assert(hex@ =~= s.subrange(1, if s.len() >= 3 { 3 } else { s.len() as int }));
            assert(s.subrange(1 + hex@.len() as int, s.len() as int) =~= input@.subrange(i + 1 + take, n as int));
            let ok: Option<u8> = if take == 2 && (hex[0] as u32) < 0x80 && (hex[1] as u32) < 0x80 {
                hex_byte_exec(hex[0], hex[1])
            } else {
                None
            };
            proof {
                if take == 2 {
                    assert(char_bytes(hex@[0]) >= 1 && char_bytes(hex@[1]) >= 1);
                }
            }
            match ok {
                Some(b) => {
                    out.push(b as char);
                },
                None => {
                    out.push('%');
                    out = concat(&out, &hex);
                },
            }
            i = i + 1 + take;
        }
    }
    assert(input@.subrange(n as int, n as int) =~= Seq::<char>::empty());
    assert(out@ + Seq::<char>::empty() =~= out@);
    out
}

/// The hexadecimal digit for `n < 16`, in upper or lower case.
pub open spec fn hex_digit(n: nat, upper: bool) -> char {
    if n < 10 {
        (48 + n) as char
    } else if upper {
        (55 + n) as char
    } else {
        (87 + n) as char
    }
}

/// Percent-decoding gives back every byte value written as `%` and two
/// hexadecimal digits, whatever the case of each digit: `%5B` and `%5b`
/// both stand for `[`.
pub proof fn law_percent_escape_decodes(b: nat, upper_hi: bool, upper_lo: bool, rest: Seq<char>)
    requires
        b < 256,
    ensures
        url_decode_spec(seq!['%', hex_digit(b / 16, upper_hi), hex_digit(b % 16, upper_lo)] + rest)
            == seq![b as char] + url_decode_spec(rest),
{
    let s = seq!['%', hex_digit(b / 16, upper_hi), hex_digit(b % 16, upper_lo)] + rest;
    let hi = hex_digit(b / 16, upper_hi);
    let lo = hex_digit(b % 16, upper_lo);
    assert(s[0] == '%');
    assert(s.subrange(1, 3) =~= seq![hi, lo]);
    assert(s.subrange(3, s.len() as int) =~= rest);
    assert(hex_value(hi) == Some(b / 16));
    assert(hex_value(lo) == Some(b % 16));
    assert(char_bytes(hi) == 1 && char_bytes(lo) == 1);
    assert(hi != '+');
    assert(hex_byte(hi, lo) == Some(b));
}

// ---------------------------------------------------------------------
// File URIs
// ---------------------------------------------------------------------

/// The path a `file://` URI names, after percent-decoding: `file:///C:/x`
/// gives `C:/x`, `file:///x` gives `/x`, `file://x` gives `x`; a result
/// of the form `/C:...` loses its leading slash.
pub open spec fn uri_to_file_path_spec(uri: Seq<char>) -> Seq<char> {
    let d = url_decode_spec(uri);
    let path = if starts_with(d, "file:///"@) {
        let p = d.subrange(8, d.len() as int);
        if p.len() >= 2 && p[1] == ':' { p } else { seq!['/'] + p }
    } else if starts_with(d, "file://"@) {
        d.subrange(7, d.len() as int)
    } else {
        d
    };
    if path.len() >= 3 && path[0] == '/' && path[2] == ':' {
        path.subrange(1, path.len() as int)
    } else {
        path
    }
}

/// Convert a `file://` URI to a file path.
pub fn uri_to_file_path(uri: &Vec<char>) -> (r: Vec<char>)
    ensures
        r@ == uri_to_file_path_spec(uri@),
{
    let d = url_decode(uri);
    proof {
        reveal_strlit("file:///");
        reveal_strlit("file://");
    }
    let path = if crate::chars::starts_with_str(&d, "file:///") {
        let p = slice_of(&d, 8, d.len());
        if p.len() >= 2 && p[1] == ':' {
            p
        } else {
            let mut s: Vec<char> = Vec::new();
            s.push('/');
            assert(s@ =~= seq!['/']);
            concat(&s, &p)
        }
    } else if crate::chars::starts_with_str(&d, "file://") {
        slice_of(&d, 7, d.len())
    } else {
        d
    };
    if path.len() >= 3 && path[0] == '/' && path[2] == ':' {
        slice_of(&path, 1, path.len())
    } else {
        path
    }
}

/// `s` with every backslash turned into a slash.
pub open spec fn forward_slashes(s: Seq<char>) -> Seq<char> {
    s.map_values(|c: char| if c == '\\' { '/' } else { c })
}

/// Turn backslashes into slashes.
pub fn to_forward_slashes(v: &Vec<char>) -> (r: Vec<char>)
    ensures
        r@ == forward_slashes(v@),
{
    let mut out: Vec<char> = Vec::new();
    let mut i: usize = 0;
    while i < v.len()
        invariant
            i <= v@.len(),
            out@ == forward_slashes(v@.subrange(0, i as int)),
        decreases v.len() - i,
    {
        out.push(if v[i] == '\\' { '/' } else { v[i] });
        i = i + 1;
        assert(out@ =~= forward_slashes(v@.subrange(0, i as int)));
    }
    assert(v@.subrange(0, i as int) =~= v@);
    out
}

/// The `file://` URI of an absolute path: `file://` before a path
/// starting with `/`, `file:///` before a drive path (backslashes become
/// slashes).
pub open spec fn file_uri_spec(path: Seq<char>) -> Seq<char> {
    if path.len() > 0 && path[0] == '/' {
        "file://"@ + path
    } else {
        "file:///"@ + forward_slashes(path)
    }
}

/// The `file://` URI of an absolute path.
pub fn path_to_file_uri(path: &Vec<char>) -> (r: Vec<char>)
    ensures
        r@ == file_uri_spec(path@),
{
    if path.len() > 0 && path[0] == '/' {
        concat(&chars_of("file://"), path)
    } else {
        concat(&chars_of("file:///"), &to_forward_slashes(path))
    }
}

/// A Unix path comes back from its URI.
pub proof fn law_unix_uri_round_trip(path: Seq<char>)
    requires
        path.len() > 0,
        path[0] == '/',
        url_decode_spec(file_uri_spec(path)) == file_uri_spec(path),
        !(path.len() >= 3 && path[2] == ':'),
    ensures
        uri_to_file_path_spec(file_uri_spec(path)) == path,
{
    reveal_strlit("file://");
    reveal_strlit("file:///");
    let u = "file://"@ + path;
    assert(u.subrange(0, 8) =~= "file:///"@);
    let p = u.subrange(8, u.len() as int);
    assert(seq!['/'] + p =~= path);
}

// ---------------------------------------------------------------------
// gd: where a definition is
// ---------------------------------------------------------------------

/// Where `gd` goes for a definition found at `(line, character)` of
/// `uri`.
pub enum DefinitionTarget {
    /// In the current file: move the cursor there.
    SameFile(i32, i32),
    /// In another file: open this path (made project-relative by the
    /// caller when possible).
    OtherFile(Vec<char>),
}

/// The definition's path, with forward slashes.
pub open spec fn definition_path(uri: Seq<char>) -> Seq<char> {
    forward_slashes(uri_to_file_path_spec(uri))
}

/// Decide where `gd` goes: the current file is known by its path as the
/// editor holds it and by its absolute path.
pub fn definition_target(uri: &Vec<char>, line: u32, character: u32, script_path: &Vec<char>, abs_path: &Vec<char>) -> (r: DefinitionTarget)
    ensures
        match r {
            DefinitionTarget::SameFile(l, c) => (definition_path(uri@) == script_path@ || definition_path(uri@) == abs_path@)
                && l == line as i32 && c == character as i32,
            DefinitionTarget::OtherFile(p) => definition_path(uri@) != script_path@ && definition_path(uri@) != abs_path@
                && p@ == definition_path(uri@),
        },
{
    let path = to_forward_slashes(&uri_to_file_path(uri));
    if crate::chars::eq_seq(&path, script_path) || crate::chars::eq_seq(&path, abs_path) {
        DefinitionTarget::SameFile(line as i32, character as i32)
    } else {
        DefinitionTarget::OtherFile(path)
    }
}

/// The file to open for a definition in another file: its project path
/// when the editor could make one (`res://...`), else the path itself.
pub fn definition_file(localized: &Vec<char>, path: &Vec<char>) -> (r: Vec<char>)
    ensures
        r@ == (if starts_with(localized@, "res://"@) { localized@ } else { path@ }),
{
    if crate::chars::starts_with_str(localized, "res://") {
        slice_of(localized, 0, localized.len())
    } else {
        slice_of(path, 0, path.len())
    }
}

// ---------------------------------------------------------------------
// gf and gx
// ---------------------------------------------------------------------

/// Characters a file path under the cursor is made of.
pub open spec fn is_path_char(c: char) -> bool {
    char_is_alphanumeric(c) || c == '/' || c == '.' || c == '_' || c == '-' || c == ':'
}

/// Characters a URL under the cursor is made of.
pub open spec fn is_url_char(c: char) -> bool {
    char_is_alphanumeric(c) || c == '/' || c == ':' || c == '.' || c == '-' || c == '_' || c == '~'
        || c == '?' || c == '#' || c == '[' || c == ']' || c == '@' || c == '!' || c == '$' || c
        == '&' || c == '\'' || c == '(' || c == ')' || c == '*' || c == '+' || c == ',' || c
        == ';' || c == '=' || c == '%'
}

/// Start of the run of characters of a kind ending at `i`.
pub open spec fn run_start(s: Seq<char>, i: int, url: bool) -> int
    decreases i,
{
    if 0 < i <= s.len() && (if url { is_url_char(s[i - 1]) } else { is_path_char(s[i - 1]) }) {
        run_start(s, i - 1, url)
    } else {
        i
    }
}

/// End of the run of characters of a kind starting at `i`.
pub open spec fn run_end(s: Seq<char>, i: int, url: bool) -> int
    decreases s.len() - i,
{
    if 0 <= i < s.len() && (if url { is_url_char(s[i]) } else { is_path_char(s[i]) }) {
        run_end(s, i + 1, url)
    } else {
        i
    }
}

/// The path (`url == false`) or URL under the cursor: the run of such
/// characters around it, when the cursor is on the line and the run is
/// not empty.
pub open spec fn text_under_cursor(s: Seq<char>, col: int, url: bool) -> Option<Seq<char>> {
    if col < 0 || col >= s.len() || run_start(s, col, url) == run_end(s, col, url) {
        None
    } else {
        Some(s.subrange(run_start(s, col, url), run_end(s, col, url)))
    }
}

fn is_kind_char(c: char, url: bool) -> (b: bool)
    ensures
        b == (if url { is_url_char(c) } else { is_path_char(c) }),
{
    if url {
        is_alphanumeric(c) || c == '/' || c == ':' || c == '.' || c == '-' || c == '_' || c == '~'
            || c == '?' || c == '#' || c == '[' || c == ']' || c == '@' || c == '!' || c == '$'
            || c == '&' || c == '\'' || c == '(' || c == ')' || c == '*' || c == '+' || c == ','
            || c == ';' || c == '=' || c == '%'
    } else {
        is_alphanumeric(c) || c == '/' || c == '.' || c == '_' || c == '-' || c == ':'
    }
}

proof fn lemma_run_start(s: Seq<char>, i: int, url: bool)
    requires
        0 <= i <= s.len(),
    ensures
        0 <= run_start(s, i, url) <= i,
    decreases i,
{
    if 0 < i && (if url { is_url_char(s[i - 1]) } else { is_path_char(s[i - 1]) }) {
        lemma_run_start(s, i - 1, url);
    }
}

proof fn lemma_run_end(s: Seq<char>, i: int, url: bool)
    requires
        0 <= i <= s.len(),
    ensures
        i <= run_end(s, i, url) <= s.len(),
    decreases s.len() - i,
{
    if i < s.len() && (if url { is_url_char(s[i]) } else { is_path_char(s[i]) }) {
        lemma_run_end(s, i + 1, url);
    }
}

fn text_under_cursor_exec(line: &Vec<char>, col: usize, url: bool) -> (r: Option<Vec<char>>)
    ensures
        r matches Some(t) ==> text_under_cursor(line@, col as int, url) == Some(t@),
        r is None ==> text_under_cursor(line@, col as int, url) is None,
{
    if col >= line.len() {
        return None;
    }
    let mut start = col;
    while start > 0 && is_kind_char(line[start - 1], url)
        invariant
            start <= col < line@.len(),
            run_start(line@, col as int, url) == run_start(line@, start as int, url),
        decreases start,
    {
        start = start - 1;
    }
    let mut end = col;
    while end < line.len() && is_kind_char(line[end], url)
        invariant
            col <= end <= line@.len(),
            run_end(line@, col as int, url) == run_end(line@, end as int, url),
        decreases line.len() - end,
    {
        end = end + 1;
    }
    if start == end {
        None
    } else {
        Some(slice_of(line, start, end))
    }
}

/// `gf`: the file path under the cursor.
pub fn go_to_file_under_cursor(line: &Vec<char>, col: usize) -> (r: Option<Vec<char>>)
    ensures
        r matches Some(t) ==> text_under_cursor(line@, col as int, false) == Some(t@),
        r is None ==> text_under_cursor(line@, col as int, false) is None,
{
    text_under_cursor_exec(line, col, false)
}

/// What `gx` opens for the text under the cursor: a URL with a scheme as
/// it is; a dotted name not starting with `.` as an `https://` address;
/// nothing otherwise.
pub open spec fn url_to_open(t: Seq<char>) -> Option<Seq<char>> {
    if starts_with(t, "http://"@) || starts_with(t, "https://"@) || starts_with(t, "file://"@) {
        Some(t)
    } else if contains(t, "://"@) {
        Some(t)
    } else if contains(t, "."@) && !(t.len() > 0 && t[0] == '.') {
        Some("https://"@ + t)
    } else {
        None
    }
}

/// `gx`: the URL to open for the text under the cursor, if any.
pub fn open_url_under_cursor(line: &Vec<char>, col: usize) -> (r: Option<Vec<char>>)
    ensures
        r matches Some(u) ==> text_under_cursor(line@, col as int, true) matches Some(t) && url_to_open(t) == Some(u@),
        r is None ==> (text_under_cursor(line@, col as int, true) matches Some(t) ==> url_to_open(t) is None),
{
    let t = match text_under_cursor_exec(line, col, true) {
        Some(t) => t,
        None => {
            return None;
        },
    };
    if crate::chars::starts_with_str(&t, "http://") || crate::chars::starts_with_str(&t, "https://")
        || crate::chars::starts_with_str(&t, "file://") {
        Some(t)
    } else if contains_exec(&t, &chars_of("://")) {
        Some(t)
    } else if contains_exec(&t, &chars_of(".")) && !(t.len() > 0 && t[0] == '.') {
        Some(concat(&chars_of("https://"), &t))
    } else {
        None
    }
}

// ---------------------------------------------------------------------
// :e {file}
// ---------------------------------------------------------------------

/// The resource `:e {file}` opens: the path itself when it is a `res://`
/// path, else the path taken from the project's root; none for an empty
/// argument (the editor's quick-open dialog is shown instead).
pub open spec fn edit_path_spec(file: Seq<char>) -> Option<Seq<char>> {
    if file.len() == 0 {
        None
    } else if starts_with(file, "res://"@) {
        Some(file)
    } else {
        Some("res://"@ + file)
    }
}

/// The resource path for `:e {file}` (see `edit_path_spec`).
pub fn edit_path(file: &str) -> (r: Option<String>)
    ensures
        match r {
            Some(p) => edit_path_spec(file@) == Some(p@),
            None => edit_path_spec(file@) is None,
        },
{
    let f = chars_of(file);
    if f.len() == 0 {
        return None;
    }
    if crate::chars::starts_with_str(&f, "res://") {
        Some(String::from_str(file))
    } else {
        Some(crate::chars::string_of(&concat(&chars_of("res://"), &f)))
    }
}

} // verus!
