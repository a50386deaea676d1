//! File type detection for the Neovim `filetype` option.

use crate::chars::{ascii_lower, ascii_lower_char, chars_of, slice_of};
use vstd::prelude::*;

verus! {

/// Index of the last `.` in `s`, or -1 when there is none.
pub open spec fn last_dot(s: Seq<char>) -> int
    decreases s.len(),
{
    if s.len() == 0 {
        -1
    } else if s.last() == '.' {
        s.len() - 1
    } else {
        last_dot(s.drop_last())
    }
}

/// The extension of a path: the text after its last `.`, or the whole
/// path when it has no `.` (what `rsplit('.').next()` yields).
pub open spec fn extension(s: Seq<char>) -> Seq<char> {
    s.subrange(last_dot(s) + 1, s.len() as int)
}

/// `ext` equals `word` once ASCII letters are lowercased.
///
/// Every `word` this module compares with is lowercase ASCII without the
/// letter `k`; for such words this is the same test as comparing
/// `ext.to_lowercase()` with `word` (the only non-ASCII character whose
/// lowercase form is ASCII is the Kelvin sign, which lowercases to `k`).
pub open spec fn lower_eq(ext: Seq<char>, word: Seq<char>) -> bool {
    &&& ext.len() == word.len()
    &&& forall|i: int| 0 <= i < ext.len() ==> ascii_lower(#[trigger] ext[i]) == word[i]
}

/// The Neovim filetype for an extension.
pub open spec fn filetype_of_extension(ext: Seq<char>) -> Seq<char> {
    if lower_eq(ext, "gd"@) {
        "gdscript"@
    } else if lower_eq(ext, "gdshader"@) || lower_eq(ext, "shader"@) {
        "gdshader"@
    } else if lower_eq(ext, "txt"@) {
        "text"@
    } else if lower_eq(ext, "md"@) {
        "markdown"@
    } else if lower_eq(ext, "json"@) {
        "json"@
    } else if lower_eq(ext, "cfg"@) || lower_eq(ext, "ini"@) {
        "dosini"@
    } else if lower_eq(ext, "yaml"@) || lower_eq(ext, "yml"@) {
        "yaml"@
    } else if lower_eq(ext, "toml"@) {
        "toml"@
    } else if lower_eq(ext, "xml"@) {
        "xml"@
    } else if lower_eq(ext, "log"@) {
        "text"@
    } else if lower_eq(ext, "cs"@) {
        "cs"@
    } else {
        "text"@
    }
}

proof fn lemma_last_dot_bounds(s: Seq<char>)
    ensures
        -1 <= last_dot(s) < s.len(),
    decreases s.len(),
{
    if s.len() > 0 && s.last() != '.' {
        lemma_last_dot_bounds(s.drop_last());
    }
}

/// Position just after the last `.` (0 when there is none).
fn extension_start(v: &Vec<char>) -> (r: usize)
    ensures
        r == last_dot(v@) + 1,
{
    let mut i: usize = v.len();
    assert(v@.subrange(0, i as int) =~= v@);
    while i > 0
        invariant
            i <= v.len(),
            last_dot(v@) == last_dot(v@.subrange(0, i as int)),
        decreases i,
    {
        let ghost pre = v@.subrange(0, i as int);
        if v[i - 1] == '.' {
            return i;
        }
        assert(pre.drop_last() =~= v@.subrange(0, i - 1));
        i = i - 1;
    }
    0
}

/// Whether `ext` equals the lowercase literal `word` ignoring ASCII case.
fn lower_eq_exec(ext: &Vec<char>, word: &str) -> (b: bool)
    ensures
        b == lower_eq(ext@, word@),
{
    let w = chars_of(word);
    if ext.len() != w.len() {
        return false;
    }
    let mut i: usize = 0;
    while i < ext.len()
        invariant
            ext@.len() == w@.len(),
            w@ == word@,
            i <= ext@.len(),
            forall|j: int| 0 <= j < i ==> ascii_lower(#[trigger] ext@[j]) == word@[j],
        decreases ext.len() - i,
    {
        if ascii_lower_char(ext[i]) != w[i] {
            return false;
        }
        i = i + 1;
    }
    true
}

/// Detect the Neovim filetype from a file path.
///
/// The extension is the text after the last `.`; it is compared without
/// regard to case, and unknown extensions give `"text"`.
pub fn detect_filetype(path: &str) -> (ft: &'static str)
    ensures
        ft@ == filetype_of_extension(extension(path@)),
{
    let p = chars_of(path);
    let start = extension_start(&p);
    proof {
        lemma_last_dot_bounds(p@);
    }
    let ext = slice_of(&p, start, p.len());
    if lower_eq_exec(&ext, "gd") {
        "gdscript"
    } else if lower_eq_exec(&ext, "gdshader") || lower_eq_exec(&ext, "shader") {
        "gdshader"
    } else if lower_eq_exec(&ext, "txt") {
        "text"
    } else if lower_eq_exec(&ext, "md") {
        "markdown"
    } else if lower_eq_exec(&ext, "json") {
        "json"
    } else if lower_eq_exec(&ext, "cfg") || lower_eq_exec(&ext, "ini") {
        "dosini"
    } else if lower_eq_exec(&ext, "yaml") || lower_eq_exec(&ext, "yml") {
        "yaml"
    } else if lower_eq_exec(&ext, "toml") {
        "toml"
    } else if lower_eq_exec(&ext, "xml") {
        "xml"
    } else if lower_eq_exec(&ext, "log") {
        "text"
    } else if lower_eq_exec(&ext, "cs") {
        "cs"
    } else {
        "text"
    }
}

} // verus!
