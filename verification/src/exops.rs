//! Ex commands run on the editor's text: `:s`, `g&`, `:g`, `:sort`, `:t`
//! and `:m`; and those handed on to Neovim.
//!
//! The text is read back line by line the way `str::lines` does
//! ([`crate::editing::text_lines`]); the new lines are to be set as the
//! editor's text, joined with line feeds.

use crate::chars::{chars_of, concat, occurs_at, occurs_at_exec, slice_of};
use crate::editing::{copy_line, lemma_text_lines_len, text_lines, text_lines_exec};
use crate::motions::{lemma_lines_view_push, lines_view};
use crate::text::{contains, contains_exec, index_of, index_of_exec, lemma_index_of_from, starts_with};
use vstd::prelude::*;

verus! {

// ---------------------------------------------------------------------
// :s and g&
// ---------------------------------------------------------------------

/// Every occurrence of `p` in `s` replaced by `r`, left to right, not
/// overlapping (`str::replace`); an empty `p` puts `r` around every
/// character.
pub open spec fn replace_spec(s: Seq<char>, p: Seq<char>, r: Seq<char>) -> Seq<char>
    decreases s.len(),
{
    if p.len() == 0 {
        if s.len() == 0 {
            r
        } else {
            r + seq![s[0]] + replace_spec(s.subrange(1, s.len() as int), p, r)
        }
    } else if s.len() == 0 {
        s
    } else if occurs_at(s, 0, p) {
        r + replace_spec(s.subrange(p.len() as int, s.len() as int), p, r)
    } else {
        seq![s[0]] + replace_spec(s.subrange(1, s.len() as int), p, r)
    }
}

/// Replace every occurrence of `p` in `s` by `r`.
pub fn replace_all(s: &Vec<char>, p: &Vec<char>, r: &Vec<char>) -> (out: Vec<char>)
    ensures
        out@ == replace_spec(s@, p@, r@),
{
    let n = s.len();
    let mut out: Vec<char> = Vec::new();
    let mut i: usize = 0;
    assert(s@.subrange(0, n as int) =~= s@);
    assert(out@ + replace_spec(s@, p@, r@) =~= replace_spec(s@, p@, r@));
    while i < n
        invariant
            n == s@.len(),
            i <= n,
            replace_spec(s@, p@, r@) == out@ + replace_spec(s@.subrange(i as int, n as int), p@, r@),
        decreases n - i,
    {
        let ghost t = s@.subrange(i as int, n as int);
        if p.len() == 0 {
            out = concat(&out, r);
            out.push(s[i]);
            assert(t.subrange(1, t.len() as int) =~= s@.subrange(i + 1, n as int));
            i = i + 1;
        } else if occurs_at_exec(s, i, p) {
            assert(occurs_at(t, 0, p@)) by {
                assert(t.subrange(0, p@.len() as int) =~= s@.subrange(i as int, i + p@.len()));
            }
            out = concat(&out, r);
            assert(t.subrange(p@.len() as int, t.len() as int) =~= s@.subrange(i + p@.len(), n as int));
            i = i + p.len();
        } else {
            assert(!occurs_at(t, 0, p@)) by {
                if occurs_at(t, 0, p@) {
                    assert(t.subrange(0, p@.len() as int) =~= s@.subrange(i as int, i + p@.len()));
                }
            }
            out.push(s[i]);
            assert(t.subrange(1, t.len() as int) =~= s@.subrange(i + 1, n as int));
            i = i + 1;
        }
    }
    assert(s@.subrange(n as int, n as int) =~= Seq::<char>::empty());
    if p.len() == 0 {
        out = concat(&out, r);
    } else {
        assert(out@ + Seq::<char>::empty() =~= out@);
    }
    out
}

/// The pattern and replacement of `[%]s/pattern/replacement[/flags]`:
/// what stands between the first `/` and the second (or the end).
pub open spec fn substitute_parts(cmd: Seq<char>) -> Option<(Seq<char>, Seq<char>)> {
    let c1 = if cmd.len() > 0 && cmd[0] == '%' { cmd.subrange(1, cmd.len() as int) } else { cmd };
    let c2 = if starts_with(c1, "s/"@) { c1.subrange(2, c1.len() as int) } else { c1 };
    match index_of(c2, '/') {
        None => None,
        Some(i) => {
            let rest = c2.subrange(i + 1, c2.len() as int);
            Some((c2.subrange(0, i), match index_of(rest, '/') {
                None => rest,
                Some(j) => rest.subrange(0, j),
            }))
        },
    }
}

fn substitute_parts_exec(cmd: &Vec<char>) -> (r: Option<(Vec<char>, Vec<char>)>)
    ensures
        r matches Some(p) ==> substitute_parts(cmd@) == Some((p.0@, p.1@)),
        r is None ==> substitute_parts(cmd@) is None,
{
    let c1 = if cmd.len() > 0 && cmd[0] == '%' {
        slice_of(cmd, 1, cmd.len())
    } else {
        copy_line(cmd)
    };
    proof {
        reveal_strlit("s/");
    }
    let c2 = if crate::chars::starts_with_str(&c1, "s/") {
        slice_of(&c1, 2, c1.len())
    } else {
        c1
    };
    match index_of_exec(&c2, '/') {
        None => None,
        Some(i) => {
            proof {
                lemma_index_of_from(c2@, '/', 0);
            }
            let rest = slice_of(&c2, i + 1, c2.len());
            let rep = match index_of_exec(&rest, '/') {
                None => rest,
                Some(j) => {
                    proof {
                        lemma_index_of_from(rest@, '/', 0);
                    }
                    slice_of(&rest, 0, j)
                },
            };
            Some((slice_of(&c2, 0, i), rep))
        },
    }
}

/// Number of `c` in `s`.
pub open spec fn count_char(s: Seq<char>, c: char) -> nat
    decreases s.len(),
{
    if s.len() == 0 {
        0
    } else {
        count_char(s.drop_last(), c) + if s.last() == c { 1nat } else { 0nat }
    }
}

/// Lines of a text as the editor counts them: one more than its line
/// feeds.
pub open spec fn line_count(text: Seq<char>) -> int {
    count_char(text, '\n') as int + 1
}

proof fn lemma_count_char_le(s: Seq<char>, c: char)
    ensures
        count_char(s, c) <= s.len(),
    decreases s.len(),
{
    if s.len() > 0 {
        lemma_count_char_le(s.drop_last(), c);
    }
}

fn line_count_exec(text: &Vec<char>) -> (n: usize)
    requires
        text.len() < usize::MAX,
    ensures
        n == line_count(text@),
{
    let mut k: usize = 0;
    let mut i: usize = 0;
    while i < text.len()
        invariant
            i <= text@.len() < usize::MAX,
            k == count_char(text@.subrange(0, i as int), '\n'),
            k <= i,
        decreases text.len() - i,
    {
        assert(text@.subrange(0, i + 1).drop_last() =~= text@.subrange(0, i as int));
        if text[i] == '\n' {
            k = k + 1;
        }
        i = i + 1;
    }
    assert(text@.subrange(0, i as int) =~= text@);
    k + 1
}

/// The cursor line kept after the text changed: at most the new last
/// line.
pub open spec fn kept_line(line: int, text: Seq<char>) -> int {
    if line < line_count(text) - 1 { line } else { line_count(text) - 1 }
}

/// What `:s` / `g&` produce: the new text and cursor line when the text
/// changed.
pub open spec fn substitution_result(text: Seq<char>, p: Seq<char>, r: Seq<char>, line: int) -> Option<(Seq<char>, int)> {
    let t = replace_spec(text, p, r);
    if t == text {
        None
    } else {
        Some((t, kept_line(line, t)))
    }
}

/// The last substitution (pattern, replacement), for `g&`.
pub struct LastSubstitute {
    pub pattern: Vec<char>,
    pub replacement: Vec<char>,
}

pub open spec fn last_sub_view(l: Option<LastSubstitute>) -> Option<(Seq<char>, Seq<char>)> {
    match l {
        Some(s) => Some((s.pattern@, s.replacement@)),
        None => None,
    }
}

fn substitute_text(text: &Vec<char>, p: &Vec<char>, r: &Vec<char>, line: i32) -> (res: Option<(Vec<char>, i32)>)
    requires
        replace_spec(text@, p@, r@).len() < i32::MAX,
    ensures
        res matches Some(x) ==> substitution_result(text@, p@, r@, line as int) == Some((x.0@, x.1 as int)),
        res is None ==> substitution_result(text@, p@, r@, line as int) is None,
{
    let t = replace_all(text, p, r);
    if crate::chars::eq_seq(&t, text) {
        return None;
    }
    let n = line_count_exec(&t);
    proof {
        lemma_count_char_le(t@, '\n');
    }
    let max_line: i64 = (n as i64) - 1;
    let kept = if (line as i64) < max_line {
        line as i64
    } else {
        max_line
    };
    Some((t, kept as i32))
}

/// `:s/pattern/replacement/` (and `:%s`): the substitution applies to
/// the whole text and is remembered for `g&`. Returns the new text and
/// cursor line when the text changed.
pub fn cmd_substitute(last: &mut Option<LastSubstitute>, cmd: &Vec<char>, text: &Vec<char>, line: i32) -> (res: Option<(Vec<char>, i32)>)
    requires
        substitute_parts(cmd@) matches Some((p, r)) ==> replace_spec(text@, p, r).len() < i32::MAX,
    ensures
        substitute_parts(cmd@) is None ==> res is None && last_sub_view(*final(last)) == last_sub_view(*old(last)),
        substitute_parts(cmd@) matches Some((p, r)) ==> {
            &&& last_sub_view(*final(last)) == Some((p, r))
            &&& match res {
                Some(x) => substitution_result(text@, p, r, line as int) == Some((x.0@, x.1 as int)),
                None => substitution_result(text@, p, r, line as int) is None,
            }
        },
{
    let (p, r) = match substitute_parts_exec(cmd) {
        Some(x) => x,
        None => {
            return None;
        },
    };
    let res = substitute_text(text, &p, &r, line);
    *last = Some(LastSubstitute { pattern: p, replacement: r });
    res
}

/// `g&`: the last substitution again, on the whole text.
pub fn repeat_substitute(last: &Option<LastSubstitute>, text: &Vec<char>, line: i32) -> (res: Option<(Vec<char>, i32)>)
    requires
        last_sub_view(*last) matches Some((p, r)) ==> replace_spec(text@, p, r).len() < i32::MAX,
    ensures
        last_sub_view(*last) is None ==> res is None,
        last_sub_view(*last) matches Some((p, r)) ==> match res {
            Some(x) => substitution_result(text@, p, r, line as int) == Some((x.0@, x.1 as int)),
            None => substitution_result(text@, p, r, line as int) is None,
        },
{
    match last {
        Some(s) => substitute_text(text, &s.pattern, &s.replacement, line),
        None => None,
    }
}

/// A pattern that does not occur leaves the text as it is.
pub proof fn law_replace_absent(s: Seq<char>, p: Seq<char>, r: Seq<char>)
    requires
        p.len() > 0,
        !contains(s, p),
    ensures
        replace_spec(s, p, r) == s,
    decreases s.len(),
{
    if s.len() > 0 {
        let t = s.subrange(1, s.len() as int);
        assert(!occurs_at(s, 0, p));
        assert(!contains(t, p)) by {
            if contains(t, p) {
                let i = choose|i: int| occurs_at(t, i, p);
                assert(s.subrange(i + 1, i + 1 + p.len()) =~= t.subrange(i, i + p.len()));
                assert(occurs_at(s, i + 1, p));
            }
        }
        law_replace_absent(t, p, r);
        assert(seq![s[0]] + t =~= s);
    }
}

/// Replacing a pattern by itself changes nothing.
pub proof fn law_replace_identity(s: Seq<char>, p: Seq<char>)
    requires
        p.len() > 0,
    ensures
        replace_spec(s, p, p) == s,
    decreases s.len(),
{
    if s.len() > 0 {
        if occurs_at(s, 0, p) {
            let t = s.subrange(p.len() as int, s.len() as int);
            law_replace_identity(t, p);
            assert(p + t =~= s);
        } else {
            let t = s.subrange(1, s.len() as int);
            law_replace_identity(t, p);
            assert(seq![s[0]] + t =~= s);
        }
    }
}

// ---------------------------------------------------------------------
// :g
// ---------------------------------------------------------------------

/// What `:g/pattern/command` did.
pub enum GlobalResult {
    /// No `/` after the pattern.
    Invalid,
    /// No line contains the pattern.
    NoMatch,
    /// `d`: the lines without the matching ones, and how many matched.
    Deleted(Vec<Vec<char>>, usize),
    /// Another command, not carried out; how many lines matched.
    Unsupported(usize),
}

/// Pattern and command of `g/pattern/command`.
pub open spec fn global_parts(cmd: Seq<char>) -> Option<(Seq<char>, Seq<char>)> {
    let c = if starts_with(cmd, "g/"@) { cmd.subrange(2, cmd.len() as int) } else { cmd };
    match index_of(c, '/') {
        None => None,
        Some(i) => Some((c.subrange(0, i), c.subrange(i + 1, c.len() as int))),
    }
}

/// How many of the lines contain `p`.
pub open spec fn matching_count(ls: Seq<Seq<char>>, p: Seq<char>) -> nat
    decreases ls.len(),
{
    if ls.len() == 0 {
        0
    } else {
        matching_count(ls.drop_last(), p) + if contains(ls.last(), p) { 1nat } else { 0nat }
    }
}

/// The read-back lines `tl` without those whose editor line `ls[i]`
/// contains `p`.
pub open spec fn unmatched_lines(tl: Seq<Seq<char>>, ls: Seq<Seq<char>>, p: Seq<char>) -> Seq<Seq<char>>
    decreases tl.len(),
{
    if tl.len() == 0 {
        Seq::empty()
    } else {
        let i = tl.len() - 1;
        let prev = unmatched_lines(tl.drop_last(), ls, p);
        if i < ls.len() && contains(ls[i], p) { prev } else { prev.push(tl[i]) }
    }
}

/// What `:g/pattern/command` does to the lines.
pub open spec fn global_spec(cmd: Seq<char>, ls: Seq<Seq<char>>) -> (Option<Seq<Seq<char>>>, int, bool) {
    match global_parts(cmd) {
        None => (None, -1, false),
        Some((p, c)) => {
            let n = matching_count(ls, p);
            if n == 0 {
                (None, 0, false)
            } else if c == "d"@ {
                (Some(unmatched_lines(text_lines(ls), ls, p)), n as int, true)
            } else {
                (None, n as int, true)
            }
        },
    }
}

/// `:g/pattern/d` deletes the lines that contain the pattern; other
/// commands only count them.
pub fn cmd_global(cmd: &Vec<char>, lines: &Vec<Vec<char>>) -> (r: GlobalResult)
    ensures
        ({
            let (del, n, _ok) = global_spec(cmd@, lines_view(lines@));
            match r {
                GlobalResult::Invalid => global_parts(cmd@) is None,
                GlobalResult::NoMatch => global_parts(cmd@) is Some && n == 0,
                GlobalResult::Deleted(t, k) => global_parts(cmd@) is Some && del == Some(lines_view(t@)) && k == n,
                GlobalResult::Unsupported(k) => global_parts(cmd@) is Some && del is None && k == n && n > 0,
            }
        }),
{
    let ghost lv = lines_view(lines@);
    proof {
        reveal_strlit("g/");
    }
    let c = if crate::chars::starts_with_str(cmd, "g/") {
        slice_of(cmd, 2, cmd.len())
    } else {
        copy_line(cmd)
    };
    let i = match index_of_exec(&c, '/') {
        Some(i) => i,
        None => {
            return GlobalResult::Invalid;
        },
    };
    proof {
        lemma_index_of_from(c@, '/', 0);
    }
    let p = slice_of(&c, 0, i);
    let command = slice_of(&c, i + 1, c.len());
    let n = lines.len();
    let mut count: usize = 0;
    let mut j: usize = 0;
    while j < n
        invariant
            lv == lines_view(lines@),
            n == lines@.len(),
            j <= n,
            count == matching_count(lv.subrange(0, j as int), p@),
            count <= j,
        decreases n - j,
    {
        assert(lv.subrange(0, j + 1).drop_last() =~= lv.subrange(0, j as int));
        if contains_exec(&lines[j], &p) {
            count = count + 1;
        }
        j = j + 1;
    }
    assert(lv.subrange(0, n as int) =~= lv);
    if count == 0 {
        return GlobalResult::NoMatch;
    }
    if !crate::chars::eq_str(&command, "d") {
        return GlobalResult::Unsupported(count);
    }
    let tl = text_lines_exec(lines);
    let ghost tlv = lines_view(tl@);
    let mut out: Vec<Vec<char>> = Vec::new();
    let mut k: usize = 0;
    while k < tl.len()
        invariant
            lv == lines_view(lines@),
            tlv == lines_view(tl@),
            k <= tl@.len(),
            lines_view(out@) == unmatched_lines(tlv.subrange(0, k as int), lv, p@),
        decreases tl.len() - k,
    {
        assert(tlv.subrange(0, k + 1).drop_last() =~= tlv.subrange(0, k as int));
        let matched = k < lines.len() && contains_exec(&lines[k], &p);
        if !matched {
            let line = copy_line(&tl[k]);
            proof {
                lemma_lines_view_push(out@, line);
            }
            out.push(line);
        }
        k = k + 1;
    }
    assert(tlv.subrange(0, k as int) =~= tlv);
    GlobalResult::Deleted(out, count)
}

// ---------------------------------------------------------------------
// :sort
// ---------------------------------------------------------------------

/// Text order (`str`'s `Ord`): lexicographic by character; comparing
/// UTF-8 bytes orders characters by their code.
pub open spec fn text_lt(a: Seq<char>, b: Seq<char>) -> bool
    decreases a.len(),
{
    if a.len() == 0 {
        b.len() > 0
    } else if b.len() == 0 {
        false
    } else if a[0] != b[0] {
        a[0] < b[0]
    } else {
        text_lt(a.subrange(1, a.len() as int), b.subrange(1, b.len() as int))
    }
}

pub open spec fn text_le(a: Seq<char>, b: Seq<char>) -> bool {
    a == b || text_lt(a, b)
}

/// Each line is at most the next ones.
pub open spec fn sorted_lines(s: Seq<Seq<char>>) -> bool {
    forall|i: int, j: int| 0 <= i < j < s.len() ==> text_le(#[trigger] s[i], #[trigger] s[j])
}

pub proof fn lemma_text_lt_irreflexive(a: Seq<char>)
    ensures
        !text_lt(a, a),
    decreases a.len(),
{
    if a.len() > 0 {
        lemma_text_lt_irreflexive(a.subrange(1, a.len() as int));
    }
}

pub proof fn lemma_text_lt_transitive(a: Seq<char>, b: Seq<char>, c: Seq<char>)
    requires
        text_lt(a, b),
        text_lt(b, c),
    ensures
        text_lt(a, c),
    decreases a.len(),
{
    if a.len() > 0 && b.len() > 0 && c.len() > 0 && a[0] == b[0] && b[0] == c[0] {
        lemma_text_lt_transitive(a.subrange(1, a.len() as int), b.subrange(1, b.len() as int), c.subrange(1, c.len() as int));
    }
}

pub proof fn lemma_text_lt_total(a: Seq<char>, b: Seq<char>)
    ensures
        a == b || text_lt(a, b) || text_lt(b, a),
    decreases a.len(),
{
    if a.len() > 0 && b.len() > 0 && a[0] == b[0] {
        let a1 = a.subrange(1, a.len() as int);
        let b1 = b.subrange(1, b.len() as int);
        lemma_text_lt_total(a1, b1);
        if a1 == b1 {
            assert(a =~= seq![a[0]] + a1);
            assert(b =~= seq![b[0]] + b1);
        }
    } else if a.len() == 0 && b.len() == 0 {
        assert(a =~= b);
    }
}

pub proof fn lemma_text_lt_asymmetric(a: Seq<char>, b: Seq<char>)
    requires
        text_lt(a, b),
    ensures
        !text_lt(b, a),
{
    if text_lt(b, a) {
        lemma_text_lt_transitive(a, b, a);
        lemma_text_lt_irreflexive(a);
    }
}

fn text_lt_exec(a: &Vec<char>, b: &Vec<char>) -> (r: bool)
    ensures
        r == text_lt(a@, b@),
{
    let mut k: usize = 0;
    assert(a@.subrange(0, a@.len() as int) =~= a@);
    assert(b@.subrange(0, b@.len() as int) =~= b@);
    while k < a.len() && k < b.len() && a[k] == b[k]
        invariant
            k <= a@.len(),
            k <= b@.len(),
            text_lt(a@, b@) == text_lt(a@.subrange(k as int, a@.len() as int), b@.subrange(k as int, b@.len() as int)),
        decreases a.len() - k,
    {
        let ghost a1 = a@.subrange(k as int, a@.len() as int);
        let ghost b1 = b@.subrange(k as int, b@.len() as int);
        assert(a1.subrange(1, a1.len() as int) =~= a@.subrange(k + 1, a@.len() as int));
        assert(b1.subrange(1, b1.len() as int) =~= b@.subrange(k + 1, b@.len() as int));
        k = k + 1;
    }
    if k == a.len() {
        k < b.len()
    } else if k == b.len() {
        false
    } else {
        a[k] < b[k]
    }
}

proof fn lemma_lines_view_insert(v: Seq<Vec<char>>, i: int, x: Vec<char>)
    requires
        0 <= i <= v.len(),
    ensures
        lines_view(v.insert(i, x)) == lines_view(v).insert(i, x@),
{
    assert(lines_view(v.insert(i, x)) =~= lines_view(v).insert(i, x@));
}

/// The lines in text order (stable insertion sort).
pub fn sort_lines(v: &Vec<Vec<char>>) -> (r: Vec<Vec<char>>)
    ensures
        sorted_lines(lines_view(r@)),
        lines_view(r@).to_multiset() == lines_view(v@).to_multiset(),
{
    broadcast use vstd::seq_lib::group_to_multiset_ensures;

    let ghost lv = lines_view(v@);
    let mut out: Vec<Vec<char>> = Vec::new();
    let mut i: usize = 0;
    assert(lines_view(out@) =~= Seq::<Seq<char>>::empty());
    assert(lv.subrange(0, 0) =~= Seq::<Seq<char>>::empty());
    while i < v.len()
        invariant
            lv == lines_view(v@),
            i <= v@.len(),
            sorted_lines(lines_view(out@)),
            lines_view(out@).to_multiset() == lv.subrange(0, i as int).to_multiset(),
        decreases v.len() - i,
    {
        let x = copy_line(&v[i]);
        assert(x@ == lv[i as int]);
        let ghost ov = lines_view(out@);
        let mut pos: usize = 0;
        while pos < out.len() && !text_lt_exec(&x, &out[pos])
            invariant
                ov == lines_view(out@),
                pos <= ov.len(),
                forall|j: int| 0 <= j < pos ==> text_le(#[trigger] ov[j], x@),
            decreases out.len() - pos,
        {
            proof {
                lemma_text_lt_total(x@, ov[pos as int]);
            }
            pos = pos + 1;
        }
        proof {
            if pos < ov.len() {
                assert forall|j: int| pos <= j < ov.len() implies text_lt(x@, #[trigger] ov[j]) by {
                    if j > pos {
                        assert(text_le(ov[pos as int], ov[j]));
                        if ov[pos as int] != ov[j] {
                            lemma_text_lt_transitive(x@, ov[pos as int], ov[j]);
                        }
                    }
                }
            }
            lemma_lines_view_insert(out@, pos as int, x);
            let nv = ov.insert(pos as int, x@);
            assert forall|a: int, b: int| 0 <= a < b < nv.len() implies text_le(#[trigger] nv[a], #[trigger] nv[b]) by {
                if b < pos {
                } else if b == pos {
                    assert(nv[b] == x@);
                    assert(nv[a] == ov[a]);
                } else if a < pos {
                    assert(nv[a] == ov[a] && nv[b] == ov[b - 1]);
                    assert(text_le(ov[a], x@));
                    assert(text_lt(x@, ov[b - 1]));
                    if ov[a] != x@ {
                        lemma_text_lt_transitive(ov[a], x@, ov[b - 1]);
                    }
                } else if a == pos {
                    assert(nv[a] == x@ && nv[b] == ov[b - 1]);
                } else {
                    assert(nv[a] == ov[a - 1] && nv[b] == ov[b - 1]);
                }
            }
            assert(lv.subrange(0, i + 1) =~= lv.subrange(0, i as int).push(lv[i as int]));
            lv.subrange(0, i as int).to_multiset_ensures();
            assert(lv.subrange(0, i + 1).to_multiset() == lv.subrange(0, i as int).to_multiset().insert(lv[i as int]));
            vstd::seq_lib::to_multiset_insert(ov, pos as int, x@);
            assert(nv.to_multiset() == ov.to_multiset().insert(x@));
        }
        out.insert(pos, x);
        i = i + 1;
    }
    assert(lv.subrange(0, i as int) =~= lv);
    out
}

/// The lines reversed.
pub open spec fn reversed(s: Seq<Seq<char>>) -> Seq<Seq<char>> {
    Seq::new(s.len(), |i: int| s[s.len() - 1 - i])
}

/// Runs of equal lines reduced to one (`Vec::dedup`).
pub open spec fn dedup_lines(s: Seq<Seq<char>>) -> Seq<Seq<char>>
    decreases s.len(),
{
    if s.len() == 0 {
        Seq::empty()
    } else {
        let p = dedup_lines(s.drop_last());
        if s.len() >= 2 && s[s.len() - 1] == s[s.len() - 2] { p } else { p.push(s.last()) }
    }
}

/// `:sort` options: `!` or `reverse` reverses, `u` keeps one of equal
/// lines.
pub open spec fn sort_finish(t: Seq<Seq<char>>, cmd: Seq<char>) -> Seq<Seq<char>> {
    let rev = contains(cmd, "!"@) || contains(cmd, "reverse"@);
    let t1 = if rev { reversed(t) } else { t };
    if contains(cmd, "u"@) { dedup_lines(t1) } else { t1 }
}

fn reverse_lines(v: Vec<Vec<char>>) -> (r: Vec<Vec<char>>)
    ensures
        lines_view(r@) == reversed(lines_view(v@)),
{
    let ghost lv = lines_view(v@);
    let mut out: Vec<Vec<char>> = Vec::new();
    let mut i = v.len();
    while i > 0
        invariant
            lv == lines_view(v@),
            i <= v@.len(),
            lines_view(out@) =~= reversed(lv).subrange(0, (v@.len() - i) as int),
        decreases i,
    {
        let x = copy_line(&v[i - 1]);
        proof {
            lemma_lines_view_push(out@, x);
        }
        out.push(x);
        i = i - 1;
        assert(lines_view(out@) =~= reversed(lv).subrange(0, (v@.len() - i) as int));
    }
    assert(reversed(lv).subrange(0, v@.len() as int) =~= reversed(lv));
    out
}

fn dedup_exec(v: Vec<Vec<char>>) -> (r: Vec<Vec<char>>)
    ensures
        lines_view(r@) == dedup_lines(lines_view(v@)),
{
    let ghost lv = lines_view(v@);
    let mut out: Vec<Vec<char>> = Vec::new();
    let mut i: usize = 0;
    assert(lv.subrange(0, 0) =~= Seq::<Seq<char>>::empty());
    assert(lines_view(out@) =~= Seq::<Seq<char>>::empty());
    while i < v.len()
        invariant
            lv == lines_view(v@),
            i <= v@.len(),
            lines_view(out@) == dedup_lines(lv.subrange(0, i as int)),
        decreases v.len() - i,
    {
        let ghost pre = lv.subrange(0, i + 1);
        assert(pre.drop_last() =~= lv.subrange(0, i as int));
        let same = i > 0 && crate::chars::eq_seq(&v[i], &v[i - 1]);
        if !same {
            let x = copy_line(&v[i]);
            proof {
                lemma_lines_view_push(out@, x);
            }
            out.push(x);
        }
        i = i + 1;
    }
    assert(lv.subrange(0, i as int) =~= lv);
    out
}

/// `:sort` with its options: the new lines are the text's lines in
/// order (reversed for `!`/`reverse`, repeats dropped for `u`).
pub fn cmd_sort(cmd: &Vec<char>, lines: &Vec<Vec<char>>) -> (r: Vec<Vec<char>>)
    ensures
        exists|t: Seq<Seq<char>>|
            sorted_lines(t) && t.to_multiset() == text_lines(lines_view(lines@)).to_multiset()
                && lines_view(r@) == #[trigger] sort_finish(t, cmd@),
{
    let rev = contains_exec(cmd, &chars_of("!")) || contains_exec(cmd, &chars_of("reverse"));
    let unique = contains_exec(cmd, &chars_of("u"));
    let tl = text_lines_exec(lines);
    let sorted = sort_lines(&tl);
    let ghost t = lines_view(sorted@);
    let t1 = if rev {
        reverse_lines(sorted)
    } else {
        sorted
    };
    let r = if unique {
        dedup_exec(t1)
    } else {
        t1
    };
    assert(lines_view(r@) == sort_finish(t, cmd@));
    r
}

/// The sorted order does not depend on the order the lines came in.
pub proof fn law_sorted_is_unique(a: Seq<Seq<char>>, b: Seq<Seq<char>>)
    requires
        sorted_lines(a),
        sorted_lines(b),
        a.to_multiset() == b.to_multiset(),
    ensures
        a == b,
    decreases a.len(),
{
    broadcast use vstd::seq_lib::group_to_multiset_ensures;

    assert(a.to_multiset().len() == a.len());
    assert(b.to_multiset().len() == b.len());
    if a.len() == 0 {
        assert(b.len() == 0);
        assert(a =~= b);
    } else {
        assert(b.len() == a.len());
        let x = a[0];
        let y = b[0];
        assert(a.to_multiset().count(y) > 0);
        assert(b.to_multiset().count(x) > 0);
        assert(a.contains(y));
        assert(b.contains(x));
        let iy = choose|i: int| 0 <= i < a.len() && a[i] == y;
        let ix = choose|i: int| 0 <= i < b.len() && b[i] == x;
        if x != y {
            if iy > 0 {
                assert(text_le(a[0], a[iy]));
            }
            if ix > 0 {
                assert(text_le(b[0], b[ix]));
            }
            lemma_text_lt_asymmetric(x, y);
        }
        assert(x == y);
        let a1 = a.remove(0);
        let b1 = b.remove(0);
        assert(a1.to_multiset() == a.to_multiset().remove(a[0]));
        assert(b1.to_multiset() == b.to_multiset().remove(b[0]));
        assert(sorted_lines(a1)) by {
            assert forall|i: int, j: int| 0 <= i < j < a1.len() implies text_le(#[trigger] a1[i], #[trigger] a1[j]) by {
                assert(a1[i] == a[i + 1] && a1[j] == a[j + 1]);
            }
        }
        assert(sorted_lines(b1)) by {
            assert forall|i: int, j: int| 0 <= i < j < b1.len() implies text_le(#[trigger] b1[i], #[trigger] b1[j]) by {
                assert(b1[i] == b[i + 1] && b1[j] == b[j + 1]);
            }
        }
        law_sorted_is_unique(a1, b1);
        assert(a =~= b) by {
            assert forall|i: int| 0 <= i < a.len() implies a[i] == b[i] by {
                if i > 0 {
                    assert(a[i] == a1[i - 1] && b[i] == b1[i - 1]);
                }
            }
        }
    }
}

// ---------------------------------------------------------------------
// :t and :m
// ---------------------------------------------------------------------

/// Index after which `:t{dest}` puts the copy: `dest - 1` within the
/// text.
pub open spec fn copy_after(count: int, dest: int) -> int {
    let a = if dest - 1 > 0 { dest - 1 } else { 0 };
    if a < count - 1 { a } else { count - 1 }
}

/// The read-back lines with `lt` put after the one at index `after`.
pub open spec fn copied_lines(tl: Seq<Seq<char>>, lt: Seq<char>, after: int) -> Seq<Seq<char>>
    decreases tl.len(),
{
    if tl.len() == 0 {
        Seq::empty()
    } else {
        let p = copied_lines(tl.drop_last(), lt, after).push(tl.last());
        if tl.len() - 1 == after { p.push(lt) } else { p }
    }
}

/// `:t{dest}`: the new lines (the cursor line copied after line `dest`,
/// counted from 1) and the cursor line (on the copy).
pub fn cmd_copy_line(lines: &Vec<Vec<char>>, cur: usize, dest: i32) -> (r: (Vec<Vec<char>>, i32))
    requires
        cur < lines.len() <= i32::MAX,
        dest > i32::MIN,
    ensures
        ({
            let ls = lines_view(lines@);
            let after = copy_after(ls.len() as int, dest as int);
            &&& lines_view(r.0@) == copied_lines(text_lines(ls), ls[cur as int], after)
            &&& r.1 == after + 1
        }),
{
    let ghost ls = lines_view(lines@);
    let count = lines.len() as i32;
    let a = if dest - 1 > 0 {
        dest - 1
    } else {
        0
    };
    let after = if a < count - 1 {
        a
    } else {
        count - 1
    };
    let lt = copy_line(&lines[cur]);
    let tl = text_lines_exec(lines);
    let ghost tlv = lines_view(tl@);
    proof {
        lemma_text_lines_len(ls);
    }
    let mut out: Vec<Vec<char>> = Vec::new();
    let mut i: usize = 0;
    assert(tlv.subrange(0, 0) =~= Seq::<Seq<char>>::empty());
    assert(lines_view(out@) =~= Seq::<Seq<char>>::empty());
    while i < tl.len()
        invariant
            tlv == lines_view(tl@),
            i <= tl@.len() <= i32::MAX,
            lines_view(out@) == copied_lines(tlv.subrange(0, i as int), lt@, after as int),
        decreases tl.len() - i,
    {
        assert(tlv.subrange(0, i + 1).drop_last() =~= tlv.subrange(0, i as int));
        assert(tlv.subrange(0, i + 1).last() == tlv[i as int]);
        let x = copy_line(&tl[i]);
        assert(x@ == tlv[i as int]);
        proof {
            lemma_lines_view_push(out@, x);
        }
        out.push(x);
        if i as i64 == after as i64 {
            let y = copy_line(&lt);
            assert(y@ == lt@);
            proof {
                lemma_lines_view_push(out@, y);
            }
            out.push(y);
        }
        i = i + 1;
    }
    assert(tlv.subrange(0, i as int) =~= tlv);
    (out, after + 1)
}

/// Index after which `:m{dest}` puts the line: `dest - 1` within the
/// text (or -1 for the top), one less when at or past the moved line.
pub open spec fn move_after(count: int, cur: int, dest: int) -> int {
    let a = if dest - 1 > -1 { dest - 1 } else { -1 };
    let b = if a < count - 1 { a } else { count - 1 };
    if b >= cur { b - 1 } else { b }
}

/// The read-back lines without line `cur`, the line `lt` put after the
/// line at index `after` as the lines are passed (at the top when
/// `after` is negative and the first line is passed).
pub open spec fn moved_prefix(tl: Seq<Seq<char>>, cur: int, lt: Seq<char>, after: int) -> Seq<Seq<char>>
    decreases tl.len(),
{
    if tl.len() == 0 {
        Seq::empty()
    } else {
        let i = tl.len() - 1;
        let p = moved_prefix(tl.drop_last(), cur, lt, after);
        if i == cur {
            p
        } else {
            let p1 = p.push(tl[i]);
            if i == after || (after < 0 && i == 0) {
                if after < 0 { p1.insert(0, lt) } else { p1.push(lt) }
            } else {
                p1
            }
        }
    }
}

/// What `:m{dest}` makes of the lines: the line is also added at the end
/// when `after` is at or past the last read-back line.
pub open spec fn moved_lines(tl: Seq<Seq<char>>, cur: int, lt: Seq<char>, after: int) -> Seq<Seq<char>> {
    let m = moved_prefix(tl, cur, lt, after);
    if after >= tl.len() - 1 { m.push(lt) } else { m }
}

/// `:m{dest}`: the new lines (the cursor line moved after line `dest`,
/// counted from 1) and the cursor line.
pub fn cmd_move_line(lines: &Vec<Vec<char>>, cur: usize, dest: i32) -> (r: (Vec<Vec<char>>, i32))
    requires
        cur < lines.len() <= i32::MAX,
        dest > i32::MIN,
    ensures
        ({
            let ls = lines_view(lines@);
            let after = move_after(ls.len() as int, cur as int, dest as int);
            &&& lines_view(r.0@) == moved_lines(text_lines(ls), cur as int, ls[cur as int], after)
            &&& r.1 == (if after < 0 { 0 } else { after + 1 })
        }),
{
    let ghost ls = lines_view(lines@);
    let count = lines.len() as i32;
    let a = if dest - 1 > -1 {
        dest - 1
    } else {
        -1
    };
    let b = if a < count - 1 {
        a
    } else {
        count - 1
    };
    let after: i32 = if b >= cur as i32 {
        b - 1
    } else {
        b
    };
    let lt = copy_line(&lines[cur]);
    let tl = text_lines_exec(lines);
    let ghost tlv = lines_view(tl@);
    proof {
        lemma_text_lines_len(ls);
    }
    let mut out: Vec<Vec<char>> = Vec::new();
    let mut i: usize = 0;
    assert(tlv.subrange(0, 0) =~= Seq::<Seq<char>>::empty());
    assert(lines_view(out@) =~= Seq::<Seq<char>>::empty());
    while i < tl.len()
        invariant
            tlv == lines_view(tl@),
            i <= tl@.len() <= i32::MAX,
            lines_view(out@) == moved_prefix(tlv.subrange(0, i as int), cur as int, lt@, after as int),
        decreases tl.len() - i,
    {
        assert(tlv.subrange(0, i + 1).drop_last() =~= tlv.subrange(0, i as int));
        assert(tlv.subrange(0, i + 1)[i as int] == tlv[i as int]);
        if i != cur {
            let x = copy_line(&tl[i]);
            assert(x@ == tlv[i as int]);
            proof {
                lemma_lines_view_push(out@, x);
            }
            out.push(x);
            if i as i64 == after as i64 || (after < 0 && i == 0) {
                let y = copy_line(&lt);
                if after < 0 {
                    proof {
                        lemma_lines_view_insert(out@, 0, y);
                    }
                    out.insert(0, y);
                } else {
                    proof {
                        lemma_lines_view_push(out@, y);
                    }
                    out.push(y);
                }
            }
        }
        i = i + 1;
    }
    assert(tlv.subrange(0, i as int) =~= tlv);
    if after as i64 >= tl.len() as i64 - 1 {
        let y = copy_line(&lt);
        proof {
            lemma_lines_view_push(out@, y);
        }
        out.push(y);
    }
    (out, if after < 0 {
        0
    } else {
        after + 1
    })
}

// ---------------------------------------------------------------------
// Commands handed to Neovim
// ---------------------------------------------------------------------

/// What becomes of an Ex command handed to Neovim.
pub enum ForwardOf<S> {
    /// `:set {name}?`: ask Neovim for the option's value with this Lua code.
    QueryOption { name: S, lua: S },
    /// Run this command line in Neovim.
    Command(S),
    /// A `:set ...?` without an option name: nothing is done.
    Nothing,
}

pub type Forward = ForwardOf<String>;

pub open spec fn forward_view(f: Forward) -> ForwardOf<Seq<char>> {
    match f {
        ForwardOf::QueryOption { name, lua } => ForwardOf::QueryOption { name: name@, lua: lua@ },
        ForwardOf::Command(c) => ForwardOf::Command(c@),
        ForwardOf::Nothing => ForwardOf::Nothing,
    }
}

/// A command `set ...` holding a `?` asks for the value of the option
/// named between `set ` and a final `?` (none when there is no final `?`
/// or nothing before it); any other command runs as `:` and the command.
pub open spec fn forward_spec(cmd: Seq<char>) -> ForwardOf<Seq<char>> {
    if starts_with(cmd, "set "@) && cmd.contains('?') {
        let rest = cmd.subrange(4, cmd.len() as int);
        let name = if rest.len() > 0 && rest.last() == '?' {
            rest.drop_last()
        } else {
            Seq::empty()
        };
        if name.len() > 0 {
            ForwardOf::QueryOption {
                name,
                lua: "return vim.api.nvim_get_option_value('"@ + name + "', { buf = 0 })"@,
            }
        } else {
            ForwardOf::Nothing
        }
    } else {
        ForwardOf::Command(":"@ + cmd)
    }
}

/// What to do with an Ex command handed to Neovim (see `forward_spec`).
pub fn forward_command(cmd: &str) -> (r: Forward)
    ensures
        forward_view(r) == forward_spec(cmd@),
{
    let c = chars_of(cmd);
    let prefix = chars_of("set ");
    let has_prefix = c.len() >= 4 && occurs_at_exec(&c, 0, &prefix);
    proof {
        reveal_strlit("set ");
        if starts_with(c@, "set "@) {
            assert(occurs_at(c@, 0, prefix@));
        }
    }
    let q = index_of_exec(&c, '?');
    proof {
        lemma_index_of_from(c@, '?', 0);
        if c@.contains('?') {
            let j = choose|j: int| 0 <= j < c@.len() && c@[j] == '?';
            assert(index_of(c@, '?') is Some);
        }
    }
    if has_prefix && q.is_some() {
        proof {
            assert(c@.subrange(0, 4) =~= "set "@);
            let j = q->0;
            assert(c@[j as int] == '?');
            assert(c@.contains('?'));
        }
        let rest = slice_of(&c, 4, c.len());
        let name = if rest.len() > 0 && rest[rest.len() - 1] == '?' {
            slice_of(&rest, 0, rest.len() - 1)
        } else {
            Vec::new()
        };
        proof {
            if rest@.len() > 0 && rest@.last() == '?' {
                assert(name@ =~= rest@.drop_last());
            } else {
                assert(name@ =~= Seq::<char>::empty());
            }
        }
        if name.len() > 0 {
            let lua = concat(&chars_of("return vim.api.nvim_get_option_value('"), &name);
            let lua = concat(&lua, &chars_of("', { buf = 0 })"));
            ForwardOf::QueryOption { name: crate::chars::string_of(&name), lua: crate::chars::string_of(&lua) }
        } else {
            ForwardOf::Nothing
        }
    } else {
        proof {
            if starts_with(c@, "set "@) && c@.contains('?') {
                let j = choose|j: int| 0 <= j < c@.len() && c@[j] == '?';
                assert(index_of(c@, '?') is Some);
            }
        }
        let line = concat(&chars_of(":"), &c);
        ForwardOf::Command(crate::chars::string_of(&line))
    }
}

/// How an option's value is shown: a string as it is (empty when not valid
/// UTF-8), a boolean as `true` or `false`, an `i64` in decimal; `None` for
/// any other value.
pub open spec fn option_value_spec(v: crate::msgpack::MsgValue) -> Option<Seq<char>> {
    match v {
        crate::msgpack::MsgValue::Str(_) => Some(
            match crate::msgpack::as_str(v) {
                Some(s) => s,
                None => Seq::empty(),
            },
        ),
        crate::msgpack::MsgValue::Boolean(b) => Some(
            if b {
                "true"@
            } else {
                "false"@
            },
        ),
        _ => match crate::msgpack::as_i64(v) {
            Some(n) => Some(crate::numbers::signed_decimal(n as int)),
            None => None,
        },
    }
}

/// The text shown for the value of an option (see `option_value_spec`).
pub fn option_value_text(v: &crate::msgpack::MsgValue) -> (r: Option<String>)
    ensures
        match r {
            Some(s) => option_value_spec(*v) == Some(s@),
            None => option_value_spec(*v) is None,
        },
{
    match v {
        crate::msgpack::MsgValue::Str(_) => Some(
            match crate::msgpack::value_as_str(v) {
                Some(s) => String::from_str(s.as_str()),
                None => String::new(),
            },
        ),
        crate::msgpack::MsgValue::Boolean(b) => Some(
            if *b {
                String::from_str("true")
            } else {
                String::from_str("false")
            },
        ),
        _ => match crate::msgpack::value_as_i64(v) {
            Some(n) => Some(crate::chars::string_of(&crate::numbers::i64_decimal(n))),
            None => None,
        },
    }
}

} // verus!
