//! Text changes made on the editor's lines: `x`, `X`, `r`, `~`, `>>`,
//! `<<`, `Ctrl+A`/`Ctrl+X`, `J`, and the named-register line commands.
//!
//! Lines are `Vec<char>` without line breaks; each function returns the
//! changed text and where the cursor goes.

use crate::chars::{concat, is_digit, is_space, leading_spaces, slice_of, trailing_spaces, trim_end, trim_end_exec, trim_start, trim_start_exec};
use crate::motions::{first_non_blank, first_non_blank_spec, lines_view};
use crate::numbers::{parse_int, parse_int_exec, signed_decimal, i64_decimal};
use crate::unicode::{char_is_uppercase, char_to_lowercase, char_to_uppercase, is_uppercase, to_lowercase, to_uppercase};
use vstd::prelude::*;

verus! {

/// `s` with the character at `i` removed.
pub open spec fn remove_at(s: Seq<char>, i: int) -> Seq<char> {
    s.subrange(0, i) + s.subrange(i + 1, s.len() as int)
}

fn remove_at_exec(v: &Vec<char>, i: usize) -> (r: Vec<char>)
    requires
        i < v.len(),
    ensures
        r@ == remove_at(v@, i as int),
{
    let a = slice_of(v, 0, i);
    let b = slice_of(v, i + 1, v.len());
    concat(&a, &b)
}

/// `x`: the line without the character under the cursor, and the cursor
/// column (moved back when it would be past the end of a non-empty line).
pub open spec fn delete_char_forward_spec(s: Seq<char>, col: int) -> Option<(Seq<char>, int)> {
    if 0 <= col < s.len() {
        let t = remove_at(s, col);
        Some((t, if col >= t.len() && t.len() > 0 { t.len() - 1 } else { col }))
    } else {
        None
    }
}

pub fn delete_char_forward(line: &Vec<char>, col: usize) -> (r: Option<(Vec<char>, usize)>)
    ensures
        r matches Some(p) ==> delete_char_forward_spec(line@, col as int) == Some((p.0@, p.1 as int)),
        r is None ==> delete_char_forward_spec(line@, col as int) is None,
{
    if col < line.len() {
        let t = remove_at_exec(line, col);
        let c = if col >= t.len() && t.len() > 0 {
            t.len() - 1
        } else {
            col
        };
        Some((t, c))
    } else {
        None
    }
}

/// `X`: the line without the character before the cursor; the cursor
/// moves back one.
pub open spec fn delete_char_backward_spec(s: Seq<char>, col: int) -> Option<(Seq<char>, int)> {
    if col > 0 {
        Some((remove_at(s, col - 1), col - 1))
    } else {
        None
    }
}

pub fn delete_char_backward(line: &Vec<char>, col: usize) -> (r: Option<(Vec<char>, usize)>)
    requires
        col <= line.len(),
    ensures
        r matches Some(p) ==> delete_char_backward_spec(line@, col as int) == Some((p.0@, p.1 as int)),
        r is None ==> delete_char_backward_spec(line@, col as int) is None,
{
    if col > 0 {
        Some((remove_at_exec(line, col - 1), col - 1))
    } else {
        None
    }
}

/// `r{c}`: the line with the character under the cursor replaced.
pub fn replace_char(line: &Vec<char>, col: usize, c: char) -> (r: Option<Vec<char>>)
    ensures
        r matches Some(t) ==> col < line@.len() && t@ == line@.update(col as int, c),
        r is None ==> col >= line@.len(),
{
    if col < line.len() {
        let mut t = slice_of(line, 0, line.len());
        assert(t@ =~= line@);
        t.set(col, c);
        Some(t)
    } else {
        None
    }
}

/// The first character of a case mapping, or `c` itself when the mapping
/// is empty.
pub open spec fn first_or(m: Seq<char>, c: char) -> char {
    if m.len() > 0 { m[0] } else { c }
}

/// What `~` turns a character into: its lowercase when it is uppercase,
/// otherwise its uppercase (first character of the mapping).
pub open spec fn toggled(c: char) -> char {
    if char_is_uppercase(c) {
        first_or(char_to_lowercase(c), c)
    } else {
        first_or(char_to_uppercase(c), c)
    }
}

/// `~`: the line with the case of the character under the cursor
/// toggled; the cursor moves right unless on the last character.
pub open spec fn toggle_case_spec(s: Seq<char>, col: int) -> Option<(Seq<char>, int)> {
    if 0 <= col < s.len() {
        Some((s.update(col, toggled(s[col])), if col < s.len() - 1 { col + 1 } else { col }))
    } else {
        None
    }
}

pub fn toggle_case(line: &Vec<char>, col: usize) -> (r: Option<(Vec<char>, usize)>)
    ensures
        r matches Some(p) ==> toggle_case_spec(line@, col as int) == Some((p.0@, p.1 as int)),
        r is None ==> toggle_case_spec(line@, col as int) is None,
{
    if col >= line.len() {
        return None;
    }
    let c = line[col];
    let m = if is_uppercase(c) {
        to_lowercase(c)
    } else {
        to_uppercase(c)
    };
    let n = if m.len() > 0 {
        m[0]
    } else {
        c
    };
    let mut t = slice_of(line, 0, line.len());
    assert(t@ =~= line@);
    t.set(col, n);
    let nc = if col < line.len() - 1 {
        col + 1
    } else {
        col
    };
    Some((t, nc))
}

/// `>>`: a tab before the line; the cursor goes to the first non-blank.
pub open spec fn indent_spec(s: Seq<char>) -> (Seq<char>, int) {
    let t = seq!['\t'] + s;
    (t, first_non_blank_spec(t))
}

pub fn indent_line(line: &Vec<char>) -> (r: (Vec<char>, usize))
    ensures
        (r.0@, r.1 as int) == indent_spec(line@),
{
    let mut tab: Vec<char> = Vec::new();
    tab.push('\t');
    assert(tab@ =~= seq!['\t']);
    let t = concat(&tab, line);
    let c = first_non_blank(&t);
    (t, c)
}

pub open spec fn has_prefix(s: Seq<char>, p: Seq<char>) -> bool {
    p.len() <= s.len() && s.subrange(0, p.len() as int) == p
}

/// `<<`: one level of indentation removed (a tab, else four, two or one
/// spaces); the cursor goes to the first non-blank.
pub open spec fn unindent_spec(s: Seq<char>) -> (Seq<char>, int) {
    let t = if has_prefix(s, seq!['\t']) {
        s.subrange(1, s.len() as int)
    } else if has_prefix(s, seq![' ', ' ', ' ', ' ']) {
        s.subrange(4, s.len() as int)
    } else if has_prefix(s, seq![' ', ' ']) {
        s.subrange(2, s.len() as int)
    } else if has_prefix(s, seq![' ']) {
        s.subrange(1, s.len() as int)
    } else {
        s
    };
    (t, first_non_blank_spec(t))
}

fn spaces_prefix(v: &Vec<char>, n: usize) -> (b: bool)
    ensures
        b == (n <= v@.len() && forall|i: int| 0 <= i < n ==> v@[i] == ' '),
{
    if n > v.len() {
        return false;
    }
    let mut i: usize = 0;
    while i < n
        invariant
            n <= v@.len(),
            i <= n,
            forall|j: int| 0 <= j < i ==> v@[j] == ' ',
        decreases n - i,
    {
        if v[i] != ' ' {
            return false;
        }
        i = i + 1;
    }
    true
}

pub fn unindent_line(line: &Vec<char>) -> (r: (Vec<char>, usize))
    ensures
        (r.0@, r.1 as int) == unindent_spec(line@),
{
    let ghost s = line@;
    assert(has_prefix(s, seq!['\t']) <==> (s.len() >= 1 && s[0] == '\t')) by {
        if s.len() >= 1 {
            assert(s.subrange(0, 1) =~= seq![s[0]]);
            if has_prefix(s, seq!['\t']) {
                assert(s.subrange(0, 1)[0] == s[0]);
            }
        }
    }
    assert(has_prefix(s, seq![' ', ' ', ' ', ' ']) <==> (4 <= s.len() && forall|i: int| 0 <= i < 4 ==> s[i] == ' ')) by {
        if 4 <= s.len() && forall|i: int| 0 <= i < 4 ==> s[i] == ' ' {
            assert(s.subrange(0, 4) =~= seq![' ', ' ', ' ', ' ']);
        }
        if has_prefix(s, seq![' ', ' ', ' ', ' ']) {
            assert forall|i: int| 0 <= i < 4 implies s[i] == ' ' by {
                assert(s.subrange(0, 4)[i] == s[i]);
            }
        }
    }
    assert(has_prefix(s, seq![' ', ' ']) <==> (2 <= s.len() && forall|i: int| 0 <= i < 2 ==> s[i] == ' ')) by {
        if 2 <= s.len() && forall|i: int| 0 <= i < 2 ==> s[i] == ' ' {
            assert(s.subrange(0, 2) =~= seq![' ', ' ']);
        }
        if has_prefix(s, seq![' ', ' ']) {
            assert forall|i: int| 0 <= i < 2 implies s[i] == ' ' by {
                assert(s.subrange(0, 2)[i] == s[i]);
            }
        }
    }
    assert(has_prefix(s, seq![' ']) <==> (1 <= s.len() && forall|i: int| 0 <= i < 1 ==> s[i] == ' ')) by {
        if 1 <= s.len() && forall|i: int| 0 <= i < 1 ==> s[i] == ' ' {
            assert(s.subrange(0, 1) =~= seq![' ']);
        }
        if has_prefix(s, seq![' ']) {
            assert(s.subrange(0, 1)[0] == s[0]);
        }
    }
    let t = if line.len() >= 1 && line[0] == '\t' {
        slice_of(line, 1, line.len())
    } else if spaces_prefix(line, 4) {
        slice_of(line, 4, line.len())
    } else if spaces_prefix(line, 2) {
        slice_of(line, 2, line.len())
    } else if spaces_prefix(line, 1) {
        slice_of(line, 1, line.len())
    } else {
        let t = slice_of(line, 0, line.len());
        assert(t@ =~= line@);
        t
    };
    let c = first_non_blank(&t);
    (t, c)
}

/// `<<` undoes `>>`: the line comes back as it was.
pub proof fn law_unindent_undoes_indent(s: Seq<char>)
    ensures
        unindent_spec(indent_spec(s).0).0 == s,
{
    let t = seq!['\t'] + s;
    assert(t.subrange(0, 1) =~= seq!['\t']);
    assert(t.subrange(1, t.len() as int) =~= s);
}

// ---------------------------------------------------------------------
// Ctrl+A / Ctrl+X
// ---------------------------------------------------------------------

/// First ASCII digit at an index in `[i, hi)`.
pub open spec fn first_digit(s: Seq<char>, i: int, hi: int) -> Option<int>
    decreases hi - i,
{
    if i < 0 || i >= hi || i >= s.len() {
        None
    } else if is_digit(s[i]) {
        Some(i)
    } else {
        first_digit(s, i + 1, hi)
    }
}

/// End (exclusive) of the run of digits starting at `i`.
pub open spec fn digits_end(s: Seq<char>, i: int) -> int
    decreases s.len() - i,
{
    if 0 <= i < s.len() && is_digit(s[i]) {
        digits_end(s, i + 1)
    } else {
        i
    }
}

/// The number whose first digit is at `i`: a `-` just before belongs to
/// it.
pub open spec fn span_at(s: Seq<char>, i: int) -> (int, int) {
    (if i > 0 && s[i - 1] == '-' { i - 1 } else { i }, digits_end(s, i))
}

/// The number `Ctrl+A` works on: the first one starting at or after the
/// cursor, else the first one on the line before the cursor.
pub open spec fn number_span(s: Seq<char>, col: int) -> Option<(int, int)> {
    match first_digit(s, col, s.len() as int) {
        Some(i) => Some(span_at(s, i)),
        None => {
            let hi = if col < s.len() { col } else { s.len() as int };
            match first_digit(s, 0, hi) {
                Some(i) => Some(span_at(s, i)),
                None => None,
            }
        },
    }
}

/// The value of that number plus `delta`, when there is a number and it
/// reads as an `i64`.
pub open spec fn adjusted_value(s: Seq<char>, col: int, delta: int) -> Option<int> {
    match number_span(s, col) {
        None => None,
        Some((a, b)) => match parse_int(s.subrange(a, b), i64::MIN as int, i64::MAX as int) {
            None => None,
            Some(n) => Some(n + delta),
        },
    }
}

/// `Ctrl+A`/`Ctrl+X`: the line with the number replaced by its value
/// plus `delta`, and the cursor on the number's last character.
pub open spec fn increment_spec(s: Seq<char>, col: int, delta: int) -> Option<(Seq<char>, int)> {
    match number_span(s, col) {
        None => None,
        Some((a, b)) => match adjusted_value(s, col, delta) {
            None => None,
            Some(m) => {
                let t = signed_decimal(m);
                Some((s.subrange(0, a) + t + s.subrange(b, s.len() as int), a + t.len() - 1))
            },
        },
    }
}

proof fn lemma_first_digit(s: Seq<char>, i: int, hi: int)
    ensures
        first_digit(s, i, hi) matches Some(j) ==> i <= j < hi && j < s.len() && 0 <= j && is_digit(s[j]),
    decreases hi - i,
{
    if !(i < 0 || i >= hi || i >= s.len()) && !is_digit(s[i]) {
        lemma_first_digit(s, i + 1, hi);
    }
}

proof fn lemma_digits_end(s: Seq<char>, i: int)
    requires
        0 <= i <= s.len(),
    ensures
        i <= digits_end(s, i) <= s.len(),
    decreases s.len() - i,
{
    if i < s.len() && is_digit(s[i]) {
        lemma_digits_end(s, i + 1);
    }
}

proof fn lemma_decimal_nonempty(n: nat)
    ensures
        crate::numbers::decimal(n).len() >= 1,
    decreases n,
{
}

fn first_digit_exec(v: &Vec<char>, from: usize, hi: usize) -> (r: Option<usize>)
    requires
        hi <= v.len(),
    ensures
        r matches Some(j) ==> first_digit(v@, from as int, hi as int) == Some(j as int),
        r is None ==> first_digit(v@, from as int, hi as int) is None,
{
    let mut i = from;
    while i < hi
        invariant
            hi <= v@.len(),
            from <= i,
            first_digit(v@, from as int, hi as int) == first_digit(v@, i as int, hi as int),
        decreases hi - i,
    {
        if '0' <= v[i] && v[i] <= '9' {
            return Some(i);
        }
        i = i + 1;
    }
    None
}

fn digits_end_exec(v: &Vec<char>, from: usize) -> (r: usize)
    requires
        from <= v.len(),
    ensures
        r == digits_end(v@, from as int),
        from <= r <= v.len(),
{
    let mut j = from;
    while j < v.len() && '0' <= v[j] && v[j] <= '9'
        invariant
            from <= j <= v@.len(),
            digits_end(v@, from as int) == digits_end(v@, j as int),
        decreases v.len() - j,
    {
        j = j + 1;
    }
    j
}

fn span_at_exec(v: &Vec<char>, i: usize) -> (r: (usize, usize))
    requires
        i < v.len(),
        is_digit(v@[i as int]),
    ensures
        (r.0 as int, r.1 as int) == span_at(v@, i as int),
        r.0 <= i < r.1 <= v.len(),
{
    proof {
        lemma_digits_end(v@, i + 1);
    }
    let a = if i > 0 && v[i - 1] == '-' {
        i - 1
    } else {
        i
    };
    let b = digits_end_exec(v, i);
    (a, b)
}

/// `Ctrl+A` (`delta` 1) and `Ctrl+X` (`delta` -1): the changed line and
/// the cursor column, or `None` when the line has no number that reads as
/// an `i64`.
pub fn increment_number(line: &Vec<char>, col: usize, delta: i32) -> (r: Option<(Vec<char>, usize)>)
    requires
        adjusted_value(line@, col as int, delta as int) matches Some(m) ==> i64::MIN <= m <= i64::MAX,
    ensures
        r matches Some(p) ==> increment_spec(line@, col as int, delta as int) == Some((p.0@, p.1 as int)),
        r is None ==> increment_spec(line@, col as int, delta as int) is None,
{
    let n = line.len();
    let found = match first_digit_exec(line, col, n) {
        Some(i) => Some(i),
        None => {
            let hi = if col < n {
                col
            } else {
                n
            };
            first_digit_exec(line, 0, hi)
        },
    };
    let i = match found {
        Some(i) => i,
        None => {
            return None;
        },
    };
    proof {
        lemma_first_digit(line@, col as int, n as int);
        lemma_first_digit(line@, 0, if col < n { col as int } else { n as int });
    }
    let (a, b) = span_at_exec(line, i);
    let digits = slice_of(line, a, b);
    let value = match parse_int_exec(&digits, i64::MIN, i64::MAX) {
        Some(x) => x,
        None => {
            return None;
        },
    };
    let m = value + (delta as i64);
    let t = i64_decimal(m);
    proof {
        if m < 0 {
            lemma_decimal_nonempty((-m) as nat);
        } else {
            lemma_decimal_nonempty(m as nat);
        }
    }
    let head = slice_of(line, 0, a);
    let tail = slice_of(line, b, n);
    let joined = concat(&concat(&head, &t), &tail);
    let jl = joined.len();
    assert(jl == head@.len() + t@.len() + tail@.len());
    assert(t@.len() >= 1);
    Some((joined, a + t.len() - 1))
}

// ---------------------------------------------------------------------
// J
// ---------------------------------------------------------------------

/// `J` joins a line and the next: trailing blanks of the first and
/// leading blanks of the second go, and one space separates them unless
/// either part is empty.
pub open spec fn joined_line(cur: Seq<char>, next: Seq<char>) -> Seq<char> {
    let a = trim_end(cur);
    let b = trim_start(next);
    if a.len() == 0 {
        b
    } else if b.len() == 0 {
        a
    } else {
        a + seq![' '] + b
    }
}

/// A line without a carriage return at its end.
pub open spec fn strip_cr(l: Seq<char>) -> Seq<char> {
    if l.len() > 0 && l.last() == '\r' {
        l.drop_last()
    } else {
        l
    }
}

/// What `str::lines` yields for the lines joined with line feeds: every
/// line but the last loses a final carriage return, and an empty last
/// line is not yielded.
pub open spec fn text_lines(ls: Seq<Seq<char>>) -> Seq<Seq<char>> {
    if ls.len() == 0 {
        Seq::empty()
    } else {
        let init = ls.drop_last().map_values(|l: Seq<char>| strip_cr(l));
        if ls.last().len() > 0 {
            init.push(ls.last())
        } else {
            init
        }
    }
}

pub proof fn lemma_text_lines_len(ls: Seq<Seq<char>>)
    ensures
        text_lines(ls).len() <= ls.len(),
        text_lines(ls).len() + 1 >= ls.len(),
{
    if ls.len() > 0 {
        assert(ls.drop_last().map_values(|l: Seq<char>| strip_cr(l)).len() == ls.len() - 1);
    }
}

/// The lines after `J` on line `idx`: the text is read back line by line
/// with the joined line in place, and the line after it is left out.
pub open spec fn join_lines_spec(ls: Seq<Seq<char>>, idx: int) -> Option<(Seq<Seq<char>>, int)> {
    if idx < 0 || idx + 1 >= ls.len() {
        None
    } else {
        let nl = joined_line(ls[idx], ls[idx + 1]);
        let tl = text_lines(ls.update(idx, nl));
        let rest = if idx + 1 < tl.len() { tl.subrange(idx + 2, tl.len() as int) } else { Seq::empty() };
        Some((tl.subrange(0, idx).push(nl) + rest, trim_end(ls[idx]).len() as int))
    }
}

proof fn lemma_trailing_spaces(s: Seq<char>)
    ensures
        trailing_spaces(s) <= s.len(),
        forall|i: int| s.len() - trailing_spaces(s) <= i < s.len() ==> is_space(#[trigger] s[i]),
        s.len() - trailing_spaces(s) > 0 ==> !is_space(s[s.len() - trailing_spaces(s) - 1]),
    decreases s.len(),
{
    if s.len() > 0 && is_space(s.last()) {
        let d = s.drop_last();
        lemma_trailing_spaces(d);
        assert forall|i: int| s.len() - trailing_spaces(s) <= i < s.len() implies is_space(#[trigger] s[i]) by {
            if i < s.len() - 1 {
                assert(d[i] == s[i]);
            }
        }
        if s.len() - trailing_spaces(s) > 0 {
            assert(d[d.len() - trailing_spaces(d) - 1] == s[s.len() - trailing_spaces(s) - 1]);
        }
    }
}

proof fn lemma_leading_spaces(s: Seq<char>)
    ensures
        leading_spaces(s) <= s.len(),
        forall|i: int| 0 <= i < leading_spaces(s) ==> is_space(#[trigger] s[i]),
        leading_spaces(s) < s.len() ==> !is_space(s[leading_spaces(s) as int]),
    decreases s.len(),
{
    if s.len() > 0 && is_space(s[0]) {
        let t = s.subrange(1, s.len() as int);
        lemma_leading_spaces(t);
        assert forall|i: int| 0 <= i < leading_spaces(s) implies is_space(#[trigger] s[i]) by {
            if i > 0 {
                assert(t[i - 1] == s[i]);
            }
        }
        if leading_spaces(s) < s.len() {
            assert(t[leading_spaces(t) as int] == s[leading_spaces(s) as int]);
        }
    }
}

/// `J` keeps the current line as it was up to its trailing blanks (its
/// indentation included) and puts the cursor right after that text; what
/// follows is the next line without its leading blanks, after one space
/// when both parts hold text.
pub proof fn law_join_keeps_current_line(ls: Seq<Seq<char>>, idx: int)
    requires
        0 <= idx,
        idx + 1 < ls.len(),
    ensures
        join_lines_spec(ls, idx) matches Some((r, col)) && {
            let cur = ls[idx];
            let next = ls[idx + 1];
            let j = r[idx];
            &&& idx < r.len()
            &&& 0 <= col <= cur.len()
            &&& forall|i: int| col <= i < cur.len() ==> is_space(#[trigger] cur[i])
            &&& (col > 0 ==> !is_space(cur[col - 1]))
            &&& col <= j.len()
            &&& j.subrange(0, col) == cur.subrange(0, col)
            &&& exists|k: int|
                #![trigger next.subrange(k, next.len() as int)]
                0 <= k <= next.len() && (forall|i: int| 0 <= i < k ==> is_space(#[trigger] next[i])) && (k
                    < next.len() ==> !is_space(next[k])) && j.subrange(col, j.len() as int) == (if col
                    > 0 && k < next.len() {
                    seq![' ']
                } else {
                    Seq::<char>::empty()
                }) + next.subrange(k, next.len() as int)
        },
{
    let cur = ls[idx];
    let next = ls[idx + 1];
    lemma_trailing_spaces(cur);
    lemma_leading_spaces(next);
    let a = trim_end(cur);
    let b = trim_start(next);
    let nl = joined_line(cur, next);
    let col = a.len() as int;
    let k = leading_spaces(next) as int;
    let tl = text_lines(ls.update(idx, nl));
    lemma_text_lines_len(ls.update(idx, nl));
    let rest = if idx + 1 < tl.len() { tl.subrange(idx + 2, tl.len() as int) } else { Seq::empty() };
    let r = tl.subrange(0, idx).push(nl) + rest;
    assert(join_lines_spec(ls, idx) == Some((r, col)));
    assert(r[idx] == nl);
    let tail = (if col > 0 && k < next.len() { seq![' '] } else { Seq::<char>::empty() }) + next.subrange(k, next.len() as int);
    if a.len() == 0 {
        assert(nl == b);
        assert(nl.subrange(col, nl.len() as int) =~= tail);
    } else if b.len() == 0 {
        assert(nl == a);
        assert(nl.subrange(col, nl.len() as int) =~= tail);
    } else {
        assert(nl == a + seq![' '] + b);
        assert(nl.subrange(col, nl.len() as int) =~= tail);
    }
    assert(nl.subrange(0, col) =~= cur.subrange(0, col));
    assert(0 <= k <= next.len());
    assert(forall|i: int| 0 <= i < k ==> is_space(#[trigger] next[i]));
    assert(r[idx].subrange(col, r[idx].len() as int) == tail);
    assert(col <= r[idx].len());
    assert(r[idx].subrange(0, col) == cur.subrange(0, col));
    assert(forall|i: int| col <= i < cur.len() ==> is_space(#[trigger] cur[i]));
}

proof fn lemma_lines_push(v: Seq<Vec<char>>, x: Vec<char>)
    ensures
        lines_view(v.push(x)) == lines_view(v).push(x@),
{
    assert(lines_view(v.push(x)) =~= lines_view(v).push(x@));
}

fn strip_cr_exec(l: &Vec<char>) -> (r: Vec<char>)
    ensures
        r@ == strip_cr(l@),
{
    if l.len() > 0 && l[l.len() - 1] == '\r' {
        slice_of(l, 0, l.len() - 1)
    } else {
        slice_of(l, 0, l.len())
    }
}

pub(crate) fn copy_line(l: &Vec<char>) -> (r: Vec<char>)
    ensures
        r@ == l@,
{
    let r = slice_of(l, 0, l.len());
    assert(r@ =~= l@);
    r
}

pub(crate) fn text_lines_exec(ls: &Vec<Vec<char>>) -> (r: Vec<Vec<char>>)
    ensures
        lines_view(r@) == text_lines(lines_view(ls@)),
{
    let ghost lv = lines_view(ls@);
    let mut r: Vec<Vec<char>> = Vec::new();
    let n = ls.len();
    if n == 0 {
        assert(lines_view(r@) =~= Seq::<Seq<char>>::empty());
        return r;
    }
    let ghost init = lv.drop_last().map_values(|l: Seq<char>| strip_cr(l));
    let mut i: usize = 0;
    while i + 1 < n
        invariant
            lv == lines_view(ls@),
            n == ls@.len(),
            n > 0,
            i + 1 <= n,
            init == lv.drop_last().map_values(|l: Seq<char>| strip_cr(l)),
            lines_view(r@) == init.subrange(0, i as int),
        decreases n - i,
    {
        let s = strip_cr_exec(&ls[i]);
        proof {
            lemma_lines_push(r@, s);
            assert(init[i as int] == strip_cr(lv[i as int]));
        }
        r.push(s);
        i = i + 1;
        assert(lines_view(r@) =~= init.subrange(0, i as int));
    }
    assert(init.subrange(0, i as int) =~= init);
    if ls[n - 1].len() > 0 {
        let c = copy_line(&ls[n - 1]);
        proof {
            lemma_lines_push(r@, c);
        }
        r.push(c);
        assert(lines_view(r@) =~= init.push(lv.last()));
    }
    r
}

/// `J` on line `idx`: the new lines (to be set as the editor's text,
/// joined with line feeds) and the cursor column (the join point); `None`
/// on the last line.
pub fn join_lines(lines: &Vec<Vec<char>>, idx: usize) -> (r: Option<(Vec<Vec<char>>, usize)>)
    ensures
        r matches Some(p) ==> join_lines_spec(lines_view(lines@), idx as int) == Some((lines_view(p.0@), p.1 as int)),
        r is None ==> join_lines_spec(lines_view(lines@), idx as int) is None,
{
    let ghost lv = lines_view(lines@);
    let n = lines.len();
    if n == 0 || idx >= n - 1 {
        return None;
    }
    let a = trim_end_exec(&lines[idx]);
    let b = trim_start_exec(&lines[idx + 1]);
    let nl = if a.len() == 0 {
        copy_line(&b)
    } else if b.len() == 0 {
        copy_line(&a)
    } else {
        let mut sp: Vec<char> = Vec::new();
        sp.push(' ');
        assert(sp@ =~= seq![' ']);
        concat(&concat(&a, &sp), &b)
    };
    let join_col = a.len();
    let mut updated: Vec<Vec<char>> = Vec::new();
    let mut i: usize = 0;
    while i < n
        invariant
            lv == lines_view(lines@),
            n == lines@.len(),
            idx < n,
            i <= n,
            lines_view(updated@) == lv.update(idx as int, nl@).subrange(0, i as int),
        decreases n - i,
    {
        let c = if i == idx {
            copy_line(&nl)
        } else {
            copy_line(&lines[i])
        };
        proof {
            lemma_lines_push(updated@, c);
        }
        updated.push(c);
        i = i + 1;
        assert(lines_view(updated@) =~= lv.update(idx as int, nl@).subrange(0, i as int));
    }
    assert(lv.update(idx as int, nl@).subrange(0, n as int) =~= lv.update(idx as int, nl@));
    let tl = text_lines_exec(&updated);
    let ghost tlv = lines_view(tl@);
    let mut out: Vec<Vec<char>> = Vec::new();
    let m = tl.len();
    let mut j: usize = 0;
    while j < m
        invariant
            tlv == lines_view(tl@),
            m == tl@.len(),
            j <= m,
            idx + 1 < n,
            lines_view(out@) == (if j <= idx {
                tlv.subrange(0, j as int)
            } else if j == idx + 1 {
                tlv.subrange(0, idx as int).push(nl@)
            } else {
                tlv.subrange(0, idx as int).push(nl@) + tlv.subrange(idx + 2, j as int)
            }),
        decreases m - j,
    {
        let ghost before = out@;
        if j == idx {
            let c = copy_line(&nl);
            proof {
                lemma_lines_push(out@, c);
            }
            out.push(c);
        } else if j != idx + 1 {
            let c = copy_line(&tl[j]);
            proof {
                lemma_lines_push(out@, c);
            }
            out.push(c);
        }
        j = j + 1;
        proof {
            if j <= idx {
                assert(lines_view(out@) =~= tlv.subrange(0, j as int));
            } else if j == idx + 1 {
                assert(lines_view(out@) =~= tlv.subrange(0, idx as int).push(nl@));
            } else if j == idx + 2 {
                assert(lines_view(out@) =~= tlv.subrange(0, idx as int).push(nl@) + tlv.subrange(idx + 2, j as int));
            } else {
                assert(lines_view(out@) =~= tlv.subrange(0, idx as int).push(nl@) + tlv.subrange(idx + 2, j as int));
            }
        }
    }
    proof {
        assert(tlv.len() >= n - 1) by {
            let u = lv.update(idx as int, nl@);
            assert(u.drop_last().map_values(|l: Seq<char>| strip_cr(l)).len() == n - 1);
        }
        if m <= idx + 1 {
            assert(lines_view(out@) =~= tlv.subrange(0, idx as int).push(nl@) + Seq::<Seq<char>>::empty());
        } else {
            assert(tlv.subrange(idx + 2, m as int) =~= tlv.subrange(idx + 2, tlv.len() as int));
        }
    }
    Some((out, join_col))
}

} // verus!
