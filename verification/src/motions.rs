//! Cursor motions computed on the editor's lines.
//!
//! The text is a list of lines (`Vec<Vec<char>>`, no line holding a line
//! break) and the cursor a line index and a column; each function returns
//! where the cursor goes.

use crate::chars::{is_space, is_space_char};
use vstd::prelude::*;

verus! {

pub open spec fn lines_view(ls: Seq<Vec<char>>) -> Seq<Seq<char>> {
    ls.map_values(|v: Vec<char>| v@)
}

pub proof fn lemma_lines_view_push(v: Seq<Vec<char>>, x: Vec<char>)
    ensures
        lines_view(v.push(x)) == lines_view(v).push(x@),
{
    assert(lines_view(v.push(x)) =~= lines_view(v).push(x@));
}

/// Number of characters of all lines.
pub open spec fn total_chars(ls: Seq<Seq<char>>) -> nat
    decreases ls.len(),
{
    if ls.len() == 0 {
        0
    } else {
        total_chars(ls.drop_last()) + ls.last().len()
    }
}

proof fn lemma_total_prefix(ls: Seq<Seq<char>>, l: int)
    requires
        0 <= l <= ls.len(),
    ensures
        total_chars(ls.subrange(0, l)) <= total_chars(ls),
        l < ls.len() ==> total_chars(ls.subrange(0, l + 1)) == total_chars(ls.subrange(0, l))
            + ls[l].len(),
    decreases ls.len() - l,
{
    if l < ls.len() {
        assert(ls.subrange(0, l + 1).drop_last() =~= ls.subrange(0, l));
        lemma_total_prefix(ls, l + 1);
    } else {
        assert(ls.subrange(0, l) =~= ls);
    }
}

// ---------------------------------------------------------------------
// Matching bracket (`%`)
// ---------------------------------------------------------------------

/// The bracket matching `c` and whether it lies forward.
pub open spec fn bracket_pair(c: char) -> Option<(char, bool)> {
    if c == '(' {
        Some((')', true))
    } else if c == ')' {
        Some(('(', false))
    } else if c == '[' {
        Some((']', true))
    } else if c == ']' {
        Some(('[', false))
    } else if c == '{' {
        Some(('}', true))
    } else if c == '}' {
        Some(('{', false))
    } else if c == '<' {
        Some(('>', true))
    } else if c == '>' {
        Some(('<', false))
    } else {
        None
    }
}

/// Scan forward from `(l, c)` at nesting depth `d`: `same` opens a level,
/// `other` closes one; the position where the depth reaches zero.
pub open spec fn scan_forward(ls: Seq<Seq<char>>, same: char, other: char, l: int, c: int, d: int) -> Option<(int, int)>
    decreases ls.len() - l, ls[l].len() - c,
{
    if l < 0 || l >= ls.len() || c < 0 {
        None
    } else if c >= ls[l].len() {
        scan_forward(ls, same, other, l + 1, 0, d)
    } else if ls[l][c] == same {
        scan_forward(ls, same, other, l, c + 1, d + 1)
    } else if ls[l][c] == other {
        if d - 1 == 0 {
            Some((l, c))
        } else {
            scan_forward(ls, same, other, l, c + 1, d - 1)
        }
    } else {
        scan_forward(ls, same, other, l, c + 1, d)
    }
}

/// Scan backward from `(l, c)`; a column of `-1` moves to the end of the
/// line above.
pub open spec fn scan_backward(ls: Seq<Seq<char>>, same: char, other: char, l: int, c: int, d: int) -> Option<(int, int)>
    decreases l + 1, c + 1,
{
    if l < 0 || l >= ls.len() || c >= ls[l].len() || c < -1 {
        None
    } else if c == -1 {
        if l == 0 {
            None
        } else {
            scan_backward(ls, same, other, l - 1, ls[l - 1].len() - 1, d)
        }
    } else if ls[l][c] == same {
        scan_backward(ls, same, other, l, c - 1, d + 1)
    } else if ls[l][c] == other {
        if d - 1 == 0 {
            Some((l, c))
        } else {
            scan_backward(ls, same, other, l, c - 1, d - 1)
        }
    } else {
        scan_backward(ls, same, other, l, c - 1, d)
    }
}

/// Where `%` goes from `(line, col)`: the matching bracket of the one
/// under the cursor. A backward search from column 0 starts at the end of
/// the cursor's own line.
pub open spec fn matching_bracket_spec(ls: Seq<Seq<char>>, line: int, col: int) -> Option<(int, int)> {
    if line < 0 || line >= ls.len() || col < 0 || col >= ls[line].len() {
        None
    } else {
        let cur = ls[line][col];
        match bracket_pair(cur) {
            None => None,
            Some((target, forward)) => if forward {
                scan_forward(ls, cur, target, line, col + 1, 1)
            } else {
                let start = if col == 0 { ls[line].len() - 1 } else { col - 1 };
                scan_backward(ls, cur, target, line, start, 1)
            },
        }
    }
}

fn bracket_pair_exec(c: char) -> (r: Option<(char, bool)>)
    ensures
        r == bracket_pair(c),
{
    if c == '(' {
        Some((')', true))
    } else if c == ')' {
        Some(('(', false))
    } else if c == '[' {
        Some((']', true))
    } else if c == ']' {
        Some(('[', false))
    } else if c == '{' {
        Some(('}', true))
    } else if c == '}' {
        Some(('{', false))
    } else if c == '<' {
        Some(('>', true))
    } else if c == '>' {
        Some(('<', false))
    } else {
        None
    }
}

fn scan_forward_exec(lines: &Vec<Vec<char>>, same: char, other: char, line: usize, col: usize) -> (r: Option<(usize, usize)>)
    requires
        line < lines.len(),
        col <= lines@[line as int]@.len(),
        total_chars(lines_view(lines@)) < i64::MAX,
    ensures
        r matches Some(p) ==> scan_forward(lines_view(lines@), same, other, line as int, col as int, 1) == Some((p.0 as int, p.1 as int)),
        r is None ==> scan_forward(lines_view(lines@), same, other, line as int, col as int, 1) is None,
{
    let ghost ls = lines_view(lines@);
    let n = lines.len();
    let mut l = line;
    let mut c = col;
    let mut d: u64 = 1;
    proof {
        lemma_total_prefix(ls, line as int);
        lemma_total_prefix(ls, (line + 1) as int);
    }
    while l < n
        invariant
            ls == lines_view(lines@),
            n == lines@.len(),
            line <= l <= n,
            l < n ==> c <= ls[l as int].len(),
            l == n ==> c == 0,
            d >= 1,
            total_chars(ls) < i64::MAX,
            l < n ==> d + total_chars(ls.subrange(0, line as int)) + col <= 1 + total_chars(ls.subrange(0, l as int)) + c,
            l < n ==> total_chars(ls.subrange(0, l as int)) + c <= total_chars(ls),
            scan_forward(ls, same, other, line as int, col as int, 1) == scan_forward(ls, same, other, l as int, c as int, d as int),
        decreases n - l, lines@[l as int]@.len() - c,
    {
        let text = &lines[l];
        proof {
            lemma_total_prefix(ls, l as int);
            lemma_total_prefix(ls, (l + 1) as int);
        }
        if c >= text.len() {
            l = l + 1;
            c = 0;
            proof {
                if l < n {
                    lemma_total_prefix(ls, l as int);
                }
            }
        } else {
            let ch = text[c];
            if ch == same {
                d = d + 1;
            } else if ch == other {
                if d == 1 {
                    return Some((l, c));
                }
                d = d - 1;
            }
            c = c + 1;
        }
    }
    None
}

fn scan_backward_exec(lines: &Vec<Vec<char>>, same: char, other: char, line: usize, start: i64) -> (r: Option<(usize, usize)>)
    requires
        line < lines.len(),
        -1 <= start < lines@[line as int]@.len(),
        total_chars(lines_view(lines@)) < i64::MAX,
    ensures
        r matches Some(p) ==> scan_backward(lines_view(lines@), same, other, line as int, start as int, 1) == Some((p.0 as int, p.1 as int)),
        r is None ==> scan_backward(lines_view(lines@), same, other, line as int, start as int, 1) is None,
{
    let ghost ls = lines_view(lines@);
    let mut l = line;
    let mut c: i64 = start;
    let mut d: u64 = 1;
    proof {
        lemma_total_prefix(ls, line as int);
        lemma_total_prefix(ls, (line + 1) as int);
    }
    loop
        invariant
            ls == lines_view(lines@),
            l <= line < lines@.len(),
            -1 <= c < ls[l as int].len(),
            d >= 1,
            total_chars(ls) < i64::MAX,
            d + total_chars(ls.subrange(0, l as int)) + c + 1 <= 1 + total_chars(ls.subrange(0, line as int)) + start + 1,
            total_chars(ls.subrange(0, line as int)) + start + 1 <= total_chars(ls),
            scan_backward(ls, same, other, line as int, start as int, 1) == scan_backward(ls, same, other, l as int, c as int, d as int),
        decreases l, c + 1,
    {
        proof {
            lemma_total_prefix(ls, l as int);
            lemma_total_prefix(ls, (l + 1) as int);
        }
        let len_l = lines[l].len();
        assert(len_l == ls[l as int].len());
        if c < 0 {
            if l == 0 {
                return None;
            }
            proof {
                lemma_total_prefix(ls, (l - 1) as int);
            }
            l = l - 1;
            let len = lines[l].len();
            assert(len == ls[l as int].len());
            assert(len <= total_chars(ls)) by {
                lemma_total_prefix(ls, (l + 1) as int);
            }
            c = (len as i64) - 1;
        } else {
            let ch = lines[l][c as usize];
            if ch == same {
                d = d + 1;
            } else if ch == other {
                if d == 1 {
                    return Some((l, c as usize));
                }
                d = d - 1;
            }
            c = c - 1;
        }
    }
}

/// Where `%` takes the cursor: the bracket matching the one under it,
/// searched across lines; `None` when the cursor is not on a bracket or
/// there is no match.
pub fn jump_to_matching_bracket(lines: &Vec<Vec<char>>, line: usize, col: usize) -> (r: Option<(usize, usize)>)
    requires
        line < lines.len(),
        total_chars(lines_view(lines@)) < i64::MAX,
    ensures
        r matches Some(p) ==> matching_bracket_spec(lines_view(lines@), line as int, col as int) == Some((p.0 as int, p.1 as int)),
        r is None ==> matching_bracket_spec(lines_view(lines@), line as int, col as int) is None,
{
    let text = &lines[line];
    if col >= text.len() {
        return None;
    }
    let cur = text[col];
    match bracket_pair_exec(cur) {
        None => None,
        Some((target, forward)) => {
            if forward {
                scan_forward_exec(lines, cur, target, line, col + 1)
            } else {
                proof {
                    lemma_total_prefix(lines_view(lines@), line as int);
                    lemma_total_prefix(lines_view(lines@), (line + 1) as int);
                }
                assert(text.len() <= total_chars(lines_view(lines@)));
                let start: i64 = if col == 0 {
                    (text.len() as i64) - 1
                } else {
                    (col as i64) - 1
                };
                scan_backward_exec(lines, cur, target, line, start)
            }
        },
    }
}

/// All lines one after the other, in reading order.
pub open spec fn flat(ls: Seq<Seq<char>>) -> Seq<char>
    decreases ls.len(),
{
    if ls.len() == 0 {
        Seq::empty()
    } else {
        flat(ls.drop_last()) + ls.last()
    }
}

/// Index of column `c` of line `l` in [`flat`].
pub open spec fn flat_pos(ls: Seq<Seq<char>>, l: int, c: int) -> int {
    total_chars(ls.subrange(0, l)) + c
}

/// How often `x` occurs in `s`.
pub open spec fn count_of(s: Seq<char>, x: char) -> int
    decreases s.len(),
{
    if s.len() == 0 {
        0
    } else {
        (if s[0] == x { 1int } else { 0int }) + count_of(s.subrange(1, s.len() as int), x)
    }
}

proof fn lemma_flat_len(ls: Seq<Seq<char>>)
    ensures
        flat(ls).len() == total_chars(ls),
    decreases ls.len(),
{
    if ls.len() > 0 {
        lemma_flat_len(ls.drop_last());
    }
}

proof fn lemma_flat_index(ls: Seq<Seq<char>>, l: int, c: int)
    requires
        0 <= l < ls.len(),
        0 <= c < ls[l].len(),
    ensures
        0 <= flat_pos(ls, l, c) < flat(ls).len(),
        flat(ls)[flat_pos(ls, l, c)] == ls[l][c],
    decreases ls.len(),
{
    let d = ls.drop_last();
    lemma_flat_len(d);
    lemma_flat_len(ls);
    if l < ls.len() - 1 {
        assert(ls.subrange(0, l) =~= d.subrange(0, l));
        lemma_flat_index(d, l, c);
        lemma_total_prefix(d, l);
    } else {
        assert(ls.subrange(0, l) =~= d);
    }
}

proof fn lemma_count_split(f: Seq<char>, i: int, k: int, x: char)
    requires
        0 <= i <= k < f.len(),
    ensures
        count_of(f.subrange(i, k + 1), x) == (if f[i] == x { 1int } else { 0int }) + count_of(
            f.subrange(i + 1, k + 1),
            x,
        ),
{
    let s = f.subrange(i, k + 1);
    assert(s.subrange(1, s.len() as int) =~= f.subrange(i + 1, k + 1));
}

/// Nesting depth `d` plus the openers minus the closers in `f[i..=k]`.
pub open spec fn depth_after(f: Seq<char>, same: char, other: char, d: int, i: int, k: int) -> int {
    d + count_of(f.subrange(i, k + 1), same) - count_of(f.subrange(i, k + 1), other)
}

proof fn lemma_scan_forward_balanced(ls: Seq<Seq<char>>, same: char, other: char, l: int, c: int, d: int)
    requires
        0 <= l < ls.len(),
        0 <= c <= ls[l].len(),
        d >= 1,
        same != other,
    ensures
        ({
            let f = flat(ls);
            let i = flat_pos(ls, l, c);
            match scan_forward(ls, same, other, l, c, d) {
                Some((l2, c2)) => {
                    let j = flat_pos(ls, l2, c2);
                    &&& 0 <= l2 < ls.len()
                    &&& 0 <= c2 < ls[l2].len()
                    &&& ls[l2][c2] == other
                    &&& i <= j < f.len()
                    &&& depth_after(f, same, other, d, i, j) == 0
                    &&& forall|k: int| i <= k < j ==> #[trigger] depth_after(f, same, other, d, i, k) >= 1
                },
                None => forall|k: int| i <= k < f.len() ==> #[trigger] depth_after(f, same, other, d, i, k) >= 1,
            }
        }),
    decreases ls.len() - l, ls[l].len() - c,
{
    let f = flat(ls);
    let i = flat_pos(ls, l, c);
    lemma_flat_len(ls);
    lemma_total_prefix(ls, l);
    lemma_total_prefix(ls, l + 1);
    if c >= ls[l].len() {
        if l + 1 < ls.len() {
            assert(flat_pos(ls, l + 1, 0) == i);
            lemma_scan_forward_balanced(ls, same, other, l + 1, 0, d);
        } else {
            assert(ls.subrange(0, l + 1) =~= ls);
            assert(i == f.len());
        }
    } else {
        lemma_flat_index(ls, l, c);
        let ch = ls[l][c];
        assert(f[i] == ch);
        assert(flat_pos(ls, l, c + 1) == i + 1);
        assert(count_of(f.subrange(i + 1, i + 1), same) == 0);
        assert(count_of(f.subrange(i + 1, i + 1), other) == 0);
        lemma_count_split(f, i, i, same);
        lemma_count_split(f, i, i, other);
        let nd = if ch == same { d + 1 } else if ch == other { d - 1 } else { d };
        assert(depth_after(f, same, other, d, i, i) == nd);
        if ch == other && d == 1 {
            assert(scan_forward(ls, same, other, l, c, d) == Some((l, c)));
        } else {
            assert(nd >= 1);
            assert(scan_forward(ls, same, other, l, c, d) == scan_forward(ls, same, other, l, c + 1, nd));
            lemma_scan_forward_balanced(ls, same, other, l, c + 1, nd);
            assert forall|k: int| i < k < f.len() implies #[trigger] depth_after(f, same, other, d, i, k)
                == depth_after(f, same, other, nd, i + 1, k) by {
                lemma_count_split(f, i, k, same);
                lemma_count_split(f, i, k, other);
            }
        }
    }
}

/// The bracket that closes `open`.
pub open spec fn closing_of(open: char) -> char {
    match bracket_pair(open) {
        Some((c, _)) => c,
        None => open,
    }
}

/// `%` on an opening bracket goes to the closing bracket that closes it:
/// from the cursor to the result (both included) openers and closers of
/// that kind occur equally often, and on every shorter stretch from the
/// cursor the openers are more, so nested pairs are stepped over. When
/// there is no result, no stretch from the cursor to the end of the text
/// is balanced.
pub proof fn law_forward_match_is_balanced(ls: Seq<Seq<char>>, line: int, col: int)
    requires
        0 <= line < ls.len(),
        0 <= col < ls[line].len(),
        bracket_pair(ls[line][col]) matches Some((_, forward)) && forward,
    ensures
        ({
            let open = ls[line][col];
            let close = closing_of(open);
            let f = flat(ls);
            let i = flat_pos(ls, line, col);
            match matching_bracket_spec(ls, line, col) {
                Some((l2, c2)) => {
                    let j = flat_pos(ls, l2, c2);
                    &&& 0 <= l2 < ls.len()
                    &&& 0 <= c2 < ls[l2].len()
                    &&& ls[l2][c2] == close
                    &&& i < j
                    &&& count_of(f.subrange(i, j + 1), open) == count_of(f.subrange(i, j + 1), close)
                    &&& forall|k: int| i <= k < j ==> #[trigger] count_of(f.subrange(i, k + 1), open) > count_of(f.subrange(i, k + 1), close)
                },
                None => forall|k: int| i <= k < f.len() ==> #[trigger] count_of(f.subrange(i, k + 1), open) > count_of(f.subrange(i, k + 1), close),
            }
        }),
{
    let open = ls[line][col];
    let close = closing_of(open);
    let f = flat(ls);
    let i = flat_pos(ls, line, col);
    lemma_flat_index(ls, line, col);
    lemma_flat_len(ls);
    assert(open != close);
    assert(flat_pos(ls, line, col + 1) == i + 1);
    lemma_scan_forward_balanced(ls, open, close, line, col + 1, 1);
    assert(matching_bracket_spec(ls, line, col) == scan_forward(ls, open, close, line, col + 1, 1));
    assert(count_of(f.subrange(i + 1, i + 1), open) == 0);
    assert(count_of(f.subrange(i + 1, i + 1), close) == 0);
    lemma_count_split(f, i, i, open);
    lemma_count_split(f, i, i, close);
    assert forall|k: int| i < k < f.len() implies count_of(f.subrange(i, k + 1), open) - count_of(
        f.subrange(i, k + 1),
        close,
    ) == #[trigger] depth_after(f, open, close, 1, i + 1, k) by {
        lemma_count_split(f, i, k, open);
        lemma_count_split(f, i, k, close);
    }
    match scan_forward(ls, open, close, line, col + 1, 1) {
        Some((l2, c2)) => {
            let j = flat_pos(ls, l2, c2);
            assert(depth_after(f, open, close, 1, i + 1, j) == 0);
            assert forall|k: int| i <= k < j implies #[trigger] count_of(f.subrange(i, k + 1), open)
                > count_of(f.subrange(i, k + 1), close) by {
                if k > i {
                    assert(depth_after(f, open, close, 1, i + 1, k) >= 1);
                }
            }
        },
        None => {
            assert forall|k: int| i <= k < f.len() implies #[trigger] count_of(f.subrange(i, k + 1), open)
                > count_of(f.subrange(i, k + 1), close) by {
                if k > i {
                    assert(depth_after(f, open, close, 1, i + 1, k) >= 1);
                }
            }
        },
    }
}

proof fn lemma_count_split_last(f: Seq<char>, k: int, i: int, x: char)
    requires
        0 <= k <= i < f.len(),
    ensures
        count_of(f.subrange(k, i + 1), x) == count_of(f.subrange(k, i), x) + (if f[i] == x { 1int } else { 0int }),
    decreases i - k,
{
    if k == i {
        lemma_count_split(f, i, i, x);
        assert(f.subrange(i + 1, i + 1) =~= f.subrange(k, i));
    } else {
        lemma_count_split(f, k, i, x);
        lemma_count_split(f, k, i - 1, x);
        lemma_count_split_last(f, k + 1, i, x);
    }
}

/// Nesting depth `d` plus the closers `same` minus the openers `other`
/// in `f[k..=i]`, read leftwards.
pub open spec fn depth_before(f: Seq<char>, same: char, other: char, d: int, k: int, i: int) -> int {
    d + count_of(f.subrange(k, i + 1), same) - count_of(f.subrange(k, i + 1), other)
}

proof fn lemma_scan_backward_balanced(ls: Seq<Seq<char>>, same: char, other: char, l: int, c: int, d: int)
    requires
        0 <= l < ls.len(),
        -1 <= c < ls[l].len(),
        d >= 1,
        same != other,
    ensures
        ({
            let f = flat(ls);
            let i = flat_pos(ls, l, c);
            &&& -1 <= i < f.len()
            &&& match scan_backward(ls, same, other, l, c, d) {
                Some((l2, c2)) => {
                    let j = flat_pos(ls, l2, c2);
                    &&& 0 <= l2 < ls.len()
                    &&& 0 <= c2 < ls[l2].len()
                    &&& ls[l2][c2] == other
                    &&& 0 <= j <= i
                    &&& depth_before(f, same, other, d, j, i) == 0
                    &&& forall|k: int| j < k <= i ==> #[trigger] depth_before(f, same, other, d, k, i) >= 1
                },
                None => forall|k: int| 0 <= k <= i ==> #[trigger] depth_before(f, same, other, d, k, i) >= 1,
            }
        }),
    decreases l + 1, c + 1,
{
    let f = flat(ls);
    let i = flat_pos(ls, l, c);
    lemma_flat_len(ls);
    lemma_total_prefix(ls, l);
    lemma_total_prefix(ls, l + 1);
    if c == -1 {
        if l > 0 {
            lemma_total_prefix(ls, l - 1);
            assert(flat_pos(ls, l - 1, ls[l - 1].len() - 1) == i);
            lemma_scan_backward_balanced(ls, same, other, l - 1, ls[l - 1].len() - 1, d);
        } else {
            assert(ls.subrange(0, 0) =~= Seq::<Seq<char>>::empty());
            assert(i == -1);
        }
    } else {
        lemma_flat_index(ls, l, c);
        let ch = ls[l][c];
        assert(f[i] == ch);
        assert(flat_pos(ls, l, c - 1) == i - 1);
        assert(count_of(f.subrange(i, i), same) == 0);
        assert(count_of(f.subrange(i, i), other) == 0);
        lemma_count_split_last(f, i, i, same);
        lemma_count_split_last(f, i, i, other);
        let nd = if ch == same { d + 1 } else if ch == other { d - 1 } else { d };
        assert(depth_before(f, same, other, d, i, i) == nd);
        if ch == other && d == 1 {
            assert(scan_backward(ls, same, other, l, c, d) == Some((l, c)));
        } else {
            assert(nd >= 1);
            assert(scan_backward(ls, same, other, l, c, d) == scan_backward(ls, same, other, l, c - 1, nd));
            lemma_scan_backward_balanced(ls, same, other, l, c - 1, nd);
            assert forall|k: int| 0 <= k < i implies #[trigger] depth_before(f, same, other, d, k, i)
                == depth_before(f, same, other, nd, k, i - 1) by {
                lemma_count_split_last(f, k, i, same);
                lemma_count_split_last(f, k, i, other);
            }
        }
    }
}

/// The bracket that opens `close`.
pub open spec fn opening_of(close: char) -> char {
    match bracket_pair(close) {
        Some((c, _)) => c,
        None => close,
    }
}

/// `%` on a closing bracket (not in column 0, where the search starts at
/// the end of the cursor's own line) goes to the opening bracket it
/// closes: from the result to the cursor (both included) openers and
/// closers of that kind occur equally often, and on every shorter stretch
/// ending at the cursor the closers are more. When there is no result,
/// no stretch from the start of the text to the cursor is balanced.
pub proof fn law_backward_match_is_balanced(ls: Seq<Seq<char>>, line: int, col: int)
    requires
        0 <= line < ls.len(),
        0 < col < ls[line].len(),
        bracket_pair(ls[line][col]) matches Some((_, forward)) && !forward,
    ensures
        ({
            let close = ls[line][col];
            let open = opening_of(close);
            let f = flat(ls);
            let i = flat_pos(ls, line, col);
            match matching_bracket_spec(ls, line, col) {
                Some((l2, c2)) => {
                    let j = flat_pos(ls, l2, c2);
                    &&& 0 <= l2 < ls.len()
                    &&& 0 <= c2 < ls[l2].len()
                    &&& ls[l2][c2] == open
                    &&& j < i
                    &&& count_of(f.subrange(j, i + 1), close) == count_of(f.subrange(j, i + 1), open)
                    &&& forall|k: int| j < k <= i ==> #[trigger] count_of(f.subrange(k, i + 1), close) > count_of(f.subrange(k, i + 1), open)
                },
                None => forall|k: int| 0 <= k <= i ==> #[trigger] count_of(f.subrange(k, i + 1), close) > count_of(f.subrange(k, i + 1), open),
            }
        }),
{
    let close = ls[line][col];
    let open = opening_of(close);
    let f = flat(ls);
    let i = flat_pos(ls, line, col);
    lemma_flat_index(ls, line, col);
    lemma_flat_len(ls);
    assert(open != close);
    assert(flat_pos(ls, line, col - 1) == i - 1);
    lemma_scan_backward_balanced(ls, close, open, line, col - 1, 1);
    assert(matching_bracket_spec(ls, line, col) == scan_backward(ls, close, open, line, col - 1, 1));
    assert(count_of(f.subrange(i, i), open) == 0);
    assert(count_of(f.subrange(i, i), close) == 0);
    lemma_count_split_last(f, i, i, open);
    lemma_count_split_last(f, i, i, close);
    assert forall|k: int| 0 <= k < i implies count_of(f.subrange(k, i + 1), close) - count_of(
        f.subrange(k, i + 1),
        open,
    ) == #[trigger] depth_before(f, close, open, 1, k, i - 1) by {
        lemma_count_split_last(f, k, i, open);
        lemma_count_split_last(f, k, i, close);
    }
    match scan_backward(ls, close, open, line, col - 1, 1) {
        Some((l2, c2)) => {
            let j = flat_pos(ls, l2, c2);
            assert(depth_before(f, close, open, 1, j, i - 1) == 0);
            assert forall|k: int| j < k <= i implies #[trigger] count_of(f.subrange(k, i + 1), close)
                > count_of(f.subrange(k, i + 1), open) by {
                if k < i {
                    assert(depth_before(f, close, open, 1, k, i - 1) >= 1);
                }
            }
        },
        None => {
            assert forall|k: int| 0 <= k <= i implies #[trigger] count_of(f.subrange(k, i + 1), close)
                > count_of(f.subrange(k, i + 1), open) by {
                if k < i {
                    assert(depth_before(f, close, open, 1, k, i - 1) >= 1);
                }
            }
        },
    }
}

// ---------------------------------------------------------------------
// Within a line
// ---------------------------------------------------------------------

/// Index of the first character of `s` that is not White_Space at or
/// after `i`, or `None`.
pub open spec fn first_non_space_from(s: Seq<char>, i: int) -> Option<int>
    decreases s.len() - i,
{
    if i < 0 || i >= s.len() {
        None
    } else if !is_space(s[i]) {
        Some(i)
    } else {
        first_non_space_from(s, i + 1)
    }
}

/// Column of the first non-blank character (`^`), 0 on a blank line.
pub open spec fn first_non_blank_spec(s: Seq<char>) -> int {
    match first_non_space_from(s, 0) {
        Some(i) => i,
        None => 0,
    }
}

proof fn lemma_first_non_space_bounds(s: Seq<char>, i: int)
    ensures
        first_non_space_from(s, i) matches Some(j) ==> i <= j < s.len() && !is_space(s[j]),
    decreases s.len() - i,
{
    if 0 <= i < s.len() && is_space(s[i]) {
        lemma_first_non_space_bounds(s, i + 1);
    }
}

/// Column of the first non-blank character of a line, 0 when it has none.
pub fn first_non_blank(line: &Vec<char>) -> (c: usize)
    ensures
        c == first_non_blank_spec(line@),
        c == 0 || c < line@.len(),
{
    let mut i: usize = 0;
    while i < line.len()
        invariant
            i <= line@.len(),
            first_non_space_from(line@, 0) == first_non_space_from(line@, i as int),
        decreases line.len() - i,
    {
        if !is_space_char(line[i]) {
            return i;
        }
        i = i + 1;
    }
    0
}

/// Column of `$`: the last character, or 0 on an empty line.
pub fn line_end_col(line: &Vec<char>) -> (c: usize)
    ensures
        c == (if line@.len() > 0 { line@.len() - 1 } else { 0 }),
{
    if line.len() > 0 {
        line.len() - 1
    } else {
        0
    }
}

/// First occurrence of `c` after column `col`.
pub open spec fn next_occurrence(s: Seq<char>, c: char, i: int) -> Option<int>
    decreases s.len() - i,
{
    if i < 0 || i >= s.len() {
        None
    } else if s[i] == c {
        Some(i)
    } else {
        next_occurrence(s, c, i + 1)
    }
}

/// Last occurrence of `c` before column `i` (that is, at `i - 1` or
/// earlier).
pub open spec fn prev_occurrence(s: Seq<char>, c: char, i: int) -> Option<int>
    decreases i,
{
    if i <= 0 || i > s.len() {
        None
    } else if s[i - 1] == c {
        Some(i - 1)
    } else {
        prev_occurrence(s, c, i - 1)
    }
}

/// Where `f`/`t` land: the next `c` after the cursor, or just before it.
pub open spec fn find_forward_spec(s: Seq<char>, col: int, c: char, till: bool) -> Option<int> {
    match next_occurrence(s, c, col + 1) {
        Some(i) => Some(if till { i - 1 } else { i }),
        None => None,
    }
}

/// Where `F`/`T` land: the previous `c` before the cursor, or just after
/// it.
pub open spec fn find_backward_spec(s: Seq<char>, col: int, c: char, till: bool) -> Option<int> {
    match prev_occurrence(s, c, col) {
        Some(i) => Some(if till { i + 1 } else { i }),
        None => None,
    }
}

/// The last `f F t T` search, repeated by `;` and `,`.
pub struct LastFind {
    pub ch: Option<char>,
    pub forward: bool,
    pub till: bool,
}

impl LastFind {
    pub fn new() -> (r: LastFind)
        ensures
            r.ch is None,
            r.forward,
            !r.till,
    {
        LastFind { ch: None, forward: true, till: false }
    }
}

proof fn lemma_next_bounds(s: Seq<char>, c: char, i: int)
    ensures
        next_occurrence(s, c, i) matches Some(j) ==> i <= j < s.len() && s[j] == c,
    decreases s.len() - i,
{
    if 0 <= i < s.len() && s[i] != c {
        lemma_next_bounds(s, c, i + 1);
    }
}

proof fn lemma_prev_bounds(s: Seq<char>, c: char, i: int)
    ensures
        prev_occurrence(s, c, i) matches Some(j) ==> 0 <= j < i && s[j] == c,
    decreases i,
{
    if 0 < i <= s.len() && s[i - 1] != c {
        lemma_prev_bounds(s, c, i - 1);
    }
}

/// `f`/`t`: the column to move to, when `c` occurs after the cursor; a
/// successful search is remembered for `;` and `,`.
pub fn find_char_forward(last: &mut LastFind, line: &Vec<char>, col: usize, c: char, till: bool) -> (r: Option<usize>)
    ensures
        r matches Some(t) ==> find_forward_spec(line@, col as int, c, till) == Some(t as int),
        r is None ==> find_forward_spec(line@, col as int, c, till) is None,
        r is Some ==> *final(last) == (LastFind { ch: Some(c), forward: true, till }),
        r is None ==> *final(last) == *old(last),
{
    if col >= line.len() {
        return None;
    }
    let mut i = col + 1;
    while i < line.len()
        invariant
            *last == *old(last),
            col < i <= line@.len(),
            next_occurrence(line@, c, col + 1) == next_occurrence(line@, c, i as int),
        decreases line.len() - i,
    {
        if line[i] == c {
            *last = LastFind { ch: Some(c), forward: true, till };
            return Some(if till { i - 1 } else { i });
        }
        i = i + 1;
    }
    None
}

/// `F`/`T`: the column to move to, when `c` occurs before the cursor; a
/// successful search is remembered for `;` and `,`.
pub fn find_char_backward(last: &mut LastFind, line: &Vec<char>, col: usize, c: char, till: bool) -> (r: Option<usize>)
    requires
        col <= line.len(),
    ensures
        r matches Some(t) ==> find_backward_spec(line@, col as int, c, till) == Some(t as int),
        r is None ==> find_backward_spec(line@, col as int, c, till) is None,
        r is Some ==> *final(last) == (LastFind { ch: Some(c), forward: false, till }),
        r is None ==> *final(last) == *old(last),
{
    let mut i = col;
    while i > 0
        invariant
            *last == *old(last),
            i <= col <= line@.len(),
            prev_occurrence(line@, c, col as int) == prev_occurrence(line@, c, i as int),
        decreases i,
    {
        if line[i - 1] == c {
            *last = LastFind { ch: Some(c), forward: false, till };
            return Some(if till { i } else { i - 1 });
        }
        i = i - 1;
    }
    None
}

/// Where `;` (`same_direction`) or `,` lands: the last search repeated,
/// in its direction or the opposite one.
pub open spec fn repeat_find_spec(last: LastFind, s: Seq<char>, col: int, same_direction: bool) -> Option<int> {
    match last.ch {
        None => None,
        Some(c) => if same_direction == last.forward {
            find_forward_spec(s, col, c, last.till)
        } else {
            find_backward_spec(s, col, c, last.till)
        },
    }
}

/// `;` and `,`: repeat the last character search.
pub fn repeat_find_char(last: &mut LastFind, line: &Vec<char>, col: usize, same_direction: bool) -> (r: Option<usize>)
    requires
        col <= line.len(),
    ensures
        r matches Some(t) ==> repeat_find_spec(*old(last), line@, col as int, same_direction) == Some(t as int),
        r is None ==> repeat_find_spec(*old(last), line@, col as int, same_direction) is None,
        old(last).ch is Some ==> final(last).ch == old(last).ch && final(last).till == old(last).till,
        r is None ==> *final(last) == *old(last),
{
    match last.ch {
        None => None,
        Some(c) => {
            let till = last.till;
            if same_direction == last.forward {
                find_char_forward(last, line, col, c, till)
            } else {
                find_char_backward(last, line, col, c, till)
            }
        },
    }
}

/// `;` right after a successful `f` finds the next occurrence after the
/// one just reached.
pub proof fn law_semicolon_repeats_find(s: Seq<char>, col: int, c: char, t: int)
    requires
        find_forward_spec(s, col, c, false) == Some(t),
    ensures
        repeat_find_spec(LastFind { ch: Some(c), forward: true, till: false }, s, t, true)
            == find_forward_spec(s, t, c, false),
{
}

/// `,` right after a successful `f` searches backward for the same
/// character from the position reached.
pub proof fn law_comma_reverses_find(s: Seq<char>, col: int, c: char, t: int)
    requires
        find_forward_spec(s, col, c, false) == Some(t),
    ensures
        repeat_find_spec(LastFind { ch: Some(c), forward: true, till: false }, s, t, false)
            == find_backward_spec(s, t, c, false),
{
}

// ---------------------------------------------------------------------
// Paragraphs, pages, the visible area
// ---------------------------------------------------------------------

/// A line with nothing but White_Space (`trim().is_empty()`).
pub open spec fn is_blank(s: Seq<char>) -> bool {
    forall|i: int| 0 <= i < s.len() ==> is_space(#[trigger] s[i])
}

fn is_blank_exec(s: &Vec<char>) -> (b: bool)
    ensures
        b == is_blank(s@),
{
    let mut i: usize = 0;
    while i < s.len()
        invariant
            i <= s@.len(),
            forall|j: int| 0 <= j < i ==> is_space(#[trigger] s@[j]),
        decreases s.len() - i,
    {
        if !is_space_char(s[i]) {
            return false;
        }
        i = i + 1;
    }
    true
}

/// From `l` going up, the first line (above 0) that is not blank
/// (`blank == true`) or blank (`blank == false`); stops at 0.
pub open spec fn skip_up(ls: Seq<Seq<char>>, l: int, blank: bool) -> int
    decreases l,
{
    if l > 0 && l < ls.len() && is_blank(ls[l]) == blank {
        skip_up(ls, l - 1, blank)
    } else {
        l
    }
}

/// From `l` going down, the first line that is not blank (`blank ==
/// true`) or blank (`blank == false`); stops past the last line.
pub open spec fn skip_down(ls: Seq<Seq<char>>, l: int, blank: bool) -> int
    decreases ls.len() - l,
{
    if 0 <= l < ls.len() && is_blank(ls[l]) == blank {
        skip_down(ls, l + 1, blank)
    } else {
        l
    }
}

/// The line `{` moves to (the cursor goes to its column 0).
pub open spec fn prev_paragraph_spec(ls: Seq<Seq<char>>, cur: int) -> int {
    let l = skip_up(ls, skip_up(ls, cur - 1, true), false);
    if l > 0 { l } else { 0 }
}

/// The line `}` moves to (the cursor goes to its column 0).
pub open spec fn next_paragraph_spec(ls: Seq<Seq<char>>, cur: int) -> int {
    let l = skip_down(ls, skip_down(ls, cur + 1, false), true);
    if l < ls.len() - 1 { l } else { ls.len() - 1 }
}

proof fn lemma_skip_up(ls: Seq<Seq<char>>, l: int, blank: bool)
    ensures
        skip_up(ls, l, blank) <= l,
        l >= 0 ==> skip_up(ls, l, blank) >= 0,
    decreases l,
{
    if l > 0 && l < ls.len() && is_blank(ls[l]) == blank {
        lemma_skip_up(ls, l - 1, blank);
    }
}

proof fn lemma_skip_down(ls: Seq<Seq<char>>, l: int, blank: bool)
    ensures
        skip_down(ls, l, blank) >= l,
        l <= ls.len() ==> skip_down(ls, l, blank) <= ls.len(),
    decreases ls.len() - l,
{
    if 0 <= l < ls.len() && is_blank(ls[l]) == blank {
        lemma_skip_down(ls, l + 1, blank);
    }
}

proof fn lemma_skip_down_lines(ls: Seq<Seq<char>>, l: int, blank: bool)
    requires
        0 <= l,
    ensures
        l <= skip_down(ls, l, blank),
        skip_down(ls, l, blank) <= ls.len() || skip_down(ls, l, blank) == l,
        forall|k: int| l <= k < skip_down(ls, l, blank) ==> #[trigger] blank_at(ls, k, blank),
        skip_down(ls, l, blank) < ls.len() ==> (is_blank(ls[skip_down(ls, l, blank)]) <==> !blank),
    decreases ls.len() - l,
{
    if 0 <= l < ls.len() && is_blank(ls[l]) == blank {
        lemma_skip_down_lines(ls, l + 1, blank);
        assert(blank_at(ls, l, blank));
    }
}

/// Line `k` exists and is blank exactly when `blank` is set.
spec fn blank_at(ls: Seq<Seq<char>>, k: int, blank: bool) -> bool {
    0 <= k < ls.len() && (is_blank(ls[k]) <==> blank)
}

/// `}` goes over the rest of the paragraph and the blank lines after it:
/// it lands below the cursor (unless on the last line), every line it
/// passes that is blank is followed only by blank lines up to where it
/// lands, and short of the last line it lands on a line that is not
/// blank, with a blank line right above it.
pub proof fn law_next_paragraph_skips_blanks(ls: Seq<Seq<char>>, cur: int)
    requires
        0 <= cur < ls.len(),
    ensures
        ({
            let r = next_paragraph_spec(ls, cur);
            &&& 0 <= r < ls.len()
            &&& (cur < ls.len() - 1 ==> cur < r)
            &&& (r < ls.len() - 1 ==> !is_blank(ls[r]) && cur + 2 <= r && is_blank(ls[r - 1]))
            &&& forall|k: int, k2: int| cur < k < k2 < r && is_blank(#[trigger] ls[k]) ==> is_blank(#[trigger] ls[k2])
        }),
{
    let m = skip_down(ls, cur + 1, false);
    lemma_skip_down_lines(ls, cur + 1, false);
    lemma_skip_down_lines(ls, m, true);
    lemma_skip_down(ls, cur + 1, false);
    lemma_skip_down(ls, m, true);
    let l = skip_down(ls, m, true);
    let r = next_paragraph_spec(ls, cur);
    assert(r == if l < ls.len() - 1 { l } else { ls.len() - 1 });
    if r < ls.len() - 1 {
        assert(r == l);
        if l == m {
            assert(is_blank(ls[m]));
        }
        assert(m < l);
        assert(blank_at(ls, r - 1, true));
    }
    assert forall|k: int, k2: int| cur < k < k2 < r && is_blank(#[trigger] ls[k]) implies is_blank(#[trigger] ls[k2]) by {
        if k < m {
            assert(blank_at(ls, k, false));
        }
        assert(blank_at(ls, k2, true));
    }
}

proof fn lemma_skip_up_lines(ls: Seq<Seq<char>>, l: int, blank: bool)
    requires
        l < ls.len(),
    ensures
        skip_up(ls, l, blank) <= l,
        forall|k: int| skip_up(ls, l, blank) < k <= l ==> #[trigger] blank_at(ls, k, blank),
        0 < skip_up(ls, l, blank) ==> (is_blank(ls[skip_up(ls, l, blank)]) <==> !blank),
    decreases l,
{
    if l > 0 && l < ls.len() && is_blank(ls[l]) == blank {
        lemma_skip_up_lines(ls, l - 1, blank);
        assert(blank_at(ls, l, blank));
    }
}

/// `{` goes up over the blank lines above the cursor and the paragraph
/// above them: it lands above the cursor (unless on the first line), the
/// lines it passes are first blank then not blank, going up, and above
/// the first line it lands on a blank line with a line that is not blank
/// right below it.
pub proof fn law_prev_paragraph_skips_blanks(ls: Seq<Seq<char>>, cur: int)
    requires
        0 <= cur < ls.len(),
    ensures
        ({
            let r = prev_paragraph_spec(ls, cur);
            &&& 0 <= r <= cur
            &&& (cur > 0 ==> r < cur)
            &&& (r > 0 ==> is_blank(ls[r]) && r + 2 <= cur && !is_blank(ls[r + 1]))
            &&& forall|k: int, k2: int| r < k < k2 < cur && is_blank(#[trigger] ls[k]) ==> is_blank(#[trigger] ls[k2])
        }),
{
    let m = skip_up(ls, cur - 1, true);
    lemma_skip_up_lines(ls, cur - 1, true);
    lemma_skip_up(ls, cur - 1, true);
    lemma_skip_up_lines(ls, m, false);
    lemma_skip_up(ls, m, false);
    let l = skip_up(ls, m, false);
    let r = prev_paragraph_spec(ls, cur);
    assert(r == if l > 0 { l } else { 0 });
    if r > 0 {
        assert(r == l);
        assert(m > 0);
        if l == m {
            assert(!is_blank(ls[m]));
        }
        assert(l < m);
        assert(blank_at(ls, r + 1, false));
    }
    assert forall|k: int, k2: int| r < k < k2 < cur && is_blank(#[trigger] ls[k]) implies is_blank(#[trigger] ls[k2]) by {
        if k <= m {
            assert(blank_at(ls, k, false));
        }
        assert(blank_at(ls, k2, true));
    }
}

/// `{`: the line of the previous paragraph boundary.
pub fn move_to_prev_paragraph(lines: &Vec<Vec<char>>, cur: usize) -> (r: usize)
    requires
        cur < lines.len(),
    ensures
        r == prev_paragraph_spec(lines_view(lines@), cur as int),
{
    let ghost ls = lines_view(lines@);
    if cur == 0 {
        return 0;
    }
    let mut l = cur - 1;
    while l > 0 && is_blank_exec(&lines[l])
        invariant
            ls == lines_view(lines@),
            l < lines@.len(),
            skip_up(ls, cur - 1, true) == skip_up(ls, l as int, true),
        decreases l,
    {
        l = l - 1;
    }
    let ghost mid = l as int;
    while l > 0 && !is_blank_exec(&lines[l])
        invariant
            ls == lines_view(lines@),
            l < lines@.len(),
            skip_up(ls, mid, false) == skip_up(ls, l as int, false),
        decreases l,
    {
        l = l - 1;
    }
    l
}

/// `}`: the line of the next paragraph boundary (at most the last line).
pub fn move_to_next_paragraph(lines: &Vec<Vec<char>>, cur: usize) -> (r: usize)
    requires
        cur < lines.len(),
    ensures
        r == next_paragraph_spec(lines_view(lines@), cur as int),
{
    let ghost ls = lines_view(lines@);
    let n = lines.len();
    let mut l = cur + 1;
    while l < n && !is_blank_exec(&lines[l])
        invariant
            ls == lines_view(lines@),
            n == lines@.len(),
            cur < l <= n,
            skip_down(ls, cur + 1, false) == skip_down(ls, l as int, false),
        decreases n - l,
    {
        l = l + 1;
    }
    let ghost mid = l as int;
    while l < n && is_blank_exec(&lines[l])
        invariant
            ls == lines_view(lines@),
            n == lines@.len(),
            cur < l <= n,
            skip_down(ls, mid, true) == skip_down(ls, l as int, true),
        decreases n - l,
    {
        l = l + 1;
    }
    if l < n - 1 {
        l
    } else {
        n - 1
    }
}

/// Length of line `l`, or 0 when there is no such line.
pub open spec fn line_len_or_zero(ls: Seq<Seq<char>>, l: int) -> int {
    if 0 <= l < ls.len() {
        ls[l].len() as int
    } else {
        0
    }
}

/// A remembered position brought back into the text: the line at most
/// the last one, the column at most the line's length.
pub open spec fn clamp_spec(ls: Seq<Seq<char>>, line: int, col: int) -> (int, int) {
    let l = if line < ls.len() - 1 { line } else { ls.len() - 1 };
    let len = line_len_or_zero(ls, l);
    (l, if col < len { col } else { len })
}

/// Bring a remembered position (jump list, mark, undo) back into the text.
pub fn clamp_position(lines: &Vec<Vec<char>>, line: i32, col: i32) -> (r: (i32, i32))
    requires
        0 < lines.len() <= i32::MAX,
        forall|i: int| 0 <= i < lines@.len() ==> #[trigger] lines@[i]@.len() <= i32::MAX,
    ensures
        (r.0 as int, r.1 as int) == clamp_spec(lines_view(lines@), line as int, col as int),
{
    let last = (lines.len() - 1) as i32;
    let l = if line < last {
        line
    } else {
        last
    };
    let len: i32 = if 0 <= l {
        assert(lines@[l as int]@.len() <= i32::MAX);
        lines[l as usize].len() as i32
    } else {
        0
    };
    (l, if col < len {
        col
    } else {
        len
    })
}

/// The line `H` moves to: the first visible line.
pub open spec fn visible_top_spec(first_visible: int) -> int {
    first_visible
}

/// The line `M` moves to: the middle of the visible area, at most the
/// last line.
pub open spec fn visible_middle_spec(first_visible: int, visible: int, count: int) -> int {
    let m = first_visible + visible / 2;
    if m < count - 1 { m } else { count - 1 }
}

/// The line `L` moves to: the last fully visible line, at most the last
/// line.
pub open spec fn visible_bottom_spec(last_visible: int, count: int) -> int {
    if last_visible < count - 1 { last_visible } else { count - 1 }
}

pub fn visible_middle(first_visible: i32, visible: i32, count: i32) -> (r: i32)
    requires
        0 <= first_visible,
        0 <= visible,
        first_visible + visible / 2 <= i32::MAX,
        0 < count,
    ensures
        r == visible_middle_spec(first_visible as int, visible as int, count as int),
{
    let m = first_visible + visible / 2;
    if m < count - 1 {
        m
    } else {
        count - 1
    }
}

pub fn visible_bottom(last_visible: i32, count: i32) -> (r: i32)
    requires
        0 < count,
    ensures
        r == visible_bottom_spec(last_visible as int, count as int),
{
    if last_visible < count - 1 {
        last_visible
    } else {
        count - 1
    }
}

/// Cursor line and new first visible line after scrolling down by `step`
/// lines (half a page or a page): the cursor moves by `step` (at most to
/// the last line); the view scrolls by `step` (at most so that the last
/// line is at the bottom), and only when that moves it down.
pub open spec fn page_down_spec(cur: int, first: int, visible: int, step: int, count: int) -> (int, Option<int>) {
    let target = if cur + step < count - 1 { cur + step } else { count - 1 };
    let new_first = if first + step < count - visible { first + step } else { count - visible };
    (target, if new_first > first { Some(if new_first > 0 { new_first } else { 0 }) } else { None })
}

/// Cursor line and new first visible line after scrolling up by `step`
/// lines: both move up by `step`, not above the first line.
pub open spec fn page_up_spec(cur: int, first: int, step: int) -> (int, Option<int>) {
    let target = if cur - step > 0 { cur - step } else { 0 };
    let new_first = if first - step > 0 { first - step } else { 0 };
    (target, if new_first < first { Some(new_first) } else { None })
}

/// `Ctrl+D` (`half`) and `Ctrl+F`.
pub fn page_down(cur: i32, first: i32, visible: i32, count: i32, half: bool) -> (r: (i32, Option<i32>))
    requires
        0 <= cur < count,
        0 <= first < count,
        0 <= visible <= count,
        cur + visible <= i32::MAX,
        first + visible <= i32::MAX,
    ensures
        ({
            let step: int = if half { visible / 2 } else { visible as int };
            let (t, f) = page_down_spec(cur as int, first as int, visible as int, step, count as int);
            &&& r.0 == t
            &&& (r.1 matches Some(x) ==> f == Some(x as int))
            &&& (r.1 is None ==> f is None)
        }),
{
    let step = if half {
        visible / 2
    } else {
        visible
    };
    let target = if cur + step < count - 1 {
        cur + step
    } else {
        count - 1
    };
    let new_first = if first + step < count - visible {
        first + step
    } else {
        count - visible
    };
    (target, if new_first > first {
        Some(
            if new_first > 0 {
                new_first
            } else {
                0
            },
        )
    } else {
        None
    })
}

/// `Ctrl+U` (`half`) and `Ctrl+B`.
pub fn page_up(cur: i32, first: i32, visible: i32, half: bool) -> (r: (i32, Option<i32>))
    requires
        0 <= cur,
        0 <= first,
        0 <= visible,
    ensures
        ({
            let step: int = if half { visible / 2 } else { visible as int };
            let (t, f) = page_up_spec(cur as int, first as int, step);
            &&& r.0 == t
            &&& (r.1 matches Some(x) ==> f == Some(x as int))
            &&& (r.1 is None ==> f is None)
        }),
{
    let step = if half {
        visible / 2
    } else {
        visible
    };
    let target = if cur - step > 0 {
        cur - step
    } else {
        0
    };
    let new_first = if first - step > 0 {
        first - step
    } else {
        0
    };
    (target, if new_first < first {
        Some(new_first)
    } else {
        None
    })
}

/// `Ctrl+Y`: the new first visible line, unless already at the top.
pub fn scroll_viewport_up(first: i32) -> (r: Option<i32>)
    ensures
        r == (if first > 0 { Some((first - 1) as i32) } else { None::<i32> }),
{
    if first > 0 {
        Some(first - 1)
    } else {
        None
    }
}

/// `Ctrl+E`: the new first visible line, unless the last line is already
/// at the top.
pub fn scroll_viewport_down(first: i32, count: i32) -> (r: Option<i32>)
    requires
        0 < count,
    ensures
        r == (if first < count - 1 { Some((first + 1) as i32) } else { None::<i32> }),
{
    if first < count - 1 {
        Some(first + 1)
    } else {
        None
    }
}

/// `Ctrl+D` then `Ctrl+U` away from both ends of the text brings the
/// cursor back to its line.
pub proof fn law_half_page_round_trip(cur: int, first: int, visible: int, count: int)
    requires
        0 <= visible,
        visible / 2 <= cur,
        cur + visible / 2 < count - 1,
    ensures
        page_up_spec(page_down_spec(cur, first, visible, visible / 2, count).0, first, visible / 2).0 == cur,
{
}

} // verus!
