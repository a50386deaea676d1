//! Reading text: lines, substrings and word prefixes.

use crate::chars::{occurs_at, occurs_at_exec, slice_of};
use crate::unicode::{is_word_char, is_word_char_exec};
use vstd::prelude::*;

verus! {

/// Index of the first `c` in `s` at or after `i`.
pub open spec fn index_of_from(s: Seq<char>, c: char, i: int) -> Option<int>
    decreases s.len() - i,
{
    if i < 0 || i >= s.len() {
        None
    } else if s[i] == c {
        Some(i)
    } else {
        index_of_from(s, c, i + 1)
    }
}

/// Index of the first `c` in `s`.
pub open spec fn index_of(s: Seq<char>, c: char) -> Option<int> {
    index_of_from(s, c, 0)
}

pub proof fn lemma_index_of_from(s: Seq<char>, c: char, i: int)
    requires
        0 <= i,
    ensures
        index_of_from(s, c, i) matches Some(j) ==> i <= j < s.len() && 0 <= j && s[j] == c,
        index_of_from(s, c, i) is None ==> forall|j: int| i <= j < s.len() && 0 <= j ==> s[j] != c,
    decreases s.len() - i,
{
    if 0 <= i < s.len() && s[i] != c {
        lemma_index_of_from(s, c, i + 1);
    }
}

/// Index of the first `c` in `v`.
pub fn index_of_exec(v: &Vec<char>, c: char) -> (r: Option<usize>)
    ensures
        r matches Some(i) ==> index_of(v@, c) == Some(i as int),
        r is None ==> index_of(v@, c) is None,
{
    let mut i: usize = 0;
    while i < v.len()
        invariant
            i <= v@.len(),
            index_of(v@, c) == index_of_from(v@, c, i as int),
        decreases v.len() - i,
    {
        if v[i] == c {
            return Some(i);
        }
        i = i + 1;
    }
    None
}

/// A line without a carriage return at its end.
pub open spec fn without_cr(l: Seq<char>) -> Seq<char> {
    if l.len() > 0 && l.last() == '\r' {
        l.drop_last()
    } else {
        l
    }
}

/// The lines of a text as `str::lines` yields them: split at line feeds,
/// a carriage return before a line feed dropped, no empty last line.
pub open spec fn lines_of(s: Seq<char>) -> Seq<Seq<char>>
    decreases s.len(),
{
    if s.len() == 0 {
        Seq::empty()
    } else {
        match index_of(s, '\n') {
            None => seq![s],
            Some(i) => if 0 <= i < s.len() {
                seq![without_cr(s.subrange(0, i))] + lines_of(s.subrange(i + 1, s.len() as int))
            } else {
                Seq::empty()
            },
        }
    }
}

fn without_cr_exec(v: &Vec<char>) -> (r: Vec<char>)
    ensures
        r@ == without_cr(v@),
{
    if v.len() > 0 && v[v.len() - 1] == '\r' {
        slice_of(v, 0, v.len() - 1)
    } else {
        slice_of(v, 0, v.len())
    }
}

pub open spec fn texts_view(v: Seq<Vec<char>>) -> Seq<Seq<char>> {
    v.map_values(|x: Vec<char>| x@)
}

/// The lines of a text (`str::lines`).
pub fn lines_exec(v: &Vec<char>) -> (r: Vec<Vec<char>>)
    ensures
        texts_view(r@) == lines_of(v@),
{
    let mut out: Vec<Vec<char>> = Vec::new();
    let mut rest = slice_of(v, 0, v.len());
    assert(rest@ =~= v@);
    while rest.len() > 0
        invariant
            lines_of(v@) == texts_view(out@) + lines_of(rest@),
        decreases rest.len(),
    {
        match index_of_exec(&rest, '\n') {
            None => {
                proof {
                    assert(texts_view(out@.push(rest)) =~= texts_view(out@).push(rest@));
                    assert(lines_of(rest@) == seq![rest@]);
                }
                out.push(rest);
                assert(lines_of(v@) == texts_view(out@));
                return out;
            },
            Some(i) => {
                proof {
                    lemma_index_of_from(rest@, '\n', 0);
                }
                let line = without_cr_exec(&slice_of(&rest, 0, i));
                let tail = slice_of(&rest, i + 1, rest.len());
                proof {
                    assert(texts_view(out@.push(line)) =~= texts_view(out@).push(line@));
                    assert(texts_view(out@).push(line@) + lines_of(tail@) =~= texts_view(out@) + (
                    seq![line@] + lines_of(tail@)));
                }
                out.push(line);
                rest = tail;
            },
        }
    }
    assert(lines_of(rest@) =~= Seq::<Seq<char>>::empty());
    assert(texts_view(out@) + Seq::<Seq<char>>::empty() =~= texts_view(out@));
    out
}

/// `s` contains `p` (`str::contains`).
pub open spec fn contains(s: Seq<char>, p: Seq<char>) -> bool {
    exists|i: int| occurs_at(s, i, p)
}

/// First position where `p` occurs in `s` at or after `i`.
pub open spec fn find_from(s: Seq<char>, p: Seq<char>, i: int) -> Option<int>
    decreases s.len() + 1 - i,
{
    if i < 0 || i > s.len() {
        None
    } else if occurs_at(s, i, p) {
        Some(i)
    } else {
        find_from(s, p, i + 1)
    }
}

/// First position of `p` in `s` (`str::find`).
pub open spec fn find(s: Seq<char>, p: Seq<char>) -> Option<int> {
    find_from(s, p, 0)
}

pub proof fn lemma_find_from(s: Seq<char>, p: Seq<char>, i: int)
    requires
        0 <= i,
    ensures
        find_from(s, p, i) matches Some(j) ==> i <= j && occurs_at(s, j, p),
        find_from(s, p, i) is None ==> forall|j: int| i <= j ==> !occurs_at(s, j, p),
    decreases s.len() + 1 - i,
{
    if i <= s.len() && !occurs_at(s, i, p) {
        lemma_find_from(s, p, i + 1);
    }
}

pub proof fn lemma_find_contains(s: Seq<char>, p: Seq<char>)
    ensures
        find(s, p) is Some <==> contains(s, p),
{
    lemma_find_from(s, p, 0);
    if contains(s, p) {
        let i = choose|i: int| occurs_at(s, i, p);
        assert(occurs_at(s, i, p));
    }
}

/// First position of `p` in `v`.
pub fn find_exec(v: &Vec<char>, p: &Vec<char>) -> (r: Option<usize>)
    ensures
        r matches Some(i) ==> find(v@, p@) == Some(i as int),
        r is None ==> find(v@, p@) is None,
{
    let mut i: usize = 0;
    while i < v.len()
        invariant
            i <= v@.len(),
            find(v@, p@) == find_from(v@, p@, i as int),
        decreases v.len() - i,
    {
        if occurs_at_exec(v, i, p) {
            return Some(i);
        }
        i = i + 1;
    }
    if occurs_at_exec(v, i, p) {
        return Some(i);
    }
    assert(find_from(v@, p@, i + 1) is None);
    None
}

/// Whether `v` contains `p`.
pub fn contains_exec(v: &Vec<char>, p: &Vec<char>) -> (b: bool)
    ensures
        b == contains(v@, p@),
{
    proof {
        lemma_find_contains(v@, p@);
    }
    find_exec(v, p).is_some()
}

/// Length of the run of word characters at the start of `s`.
pub open spec fn word_len(s: Seq<char>) -> nat
    decreases s.len(),
{
    if s.len() > 0 && is_word_char(s[0]) {
        1 + word_len(s.subrange(1, s.len() as int))
    } else {
        0
    }
}

/// The word characters at the start of `s`
/// (`chars().take_while(|c| c.is_alphanumeric() || c == '_')`).
pub open spec fn word_prefix(s: Seq<char>) -> Seq<char> {
    s.subrange(0, word_len(s) as int)
}

pub proof fn lemma_word_len(s: Seq<char>)
    ensures
        word_len(s) <= s.len(),
    decreases s.len(),
{
    if s.len() > 0 && is_word_char(s[0]) {
        lemma_word_len(s.subrange(1, s.len() as int));
    }
}

/// The word characters at the start of `v[from..]`.
pub fn word_prefix_from(v: &Vec<char>, from: usize) -> (r: Vec<char>)
    requires
        from <= v.len(),
    ensures
        r@ == word_prefix(v@.subrange(from as int, v@.len() as int)),
{
    let n = v.len();
    let ghost s = v@.subrange(from as int, n as int);
    let mut i = from;
    assert(v@.subrange(from as int, n as int) =~= s);
    while i < n && is_word_char_exec(v[i])
        invariant
            from <= i <= n,
            n == v@.len(),
            s == v@.subrange(from as int, n as int),
            word_len(s) == (i - from) + word_len(v@.subrange(i as int, n as int)),
        decreases n - i,
    {
        assert(v@.subrange(i as int, n as int).subrange(1, (n - i) as int) =~= v@.subrange(i + 1, n as int));
        i = i + 1;
    }
    assert(word_len(v@.subrange(i as int, n as int)) == 0);
    let r = slice_of(v, from, i);
    assert(r@ =~= s.subrange(0, word_len(s) as int));
    r
}

/// `s` starts with `p`.
pub open spec fn starts_with(s: Seq<char>, p: Seq<char>) -> bool {
    p.len() <= s.len() && s.subrange(0, p.len() as int) == p
}

/// `s` ends with `p`.
pub open spec fn ends_with(s: Seq<char>, p: Seq<char>) -> bool {
    p.len() <= s.len() && s.subrange(s.len() - p.len(), s.len() as int) == p
}

/// Lines joined with line feeds between them (`lines.join("\n")`).
pub open spec fn joined(ls: Seq<Seq<char>>) -> Seq<char>
    decreases ls.len(),
{
    if ls.len() == 0 {
        Seq::empty()
    } else if ls.len() == 1 {
        ls[0]
    } else {
        joined(ls.drop_last()) + seq!['\n'] + ls.last()
    }
}

pub open spec fn strings_view(v: Seq<String>) -> Seq<Seq<char>> {
    v.map_values(|s: String| s@)
}

/// The lines joined with line feeds.
pub fn join_lines_exec(v: &Vec<String>) -> (r: Vec<char>)
    ensures
        r@ == joined(strings_view(v@)),
{
    let mut r: Vec<char> = Vec::new();
    let mut i: usize = 0;
    while i < v.len()
        invariant
            i <= v@.len(),
            r@ == joined(strings_view(v@).take(i as int)),
        decreases v.len() - i,
    {
        let ghost t = strings_view(v@).take(i + 1);
        assert(t.drop_last() =~= strings_view(v@).take(i as int));
        let line = crate::chars::chars_of(v[i].as_str());
        if i == 0 {
            r = line;
            assert(t =~= seq![v@[0]@]);
        } else {
            r.push('\n');
            r = crate::chars::concat(&r, &line);
        }
        i = i + 1;
    }
    assert(strings_view(v@).take(i as int) =~= strings_view(v@));
    r
}

} // verus!
