//! What the editor remembers between commands: marks, named registers,
//! recorded macros and the jump list.
//!
//! Marks, registers and macros are keyed by the code of their name
//! character (`a`-`z`).

use crate::chars::{concat, slice_of};
use crate::motions::{
    clamp_position, clamp_spec, first_non_blank, first_non_blank_spec, lemma_lines_view_push, lines_view,
};
use crate::unicode::{lemma_utf8_len_ge, utf8_len, utf8_len_exec};
use std::collections::HashMap;
use vstd::prelude::*;

verus! {

broadcast use vstd::std_specs::hash::group_hash_axioms;

/// Marks, registers and macros.
pub struct VimStore {
    /// Mark name -> (line, column).
    pub marks: HashMap<u32, (i32, i32)>,
    /// Register name -> text (a yanked line ends with a line feed).
    pub registers: HashMap<u32, Vec<char>>,
    /// Register name -> recorded keys.
    pub macros: HashMap<u32, Vec<Vec<char>>>,
    /// The macro played last (for `@@`).
    pub last_macro: Option<char>,
}

impl VimStore {
    pub fn new() -> (s: VimStore)
        ensures
            s.marks@ == Map::<u32, (i32, i32)>::empty(),
            s.registers@ == Map::<u32, Vec<char>>::empty(),
            s.macros@ == Map::<u32, Vec<Vec<char>>>::empty(),
            s.last_macro is None,
    {
        VimStore {
            marks: HashMap::new(),
            registers: HashMap::new(),
            macros: HashMap::new(),
            last_macro: None,
        }
    }
}

/// `m{c}`: remember the cursor position under the mark.
pub fn set_mark(store: &mut VimStore, mark: char, line: i32, col: i32)
    ensures
        final(store).marks@ == old(store).marks@.insert(mark as u32, (line, col)),
        final(store).registers@ == old(store).registers@,
        final(store).macros@ == old(store).macros@,
        final(store).last_macro == old(store).last_macro,
{
    store.marks.insert(mark as u32, (line, col));
}

/// The position remembered under a mark.
pub fn get_mark(store: &VimStore, mark: char) -> (r: Option<(i32, i32)>)
    ensures
        r matches Some(p) ==> store.marks@.contains_key(mark as u32) && store.marks@[mark as u32] == p,
        r is None ==> !store.marks@.contains_key(mark as u32),
{
    let key: u32 = mark as u32;
    match store.marks.get(&key) {
        Some(p) => Some(*p),
        None => None,
    }
}

/// Where `'{c}` goes: the mark's line (brought into the text) at its first
/// non-blank character.
pub open spec fn mark_line_target(ls: Seq<Seq<char>>, mark: (i32, i32)) -> (int, int) {
    let l = clamp_spec(ls, mark.0 as int, mark.1 as int).0;
    (l, if 0 <= l < ls.len() { first_non_blank_spec(ls[l]) } else { 0 })
}

/// `'{c}`: the cursor position for the mark, when it is set.
pub fn jump_to_mark_line(store: &VimStore, mark: char, lines: &Vec<Vec<char>>) -> (r: Option<(i32, usize)>)
    requires
        0 < lines.len() <= i32::MAX,
        forall|i: int| 0 <= i < lines@.len() ==> #[trigger] lines@[i]@.len() <= i32::MAX,
    ensures
        r matches Some(p) ==> store.marks@.contains_key(mark as u32) && mark_line_target(
            lines_view(lines@),
            store.marks@[mark as u32],
        ) == (p.0 as int, p.1 as int),
        r is None ==> !store.marks@.contains_key(mark as u32),
{
    match get_mark(store, mark) {
        None => None,
        Some((line, col)) => {
            let (l, _) = clamp_position(lines, line, col);
            let c = if 0 <= l {
                first_non_blank(&lines[l as usize])
            } else {
                0
            };
            Some((l, c))
        },
    }
}

/// `` `{c} ``: the mark's exact position brought into the text, when it is
/// set.
pub fn jump_to_mark_position(store: &VimStore, mark: char, lines: &Vec<Vec<char>>) -> (r: Option<(i32, i32)>)
    requires
        0 < lines.len() <= i32::MAX,
        forall|i: int| 0 <= i < lines@.len() ==> #[trigger] lines@[i]@.len() <= i32::MAX,
    ensures
        r matches Some(p) ==> store.marks@.contains_key(mark as u32) && clamp_spec(
            lines_view(lines@),
            store.marks@[mark as u32].0 as int,
            store.marks@[mark as u32].1 as int,
        ) == (p.0 as int, p.1 as int),
        r is None ==> !store.marks@.contains_key(mark as u32),
{
    match get_mark(store, mark) {
        None => None,
        Some((line, col)) => Some(clamp_position(lines, line, col)),
    }
}

/// A mark jumps back to where it was set, while the text still holds that
/// position.
pub proof fn law_mark_round_trip(ls: Seq<Seq<char>>, line: i32, col: i32)
    requires
        0 <= line < ls.len(),
        0 <= col <= ls[line as int].len(),
    ensures
        clamp_spec(ls, line as int, col as int) == (line as int, col as int),
{
}

// ---------------------------------------------------------------------
// Macros
// ---------------------------------------------------------------------

/// Store a finished recording under its register.
pub fn store_macro(store: &mut VimStore, register: char, keys: Vec<Vec<char>>)
    ensures
        final(store).macros@ == old(store).macros@.insert(register as u32, keys),
        final(store).marks@ == old(store).marks@,
        final(store).registers@ == old(store).registers@,
        final(store).last_macro == old(store).last_macro,
{
    store.macros.insert(register as u32, keys);
}

fn copy_text(v: &Vec<char>) -> (r: Vec<char>)
    ensures
        r@ == v@,
{
    let r = slice_of(v, 0, v.len());
    assert(r@ =~= v@);
    r
}

/// `@{c}`: the keys to send, when the register holds a non-empty macro;
/// the register then becomes the last one played.
pub fn play_macro(store: &mut VimStore, register: char) -> (r: Option<Vec<Vec<char>>>)
    ensures
        final(store).macros@ == old(store).macros@,
        final(store).marks@ == old(store).marks@,
        final(store).registers@ == old(store).registers@,
        ({
            let k = register as u32;
            if old(store).macros@.contains_key(k) && old(store).macros@[k].len() > 0 {
                &&& r matches Some(keys) && lines_view(keys@) == lines_view(old(store).macros@[k]@)
                &&& final(store).last_macro == Some(register)
            } else {
                &&& r is None
                &&& final(store).last_macro == old(store).last_macro
            }
        }),
{
    let key: u32 = register as u32;
    let keys = match store.macros.get(&key) {
        Some(k) => k,
        None => {
            return None;
        },
    };
    if keys.len() == 0 {
        return None;
    }
    let mut out: Vec<Vec<char>> = Vec::new();
    let mut i: usize = 0;
    while i < keys.len()
        invariant
            i <= keys@.len(),
            lines_view(out@) == lines_view(keys@.subrange(0, i as int)),
        decreases keys.len() - i,
    {
        let c = copy_text(&keys[i]);
        proof {
            lemma_lines_view_push(out@, c);
        }
        out.push(c);
        i = i + 1;
        assert(lines_view(out@) =~= lines_view(keys@.subrange(0, i as int)));
    }
    assert(keys@.subrange(0, i as int) =~= keys@);
    store.last_macro = Some(register);
    Some(out)
}

/// `@@`: play the macro played last, when there is one.
pub fn replay_last_macro(store: &mut VimStore) -> (r: Option<Vec<Vec<char>>>)
    ensures
        final(store).macros@ == old(store).macros@,
        old(store).last_macro is None ==> r is None && final(store).last_macro is None,
        old(store).last_macro matches Some(reg) ==> {
            let k = reg as u32;
            if old(store).macros@.contains_key(k) && old(store).macros@[k].len() > 0 {
                r matches Some(keys) && lines_view(keys@) == lines_view(old(store).macros@[k]@)
            } else {
                r is None
            }
        },
        final(store).last_macro == old(store).last_macro,
{
    match store.last_macro {
        Some(reg) => play_macro(store, reg),
        None => None,
    }
}

// ---------------------------------------------------------------------
// Named registers
// ---------------------------------------------------------------------

/// Every line feed of the text comes after all its other characters (a
/// line, then line feeds).
pub open spec fn line_feeds_last(s: Seq<char>) -> bool {
    forall|i: int, j: int| 0 <= i < j < s.len() && s[i] == '\n' ==> #[trigger] s[j] == '\n' || !(#[trigger] s[i] == '\n')
}

/// No line holds a line feed.
pub open spec fn no_line_feeds(ls: Seq<Seq<char>>) -> bool {
    forall|i: int, j: int| 0 <= i < ls.len() && 0 <= j < ls[i].len() ==> #[trigger] ls[i][j] != '\n'
}

/// Every register holds a line followed by line feeds, or text without
/// line feeds.
pub open spec fn registers_ok(regs: Map<u32, Vec<char>>) -> bool {
    forall|k: u32| #[trigger] regs.contains_key(k) ==> line_feeds_last(regs[k]@)
}

/// `"{c}yy`: the cursor line and a line feed go into the register.
pub fn yank_line_to_register(store: &mut VimStore, register: char, line: &Vec<char>)
    requires
        forall|j: int| 0 <= j < line@.len() ==> line@[j] != '\n',
    ensures
        final(store).registers@.contains_key(register as u32),
        final(store).registers@[register as u32]@ == line@.push('\n'),
        forall|k: u32| k != register as u32 ==> #[trigger] final(store).registers@.contains_key(k)
            == old(store).registers@.contains_key(k) && (old(store).registers@.contains_key(k)
            ==> final(store).registers@[k] == old(store).registers@[k]),
        line_feeds_last(final(store).registers@[register as u32]@),
        final(store).marks@ == old(store).marks@,
        final(store).macros@ == old(store).macros@,
        final(store).last_macro == old(store).last_macro,
{
    let mut t = copy_text(line);
    t.push('\n');
    assert(line_feeds_last(t@)) by {
        assert forall|i: int, j: int| 0 <= i < j < t@.len() && t@[i] == '\n' implies #[trigger] t@[j] == '\n' || !(#[trigger] t@[i] == '\n') by {
            if i < line@.len() {
                assert(t@[i] == line@[i]);
            }
        }
    }
    store.registers.insert(register as u32, t);
}

/// The lines after `dd` on line `idx`, and the cursor (line, column): the
/// line goes and the cursor stays on that index (or the new last line) at
/// its first non-blank; deleting the only line leaves one empty line.
pub open spec fn delete_line_spec(ls: Seq<Seq<char>>, idx: int) -> (Seq<Seq<char>>, int, int) {
    if ls.len() > 1 {
        let t = ls.remove(idx);
        let l = if idx < t.len() - 1 { idx } else { t.len() - 1 };
        (t, l, first_non_blank_spec(t[l]))
    } else {
        (seq![Seq::<char>::empty()], 0, 0)
    }
}

/// `"{c}dd`: the cursor line and a line feed go into the register; returns
/// the new lines (to be set as the editor's text, joined with line
/// feeds) and the cursor.
pub fn delete_line_to_register(store: &mut VimStore, register: char, lines: &Vec<Vec<char>>, idx: usize) -> (r: (Vec<Vec<char>>, usize, usize))
    requires
        idx < lines.len(),
        no_line_feeds(lines_view(lines@)),
    ensures
        (lines_view(r.0@), r.1 as int, r.2 as int) == delete_line_spec(lines_view(lines@), idx as int),
        final(store).registers@.contains_key(register as u32),
        final(store).registers@[register as u32]@ == lines@[idx as int]@.push('\n'),
        forall|k: u32| k != register as u32 ==> #[trigger] final(store).registers@.contains_key(k)
            == old(store).registers@.contains_key(k) && (old(store).registers@.contains_key(k)
            ==> final(store).registers@[k] == old(store).registers@[k]),
        line_feeds_last(final(store).registers@[register as u32]@),
        final(store).marks@ == old(store).marks@,
        final(store).macros@ == old(store).macros@,
        final(store).last_macro == old(store).last_macro,
{
    let ghost lv = lines_view(lines@);
    assert(forall|j: int| 0 <= j < lines@[idx as int]@.len() ==> lines@[idx as int]@[j] != '\n') by {
        assert forall|j: int| 0 <= j < lines@[idx as int]@.len() implies lines@[idx as int]@[j] != '\n' by {
            assert(lv[idx as int][j] != '\n');
        }
    }
    yank_line_to_register(store, register, &lines[idx]);
    let n = lines.len();
    if n > 1 {
        let mut t: Vec<Vec<char>> = Vec::new();
        let mut i: usize = 0;
        while i < n
            invariant
                lv == lines_view(lines@),
                n == lines@.len(),
                idx < n,
                i <= n,
                lines_view(t@) == (if i <= idx { lv.subrange(0, i as int) } else { lv.subrange(0, idx as int) + lv.subrange(idx + 1, i as int) }),
            decreases n - i,
        {
            if i != idx {
                let c = copy_text(&lines[i]);
                proof {
                    lemma_lines_view_push(t@, c);
                }
                t.push(c);
            }
            i = i + 1;
            proof {
                if i <= idx {
                    assert(lines_view(t@) =~= lv.subrange(0, i as int));
                } else {
                    assert(lines_view(t@) =~= lv.subrange(0, idx as int) + lv.subrange(idx + 1, i as int));
                }
            }
        }
        assert(lines_view(t@) =~= lv.remove(idx as int));
        let last = t.len() - 1;
        let l = if idx < last {
            idx
        } else {
            last
        };
        let c = first_non_blank(&t[l]);
        (t, l, c)
    } else {
        let mut t: Vec<Vec<char>> = Vec::new();
        t.push(Vec::new());
        assert(lines_view(t@) =~= seq![Seq::<char>::empty()]);
        (t, 0, 0)
    }
}

/// `s` without all its final line feeds (`trim_end_matches('\n')`).
pub open spec fn without_final_line_feeds(s: Seq<char>) -> Seq<char>
    decreases s.len(),
{
    if s.len() > 0 && s.last() == '\n' {
        without_final_line_feeds(s.drop_last())
    } else {
        s
    }
}

/// What pasting the text `content` from a register does to the lines,
/// with the cursor at (`idx`, `col`); `before` for `P`.  A text ending
/// with a line feed is pasted as a line below (or above) the cursor line,
/// the cursor on its first non-blank; other text is put after (before)
/// the cursor in its line, the cursor on the last byte pasted.
pub open spec fn paste_spec(ls: Seq<Seq<char>>, idx: int, col: int, content: Seq<char>, before: bool) -> (Seq<Seq<char>>, int, int) {
    if content.len() > 0 && content.last() == '\n' {
        let p = without_final_line_feeds(content);
        let at = if before { idx } else { idx + 1 };
        (ls.insert(at, p), at, first_non_blank_spec(p))
    } else {
        let s = ls[idx];
        let want = if before { col } else { col + 1 };
        let pos = if want < s.len() { want } else { s.len() as int };
        (ls.update(idx, s.subrange(0, pos) + content + s.subrange(pos, s.len() as int)), idx, pos + utf8_len(content) - 1)
    }
}

proof fn lemma_without_final_line_feeds(s: Seq<char>)
    requires
        line_feeds_last(s),
    ensures
        forall|j: int| 0 <= j < without_final_line_feeds(s).len() ==> without_final_line_feeds(s)[j] != '\n',
        without_final_line_feeds(s).len() <= s.len(),
        without_final_line_feeds(s) == s.subrange(0, without_final_line_feeds(s).len() as int),
    decreases s.len(),
{
    if s.len() > 0 && s.last() == '\n' {
        let t = s.drop_last();
        assert(line_feeds_last(t)) by {
            assert forall|i: int, j: int| 0 <= i < j < t.len() && t[i] == '\n' implies #[trigger] t[j] == '\n' || !(#[trigger] t[i] == '\n') by {
                assert(s[i] == t[i] && s[j] == t[j]);
            }
        }
        lemma_without_final_line_feeds(t);
        assert(t.subrange(0, without_final_line_feeds(t).len() as int) =~= s.subrange(0, without_final_line_feeds(t).len() as int));
    } else {
        assert forall|j: int| 0 <= j < s.len() implies s[j] != '\n' by {
            if s[j] == '\n' {
                assert(s.last() == '\n' || !(s[j] == '\n'));
            }
        }
        assert(s.subrange(0, s.len() as int) =~= s);
    }
}

/// `"{c}p` (and `"{c}P` when `before`): the new lines and the cursor
/// (line, column), when the register holds text.
pub fn paste_from_register(store: &VimStore, register: char, lines: &Vec<Vec<char>>, idx: usize, col: usize, before: bool) -> (r: Option<(Vec<Vec<char>>, usize, i32)>)
    requires
        idx < lines.len(),
        col <= lines@[idx as int]@.len(),
        registers_ok(store.registers@),
        store.registers@.contains_key(register as u32) ==> lines@[idx as int]@.len()
            + utf8_len(store.registers@[register as u32]@) < i32::MAX,
    ensures
        r is None ==> !store.registers@.contains_key(register as u32),
        r matches Some(p) ==> store.registers@.contains_key(register as u32) && paste_spec(
            lines_view(lines@),
            idx as int,
            col as int,
            store.registers@[register as u32]@,
            before,
        ) == (lines_view(p.0@), p.1 as int, p.2 as int),
        r matches Some(p) ==> (no_line_feeds(lines_view(lines@)) ==> no_line_feeds(lines_view(p.0@))),
{
    let key: u32 = register as u32;
    let content = match store.registers.get(&key) {
        Some(c) => c,
        None => {
            return None;
        },
    };
    let ghost lv = lines_view(lines@);
    let n = lines.len();
    if content.len() > 0 && content[content.len() - 1] == '\n' {
        let mut e = content.len();
        assert(content@.subrange(0, e as int) =~= content@);
        while e > 0 && content[e - 1] == '\n'
            invariant
                e <= content@.len(),
                without_final_line_feeds(content@) == without_final_line_feeds(content@.subrange(0, e as int)),
            decreases e,
        {
            assert(content@.subrange(0, e as int).drop_last() =~= content@.subrange(0, e - 1));
            e = e - 1;
        }
        let p = slice_of(content, 0, e);
        assert(without_final_line_feeds(content@.subrange(0, e as int)) == content@.subrange(0, e as int));
        proof {
            lemma_without_final_line_feeds(content@);
        }
        let at = if before {
            idx
        } else {
            idx + 1
        };
        let c = first_non_blank(&p);
        proof {
            lemma_utf8_len_ge(content@);
        }
        assert(c <= content@.len());
        let mut t: Vec<Vec<char>> = Vec::new();
        let mut i: usize = 0;
        while i < n
            invariant
                lv == lines_view(lines@),
                n == lines@.len(),
                at <= n,
                i <= n,
                lines_view(t@) == (if i <= at { lv.subrange(0, i as int) } else { lv.insert(at as int, p@).subrange(0, i + 1) }),
            decreases n - i,
        {
            if i == at {
                let c0 = copy_text(&p);
                proof {
                    lemma_lines_view_push(t@, c0);
                }
                t.push(c0);
            }
            let c1 = copy_text(&lines[i]);
            proof {
                lemma_lines_view_push(t@, c1);
            }
            t.push(c1);
            i = i + 1;
            proof {
                if i <= at {
                    assert(lines_view(t@) =~= lv.subrange(0, i as int));
                } else {
                    assert(lines_view(t@) =~= lv.insert(at as int, p@).subrange(0, i + 1));
                }
            }
        }
        if at == n {
            let c2 = copy_text(&p);
            proof {
                lemma_lines_view_push(t@, c2);
            }
            t.push(c2);
        }
        assert(lines_view(t@) =~= lv.insert(at as int, p@));
        proof {
            if no_line_feeds(lv) {
                let u = lv.insert(at as int, p@);
                assert forall|a: int, b: int| 0 <= a < u.len() && 0 <= b < u[a].len() implies #[trigger] u[a][b] != '\n' by {
                    if a < at {
                        assert(u[a] == lv[a]);
                    } else if a > at {
                        assert(u[a] == lv[a - 1]);
                    }
                }
            }
        }
        Some((t, at, c as i32))
    } else {
        let s = &lines[idx];
        let want = if before {
            col
        } else {
            col + 1
        };
        let pos = if want < s.len() {
            want
        } else {
            s.len()
        };
        let head = slice_of(s, 0, pos);
        let tail = slice_of(s, pos, s.len());
        let newline = concat(&concat(&head, content), &tail);
        let bytes = match utf8_len_exec(content) {
            Some(b) => b,
            None => 0,
        };
        let ghost nl = newline@;
        let mut t: Vec<Vec<char>> = Vec::new();
        let mut i: usize = 0;
        while i < n
            invariant
                lv == lines_view(lines@),
                n == lines@.len(),
                idx < n,
                nl == newline@,
                i <= n,
                lines_view(t@) == lv.update(idx as int, nl).subrange(0, i as int),
            decreases n - i,
        {
            let c = if i == idx {
                copy_text(&newline)
            } else {
                copy_text(&lines[i])
            };
            proof {
                lemma_lines_view_push(t@, c);
            }
            t.push(c);
            i = i + 1;
            assert(lines_view(t@) =~= lv.update(idx as int, nl).subrange(0, i as int));
        }
        assert(lines_view(t@) =~= lv.update(idx as int, nl));
        proof {
            if no_line_feeds(lv) {
                let u = lv.update(idx as int, nl);
                assert(forall|j: int| 0 <= j < content@.len() ==> content@[j] != '\n') by {
                    assert(store.registers@.contains_key(key));
                    assert(line_feeds_last(content@));
                    assert forall|j: int| 0 <= j < content@.len() implies content@[j] != '\n' by {
                        if content@[j] == '\n' && j < content@.len() - 1 {
                            assert(content@.last() == '\n' || !(content@[j] == '\n'));
                        }
                    }
                }
                assert forall|a: int, b: int| 0 <= a < u.len() && 0 <= b < u[a].len() implies #[trigger] u[a][b] != '\n' by {
                    if a == idx {
                        let sv = lv[idx as int];
                        if b < pos {
                            assert(nl[b] == sv[b]);
                        } else if b < pos + content@.len() {
                            assert(nl[b] == content@[b - pos]);
                        } else {
                            assert(nl[b] == sv[b - content@.len()]);
                        }
                    }
                }
            }
        }
        Some((t, idx, (pos as i32) + (bytes as i32) - 1))
    }
}

/// Yanking a line and pasting it below (`yy` then `p`) repeats the line
/// under itself, the cursor on the copy.
pub proof fn law_yank_paste_duplicates(ls: Seq<Seq<char>>, idx: int, col: int)
    requires
        0 <= idx < ls.len(),
        forall|j: int| 0 <= j < ls[idx].len() ==> ls[idx][j] != '\n',
    ensures
        paste_spec(ls, idx, col, ls[idx].push('\n'), false).0 == ls.insert(idx + 1, ls[idx]),
        paste_spec(ls, idx, col, ls[idx].push('\n'), false).1 == idx + 1,
{
    let s = ls[idx].push('\n');
    assert(s.drop_last() =~= ls[idx]);
    if ls[idx].len() > 0 {
        assert(ls[idx].last() != '\n');
    }
    assert(without_final_line_feeds(ls[idx]) == ls[idx]);
    assert(without_final_line_feeds(s) == without_final_line_feeds(ls[idx]));
}

/// Deleting a line that is not the last and pasting it above (`dd` then
/// `P`) gives back the text.
pub proof fn law_delete_paste_restores(ls: Seq<Seq<char>>, idx: int, col: int)
    requires
        0 <= idx < ls.len() - 1,
        forall|j: int| 0 <= j < ls[idx].len() ==> ls[idx][j] != '\n',
    ensures
        ({
            let (t, l, _c) = delete_line_spec(ls, idx);
            paste_spec(t, l, col, ls[idx].push('\n'), true).0 == ls
        }),
{
    let s = ls[idx].push('\n');
    assert(s.drop_last() =~= ls[idx]);
    if ls[idx].len() > 0 {
        assert(ls[idx].last() != '\n');
    }
    assert(without_final_line_feeds(ls[idx]) == ls[idx]);
    assert(without_final_line_feeds(s) == without_final_line_feeds(ls[idx]));
    let t = ls.remove(idx);
    assert(t.insert(idx, ls[idx]) =~= ls);
}

} // verus!
