//! The listings printed by `:marks`, `:registers`, `:jumps` and `:ls`.

use crate::chars::{chars_of, concat, string_of};
use crate::help::{after_last, after_last_exec};
use crate::numbers::{decimal, u64_decimal};
use crate::jumps::{jumps_wf, JumpList};
use crate::keys::{char_from_u32, is_scalar};
use crate::numbers::{signed_decimal, i64_decimal};
use crate::store::VimStore;
use crate::unicode::{utf8_len, utf8_len_exec, utf8_width};
use std::collections::HashMap;
use vstd::prelude::*;
use vstd::std_specs::hash::spec_keys_iter;
use vstd::std_specs::iter::IteratorSpec;

verus! {

broadcast use vstd::std_specs::hash::group_hash_axioms;

// ---------------------------------------------------------------------
// Keys in order
// ---------------------------------------------------------------------

/// Each element is smaller than every later one.
pub open spec fn ascending(s: Seq<u32>) -> bool {
    forall|i: int, j: int| 0 <= i < j < s.len() ==> s[i] < s[j]
}

/// The keys of a finite set in increasing order.
pub open spec fn in_order(keys: Set<u32>) -> Seq<u32> {
    choose|s: Seq<u32>| ascending(s) && s.to_set() == keys
}

/// Two ascending sequences with the same elements are the same.
pub proof fn lemma_ascending_unique(a: Seq<u32>, b: Seq<u32>)
    requires
        ascending(a),
        ascending(b),
        a.to_set() == b.to_set(),
    ensures
        a == b,
    decreases a.len(),
{
    if a.len() == 0 {
        if b.len() > 0 {
            assert(b.to_set().contains(b[0]));
        }
        assert(a =~= b);
    } else {
        assert(a.to_set().contains(a[0]));
        assert(b.len() > 0);
        assert(b.to_set().contains(b[0]));
        // Both first elements are the smallest element of the set.
        let ja = choose|j: int| 0 <= j < a.len() && a[j] == b[0];
        let jb = choose|j: int| 0 <= j < b.len() && b[j] == a[0];
        assert(a.contains(b[0]));
        assert(b.contains(a[0]));
        assert(a[0] == b[0]);
        let a1 = a.drop_first();
        let b1 = b.drop_first();
        assert(a1.to_set() =~= b1.to_set()) by {
            assert forall|x: u32| a1.to_set().contains(x) implies b1.to_set().contains(x) by {
                let i = choose|i: int| 0 <= i < a1.len() && a1[i] == x;
                assert(a[i + 1] == x);
                assert(a.contains(x));
                assert(a.to_set().contains(x));
                assert(b.contains(x));
                let j = choose|j: int| 0 <= j < b.len() && b[j] == x;
                assert(j != 0);
                assert(b1[j - 1] == x);
            }
            assert forall|x: u32| b1.to_set().contains(x) implies a1.to_set().contains(x) by {
                let i = choose|i: int| 0 <= i < b1.len() && b1[i] == x;
                assert(b[i + 1] == x);
                assert(b.contains(x));
                assert(b.to_set().contains(x));
                assert(a.contains(x));
                let j = choose|j: int| 0 <= j < a.len() && a[j] == x;
                assert(j != 0);
                assert(a1[j - 1] == x);
            }
        }
        lemma_ascending_unique(a1, b1);
        assert(a =~= b) by {
            assert forall|i: int| 0 <= i < a.len() implies a[i] == b[i] by {
                if i > 0 {
                    assert(a[i] == a1[i - 1]);
                    assert(b[i] == b1[i - 1]);
                }
            }
        }
    }
}

/// An ascending sequence is the keys of its elements in order.
pub proof fn lemma_in_order(s: Seq<u32>)
    requires
        ascending(s),
    ensures
        in_order(s.to_set()) == s,
{
    let t = in_order(s.to_set());
    assert(ascending(s) && s.to_set() == s.to_set());
    lemma_ascending_unique(t, s);
}

proof fn lemma_push_to_set(s: Seq<u32>, x: u32)
    ensures
        s.push(x).to_set() == s.to_set().insert(x),
{
    assert forall|y: u32| s.push(x).to_set().contains(y) implies s.to_set().insert(x).contains(y) by {
        let j = choose|j: int| 0 <= j < s.push(x).len() && s.push(x)[j] == y;
        if j < s.len() {
            assert(s[j] == y);
            assert(s.contains(y));
        }
    }
    assert forall|y: u32| s.to_set().insert(x).contains(y) implies s.push(x).to_set().contains(y) by {
        if y == x {
            assert(s.push(x)[s.len() as int] == x);
            assert(s.push(x).contains(x));
        } else {
            assert(s.contains(y));
            let j = choose|j: int| 0 <= j < s.len() && s[j] == y;
            assert(s.push(x)[j] == y);
            assert(s.push(x).contains(y));
        }
    }
    assert(s.push(x).to_set() =~= s.to_set().insert(x));
}

/// Sorts keys.
fn sort_keys(ks: &Vec<u32>) -> (r: Vec<u32>)
    ensures
        ascending(r@),
        r@.to_set() == ks@.to_set(),
{
    let mut out: Vec<u32> = Vec::new();
    let mut i: usize = 0;
    while i < ks.len()
        invariant
            i <= ks.len(),
            ascending(out@),
            out@.to_set() == ks@.take(i as int).to_set(),
        decreases ks.len() - i,
    {
        let k = ks[i];
        let ghost before = out@;
        assert(ks@.take(i + 1) =~= ks@.take(i as int).push(k));
        let mut p: usize = 0;
        while p < out.len() && out[p] < k
            invariant
                p <= out@.len(),
                out@ == before,
                forall|j: int| 0 <= j < p ==> out@[j] < k,
            decreases out.len() - p,
        {
            p = p + 1;
        }
        if p < out.len() && out[p] == k {
            i = i + 1;
            assert(out@.to_set() =~= ks@.take(i as int).to_set()) by {
                lemma_push_to_set(ks@.take(i - 1), k);
                assert(out@.to_set().contains(k));
            }
            continue;
        }
        out.insert(p, k);
        proof {
            assert(out@ =~= before.insert(p as int, k));
            assert forall|a: int, b: int| 0 <= a < b < out@.len() implies out@[a] < out@[b] by {
                if b < p {
                } else if b == p {
                } else if a < p {
                    assert(out@[b] == before[b - 1]);
                    if p < before.len() {
                        assert(before[p as int] > k || before[p as int] == k);
                    }
                    assert(out@[a] < k);
                    assert(k < before[p as int]);
                    if b - 1 > p {
                        assert(before[p as int] < before[b - 1]);
                    }
                } else if a == p {
                    assert(out@[b] == before[b - 1]);
                    assert(k < before[p as int]);
                    if b - 1 > p {
                        assert(before[p as int] < before[b - 1]);
                    }
                } else {
                    assert(out@[a] == before[a - 1]);
                    assert(out@[b] == before[b - 1]);
                }
            }
            assert(out@.to_set() =~= before.to_set().insert(k)) by {
                assert forall|x: u32| out@.to_set().contains(x) implies before.to_set().insert(k).contains(x) by {
                    let j = choose|j: int| 0 <= j < out@.len() && out@[j] == x;
                    if j < p {
                        assert(before[j] == x);
                    } else if j > p {
                        assert(before[j - 1] == x);
                    }
                }
                assert forall|x: u32| before.to_set().insert(k).contains(x) implies out@.to_set().contains(x) by {
                    if x == k {
                        assert(out@[p as int] == k);
                    } else {
                        let j = choose|j: int| 0 <= j < before.len() && before[j] == x;
                        if j < p {
                            assert(out@[j] == x);
                        } else {
                            assert(out@[j + 1] == x);
                        }
                    }
                }
            }
            lemma_push_to_set(ks@.take(i as int), k);
        }
        i = i + 1;
    }
    assert(ks@.take(i as int) =~= ks@);
    out
}

/// The keys of a map keyed by codes, in increasing order.
pub fn sorted_keys<V>(m: &HashMap<u32, V>) -> (r: Vec<u32>)
    ensures
        r@ == in_order(m@.dom()),
        ascending(r@),
        r@.to_set() == m@.dom(),
{
    let mut ks: Vec<u32> = Vec::new();
    for k in it: m.keys()
        invariant
            it.seq() == spec_keys_iter(m).remaining(),
            ks@.len() == it.index(),
            forall|i: int| 0 <= i < it.index() ==> ks@[i] == *it.seq()[i],
    {
        ks.push(*k);
    }
    assert(ks@ =~= spec_keys_iter(m).remaining().unref());
    let r = sort_keys(&ks);
    proof {
        lemma_in_order(r@);
    }
    r
}

// ---------------------------------------------------------------------
// Columns
// ---------------------------------------------------------------------

/// `s` right-aligned in a column of `width` characters, as `{:>width}`
/// writes it: spaces before it when it is shorter.
pub open spec fn pad_left(s: Seq<char>, width: nat) -> Seq<char> {
    if s.len() >= width {
        s
    } else {
        Seq::new((width - s.len()) as nat, |i: int| ' ') + s
    }
}

fn pad_left_exec(v: &Vec<char>, width: usize) -> (r: Vec<char>)
    ensures
        r@ == pad_left(v@, width as nat),
{
    if v.len() >= width {
        return v.clone();
    }
    let mut r: Vec<char> = Vec::new();
    let mut i: usize = 0;
    while i < width - v.len()
        invariant
            v.len() < width,
            i <= width - v.len(),
            r@ == Seq::new(i as nat, |j: int| ' '),
        decreases width - v.len() - i,
    {
        r.push(' ');
        i = i + 1;
        assert(r@ =~= Seq::new(i as nat, |j: int| ' '));
    }
    concat(&r, v)
}

/// An integer right-aligned in a column (`{:>width}`).
fn number_column(n: i64, width: usize) -> (r: Vec<char>)
    ensures
        r@ == pad_left(signed_decimal(n as int), width as nat),
{
    pad_left_exec(&i64_decimal(n), width)
}

// ---------------------------------------------------------------------
// :marks
// ---------------------------------------------------------------------

/// The row of one mark: its name, then the line (counted from 1) and
/// column in columns of four and three characters.
pub open spec fn mark_row(k: u32, p: (i32, i32)) -> Seq<char> {
    " "@ + seq![k as char] + "    "@ + pad_left(signed_decimal(p.0 + 1), 4) + "  "@ + pad_left(
        signed_decimal(p.1 as int),
        3,
    )
}

/// What `:marks` prints: a note when no mark is set; else a title, the
/// column heads and a row per mark, in the order of the mark names.
pub open spec fn marks_listing(marks: Map<u32, (i32, i32)>) -> Seq<Seq<char>> {
    if marks.is_empty() {
        seq!["[godot-neovim] :marks - No marks set"@]
    } else {
        seq!["[godot-neovim] :marks"@, "mark  line  col"@] + in_order(marks.dom()).map_values(
            |k: u32| mark_row(k, marks[k]),
        )
    }
}

/// Marks are named by characters and sit on lines that can be counted
/// from 1 in an `i32`.
pub open spec fn marks_listable(marks: Map<u32, (i32, i32)>) -> bool {
    forall|k: u32| #[trigger] marks.contains_key(k) ==> is_scalar(k) && marks[k].0 < i32::MAX
}

/// The lines `:marks` prints (see `marks_listing`).
pub fn marks_report(store: &VimStore) -> (r: Vec<String>)
    requires
        marks_listable(store.marks@),
    ensures
        r@.map_values(|s: String| s@) == marks_listing(store.marks@),
{
    let mut out: Vec<String> = Vec::new();
    if store.marks.is_empty() {
        out.push(String::from_str("[godot-neovim] :marks - No marks set"));
        proof {
            assert(out@.map_values(|s: String| s@) =~= marks_listing(store.marks@));
        }
        return out;
    }
    out.push(String::from_str("[godot-neovim] :marks"));
    out.push(String::from_str("mark  line  col"));
    let keys = sorted_keys(&store.marks);
    let ghost head = seq!["[godot-neovim] :marks"@, "mark  line  col"@];
    let mut i: usize = 0;
    while i < keys.len()
        invariant
            marks_listable(store.marks@),
            keys@ == in_order(store.marks@.dom()),
            keys@.to_set() == store.marks@.dom(),
            i <= keys@.len(),
            out@.map_values(|s: String| s@) == head + keys@.take(i as int).map_values(
                |k: u32| mark_row(k, store.marks@[k]),
            ),
        decreases keys.len() - i,
    {
        let k = keys[i];
        proof {
            assert(keys@.to_set().contains(k)) by {
                assert(keys@.contains(k));
            }
        }
        let c = match char_from_u32(k) {
            Some(c) => c,
            None => ' ',
        };
        let p = match store.marks.get(&k) {
            Some(p) => *p,
            None => (0, 0),
        };
        let mut row: Vec<char> = Vec::new();
        row.push(' ');
        row.push(c);
        let row = concat(&row, &chars_of("    "));
        let row = concat(&row, &number_column(p.0 as i64 + 1, 4));
        let row = concat(&row, &chars_of("  "));
        let row = concat(&row, &number_column(p.1 as i64, 3));
        let ghost before = out@;
        out.push(string_of(&row));
        proof {
            reveal_strlit(" ");
            assert(row@ =~= mark_row(k, store.marks@[k]));
            assert(keys@.take(i + 1) =~= keys@.take(i as int).push(k));
            assert(out@.map_values(|s: String| s@) =~= before.map_values(|s: String| s@).push(row@));
            assert(keys@.take(i + 1).map_values(|k: u32| mark_row(k, store.marks@[k])) =~= keys@.take(
                i as int,
            ).map_values(|k: u32| mark_row(k, store.marks@[k])).push(mark_row(k, store.marks@[k])));
            assert(out@.map_values(|s: String| s@) =~= head + keys@.take(i + 1).map_values(
                |k: u32| mark_row(k, store.marks@[k]),
            ));
        }
        i = i + 1;
    }
    proof {
        assert(keys@.take(i as int) =~= keys@);
        assert(out@.map_values(|s: String| s@) =~= marks_listing(store.marks@));
    }
    out
}

// ---------------------------------------------------------------------
// :jumps
// ---------------------------------------------------------------------

/// The row of the jump at index `i`: a `>` where browsing stands, the
/// jump's number (from 1), its line (from 1) and its column.
pub open spec fn jump_row(i: int, p: (i32, i32), pos: int) -> Seq<char> {
    (if i == pos {
        ">"@
    } else {
        " "@
    }) + pad_left(signed_decimal(i + 1), 4) + "  "@ + pad_left(signed_decimal(p.0 + 1), 4) + "  "@
        + pad_left(signed_decimal(p.1 as int), 3)
}

/// What `:jumps` prints: a title and column heads; then `(empty)`, or a
/// row per jump, oldest first, and a last row marking the current
/// position when browsing has not begun.
pub open spec fn jumps_listing(entries: Seq<(i32, i32)>, pos: int) -> Seq<Seq<char>> {
    let head = seq!["[godot-neovim] :jumps"@, " jump line  col"@];
    if entries.len() == 0 {
        head.push("   (empty)"@)
    } else {
        head + Seq::new(entries.len(), |i: int| jump_row(i, entries[i], pos)) + if pos >= entries.len() {
            seq![">          (current)"@]
        } else {
            Seq::<Seq<char>>::empty()
        }
    }
}

/// The lines `:jumps` prints (see `jumps_listing`).
pub fn jumps_report(jumps: &JumpList) -> (r: Vec<String>)
    requires
        jumps.entries@.len() <= i64::MAX,
        forall|i: int| 0 <= i < jumps.entries@.len() ==> #[trigger] jumps.entries@[i].0 < i32::MAX,
    ensures
        r@.map_values(|s: String| s@) == jumps_listing(jumps.entries@, jumps.pos as int),
{
    let mut out: Vec<String> = Vec::new();
    out.push(String::from_str("[godot-neovim] :jumps"));
    out.push(String::from_str(" jump line  col"));
    let ghost head = seq!["[godot-neovim] :jumps"@, " jump line  col"@];
    let n = jumps.entries.len();
    if n == 0 {
        out.push(String::from_str("   (empty)"));
        proof {
            assert(out@.map_values(|s: String| s@) =~= jumps_listing(jumps.entries@, jumps.pos as int));
        }
        return out;
    }
    let ghost rows = Seq::new(n as nat, |i: int| jump_row(i, jumps.entries@[i], jumps.pos as int));
    let mut i: usize = 0;
    while i < n
        invariant
            n == jumps.entries@.len(),
            n <= i64::MAX,
            forall|i: int| 0 <= i < jumps.entries@.len() ==> #[trigger] jumps.entries@[i].0 < i32::MAX,
            rows == Seq::new(n as nat, |i: int| jump_row(i, jumps.entries@[i], jumps.pos as int)),
            i <= n,
            out@.map_values(|s: String| s@) == head + rows.take(i as int),
        decreases n - i,
    {
        let (line, col) = jumps.entries[i];
        let mut row: Vec<char> = Vec::new();
        row.push(if i == jumps.pos {
            '>'
        } else {
            ' '
        });
        let row = concat(&row, &number_column(i as i64 + 1, 4));
        let row = concat(&row, &chars_of("  "));
        let row = concat(&row, &number_column(line as i64 + 1, 4));
        let row = concat(&row, &chars_of("  "));
        let row = concat(&row, &number_column(col as i64, 3));
        let ghost before = out@;
        out.push(string_of(&row));
        proof {
            reveal_strlit(">");
            reveal_strlit(" ");
            assert(row@ =~= jump_row(i as int, jumps.entries@[i as int], jumps.pos as int));
            assert(rows.take(i + 1) =~= rows.take(i as int).push(rows[i as int]));
            assert(out@.map_values(|s: String| s@) =~= before.map_values(|s: String| s@).push(row@));
        }
        i = i + 1;
    }
    if jumps.pos >= n {
        out.push(String::from_str(">          (current)"));
    }
    proof {
        assert(rows.take(n as int) =~= rows);
        assert(out@.map_values(|s: String| s@) =~= jumps_listing(jumps.entries@, jumps.pos as int));
    }
    out
}

// ---------------------------------------------------------------------
// :ls
// ---------------------------------------------------------------------

/// The name shown for a file: what follows the last `/` of its path.
pub open spec fn file_name_of(path: Seq<char>) -> Seq<char> {
    after_last(path, '/')
}

/// The rows of `:ls` for the first `n` open scripts: the number (from 1)
/// and file name of each script whose path could be read.
pub open spec fn buffer_rows(scripts: Seq<Option<Seq<char>>>, n: int) -> Seq<Seq<char>>
    decreases n,
{
    if n <= 0 {
        Seq::empty()
    } else {
        buffer_rows(scripts, n - 1) + match scripts[n - 1] {
            Some(p) => seq!["  "@ + decimal(n as nat) + ": "@ + file_name_of(p)],
            None => Seq::<Seq<char>>::empty(),
        }
    }
}

/// What `:ls` prints for the open scripts (`None` for one whose path
/// cannot be read, which keeps its number).
pub open spec fn buffers_listing(scripts: Seq<Option<Seq<char>>>) -> Seq<Seq<char>> {
    seq!["[godot-neovim] :ls - Open buffers:"@] + buffer_rows(scripts, scripts.len() as int)
}

pub open spec fn paths_view(v: Seq<Option<String>>) -> Seq<Option<Seq<char>>> {
    v.map_values(|p: Option<String>| match p {
        Some(s) => Some(s@),
        None => None,
    })
}

/// The lines `:ls` prints (see `buffers_listing`).
pub fn buffers_report(scripts: &Vec<Option<String>>) -> (r: Vec<String>)
    ensures
        r@.map_values(|s: String| s@) == buffers_listing(paths_view(scripts@)),
{
    let mut out: Vec<String> = Vec::new();
    out.push(String::from_str("[godot-neovim] :ls - Open buffers:"));
    let ghost head = seq!["[godot-neovim] :ls - Open buffers:"@];
    let ghost sv = paths_view(scripts@);
    let mut i: usize = 0;
    while i < scripts.len()
        invariant
            i <= scripts@.len(),
            sv == paths_view(scripts@),
            out@.map_values(|s: String| s@) == head + buffer_rows(sv, i as int),
        decreases scripts.len() - i,
    {
        let ghost before = out@;
        match &scripts[i] {
            Some(path) => {
                let row = concat(&chars_of("  "), &u64_decimal(i as u64 + 1));
                let row = concat(&row, &chars_of(": "));
                let row = concat(&row, &after_last_exec(&chars_of(path.as_str()), '/'));
                out.push(string_of(&row));
                proof {
                    assert(sv[i as int] == Some(path@));
                    assert(out@.map_values(|s: String| s@) =~= before.map_values(|s: String| s@).push(row@));
                }
            },
            None => {
                proof {
                    assert(sv[i as int] is None);
                    assert(buffer_rows(sv, i + 1) =~= buffer_rows(sv, i as int));
                }
            },
        }
        i = i + 1;
    }
    out
}

// ---------------------------------------------------------------------
// :registers
// ---------------------------------------------------------------------

/// The number of leading characters of `s`, counted from `n` on, that take
/// exactly `bytes` bytes in UTF-8; `None` when no character ends there.
pub open spec fn chars_in_bytes(s: Seq<char>, bytes: nat, n: int) -> Option<nat>
    decreases s.len() - n,
{
    if n < 0 || n > s.len() || utf8_len(s.take(n)) > bytes {
        None
    } else if utf8_len(s.take(n)) == bytes {
        Some(n as nat)
    } else if n == s.len() {
        None
    } else {
        chars_in_bytes(s, bytes, n + 1)
    }
}

/// `s` with each line feed shown as `^J`.
pub open spec fn show_line_feeds(s: Seq<char>) -> Seq<char>
    decreases s.len(),
{
    if s.len() == 0 {
        s
    } else {
        show_line_feeds(s.drop_last()) + if s.last() == '\n' {
            "^J"@
        } else {
            seq![s.last()]
        }
    }
}

/// How a register's text is shown: a text of more than 50 bytes by its
/// first 47 bytes and `...`; a shorter one whole, line feeds shown as `^J`.
pub open spec fn register_preview(text: Seq<char>) -> Seq<char> {
    if utf8_len(text) > 50 {
        match chars_in_bytes(text, 47, 0) {
            Some(n) => text.take(n as int) + "..."@,
            None => text,
        }
    } else {
        show_line_feeds(text)
    }
}

pub open spec fn register_row(k: u32, text: Seq<char>) -> Seq<char> {
    "\""@ + seq![k as char] + "   "@ + register_preview(text)
}

/// What `:registers` prints: a note when no register is set; else a title
/// and a row per register, in the order of the register names.
pub open spec fn registers_listing(regs: Map<u32, Seq<char>>) -> Seq<Seq<char>> {
    if regs.is_empty() {
        seq!["[godot-neovim] :registers - No registers set"@]
    } else {
        seq!["[godot-neovim] :registers"@] + in_order(regs.dom()).map_values(
            |k: u32| register_row(k, regs[k]),
        )
    }
}

pub open spec fn registers_view(regs: Map<u32, Vec<char>>) -> Map<u32, Seq<char>> {
    regs.map_values(|v: Vec<char>| v@)
}

/// Registers are named by characters, and a text of more than 50 bytes
/// has a character ending at its 47th byte (where the preview is cut).
pub open spec fn registers_listable(regs: Map<u32, Seq<char>>) -> bool {
    forall|k: u32| #[trigger] regs.contains_key(k) ==> is_scalar(k) && (utf8_len(regs[k]) > 50
        ==> chars_in_bytes(regs[k], 47, 0) is Some)
}

proof fn lemma_take_push(s: Seq<char>, n: int)
    requires
        0 <= n < s.len(),
    ensures
        s.take(n + 1) == s.take(n).push(s[n]),
        utf8_len(s.take(n + 1)) == utf8_len(s.take(n)) + utf8_width(s[n]),
{
    assert(s.take(n + 1) =~= s.take(n).push(s[n]));
    assert(s.take(n + 1).drop_last() =~= s.take(n));
}

/// The first characters of `v` that take 47 bytes, then `...`.
fn cut_preview(v: &Vec<char>) -> (r: Vec<char>)
    requires
        chars_in_bytes(v@, 47, 0) is Some,
    ensures
        r@ == v@.take(chars_in_bytes(v@, 47, 0)->0 as int) + "..."@,
{
    let mut n: usize = 0;
    let mut acc: usize = 0;
    let len = v.len();
    assert(v@.take(0) =~= Seq::<char>::empty());
    while acc < 47
        invariant
            len == v@.len(),
            n <= v@.len(),
            acc == utf8_len(v@.take(n as int)),
            acc <= 47,
            chars_in_bytes(v@, 47, 0) is Some,
            chars_in_bytes(v@, 47, 0) == chars_in_bytes(v@, 47, n as int),
        decreases 47 - acc,
    {
        proof {
            if n == v@.len() {
                assert(chars_in_bytes(v@, 47, n as int) is None);
                assert(false);
            }
            assert(n < v@.len());
            lemma_take_push(v@, n as int);
            assert(chars_in_bytes(v@, 47, n as int) == chars_in_bytes(v@, 47, n + 1));
        }
        let c = v[n];
        let code: u32 = c as u32;
        let w: usize = if code < 0x80 {
            1
        } else if code < 0x800 {
            2
        } else if code < 0x10000 {
            3
        } else {
            4
        };
        acc = acc + w;
        n = n + 1;
        proof {
            if acc > 47 {
                assert(chars_in_bytes(v@, 47, n as int) is None);
            }
        }
    }
    let head = crate::chars::slice_of(v, 0, n);
    assert(head@ =~= v@.take(n as int));
    concat(&head, &chars_of("..."))
}

fn show_line_feeds_exec(v: &Vec<char>) -> (r: Vec<char>)
    ensures
        r@ == show_line_feeds(v@),
{
    let mut r: Vec<char> = Vec::new();
    let mut i: usize = 0;
    while i < v.len()
        invariant
            i <= v@.len(),
            r@ == show_line_feeds(v@.take(i as int)),
        decreases v.len() - i,
    {
        assert(v@.take(i + 1).drop_last() =~= v@.take(i as int));
        let c = v[i];
        let ghost before = r@;
        if c == '\n' {
            r.push('^');
            r.push('J');
            proof {
                reveal_strlit("^J");
                assert(r@ =~= before + "^J"@);
            }
        } else {
            r.push(c);
            assert(r@ =~= before + seq![c]);
        }
        i = i + 1;
    }
    assert(v@.take(i as int) =~= v@);
    r
}

/// The lines `:registers` prints (see `registers_listing`).
pub fn registers_report(store: &VimStore) -> (r: Vec<String>)
    requires
        registers_listable(registers_view(store.registers@)),
    ensures
        r@.map_values(|s: String| s@) == registers_listing(registers_view(store.registers@)),
{
    let ghost regs = registers_view(store.registers@);
    let mut out: Vec<String> = Vec::new();
    if store.registers.is_empty() {
        out.push(String::from_str("[godot-neovim] :registers - No registers set"));
        proof {
            assert(regs.dom() =~= store.registers@.dom());
            assert(out@.map_values(|s: String| s@) =~= registers_listing(regs));
        }
        return out;
    }
    out.push(String::from_str("[godot-neovim] :registers"));
    let keys = sorted_keys(&store.registers);
    proof {
        assert(regs.dom() =~= store.registers@.dom());
    }
    let ghost head = seq!["[godot-neovim] :registers"@];
    let mut i: usize = 0;
    while i < keys.len()
        invariant
            regs == registers_view(store.registers@),
            regs.dom() == store.registers@.dom(),
            registers_listable(regs),
            keys@ == in_order(regs.dom()),
            keys@.to_set() == regs.dom(),
            i <= keys@.len(),
            out@.map_values(|s: String| s@) == head + keys@.take(i as int).map_values(
                |k: u32| register_row(k, regs[k]),
            ),
        decreases keys.len() - i,
    {
        let k = keys[i];
        proof {
            assert(keys@.to_set().contains(k)) by {
                assert(keys@.contains(k));
            }
        }
        let c = match char_from_u32(k) {
            Some(c) => c,
            None => ' ',
        };
        let preview = match store.registers.get(&k) {
            Some(text) => {
                let long = match utf8_len_exec(text) {
                    Some(n) => n > 50,
                    None => true,
                };
                if long {
                    cut_preview(text)
                } else {
                    show_line_feeds_exec(text)
                }
            },
            None => Vec::new(),
        };
        let mut row: Vec<char> = Vec::new();
        row.push('"');
        row.push(c);
        let row = concat(&row, &chars_of("   "));
        let row = concat(&row, &preview);
        let ghost before = out@;
        out.push(string_of(&row));
        proof {
            reveal_strlit("\"");
            assert(preview@ == register_preview(regs[k]));
            assert(row@ =~= register_row(k, regs[k]));
            assert(keys@.take(i + 1) =~= keys@.take(i as int).push(k));
            assert(out@.map_values(|s: String| s@) =~= before.map_values(|s: String| s@).push(row@));
            assert(keys@.take(i + 1).map_values(|k: u32| register_row(k, regs[k])) =~= keys@.take(
                i as int,
            ).map_values(|k: u32| register_row(k, regs[k])).push(register_row(k, regs[k])));
        }
        i = i + 1;
    }
    proof {
        assert(keys@.take(i as int) =~= keys@);
        assert(out@.map_values(|s: String| s@) =~= registers_listing(regs));
    }
    out
}

} // verus!
