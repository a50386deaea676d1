//! Whole-word search over the editor's lines (`*`, `#`, `n`, `N`).

use crate::chars::{occurs_at, occurs_at_exec, slice_of};
use crate::unicode::{is_word_char, is_word_char_exec};
use vstd::prelude::*;

verus! {

/// `word` occurs at `i` in `line` as a whole word.
pub open spec fn word_at(line: Seq<char>, word: Seq<char>, i: int) -> bool {
    &&& occurs_at(line, i, word)
    &&& (i == 0 || !is_word_char(line[i - 1]))
    &&& (i + word.len() >= line.len() || !is_word_char(line[i + word.len()]))
}

/// The last position a word of this length can start at.
pub open spec fn last_start(line: Seq<char>, word: Seq<char>) -> int {
    line.len() - word.len()
}

/// First whole-word occurrence at or after `i`.
pub open spec fn first_match(line: Seq<char>, word: Seq<char>, i: int) -> Option<int>
    decreases line.len() - i,
{
    if word.len() == 0 || line.len() < word.len() || i < 0 || i > last_start(line, word) {
        None
    } else if word_at(line, word, i) {
        Some(i)
    } else {
        first_match(line, word, i + 1)
    }
}

/// Last whole-word occurrence at or before `i`.
pub open spec fn last_match(line: Seq<char>, word: Seq<char>, i: int) -> Option<int>
    decreases i + 1,
{
    if word.len() == 0 || line.len() < word.len() || i < 0 {
        None
    } else if i > last_start(line, word) {
        last_match(line, word, last_start(line, word))
    } else if word_at(line, word, i) {
        Some(i)
    } else {
        last_match(line, word, i - 1)
    }
}

fn word_at_exec(line: &Vec<char>, word: &Vec<char>, i: usize) -> (b: bool)
    ensures
        b == word_at(line@, word@, i as int),
{
    let ll = line.len();
    if !occurs_at_exec(line, i, word) {
        return false;
    }
    assert(i + word@.len() <= ll);
    let before_ok = i == 0 || !is_word_char_exec(line[i - 1]);
    let after_ok = i + word.len() >= line.len() || !is_word_char_exec(line[i + word.len()]);
    before_ok && after_ok
}

/// Where [`find_word_in_line`] finds a word.
pub open spec fn find_spec(line: Seq<char>, word: Seq<char>, start: int, forward: bool) -> Option<int> {
    if forward {
        first_match(line, word, start)
    } else {
        last_match(line, word, last_start(line, word))
    }
}

/// Find a whole-word occurrence of `word` in `line`: forward, the first
/// one at or after `start`; backward, the last one in the line.
pub fn find_word_in_line(line: &Vec<char>, word: &Vec<char>, start: usize, forward: bool) -> (r: Option<usize>)
    ensures
        r matches Some(i) ==> find_spec(line@, word@, start as int, forward) == Some(i as int),
        r is None ==> find_spec(line@, word@, start as int, forward) is None,
{
    let wl = word.len();
    let ll = line.len();
    if wl == 0 || ll < wl {
        return None;
    }
    let last = ll - wl;
    if forward {
        let mut i = start;
        while i <= last
            invariant
                forward,
                ll == line@.len(),
                wl == word@.len(),
                0 < wl <= line@.len(),
                last == line@.len() - wl,
                start <= i,
                first_match(line@, word@, start as int) == first_match(line@, word@, i as int),
            decreases last + 1 - i,
        {
            if word_at_exec(line, word, i) {
                assert(first_match(line@, word@, i as int) == Some(i as int));
                assert(first_match(line@, word@, start as int) == Some(i as int));
                assert(find_spec(line@, word@, start as int, forward) == Some(i as int));
                return Some(i);
            }
            assert(first_match(line@, word@, i as int) == first_match(line@, word@, i + 1));
            i = i + 1;
        }
        assert(first_match(line@, word@, i as int) is None);
        None
    } else {
        let mut i: usize = last + 1;
        while i > 0
            invariant
                !forward,
                ll == line@.len(),
                wl == word@.len(),
                0 < wl <= line@.len(),
                last == line@.len() - wl,
                i <= last + 1,
                last_match(line@, word@, last as int) == last_match(line@, word@, i - 1),
            decreases i,
        {
            if word_at_exec(line, word, i - 1) {
                assert(last_match(line@, word@, i - 1) == Some((i - 1) as int));
                return Some(i - 1);
            }
            assert(last_match(line@, word@, i - 1) == last_match(line@, word@, i - 2));
            i = i - 1;
        }
        assert(last_match(line@, word@, -1) is None);
        None
    }
}

/// The bound of the backward search on a line: before the cursor on the
/// cursor's line (column 0 when the cursor is at 0), the whole line on
/// the others.
pub open spec fn backward_bound(line: Seq<char>, word: Seq<char>, same_line: bool, col: int) -> int {
    let end = if same_line {
        if col > 0 { col - 1 } else { 0 }
    } else {
        if last_start(line, word) > 0 { last_start(line, word) } else { 0 }
    };
    if end < last_start(line, word) { end } else { last_start(line, word) }
}

/// Last whole-word occurrence at or before the backward bound.
pub fn find_word_in_line_backward(line: &Vec<char>, word: &Vec<char>, same_line: bool, current_col: usize) -> (r: Option<usize>)
    ensures
        r matches Some(i) ==> last_match(line@, word@, backward_bound(line@, word@, same_line, current_col as int)) == Some(i as int),
        r is None ==> last_match(line@, word@, backward_bound(line@, word@, same_line, current_col as int)) is None,
{
    let wl = word.len();
    if wl == 0 || line.len() < wl {
        return None;
    }
    let last = line.len() - wl;
    let end = if same_line {
        if current_col > 0 { current_col - 1 } else { 0 }
    } else {
        last
    };
    let bound = if end < last { end } else { last };
    let mut i: usize = bound + 1;
    while i > 0
        invariant
            bound == backward_bound(line@, word@, same_line, current_col as int),
            wl == word@.len(),
            0 < wl <= line@.len(),
            last == line@.len() - wl,
            i <= bound + 1,
            bound <= last,
            last_match(line@, word@, bound as int) == last_match(line@, word@, i - 1),
        decreases i,
    {
        if word_at_exec(line, word, i - 1) {
            assert(last_match(line@, word@, i - 1) == Some((i - 1) as int));
            return Some(i - 1);
        }
        assert(last_match(line@, word@, i - 1) == last_match(line@, word@, i - 2));
        i = i - 1;
    }
    assert(last_match(line@, word@, -1) is None);
    None
}

/// Start of the word containing position `i` (by word characters).
pub open spec fn word_start(line: Seq<char>, i: int) -> int
    decreases i,
{
    if i > 0 && i <= line.len() && is_word_char(line[i - 1]) {
        word_start(line, i - 1)
    } else {
        i
    }
}

/// End (exclusive) of the word containing position `i`.
pub open spec fn word_end(line: Seq<char>, i: int) -> int
    decreases line.len() - i,
{
    if 0 <= i < line.len() && is_word_char(line[i]) {
        word_end(line, i + 1)
    } else {
        i
    }
}

/// The word under the cursor, when the cursor is on a word character.
pub open spec fn word_under_cursor(line: Seq<char>, col: int) -> Option<Seq<char>> {
    if line.len() == 0 || col < 0 || col >= line.len() || !is_word_char(line[col]) {
        None
    } else {
        Some(line.subrange(word_start(line, col), word_end(line, col)))
    }
}

proof fn lemma_word_start_bounds(line: Seq<char>, i: int)
    requires
        0 <= i <= line.len(),
    ensures
        0 <= word_start(line, i) <= i,
    decreases i,
{
    if i > 0 && is_word_char(line[i - 1]) {
        lemma_word_start_bounds(line, i - 1);
    }
}

proof fn lemma_word_end_bounds(line: Seq<char>, i: int)
    requires
        0 <= i <= line.len(),
    ensures
        i <= word_end(line, i) <= line.len(),
    decreases line.len() - i,
{
    if i < line.len() && is_word_char(line[i]) {
        lemma_word_end_bounds(line, i + 1);
    }
}

/// Bounds `[start, end)` of the run of characters satisfying the word test
/// around `col`.
pub(crate) fn word_bounds(line: &Vec<char>, col: usize) -> (r: (usize, usize))
    requires
        col <= line.len(),
    ensures
        r.0 == word_start(line@, col as int),
        r.1 == word_end(line@, col as int),
        r.0 <= col <= r.1 <= line.len(),
{
    let mut start = col;
    while start > 0 && is_word_char_exec(line[start - 1])
        invariant
            start <= col <= line@.len(),
            word_start(line@, col as int) == word_start(line@, start as int),
        decreases start,
    {
        start = start - 1;
    }
    let mut end = col;
    while end < line.len() && is_word_char_exec(line[end])
        invariant
            col <= end <= line@.len(),
            word_end(line@, col as int) == word_end(line@, end as int),
        decreases line.len() - end,
    {
        end = end + 1;
    }
    (start, end)
}

/// The word under the cursor.
pub fn get_word_under_cursor(line: &Vec<char>, col: usize) -> (r: Option<Vec<char>>)
    ensures
        r matches Some(w) ==> word_under_cursor(line@, col as int) == Some(w@),
        r is None ==> word_under_cursor(line@, col as int) is None,
{
    if line.len() == 0 || col >= line.len() {
        return None;
    }
    if !is_word_char_exec(line[col]) {
        return None;
    }
    let (start, end) = word_bounds(line, col);
    Some(slice_of(line, start, end))
}

/// Forward search, first pass: the first match after the cursor on its
/// line, or on a later line.
pub open spec fn scan_forward(lines: Seq<Vec<char>>, word: Seq<char>, l: int, cur: int, col: int) -> Option<(int, int)>
    decreases lines.len() - l,
{
    if l < 0 || l >= lines.len() {
        None
    } else {
        match first_match(lines[l]@, word, if l == cur { col + 1 } else { 0 }) {
            Some(c) => Some((l, c)),
            None => scan_forward(lines, word, l + 1, cur, col),
        }
    }
}

/// Forward search, wrapping: the first match of each line from the top;
/// on the cursor's line only one before the cursor counts.
pub open spec fn scan_wrap(lines: Seq<Vec<char>>, word: Seq<char>, l: int, cur: int, col: int) -> Option<(int, int)>
    decreases cur + 1 - l,
{
    if l < 0 || l > cur || l >= lines.len() {
        None
    } else {
        match first_match(lines[l]@, word, 0) {
            Some(c) => if l < cur || c < col {
                Some((l, c))
            } else {
                scan_wrap(lines, word, l + 1, cur, col)
            },
            None => scan_wrap(lines, word, l + 1, cur, col),
        }
    }
}

/// Where a forward whole-word search from the cursor lands.
pub open spec fn search_forward_spec(lines: Seq<Vec<char>>, word: Seq<char>, cur: int, col: int) -> Option<(int, int)> {
    match scan_forward(lines, word, cur, cur, col) {
        Some(p) => Some(p),
        None => scan_wrap(lines, word, 0, cur, col),
    }
}

/// Search forward for a whole word from the cursor, wrapping around to
/// the top; returns the position found (line, column).
pub fn search_word_forward_internal(lines: &Vec<Vec<char>>, word: &Vec<char>, cur_line: usize, cur_col: usize) -> (r: Option<(usize, usize)>)
    requires
        cur_line < lines.len(),
        cur_col < usize::MAX,
    ensures
        r matches Some(p) ==> search_forward_spec(lines@, word@, cur_line as int, cur_col as int) == Some((p.0 as int, p.1 as int)),
        r is None ==> search_forward_spec(lines@, word@, cur_line as int, cur_col as int) is None,
{
    let n = lines.len();
    let mut l = cur_line;
    while l < n
        invariant
            n == lines@.len(),
            cur_line <= l <= lines@.len(),
            cur_col < usize::MAX,
            scan_forward(lines@, word@, cur_line as int, cur_line as int, cur_col as int)
                == scan_forward(lines@, word@, l as int, cur_line as int, cur_col as int),
        decreases lines.len() - l,
    {
        let start = if l == cur_line { cur_col + 1 } else { 0 };
        match find_word_in_line(&lines[l], word, start, true) {
            Some(c) => {
                return Some((l, c));
            },
            None => {},
        }
        l = l + 1;
    }
    let mut l: usize = 0;
    while l <= cur_line
        invariant
            n == lines@.len(),
            l <= cur_line + 1,
            cur_line < lines@.len(),
            scan_forward(lines@, word@, cur_line as int, cur_line as int, cur_col as int) is None,
            scan_wrap(lines@, word@, 0, cur_line as int, cur_col as int)
                == scan_wrap(lines@, word@, l as int, cur_line as int, cur_col as int),
        decreases cur_line + 1 - l,
    {
        match find_word_in_line(&lines[l], word, 0, true) {
            Some(c) => {
                if l < cur_line || c < cur_col {
                    return Some((l, c));
                }
            },
            None => {},
        }
        l = l + 1;
    }
    None
}

/// Backward search, first pass: from the cursor's line up to the top.
pub open spec fn scan_backward(lines: Seq<Vec<char>>, word: Seq<char>, l: int, cur: int, col: int) -> Option<(int, int)>
    decreases l + 1,
{
    if l < 0 || l >= lines.len() {
        None
    } else {
        match last_match(lines[l]@, word, backward_bound(lines[l]@, word, l == cur, col)) {
            Some(c) => Some((l, c)),
            None => scan_backward(lines, word, l - 1, cur, col),
        }
    }
}

/// Backward search, wrapping: from the last line up to the cursor's line,
/// the last match of each line.
pub open spec fn scan_wrap_back(lines: Seq<Vec<char>>, word: Seq<char>, l: int, cur: int) -> Option<(int, int)>
    decreases l + 1,
{
    if l < cur || l < 0 || l >= lines.len() {
        None
    } else {
        match last_match(lines[l]@, word, last_start(lines[l]@, word)) {
            Some(c) => Some((l, c)),
            None => scan_wrap_back(lines, word, l - 1, cur),
        }
    }
}

/// Where a backward whole-word search from the cursor lands.
pub open spec fn search_backward_spec(lines: Seq<Vec<char>>, word: Seq<char>, cur: int, col: int) -> Option<(int, int)> {
    match scan_backward(lines, word, cur, cur, col) {
        Some(p) => Some(p),
        None => scan_wrap_back(lines, word, lines.len() - 1, cur),
    }
}

proof fn lemma_last_is_last(line: Seq<char>, word: Seq<char>, i: int, f: int)
    requires
        word.len() > 0,
        line.len() >= word.len(),
        0 <= i <= last_start(line, word),
        last_match(line, word, i) == Some(f),
        forall|j: int| i < j <= last_start(line, word) ==> !word_at(line, word, j),
    ensures
        first_match(line, word, f + 1) is None,
    decreases i,
{
    if word_at(line, word, i) {
        lemma_none_after(line, word, f + 1);
    } else {
        assert(last_match(line, word, -1) is None);
        assert(i > 0);
        lemma_last_is_last(line, word, i - 1, f);
    }
}

proof fn lemma_none_after(line: Seq<char>, word: Seq<char>, k: int)
    requires
        word.len() > 0,
        line.len() >= word.len(),
        0 <= k,
        forall|j: int| k <= j <= last_start(line, word) ==> !word_at(line, word, j),
    ensures
        first_match(line, word, k) is None,
    decreases line.len() - k,
{
    if k <= last_start(line, word) {
        lemma_none_after(line, word, k + 1);
    }
}

/// Search backward for a whole word from the cursor, wrapping around to
/// the bottom; returns the position found (line, column).
pub fn search_word_backward_internal(lines: &Vec<Vec<char>>, word: &Vec<char>, cur_line: usize, cur_col: usize) -> (r: Option<(usize, usize)>)
    requires
        cur_line < lines.len(),
    ensures
        r matches Some(p) ==> search_backward_spec(lines@, word@, cur_line as int, cur_col as int) == Some((p.0 as int, p.1 as int)),
        r is None ==> search_backward_spec(lines@, word@, cur_line as int, cur_col as int) is None,
{
    let mut l: usize = cur_line + 1;
    while l > 0
        invariant
            l <= cur_line + 1,
            cur_line < lines@.len(),
            scan_backward(lines@, word@, cur_line as int, cur_line as int, cur_col as int)
                == scan_backward(lines@, word@, l - 1, cur_line as int, cur_col as int),
        decreases l,
    {
        match find_word_in_line_backward(&lines[l - 1], word, l - 1 == cur_line, cur_col) {
            Some(c) => {
                return Some((l - 1, c));
            },
            None => {},
        }
        l = l - 1;
    }
    let mut l: usize = lines.len();
    while l > cur_line
        invariant
            cur_line <= l <= lines@.len(),
            scan_backward(lines@, word@, cur_line as int, cur_line as int, cur_col as int) is None,
            scan_wrap_back(lines@, word@, lines@.len() - 1, cur_line as int)
                == scan_wrap_back(lines@, word@, l - 1, cur_line as int),
        decreases l,
    {
        let line = &lines[l - 1];
        let line_len = line.len();
        match find_word_in_line(line, word, 0, false) {
            Some(found) => {
                proof {
                    lemma_last_scan(line@, word@, found as int);
                    lemma_last_match_bounds(line@, word@, last_start(line@, word@));
                }
                assert(found < line_len);
                let mut last = found;
                let mut search_from = found + 1;
                loop
                    invariant
                        last == found,
                        search_from == found + 1,
                        first_match(line@, word@, search_from as int) is None,
                    decreases 0nat,
                {
                    match find_word_in_line(line, word, search_from, true) {
                        Some(next) => {
                            if l - 1 == cur_line && next >= cur_col {
                                break;
                            }
                            last = next;
                            search_from = next + 1;
                        },
                        None => {
                            break;
                        },
                    }
                }
                return Some((l - 1, last));
            },
            None => {},
        }
        l = l - 1;
    }
    None
}

proof fn lemma_last_match_bounds(line: Seq<char>, word: Seq<char>, i: int)
    ensures
        last_match(line, word, i) matches Some(f) ==> 0 <= f <= last_start(line, word) && word_at(line, word, f),
    decreases i + 1,
{
    if word.len() == 0 || line.len() < word.len() || i < 0 {
    } else if i > last_start(line, word) {
        lemma_last_match_bounds(line, word, last_start(line, word));
    } else if word_at(line, word, i) {
    } else {
        lemma_last_match_bounds(line, word, i - 1);
    }
}

/// The last match of a line is the last one: nothing follows it.
proof fn lemma_last_scan(line: Seq<char>, word: Seq<char>, f: int)
    requires
        word.len() > 0,
        line.len() >= word.len(),
        last_match(line, word, last_start(line, word)) == Some(f),
    ensures
        first_match(line, word, f + 1) is None,
{
    lemma_last_is_last(line, word, last_start(line, word), f);
}

// ---------------------------------------------------------------------
// *, #, n and N
// ---------------------------------------------------------------------

/// The word last searched for with `*` or `#`, and its direction.
pub struct LastSearch {
    pub word: Vec<char>,
    pub forward: bool,
}

/// Where a whole-word search for `word` lands, forward or backward.
pub open spec fn search_spec(lines: Seq<Vec<char>>, word: Seq<char>, forward: bool, cur: int, col: int) -> Option<(int, int)> {
    if forward {
        search_forward_spec(lines, word, cur, col)
    } else {
        search_backward_spec(lines, word, cur, col)
    }
}

pub open spec fn position_view(r: Option<(usize, usize)>) -> Option<(int, int)> {
    match r {
        Some(p) => Some((p.0 as int, p.1 as int)),
        None => None,
    }
}

fn search_exec(lines: &Vec<Vec<char>>, word: &Vec<char>, forward: bool, cur_line: usize, cur_col: usize) -> (r: Option<(usize, usize)>)
    requires
        cur_line < lines.len(),
        cur_col < usize::MAX,
    ensures
        position_view(r) == search_spec(lines@, word@, forward, cur_line as int, cur_col as int),
{
    if forward {
        search_word_forward_internal(lines, word, cur_line, cur_col)
    } else {
        search_word_backward_internal(lines, word, cur_line, cur_col)
    }
}

/// `*` (forward) and `#` (backward): search for the word under the
/// cursor. With no word there nothing happens; otherwise the word and the
/// direction are remembered for `n` and `N`, and the position found is
/// returned.
pub fn search_word_under_cursor(last: &mut LastSearch, lines: &Vec<Vec<char>>, cur_line: usize, cur_col: usize, forward: bool) -> (r: Option<(usize, usize)>)
    requires
        cur_line < lines.len(),
        cur_col < usize::MAX,
    ensures
        match word_under_cursor(lines@[cur_line as int]@, cur_col as int) {
            None => r is None && final(last).word@ == old(last).word@ && final(last).forward == old(last).forward,
            Some(w) => final(last).word@ == w && final(last).forward == forward
                && position_view(r) == search_spec(lines@, w, forward, cur_line as int, cur_col as int),
        },
{
    let word = match get_word_under_cursor(&lines[cur_line], cur_col) {
        Some(w) => w,
        None => {
            return None;
        },
    };
    let r = search_exec(lines, &word, forward, cur_line, cur_col);
    last.word = word;
    last.forward = forward;
    r
}

/// Where `n` (`same_direction`) or `N` lands after the search `last`: in
/// the remembered direction or against it; nowhere before any search.
pub open spec fn repeat_search_spec(last: (Seq<char>, bool), same_direction: bool, lines: Seq<Vec<char>>, cur: int, col: int) -> Option<(int, int)> {
    if last.0.len() == 0 {
        None
    } else {
        search_spec(lines, last.0, if same_direction { last.1 } else { !last.1 }, cur, col)
    }
}

/// `n` and `N` (see `repeat_search_spec`).
pub fn repeat_search(last: &LastSearch, same_direction: bool, lines: &Vec<Vec<char>>, cur_line: usize, cur_col: usize) -> (r: Option<(usize, usize)>)
    requires
        cur_line < lines.len(),
        cur_col < usize::MAX,
    ensures
        position_view(r) == repeat_search_spec((last.word@, last.forward), same_direction, lines@, cur_line as int, cur_col as int),
{
    if last.word.len() == 0 {
        return None;
    }
    let forward = if same_direction {
        last.forward
    } else {
        !last.forward
    };
    search_exec(lines, &last.word, forward, cur_line, cur_col)
}

/// After `*` or `#`, `n` searches again for the same word in the same
/// direction and `N` in the other one, from wherever the cursor is.
pub proof fn law_n_repeats_word_search(lines: Seq<Vec<char>>, w: Seq<char>, forward: bool, cur: int, col: int)
    requires
        w.len() > 0,
    ensures
        repeat_search_spec((w, forward), true, lines, cur, col) == search_spec(lines, w, forward, cur, col),
        repeat_search_spec((w, forward), false, lines, cur, col) == search_spec(lines, w, !forward, cur, col),
{
}

/// The word under the cursor is never empty, so `n` works after every
/// `*` or `#` that found a word.
pub proof fn law_word_under_cursor_nonempty(line: Seq<char>, col: int)
    ensures
        word_under_cursor(line, col) matches Some(w) ==> w.len() > 0,
{
    if word_under_cursor(line, col) is Some {
        lemma_word_start_bounds(line, col);
        lemma_word_end_bounds(line, col + 1);
        assert(word_end(line, col) == word_end(line, col + 1));
    }
}

} // verus!
