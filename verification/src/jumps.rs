//! The jump list behind `Ctrl+O` and `Ctrl+I`.

use vstd::prelude::*;

verus! {

/// Most positions the list keeps.
pub const MAX_JUMP_LIST: usize = 100;

/// Positions jumped from, oldest first, and where browsing stands
/// (`pos == entries.len()` when not browsing).
pub struct JumpList {
    pub entries: Vec<(i32, i32)>,
    pub pos: usize,
}

/// The list as values: positions and browsing index.
pub struct JumpView {
    pub entries: Seq<(i32, i32)>,
    pub pos: int,
}

impl View for JumpList {
    type V = JumpView;

    open spec fn view(&self) -> JumpView {
        JumpView { entries: self.entries@, pos: self.pos as int }
    }
}

/// Browsing stands within the list, which holds at most
/// [`MAX_JUMP_LIST`] positions.
pub open spec fn jumps_wf(j: JumpView) -> bool {
    0 <= j.pos <= j.entries.len() <= MAX_JUMP_LIST
}

/// The list after recording `p`: nothing when `p` is the newest entry;
/// otherwise entries newer than the browsing position are dropped, `p` is
/// appended, the oldest entry goes when over the limit, and browsing ends.
pub open spec fn add_spec(j: JumpView, p: (i32, i32)) -> JumpView {
    if j.entries.len() > 0 && j.entries.last() == p {
        j
    } else {
        let kept = if j.pos < j.entries.len() { j.entries.subrange(0, j.pos) } else { j.entries };
        let e = kept.push(p);
        if e.len() > MAX_JUMP_LIST {
            JumpView { entries: e.subrange(1, e.len() as int), pos: e.len() - 1 }
        } else {
            JumpView { entries: e, pos: e.len() as int }
        }
    }
}

/// `Ctrl+O` from position `cur`: the list after it and the position to go
/// to. At the end of the list the current position is recorded first.
pub open spec fn back_spec(j: JumpView, cur: (i32, i32)) -> (JumpView, Option<(i32, i32)>) {
    if j.entries.len() == 0 {
        (j, None)
    } else {
        let j1 = if j.pos == j.entries.len() {
            let a = add_spec(j, cur);
            JumpView { pos: a.entries.len() as int, ..a }
        } else {
            j
        };
        if j1.pos == 0 {
            (j1, None)
        } else {
            (JumpView { pos: j1.pos - 1, ..j1 }, Some(j1.entries[j1.pos - 1]))
        }
    }
}

/// `Ctrl+I`: the list after it and the position to go to, when there is a
/// newer one.
pub open spec fn forward_spec(j: JumpView) -> (JumpView, Option<(i32, i32)>) {
    if j.entries.len() == 0 || j.pos >= j.entries.len() - 1 {
        (j, None)
    } else {
        (JumpView { pos: j.pos + 1, ..j }, Some(j.entries[j.pos + 1]))
    }
}

impl JumpList {
    pub fn new() -> (r: JumpList)
        ensures
            jumps_wf(r@),
            r@.entries.len() == 0,
            r@.pos == 0,
    {
        JumpList { entries: Vec::new(), pos: 0 }
    }

    /// Record the position `(line, col)` before a jump.
    pub fn add_to_jump_list(&mut self, line: i32, col: i32)
        requires
            jumps_wf(old(self)@),
        ensures
            jumps_wf(final(self)@),
            final(self)@ == add_spec(old(self)@, (line, col)),
    {
        let n = self.entries.len();
        if n > 0 {
            let (l, c) = self.entries[n - 1];
            if l == line && c == col {
                return;
            }
        }
        if self.pos < n {
            self.entries.truncate(self.pos);
        }
        self.entries.push((line, col));
        self.pos = self.entries.len();
        if self.entries.len() > MAX_JUMP_LIST {
            self.entries.remove(0);
            self.pos = self.entries.len();
        }
        assert(self@.entries =~= add_spec(old(self)@, (line, col)).entries);
    }

    /// `Ctrl+O` from `(line, col)`: where to go back to, if anywhere (the
    /// caller brings it into the text).
    pub fn jump_back(&mut self, line: i32, col: i32) -> (r: Option<(i32, i32)>)
        requires
            jumps_wf(old(self)@),
        ensures
            jumps_wf(final(self)@),
            (final(self)@, r) == back_spec(old(self)@, (line, col)),
    {
        if self.entries.len() == 0 {
            return None;
        }
        if self.pos == self.entries.len() {
            self.add_to_jump_list(line, col);
            self.pos = self.entries.len();
        }
        if self.pos == 0 {
            return None;
        }
        self.pos = self.pos - 1;
        Some(self.entries[self.pos])
    }

    /// `Ctrl+I`: where to go forward to, if anywhere.
    pub fn jump_forward(&mut self) -> (r: Option<(i32, i32)>)
        requires
            jumps_wf(old(self)@),
        ensures
            jumps_wf(final(self)@),
            (final(self)@, r) == forward_spec(old(self)@),
    {
        if self.entries.len() == 0 || self.pos >= self.entries.len() - 1 {
            return None;
        }
        self.pos = self.pos + 1;
        Some(self.entries[self.pos])
    }
}

/// Recording a position makes it the newest entry and ends browsing, and
/// the list never grows past its limit.
pub proof fn law_add_records_newest(j: JumpView, p: (i32, i32))
    requires
        jumps_wf(j),
    ensures
        jumps_wf(add_spec(j, p)),
        add_spec(j, p).entries.last() == p,
        add_spec(j, p).pos == add_spec(j, p).entries.len() || add_spec(j, p) == j,
{
}

/// While browsing, `Ctrl+O` then `Ctrl+I` comes back to the same entry.
pub proof fn law_back_then_forward(j: JumpView, cur: (i32, i32))
    requires
        jumps_wf(j),
        0 < j.pos < j.entries.len(),
    ensures
        back_spec(j, cur).1 is Some,
        forward_spec(back_spec(j, cur).0) == (j, Some(j.entries[j.pos])),
{
    assert(back_spec(j, cur).0 == JumpView { pos: j.pos - 1, ..j });
}

/// `Ctrl+I` then `Ctrl+O` comes back to the same entry.
pub proof fn law_forward_then_back(j: JumpView, cur: (i32, i32))
    requires
        jumps_wf(j),
        j.pos + 1 < j.entries.len(),
    ensures
        forward_spec(j).1 is Some,
        back_spec(forward_spec(j).0, cur) == (j, Some(j.entries[j.pos])),
{
    assert(forward_spec(j).0 == JumpView { pos: j.pos + 1, ..j });
}

} // verus!
