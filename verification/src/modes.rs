//! Keys typed in insert, replace and search mode.

use crate::chars::chars_of;
use crate::cmdline::typed_char;
use crate::dispatch::{is_recording, record, record_keys, recording, InputState, StateView};
use crate::keys::{
    key_char, key_event_to_nvim_notation, nvim_notation, KeyInput, KEY_B, KEY_BACKSPACE,
    KEY_BRACKETLEFT, KEY_DELETE, KEY_ENTER, KEY_ESCAPE, KEY_TAB,
};
use crate::normal::{
    fx0, fx1, fx2, handled, ndone, nmatches, nrun, nsend, run, EditorCommand, NResolution, NStep,
    NormalEffect, NormalOutcome,
};
use crate::unicode::{utf8_len, utf8_len_above_one};
use vstd::prelude::*;

verus! {

pub open spec fn leaves_mode(k: KeyInput) -> bool {
    k.keycode == KEY_ESCAPE || (k.ctrl && k.keycode == KEY_BRACKETLEFT)
}

/// Not consumed: the editor handles the key itself.
pub open spec fn unsent(s: StateView) -> NStep {
    NStep { st: s, fx: Seq::empty(), out: NormalOutcome::Unsent }
}

/// Name recorded for a special key typed in insert mode.
pub open spec fn insert_key_name(code: u32) -> Option<Seq<char>> {
    if code == KEY_BACKSPACE {
        Some("<BS>"@)
    } else if code == KEY_ENTER {
        Some("<CR>"@)
    } else if code == KEY_DELETE {
        Some("<Del>"@)
    } else if code == KEY_TAB {
        Some("<Tab>"@)
    } else {
        None
    }
}

/// Insert mode: `Esc`/`Ctrl+[` leave it; `Ctrl+B` leaves it for visual
/// block; `Ctrl`/`Alt` commands go to Neovim; other keys stay with the
/// editor (for IME and completion) and are only recorded.
pub open spec fn insert_mode_spec(s: StateView, k: KeyInput) -> NStep {
    if leaves_mode(k) {
        ndone(record(s, "<Esc>"@), seq![nrun(EditorCommand::SendEscape)])
    } else if k.ctrl && k.keycode == KEY_B {
        ndone(record(record(s, "<Esc>"@), "<C-v>"@), seq![
            nrun(EditorCommand::SendEscape),
            NormalEffect::SendClearingPrefix("<C-v>"@),
        ])
    } else if k.ctrl || k.alt {
        let n = nvim_notation(k);
        if n.len() > 0 && n[0] == '<' {
            ndone(record(s, n), seq![nsend(n)])
        } else {
            unsent(s)
        }
    } else if recording(s) {
        match insert_key_name(k.keycode) {
            Some(name) => unsent(record(s, name)),
            None => match typed_char(k) {
                Some(c) => unsent(record(s, seq![c])),
                None => unsent(s),
            },
        }
    } else {
        unsent(s)
    }
}

fn insert_key_name_exec(code: u32) -> (r: Option<Vec<char>>)
    ensures
        r matches Some(v) ==> insert_key_name(code) == Some(v@),
        r is None ==> insert_key_name(code) is None,
{
    if code == KEY_BACKSPACE {
        Some(chars_of("<BS>"))
    } else if code == KEY_ENTER {
        Some(chars_of("<CR>"))
    } else if code == KEY_DELETE {
        Some(chars_of("<Del>"))
    } else if code == KEY_TAB {
        Some(chars_of("<Tab>"))
    } else {
        None
    }
}

fn not_consumed() -> (r: NResolution)
    ensures
        crate::normal::neffects_of(r.effects) == Seq::<crate::normal::NEffectView>::empty(),
        crate::normal::noutcome_view(r.outcome) == NormalOutcome::<Seq<char>>::Unsent,
{
    NResolution { effects: fx0(), outcome: NormalOutcome::Unsent }
}

/// Decide what a key typed in insert mode does.
pub fn handle_insert_mode_input(st: &mut InputState, k: &KeyInput) -> (r: NResolution)
    ensures
        nmatches(final(st)@, r, insert_mode_spec(old(st)@, *k)),
{
    if k.keycode == KEY_ESCAPE || (k.ctrl && k.keycode == KEY_BRACKETLEFT) {
        record_keys(st, &chars_of("<Esc>"));
        return handled(fx1(run(EditorCommand::SendEscape)));
    }
    if k.ctrl && k.keycode == KEY_B {
        record_keys(st, &chars_of("<Esc>"));
        record_keys(st, &chars_of("<C-v>"));
        return handled(fx2(run(EditorCommand::SendEscape), NormalEffect::SendClearingPrefix(chars_of("<C-v>"))));
    }
    if k.ctrl || k.alt {
        let n = key_event_to_nvim_notation(k);
        let nv = chars_of(n.as_str());
        if nv.len() > 0 && nv[0] == '<' {
            record_keys(st, &nv);
            return handled(fx1(NormalEffect::SendKeys(nv)));
        } else {
            return not_consumed();
        }
    }
    if is_recording(st) {
        match insert_key_name_exec(k.keycode) {
            Some(name) => {
                record_keys(st, &name);
            },
            None => {
                let ch = if k.unicode > 0 {
                    key_char(k)
                } else {
                    None
                };
                match ch {
                    Some(c) => {
                        let mut v: Vec<char> = Vec::new();
                        v.push(c);
                        assert(v@ =~= seq![c]);
                        record_keys(st, &v);
                    },
                    None => {},
                }
            },
        }
    }
    not_consumed()
}

/// Replace mode: `Esc`/`Ctrl+[` leave it; `Ctrl`/`Alt` keys go to Neovim;
/// a typed character first deletes the one under the cursor (when the
/// cursor is before the end of its line of `line_len` characters), then
/// the editor inserts it.
pub open spec fn replace_mode_spec(s: StateView, k: KeyInput, line_len: int, col: int) -> NStep {
    if leaves_mode(k) {
        ndone(s, seq![nrun(EditorCommand::SendEscape)])
    } else if k.ctrl || k.alt {
        if nvim_notation(k).len() > 0 {
            ndone(s, seq![nsend(nvim_notation(k))])
        } else {
            unsent(s)
        }
    } else if k.unicode > 0 && col < line_len {
        NStep { st: s, fx: seq![nrun(EditorCommand::DeleteCharForward)], out: NormalOutcome::Unsent }
    } else {
        unsent(s)
    }
}

/// Decide what a key typed in replace mode does; the cursor is at `col`
/// on a line of `line_len` characters.
pub fn handle_replace_mode_input(st: &InputState, k: &KeyInput, line_len: usize, col: usize) -> (r: NResolution)
    ensures
        nmatches(st@, r, replace_mode_spec(st@, *k, line_len as int, col as int)),
{
    if k.keycode == KEY_ESCAPE || (k.ctrl && k.keycode == KEY_BRACKETLEFT) {
        return handled(fx1(run(EditorCommand::SendEscape)));
    }
    if k.ctrl || k.alt {
        let n = key_event_to_nvim_notation(k);
        let nv = chars_of(n.as_str());
        if nv.len() > 0 {
            return handled(fx1(NormalEffect::SendKeys(nv)));
        } else {
            return not_consumed();
        }
    }
    if k.unicode > 0 && col < line_len {
        return NResolution { effects: fx1(run(EditorCommand::DeleteCharForward)), outcome: NormalOutcome::Unsent };
    }
    not_consumed()
}

/// What a key typed on the search line does.
pub enum SearchKeyOutcome {
    /// `Esc`: close the search line.
    Close,
    /// `Enter`: run the search.
    Execute,
    /// The buffer changed: show it again.
    Redraw,
    Unchanged,
}

pub open spec fn search_key_spec(buffer: Seq<char>, k: KeyInput) -> (Seq<char>, SearchKeyOutcome) {
    if k.keycode == KEY_ESCAPE {
        (buffer, SearchKeyOutcome::Close)
    } else if k.keycode == KEY_ENTER {
        (buffer, SearchKeyOutcome::Execute)
    } else if k.keycode == KEY_BACKSPACE {
        if utf8_len(buffer) > 1 {
            (buffer.drop_last(), SearchKeyOutcome::Redraw)
        } else {
            (buffer, SearchKeyOutcome::Unchanged)
        }
    } else {
        match typed_char(k) {
            Some(c) => (buffer.push(c), SearchKeyOutcome::Redraw),
            None => (buffer, SearchKeyOutcome::Unchanged),
        }
    }
}

/// Handle a key typed on the search line (`/` or `?` and the pattern);
/// the key is always consumed.
pub fn handle_search_mode_input(buffer: &mut Vec<char>, k: &KeyInput) -> (r: SearchKeyOutcome)
    ensures
        (final(buffer)@, r) == search_key_spec(old(buffer)@, *k),
{
    if k.keycode == KEY_ESCAPE {
        SearchKeyOutcome::Close
    } else if k.keycode == KEY_ENTER {
        SearchKeyOutcome::Execute
    } else if k.keycode == KEY_BACKSPACE {
        if utf8_len_above_one(buffer) {
            buffer.pop();
            SearchKeyOutcome::Redraw
        } else {
            SearchKeyOutcome::Unchanged
        }
    } else {
        let ch = if k.unicode > 0 {
            key_char(k)
        } else {
            None
        };
        match ch {
            Some(c) => {
                buffer.push(c);
                SearchKeyOutcome::Redraw
            },
            None => SearchKeyOutcome::Unchanged,
        }
    }
}

} // verus!
