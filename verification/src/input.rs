//! Key handling of the editor plugin when it emulates Vim locally.
//!
//! [`input`] decides what one key press does in any mode: keys for the
//! open command line, keys completing a pending `f`/`m`/`q`/`"`
//! operation, insert-mode keys, and normal/visual-mode commands run
//! directly on the editor.  Keys no rule claims are forwarded to Neovim
//! as they are; the caller sends them and finishes with
//! [`after_forward`].

use crate::chars::is_lower;
use crate::cmdline::typed_char;
use crate::dispatch::{
    ch_is, clear_last_key, cleared_last_key, key_is, last_key_is, mode_is, mode_is_visual, plain,
    record, record_keys, scroll_command, scroll_command_spec, set_last_key, shifted,
    with_last_key, InputState, KeyState, ScrollCommand, StateView,
};
use crate::keys::{
    is_visual_mode_spec, key_char, key_event_to_nvim_notation, key_event_to_nvim_string,
    nvim_key_defined_exec, nvim_key_string, nvim_key_string_defined, nvim_notation, KeyInput,
    KEY_A, KEY_B, KEY_BRACKETLEFT, KEY_COMMA, KEY_D, KEY_E, KEY_ESCAPE, KEY_F, KEY_H, KEY_I,
    KEY_J, KEY_L, KEY_M, KEY_N, KEY_O, KEY_P, KEY_Q, KEY_R, KEY_SEMICOLON, KEY_SLASH, KEY_T,
    KEY_U, KEY_X, KEY_Y, KEY_Z,
};
use crate::normal::{
    fx0, fx1, fx2, handled, ndone, nmatches, normal_stop_recording, normal_stop_recording_exec,
    nrun, nsend, run, z_reset, EditorCommand, NResolution, NStep, NormalEffect, NormalOutcome,
};
use vstd::prelude::*;

verus! {

pub open spec fn run1(s: StateView, c: EditorCommand) -> Option<NStep> {
    Some(ndone(s, seq![nrun(c)]))
}

/// What the character after `f F t T r` does.
pub open spec fn char_op_command(op: char, c: char) -> Option<EditorCommand> {
    if op == 'f' {
        Some(EditorCommand::FindChar(c, true, false))
    } else if op == 'F' {
        Some(EditorCommand::FindChar(c, false, false))
    } else if op == 't' {
        Some(EditorCommand::FindChar(c, true, true))
    } else if op == 'T' {
        Some(EditorCommand::FindChar(c, false, true))
    } else if op == 'r' {
        Some(EditorCommand::ReplaceChar(c))
    } else {
        None
    }
}

/// What the mark name after `m ' `` ` does.
pub open spec fn mark_op_command(op: char, c: char) -> Option<EditorCommand> {
    if op == 'm' {
        Some(EditorCommand::SetMark(c))
    } else if op == '\'' {
        Some(EditorCommand::JumpToMarkLine(c))
    } else if op == '`' {
        Some(EditorCommand::JumpToMarkPosition(c))
    } else {
        None
    }
}

pub open spec fn command_fx(c: Option<EditorCommand>) -> Seq<crate::normal::NEffectView> {
    match c {
        Some(c) => seq![nrun(c)],
        None => Seq::empty(),
    }
}

/// A key completing a pending `f F t T r`, `m ' ``, `q @` or `"`; `None`
/// when there is none or the key does not complete it.
pub open spec fn pending_input_spec(s: StateView, k: KeyInput) -> Option<NStep> {
    let esc = k.keycode == KEY_ESCAPE;
    if s.pending_char_op is Some && (esc || typed_char(k) is Some) {
        let st = KeyState { pending_char_op: None, ..s };
        if esc {
            Some(ndone(st, Seq::empty()))
        } else {
            Some(ndone(st, command_fx(char_op_command(s.pending_char_op->0, typed_char(k)->0))))
        }
    } else if s.pending_mark_op is Some && (esc || (typed_char(k) is Some && is_lower(typed_char(k)->0))) {
        let st = KeyState { pending_mark_op: None, ..s };
        if esc {
            Some(ndone(st, Seq::empty()))
        } else {
            Some(ndone(st, command_fx(mark_op_command(s.pending_mark_op->0, typed_char(k)->0))))
        }
    } else if s.pending_macro_op is Some && (esc || typed_char(k) is Some) {
        let st = KeyState { pending_macro_op: None, ..s };
        let op = s.pending_macro_op->0;
        if esc {
            Some(ndone(st, Seq::empty()))
        } else {
            let c = typed_char(k)->0;
            if op == 'q' && is_lower(c) {
                Some(ndone(KeyState { recording_macro: Some(c), macro_buffer: Seq::empty(), ..st }, Seq::empty()))
            } else if op == '@' && c == '@' {
                Some(ndone(st, seq![nrun(EditorCommand::ReplayLastMacro)]))
            } else if op == '@' && is_lower(c) {
                Some(ndone(st, seq![nrun(EditorCommand::PlayMacro(c))]))
            } else {
                Some(ndone(st, Seq::empty()))
            }
        }
    } else if s.selected_register == Some('\0') && (esc || (typed_char(k) is Some && is_lower(typed_char(k)->0))) {
        if esc {
            Some(ndone(KeyState { selected_register: None, ..s }, Seq::empty()))
        } else {
            Some(ndone(KeyState { selected_register: Some(typed_char(k)->0), ..s }, Seq::empty()))
        }
    } else {
        None
    }
}

/// Insert mode: `Esc`/`Ctrl+[` leave it, `Ctrl+B` leaves it for visual
/// block; other keys go to Neovim (strict input) or stay with the editor
/// (hybrid input, for IME).
pub open spec fn insert_input_spec(s: StateView, k: KeyInput, hybrid: bool) -> NStep {
    if k.keycode == KEY_ESCAPE || (k.ctrl && key_is(k, KEY_BRACKETLEFT)) {
        ndone(s, seq![nrun(EditorCommand::SendEscape)])
    } else if k.ctrl && key_is(k, KEY_B) {
        ndone(s, seq![nrun(EditorCommand::SendEscape), NormalEffect::SendClearingPrefix("<C-v>"@)])
    } else if hybrid || nvim_notation(k).len() == 0 {
        NStep { st: s, fx: Seq::empty(), out: NormalOutcome::Unsent }
    } else {
        ndone(s, seq![NormalEffect::SendInsertKeys(nvim_notation(k))])
    }
}

/// `Ctrl` keys of normal and visual mode.
pub open spec fn local_ctrl_spec(s: StateView, k: KeyInput) -> Option<NStep> {
    if !k.ctrl {
        None
    } else if key_is(k, KEY_B) {
        if is_visual_mode_spec(s.mode) {
            Some(ndone(s, seq![NormalEffect::SendClearingPrefix("<C-v>"@)]))
        } else {
            run1(s, EditorCommand::PageUp)
        }
    } else if key_is(k, KEY_F) {
        run1(s, EditorCommand::PageDown)
    } else if key_is(k, KEY_Y) {
        run1(s, EditorCommand::ScrollViewportUp)
    } else if key_is(k, KEY_E) {
        run1(s, EditorCommand::ScrollViewportDown)
    } else if key_is(k, KEY_A) {
        run1(s, EditorCommand::IncrementNumber(true))
    } else if key_is(k, KEY_X) {
        run1(s, EditorCommand::IncrementNumber(false))
    } else if key_is(k, KEY_O) {
        run1(s, EditorCommand::JumpBack)
    } else if key_is(k, KEY_I) {
        run1(s, EditorCommand::JumpForward)
    } else {
        None
    }
}

/// Find dialog, command line, word search, undo and redo.
pub open spec fn local_search_spec(s: StateView, k: KeyInput) -> Option<NStep> {
    if key_is(k, KEY_SLASH) && plain(k) {
        run1(s, EditorCommand::OpenFindDialog)
    } else if ch_is(k, ':') {
        run1(s, EditorCommand::OpenCommandLine)
    } else if ch_is(k, '*') {
        run1(s, EditorCommand::SearchWord('*'))
    } else if ch_is(k, '#') {
        run1(s, EditorCommand::SearchWord('#'))
    } else if key_is(k, KEY_N) && plain(k) {
        run1(s, EditorCommand::SearchNext(true))
    } else if key_is(k, KEY_N) && shifted(k) {
        run1(s, EditorCommand::SearchNext(false))
    } else if key_is(k, KEY_U) && plain(k) && s.last_key != "g"@ {
        run1(s, EditorCommand::Undo)
    } else if key_is(k, KEY_R) && k.ctrl {
        run1(s, EditorCommand::Redo)
    } else {
        None
    }
}

/// Character finds and line motions.
pub open spec fn local_motion_spec(s: StateView, k: KeyInput) -> Option<NStep> {
    let char_op = |c: char| Some(ndone(KeyState { pending_char_op: Some(c), ..s }, Seq::empty()));
    if key_is(k, KEY_F) && plain(k) {
        char_op('f')
    } else if key_is(k, KEY_F) && shifted(k) {
        char_op('F')
    } else if key_is(k, KEY_T) && plain(k) {
        char_op('t')
    } else if key_is(k, KEY_T) && shifted(k) {
        char_op('T')
    } else if key_is(k, KEY_SEMICOLON) && !k.shift {
        run1(s, EditorCommand::RepeatFindChar(true))
    } else if key_is(k, KEY_COMMA) && !k.shift {
        run1(s, EditorCommand::RepeatFindChar(false))
    } else if ch_is(k, '%') {
        run1(s, EditorCommand::JumpToMatchingBracket)
    } else if ch_is(k, '0') && !k.ctrl {
        run1(s, EditorCommand::MoveToLineStart)
    } else if ch_is(k, '^') {
        run1(s, EditorCommand::MoveToFirstNonBlank)
    } else if ch_is(k, '$') {
        run1(s, EditorCommand::MoveToLineEnd)
    } else if ch_is(k, '{') {
        run1(s, EditorCommand::PrevParagraph)
    } else if ch_is(k, '}') {
        run1(s, EditorCommand::NextParagraph)
    } else {
        None
    }
}

/// Edits, marks, macros, registers, `>>`/`<<` and `J`.
pub open spec fn local_edit_spec(s: StateView, k: KeyInput) -> Option<NStep> {
    let mark_op = |c: char| Some(ndone(KeyState { pending_mark_op: Some(c), ..s }, Seq::empty()));
    if key_is(k, KEY_X) && plain(k) {
        run1(s, EditorCommand::DeleteCharForward)
    } else if key_is(k, KEY_X) && shifted(k) {
        run1(s, EditorCommand::DeleteCharBackward)
    } else if key_is(k, KEY_R) && plain(k) {
        Some(ndone(KeyState { pending_char_op: Some('r'), ..s }, Seq::empty()))
    } else if ch_is(k, '~') {
        run1(s, EditorCommand::ToggleCase)
    } else if key_is(k, KEY_M) && plain(k) {
        mark_op('m')
    } else if ch_is(k, '\'') && !k.ctrl {
        mark_op('\'')
    } else if ch_is(k, '`') && !k.ctrl {
        mark_op('`')
    } else if key_is(k, KEY_Q) && plain(k) {
        if s.recording_macro is Some {
            Some(normal_stop_recording(s))
        } else {
            Some(ndone(KeyState { pending_macro_op: Some('q'), ..s }, Seq::empty()))
        }
    } else if ch_is(k, '@') && !k.ctrl {
        Some(ndone(KeyState { pending_macro_op: Some('@'), ..s }, Seq::empty()))
    } else if ch_is(k, '"') && !k.ctrl {
        Some(ndone(KeyState { selected_register: Some('\0'), ..s }, Seq::empty()))
    } else if ch_is(k, '>') {
        if s.last_key == ">"@ {
            Some(ndone(cleared_last_key(s), seq![nrun(EditorCommand::IndentLine)]))
        } else {
            Some(ndone(with_last_key(s, ">"@), Seq::empty()))
        }
    } else if ch_is(k, '<') {
        if s.last_key == "<"@ {
            Some(ndone(cleared_last_key(s), seq![nrun(EditorCommand::UnindentLine)]))
        } else {
            Some(ndone(with_last_key(s, "<"@), Seq::empty()))
        }
    } else if key_is(k, KEY_J) && shifted(k) {
        run1(s, EditorCommand::JoinLines)
    } else {
        None
    }
}

/// Half pages, `H`/`M`/`L`, `ZZ` and `ZQ`.
pub open spec fn local_late_spec(s: StateView, k: KeyInput) -> Option<NStep> {
    if k.ctrl && key_is(k, KEY_D) {
        run1(s, EditorCommand::HalfPageDown)
    } else if k.ctrl && key_is(k, KEY_U) {
        run1(s, EditorCommand::HalfPageUp)
    } else if !k.ctrl && !k.alt && k.shift && key_is(k, KEY_H) {
        run1(s, EditorCommand::VisibleTop)
    } else if !k.ctrl && !k.alt && k.shift && key_is(k, KEY_M) {
        run1(s, EditorCommand::VisibleMiddle)
    } else if !k.ctrl && !k.alt && k.shift && key_is(k, KEY_L) {
        run1(s, EditorCommand::VisibleBottom)
    } else if key_is(k, KEY_Z) && shifted(k) {
        if s.last_key == "Z"@ {
            Some(ndone(cleared_last_key(s), seq![nrun(EditorCommand::SaveAndClose)]))
        } else {
            Some(ndone(with_last_key(s, "Z"@), Seq::empty()))
        }
    } else if key_is(k, KEY_Q) && shifted(k) && s.last_key == "Z"@ {
        Some(ndone(cleared_last_key(s), seq![nrun(EditorCommand::CloseDiscard)]))
    } else {
        None
    }
}

/// Keys after `"x`: `yy`, `p`, `P`, `dd`.  Any other key drops the
/// register (but `y` and `d`, which wait for their second key).
pub open spec fn local_register_spec(s: StateView, k: KeyInput) -> (StateView, Option<NStep>) {
    match s.selected_register {
        Some(reg) => if reg == '\0' {
            (s, None)
        } else if key_is(k, KEY_Y) && plain(k) {
            if s.last_key == "y"@ {
                (s, Some(ndone(KeyState { selected_register: None, ..cleared_last_key(s) }, seq![nrun(EditorCommand::YankLine(reg))])))
            } else {
                (s, Some(ndone(with_last_key(s, "y"@), Seq::empty())))
            }
        } else if key_is(k, KEY_P) && plain(k) {
            (s, Some(ndone(KeyState { selected_register: None, ..s }, seq![nrun(EditorCommand::PasteFromRegister(reg, false))])))
        } else if key_is(k, KEY_P) && shifted(k) {
            (s, Some(ndone(KeyState { selected_register: None, ..s }, seq![nrun(EditorCommand::PasteFromRegister(reg, true))])))
        } else if key_is(k, KEY_D) && plain(k) {
            if s.last_key == "d"@ {
                (s, Some(ndone(KeyState { selected_register: None, ..cleared_last_key(s) }, seq![nrun(EditorCommand::DeleteLine(reg))])))
            } else {
                (s, Some(ndone(with_last_key(s, "d"@), Seq::empty())))
            }
        } else if !key_is(k, KEY_Y) && !key_is(k, KEY_D) {
            (KeyState { selected_register: None, ..s }, None)
        } else {
            (s, None)
        },
        None => (s, None),
    }
}

/// The last rule: the key is recorded and forwarded to Neovim.
pub open spec fn local_forward_spec(s: StateView, k: KeyInput) -> NStep {
    if !nvim_key_string_defined(k) {
        NStep { st: s, fx: Seq::empty(), out: NormalOutcome::Undefined }
    } else {
        match nvim_key_string(k) {
            None => NStep { st: s, fx: Seq::empty(), out: NormalOutcome::Unsent },
            Some(keys) => NStep { st: record(s, keys), fx: Seq::empty(), out: NormalOutcome::Forward(keys) },
        }
    }
}

/// What one key press does. `command_mode` tells whether the command
/// line is open, `hybrid` whether insert mode leaves plain keys to the
/// editor.
pub open spec fn input_spec(s: StateView, k: KeyInput, command_mode: bool, hybrid: bool) -> NStep {
    if command_mode {
        ndone(s, seq![nrun(EditorCommand::CommandLineKey)])
    } else if pending_input_spec(s, k) is Some {
        pending_input_spec(s, k)->0
    } else if s.mode == "i"@ {
        insert_input_spec(s, k, hybrid)
    } else if local_ctrl_spec(s, k) is Some {
        local_ctrl_spec(s, k)->0
    } else if local_search_spec(s, k) is Some {
        local_search_spec(s, k)->0
    } else if local_motion_spec(s, k) is Some {
        local_motion_spec(s, k)->0
    } else if local_edit_spec(s, k) is Some {
        local_edit_spec(s, k)->0
    } else if local_late_spec(s, k) is Some {
        local_late_spec(s, k)->0
    } else {
        let (s2, p) = local_register_spec(z_reset(s, k), k);
        if p is Some {
            p->0
        } else {
            local_forward_spec(s2, k)
        }
    }
}

// ---------------------------------------------------------------------
// Running code
// ---------------------------------------------------------------------

fn typed_char_exec(k: &KeyInput) -> (r: Option<char>)
    ensures
        r == typed_char(*k),
{
    if k.unicode > 0 {
        key_char(k)
    } else {
        None
    }
}

fn fx_command(c: Option<EditorCommand>) -> (fx: Vec<crate::normal::NEffect>)
    ensures
        crate::normal::neffects_of(fx) == command_fx(c),
{
    match c {
        Some(c) => fx1(run(c)),
        None => fx0(),
    }
}

fn char_op_command_exec(op: char, c: char) -> (r: Option<EditorCommand>)
    ensures
        r == char_op_command(op, c),
{
    if op == 'f' {
        Some(EditorCommand::FindChar(c, true, false))
    } else if op == 'F' {
        Some(EditorCommand::FindChar(c, false, false))
    } else if op == 't' {
        Some(EditorCommand::FindChar(c, true, true))
    } else if op == 'T' {
        Some(EditorCommand::FindChar(c, false, true))
    } else if op == 'r' {
        Some(EditorCommand::ReplaceChar(c))
    } else {
        None
    }
}

fn mark_op_command_exec(op: char, c: char) -> (r: Option<EditorCommand>)
    ensures
        r == mark_op_command(op, c),
{
    if op == 'm' {
        Some(EditorCommand::SetMark(c))
    } else if op == '\'' {
        Some(EditorCommand::JumpToMarkLine(c))
    } else if op == '`' {
        Some(EditorCommand::JumpToMarkPosition(c))
    } else {
        None
    }
}

fn pending_input(st: &mut InputState, k: &KeyInput) -> (r: Option<NResolution>)
    ensures
        ({
            let p = pending_input_spec(old(st)@, *k);
            match r {
                Some(res) => p is Some && nmatches(final(st)@, res, p->0),
                None => p is None && final(st)@ == old(st)@,
            }
        }),
{
    let esc = k.keycode == KEY_ESCAPE;
    let ch = typed_char_exec(k);
    if st.pending_char_op.is_some() && (esc || ch.is_some()) {
        let op = st.pending_char_op.unwrap();
        st.pending_char_op = None;
        if esc {
            return Some(handled(fx0()));
        }
        return Some(handled(fx_command(char_op_command_exec(op, ch.unwrap()))));
    }
    let lower = ch.is_some() && 'a' <= ch.unwrap() && ch.unwrap() <= 'z';
    if st.pending_mark_op.is_some() && (esc || lower) {
        let op = st.pending_mark_op.unwrap();
        st.pending_mark_op = None;
        if esc {
            return Some(handled(fx0()));
        }
        return Some(handled(fx_command(mark_op_command_exec(op, ch.unwrap()))));
    }
    if st.pending_macro_op.is_some() && (esc || ch.is_some()) {
        let op = st.pending_macro_op.unwrap();
        st.pending_macro_op = None;
        if esc {
            return Some(handled(fx0()));
        }
        let c = ch.unwrap();
        if op == 'q' && lower {
            st.recording_macro = Some(c);
            st.macro_buffer = Vec::new();
            assert(crate::dispatch::texts_view(st.macro_buffer@) =~= Seq::<Seq<char>>::empty());
            return Some(handled(fx0()));
        } else if op == '@' && c == '@' {
            return Some(handled(fx1(run(EditorCommand::ReplayLastMacro))));
        } else if op == '@' && lower {
            return Some(handled(fx1(run(EditorCommand::PlayMacro(c)))));
        } else {
            return Some(handled(fx0()));
        }
    }
    if st.selected_register == Some('\0') && (esc || lower) {
        if esc {
            st.selected_register = None;
        } else {
            st.selected_register = ch;
        }
        return Some(handled(fx0()));
    }
    None
}

fn insert_input(st: &InputState, k: &KeyInput, hybrid: bool) -> (r: NResolution)
    ensures
        nmatches(st@, r, insert_input_spec(st@, *k, hybrid)),
{
    if k.keycode == KEY_ESCAPE || (k.ctrl && k.keycode == KEY_BRACKETLEFT) {
        return handled(fx1(run(EditorCommand::SendEscape)));
    }
    if k.ctrl && k.keycode == KEY_B {
        let fx = fx2(
            run(EditorCommand::SendEscape),
            NormalEffect::SendClearingPrefix(crate::chars::chars_of("<C-v>")),
        );
        return handled(fx);
    }
    if hybrid {
        return NResolution { effects: fx0(), outcome: NormalOutcome::Unsent };
    }
    let notation = key_event_to_nvim_notation(k);
    let nv = crate::chars::chars_of(notation.as_str());
    if nv.len() == 0 {
        NResolution { effects: fx0(), outcome: NormalOutcome::Unsent }
    } else {
        handled(fx1(NormalEffect::SendInsertKeys(nv)))
    }
}

fn run_only(c: EditorCommand) -> (r: Option<NResolution>)
    ensures
        r matches Some(res) && crate::normal::neffects_of(res.effects) == seq![nrun(c)]
            && noutcome_handled(res),
{
    Some(handled(fx1(run(c))))
}

pub open spec fn noutcome_handled(r: NResolution) -> bool {
    crate::normal::noutcome_view(r.outcome) == NormalOutcome::<Seq<char>>::Handled
}

fn local_ctrl(st: &InputState, k: &KeyInput) -> (r: Option<NResolution>)
    ensures
        ({
            let p = local_ctrl_spec(st@, *k);
            match r {
                Some(res) => p is Some && nmatches(st@, res, p->0),
                None => p is None,
            }
        }),
{
    if !k.ctrl {
        return None;
    }
    let c = k.keycode;
    if c == KEY_B {
        if mode_is_visual(st) {
            Some(handled(fx1(NormalEffect::SendClearingPrefix(crate::chars::chars_of("<C-v>")))))
        } else {
            run_only(EditorCommand::PageUp)
        }
    } else if c == KEY_F {
        run_only(EditorCommand::PageDown)
    } else if c == KEY_Y {
        run_only(EditorCommand::ScrollViewportUp)
    } else if c == KEY_E {
        run_only(EditorCommand::ScrollViewportDown)
    } else if c == KEY_A {
        run_only(EditorCommand::IncrementNumber(true))
    } else if c == KEY_X {
        run_only(EditorCommand::IncrementNumber(false))
    } else if c == KEY_O {
        run_only(EditorCommand::JumpBack)
    } else if c == KEY_I {
        run_only(EditorCommand::JumpForward)
    } else {
        None
    }
}

fn local_search(st: &InputState, k: &KeyInput) -> (r: Option<NResolution>)
    ensures
        ({
            let p = local_search_spec(st@, *k);
            match r {
                Some(res) => p is Some && nmatches(st@, res, p->0),
                None => p is None,
            }
        }),
{
    let ch = key_char(k);
    let plain = !k.shift && !k.ctrl;
    if k.keycode == KEY_SLASH && plain {
        run_only(EditorCommand::OpenFindDialog)
    } else if ch == Some(':') {
        run_only(EditorCommand::OpenCommandLine)
    } else if ch == Some('*') {
        run_only(EditorCommand::SearchWord('*'))
    } else if ch == Some('#') {
        run_only(EditorCommand::SearchWord('#'))
    } else if k.keycode == KEY_N && plain {
        run_only(EditorCommand::SearchNext(true))
    } else if k.keycode == KEY_N && k.shift && !k.ctrl {
        run_only(EditorCommand::SearchNext(false))
    } else if k.keycode == KEY_U && plain && !last_key_is(st, "g") {
        run_only(EditorCommand::Undo)
    } else if k.keycode == KEY_R && k.ctrl {
        run_only(EditorCommand::Redo)
    } else {
        None
    }
}

fn local_motion(st: &mut InputState, k: &KeyInput) -> (r: Option<NResolution>)
    ensures
        ({
            let p = local_motion_spec(old(st)@, *k);
            match r {
                Some(res) => p is Some && nmatches(final(st)@, res, p->0),
                None => p is None && final(st)@ == old(st)@,
            }
        }),
{
    let ch = key_char(k);
    let plain = !k.shift && !k.ctrl;
    let shifted = k.shift && !k.ctrl;
    let op: Option<char> = if k.keycode == KEY_F && plain {
        Some('f')
    } else if k.keycode == KEY_F && shifted {
        Some('F')
    } else if k.keycode == KEY_T && plain {
        Some('t')
    } else if k.keycode == KEY_T && shifted {
        Some('T')
    } else {
        None
    };
    if op.is_some() {
        st.pending_char_op = op;
        return Some(handled(fx0()));
    }
    if k.keycode == KEY_SEMICOLON && !k.shift {
        run_only(EditorCommand::RepeatFindChar(true))
    } else if k.keycode == KEY_COMMA && !k.shift {
        run_only(EditorCommand::RepeatFindChar(false))
    } else if ch == Some('%') {
        run_only(EditorCommand::JumpToMatchingBracket)
    } else if ch == Some('0') && !k.ctrl {
        run_only(EditorCommand::MoveToLineStart)
    } else if ch == Some('^') {
        run_only(EditorCommand::MoveToFirstNonBlank)
    } else if ch == Some('$') {
        run_only(EditorCommand::MoveToLineEnd)
    } else if ch == Some('{') {
        run_only(EditorCommand::PrevParagraph)
    } else if ch == Some('}') {
        run_only(EditorCommand::NextParagraph)
    } else {
        None
    }
}

fn local_edit(st: &mut InputState, k: &KeyInput) -> (r: Option<NResolution>)
    ensures
        ({
            let p = local_edit_spec(old(st)@, *k);
            match r {
                Some(res) => p is Some && nmatches(final(st)@, res, p->0),
                None => p is None && final(st)@ == old(st)@,
            }
        }),
{
    let ch = key_char(k);
    let plain = !k.shift && !k.ctrl;
    let shifted = k.shift && !k.ctrl;
    let c = k.keycode;
    if c == KEY_X && plain {
        return run_only(EditorCommand::DeleteCharForward);
    }
    if c == KEY_X && shifted {
        return run_only(EditorCommand::DeleteCharBackward);
    }
    if c == KEY_R && plain {
        st.pending_char_op = Some('r');
        return Some(handled(fx0()));
    }
    if ch == Some('~') {
        return run_only(EditorCommand::ToggleCase);
    }
    let mark: Option<char> = if c == KEY_M && plain {
        Some('m')
    } else if ch == Some('\'') && !k.ctrl {
        Some('\'')
    } else if ch == Some('`') && !k.ctrl {
        Some('`')
    } else {
        None
    };
    if mark.is_some() {
        st.pending_mark_op = mark;
        return Some(handled(fx0()));
    }
    if c == KEY_Q && plain {
        if st.recording_macro.is_some() {
            return Some(normal_stop_recording_exec(st));
        } else {
            st.pending_macro_op = Some('q');
            return Some(handled(fx0()));
        }
    }
    if ch == Some('@') && !k.ctrl {
        st.pending_macro_op = Some('@');
        return Some(handled(fx0()));
    }
    if ch == Some('"') && !k.ctrl {
        st.selected_register = Some('\0');
        return Some(handled(fx0()));
    }
    if ch == Some('>') {
        if last_key_is(st, ">") {
            clear_last_key(st);
            return run_only(EditorCommand::IndentLine);
        } else {
            set_last_key(st, ">");
            return Some(handled(fx0()));
        }
    }
    if ch == Some('<') {
        if last_key_is(st, "<") {
            clear_last_key(st);
            return run_only(EditorCommand::UnindentLine);
        } else {
            set_last_key(st, "<");
            return Some(handled(fx0()));
        }
    }
    if c == KEY_J && shifted {
        return run_only(EditorCommand::JoinLines);
    }
    None
}

fn local_late(st: &mut InputState, k: &KeyInput) -> (r: Option<NResolution>)
    ensures
        ({
            let p = local_late_spec(old(st)@, *k);
            match r {
                Some(res) => p is Some && nmatches(final(st)@, res, p->0),
                None => p is None && final(st)@ == old(st)@,
            }
        }),
{
    let c = k.keycode;
    let shifted = k.shift && !k.ctrl;
    let upper = !k.ctrl && !k.alt && k.shift;
    if k.ctrl && c == KEY_D {
        run_only(EditorCommand::HalfPageDown)
    } else if k.ctrl && c == KEY_U {
        run_only(EditorCommand::HalfPageUp)
    } else if upper && c == KEY_H {
        run_only(EditorCommand::VisibleTop)
    } else if upper && c == KEY_M {
        run_only(EditorCommand::VisibleMiddle)
    } else if upper && c == KEY_L {
        run_only(EditorCommand::VisibleBottom)
    } else if c == KEY_Z && shifted {
        if last_key_is(st, "Z") {
            clear_last_key(st);
            run_only(EditorCommand::SaveAndClose)
        } else {
            set_last_key(st, "Z");
            Some(handled(fx0()))
        }
    } else if c == KEY_Q && shifted && last_key_is(st, "Z") {
        clear_last_key(st);
        run_only(EditorCommand::CloseDiscard)
    } else {
        None
    }
}

fn local_register(st: &mut InputState, k: &KeyInput) -> (r: Option<NResolution>)
    ensures
        ({
            let (s1, p) = local_register_spec(old(st)@, *k);
            match r {
                Some(res) => p is Some && nmatches(final(st)@, res, p->0),
                None => p is None && final(st)@ == s1,
            }
        }),
{
    let reg = match st.selected_register {
        Some(r) => r,
        None => {
            return None;
        },
    };
    if reg == '\0' {
        return None;
    }
    let plain = !k.shift && !k.ctrl;
    if k.keycode == KEY_Y && plain {
        if last_key_is(st, "y") {
            clear_last_key(st);
            st.selected_register = None;
            return run_only(EditorCommand::YankLine(reg));
        } else {
            set_last_key(st, "y");
            return Some(handled(fx0()));
        }
    }
    if k.keycode == KEY_P && !k.ctrl {
        let before = k.shift;
        st.selected_register = None;
        return run_only(EditorCommand::PasteFromRegister(reg, before));
    }
    if k.keycode == KEY_D && plain {
        if last_key_is(st, "d") {
            clear_last_key(st);
            st.selected_register = None;
            return run_only(EditorCommand::DeleteLine(reg));
        } else {
            set_last_key(st, "d");
            return Some(handled(fx0()));
        }
    }
    if k.keycode != KEY_Y && k.keycode != KEY_D {
        st.selected_register = None;
    }
    None
}

fn local_forward(st: &mut InputState, k: &KeyInput) -> (r: NResolution)
    ensures
        nmatches(final(st)@, r, local_forward_spec(old(st)@, *k)),
{
    if !nvim_key_defined_exec(k) {
        return NResolution { effects: fx0(), outcome: NormalOutcome::Undefined };
    }
    match key_event_to_nvim_string(k) {
        None => NResolution { effects: fx0(), outcome: NormalOutcome::Unsent },
        Some(keys) => {
            let kv = crate::chars::chars_of(keys.as_str());
            record_keys(st, &kv);
            NResolution { effects: fx0(), outcome: NormalOutcome::Forward(kv) }
        },
    }
}

/// Decide what one key press does. `command_mode` tells whether the
/// command line is open; `hybrid` whether insert mode leaves plain keys
/// to the editor.
pub fn input(st: &mut InputState, k: &KeyInput, command_mode: bool, hybrid: bool) -> (r: NResolution)
    ensures
        nmatches(final(st)@, r, input_spec(old(st)@, *k, command_mode, hybrid)),
{
    if command_mode {
        return handled(fx1(run(EditorCommand::CommandLineKey)));
    }
    match pending_input(st, k) {
        Some(r) => {
            return r;
        },
        None => {},
    }
    if mode_is(st, "i") {
        return insert_input(st, k, hybrid);
    }
    match local_ctrl(st, k) {
        Some(r) => {
            return r;
        },
        None => {},
    }
    match local_search(st, k) {
        Some(r) => {
            return r;
        },
        None => {},
    }
    match local_motion(st, k) {
        Some(r) => {
            return r;
        },
        None => {},
    }
    match local_edit(st, k) {
        Some(r) => {
            return r;
        },
        None => {},
    }
    match local_late(st, k) {
        Some(r) => {
            return r;
        },
        None => {},
    }
    if last_key_is(st, "Z") && k.keycode != KEY_Z && k.keycode != KEY_Q {
        clear_last_key(st);
    }
    match local_register(st, k) {
        Some(r) => {
            return r;
        },
        None => {},
    }
    local_forward(st, k)
}

/// After a forwarded key was sent: a completed command that the editor
/// carries out clears the prefix; otherwise the key becomes the prefix.
pub fn after_forward(st: &mut InputState, keys: &Vec<char>, completed: bool) -> (r: Option<ScrollCommand>)
    ensures
        r == (if completed { scroll_command_spec(old(st)@.last_key, keys@) } else { None }),
        final(st)@ == (if r is Some { cleared_last_key(old(st)@) } else { with_last_key(old(st)@, keys@) }),
{
    let cmd = if completed {
        scroll_command(st, keys)
    } else {
        None
    };
    if cmd.is_some() {
        clear_last_key(st);
    } else {
        st.last_key = crate::chars::slice_of(keys, 0, keys.len());
        assert(st@.last_key =~= keys@);
    }
    cmd
}

} // verus!
