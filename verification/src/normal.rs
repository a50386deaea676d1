//! Normal-mode keys handled in the editor's own key loop.
//!
//! [`handle_normal_mode_input`] takes one key press in normal or visual
//! mode and decides what it does: the keys sent to Neovim, the editor
//! commands run, and the prefix, count, register and pending states it
//! starts or ends.  A key that no rule claims is forwarded to Neovim as
//! it is; the caller sends it and finishes with
//! [`crate::dispatch::after_forward`].

use crate::chars::{chars_of, concat, is_digit, is_digit_char};
use crate::dispatch::{
    char_op_state, clear_count, clear_last_key, clear_pending, cleared_count, cleared_last_key,
    cleared_pending, count_digit, count_value, key_is, ch_is, last_key_is, mark_op_state, mode_is,
    mode_is_visual, not_after, one, plain, record, record_keys, set_last_key, shifted, texts_view,
    with_last_key, InputState, KeyState, StateView,
};
use crate::keys::{
    is_visual_mode_spec, key_char, key_event_to_nvim_string, nvim_key_defined_exec,
    nvim_key_string, nvim_key_string_defined, unicode_char, KeyInput, KEY_A, KEY_B,
    KEY_BRACKETLEFT, KEY_BRACKETRIGHT, KEY_C, KEY_COMMA, KEY_D, KEY_E, KEY_F, KEY_G, KEY_H, KEY_I,
    KEY_J, KEY_K, KEY_L, KEY_M, KEY_N, KEY_O, KEY_P, KEY_Q, KEY_R, KEY_S, KEY_SEMICOLON, KEY_T,
    KEY_U, KEY_X, KEY_Y, KEY_Z,
};
use crate::numbers::digits_value_upto;
use vstd::prelude::*;

verus! {

/// Editor-side commands a normal-mode key can run.
#[derive(Clone, Copy, Debug, PartialEq, Eq)]
pub enum EditorCommand {
    /// Abandon an operator waiting for its motion.
    CancelPendingOperator,
    /// Correct the cursor after the next viewport update (page up).
    PageUpCorrection,
    ScrollViewportUp,
    ScrollViewportDown,
    /// `Ctrl+A` (`true`) or `Ctrl+X` on the number under the cursor.
    IncrementNumber(bool),
    ShowFileInfo,
    /// Open the search line, forward (`true`) or backward.
    OpenSearch(bool),
    OpenCommandLine,
    /// `*` or `#` on the word under the cursor.
    SearchWord(char),
    /// `n` (`true`) or `N`.
    SearchNext(bool),
    RefreshVisualSelection,
    RefreshVisualLineSelection,
    /// `;` (`true`) or `,`.
    RepeatFindChar(bool),
    JumpToMatchingBracket,
    RestartKeyTimer,
    MoveToLineStart,
    MoveToFirstNonBlank,
    MoveToLineEnd,
    /// Send `R`; when the send completes, call
    /// [`crate::dispatch::finish_prefix_send`].
    EnterReplaceMode,
    ToggleCase,
    IndentLine,
    UnindentLine,
    /// `[p` (`true`) or `]p`.
    PasteWithIndent(bool),
    OpenDocumentation,
    FormatCurrentLine,
    SaveAndClose,
    CloseDiscard,
    /// Yank this many lines into the register.
    YankLines(char, u64),
    /// Paste the register, before the cursor when `true`.
    PasteFromRegister(char, bool),
    /// Delete this many lines into the register.
    DeleteLines(char, u64),
    OpenUrl,
    GoToFile,
    AddToJumpList,
    GoToDefinition,
    InsertAtColumnZero,
    InsertAtLastPosition,
    ShowCharInfo,
    RepeatSubstitute,
    MoveWordEndBackward,
    DisplayLineDown,
    DisplayLineUp,
    NextTab,
    PrevTab,
    DisplayLineStart,
    DisplayLineEnd,
    DisplayLineFirstNonBlank,
    /// Hand the key to [`crate::cmdline::handle_command_mode_input`].
    CommandLineKey,
    /// Leave insert mode.
    SendEscape,
    PageUp,
    PageDown,
    HalfPageUp,
    HalfPageDown,
    JumpBack,
    JumpForward,
    OpenFindDialog,
    Undo,
    Redo,
    PrevParagraph,
    NextParagraph,
    DeleteCharForward,
    DeleteCharBackward,
    JoinLines,
    VisibleTop,
    VisibleMiddle,
    VisibleBottom,
    /// Move to a character on the line: forward when the first flag is
    /// set, stopping just before it when the second is (`f F t T`).
    FindChar(char, bool, bool),
    ReplaceChar(char),
    SetMark(char),
    JumpToMarkLine(char),
    JumpToMarkPosition(char),
    PlayMacro(char),
    ReplayLastMacro,
    /// Yank the cursor line into the register.
    YankLine(char),
    /// Delete the cursor line into the register.
    DeleteLine(char),
}

/// One thing to do, in order.
pub enum NormalEffect<T, B> {
    /// Send these keys to Neovim.
    SendKeys(T),
    /// Send these keys; when the send completes, call
    /// [`crate::dispatch::finish_prefix_send`].
    SendClearingPrefix(T),
    /// Send these keys as typed in insert mode.
    SendInsertKeys(T),
    /// Store a finished recording under a register.
    StoreMacro(char, B),
    /// Run an editor command.
    Run(EditorCommand),
}

/// How the key press ends.
pub enum NormalOutcome<T> {
    /// Consumed.
    Handled,
    /// Send these keys to Neovim, then call
    /// [`crate::dispatch::after_forward`]; the key is consumed.
    Forward(T),
    /// The key has no Neovim notation: nothing happens and the key is not
    /// consumed.
    Unsent,
    /// The key cannot be written in Neovim notation at all.
    Undefined,
}

pub type NEffect = NormalEffect<Vec<char>, Vec<Vec<char>>>;

pub type NEffectView = NormalEffect<Seq<char>, Seq<Seq<char>>>;

pub open spec fn neffect_view(e: NEffect) -> NEffectView {
    match e {
        NormalEffect::SendKeys(t) => NormalEffect::SendKeys(t@),
        NormalEffect::SendClearingPrefix(t) => NormalEffect::SendClearingPrefix(t@),
        NormalEffect::SendInsertKeys(t) => NormalEffect::SendInsertKeys(t@),
        NormalEffect::StoreMacro(r, b) => NormalEffect::StoreMacro(r, texts_view(b@)),
        NormalEffect::Run(c) => NormalEffect::Run(c),
    }
}

pub open spec fn neffects_of(fx: Vec<NEffect>) -> Seq<NEffectView> {
    fx@.map_values(|e: NEffect| neffect_view(e))
}

pub open spec fn noutcome_view(o: NormalOutcome<Vec<char>>) -> NormalOutcome<Seq<char>> {
    match o {
        NormalOutcome::Handled => NormalOutcome::Handled,
        NormalOutcome::Forward(t) => NormalOutcome::Forward(t@),
        NormalOutcome::Unsent => NormalOutcome::Unsent,
        NormalOutcome::Undefined => NormalOutcome::Undefined,
    }
}

/// The decision for one key: new state, effects, outcome.
pub struct NStep {
    pub st: StateView,
    pub fx: Seq<NEffectView>,
    pub out: NormalOutcome<Seq<char>>,
}

pub open spec fn ndone(st: StateView, fx: Seq<NEffectView>) -> NStep {
    NStep { st, fx, out: NormalOutcome::Handled }
}

pub open spec fn nsend(keys: Seq<char>) -> NEffectView {
    NormalEffect::SendKeys(keys)
}

pub open spec fn nrun(c: EditorCommand) -> NEffectView {
    NormalEffect::Run(c)
}

pub open spec fn cancel_then(e: NEffectView) -> Seq<NEffectView> {
    seq![nrun(EditorCommand::CancelPendingOperator), e]
}

// ---------------------------------------------------------------------
// The rules, in the order they are tried
// ---------------------------------------------------------------------

/// `Ctrl` keys, and `o` in visual mode.
pub open spec fn normal_ctrl_spec(s: StateView, k: KeyInput) -> Option<NStep> {
    if k.ctrl && key_is(k, KEY_B) {
        if is_visual_mode_spec(s.mode) {
            Some(ndone(s, cancel_then(NormalEffect::SendClearingPrefix("<C-v>"@))))
        } else {
            Some(ndone(s, seq![
                nrun(EditorCommand::CancelPendingOperator),
                nrun(EditorCommand::PageUpCorrection),
                nsend("<C-b>"@),
            ]))
        }
    } else if is_visual_mode_spec(s.mode) && key_is(k, KEY_O) && plain(k) {
        if s.mode == "v"@ {
            Some(ndone(s, seq![nsend("o"@), nrun(EditorCommand::RefreshVisualSelection)]))
        } else if s.mode == "V"@ {
            Some(ndone(s, seq![nsend("o"@), nrun(EditorCommand::RefreshVisualLineSelection)]))
        } else {
            Some(ndone(s, seq![nsend("o"@)]))
        }
    } else if k.ctrl && key_is(k, KEY_F) {
        Some(ndone(s, cancel_then(nsend("<C-f>"@))))
    } else if k.ctrl && key_is(k, KEY_Y) {
        Some(ndone(s, cancel_then(nrun(EditorCommand::ScrollViewportUp))))
    } else if k.ctrl && key_is(k, KEY_E) {
        Some(ndone(s, cancel_then(nrun(EditorCommand::ScrollViewportDown))))
    } else if k.ctrl && key_is(k, KEY_A) {
        Some(ndone(s, seq![nrun(EditorCommand::IncrementNumber(true))]))
    } else if k.ctrl && key_is(k, KEY_X) {
        Some(ndone(s, seq![nrun(EditorCommand::IncrementNumber(false))]))
    } else if k.ctrl && key_is(k, KEY_O) {
        Some(ndone(s, seq![nsend("<C-o>"@)]))
    } else if k.ctrl && key_is(k, KEY_I) {
        Some(ndone(s, seq![nsend("<C-i>"@)]))
    } else if k.ctrl && key_is(k, KEY_G) {
        Some(ndone(s, cancel_then(nrun(EditorCommand::ShowFileInfo))))
    } else {
        None
    }
}

/// Search, command line, undo and redo.
pub open spec fn normal_search_spec(s: StateView, k: KeyInput) -> Option<NStep> {
    let run = |c: EditorCommand| Some(ndone(s, seq![nrun(c)]));
    if ch_is(k, '/') && !k.ctrl {
        run(EditorCommand::OpenSearch(true))
    } else if ch_is(k, '?') && !k.ctrl {
        run(EditorCommand::OpenSearch(false))
    } else if ch_is(k, ':') {
        run(EditorCommand::OpenCommandLine)
    } else if ch_is(k, '*') {
        run(EditorCommand::SearchWord('*'))
    } else if ch_is(k, '#') {
        run(EditorCommand::SearchWord('#'))
    } else if key_is(k, KEY_N) && plain(k) {
        run(EditorCommand::SearchNext(true))
    } else if key_is(k, KEY_N) && shifted(k) {
        run(EditorCommand::SearchNext(false))
    } else if key_is(k, KEY_U) && plain(k) && s.last_key != "g"@ {
        Some(ndone(s, seq![nsend("u"@)]))
    } else if key_is(k, KEY_R) && k.ctrl {
        Some(ndone(s, seq![nsend("<C-r>"@)]))
    } else {
        None
    }
}

/// Character finds, repeats, counts and line motions.
pub open spec fn normal_motion_spec(s: StateView, k: KeyInput) -> Option<NStep> {
    let char_op = |c: char| Some(ndone(char_op_state(s, c), Seq::empty()));
    let local = |c: EditorCommand, keys: Seq<char>| Some(ndone(s, seq![nrun(c), nsend(keys)]));
    let recorded = |c: EditorCommand, keys: Seq<char>|
        Some(ndone(record(s, keys), seq![nrun(c), nsend(keys)]));
    if key_is(k, KEY_F) && plain(k) && not_after(s, "g"@, "i"@) && s.last_key != "a"@ {
        char_op('f')
    } else if key_is(k, KEY_F) && shifted(k) && not_after(s, "i"@, "a"@) {
        char_op('F')
    } else if key_is(k, KEY_T) && plain(k) && not_after(s, "g"@, "z"@) && not_after(s, "i"@, "a"@) {
        char_op('t')
    } else if key_is(k, KEY_T) && shifted(k) && s.last_key != "g"@ && not_after(s, "i"@, "a"@) {
        char_op('T')
    } else if key_is(k, KEY_SEMICOLON) && !k.shift {
        recorded(EditorCommand::RepeatFindChar(true), ";"@)
    } else if key_is(k, KEY_COMMA) && !k.shift {
        recorded(EditorCommand::RepeatFindChar(false), ","@)
    } else if ch_is(k, '%') {
        recorded(EditorCommand::JumpToMatchingBracket, "%"@)
    } else if count_digit(s, k) {
        let c = unicode_char(k)->0;
        Some(ndone(KeyState { count: s.count.push(c), ..s }, seq![nsend(seq![c]), nrun(EditorCommand::RestartKeyTimer)]))
    } else if ch_is(k, '0') && !k.ctrl && s.last_key != "g"@ {
        local(EditorCommand::MoveToLineStart, "0"@)
    } else if ch_is(k, '^') && s.last_key != "g"@ {
        local(EditorCommand::MoveToFirstNonBlank, "^"@)
    } else if ch_is(k, '$') && s.last_key != "g"@ {
        local(EditorCommand::MoveToLineEnd, "$"@)
    } else if ch_is(k, '{') && not_after(s, "["@, "]"@) {
        Some(ndone(s, seq![nsend("{"@)]))
    } else if ch_is(k, '}') && not_after(s, "["@, "]"@) {
        Some(ndone(s, seq![nsend("}"@)]))
    } else {
        None
    }
}

/// Stop recording: the recording ends and, when it is not empty, is stored.
pub open spec fn normal_stop_recording(s: StateView) -> NStep {
    let st = KeyState { recording_macro: None, macro_buffer: Seq::empty(), ..s };
    if s.macro_buffer.len() > 0 {
        ndone(st, seq![NormalEffect::StoreMacro(s.recording_macro->0, s.macro_buffer)])
    } else {
        ndone(st, Seq::empty())
    }
}

/// Edits, replace, marks, macros, registers and `>>`/`<<`.
pub open spec fn normal_edit_spec(s: StateView, k: KeyInput) -> Option<NStep> {
    let send = |keys: Seq<char>| Some(ndone(s, seq![nsend(keys)]));
    let mark_op = |c: char| Some(ndone(mark_op_state(s, c), Seq::empty()));
    if key_is(k, KEY_X) && plain(k) && s.last_key != "g"@ {
        send("x"@)
    } else if key_is(k, KEY_X) && shifted(k) {
        send("X"@)
    } else if key_is(k, KEY_Y) && shifted(k) {
        send("Y"@)
    } else if key_is(k, KEY_D) && shifted(k) {
        send("D"@)
    } else if key_is(k, KEY_C) && shifted(k) {
        send("C"@)
    } else if key_is(k, KEY_S) && plain(k) {
        send("s"@)
    } else if key_is(k, KEY_S) && shifted(k) {
        send("S"@)
    } else if key_is(k, KEY_C) && plain(k) {
        if s.last_key == "c"@ {
            Some(ndone(cleared_last_key(s), seq![nsend("c"@)]))
        } else {
            Some(ndone(with_last_key(s, "c"@), seq![nsend("c"@)]))
        }
    } else if key_is(k, KEY_R) && plain(k) {
        Some(ndone(char_op_state(s, 'r'), Seq::empty()))
    } else if key_is(k, KEY_R) && shifted(k) {
        Some(ndone(s, seq![nrun(EditorCommand::EnterReplaceMode)]))
    } else if ch_is(k, '~') {
        Some(ndone(s, seq![nrun(EditorCommand::ToggleCase)]))
    } else if key_is(k, KEY_M) && plain(k) {
        mark_op('m')
    } else if ch_is(k, '\'') && !k.ctrl {
        mark_op('\'')
    } else if ch_is(k, '`') && !k.ctrl {
        mark_op('`')
    } else if key_is(k, KEY_Q) && plain(k) && s.last_key != "g"@ {
        if s.recording_macro is Some {
            Some(normal_stop_recording(s))
        } else {
            Some(ndone(KeyState { pending_macro_op: Some('q'), ..cleared_pending(s) }, Seq::empty()))
        }
    } else if ch_is(k, '@') && !k.ctrl {
        Some(ndone(KeyState { pending_macro_op: Some('@'), ..cleared_pending(s) }, Seq::empty()))
    } else if ch_is(k, '"') && !k.ctrl {
        Some(ndone(KeyState { selected_register: Some('\0'), ..cleared_last_key(cleared_pending(s)) }, Seq::empty()))
    } else if ch_is(k, '>') {
        if s.last_key == ">"@ {
            Some(ndone(cleared_last_key(s), seq![nrun(EditorCommand::IndentLine)]))
        } else {
            Some(ndone(with_last_key(s, ">"@), Seq::empty()))
        }
    } else if ch_is(k, '<') {
        if s.last_key == "<"@ {
            Some(ndone(cleared_last_key(s), seq![nrun(EditorCommand::UnindentLine)]))
        } else {
            Some(ndone(with_last_key(s, "<"@), Seq::empty()))
        }
    } else {
        None
    }
}

/// Prefix keys (`g`, `[`, `]`), `[p`/`]p` and `K`.
pub open spec fn normal_prefix_spec(s: StateView, k: KeyInput) -> Option<NStep> {
    if ch_is(k, 'g') && plain(k) && s.last_key != "g"@ {
        Some(ndone(with_last_key(s, "g"@), Seq::empty()))
    } else if key_is(k, KEY_BRACKETLEFT) && plain(k) && not_after(s, "["@, "]"@) {
        Some(ndone(with_last_key(s, "["@), Seq::empty()))
    } else if key_is(k, KEY_BRACKETRIGHT) && plain(k) && not_after(s, "["@, "]"@) {
        Some(ndone(with_last_key(s, "]"@), Seq::empty()))
    } else if key_is(k, KEY_P) && plain(k) && s.last_key == "["@ {
        Some(ndone(cleared_last_key(s), seq![nrun(EditorCommand::PasteWithIndent(true))]))
    } else if key_is(k, KEY_P) && plain(k) && s.last_key == "]"@ {
        Some(ndone(cleared_last_key(s), seq![nrun(EditorCommand::PasteWithIndent(false))]))
    } else if key_is(k, KEY_K) && shifted(k) {
        Some(ndone(s, seq![nrun(EditorCommand::OpenDocumentation)]))
    } else {
        None
    }
}

/// The key after `[` (`open`) or `]`: a bracket command, or the state to
/// go on with (the prefix dropped unless the key produced no character).
pub open spec fn bracket_command_spec(s: StateView, k: KeyInput, open: bool) -> (StateView, Option<NStep>) {
    let p: char = if open { '[' } else { ']' };
    let same: u32 = if open { KEY_BRACKETLEFT } else { KEY_BRACKETRIGHT };
    let other: u32 = if open { KEY_BRACKETRIGHT } else { KEY_BRACKETLEFT };
    let send = |c: char| (s, Some(ndone(cleared_last_key(s), seq![nsend(seq![p, c])])));
    if s.last_key != seq![p] {
        (s, None)
    } else if key_is(k, same) && plain(k) {
        send(p)
    } else if key_is(k, other) && plain(k) {
        send(if open { ']' } else { '[' })
    } else if (open && (ch_is(k, '{') || ch_is(k, '('))) || (!open && (ch_is(k, '}') || ch_is(k, ')')))
        || ch_is(k, 'm') {
        send(unicode_char(k)->0)
    } else if ch_is(k, '\0') || unicode_char(k) is None {
        (s, None)
    } else {
        (cleared_last_key(s), None)
    }
}

/// `gqq`, `J`, half pages, `H`/`M`/`L`, `ZZ` and `ZQ`.
pub open spec fn normal_late_spec(s: StateView, k: KeyInput) -> Option<NStep> {
    if s.last_key == "gq"@ && key_is(k, KEY_Q) && !k.shift {
        Some(ndone(cleared_last_key(s), seq![nrun(EditorCommand::FormatCurrentLine)]))
    } else if key_is(k, KEY_J) && shifted(k) && s.last_key != "g"@ {
        Some(ndone(s, seq![nsend("J"@)]))
    } else if k.ctrl && key_is(k, KEY_D) {
        Some(ndone(s, cancel_then(nsend("<C-d>"@))))
    } else if k.ctrl && key_is(k, KEY_U) {
        Some(ndone(s, cancel_then(nsend("<C-u>"@))))
    } else if !k.ctrl && !k.alt && k.shift && (key_is(k, KEY_H) || key_is(k, KEY_M) || key_is(k, KEY_L)) {
        Some(ndone(s, seq![nsend(
            if key_is(k, KEY_H) { "H"@ } else if key_is(k, KEY_M) { "M"@ } else { "L"@ },
        )]))
    } else if key_is(k, KEY_Z) && shifted(k) {
        if s.last_key == "Z"@ {
            Some(ndone(cleared_last_key(s), seq![nrun(EditorCommand::SaveAndClose)]))
        } else {
            Some(ndone(with_last_key(s, "Z"@), Seq::empty()))
        }
    } else if key_is(k, KEY_Q) && shifted(k) && s.last_key == "Z"@ {
        Some(ndone(cleared_last_key(s), seq![nrun(EditorCommand::CloseDiscard)]))
    } else {
        None
    }
}

/// A `Z` prefix is dropped by any key but `Z` and `Q`.
pub open spec fn z_reset(s: StateView, k: KeyInput) -> StateView {
    if s.last_key == "Z"@ && !key_is(k, KEY_Z) && !key_is(k, KEY_Q) {
        cleared_last_key(s)
    } else {
        s
    }
}

/// After a register command: no register, no count, no prefix.
pub open spec fn register_finished(s: StateView) -> StateView {
    KeyState { selected_register: None, ..cleared_last_key(cleared_count(s)) }
}

/// Keys after `"x`: count digits, `yy`, `p`, `P`, `dd`.  Any other key
/// drops the register (but `y` and `d`, which wait for their second key).
pub open spec fn normal_register_spec(s: StateView, k: KeyInput) -> (StateView, Option<NStep>) {
    match s.selected_register {
        Some(reg) => if reg == '\0' {
            (s, None)
        } else if unicode_char(k) is Some && is_digit(unicode_char(k)->0) && (unicode_char(k)->0
            != '0' || s.count.len() > 0) {
            (s, Some(ndone(KeyState { count: s.count.push(unicode_char(k)->0), ..s }, Seq::empty())))
        } else if key_is(k, KEY_Y) && plain(k) {
            if s.last_key == "y"@ {
                (s, Some(ndone(register_finished(s), seq![nrun(EditorCommand::YankLines(reg, count_value(s.count) as u64))])))
            } else {
                (s, Some(ndone(with_last_key(s, "y"@), Seq::empty())))
            }
        } else if key_is(k, KEY_P) && plain(k) {
            (s, Some(ndone(KeyState { selected_register: None, ..cleared_count(s) }, seq![nrun(EditorCommand::PasteFromRegister(reg, false))])))
        } else if key_is(k, KEY_P) && shifted(k) {
            (s, Some(ndone(KeyState { selected_register: None, ..cleared_count(s) }, seq![nrun(EditorCommand::PasteFromRegister(reg, true))])))
        } else if key_is(k, KEY_D) && plain(k) {
            if s.last_key == "d"@ {
                (s, Some(ndone(register_finished(s), seq![nrun(EditorCommand::DeleteLines(reg, count_value(s.count) as u64))])))
            } else {
                (s, Some(ndone(with_last_key(s, "d"@), Seq::empty())))
            }
        } else if !key_is(k, KEY_Y) && !key_is(k, KEY_D) {
            (KeyState { selected_register: None, ..cleared_count(s) }, None)
        } else {
            (s, None)
        },
        None => (s, None),
    }
}

/// The effects of `g` followed by a key written `keys`.
pub open spec fn g_command_spec(keys: Seq<char>) -> Seq<NEffectView> {
    let run = |c: EditorCommand| seq![nrun(c)];
    if keys == "x"@ {
        run(EditorCommand::OpenUrl)
    } else if keys == "f"@ {
        run(EditorCommand::GoToFile)
    } else if keys == "d"@ {
        seq![nrun(EditorCommand::AddToJumpList), nrun(EditorCommand::GoToDefinition)]
    } else if keys == "I"@ {
        run(EditorCommand::InsertAtColumnZero)
    } else if keys == "i"@ {
        run(EditorCommand::InsertAtLastPosition)
    } else if keys == "a"@ {
        run(EditorCommand::ShowCharInfo)
    } else if keys == "&"@ {
        run(EditorCommand::RepeatSubstitute)
    } else if keys == "J"@ {
        seq![nsend("<Cmd>lua require('godot_neovim').join_no_space()<CR>"@)]
    } else if keys == "p"@ {
        seq![nsend("gp"@)]
    } else if keys == "P"@ {
        seq![nsend("gP"@)]
    } else if keys == "e"@ {
        seq![nrun(EditorCommand::MoveWordEndBackward), nsend("ge"@)]
    } else if keys == "j"@ {
        run(EditorCommand::DisplayLineDown)
    } else if keys == "k"@ {
        run(EditorCommand::DisplayLineUp)
    } else if keys == "t"@ {
        run(EditorCommand::NextTab)
    } else if keys == "T"@ {
        run(EditorCommand::PrevTab)
    } else if keys == "v"@ {
        seq![nsend("<C-v>"@)]
    } else if keys == "0"@ {
        run(EditorCommand::DisplayLineStart)
    } else if keys == "$"@ {
        run(EditorCommand::DisplayLineEnd)
    } else if keys == "^"@ {
        run(EditorCommand::DisplayLineFirstNonBlank)
    } else {
        seq![nsend("g"@ + keys)]
    }
}

/// The last rule: after `g` the pair is a `g` command; otherwise the key
/// is recorded and forwarded to Neovim.
pub open spec fn normal_forward_spec(s: StateView, k: KeyInput) -> NStep {
    if !nvim_key_string_defined(k) {
        NStep { st: s, fx: Seq::empty(), out: NormalOutcome::Undefined }
    } else {
        match nvim_key_string(k) {
            None => NStep { st: s, fx: Seq::empty(), out: NormalOutcome::Unsent },
            Some(keys) => if s.last_key == "g"@ {
                ndone(cleared_last_key(s), g_command_spec(keys))
            } else {
                NStep { st: record(s, keys), fx: Seq::empty(), out: NormalOutcome::Forward(keys) }
            },
        }
    }
}

/// What one key press does in normal or visual mode.
pub open spec fn normal_key_spec(s: StateView, k: KeyInput) -> NStep {
    if normal_ctrl_spec(s, k) is Some {
        normal_ctrl_spec(s, k)->0
    } else if normal_search_spec(s, k) is Some {
        normal_search_spec(s, k)->0
    } else if normal_motion_spec(s, k) is Some {
        normal_motion_spec(s, k)->0
    } else if normal_edit_spec(s, k) is Some {
        normal_edit_spec(s, k)->0
    } else if normal_prefix_spec(s, k) is Some {
        normal_prefix_spec(s, k)->0
    } else {
        let (s1, p1) = bracket_command_spec(s, k, true);
        if p1 is Some {
            p1->0
        } else {
            let (s2, p2) = bracket_command_spec(s1, k, false);
            if p2 is Some {
                p2->0
            } else if normal_late_spec(s2, k) is Some {
                normal_late_spec(s2, k)->0
            } else {
                let (s4, p4) = normal_register_spec(z_reset(s2, k), k);
                if p4 is Some {
                    p4->0
                } else {
                    normal_forward_spec(s4, k)
                }
            }
        }
    }
}

// ---------------------------------------------------------------------
// Running code
// ---------------------------------------------------------------------

/// Effects and outcome of one key press.
pub struct NResolution {
    pub effects: Vec<NEffect>,
    pub outcome: NormalOutcome<Vec<char>>,
}

pub open spec fn nmatches(new_st: StateView, r: NResolution, step: NStep) -> bool {
    &&& new_st == step.st
    &&& neffects_of(r.effects) == step.fx
    &&& noutcome_view(r.outcome) == step.out
}

pub(crate) fn fx0() -> (fx: Vec<NEffect>)
    ensures
        neffects_of(fx) == Seq::<NEffectView>::empty(),
{
    let fx: Vec<NEffect> = Vec::new();
    assert(neffects_of(fx) =~= Seq::<NEffectView>::empty());
    fx
}

pub(crate) fn fx_push(fx: &mut Vec<NEffect>, e: NEffect)
    ensures
        neffects_of(*final(fx)) == neffects_of(*old(fx)).push(neffect_view(e)),
{
    fx.push(e);
    assert(neffects_of(*fx) =~= neffects_of(*old(fx)).push(neffect_view(e)));
}

pub(crate) fn fx1(a: NEffect) -> (fx: Vec<NEffect>)
    ensures
        neffects_of(fx) == seq![neffect_view(a)],
{
    let mut fx = fx0();
    fx_push(&mut fx, a);
    assert(neffects_of(fx) =~= seq![neffect_view(a)]);
    fx
}

pub(crate) fn fx2(a: NEffect, b: NEffect) -> (fx: Vec<NEffect>)
    ensures
        neffects_of(fx) == seq![neffect_view(a), neffect_view(b)],
{
    let mut fx = fx1(a);
    fx_push(&mut fx, b);
    assert(neffects_of(fx) =~= seq![neffect_view(a), neffect_view(b)]);
    fx
}

pub(crate) fn fx3(a: NEffect, b: NEffect, c: NEffect) -> (fx: Vec<NEffect>)
    ensures
        neffects_of(fx) == seq![neffect_view(a), neffect_view(b), neffect_view(c)],
{
    let mut fx = fx2(a, b);
    fx_push(&mut fx, c);
    assert(neffects_of(fx) =~= seq![neffect_view(a), neffect_view(b), neffect_view(c)]);
    fx
}

pub(crate) fn send(lit: &str) -> (e: NEffect)
    ensures
        neffect_view(e) == nsend(lit@),
{
    NormalEffect::SendKeys(chars_of(lit))
}

pub(crate) fn run(c: EditorCommand) -> (e: NEffect)
    ensures
        neffect_view(e) == nrun(c),
{
    NormalEffect::Run(c)
}

pub(crate) fn handled(fx: Vec<NEffect>) -> (r: NResolution)
    ensures
        r.effects == fx,
        noutcome_view(r.outcome) == NormalOutcome::<Seq<char>>::Handled,
{
    NResolution { effects: fx, outcome: NormalOutcome::Handled }
}

fn normal_ctrl(st: &InputState, k: &KeyInput) -> (r: Option<NResolution>)
    ensures
        ({
            let p = normal_ctrl_spec(st@, *k);
            match r {
                Some(res) => p is Some && nmatches(st@, res, p->0),
                None => p is None,
            }
        }),
{
    let cancel = EditorCommand::CancelPendingOperator;
    if k.ctrl && k.keycode == KEY_B {
        if mode_is_visual(st) {
            let fx = fx2(run(cancel), NormalEffect::SendClearingPrefix(chars_of("<C-v>")));
            return Some(handled(fx));
        } else {
            let fx = fx3(run(cancel), run(EditorCommand::PageUpCorrection), send("<C-b>"));
            return Some(handled(fx));
        }
    }
    if mode_is_visual(st) && k.keycode == KEY_O && !k.shift && !k.ctrl {
        if mode_is(st, "v") {
            return Some(handled(fx2(send("o"), run(EditorCommand::RefreshVisualSelection))));
        } else if mode_is(st, "V") {
            return Some(handled(fx2(send("o"), run(EditorCommand::RefreshVisualLineSelection))));
        } else {
            return Some(handled(fx1(send("o"))));
        }
    }
    if !k.ctrl {
        return None;
    }
    let c = k.keycode;
    if c == KEY_F {
        Some(handled(fx2(run(cancel), send("<C-f>"))))
    } else if c == KEY_Y {
        Some(handled(fx2(run(cancel), run(EditorCommand::ScrollViewportUp))))
    } else if c == KEY_E {
        Some(handled(fx2(run(cancel), run(EditorCommand::ScrollViewportDown))))
    } else if c == KEY_A {
        Some(handled(fx1(run(EditorCommand::IncrementNumber(true)))))
    } else if c == KEY_X {
        Some(handled(fx1(run(EditorCommand::IncrementNumber(false)))))
    } else if c == KEY_O {
        Some(handled(fx1(send("<C-o>"))))
    } else if c == KEY_I {
        Some(handled(fx1(send("<C-i>"))))
    } else if c == KEY_G {
        Some(handled(fx2(run(cancel), run(EditorCommand::ShowFileInfo))))
    } else {
        None
    }
}

fn normal_search(st: &InputState, k: &KeyInput) -> (r: Option<NResolution>)
    ensures
        ({
            let p = normal_search_spec(st@, *k);
            match r {
                Some(res) => p is Some && nmatches(st@, res, p->0),
                None => p is None,
            }
        }),
{
    let ch = key_char(k);
    let plain = !k.shift && !k.ctrl;
    if ch == Some('/') && !k.ctrl {
        Some(handled(fx1(run(EditorCommand::OpenSearch(true)))))
    } else if ch == Some('?') && !k.ctrl {
        Some(handled(fx1(run(EditorCommand::OpenSearch(false)))))
    } else if ch == Some(':') {
        Some(handled(fx1(run(EditorCommand::OpenCommandLine))))
    } else if ch == Some('*') {
        Some(handled(fx1(run(EditorCommand::SearchWord('*')))))
    } else if ch == Some('#') {
        Some(handled(fx1(run(EditorCommand::SearchWord('#')))))
    } else if k.keycode == KEY_N && plain {
        Some(handled(fx1(run(EditorCommand::SearchNext(true)))))
    } else if k.keycode == KEY_N && k.shift && !k.ctrl {
        Some(handled(fx1(run(EditorCommand::SearchNext(false)))))
    } else if k.keycode == KEY_U && plain && !last_key_is(st, "g") {
        Some(handled(fx1(send("u"))))
    } else if k.keycode == KEY_R && k.ctrl {
        Some(handled(fx1(send("<C-r>"))))
    } else {
        None
    }
}

pub(crate) fn start_char_op(st: &mut InputState, c: char) -> (r: NResolution)
    ensures
        nmatches(final(st)@, r, ndone(char_op_state(old(st)@, c), Seq::empty())),
{
    clear_pending(st);
    st.pending_char_op = Some(c);
    handled(fx0())
}

pub(crate) fn start_mark_op(st: &mut InputState, c: char) -> (r: NResolution)
    ensures
        nmatches(final(st)@, r, ndone(mark_op_state(old(st)@, c), Seq::empty())),
{
    clear_pending(st);
    st.pending_mark_op = Some(c);
    handled(fx0())
}

fn run_recorded(st: &mut InputState, c: EditorCommand, lit: &str) -> (r: NResolution)
    ensures
        nmatches(final(st)@, r, ndone(record(old(st)@, lit@), seq![nrun(c), nsend(lit@)])),
{
    let keys = chars_of(lit);
    record_keys(st, &keys);
    handled(fx2(run(c), NormalEffect::SendKeys(keys)))
}

fn normal_motion(st: &mut InputState, k: &KeyInput) -> (r: Option<NResolution>)
    ensures
        ({
            let p = normal_motion_spec(old(st)@, *k);
            match r {
                Some(res) => p is Some && nmatches(final(st)@, res, p->0),
                None => p is None && final(st)@ == old(st)@,
            }
        }),
{
    let ch = key_char(k);
    let plain = !k.shift && !k.ctrl;
    let shifted = k.shift && !k.ctrl;
    let after_ia = last_key_is(st, "i") || last_key_is(st, "a");
    let after_g = last_key_is(st, "g");
    let after_bracket = last_key_is(st, "[") || last_key_is(st, "]");
    if k.keycode == KEY_F && plain && !after_g && !after_ia {
        return Some(start_char_op(st, 'f'));
    }
    if k.keycode == KEY_F && shifted && !after_ia {
        return Some(start_char_op(st, 'F'));
    }
    if k.keycode == KEY_T && plain && !after_g && !last_key_is(st, "z") && !after_ia {
        return Some(start_char_op(st, 't'));
    }
    if k.keycode == KEY_T && shifted && !after_g && !after_ia {
        return Some(start_char_op(st, 'T'));
    }
    if k.keycode == KEY_SEMICOLON && !k.shift {
        return Some(run_recorded(st, EditorCommand::RepeatFindChar(true), ";"));
    }
    if k.keycode == KEY_COMMA && !k.shift {
        return Some(run_recorded(st, EditorCommand::RepeatFindChar(false), ","));
    }
    if ch == Some('%') {
        return Some(run_recorded(st, EditorCommand::JumpToMatchingBracket, "%"));
    }
    if ch.is_some() && is_digit_char(ch.unwrap()) && (ch.unwrap() != '0' || st.count.len() > 0) {
        let c = ch.unwrap();
        st.count.push(c);
        let fx = fx2(NormalEffect::SendKeys(one(c)), run(EditorCommand::RestartKeyTimer));
        return Some(handled(fx));
    }
    if ch == Some('0') && !k.ctrl && !after_g {
        return Some(handled(fx2(run(EditorCommand::MoveToLineStart), send("0"))));
    }
    if ch == Some('^') && !after_g {
        return Some(handled(fx2(run(EditorCommand::MoveToFirstNonBlank), send("^"))));
    }
    if ch == Some('$') && !after_g {
        return Some(handled(fx2(run(EditorCommand::MoveToLineEnd), send("$"))));
    }
    if ch == Some('{') && !after_bracket {
        return Some(handled(fx1(send("{"))));
    }
    if ch == Some('}') && !after_bracket {
        return Some(handled(fx1(send("}"))));
    }
    None
}

/// Stop recording: returns what to store, if anything.
pub(crate) fn normal_stop_recording_exec(st: &mut InputState) -> (r: NResolution)
    requires
        old(st).recording_macro is Some,
    ensures
        nmatches(final(st)@, r, normal_stop_recording(old(st)@)),
{
    let reg = st.recording_macro.unwrap();
    let mut keys: Vec<Vec<char>> = Vec::new();
    std::mem::swap(&mut keys, &mut st.macro_buffer);
    st.recording_macro = None;
    assert(texts_view(st.macro_buffer@) =~= Seq::<Seq<char>>::empty());
    let mut fx = fx0();
    if keys.len() > 0 {
        fx_push(&mut fx, NormalEffect::StoreMacro(reg, keys));
    }
    handled(fx)
}

fn normal_edit(st: &mut InputState, k: &KeyInput) -> (r: Option<NResolution>)
    ensures
        ({
            let p = normal_edit_spec(old(st)@, *k);
            match r {
                Some(res) => p is Some && nmatches(final(st)@, res, p->0),
                None => p is None && final(st)@ == old(st)@,
            }
        }),
{
    let ch = key_char(k);
    let plain = !k.shift && !k.ctrl;
    let shifted = k.shift && !k.ctrl;
    let c = k.keycode;
    if c == KEY_X && plain && !last_key_is(st, "g") {
        return Some(handled(fx1(send("x"))));
    }
    if shifted {
        if c == KEY_X {
            return Some(handled(fx1(send("X"))));
        } else if c == KEY_Y {
            return Some(handled(fx1(send("Y"))));
        } else if c == KEY_D {
            return Some(handled(fx1(send("D"))));
        } else if c == KEY_C {
            return Some(handled(fx1(send("C"))));
        }
    }
    if c == KEY_S && plain {
        return Some(handled(fx1(send("s"))));
    }
    if c == KEY_S && shifted {
        return Some(handled(fx1(send("S"))));
    }
    if c == KEY_C && plain {
        if last_key_is(st, "c") {
            clear_last_key(st);
        } else {
            set_last_key(st, "c");
        }
        return Some(handled(fx1(send("c"))));
    }
    if c == KEY_R && plain {
        return Some(start_char_op(st, 'r'));
    }
    if c == KEY_R && shifted {
        return Some(handled(fx1(run(EditorCommand::EnterReplaceMode))));
    }
    if ch == Some('~') {
        return Some(handled(fx1(run(EditorCommand::ToggleCase))));
    }
    if c == KEY_M && plain {
        return Some(start_mark_op(st, 'm'));
    }
    if ch == Some('\'') && !k.ctrl {
        return Some(start_mark_op(st, '\''));
    }
    if ch == Some('`') && !k.ctrl {
        return Some(start_mark_op(st, '`'));
    }
    if c == KEY_Q && plain && !last_key_is(st, "g") {
        if st.recording_macro.is_some() {
            return Some(normal_stop_recording_exec(st));
        } else {
            clear_pending(st);
            st.pending_macro_op = Some('q');
            return Some(handled(fx0()));
        }
    }
    if ch == Some('@') && !k.ctrl {
        clear_pending(st);
        st.pending_macro_op = Some('@');
        return Some(handled(fx0()));
    }
    if ch == Some('"') && !k.ctrl {
        clear_pending(st);
        clear_last_key(st);
        st.selected_register = Some('\0');
        return Some(handled(fx0()));
    }
    if ch == Some('>') {
        if last_key_is(st, ">") {
            clear_last_key(st);
            return Some(handled(fx1(run(EditorCommand::IndentLine))));
        } else {
            set_last_key(st, ">");
            return Some(handled(fx0()));
        }
    }
    if ch == Some('<') {
        if last_key_is(st, "<") {
            clear_last_key(st);
            return Some(handled(fx1(run(EditorCommand::UnindentLine))));
        } else {
            set_last_key(st, "<");
            return Some(handled(fx0()));
        }
    }
    None
}

fn normal_prefix(st: &mut InputState, k: &KeyInput) -> (r: Option<NResolution>)
    ensures
        ({
            let p = normal_prefix_spec(old(st)@, *k);
            match r {
                Some(res) => p is Some && nmatches(final(st)@, res, p->0),
                None => p is None && final(st)@ == old(st)@,
            }
        }),
{
    let ch = key_char(k);
    let plain = !k.shift && !k.ctrl;
    let after_bracket = last_key_is(st, "[") || last_key_is(st, "]");
    if ch == Some('g') && plain && !last_key_is(st, "g") {
        set_last_key(st, "g");
        return Some(handled(fx0()));
    }
    if k.keycode == KEY_BRACKETLEFT && plain && !after_bracket {
        set_last_key(st, "[");
        return Some(handled(fx0()));
    }
    if k.keycode == KEY_BRACKETRIGHT && plain && !after_bracket {
        set_last_key(st, "]");
        return Some(handled(fx0()));
    }
    if k.keycode == KEY_P && plain {
        if last_key_is(st, "[") {
            clear_last_key(st);
            return Some(handled(fx1(run(EditorCommand::PasteWithIndent(true)))));
        } else if last_key_is(st, "]") {
            clear_last_key(st);
            return Some(handled(fx1(run(EditorCommand::PasteWithIndent(false)))));
        }
    }
    if k.keycode == KEY_K && k.shift && !k.ctrl {
        return Some(handled(fx1(run(EditorCommand::OpenDocumentation))));
    }
    None
}

fn bracket_command(st: &mut InputState, k: &KeyInput, open: bool) -> (r: Option<NResolution>)
    ensures
        ({
            let (s1, p) = bracket_command_spec(old(st)@, *k, open);
            match r {
                Some(res) => p is Some && nmatches(final(st)@, res, p->0),
                None => p is None && final(st)@ == s1,
            }
        }),
{
    let p: char = if open { '[' } else { ']' };
    let same: u32 = if open { KEY_BRACKETLEFT } else { KEY_BRACKETRIGHT };
    let other: u32 = if open { KEY_BRACKETRIGHT } else { KEY_BRACKETLEFT };
    let is_prefix = if open { last_key_is(st, "[") } else { last_key_is(st, "]") };
    proof {
        reveal_strlit("[");
        reveal_strlit("]");
        assert("["@ =~= seq!['[']);
        assert("]"@ =~= seq![']']);
    }
    if !is_prefix {
        return None;
    }
    let plain = !k.shift && !k.ctrl;
    let ch = key_char(k);
    let second: Option<char> = if k.keycode == same && plain {
        Some(p)
    } else if k.keycode == other && plain {
        Some(if open { ']' } else { '[' })
    } else if (open && (ch == Some('{') || ch == Some('('))) || (!open && (ch == Some('}') || ch
        == Some(')'))) || ch == Some('m') {
        ch
    } else {
        None
    };
    match second {
        Some(c) => {
            clear_last_key(st);
            let mut keys = one(p);
            keys.push(c);
            assert(keys@ =~= seq![p, c]);
            Some(handled(fx1(NormalEffect::SendKeys(keys))))
        },
        None => {
            if !(ch == Some('\0') || ch.is_none()) {
                clear_last_key(st);
            }
            None
        },
    }
}

fn normal_late(st: &mut InputState, k: &KeyInput) -> (r: Option<NResolution>)
    ensures
        ({
            let p = normal_late_spec(old(st)@, *k);
            match r {
                Some(res) => p is Some && nmatches(final(st)@, res, p->0),
                None => p is None && final(st)@ == old(st)@,
            }
        }),
{
    let c = k.keycode;
    let shifted = k.shift && !k.ctrl;
    let cancel = EditorCommand::CancelPendingOperator;
    if last_key_is(st, "gq") && c == KEY_Q && !k.shift {
        clear_last_key(st);
        return Some(handled(fx1(run(EditorCommand::FormatCurrentLine))));
    }
    if c == KEY_J && shifted && !last_key_is(st, "g") {
        return Some(handled(fx1(send("J"))));
    }
    if k.ctrl && c == KEY_D {
        return Some(handled(fx2(run(cancel), send("<C-d>"))));
    }
    if k.ctrl && c == KEY_U {
        return Some(handled(fx2(run(cancel), send("<C-u>"))));
    }
    if !k.ctrl && !k.alt && k.shift && (c == KEY_H || c == KEY_M || c == KEY_L) {
        let e = if c == KEY_H {
            send("H")
        } else if c == KEY_M {
            send("M")
        } else {
            send("L")
        };
        return Some(handled(fx1(e)));
    }
    if c == KEY_Z && shifted {
        if last_key_is(st, "Z") {
            clear_last_key(st);
            return Some(handled(fx1(run(EditorCommand::SaveAndClose))));
        } else {
            set_last_key(st, "Z");
            return Some(handled(fx0()));
        }
    }
    if c == KEY_Q && shifted && last_key_is(st, "Z") {
        clear_last_key(st);
        return Some(handled(fx1(run(EditorCommand::CloseDiscard))));
    }
    None
}

fn finish_register(st: &mut InputState)
    ensures
        final(st)@ == register_finished(old(st)@),
{
    clear_count(st);
    clear_last_key(st);
    st.selected_register = None;
}

fn normal_register(st: &mut InputState, k: &KeyInput) -> (r: Option<NResolution>)
    ensures
        ({
            let (s1, p) = normal_register_spec(old(st)@, *k);
            match r {
                Some(res) => p is Some && nmatches(final(st)@, res, p->0),
                None => p is None && final(st)@ == s1,
            }
        }),
{
    let reg = match st.selected_register {
        Some(r) => r,
        None => {
            return None;
        },
    };
    if reg == '\0' {
        return None;
    }
    let ch = key_char(k);
    let plain = !k.shift && !k.ctrl;
    if ch.is_some() && is_digit_char(ch.unwrap()) && (ch.unwrap() != '0' || st.count.len() > 0) {
        st.count.push(ch.unwrap());
        return Some(handled(fx0()));
    }
    if k.keycode == KEY_Y && plain {
        if last_key_is(st, "y") {
            let n = crate::dispatch::count_value_exec(&st.count);
            finish_register(st);
            return Some(handled(fx1(run(EditorCommand::YankLines(reg, n)))));
        } else {
            set_last_key(st, "y");
            return Some(handled(fx0()));
        }
    }
    if k.keycode == KEY_P && !k.ctrl {
        let before = k.shift;
        clear_count(st);
        st.selected_register = None;
        return Some(handled(fx1(run(EditorCommand::PasteFromRegister(reg, before)))));
    }
    if k.keycode == KEY_D && plain {
        if last_key_is(st, "d") {
            let n = crate::dispatch::count_value_exec(&st.count);
            finish_register(st);
            return Some(handled(fx1(run(EditorCommand::DeleteLines(reg, n)))));
        } else {
            set_last_key(st, "d");
            return Some(handled(fx0()));
        }
    }
    if k.keycode != KEY_Y && k.keycode != KEY_D {
        st.selected_register = None;
        clear_count(st);
    }
    None
}

fn g_command(keys: &Vec<char>) -> (fx: Vec<NEffect>)
    ensures
        neffects_of(fx) == g_command_spec(keys@),
{
    let e = crate::chars::eq_str;
    if e(keys, "x") {
        fx1(run(EditorCommand::OpenUrl))
    } else if e(keys, "f") {
        fx1(run(EditorCommand::GoToFile))
    } else if e(keys, "d") {
        fx2(run(EditorCommand::AddToJumpList), run(EditorCommand::GoToDefinition))
    } else if e(keys, "I") {
        fx1(run(EditorCommand::InsertAtColumnZero))
    } else if e(keys, "i") {
        fx1(run(EditorCommand::InsertAtLastPosition))
    } else if e(keys, "a") {
        fx1(run(EditorCommand::ShowCharInfo))
    } else if e(keys, "&") {
        fx1(run(EditorCommand::RepeatSubstitute))
    } else if e(keys, "J") {
        fx1(send("<Cmd>lua require('godot_neovim').join_no_space()<CR>"))
    } else if e(keys, "p") {
        fx1(send("gp"))
    } else if e(keys, "P") {
        fx1(send("gP"))
    } else if e(keys, "e") {
        fx2(run(EditorCommand::MoveWordEndBackward), send("ge"))
    } else if e(keys, "j") {
        fx1(run(EditorCommand::DisplayLineDown))
    } else if e(keys, "k") {
        fx1(run(EditorCommand::DisplayLineUp))
    } else if e(keys, "t") {
        fx1(run(EditorCommand::NextTab))
    } else if e(keys, "T") {
        fx1(run(EditorCommand::PrevTab))
    } else if e(keys, "v") {
        fx1(send("<C-v>"))
    } else if e(keys, "0") {
        fx1(run(EditorCommand::DisplayLineStart))
    } else if e(keys, "$") {
        fx1(run(EditorCommand::DisplayLineEnd))
    } else if e(keys, "^") {
        fx1(run(EditorCommand::DisplayLineFirstNonBlank))
    } else {
        fx1(NormalEffect::SendKeys(concat(&chars_of("g"), keys)))
    }
}

fn normal_forward(st: &mut InputState, k: &KeyInput) -> (r: NResolution)
    ensures
        nmatches(final(st)@, r, normal_forward_spec(old(st)@, *k)),
{
    if !nvim_key_defined_exec(k) {
        return NResolution { effects: fx0(), outcome: NormalOutcome::Undefined };
    }
    match key_event_to_nvim_string(k) {
        None => NResolution { effects: fx0(), outcome: NormalOutcome::Unsent },
        Some(keys) => {
            let kv = chars_of(keys.as_str());
            if last_key_is(st, "g") {
                clear_last_key(st);
                handled(g_command(&kv))
            } else {
                record_keys(st, &kv);
                NResolution { effects: fx0(), outcome: NormalOutcome::Forward(kv) }
            }
        },
    }
}

/// Decide what one key press does in normal or visual mode.
///
/// The state is updated as the key demands; the effects are to be run in
/// order, then the outcome acted on.
pub fn handle_normal_mode_input(st: &mut InputState, k: &KeyInput) -> (r: NResolution)
    ensures
        nmatches(final(st)@, r, normal_key_spec(old(st)@, *k)),
{
    match normal_ctrl(st, k) {
        Some(r) => {
            return r;
        },
        None => {},
    }
    match normal_search(st, k) {
        Some(r) => {
            return r;
        },
        None => {},
    }
    match normal_motion(st, k) {
        Some(r) => {
            return r;
        },
        None => {},
    }
    match normal_edit(st, k) {
        Some(r) => {
            return r;
        },
        None => {},
    }
    match normal_prefix(st, k) {
        Some(r) => {
            return r;
        },
        None => {},
    }
    match bracket_command(st, k, true) {
        Some(r) => {
            return r;
        },
        None => {},
    }
    match bracket_command(st, k, false) {
        Some(r) => {
            return r;
        },
        None => {},
    }
    match normal_late(st, k) {
        Some(r) => {
            return r;
        },
        None => {},
    }
    if last_key_is(st, "Z") && k.keycode != KEY_Z && k.keycode != KEY_Q {
        clear_last_key(st);
    }
    match normal_register(st, k) {
        Some(r) => {
            return r;
        },
        None => {},
    }
    normal_forward(st, k)
}

} // verus!
