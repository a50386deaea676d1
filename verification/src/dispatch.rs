//! Normal/visual mode key resolution.
//!
//! Given the input state and one key press, this decides what the key
//! does: which keys are sent to Neovim, which editor-side effects run,
//! which pending states begin or end, and whether the key is dispatched
//! to the keymap, handled, passed through to the editor, or forwarded to
//! Neovim as is.  Keys forwarded to Neovim are finished by
//! [`after_forward`] once the editor knows whether the send completed.

use crate::chars::{chars_of, concat, eq_str, is_digit, is_digit_char, slice_of};
use crate::keys::{
    is_visual_mode_spec, key_char, key_event_to_nvim_string, nvim_key_defined_exec, nvim_key_string,
    nvim_key_string_defined, unicode_char, KeyInput, KEY_A, KEY_B, KEY_BRACKETLEFT,
    KEY_BRACKETRIGHT, KEY_C, KEY_COMMA, KEY_D, KEY_E, KEY_F, KEY_G, KEY_H, KEY_I, KEY_J, KEY_K,
    KEY_L, KEY_M, KEY_N, KEY_O, KEY_P, KEY_Q, KEY_R, KEY_SEMICOLON, KEY_SLASH, KEY_T, KEY_U,
    KEY_V, KEY_X, KEY_Y, KEY_Z,
};
use crate::numbers::{all_digits, decimal, digits_value, digits_value_upto, u64_decimal};
use vstd::prelude::*;

verus! {

/// Input state of the Vim layer. `T` is the text type (`Vec<char>` when
/// running, `Seq<char>` in specifications) and `B` a list of texts.
pub struct KeyState<T, B> {
    /// Neovim mode name (`n`, `i`, `v`, `V`, `operator`, ...).
    pub mode: T,
    /// Prefix key waiting for its second key (`g`, `[`, `]`, `Z`, `>`, ...).
    pub last_key: T,
    /// Count typed so far (digits).
    pub count: T,
    /// Register chosen with `"`; `'\0'` while waiting for its name.
    pub selected_register: Option<char>,
    /// `f`, `F`, `t`, `T` or `r` waiting for its character.
    pub pending_char_op: Option<char>,
    /// `m`, `'` or `` ` `` waiting for its mark name.
    pub pending_mark_op: Option<char>,
    /// `q` or `@` waiting for its register.
    pub pending_macro_op: Option<char>,
    /// Register being recorded into.
    pub recording_macro: Option<char>,
    /// A macro is being played back.
    pub playing_macro: bool,
    /// Keys recorded so far.
    pub macro_buffer: B,
    /// `v` or `V`: the last visual mode entered from normal mode.
    pub visual_mode_type: char,
}

pub type InputState = KeyState<Vec<char>, Vec<Vec<char>>>;

pub type StateView = KeyState<Seq<char>, Seq<Seq<char>>>;

pub open spec fn texts_view(b: Seq<Vec<char>>) -> Seq<Seq<char>> {
    b.map_values(|v: Vec<char>| v@)
}

impl View for KeyState<Vec<char>, Vec<Vec<char>>> {
    type V = StateView;

    open spec fn view(&self) -> StateView {
        KeyState {
            mode: self.mode@,
            last_key: self.last_key@,
            count: self.count@,
            selected_register: self.selected_register,
            pending_char_op: self.pending_char_op,
            pending_mark_op: self.pending_mark_op,
            pending_macro_op: self.pending_macro_op,
            recording_macro: self.recording_macro,
            playing_macro: self.playing_macro,
            macro_buffer: texts_view(self.macro_buffer@),
            visual_mode_type: self.visual_mode_type,
        }
    }
}

/// Something the editor does while a key is resolved, in order.
pub enum KeyEffect<T, B> {
    /// Send these keys to Neovim.
    SendKeys(T),
    /// Toggle the comment on the current line (editor built-in).
    ToggleComment,
    /// Refresh the shown selection after the visual anchor was swapped.
    RefreshVisualSelection,
    /// Repeat the last `f`/`t` search; `true` keeps its direction.
    RepeatFindChar(bool),
    JumpToMatchingBracket,
    MoveToLineStart,
    MoveToFirstNonBlank,
    MoveToLineEnd,
    /// Send `R`; when the send completes, call [`finish_prefix_send`].
    EnterReplaceMode,
    /// Store a finished recording under a register.
    StoreMacro(char, B),
    /// Restart the prefix timeout.
    RestartKeyTimer,
    /// Move to the next (`true`) or previous occurrence of a character on
    /// the line; the last flag asks to stop just before it (`t`/`T`).
    FindChar(char, bool, bool),
    SetMark(char),
    JumpToMarkLine(char),
    JumpToMarkPosition(char),
    PlayMacro(char),
    ReplayLastMacro,
    RepeatLastExCommand,
}

/// How a key press ends.
pub enum KeyOutcome<T> {
    /// Consumed; nothing more to do.
    Handled,
    /// Run the keymap action bound to this key in the current mode.
    Dispatch(T),
    /// Leave the key to the editor.
    PassThrough,
    /// Send these keys to Neovim, then call [`after_forward`].
    Forward(T),
    /// The key cannot be written in Neovim notation.
    Undefined,
}

pub type Effect = KeyEffect<Vec<char>, Vec<Vec<char>>>;

pub type EffectView = KeyEffect<Seq<char>, Seq<Seq<char>>>;

pub open spec fn effect_view(e: Effect) -> EffectView {
    match e {
        KeyEffect::SendKeys(t) => KeyEffect::SendKeys(t@),
        KeyEffect::ToggleComment => KeyEffect::ToggleComment,
        KeyEffect::RefreshVisualSelection => KeyEffect::RefreshVisualSelection,
        KeyEffect::RepeatFindChar(b) => KeyEffect::RepeatFindChar(b),
        KeyEffect::JumpToMatchingBracket => KeyEffect::JumpToMatchingBracket,
        KeyEffect::MoveToLineStart => KeyEffect::MoveToLineStart,
        KeyEffect::MoveToFirstNonBlank => KeyEffect::MoveToFirstNonBlank,
        KeyEffect::MoveToLineEnd => KeyEffect::MoveToLineEnd,
        KeyEffect::EnterReplaceMode => KeyEffect::EnterReplaceMode,
        KeyEffect::StoreMacro(r, b) => KeyEffect::StoreMacro(r, texts_view(b@)),
        KeyEffect::RestartKeyTimer => KeyEffect::RestartKeyTimer,
        KeyEffect::FindChar(c, f, t) => KeyEffect::FindChar(c, f, t),
        KeyEffect::SetMark(c) => KeyEffect::SetMark(c),
        KeyEffect::JumpToMarkLine(c) => KeyEffect::JumpToMarkLine(c),
        KeyEffect::JumpToMarkPosition(c) => KeyEffect::JumpToMarkPosition(c),
        KeyEffect::PlayMacro(c) => KeyEffect::PlayMacro(c),
        KeyEffect::ReplayLastMacro => KeyEffect::ReplayLastMacro,
        KeyEffect::RepeatLastExCommand => KeyEffect::RepeatLastExCommand,
    }
}

pub open spec fn effects_view(fx: Seq<Effect>) -> Seq<EffectView> {
    fx.map_values(|e: Effect| effect_view(e))
}

pub open spec fn outcome_view(o: KeyOutcome<Vec<char>>) -> KeyOutcome<Seq<char>> {
    match o {
        KeyOutcome::Handled => KeyOutcome::Handled,
        KeyOutcome::Dispatch(t) => KeyOutcome::Dispatch(t@),
        KeyOutcome::PassThrough => KeyOutcome::PassThrough,
        KeyOutcome::Forward(t) => KeyOutcome::Forward(t@),
        KeyOutcome::Undefined => KeyOutcome::Undefined,
    }
}

/// Result of resolving one key: new state, effects, outcome.
pub struct Step {
    pub st: StateView,
    pub fx: Seq<EffectView>,
    pub out: KeyOutcome<Seq<char>>,
}

pub open spec fn done(st: StateView, fx: Seq<EffectView>) -> Step {
    Step { st, fx, out: KeyOutcome::Handled }
}

// ---------------------------------------------------------------------
// Small state transitions
// ---------------------------------------------------------------------

pub open spec fn recording(s: StateView) -> bool {
    s.recording_macro is Some && !s.playing_macro
}

/// Append keys to the recording when recording (and not playing back).
pub open spec fn record(s: StateView, keys: Seq<char>) -> StateView {
    if recording(s) {
        KeyState { macro_buffer: s.macro_buffer.push(keys), ..s }
    } else {
        s
    }
}

pub open spec fn with_last_key(s: StateView, k: Seq<char>) -> StateView {
    KeyState { last_key: k, ..s }
}

pub open spec fn cleared_last_key(s: StateView) -> StateView {
    with_last_key(s, Seq::empty())
}

/// Forget pending `f`/`m`/`q` operations and the chosen register.
pub open spec fn cleared_pending(s: StateView) -> StateView {
    KeyState {
        pending_char_op: None,
        pending_mark_op: None,
        pending_macro_op: None,
        selected_register: None,
        ..s
    }
}

/// The count typed so far: its value, or 1 when none (or unreadable).
pub open spec fn count_value(count: Seq<char>) -> nat {
    if count.len() > 0 && all_digits(count) && digits_value(count) <= u64::MAX {
        digits_value(count)
    } else {
        1
    }
}

/// The count as written in a Neovim command: empty when it is 1.
pub open spec fn count_text(count: Seq<char>) -> Seq<char> {
    if count_value(count) > 1 {
        decimal(count_value(count))
    } else {
        Seq::empty()
    }
}

pub open spec fn register_done(s: StateView) -> StateView {
    KeyState { selected_register: None, ..cleared_last_key(cleared_count(s)) }
}

pub open spec fn register_cmd(s: StateView, r: char, tail: Seq<char>) -> Seq<char> {
    seq!['"', r] + count_text(s.count) + tail
}

pub open spec fn char_op_state(s: StateView, c: char) -> StateView {
    KeyState { pending_char_op: Some(c), ..cleared_pending(s) }
}

pub open spec fn mark_op_state(s: StateView, c: char) -> StateView {
    KeyState { pending_mark_op: Some(c), ..cleared_pending(s) }
}

pub open spec fn sends(keys: Seq<char>) -> Seq<EffectView> {
    seq![KeyEffect::SendKeys(keys)]
}

pub open spec fn cleared_count(s: StateView) -> StateView {
    KeyState { count: Seq::empty(), ..s }
}

pub open spec fn key_is(k: KeyInput, code: u32) -> bool {
    k.keycode == code
}

pub open spec fn ch_is(k: KeyInput, c: char) -> bool {
    unicode_char(k) == Some(c)
}

pub open spec fn plain(k: KeyInput) -> bool {
    !k.shift && !k.ctrl
}

pub open spec fn shifted(k: KeyInput) -> bool {
    k.shift && !k.ctrl
}

// ---------------------------------------------------------------------
// The resolution steps, in the order they are tried
// ---------------------------------------------------------------------

/// `Ctrl` with one of the keys bound in the keymap.
pub open spec fn ctrl_key_spec(k: KeyInput) -> Option<Seq<char>> {
    let c = k.keycode;
    if c == KEY_B || c == KEY_F || c == KEY_D || c == KEY_U || c == KEY_Y || c == KEY_E || c
        == KEY_A || c == KEY_X || c == KEY_O || c == KEY_I || c == KEY_G || c == KEY_R {
        Some("<C-"@ + seq![((c + 32) as u32) as char] + ">"@)
    } else {
        None
    }
}

/// Keys dispatched to the keymap because they open editor UI.
pub open spec fn dispatchable_spec(s: StateView, k: KeyInput) -> Option<Seq<char>> {
    if k.ctrl {
        None
    } else if ch_is(k, '/') {
        Some("/"@)
    } else if ch_is(k, '?') {
        Some("?"@)
    } else if ch_is(k, ':') {
        Some(":"@)
    } else if ch_is(k, '*') {
        Some("*"@)
    } else if ch_is(k, '#') {
        Some("#"@)
    } else if key_is(k, KEY_N) && !k.shift {
        Some("n"@)
    } else if key_is(k, KEY_N) && k.shift {
        Some("N"@)
    } else if key_is(k, KEY_U) && !k.shift && s.last_key != "g"@ {
        Some("u"@)
    } else if key_is(k, KEY_K) && k.shift && s.last_key != "g"@ {
        Some("K"@)
    } else {
        None
    }
}

/// Keys `[`/`]` combine with: `[[ [] [p [{ [( [m` and `]] ][ ]p ]} ]) ]m`.
pub open spec fn bracket_prefix_spec(s: StateView, k: KeyInput, open: bool) -> (StateView, Option<Step>) {
    let p: char = if open { '[' } else { ']' };
    let same: u32 = if open { KEY_BRACKETLEFT } else { KEY_BRACKETRIGHT };
    let other: u32 = if open { KEY_BRACKETRIGHT } else { KEY_BRACKETLEFT };
    let send = |cmd: Seq<char>|
        Some(done(record(cleared_last_key(s), cmd), seq![KeyEffect::SendKeys(cmd)]));
    if key_is(k, same) && plain(k) {
        (s, send(seq![p, p]))
    } else if key_is(k, other) && plain(k) {
        (s, send(seq![p, if open { ']' } else { '[' }]))
    } else if key_is(k, KEY_P) && plain(k) {
        (s, send(seq![p, 'p']))
    } else if (open && (ch_is(k, '{') || ch_is(k, '('))) || (!open && (ch_is(k, '}') || ch_is(
        k,
        ')',
    ))) || ch_is(k, 'm') {
        (s, send(seq![p, unicode_char(k)->0]))
    } else if ch_is(k, '\0') || unicode_char(k) is None {
        (s, Some(done(s, Seq::empty())))
    } else {
        (cleared_last_key(s), None)
    }
}

/// Second key of a pending prefix (`g`, `[`, `]`, `Z`, `>`, `<`, `gq`).
/// Returns the state to continue with when the key does not complete
/// the prefix.
pub open spec fn pending_prefix_spec(s: StateView, k: KeyInput) -> (StateView, Option<Step>) {
    if s.last_key == "g"@ {
        if !nvim_key_string_defined(k) {
            (s, Some(Step { st: s, fx: Seq::empty(), out: KeyOutcome::Undefined }))
        } else {
            match nvim_key_string(k) {
                Some(keys) => (s, Some(Step {
                    st: cleared_last_key(s),
                    fx: Seq::empty(),
                    out: KeyOutcome::Dispatch("g"@ + keys),
                })),
                None => (s, Some(done(s, Seq::empty()))),
            }
        }
    } else if s.last_key == "["@ {
        bracket_prefix_spec(s, k, true)
    } else if s.last_key == "]"@ {
        bracket_prefix_spec(s, k, false)
    } else if s.last_key == "Z"@ {
        if key_is(k, KEY_Z) && shifted(k) {
            (s, Some(Step { st: cleared_last_key(s), fx: Seq::empty(), out: KeyOutcome::Dispatch("ZZ"@) }))
        } else if key_is(k, KEY_Q) && shifted(k) {
            (s, Some(Step { st: cleared_last_key(s), fx: Seq::empty(), out: KeyOutcome::Dispatch("ZQ"@) }))
        } else {
            (cleared_last_key(s), None)
        }
    } else if s.last_key == ">"@ && unicode_char(k) is Some {
        let c = unicode_char(k)->0;
        if c == '>' {
            (s, Some(done(record(cleared_last_key(s), ">>"@), seq![KeyEffect::SendKeys(">>"@)])))
        } else {
            (s, Some(done(cleared_last_key(s), seq![KeyEffect::SendKeys(seq!['>', c])])))
        }
    } else if s.last_key == "<"@ && unicode_char(k) is Some {
        let c = unicode_char(k)->0;
        if c == '<' {
            (s, Some(done(record(cleared_last_key(s), "<<"@), seq![KeyEffect::SendKeys("<LT><LT>"@)])))
        } else {
            (s, Some(done(cleared_last_key(s), seq![KeyEffect::SendKeys("<LT>"@ + seq![c])])))
        }
    } else if s.last_key == "gq"@ {
        if key_is(k, KEY_Q) && !k.shift {
            (s, Some(done(record(cleared_last_key(s), "gqq"@), seq![KeyEffect::SendKeys("gqq"@)])))
        } else if !nvim_key_string_defined(k) {
            (s, Some(Step { st: s, fx: Seq::empty(), out: KeyOutcome::Undefined }))
        } else {
            match nvim_key_string(k) {
                Some(keys) => (s, Some(done(cleared_last_key(s), seq![KeyEffect::SendKeys("gq"@ + keys)]))),
                None => (s, None),
            }
        }
    } else {
        (s, None)
    }
}

/// Keys after a register was chosen with `"x`.
pub open spec fn register_ops_spec(s: StateView, k: KeyInput) -> (StateView, Option<Step>) {
    match s.selected_register {
        None => (s, None),
        Some(r) => if r == '\0' {
            (s, None)
        } else {
            let prefix = seq!['"', r];
            let finish = |tail: Seq<char>|
                Some(done(register_done(s), sends(register_cmd(s, r, tail))));
            let doubled = |code: u32, letter: char|
                key_is(k, code) && plain(k);
            if unicode_char(k) is Some && is_digit(unicode_char(k)->0) && (unicode_char(k)->0 != '0'
                || s.count.len() > 0) {
                (s, Some(done(KeyState { count: s.count.push(unicode_char(k)->0), ..s }, Seq::empty())))
            } else if doubled(KEY_Y, 'y') {
                if s.last_key == "y"@ {
                    (s, finish("yy"@))
                } else {
                    (s, Some(done(with_last_key(s, "y"@), Seq::empty())))
                }
            } else if key_is(k, KEY_P) && plain(k) {
                (s, Some(done(
                    KeyState { selected_register: None, ..cleared_count(s) },
                    seq![KeyEffect::SendKeys(prefix + "p"@)],
                )))
            } else if key_is(k, KEY_P) && shifted(k) {
                (s, Some(done(
                    KeyState { selected_register: None, ..cleared_count(s) },
                    seq![KeyEffect::SendKeys(prefix + "P"@)],
                )))
            } else if doubled(KEY_D, 'd') {
                if s.last_key == "d"@ {
                    (s, finish("dd"@))
                } else {
                    (s, Some(done(with_last_key(s, "d"@), Seq::empty())))
                }
            } else if doubled(KEY_C, 'c') {
                if s.last_key == "c"@ {
                    (s, finish("cc"@))
                } else {
                    (s, Some(done(with_last_key(s, "c"@), Seq::empty())))
                }
            } else if !nvim_key_string_defined(k) {
                (s, Some(Step { st: s, fx: Seq::empty(), out: KeyOutcome::Undefined }))
            } else if nvim_key_string(k) is Some && s.last_key == "y"@ && !key_is(k, KEY_Y) {
                (s, finish(seq!['y'] + nvim_key_string(k)->0))
            } else if nvim_key_string(k) is Some && s.last_key == "d"@ && !key_is(k, KEY_D) {
                (s, finish(seq!['d'] + nvim_key_string(k)->0))
            } else if nvim_key_string(k) is Some && s.last_key == "c"@ && !key_is(k, KEY_C) {
                (s, finish(seq!['c'] + nvim_key_string(k)->0))
            } else if !key_is(k, KEY_Y) && !key_is(k, KEY_D) && !key_is(k, KEY_C) {
                (KeyState { selected_register: None, ..cleared_count(s) }, None)
            } else {
                (s, None)
            }
        },
    }
}

/// Keys whose effect happens on the editor side as well as in Neovim.
pub open spec fn side_effect_spec(s: StateView, k: KeyInput) -> Option<Step> {
    if key_is(k, KEY_SEMICOLON) && !k.shift {
        Some(done(record(s, ";"@), seq![KeyEffect::RepeatFindChar(true), KeyEffect::SendKeys(";"@)]))
    } else if key_is(k, KEY_COMMA) && !k.shift {
        Some(done(record(s, ","@), seq![KeyEffect::RepeatFindChar(false), KeyEffect::SendKeys(","@)]))
    } else if ch_is(k, '%') {
        Some(done(record(s, "%"@), seq![KeyEffect::JumpToMatchingBracket, KeyEffect::SendKeys("%"@)]))
    } else if ch_is(k, '0') && !k.ctrl && s.last_key != "g"@ {
        Some(done(s, seq![KeyEffect::MoveToLineStart, KeyEffect::SendKeys("0"@)]))
    } else if ch_is(k, '^') && s.last_key != "g"@ {
        Some(done(s, seq![KeyEffect::MoveToFirstNonBlank, KeyEffect::SendKeys("^"@)]))
    } else if ch_is(k, '$') && s.last_key != "g"@ {
        Some(done(s, seq![KeyEffect::MoveToLineEnd, KeyEffect::SendKeys("$"@)]))
    } else if key_is(k, KEY_J) && shifted(k) && s.last_key != "g"@ {
        Some(done(s, seq![KeyEffect::SendKeys("J"@)]))
    } else if !k.ctrl && !k.alt && k.shift && (key_is(k, KEY_H) || key_is(k, KEY_M) || key_is(k, KEY_L)) {
        Some(done(s, seq![KeyEffect::SendKeys(
            if key_is(k, KEY_H) { "H"@ } else if key_is(k, KEY_M) { "M"@ } else { "L"@ },
        )]))
    } else if key_is(k, KEY_R) && shifted(k) {
        Some(done(record(s, "R"@), seq![KeyEffect::EnterReplaceMode]))
    } else {
        None
    }
}

pub open spec fn not_after(s: StateView, a: Seq<char>, b: Seq<char>) -> bool {
    s.last_key != a && s.last_key != b
}

/// Stop recording: the recording ends and, when it is not empty, is stored.
pub open spec fn stop_recording(s: StateView) -> Step {
    let st = KeyState { recording_macro: None, macro_buffer: Seq::empty(), ..s };
    if s.macro_buffer.len() > 0 {
        done(st, seq![KeyEffect::StoreMacro(s.recording_macro->0, s.macro_buffer)])
    } else {
        done(st, Seq::empty())
    }
}

/// Keys that start waiting for a character (`f t r m ' ` q @ "`).
pub open spec fn pending_setup_spec(s: StateView, k: KeyInput) -> Option<Step> {
    let char_op = |c: char| Some(done(char_op_state(s, c), Seq::empty()));
    let mark_op = |c: char| Some(done(mark_op_state(s, c), Seq::empty()));
    let free_mode = s.mode != "operator"@ && !is_visual_mode_spec(s.mode);
    if key_is(k, KEY_F) && plain(k) && not_after(s, "g"@, "i"@) && s.last_key != "a"@ {
        char_op('f')
    } else if key_is(k, KEY_F) && shifted(k) && not_after(s, "i"@, "a"@) {
        char_op('F')
    } else if key_is(k, KEY_T) && plain(k) && not_after(s, "g"@, "z"@) && not_after(s, "i"@, "a"@) {
        char_op('t')
    } else if key_is(k, KEY_T) && shifted(k) && s.last_key != "g"@ && not_after(s, "i"@, "a"@) {
        char_op('T')
    } else if key_is(k, KEY_R) && plain(k) {
        char_op('r')
    } else if key_is(k, KEY_M) && plain(k) {
        mark_op('m')
    } else if ch_is(k, '\'') && !k.ctrl && free_mode {
        mark_op('\'')
    } else if ch_is(k, '`') && !k.ctrl && free_mode {
        mark_op('`')
    } else if key_is(k, KEY_Q) && plain(k) && !k.altgr_held && s.last_key != "g"@ {
        if s.recording_macro is Some {
            Some(stop_recording(s))
        } else {
            Some(done(KeyState { pending_macro_op: Some('q'), ..cleared_pending(s) }, Seq::empty()))
        }
    } else if ch_is(k, '@') && !k.ctrl {
        Some(done(KeyState { pending_macro_op: Some('@'), ..cleared_pending(s) }, Seq::empty()))
    } else if ch_is(k, '"') && !k.ctrl && free_mode {
        Some(done(KeyState { selected_register: Some('\0'), ..cleared_last_key(cleared_pending(s)) }, Seq::empty()))
    } else {
        None
    }
}

/// `>>` and `<<` (and the first `>`/`<` of an operator).
pub open spec fn operator_spec(s: StateView, k: KeyInput) -> Option<Step> {
    if ch_is(k, '>') {
        if s.last_key == ">"@ {
            Some(done(record(cleared_last_key(s), ">>"@), seq![KeyEffect::SendKeys(">>"@)]))
        } else {
            Some(done(with_last_key(s, ">"@), Seq::empty()))
        }
    } else if ch_is(k, '<') {
        if s.last_key == "<"@ {
            Some(done(record(cleared_last_key(s), "<<"@), seq![KeyEffect::SendKeys("<LT><LT>"@)]))
        } else {
            Some(done(with_last_key(s, "<"@), Seq::empty()))
        }
    } else {
        None
    }
}

/// First keys of two-key commands, held until the second key.
pub open spec fn prefix_start_spec(s: StateView, k: KeyInput) -> Option<Step> {
    if ch_is(k, 'g') && plain(k) && s.last_key != "g"@ {
        Some(done(with_last_key(s, "g"@), Seq::empty()))
    } else if key_is(k, KEY_BRACKETLEFT) && plain(k) && not_after(s, "["@, "]"@) {
        Some(done(with_last_key(s, "["@), Seq::empty()))
    } else if key_is(k, KEY_BRACKETRIGHT) && plain(k) && not_after(s, "["@, "]"@) {
        Some(done(with_last_key(s, "]"@), Seq::empty()))
    } else if key_is(k, KEY_Z) && shifted(k) && s.last_key != "Z"@ {
        Some(done(with_last_key(s, "Z"@), Seq::empty()))
    } else {
        None
    }
}

/// A count digit: `1`-`9`, or `0` once a count has begun.
pub open spec fn count_digit(s: StateView, k: KeyInput) -> bool {
    unicode_char(k) is Some && is_digit(unicode_char(k)->0) && (unicode_char(k)->0 != '0' || s.count.len() > 0)
}

/// The last resort: the key goes to Neovim as it is.
pub open spec fn forward_spec(s: StateView, k: KeyInput) -> Step {
    let s1 = if key_is(k, KEY_V) && !k.ctrl {
        KeyState { visual_mode_type: if k.shift { 'V' } else { 'v' }, ..s }
    } else {
        s
    };
    if !nvim_key_string_defined(k) {
        Step { st: s1, fx: Seq::empty(), out: KeyOutcome::Undefined }
    } else {
        match nvim_key_string(k) {
            Some(keys) => Step { st: record(s1, keys), fx: Seq::empty(), out: KeyOutcome::Forward(keys) },
            None => done(s1, Seq::empty()),
        }
    }
}

/// The resolution of one key press in normal or visual mode.
pub open spec fn process_key_spec(s: StateView, k: KeyInput) -> Step {
    if k.command_or_control && key_is(k, KEY_SLASH) {
        Step { st: s, fx: seq![KeyEffect::ToggleComment], out: KeyOutcome::PassThrough }
    } else if k.ctrl && ctrl_key_spec(k) is Some {
        Step { st: s, fx: Seq::empty(), out: KeyOutcome::Dispatch(ctrl_key_spec(k)->0) }
    } else if is_visual_mode_spec(s.mode) && key_is(k, KEY_O) && plain(k) {
        done(s, seq![KeyEffect::SendKeys("o"@), KeyEffect::RefreshVisualSelection])
    } else {
        let (s1, p) = pending_prefix_spec(s, k);
        if p is Some {
            p->0
        } else {
            let (s2, r) = register_ops_spec(s1, k);
            if r is Some {
                r->0
            } else if count_digit(s2, k) {
                let c = unicode_char(k)->0;
                done(KeyState { count: s2.count.push(c), ..s2 }, seq![KeyEffect::SendKeys(seq![c]), KeyEffect::RestartKeyTimer])
            } else if side_effect_spec(s2, k) is Some {
                side_effect_spec(s2, k)->0
            } else if pending_setup_spec(s2, k) is Some {
                pending_setup_spec(s2, k)->0
            } else if operator_spec(s2, k) is Some {
                operator_spec(s2, k)->0
            } else if prefix_start_spec(s2, k) is Some {
                prefix_start_spec(s2, k)->0
            } else if dispatchable_spec(s2, k) is Some {
                Step { st: s2, fx: Seq::empty(), out: KeyOutcome::Dispatch(dispatchable_spec(s2, k)->0) }
            } else {
                forward_spec(s2, k)
            }
        }
    }
}


// ---------------------------------------------------------------------
// Running code
// ---------------------------------------------------------------------

proof fn lemma_texts_push(b: Seq<Vec<char>>, v: Vec<char>)
    ensures
        texts_view(b.push(v)) == texts_view(b).push(v@),
{
    assert(texts_view(b.push(v)) =~= texts_view(b).push(v@));
}

pub(crate) fn last_key_is(st: &InputState, lit: &str) -> (b: bool)
    ensures
        b == (st@.last_key == lit@),
{
    eq_str(&st.last_key, lit)
}

pub(crate) fn mode_is(st: &InputState, lit: &str) -> (b: bool)
    ensures
        b == (st@.mode == lit@),
{
    eq_str(&st.mode, lit)
}

pub(crate) fn mode_is_visual(st: &InputState) -> (b: bool)
    ensures
        b == is_visual_mode_spec(st@.mode),
{
    eq_str(&st.mode, "v") || eq_str(&st.mode, "V") || eq_str(&st.mode, "\x16") || eq_str(
        &st.mode,
        "^V",
    ) || eq_str(&st.mode, "CTRL-V")
}

pub(crate) fn is_recording(st: &InputState) -> (b: bool)
    ensures
        b == recording(st@),
{
    st.recording_macro.is_some() && !st.playing_macro
}

pub(crate) fn record_keys(st: &mut InputState, keys: &Vec<char>)
    ensures
        final(st)@ == record(old(st)@, keys@),
{
    if is_recording(st) {
        let copy = slice_of(keys, 0, keys.len());
        assert(copy@ =~= keys@);
        proof {
            lemma_texts_push(st.macro_buffer@, copy);
        }
        st.macro_buffer.push(copy);
    }
}

pub(crate) fn set_last_key(st: &mut InputState, lit: &str)
    ensures
        final(st)@ == with_last_key(old(st)@, lit@),
{
    st.last_key = chars_of(lit);
}

/// Forget the prefix key.
pub fn clear_last_key(st: &mut InputState)
    ensures
        final(st)@ == cleared_last_key(old(st)@),
{
    st.last_key = Vec::new();
    assert(st@.last_key =~= Seq::<char>::empty());
}

pub(crate) fn clear_pending(st: &mut InputState)
    ensures
        final(st)@ == cleared_pending(old(st)@),
{
    st.pending_char_op = None;
    st.pending_mark_op = None;
    st.pending_macro_op = None;
    st.selected_register = None;
}

pub(crate) fn clear_count(st: &mut InputState)
    ensures
        final(st)@ == cleared_count(old(st)@),
{
    st.count = Vec::new();
    assert(st@.count =~= Seq::<char>::empty());
}

pub(crate) fn two(a: char, b: char) -> (v: Vec<char>)
    ensures
        v@ == seq![a, b],
{
    let mut v: Vec<char> = Vec::new();
    v.push(a);
    v.push(b);
    assert(v@ =~= seq![a, b]);
    v
}

pub(crate) fn one(a: char) -> (v: Vec<char>)
    ensures
        v@ == seq![a],
{
    let mut v: Vec<char> = Vec::new();
    v.push(a);
    assert(v@ =~= seq![a]);
    v
}

pub(crate) fn count_value_exec(count: &Vec<char>) -> (n: u64)
    ensures
        n == count_value(count@),
{
    assert(count@.subrange(0, count@.len() as int) =~= count@);
    if count.len() > 0 {
        match digits_value_upto(count, 0, count.len(), u64::MAX) {
            Some(x) => x,
            None => 1,
        }
    } else {
        1
    }
}

/// The count as written in a Neovim command.
pub(crate) fn count_text_exec(count: &Vec<char>) -> (r: Vec<char>)
    ensures
        r@ == count_text(count@),
{
    let n = count_value_exec(count);
    if n > 1 {
        u64_decimal(n)
    } else {
        Vec::new()
    }
}

pub open spec fn effects_of(fx: Vec<Effect>) -> Seq<EffectView> {
    effects_view(fx@)
}

fn push_send(fx: &mut Vec<Effect>, keys: Vec<char>)
    ensures
        effects_of(*final(fx)) == effects_of(*old(fx)).push(KeyEffect::SendKeys(keys@)),
{
    fx.push(KeyEffect::SendKeys(keys));
    assert(effects_view(fx@) =~= effects_view(old(fx)@).push(KeyEffect::SendKeys(keys@)));
}

fn push_effect(fx: &mut Vec<Effect>, e: Effect)
    ensures
        effects_of(*final(fx)) == effects_of(*old(fx)).push(effect_view(e)),
{
    fx.push(e);
    assert(effects_view(fx@) =~= effects_view(old(fx)@).push(effect_view(e)));
}

/// Result of an exec step: effects and outcome.
pub struct Resolution {
    pub effects: Vec<Effect>,
    pub outcome: KeyOutcome<Vec<char>>,
}

pub open spec fn matches_step(old_st: StateView, new_st: StateView, r: Resolution, step: Step) -> bool {
    &&& new_st == step.st
    &&& effects_of(r.effects) == step.fx
    &&& outcome_view(r.outcome) == step.out
}

fn handled(fx: Vec<Effect>) -> (r: Resolution)
    ensures
        r.effects == fx,
        outcome_view(r.outcome) == KeyOutcome::<Seq<char>>::Handled,
{
    Resolution { effects: fx, outcome: KeyOutcome::Handled }
}

fn no_effects() -> (fx: Vec<Effect>)
    ensures
        effects_of(fx) == Seq::<EffectView>::empty(),
{
    let fx: Vec<Effect> = Vec::new();
    assert(effects_view(fx@) =~= Seq::<EffectView>::empty());
    fx
}

fn send_only(keys: Vec<char>) -> (fx: Vec<Effect>)
    ensures
        effects_of(fx) == seq![KeyEffect::<Seq<char>, Seq<Seq<char>>>::SendKeys(keys@)],
{
    let mut fx = no_effects();
    push_send(&mut fx, keys);
    assert(effects_of(fx) =~= seq![KeyEffect::<Seq<char>, Seq<Seq<char>>>::SendKeys(keys@)]);
    fx
}

fn effects2(a: Effect, b: Effect) -> (fx: Vec<Effect>)
    ensures
        effects_of(fx) == seq![effect_view(a), effect_view(b)],
{
    let mut fx = no_effects();
    push_effect(&mut fx, a);
    push_effect(&mut fx, b);
    assert(effects_of(fx) =~= seq![effect_view(a), effect_view(b)]);
    fx
}

fn effects1(a: Effect) -> (fx: Vec<Effect>)
    ensures
        effects_of(fx) == seq![effect_view(a)],
{
    let mut fx = no_effects();
    push_effect(&mut fx, a);
    assert(effects_of(fx) =~= seq![effect_view(a)]);
    fx
}

fn ctrl_key(k: &KeyInput) -> (r: Option<Vec<char>>)
    ensures
        r matches Some(v) ==> ctrl_key_spec(*k) == Some(v@),
        r is None ==> ctrl_key_spec(*k) is None,
{
    let c = k.keycode;
    if c == KEY_B || c == KEY_F || c == KEY_D || c == KEY_U || c == KEY_Y || c == KEY_E || c
        == KEY_A || c == KEY_X || c == KEY_O || c == KEY_I || c == KEY_G || c == KEY_R {
        let b: u8 = (c + 32) as u8;
        let mut v = chars_of("<C-");
        v.push(b as char);
        let r = concat(&v, &chars_of(">"));
        Some(r)
    } else {
        None
    }
}

fn dispatchable(st: &InputState, k: &KeyInput) -> (r: Option<Vec<char>>)
    ensures
        r matches Some(v) ==> dispatchable_spec(st@, *k) == Some(v@),
        r is None ==> dispatchable_spec(st@, *k) is None,
{
    let ch = key_char(k);
    if k.ctrl {
        None
    } else if ch == Some('/') {
        Some(chars_of("/"))
    } else if ch == Some('?') {
        Some(chars_of("?"))
    } else if ch == Some(':') {
        Some(chars_of(":"))
    } else if ch == Some('*') {
        Some(chars_of("*"))
    } else if ch == Some('#') {
        Some(chars_of("#"))
    } else if k.keycode == KEY_N && !k.shift {
        Some(chars_of("n"))
    } else if k.keycode == KEY_N && k.shift {
        Some(chars_of("N"))
    } else if k.keycode == KEY_U && !k.shift && !last_key_is(st, "g") {
        Some(chars_of("u"))
    } else if k.keycode == KEY_K && k.shift && !last_key_is(st, "g") {
        Some(chars_of("K"))
    } else {
        None
    }
}

fn send_recorded(st: &mut InputState, cmd: Vec<char>) -> (r: Resolution)
    ensures
        final(st)@ == record(cleared_last_key(old(st)@), cmd@),
        effects_of(r.effects) == seq![KeyEffect::<Seq<char>, Seq<Seq<char>>>::SendKeys(cmd@)],
        outcome_view(r.outcome) == KeyOutcome::<Seq<char>>::Handled,
{
    clear_last_key(st);
    record_keys(st, &cmd);
    handled(send_only(cmd))
}

fn bracket_prefix(st: &mut InputState, k: &KeyInput, open: bool) -> (r: Option<Resolution>)
    ensures
        ({
            let (s2, p) = bracket_prefix_spec(old(st)@, *k, open);
            match r {
                Some(res) => p is Some && matches_step(old(st)@, final(st)@, res, p->0),
                None => p is None && final(st)@ == s2,
            }
        }),
{
    let p: char = if open { '[' } else { ']' };
    let same: u32 = if open { KEY_BRACKETLEFT } else { KEY_BRACKETRIGHT };
    let other: u32 = if open { KEY_BRACKETRIGHT } else { KEY_BRACKETLEFT };
    let ch = key_char(k);
    if k.keycode == same && !k.shift && !k.ctrl {
        Some(send_recorded(st, two(p, p)))
    } else if k.keycode == other && !k.shift && !k.ctrl {
        Some(send_recorded(st, two(p, if open { ']' } else { '[' })))
    } else if k.keycode == KEY_P && !k.shift && !k.ctrl {
        Some(send_recorded(st, two(p, 'p')))
    } else if (open && (ch == Some('{') || ch == Some('('))) || (!open && (ch == Some('}') || ch
        == Some(')'))) || ch == Some('m') {
        let c = ch.unwrap();
        Some(send_recorded(st, two(p, c)))
    } else if ch == Some('\0') || ch.is_none() {
        Some(handled(no_effects()))
    } else {
        clear_last_key(st);
        None
    }
}

fn pending_prefix(st: &mut InputState, k: &KeyInput) -> (r: Option<Resolution>)
    ensures
        ({
            let (s2, p) = pending_prefix_spec(old(st)@, *k);
            match r {
                Some(res) => p is Some && matches_step(old(st)@, final(st)@, res, p->0),
                None => p is None && final(st)@ == s2,
            }
        }),
{
    let ch = key_char(k);
    if last_key_is(st, "g") {
        if !nvim_key_defined_exec(k) {
            return Some(Resolution { effects: no_effects(), outcome: KeyOutcome::Undefined });
        }
        match key_event_to_nvim_string(k) {
            Some(keys) => {
                let kv = chars_of(keys.as_str());
                let resolved = concat(&chars_of("g"), &kv);
                clear_last_key(st);
                Some(Resolution { effects: no_effects(), outcome: KeyOutcome::Dispatch(resolved) })
            },
            None => Some(handled(no_effects())),
        }
    } else if last_key_is(st, "[") {
        bracket_prefix(st, k, true)
    } else if last_key_is(st, "]") {
        bracket_prefix(st, k, false)
    } else if last_key_is(st, "Z") {
        if k.keycode == KEY_Z && k.shift && !k.ctrl {
            clear_last_key(st);
            Some(Resolution { effects: no_effects(), outcome: KeyOutcome::Dispatch(chars_of("ZZ")) })
        } else if k.keycode == KEY_Q && k.shift && !k.ctrl {
            clear_last_key(st);
            Some(Resolution { effects: no_effects(), outcome: KeyOutcome::Dispatch(chars_of("ZQ")) })
        } else {
            clear_last_key(st);
            None
        }
    } else if last_key_is(st, ">") && ch.is_some() {
        let c = ch.unwrap();
        if c == '>' {
            let cmd = chars_of(">>");
            clear_last_key(st);
            record_keys(st, &cmd);
            Some(handled(send_only(cmd)))
        } else {
            clear_last_key(st);
            Some(handled(send_only(two('>', c))))
        }
    } else if last_key_is(st, "<") && ch.is_some() {
        let c = ch.unwrap();
        if c == '<' {
            clear_last_key(st);
            record_keys(st, &chars_of("<<"));
            Some(handled(send_only(chars_of("<LT><LT>"))))
        } else {
            clear_last_key(st);
            let mut v = chars_of("<LT>");
            let cv = one(c);
            let v2 = concat(&v, &cv);
            Some(handled(send_only(v2)))
        }
    } else if last_key_is(st, "gq") {
        if k.keycode == KEY_Q && !k.shift {
            let cmd = chars_of("gqq");
            clear_last_key(st);
            record_keys(st, &cmd);
            Some(handled(send_only(cmd)))
        } else if !nvim_key_defined_exec(k) {
            Some(Resolution { effects: no_effects(), outcome: KeyOutcome::Undefined })
        } else {
            match key_event_to_nvim_string(k) {
                Some(keys) => {
                    let kv = chars_of(keys.as_str());
                    let cmd = concat(&chars_of("gq"), &kv);
                    clear_last_key(st);
                    Some(handled(send_only(cmd)))
                },
                None => None,
            }
        }
    } else {
        None
    }
}

fn register_finish(st: &mut InputState, r: char, tail: Vec<char>) -> (res: Resolution)
    ensures
        final(st)@ == register_done(old(st)@),
        effects_of(res.effects) == sends(register_cmd(old(st)@, r, tail@)),
        outcome_view(res.outcome) == KeyOutcome::<Seq<char>>::Handled,
{
    let ct = count_text_exec(&st.count);
    let cmd = concat(&concat(&two('"', r), &ct), &tail);
    clear_count(st);
    st.selected_register = None;
    clear_last_key(st);
    handled(send_only(cmd))
}

fn register_ops(st: &mut InputState, k: &KeyInput) -> (r: Option<Resolution>)
    ensures
        ({
            let (s2, p) = register_ops_spec(old(st)@, *k);
            match r {
                Some(res) => p is Some && matches_step(old(st)@, final(st)@, res, p->0),
                None => p is None && final(st)@ == s2,
            }
        }),
{
    let reg = match st.selected_register {
        None => {
            return None;
        },
        Some(x) => x,
    };
    if reg == '\0' {
        return None;
    }
    let ch = key_char(k);
    let plain = !k.shift && !k.ctrl;
    if ch.is_some() && is_digit_char(ch.unwrap()) && (ch.unwrap() != '0' || st.count.len() > 0) {
        st.count.push(ch.unwrap());
        return Some(handled(no_effects()));
    }
    if k.keycode == KEY_Y && plain {
        if last_key_is(st, "y") {
            return Some(register_finish(st, reg, chars_of("yy")));
        } else {
            set_last_key(st, "y");
            return Some(handled(no_effects()));
        }
    }
    if k.keycode == KEY_P && plain {
        let cmd = concat(&two('"', reg), &chars_of("p"));
        st.selected_register = None;
        clear_count(st);
        return Some(handled(send_only(cmd)));
    }
    if k.keycode == KEY_P && k.shift && !k.ctrl {
        let cmd = concat(&two('"', reg), &chars_of("P"));
        st.selected_register = None;
        clear_count(st);
        return Some(handled(send_only(cmd)));
    }
    if k.keycode == KEY_D && plain {
        if last_key_is(st, "d") {
            return Some(register_finish(st, reg, chars_of("dd")));
        } else {
            set_last_key(st, "d");
            return Some(handled(no_effects()));
        }
    }
    if k.keycode == KEY_C && plain {
        if last_key_is(st, "c") {
            return Some(register_finish(st, reg, chars_of("cc")));
        } else {
            set_last_key(st, "c");
            return Some(handled(no_effects()));
        }
    }
    if !nvim_key_defined_exec(k) {
        return Some(Resolution { effects: no_effects(), outcome: KeyOutcome::Undefined });
    }
    match key_event_to_nvim_string(k) {
        Some(keys) => {
            let kv = chars_of(keys.as_str());
            if last_key_is(st, "y") && k.keycode != KEY_Y {
                return Some(register_finish(st, reg, concat(&one('y'), &kv)));
            }
            if last_key_is(st, "d") && k.keycode != KEY_D {
                return Some(register_finish(st, reg, concat(&one('d'), &kv)));
            }
            if last_key_is(st, "c") && k.keycode != KEY_C {
                return Some(register_finish(st, reg, concat(&one('c'), &kv)));
            }
        },
        None => {},
    }
    if k.keycode != KEY_Y && k.keycode != KEY_D && k.keycode != KEY_C {
        st.selected_register = None;
        clear_count(st);
    }
    None
}

fn side_effects(st: &mut InputState, k: &KeyInput) -> (r: Option<Resolution>)
    ensures
        ({
            let p = side_effect_spec(old(st)@, *k);
            match r {
                Some(res) => p is Some && matches_step(old(st)@, final(st)@, res, p->0),
                None => p is None && final(st)@ == old(st)@,
            }
        }),
{
    let ch = key_char(k);
    let g = last_key_is(st, "g");
    if k.keycode == KEY_SEMICOLON && !k.shift {
        record_keys(st, &chars_of(";"));
        let fx = effects2(KeyEffect::RepeatFindChar(true), KeyEffect::SendKeys(chars_of(";")));
        return Some(handled(fx));
    }
    if k.keycode == KEY_COMMA && !k.shift {
        record_keys(st, &chars_of(","));
        let fx = effects2(KeyEffect::RepeatFindChar(false), KeyEffect::SendKeys(chars_of(",")));
        return Some(handled(fx));
    }
    if ch == Some('%') {
        record_keys(st, &chars_of("%"));
        let fx = effects2(KeyEffect::JumpToMatchingBracket, KeyEffect::SendKeys(chars_of("%")));
        return Some(handled(fx));
    }
    if ch == Some('0') && !k.ctrl && !g {
        let fx = effects2(KeyEffect::MoveToLineStart, KeyEffect::SendKeys(chars_of("0")));
        return Some(handled(fx));
    }
    if ch == Some('^') && !g {
        let fx = effects2(KeyEffect::MoveToFirstNonBlank, KeyEffect::SendKeys(chars_of("^")));
        return Some(handled(fx));
    }
    if ch == Some('$') && !g {
        let fx = effects2(KeyEffect::MoveToLineEnd, KeyEffect::SendKeys(chars_of("$")));
        return Some(handled(fx));
    }
    if k.keycode == KEY_J && k.shift && !k.ctrl && !g {
        return Some(handled(send_only(chars_of("J"))));
    }
    if !k.ctrl && !k.alt && k.shift && (k.keycode == KEY_H || k.keycode == KEY_M || k.keycode
        == KEY_L) {
        let keys = if k.keycode == KEY_H {
            chars_of("H")
        } else if k.keycode == KEY_M {
            chars_of("M")
        } else {
            chars_of("L")
        };
        return Some(handled(send_only(keys)));
    }
    if k.keycode == KEY_R && k.shift && !k.ctrl {
        record_keys(st, &chars_of("R"));
        let fx = effects1(KeyEffect::EnterReplaceMode);
        return Some(handled(fx));
    }
    None
}

fn start_char_op(st: &mut InputState, c: char) -> (r: Resolution)
    ensures
        final(st)@ == char_op_state(old(st)@, c),
        effects_of(r.effects) == Seq::<EffectView>::empty(),
        outcome_view(r.outcome) == KeyOutcome::<Seq<char>>::Handled,
{
    clear_pending(st);
    st.pending_char_op = Some(c);
    handled(no_effects())
}

fn start_mark_op(st: &mut InputState, c: char) -> (r: Resolution)
    ensures
        final(st)@ == mark_op_state(old(st)@, c),
        effects_of(r.effects) == Seq::<EffectView>::empty(),
        outcome_view(r.outcome) == KeyOutcome::<Seq<char>>::Handled,
{
    clear_pending(st);
    st.pending_mark_op = Some(c);
    handled(no_effects())
}

/// Stop recording a macro: returns what to store, if anything.
pub(crate) fn stop_recording_exec(st: &mut InputState) -> (r: Resolution)
    requires
        old(st).recording_macro is Some,
    ensures
        matches_step(old(st)@, final(st)@, r, stop_recording(old(st)@)),
{
    let reg = st.recording_macro.unwrap();
    let mut keys: Vec<Vec<char>> = Vec::new();
    std::mem::swap(&mut keys, &mut st.macro_buffer);
    st.recording_macro = None;
    assert(texts_view(st.macro_buffer@) =~= Seq::<Seq<char>>::empty());
    let mut fx = no_effects();
    if keys.len() > 0 {
        push_effect(&mut fx, KeyEffect::StoreMacro(reg, keys));
    }
    handled(fx)
}

fn pending_setup(st: &mut InputState, k: &KeyInput) -> (r: Option<Resolution>)
    ensures
        ({
            let p = pending_setup_spec(old(st)@, *k);
            match r {
                Some(res) => p is Some && matches_step(old(st)@, final(st)@, res, p->0),
                None => p is None && final(st)@ == old(st)@,
            }
        }),
{
    let ch = key_char(k);
    let plain = !k.shift && !k.ctrl;
    let shifted = k.shift && !k.ctrl;
    let g = last_key_is(st, "g");
    let i = last_key_is(st, "i");
    let a = last_key_is(st, "a");
    let z = last_key_is(st, "z");
    let free_mode = !mode_is(st, "operator") && !mode_is_visual(st);
    if k.keycode == KEY_F && plain && !g && !i && !a {
        return Some(start_char_op(st, 'f'));
    }
    if k.keycode == KEY_F && shifted && !i && !a {
        return Some(start_char_op(st, 'F'));
    }
    if k.keycode == KEY_T && plain && !g && !z && !i && !a {
        return Some(start_char_op(st, 't'));
    }
    if k.keycode == KEY_T && shifted && !g && !i && !a {
        return Some(start_char_op(st, 'T'));
    }
    if k.keycode == KEY_R && plain {
        return Some(start_char_op(st, 'r'));
    }
    if k.keycode == KEY_M && plain {
        return Some(start_mark_op(st, 'm'));
    }
    if ch == Some('\'') && !k.ctrl && free_mode {
        return Some(start_mark_op(st, '\''));
    }
    if ch == Some('`') && !k.ctrl && free_mode {
        return Some(start_mark_op(st, '`'));
    }
    if k.keycode == KEY_Q && plain && !k.altgr_held && !g {
        if st.recording_macro.is_some() {
            return Some(stop_recording_exec(st));
        } else {
            clear_pending(st);
            st.pending_macro_op = Some('q');
            return Some(handled(no_effects()));
        }
    }
    if ch == Some('@') && !k.ctrl {
        clear_pending(st);
        st.pending_macro_op = Some('@');
        return Some(handled(no_effects()));
    }
    if ch == Some('"') && !k.ctrl && free_mode {
        clear_pending(st);
        clear_last_key(st);
        st.selected_register = Some('\0');
        return Some(handled(no_effects()));
    }
    None
}

fn operator_keys(st: &mut InputState, k: &KeyInput) -> (r: Option<Resolution>)
    ensures
        ({
            let p = operator_spec(old(st)@, *k);
            match r {
                Some(res) => p is Some && matches_step(old(st)@, final(st)@, res, p->0),
                None => p is None && final(st)@ == old(st)@,
            }
        }),
{
    let ch = key_char(k);
    if ch == Some('>') {
        if last_key_is(st, ">") {
            let cmd = chars_of(">>");
            clear_last_key(st);
            record_keys(st, &cmd);
            return Some(handled(send_only(cmd)));
        } else {
            set_last_key(st, ">");
            return Some(handled(no_effects()));
        }
    }
    if ch == Some('<') {
        if last_key_is(st, "<") {
            clear_last_key(st);
            record_keys(st, &chars_of("<<"));
            return Some(handled(send_only(chars_of("<LT><LT>"))));
        } else {
            set_last_key(st, "<");
            return Some(handled(no_effects()));
        }
    }
    None
}

fn prefix_start(st: &mut InputState, k: &KeyInput) -> (r: Option<Resolution>)
    ensures
        ({
            let p = prefix_start_spec(old(st)@, *k);
            match r {
                Some(res) => p is Some && matches_step(old(st)@, final(st)@, res, p->0),
                None => p is None && final(st)@ == old(st)@,
            }
        }),
{
    let ch = key_char(k);
    let plain = !k.shift && !k.ctrl;
    let brackets = !last_key_is(st, "[") && !last_key_is(st, "]");
    if ch == Some('g') && plain && !last_key_is(st, "g") {
        set_last_key(st, "g");
        return Some(handled(no_effects()));
    }
    if k.keycode == KEY_BRACKETLEFT && plain && brackets {
        set_last_key(st, "[");
        return Some(handled(no_effects()));
    }
    if k.keycode == KEY_BRACKETRIGHT && plain && brackets {
        set_last_key(st, "]");
        return Some(handled(no_effects()));
    }
    if k.keycode == KEY_Z && k.shift && !k.ctrl && !last_key_is(st, "Z") {
        set_last_key(st, "Z");
        return Some(handled(no_effects()));
    }
    None
}

fn forward(st: &mut InputState, k: &KeyInput) -> (r: Resolution)
    ensures
        matches_step(old(st)@, final(st)@, r, forward_spec(old(st)@, *k)),
{
    if k.keycode == KEY_V && !k.ctrl {
        st.visual_mode_type = if k.shift { 'V' } else { 'v' };
    }
    if !nvim_key_defined_exec(k) {
        return Resolution { effects: no_effects(), outcome: KeyOutcome::Undefined };
    }
    match key_event_to_nvim_string(k) {
        Some(keys) => {
            let kv = chars_of(keys.as_str());
            record_keys(st, &kv);
            Resolution { effects: no_effects(), outcome: KeyOutcome::Forward(kv) }
        },
        None => handled(no_effects()),
    }
}

/// Resolve one key press in normal or visual mode.
///
/// The state is updated as the key demands; the effects are to be run in
/// order, then the outcome acted on.
pub fn process_key_event(st: &mut InputState, k: &KeyInput) -> (r: Resolution)
    ensures
        matches_step(old(st)@, final(st)@, r, process_key_spec(old(st)@, *k)),
{
    if k.command_or_control && k.keycode == KEY_SLASH {
        let fx = effects1(KeyEffect::ToggleComment);
        return Resolution { effects: fx, outcome: KeyOutcome::PassThrough };
    }
    if k.ctrl {
        match ctrl_key(k) {
            Some(key) => {
                return Resolution { effects: no_effects(), outcome: KeyOutcome::Dispatch(key) };
            },
            None => {},
        }
    }
    if mode_is_visual(st) && k.keycode == KEY_O && !k.ctrl && !k.shift {
        let fx = effects2(KeyEffect::SendKeys(chars_of("o")), KeyEffect::RefreshVisualSelection);
        return handled(fx);
    }
    match pending_prefix(st, k) {
        Some(r) => {
            return r;
        },
        None => {},
    }
    match register_ops(st, k) {
        Some(r) => {
            return r;
        },
        None => {},
    }
    let ch = key_char(k);
    if ch.is_some() && is_digit_char(ch.unwrap()) && (ch.unwrap() != '0' || st.count.len() > 0) {
        let c = ch.unwrap();
        st.count.push(c);
        let fx = effects2(KeyEffect::SendKeys(one(c)), KeyEffect::RestartKeyTimer);
        return handled(fx);
    }
    match side_effects(st, k) {
        Some(r) => {
            return r;
        },
        None => {},
    }
    match pending_setup(st, k) {
        Some(r) => {
            return r;
        },
        None => {},
    }
    match operator_keys(st, k) {
        Some(r) => {
            return r;
        },
        None => {},
    }
    match prefix_start(st, k) {
        Some(r) => {
            return r;
        },
        None => {},
    }
    match dispatchable(st, k) {
        Some(key) => {
            return Resolution { effects: no_effects(), outcome: KeyOutcome::Dispatch(key) };
        },
        None => {},
    }
    forward(st, k)
}

// ---------------------------------------------------------------------
// After a forwarded key was sent
// ---------------------------------------------------------------------

/// Editor-side commands completed by the key just sent.
pub enum ScrollCommand {
    /// `zz`
    CenterViewport,
    /// `zt`
    CursorLineTop,
    /// `zb`
    CursorLineBottom,
    /// `gd`: record the jump, then go to the definition.
    GotoDefinition,
    /// `gv`: send `<C-v>`.
    VisualBlock,
    /// `gt`
    NextTab,
    /// `gT`
    PrevTab,
    /// `gf`
    GotoFile,
    /// `ZZ`
    SaveAndClose,
    /// `ZQ`
    CloseDiscard,
}

/// The command that `keys` completes after the prefix `last_key`.
pub open spec fn scroll_command_spec(last_key: Seq<char>, keys: Seq<char>) -> Option<ScrollCommand> {
    if last_key == "z"@ && keys == "z"@ {
        Some(ScrollCommand::CenterViewport)
    } else if last_key == "z"@ && keys == "t"@ {
        Some(ScrollCommand::CursorLineTop)
    } else if last_key == "z"@ && keys == "b"@ {
        Some(ScrollCommand::CursorLineBottom)
    } else if last_key == "g"@ && keys == "d"@ {
        Some(ScrollCommand::GotoDefinition)
    } else if last_key == "g"@ && keys == "v"@ {
        Some(ScrollCommand::VisualBlock)
    } else if last_key == "g"@ && keys == "t"@ {
        Some(ScrollCommand::NextTab)
    } else if last_key == "g"@ && keys == "T"@ {
        Some(ScrollCommand::PrevTab)
    } else if last_key == "g"@ && keys == "f"@ {
        Some(ScrollCommand::GotoFile)
    } else if last_key == "Z"@ && keys == "Z"@ {
        Some(ScrollCommand::SaveAndClose)
    } else if last_key == "Z"@ && keys == "Q"@ {
        Some(ScrollCommand::CloseDiscard)
    } else {
        None
    }
}

/// State after a forwarded key: a completed command clears the prefix;
/// otherwise, outside insert and replace mode, the key becomes the prefix
/// (in visual mode only `i` and `a`, which start text objects).
pub open spec fn after_forward_state(s: StateView, keys: Seq<char>, scroll: bool) -> StateView {
    if scroll {
        cleared_last_key(s)
    } else if s.mode != "i"@ && s.mode != "R"@ {
        if is_visual_mode_spec(s.mode) {
            if keys == "i"@ || keys == "a"@ {
                with_last_key(s, keys)
            } else {
                s
            }
        } else {
            with_last_key(s, keys)
        }
    } else {
        s
    }
}

pub(crate) fn scroll_command(st: &InputState, keys: &Vec<char>) -> (r: Option<ScrollCommand>)
    ensures
        r == scroll_command_spec(st@.last_key, keys@),
{
    if last_key_is(st, "z") {
        if eq_str(keys, "z") {
            return Some(ScrollCommand::CenterViewport);
        } else if eq_str(keys, "t") {
            return Some(ScrollCommand::CursorLineTop);
        } else if eq_str(keys, "b") {
            return Some(ScrollCommand::CursorLineBottom);
        }
    }
    if last_key_is(st, "g") {
        if eq_str(keys, "d") {
            return Some(ScrollCommand::GotoDefinition);
        } else if eq_str(keys, "v") {
            return Some(ScrollCommand::VisualBlock);
        } else if eq_str(keys, "t") {
            return Some(ScrollCommand::NextTab);
        } else if eq_str(keys, "T") {
            return Some(ScrollCommand::PrevTab);
        } else if eq_str(keys, "f") {
            return Some(ScrollCommand::GotoFile);
        }
    }
    if last_key_is(st, "Z") {
        if eq_str(keys, "Z") {
            return Some(ScrollCommand::SaveAndClose);
        } else if eq_str(keys, "Q") {
            return Some(ScrollCommand::CloseDiscard);
        }
    }
    None
}

/// Finish a forwarded key once it was sent. `completed` tells whether
/// Neovim finished the command; the state's mode must already be the one
/// Neovim reported after the send. Returns the editor command to run.
pub fn after_forward(st: &mut InputState, keys: &Vec<char>, completed: bool) -> (r: Option<
    ScrollCommand,
>)
    ensures
        r == (if completed { scroll_command_spec(old(st)@.last_key, keys@) } else { None }),
        final(st)@ == after_forward_state(old(st)@, keys@, r is Some),
{
    let cmd = if completed {
        scroll_command(st, keys)
    } else {
        None
    };
    if cmd.is_some() {
        clear_last_key(st);
    } else if !mode_is(st, "i") && !mode_is(st, "R") {
        if mode_is_visual(st) {
            if eq_str(keys, "i") || eq_str(keys, "a") {
                st.last_key = slice_of(keys, 0, keys.len());
                assert(st@.last_key =~= keys@);
            }
        } else {
            st.last_key = slice_of(keys, 0, keys.len());
            assert(st@.last_key =~= keys@);
        }
    }
    cmd
}

/// After a send whose completion ends the prefix (`R`, or `<C-v>` from
/// visual mode): a completed send clears the prefix.
pub fn finish_prefix_send(st: &mut InputState, completed: bool)
    ensures
        final(st)@ == (if completed { cleared_last_key(old(st)@) } else { old(st)@ }),
{
    if completed {
        clear_last_key(st);
    }
}

// ---------------------------------------------------------------------
// Keys completing a pending operation
// ---------------------------------------------------------------------

/// Result of offering a key to a pending operation.
pub struct PendingStep {
    pub st: StateView,
    pub fx: Seq<EffectView>,
    /// The key was used up; otherwise it goes on to normal handling.
    pub consumed: bool,
}

/// Keys that are only modifiers and never complete a pending operation.
pub open spec fn is_modifier_key(code: u32) -> bool {
    code == crate::keys::KEY_SHIFT || code == crate::keys::KEY_CTRL || code == crate::keys::KEY_ALT
        || code == crate::keys::KEY_META || code == crate::keys::KEY_CAPSLOCK || code
        == crate::keys::KEY_NUMLOCK
}

/// The key cancels a pending operation.
pub open spec fn is_cancel_key(k: KeyInput) -> bool {
    k.keycode == crate::keys::KEY_ESCAPE || k.ctrl || k.alt || k.meta
}

/// The printable character of a key, if any.
pub open spec fn printable(k: KeyInput) -> Option<char> {
    if k.unicode > 0 {
        unicode_char(k)
    } else {
        None
    }
}

pub open spec fn pending_char_spec(s: StateView, k: KeyInput) -> PendingStep {
    match s.pending_char_op {
        None => PendingStep { st: s, fx: Seq::empty(), consumed: false },
        Some(op) => if is_modifier_key(k.keycode) {
            PendingStep { st: s, fx: Seq::empty(), consumed: false }
        } else if is_cancel_key(k) {
            PendingStep { st: KeyState { pending_char_op: None, ..s }, fx: Seq::empty(), consumed: false }
        } else {
            let s1 = KeyState { pending_char_op: None, ..s };
            match printable(k) {
                None => PendingStep { st: s1, fx: Seq::empty(), consumed: false },
                Some(c) => {
                    let find: Seq<EffectView> = if op == 'f' {
                        seq![KeyEffect::FindChar(c, true, false)]
                    } else if op == 'F' {
                        seq![KeyEffect::FindChar(c, false, false)]
                    } else if op == 't' {
                        seq![KeyEffect::FindChar(c, true, true)]
                    } else if op == 'T' {
                        seq![KeyEffect::FindChar(c, false, true)]
                    } else {
                        Seq::empty()
                    };
                    if op == 'f' || op == 'F' || op == 't' || op == 'T' || op == 'r' {
                        PendingStep { st: record(s1, seq![op, c]), fx: find.push(KeyEffect::SendKeys(seq![op, c])), consumed: true }
                    } else {
                        PendingStep { st: s1, fx: find, consumed: true }
                    }
                },
            }
        },
    }
}

pub struct PendingResult {
    pub effects: Vec<Effect>,
    pub consumed: bool,
}

pub open spec fn matches_pending(new_st: StateView, r: PendingResult, step: PendingStep) -> bool {
    &&& new_st == step.st
    &&& effects_of(r.effects) == step.fx
    &&& r.consumed == step.consumed
}

fn is_modifier_key_exec(code: u32) -> (b: bool)
    ensures
        b == is_modifier_key(code),
{
    code == crate::keys::KEY_SHIFT || code == crate::keys::KEY_CTRL || code == crate::keys::KEY_ALT
        || code == crate::keys::KEY_META || code == crate::keys::KEY_CAPSLOCK || code
        == crate::keys::KEY_NUMLOCK
}

fn printable_exec(k: &KeyInput) -> (r: Option<char>)
    ensures
        r == printable(*k),
{
    if k.unicode > 0 {
        key_char(k)
    } else {
        None
    }
}

/// Offer a key to a pending `f`, `F`, `t`, `T` or `r`.
pub fn handle_pending_char_op(st: &mut InputState, k: &KeyInput) -> (r: PendingResult)
    ensures
        matches_pending(final(st)@, r, pending_char_spec(old(st)@, *k)),
{
    let op = match st.pending_char_op {
        None => {
            return PendingResult { effects: no_effects(), consumed: false };
        },
        Some(op) => op,
    };
    if is_modifier_key_exec(k.keycode) {
        return PendingResult { effects: no_effects(), consumed: false };
    }
    if k.keycode == crate::keys::KEY_ESCAPE || k.ctrl || k.alt || k.meta {
        st.pending_char_op = None;
        return PendingResult { effects: no_effects(), consumed: false };
    }
    st.pending_char_op = None;
    match printable_exec(k) {
        None => PendingResult { effects: no_effects(), consumed: false },
        Some(c) => {
            let mut fx = if op == 'f' {
                effects1(KeyEffect::FindChar(c, true, false))
            } else if op == 'F' {
                effects1(KeyEffect::FindChar(c, false, false))
            } else if op == 't' {
                effects1(KeyEffect::FindChar(c, true, true))
            } else if op == 'T' {
                effects1(KeyEffect::FindChar(c, false, true))
            } else {
                no_effects()
            };
            if op == 'f' || op == 'F' || op == 't' || op == 'T' || op == 'r' {
                let keys = two(op, c);
                record_keys(st, &keys);
                push_send(&mut fx, keys);
            }
            PendingResult { effects: fx, consumed: true }
        },
    }
}

pub open spec fn pending_mark_spec(s: StateView, k: KeyInput) -> PendingStep {
    match s.pending_mark_op {
        None => PendingStep { st: s, fx: Seq::empty(), consumed: false },
        Some(op) => if is_modifier_key(k.keycode) {
            PendingStep { st: s, fx: Seq::empty(), consumed: false }
        } else {
            let s1 = KeyState { pending_mark_op: None, ..s };
            if is_cancel_key(k) {
                PendingStep { st: s1, fx: Seq::empty(), consumed: false }
            } else {
                match printable(k) {
                    Some(c) => if 'a' <= c <= 'z' {
                        let fx: Seq<EffectView> = if op == 'm' {
                            seq![KeyEffect::SetMark(c)]
                        } else if op == '\'' {
                            seq![KeyEffect::JumpToMarkLine(c)]
                        } else if op == '`' {
                            seq![KeyEffect::JumpToMarkPosition(c)]
                        } else {
                            Seq::empty()
                        };
                        PendingStep { st: s1, fx, consumed: true }
                    } else {
                        PendingStep { st: s1, fx: Seq::empty(), consumed: false }
                    },
                    None => PendingStep { st: s1, fx: Seq::empty(), consumed: false },
                }
            }
        },
    }
}

/// Offer a key to a pending `m`, `'` or `` ` ``.
pub fn handle_pending_mark_op(st: &mut InputState, k: &KeyInput) -> (r: PendingResult)
    ensures
        matches_pending(final(st)@, r, pending_mark_spec(old(st)@, *k)),
{
    let op = match st.pending_mark_op {
        None => {
            return PendingResult { effects: no_effects(), consumed: false };
        },
        Some(op) => op,
    };
    if is_modifier_key_exec(k.keycode) {
        return PendingResult { effects: no_effects(), consumed: false };
    }
    st.pending_mark_op = None;
    if k.keycode == crate::keys::KEY_ESCAPE || k.ctrl || k.alt || k.meta {
        return PendingResult { effects: no_effects(), consumed: false };
    }
    match printable_exec(k) {
        Some(c) => {
            if 'a' <= c && c <= 'z' {
                let fx = if op == 'm' {
                    effects1(KeyEffect::SetMark(c))
                } else if op == '\'' {
                    effects1(KeyEffect::JumpToMarkLine(c))
                } else if op == '`' {
                    effects1(KeyEffect::JumpToMarkPosition(c))
                } else {
                    no_effects()
                };
                PendingResult { effects: fx, consumed: true }
            } else {
                PendingResult { effects: no_effects(), consumed: false }
            }
        },
        None => PendingResult { effects: no_effects(), consumed: false },
    }
}

/// Start recording into a register.
pub open spec fn start_recording(s: StateView, r: char) -> StateView {
    KeyState { recording_macro: Some(r), macro_buffer: Seq::empty(), ..s }
}

pub open spec fn pending_macro_spec(s: StateView, k: KeyInput) -> PendingStep {
    match s.pending_macro_op {
        None => PendingStep { st: s, fx: Seq::empty(), consumed: false },
        Some(op) => if is_modifier_key(k.keycode) {
            PendingStep { st: s, fx: Seq::empty(), consumed: false }
        } else {
            let s1 = KeyState { pending_macro_op: None, ..s };
            if is_cancel_key(k) {
                PendingStep { st: s1, fx: Seq::empty(), consumed: false }
            } else {
                match printable(k) {
                    None => PendingStep { st: s1, fx: Seq::empty(), consumed: false },
                    Some(c) => if op == 'q' {
                        if 'a' <= c <= 'z' {
                            PendingStep { st: start_recording(s1, c), fx: Seq::empty(), consumed: true }
                        } else {
                            PendingStep { st: s1, fx: Seq::empty(), consumed: true }
                        }
                    } else if op == '@' {
                        let fx: Seq<EffectView> = if c == '@' {
                            seq![KeyEffect::ReplayLastMacro]
                        } else if c == ':' {
                            seq![KeyEffect::RepeatLastExCommand]
                        } else if 'a' <= c <= 'z' {
                            seq![KeyEffect::PlayMacro(c)]
                        } else {
                            Seq::empty()
                        };
                        PendingStep { st: s1, fx, consumed: true }
                    } else {
                        PendingStep { st: s1, fx: Seq::empty(), consumed: true }
                    },
                }
            }
        },
    }
}

/// Offer a key to a pending `q` or `@`.
pub fn handle_pending_macro_op(st: &mut InputState, k: &KeyInput) -> (r: PendingResult)
    ensures
        matches_pending(final(st)@, r, pending_macro_spec(old(st)@, *k)),
{
    let op = match st.pending_macro_op {
        None => {
            return PendingResult { effects: no_effects(), consumed: false };
        },
        Some(op) => op,
    };
    if is_modifier_key_exec(k.keycode) {
        return PendingResult { effects: no_effects(), consumed: false };
    }
    st.pending_macro_op = None;
    if k.keycode == crate::keys::KEY_ESCAPE || k.ctrl || k.alt || k.meta {
        return PendingResult { effects: no_effects(), consumed: false };
    }
    match printable_exec(k) {
        None => PendingResult { effects: no_effects(), consumed: false },
        Some(c) => {
            if op == 'q' {
                if 'a' <= c && c <= 'z' {
                    st.recording_macro = Some(c);
                    st.macro_buffer = Vec::new();
                    assert(texts_view(st.macro_buffer@) =~= Seq::<Seq<char>>::empty());
                }
                PendingResult { effects: no_effects(), consumed: true }
            } else if op == '@' {
                let fx = if c == '@' {
                    effects1(KeyEffect::ReplayLastMacro)
                } else if c == ':' {
                    effects1(KeyEffect::RepeatLastExCommand)
                } else if 'a' <= c && c <= 'z' {
                    effects1(KeyEffect::PlayMacro(c))
                } else {
                    no_effects()
                };
                PendingResult { effects: fx, consumed: true }
            } else {
                PendingResult { effects: no_effects(), consumed: true }
            }
        },
    }
}

/// Register names accepted after `"`.
pub open spec fn is_register_name(c: char) -> bool {
    ('a' <= c <= 'z') || c == '+' || c == '*' || c == '_' || c == '0'
}

pub open spec fn pending_register_spec(s: StateView, k: KeyInput) -> PendingStep {
    if s.selected_register != Some('\0') {
        PendingStep { st: s, fx: Seq::empty(), consumed: false }
    } else if k.keycode == crate::keys::KEY_ESCAPE {
        PendingStep { st: KeyState { selected_register: None, ..s }, fx: Seq::empty(), consumed: true }
    } else {
        match printable(k) {
            Some(c) => if is_register_name(c) {
                PendingStep { st: KeyState { selected_register: Some(c), ..s }, fx: Seq::empty(), consumed: true }
            } else {
                PendingStep { st: s, fx: Seq::empty(), consumed: false }
            },
            None => PendingStep { st: s, fx: Seq::empty(), consumed: false },
        }
    }
}

/// Offer a key to a pending register choice (after `"`).
pub fn handle_pending_register(st: &mut InputState, k: &KeyInput) -> (r: PendingResult)
    ensures
        matches_pending(final(st)@, r, pending_register_spec(old(st)@, *k)),
{
    if st.selected_register != Some('\0') {
        return PendingResult { effects: no_effects(), consumed: false };
    }
    if k.keycode == crate::keys::KEY_ESCAPE {
        st.selected_register = None;
        return PendingResult { effects: no_effects(), consumed: true };
    }
    match printable_exec(k) {
        Some(c) => {
            if ('a' <= c && c <= 'z') || c == '+' || c == '*' || c == '_' || c == '0' {
                st.selected_register = Some(c);
                PendingResult { effects: no_effects(), consumed: true }
            } else {
                PendingResult { effects: no_effects(), consumed: false }
            }
        },
        None => PendingResult { effects: no_effects(), consumed: false },
    }
}

} // verus!
