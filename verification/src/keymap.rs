//! The built-in keymap: which editor action a resolved key runs.
//!
//! Used when no keymap script is installed; keys without a binding are
//! sent to Neovim unchanged.

use crate::chars::{chars_of, eq_str};
use crate::keys::is_visual_mode_spec;
use vstd::prelude::*;

verus! {

/// Editor actions reachable from the keymap.
#[derive(PartialEq, Eq, Structural)]
pub enum KeyAction {
    PageUp,
    PageDown,
    HalfPageDown,
    HalfPageUp,
    ScrollViewportUp,
    ScrollViewportDown,
    Increment,
    Decrement,
    JumpBack,
    JumpForward,
    ShowFileInfo,
    OpenSearchForward,
    OpenSearchBackward,
    SearchNext,
    SearchPrev,
    SearchWordForward,
    SearchWordBackward,
    OpenCommandLine,
    Undo,
    Redo,
    OpenDocumentation,
    GotoDefinition,
    GotoFile,
    OpenUrl,
    NextTab,
    PrevTab,
    VisualBlockToggle,
    DisplayLineDown,
    DisplayLineUp,
    InsertAtColumnZero,
    InsertAtLastPosition,
    ShowCharInfo,
    RepeatSubstitution,
    JoinNoSpace,
    PasteMoveCursor,
    PasteBeforeMoveCursor,
    WordEndBackward,
    DisplayLineStart,
    DisplayLineEnd,
    DisplayLineFirstNonBlank,
    SaveAndClose,
    CloseDiscard,
}

/// What a dispatched key does.
pub enum BuiltinDispatch<T> {
    /// Run an editor action.
    Action(KeyAction),
    /// Send the key to Neovim.
    SendKeys(T),
}

pub open spec fn normal_binding(key: Seq<char>) -> Option<KeyAction> {
    if key == "<C-b>"@ {
        Some(KeyAction::PageUp)
    }     else if key == "<C-f>"@ {
        Some(KeyAction::PageDown)
    }     else if key == "<C-d>"@ {
        Some(KeyAction::HalfPageDown)
    }     else if key == "<C-u>"@ {
        Some(KeyAction::HalfPageUp)
    }     else if key == "<C-y>"@ {
        Some(KeyAction::ScrollViewportUp)
    }     else if key == "<C-e>"@ {
        Some(KeyAction::ScrollViewportDown)
    }     else if key == "<C-a>"@ {
        Some(KeyAction::Increment)
    }     else if key == "<C-x>"@ {
        Some(KeyAction::Decrement)
    }     else if key == "<C-o>"@ {
        Some(KeyAction::JumpBack)
    }     else if key == "<C-i>"@ {
        Some(KeyAction::JumpForward)
    }     else if key == "<C-g>"@ {
        Some(KeyAction::ShowFileInfo)
    }     else if key == "/"@ {
        Some(KeyAction::OpenSearchForward)
    }     else if key == "?"@ {
        Some(KeyAction::OpenSearchBackward)
    }     else if key == "n"@ {
        Some(KeyAction::SearchNext)
    }     else if key == "N"@ {
        Some(KeyAction::SearchPrev)
    }     else if key == "*"@ {
        Some(KeyAction::SearchWordForward)
    }     else if key == "#"@ {
        Some(KeyAction::SearchWordBackward)
    }     else if key == ":"@ {
        Some(KeyAction::OpenCommandLine)
    }     else if key == "u"@ {
        Some(KeyAction::Undo)
    }     else if key == "<C-r>"@ {
        Some(KeyAction::Redo)
    }     else if key == "K"@ {
        Some(KeyAction::OpenDocumentation)
    }     else if key == "gd"@ {
        Some(KeyAction::GotoDefinition)
    }     else if key == "gf"@ {
        Some(KeyAction::GotoFile)
    }     else if key == "gx"@ {
        Some(KeyAction::OpenUrl)
    }     else if key == "gt"@ {
        Some(KeyAction::NextTab)
    }     else if key == "gT"@ {
        Some(KeyAction::PrevTab)
    }     else if key == "gv"@ {
        Some(KeyAction::VisualBlockToggle)
    }     else if key == "gj"@ {
        Some(KeyAction::DisplayLineDown)
    }     else if key == "gk"@ {
        Some(KeyAction::DisplayLineUp)
    }     else if key == "gI"@ {
        Some(KeyAction::InsertAtColumnZero)
    }     else if key == "gi"@ {
        Some(KeyAction::InsertAtLastPosition)
    }     else if key == "ga"@ {
        Some(KeyAction::ShowCharInfo)
    }     else if key == "g&"@ {
        Some(KeyAction::RepeatSubstitution)
    }     else if key == "gJ"@ {
        Some(KeyAction::JoinNoSpace)
    }     else if key == "gp"@ {
        Some(KeyAction::PasteMoveCursor)
    }     else if key == "gP"@ {
        Some(KeyAction::PasteBeforeMoveCursor)
    }     else if key == "ge"@ {
        Some(KeyAction::WordEndBackward)
    }     else if key == "g0"@ {
        Some(KeyAction::DisplayLineStart)
    }     else if key == "g$"@ {
        Some(KeyAction::DisplayLineEnd)
    }     else if key == "g^"@ {
        Some(KeyAction::DisplayLineFirstNonBlank)
    }     else if key == "ZZ"@ {
        Some(KeyAction::SaveAndClose)
    }     else if key == "ZQ"@ {
        Some(KeyAction::CloseDiscard)
    } else {
        None
    }
}

pub open spec fn visual_binding(key: Seq<char>) -> Option<KeyAction> {
    if key == "<C-b>"@ {
        Some(KeyAction::VisualBlockToggle)
    }     else if key == "gv"@ {
        Some(KeyAction::VisualBlockToggle)
    }     else if key == "<C-f>"@ {
        Some(KeyAction::PageDown)
    }     else if key == "<C-d>"@ {
        Some(KeyAction::HalfPageDown)
    }     else if key == "<C-u>"@ {
        Some(KeyAction::HalfPageUp)
    }     else if key == "<C-y>"@ {
        Some(KeyAction::ScrollViewportUp)
    }     else if key == "<C-e>"@ {
        Some(KeyAction::ScrollViewportDown)
    }     else if key == "/"@ {
        Some(KeyAction::OpenSearchForward)
    }     else if key == "?"@ {
        Some(KeyAction::OpenSearchBackward)
    }     else if key == "n"@ {
        Some(KeyAction::SearchNext)
    }     else if key == "N"@ {
        Some(KeyAction::SearchPrev)
    }     else if key == "*"@ {
        Some(KeyAction::SearchWordForward)
    }     else if key == "#"@ {
        Some(KeyAction::SearchWordBackward)
    }     else if key == ":"@ {
        Some(KeyAction::OpenCommandLine)
    }     else if key == "gj"@ {
        Some(KeyAction::DisplayLineDown)
    }     else if key == "gk"@ {
        Some(KeyAction::DisplayLineUp)
    } else {
        None
    }
}

/// The action bound to a resolved key in a mode. Insert and replace mode
/// send every key to Neovim; visual modes use the visual table; every
/// other mode uses the normal table.
pub open spec fn builtin_dispatch_spec(mode: Seq<char>, key: Seq<char>) -> BuiltinDispatch<Seq<char>> {
    if mode == "i"@ || mode == "insert"@ || mode == "R"@ || mode == "replace"@ {
        BuiltinDispatch::SendKeys(key)
    } else if is_visual_mode_spec(mode) {
        match visual_binding(key) {
            Some(a) => BuiltinDispatch::Action(a),
            None => BuiltinDispatch::SendKeys(key),
        }
    } else {
        match normal_binding(key) {
            Some(a) => BuiltinDispatch::Action(a),
            None => BuiltinDispatch::SendKeys(key),
        }
    }
}

fn normal_binding_exec(key: &Vec<char>) -> (r: Option<KeyAction>)
    ensures
        r == normal_binding(key@),
{
    if eq_str(key, "<C-b>") {
        Some(KeyAction::PageUp)
    }     else if eq_str(key, "<C-f>") {
        Some(KeyAction::PageDown)
    }     else if eq_str(key, "<C-d>") {
        Some(KeyAction::HalfPageDown)
    }     else if eq_str(key, "<C-u>") {
        Some(KeyAction::HalfPageUp)
    }     else if eq_str(key, "<C-y>") {
        Some(KeyAction::ScrollViewportUp)
    }     else if eq_str(key, "<C-e>") {
        Some(KeyAction::ScrollViewportDown)
    }     else if eq_str(key, "<C-a>") {
        Some(KeyAction::Increment)
    }     else if eq_str(key, "<C-x>") {
        Some(KeyAction::Decrement)
    }     else if eq_str(key, "<C-o>") {
        Some(KeyAction::JumpBack)
    }     else if eq_str(key, "<C-i>") {
        Some(KeyAction::JumpForward)
    }     else if eq_str(key, "<C-g>") {
        Some(KeyAction::ShowFileInfo)
    }     else if eq_str(key, "/") {
        Some(KeyAction::OpenSearchForward)
    }     else if eq_str(key, "?") {
        Some(KeyAction::OpenSearchBackward)
    }     else if eq_str(key, "n") {
        Some(KeyAction::SearchNext)
    }     else if eq_str(key, "N") {
        Some(KeyAction::SearchPrev)
    }     else if eq_str(key, "*") {
        Some(KeyAction::SearchWordForward)
    }     else if eq_str(key, "#") {
        Some(KeyAction::SearchWordBackward)
    }     else if eq_str(key, ":") {
        Some(KeyAction::OpenCommandLine)
    }     else if eq_str(key, "u") {
        Some(KeyAction::Undo)
    }     else if eq_str(key, "<C-r>") {
        Some(KeyAction::Redo)
    }     else if eq_str(key, "K") {
        Some(KeyAction::OpenDocumentation)
    }     else if eq_str(key, "gd") {
        Some(KeyAction::GotoDefinition)
    }     else if eq_str(key, "gf") {
        Some(KeyAction::GotoFile)
    }     else if eq_str(key, "gx") {
        Some(KeyAction::OpenUrl)
    }     else if eq_str(key, "gt") {
        Some(KeyAction::NextTab)
    }     else if eq_str(key, "gT") {
        Some(KeyAction::PrevTab)
    }     else if eq_str(key, "gv") {
        Some(KeyAction::VisualBlockToggle)
    }     else if eq_str(key, "gj") {
        Some(KeyAction::DisplayLineDown)
    }     else if eq_str(key, "gk") {
        Some(KeyAction::DisplayLineUp)
    }     else if eq_str(key, "gI") {
        Some(KeyAction::InsertAtColumnZero)
    }     else if eq_str(key, "gi") {
        Some(KeyAction::InsertAtLastPosition)
    }     else if eq_str(key, "ga") {
        Some(KeyAction::ShowCharInfo)
    }     else if eq_str(key, "g&") {
        Some(KeyAction::RepeatSubstitution)
    }     else if eq_str(key, "gJ") {
        Some(KeyAction::JoinNoSpace)
    }     else if eq_str(key, "gp") {
        Some(KeyAction::PasteMoveCursor)
    }     else if eq_str(key, "gP") {
        Some(KeyAction::PasteBeforeMoveCursor)
    }     else if eq_str(key, "ge") {
        Some(KeyAction::WordEndBackward)
    }     else if eq_str(key, "g0") {
        Some(KeyAction::DisplayLineStart)
    }     else if eq_str(key, "g$") {
        Some(KeyAction::DisplayLineEnd)
    }     else if eq_str(key, "g^") {
        Some(KeyAction::DisplayLineFirstNonBlank)
    }     else if eq_str(key, "ZZ") {
        Some(KeyAction::SaveAndClose)
    }     else if eq_str(key, "ZQ") {
        Some(KeyAction::CloseDiscard)
    } else {
        None
    }
}

fn visual_binding_exec(key: &Vec<char>) -> (r: Option<KeyAction>)
    ensures
        r == visual_binding(key@),
{
    if eq_str(key, "<C-b>") {
        Some(KeyAction::VisualBlockToggle)
    }     else if eq_str(key, "gv") {
        Some(KeyAction::VisualBlockToggle)
    }     else if eq_str(key, "<C-f>") {
        Some(KeyAction::PageDown)
    }     else if eq_str(key, "<C-d>") {
        Some(KeyAction::HalfPageDown)
    }     else if eq_str(key, "<C-u>") {
        Some(KeyAction::HalfPageUp)
    }     else if eq_str(key, "<C-y>") {
        Some(KeyAction::ScrollViewportUp)
    }     else if eq_str(key, "<C-e>") {
        Some(KeyAction::ScrollViewportDown)
    }     else if eq_str(key, "/") {
        Some(KeyAction::OpenSearchForward)
    }     else if eq_str(key, "?") {
        Some(KeyAction::OpenSearchBackward)
    }     else if eq_str(key, "n") {
        Some(KeyAction::SearchNext)
    }     else if eq_str(key, "N") {
        Some(KeyAction::SearchPrev)
    }     else if eq_str(key, "*") {
        Some(KeyAction::SearchWordForward)
    }     else if eq_str(key, "#") {
        Some(KeyAction::SearchWordBackward)
    }     else if eq_str(key, ":") {
        Some(KeyAction::OpenCommandLine)
    }     else if eq_str(key, "gj") {
        Some(KeyAction::DisplayLineDown)
    }     else if eq_str(key, "gk") {
        Some(KeyAction::DisplayLineUp)
    } else {
        None
    }
}

/// Resolve a dispatched key against the built-in keymap.
pub fn dispatch_key_builtin(mode: &str, resolved_key: &str) -> (r: BuiltinDispatch<String>)
    ensures
        match r {
            BuiltinDispatch::Action(a) => builtin_dispatch_spec(mode@, resolved_key@) == BuiltinDispatch::<Seq<char>>::Action(a),
            BuiltinDispatch::SendKeys(s) => builtin_dispatch_spec(mode@, resolved_key@) == BuiltinDispatch::<Seq<char>>::SendKeys(s@),
        },
{
    let m = chars_of(mode);
    let key = chars_of(resolved_key);
    if eq_str(&m, "i") || eq_str(&m, "insert") || eq_str(&m, "R") || eq_str(&m, "replace") {
        return BuiltinDispatch::SendKeys(String::from_str(resolved_key));
    }
    let visual = eq_str(&m, "v") || eq_str(&m, "V") || eq_str(&m, "\x16") || eq_str(&m, "^V")
        || eq_str(&m, "CTRL-V");
    let found = if visual {
        visual_binding_exec(&key)
    } else {
        normal_binding_exec(&key)
    };
    match found {
        Some(a) => BuiltinDispatch::Action(a),
        None => BuiltinDispatch::SendKeys(String::from_str(resolved_key)),
    }
}

} // verus!
