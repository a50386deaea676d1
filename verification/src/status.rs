//! What the editor shows about Neovim's state: the mode label, the caret
//! shape, the selection that mirrors Visual mode, the `ga` and `Ctrl+G`
//! messages, and the decisions taken after keys were sent.

use crate::chars::{chars_of, concat, eq_str, string_of};
use crate::help::{after_last, after_last_exec};
use crate::keys::{is_visual_mode, is_visual_mode_spec};
use crate::motions::{first_non_blank, first_non_blank_spec, lines_view};
use crate::numbers::{decimal, i64_decimal, signed_decimal, u64_decimal};
use crate::text::{joined, join_lines_exec, strings_view};
use crate::exops::{replace_spec, replace_all};
use crate::uri::{forward_slashes, to_forward_slashes};
use crate::unicode::{is_control, is_control_exec};
use vstd::prelude::*;

verus! {

// ---------------------------------------------------------------------
// Mode label
// ---------------------------------------------------------------------

/// The label shown for a Neovim mode; an unknown mode is shown as it is.
pub open spec fn mode_name(mode: Seq<char>) -> Seq<char> {
    if mode == "n"@ || mode == "normal"@ {
        "NORMAL"@
    } else if mode == "i"@ || mode == "insert"@ {
        "INSERT"@
    } else if mode == "v"@ || mode == "visual"@ {
        "VISUAL"@
    } else if mode == "V"@ || mode == "visual_line"@ {
        "V-LINE"@
    } else if mode == "\x16"@ || mode == "visual_block"@ {
        "V-BLOCK"@
    } else if mode == "c"@ || mode == "command"@ {
        "COMMAND"@
    } else if mode == "R"@ || mode == "replace"@ {
        "REPLACE"@
    } else if mode == "t"@ || mode == "terminal"@ {
        "TERMINAL"@
    } else {
        mode
    }
}

/// The colour of the mode label.
#[derive(Clone, Copy, Debug, PartialEq, Eq, Structural)]
pub enum ModeColor {
    Green,
    Blue,
    Orange,
    Yellow,
    Red,
    Gray,
}

pub open spec fn mode_color_spec(mode: Seq<char>) -> ModeColor {
    if mode == "n"@ || mode == "normal"@ {
        ModeColor::Green
    } else if mode == "i"@ || mode == "insert"@ {
        ModeColor::Blue
    } else if mode == "v"@ || mode == "visual"@ || mode == "V"@ || mode == "\x16"@ {
        ModeColor::Orange
    } else if mode == "c"@ || mode == "command"@ {
        ModeColor::Yellow
    } else if mode == "R"@ || mode == "replace"@ {
        ModeColor::Red
    } else {
        ModeColor::Gray
    }
}

/// The shape of the caret: a bar while typing text, a block otherwise.
#[derive(Clone, Copy, Debug, PartialEq, Eq, Structural)]
pub enum CaretShape {
    Line,
    Block,
}

pub open spec fn caret_shape_spec(mode: Seq<char>) -> CaretShape {
    if mode == "i"@ || mode == "insert"@ || mode == "R"@ || mode == "replace"@ {
        CaretShape::Line
    } else {
        CaretShape::Block
    }
}

/// The label's text: the mode's name, then `line:col` when the cursor is
/// given.
pub open spec fn mode_text(mode: Seq<char>, cursor: Option<(i64, i64)>) -> Seq<char> {
    match cursor {
        Some((l, c)) => mode_name(mode) + " "@ + signed_decimal(l as int) + ":"@ + signed_decimal(c as int),
        None => mode_name(mode),
    }
}

/// What the editor shows for a mode.
pub struct ModeDisplay {
    pub text: String,
    pub color: ModeColor,
    pub caret: CaretShape,
}

fn mode_name_exec(mode: &Vec<char>) -> (r: Vec<char>)
    ensures
        r@ == mode_name(mode@),
{
    if eq_str(mode, "n") || eq_str(mode, "normal") {
        chars_of("NORMAL")
    } else if eq_str(mode, "i") || eq_str(mode, "insert") {
        chars_of("INSERT")
    } else if eq_str(mode, "v") || eq_str(mode, "visual") {
        chars_of("VISUAL")
    } else if eq_str(mode, "V") || eq_str(mode, "visual_line") {
        chars_of("V-LINE")
    } else if eq_str(mode, "\x16") || eq_str(mode, "visual_block") {
        chars_of("V-BLOCK")
    } else if eq_str(mode, "c") || eq_str(mode, "command") {
        chars_of("COMMAND")
    } else if eq_str(mode, "R") || eq_str(mode, "replace") {
        chars_of("REPLACE")
    } else if eq_str(mode, "t") || eq_str(mode, "terminal") {
        chars_of("TERMINAL")
    } else {
        mode.clone()
    }
}

/// What to show for `mode` (and the cursor, 1-indexed line): nothing
/// while the command line is open, else the label's text and colour and
/// the caret's shape.
pub fn mode_display(command_mode: bool, mode: &str, cursor: Option<(i64, i64)>) -> (r: Option<ModeDisplay>)
    ensures
        command_mode ==> r is None,
        !command_mode ==> (r matches Some(d) && d.text@ == mode_text(mode@, cursor) && d.color
            == mode_color_spec(mode@) && d.caret == caret_shape_spec(mode@)),
{
    if command_mode {
        return None;
    }
    let m = chars_of(mode);
    let name = mode_name_exec(&m);
    let text = match cursor {
        Some((l, c)) => {
            let t = concat(&name, &chars_of(" "));
            let t = concat(&t, &i64_decimal(l));
            let t = concat(&t, &chars_of(":"));
            concat(&t, &i64_decimal(c))
        },
        None => name,
    };
    let color = if eq_str(&m, "n") || eq_str(&m, "normal") {
        ModeColor::Green
    } else if eq_str(&m, "i") || eq_str(&m, "insert") {
        ModeColor::Blue
    } else if eq_str(&m, "v") || eq_str(&m, "visual") || eq_str(&m, "V") || eq_str(&m, "\x16") {
        ModeColor::Orange
    } else if eq_str(&m, "c") || eq_str(&m, "command") {
        ModeColor::Yellow
    } else if eq_str(&m, "R") || eq_str(&m, "replace") {
        ModeColor::Red
    } else {
        ModeColor::Gray
    };
    let caret = if eq_str(&m, "i") || eq_str(&m, "insert") || eq_str(&m, "R") || eq_str(&m, "replace") {
        CaretShape::Line
    } else {
        CaretShape::Block
    };
    Some(ModeDisplay { text: string_of(&text), color, caret })
}

// ---------------------------------------------------------------------
// Selection
// ---------------------------------------------------------------------

/// The editor selection for a characterwise Visual selection between
/// `start` and `end` (line, column): from the earlier position to just
/// after the later one.
pub open spec fn char_selection(start: (i64, i64), end: (i64, i64)) -> (int, int, int, int) {
    if start.0 < end.0 || (start.0 == end.0 && start.1 <= end.1) {
        (start.0 as int, start.1 as int, end.0 as int, end.1 + 1)
    } else {
        (end.0 as int, end.1 as int, start.0 as int, start.1 + 1)
    }
}

/// The selection for `v` mode (see `char_selection`).
pub fn visual_selection(start: (i64, i64), end: (i64, i64)) -> (r: (i64, i64, i64, i64))
    requires
        start.1 < i64::MAX,
        end.1 < i64::MAX,
    ensures
        (r.0 as int, r.1 as int, r.2 as int, r.3 as int) == char_selection(start, end),
{
    if start.0 < end.0 || (start.0 == end.0 && start.1 <= end.1) {
        (start.0, start.1, end.0, end.1 + 1)
    } else {
        (end.0, end.1, start.0, start.1 + 1)
    }
}

/// The selection does not depend on which end is the cursor.
pub proof fn law_selection_symmetric(a: (i64, i64), b: (i64, i64))
    ensures
        char_selection(a, b) == char_selection(b, a),
{
}

/// The selection starts no later than it ends, and takes in both ends.
pub proof fn law_selection_ordered(a: (i64, i64), b: (i64, i64))
    ensures
        ({
            let s = char_selection(a, b);
            &&& s.0 < s.2 || (s.0 == s.2 && s.1 < s.3)
            &&& (s.0, s.1) == (a.0 as int, a.1 as int) || (s.0, s.1) == (b.0 as int, b.1 as int)
            &&& (s.2, s.3 - 1) == (a.0 as int, a.1 as int) || (s.2, s.3 - 1) == (b.0 as int, b.1 as int)
        }),
{
}

/// The selection for `V` mode: whole lines from the earlier line to the
/// later one, up to the end of the later line (no characters when that
/// line is not in the text).
pub open spec fn line_selection(start_line: i64, end_line: i64, lines: Seq<Seq<char>>) -> (int, int, int, int) {
    let from = if start_line <= end_line {
        start_line
    } else {
        end_line
    };
    let to = if start_line <= end_line {
        end_line
    } else {
        start_line
    };
    (from as int, 0, to as int, if 0 <= to < lines.len() {
        lines[to as int].len() as int
    } else {
        0
    })
}

pub fn visual_line_selection(start_line: i64, end_line: i64, lines: &Vec<Vec<char>>) -> (r: (i64, i64, i64, usize))
    ensures
        (r.0 as int, r.1 as int, r.2 as int, r.3 as int) == line_selection(start_line, end_line, lines_view(lines@)),
{
    let (from, to) = if start_line <= end_line {
        (start_line, end_line)
    } else {
        (end_line, start_line)
    };
    let len = if 0 <= to && (to as u64) < (lines.len() as u64) {
        lines[to as usize].len()
    } else {
        0
    };
    (from, 0, to, len)
}

// ---------------------------------------------------------------------
// ga
// ---------------------------------------------------------------------

/// The digit for `d` in bases up to 16 (lower-case letters).
pub open spec fn base_digit(d: nat) -> char {
    if d < 10 {
        ((d + 48) as u8) as char
    } else {
        ((d + 87) as u8) as char
    }
}

/// `n` written in base `b`, without leading zeros.
pub open spec fn in_base(n: nat, b: nat) -> Seq<char>
    decreases n,
{
    if b < 2 || n < b {
        seq![base_digit(n)]
    } else {
        proof {
            assert(n / b < n) by (nonlinear_arith)
                requires
                    b >= 2,
                    n >= b,
            ;
        }
        in_base(n / b, b).push(base_digit(n % b))
    }
}

/// `s` filled with zeros on the left to `width` characters.
pub open spec fn zero_pad(s: Seq<char>, width: nat) -> Seq<char> {
    if s.len() >= width {
        s
    } else {
        Seq::new((width - s.len()) as nat, |i: int| '0') + s
    }
}

fn in_base_exec(n: u32, b: u32) -> (r: Vec<char>)
    requires
        2 <= b <= 16,
    ensures
        r@ == in_base(n as nat, b as nat),
    decreases n,
{
    let d = n % b;
    assert(n < b ==> d == n) by (nonlinear_arith)
        requires
            d == n % b,
            b >= 2,
    ;
    let digit: char = if d < 10 {
        ((d + 48) as u8) as char
    } else {
        ((d + 87) as u8) as char
    };
    if n < b {
        let mut r: Vec<char> = Vec::new();
        r.push(digit);
        assert(r@ =~= seq![base_digit(n as nat)]);
        r
    } else {
        assert(n / b < n) by (nonlinear_arith)
            requires
                b >= 2,
                n >= b,
        ;
        let mut r = in_base_exec(n / b, b);
        r.push(digit);
        r
    }
}

fn zero_pad_exec(v: &Vec<char>, width: usize) -> (r: Vec<char>)
    ensures
        r@ == zero_pad(v@, width as nat),
{
    if v.len() >= width {
        return v.clone();
    }
    let mut r: Vec<char> = Vec::new();
    let mut i: usize = 0;
    while i < width - v.len()
        invariant
            v.len() < width,
            i <= width - v.len(),
            r@ == Seq::new(i as nat, |j: int| '0'),
        decreases width - v.len() - i,
    {
        r.push('0');
        i = i + 1;
        assert(r@ =~= Seq::new(i as nat, |j: int| '0'));
    }
    concat(&r, v)
}

/// How `ga` names a character: control characters and the space by a
/// word, any other by itself.
pub open spec fn char_label(c: char) -> Seq<char> {
    if is_control(c) || c == ' ' {
        if c == ' ' {
            "Space"@
        } else if c == '\t' {
            "Tab"@
        } else if c == '\n' {
            "NL"@
        } else if c == '\r' {
            "CR"@
        } else {
            "Ctrl"@
        }
    } else {
        seq![c]
    }
}

/// What `ga` shows for column `col` of a line: `NUL` past its end, else
/// the character's name and its code in decimal, in hexadecimal (two
/// digits at least) and in octal (three digits at least).
pub open spec fn char_info(line: Seq<char>, col: int) -> Seq<char> {
    if col < 0 || col >= line.len() {
        "NUL"@
    } else {
        let c = line[col];
        let code = c as u32 as nat;
        "<"@ + char_label(c) + "> "@ + decimal(code) + ", Hex "@ + zero_pad(in_base(code, 16), 2) + ", Oct "@
            + zero_pad(in_base(code, 8), 3)
    }
}

/// The `ga` message for the character at `col` of `line`.
pub fn char_info_message(line: &Vec<char>, col: usize) -> (s: String)
    ensures
        s@ == char_info(line@, col as int),
{
    if col >= line.len() {
        return String::from_str("NUL");
    }
    let c = line[col];
    let code: u32 = c as u32;
    let label = if is_control_exec(c) || c == ' ' {
        if c == ' ' {
            chars_of("Space")
        } else if c == '\t' {
            chars_of("Tab")
        } else if c == '\n' {
            chars_of("NL")
        } else if c == '\r' {
            chars_of("CR")
        } else {
            chars_of("Ctrl")
        }
    } else {
        let mut v: Vec<char> = Vec::new();
        v.push(c);
        assert(v@ =~= seq![c]);
        v
    };
    let m = concat(&chars_of("<"), &label);
    let m = concat(&m, &chars_of("> "));
    let m = concat(&m, &u64_decimal(code as u64));
    let m = concat(&m, &chars_of(", Hex "));
    let m = concat(&m, &zero_pad_exec(&in_base_exec(code, 16), 2));
    let m = concat(&m, &chars_of(", Oct "));
    let m = concat(&m, &zero_pad_exec(&in_base_exec(code, 8), 3));
    string_of(&m)
}

// ---------------------------------------------------------------------
// Ctrl+G
// ---------------------------------------------------------------------

/// Where the script shown in the editor is known from.
pub enum ScriptFile<S> {
    /// No script editor was found.
    NoEditor,
    /// The script editor shows no script.
    NoScript,
    /// The path of the script shown (empty for a new one).
    Path(S),
}

/// The name `Ctrl+G` gives the file.
pub open spec fn file_label(f: ScriptFile<Seq<char>>) -> Seq<char> {
    match f {
        ScriptFile::NoEditor => "[Unknown]"@,
        ScriptFile::NoScript => "[No Script]"@,
        ScriptFile::Path(p) => if p.len() == 0 {
            "[New File]"@
        } else {
            after_last(p, '/')
        },
    }
}

pub open spec fn script_file_view(f: ScriptFile<String>) -> ScriptFile<Seq<char>> {
    match f {
        ScriptFile::NoEditor => ScriptFile::NoEditor,
        ScriptFile::NoScript => ScriptFile::NoScript,
        ScriptFile::Path(p) => ScriptFile::Path(p@),
    }
}

/// The `Ctrl+G` message: with no editor, `No file`; else the file's name,
/// the caret's line (from 1), the number of lines and how far through the
/// file the caret is, in whole percent.
pub open spec fn file_info(editor: Option<(i32, i32)>, file: ScriptFile<Seq<char>>) -> Seq<char> {
    match editor {
        None => "No file"@,
        Some((caret_line, line_count)) => {
            let current = caret_line + 1;
            let percent = if line_count > 0 {
                (current * 100) / (line_count as int)
            } else {
                0
            };
            "\""@ + file_label(file) + "\" line "@ + signed_decimal(current) + " of "@ + signed_decimal(
                line_count as int,
            ) + " --"@ + signed_decimal(percent) + "%--"@
        },
    }
}

/// The `Ctrl+G` message for the caret line and line count of the editor,
/// when there is one.
pub fn file_info_message(editor: Option<(i32, i32)>, file: &ScriptFile<String>) -> (s: String)
    requires
        editor matches Some((l, _)) ==> 0 <= l && (l + 1) * 100 <= i32::MAX,
    ensures
        s@ == file_info(editor, script_file_view(*file)),
{
    let (caret_line, line_count) = match editor {
        None => {
            return String::from_str("No file");
        },
        Some(e) => e,
    };
    let current: i64 = caret_line as i64 + 1;
    let percent: i64 = if line_count > 0 {
        (current * 100) / (line_count as i64)
    } else {
        0
    };
    let name = match file {
        ScriptFile::NoEditor => chars_of("[Unknown]"),
        ScriptFile::NoScript => chars_of("[No Script]"),
        ScriptFile::Path(p) => if p.as_str().unicode_len() == 0 {
            chars_of("[New File]")
        } else {
            after_last_exec(&chars_of(p.as_str()), '/')
        },
    };
    let m = concat(&chars_of("\""), &name);
    let m = concat(&m, &chars_of("\" line "));
    let m = concat(&m, &i64_decimal(current));
    let m = concat(&m, &chars_of(" of "));
    let m = concat(&m, &i64_decimal(line_count as i64));
    let m = concat(&m, &chars_of(" --"));
    let m = concat(&m, &i64_decimal(percent));
    let m = concat(&m, &chars_of("%--"));
    string_of(&m)
}

// ---------------------------------------------------------------------
// After keys were sent
// ---------------------------------------------------------------------

/// How the editor's selection follows the mode.
#[derive(Clone, Copy, Debug, PartialEq, Eq, Structural)]
pub enum SelectionUpdate {
    /// Show Neovim's characterwise selection.
    Chars,
    /// Show Neovim's linewise selection.
    Lines,
    /// Visual mode was left: remove the selection.
    Clear,
    /// Nothing to change.
    Keep,
}

/// What follows once keys were sent and Neovim told its mode.
#[derive(Clone, Copy, Debug, PartialEq, Eq, Structural)]
pub enum SendOutcome {
    /// Insert mode was entered: show the mode; the command completed.
    InsertEntered,
    /// Neovim waits for more keys (an operator): nothing is synced.
    Pending,
    /// Sync cursor and text from Neovim, show the mode with the cursor,
    /// then update the selection; the command completed.
    Synced(SelectionUpdate),
}

/// How the selection follows a change from `old_mode` to `mode`: Visual
/// modes show Neovim's selection (linewise for `V`), leaving them removes
/// it.
pub open spec fn selection_update(old_mode: Seq<char>, mode: Seq<char>) -> SelectionUpdate {
    if is_visual_mode_spec(mode) {
        if mode == "V"@ {
            SelectionUpdate::Lines
        } else {
            SelectionUpdate::Chars
        }
    } else if is_visual_mode_spec(old_mode) {
        SelectionUpdate::Clear
    } else {
        SelectionUpdate::Keep
    }
}

fn selection_update_exec(old_mode: &str, mode: &str) -> (r: SelectionUpdate)
    ensures
        r == selection_update(old_mode@, mode@),
{
    if is_visual_mode(mode) {
        if eq_str(&chars_of(mode), "V") {
            SelectionUpdate::Lines
        } else {
            SelectionUpdate::Chars
        }
    } else if is_visual_mode(old_mode) {
        SelectionUpdate::Clear
    } else {
        SelectionUpdate::Keep
    }
}

pub open spec fn send_outcome(old_mode: Seq<char>, mode: Seq<char>, blocking: bool) -> SendOutcome {
    if blocking {
        if mode == "i"@ {
            SendOutcome::InsertEntered
        } else {
            SendOutcome::Pending
        }
    } else {
        SendOutcome::Synced(selection_update(old_mode, mode))
    }
}

/// Decides what to do after sending keys, from the mode before the send
/// and the mode and blocking flag Neovim reported after it.
pub fn after_send(old_mode: &str, mode: &str, blocking: bool) -> (r: SendOutcome)
    ensures
        r == send_outcome(old_mode@, mode@, blocking),
{
    if blocking {
        if eq_str(&chars_of(mode), "i") {
            SendOutcome::InsertEntered
        } else {
            SendOutcome::Pending
        }
    } else {
        SendOutcome::Synced(selection_update_exec(old_mode, mode))
    }
}

/// What follows a change of mode that Neovim announced.
#[derive(Clone, Copy, Debug, PartialEq, Eq, Structural)]
pub struct StateUpdate {
    /// Insert mode was left: the editor's text goes to Neovim.
    pub push_text: bool,
    pub selection: SelectionUpdate,
}

pub open spec fn state_update(old_mode: Seq<char>, mode: Seq<char>) -> StateUpdate {
    StateUpdate {
        push_text: old_mode == "i"@ && mode != "i"@,
        selection: selection_update(old_mode, mode),
    }
}

/// Decides what follows when Neovim's mode changed from `old_mode` to
/// `mode` (see `state_update`).
pub fn after_state_change(old_mode: &str, mode: &str) -> (r: StateUpdate)
    ensures
        r == state_update(old_mode@, mode@),
{
    let push_text = eq_str(&chars_of(old_mode), "i") && !eq_str(&chars_of(mode), "i");
    StateUpdate { push_text, selection: selection_update_exec(old_mode, mode) }
}

// ---------------------------------------------------------------------
// Buffer sync
// ---------------------------------------------------------------------

/// `s` without the line feeds at its end.
pub open spec fn trim_line_feeds(s: Seq<char>) -> Seq<char>
    decreases s.len(),
{
    if s.len() > 0 && s.last() == '\n' {
        trim_line_feeds(s.drop_last())
    } else {
        s
    }
}

/// Whether Neovim's lines differ from the editor's text: both are
/// compared with line feeds for line ends and without final line feeds.
pub open spec fn text_differs(lines: Seq<Seq<char>>, current: Seq<char>) -> bool {
    trim_line_feeds(joined(lines)) != trim_line_feeds(replace_spec(current, "\r\n"@, "\n"@))
}

fn trim_line_feeds_exec(v: &Vec<char>) -> (r: Vec<char>)
    ensures
        r@ == trim_line_feeds(v@),
{
    let mut e = v.len();
    assert(v@.subrange(0, e as int) =~= v@);
    while e > 0 && v[e - 1] == '\n'
        invariant
            e <= v@.len(),
            trim_line_feeds(v@) == trim_line_feeds(v@.subrange(0, e as int)),
        decreases e,
    {
        assert(v@.subrange(0, e as int).drop_last() =~= v@.subrange(0, e - 1));
        e = e - 1;
    }
    crate::chars::slice_of(v, 0, e)
}

/// Whether the editor's text must be replaced by Neovim's lines (see
/// `text_differs`).
pub fn buffer_needs_update(lines: &Vec<String>, current: &str) -> (b: bool)
    ensures
        b == text_differs(strings_view(lines@), current@),
{
    let new_text = trim_line_feeds_exec(&join_lines_exec(lines));
    let cur = replace_all(&chars_of(current), &chars_of("\r\n"), &chars_of("\n"));
    let cur = trim_line_feeds_exec(&cur);
    !crate::chars::eq_seq(&new_text, &cur)
}

// ---------------------------------------------------------------------
// :{number}
// ---------------------------------------------------------------------

/// Where `:{n}` goes: line `n` (counted from 1) brought into the text, at
/// its first non-blank character.
pub open spec fn goto_line_spec(n: int, ls: Seq<Seq<char>>) -> (int, int) {
    let t = if n - 1 < 0 {
        0
    } else if n - 1 > ls.len() - 1 {
        ls.len() - 1
    } else {
        n - 1
    };
    (t, first_non_blank_spec(ls[t]))
}

/// The caret position for `:{n}` (see `goto_line_spec`).
pub fn goto_line_target(n: i32, lines: &Vec<Vec<char>>) -> (r: (i32, usize))
    requires
        n > i32::MIN,
        0 < lines.len() <= i32::MAX,
    ensures
        (r.0 as int, r.1 as int) == goto_line_spec(n as int, lines_view(lines@)),
{
    let last: i32 = (lines.len() - 1) as i32;
    let t = if n - 1 < 0 {
        0
    } else if n - 1 > last {
        last
    } else {
        n - 1
    };
    (t, first_non_blank(&lines[t as usize]))
}

// ---------------------------------------------------------------------
// gt and gT
// ---------------------------------------------------------------------

/// The tab `offset` tabs away from tab `current` among `count` tabs, going
/// round past either end; none when there is only one tab or none.
pub open spec fn tab_after(current: int, offset: int, count: int) -> Option<int> {
    if count <= 1 {
        None
    } else {
        Some((current + offset) % count)
    }
}

/// The remainder of `a / c` as Rust computes it: with the sign of `a`.
pub open spec fn rem_toward_zero(a: int, c: int) -> int {
    if a >= 0 {
        a % c
    } else {
        -((-a) % c)
    }
}

/// The tab to switch to (see `tab_after`). The index is computed as
/// `((current + offset) % count + count) % count` in `i32`.
pub fn wrap_tab_index(current: i32, offset: i32, count: i32) -> (r: Option<i32>)
    requires
        i32::MIN <= current + offset <= i32::MAX,
        count > 1 ==> rem_toward_zero(current + offset, count as int) + count <= i32::MAX,
    ensures
        match r {
            Some(i) => tab_after(current as int, offset as int, count as int) == Some(i as int),
            None => tab_after(current as int, offset as int, count as int) is None,
        },
{
    if count <= 1 {
        return None;
    }
    let a: i64 = current as i64 + offset as i64;
    let c: i64 = count as i64;
    let r: i64 = if a >= 0 {
        ((a as u64) % (c as u64)) as i64
    } else {
        let m: u64 = ((-a) as u64) % (c as u64);
        if m == 0 {
            0
        } else {
            c - (m as i64)
        }
    };
    proof {
        let ai: int = a as int;
        let ci: int = c as int;
        if ai < 0 {
            let ni: int = -ai;
            vstd::arithmetic::div_mod::lemma_fundamental_div_mod(ni, ci);
            if ni % ci == 0 {
                let q = ni / ci;
                assert(ai == (-q) * ci + 0) by (nonlinear_arith)
                    requires
                        ni == ci * q + 0,
                        ai == -ni,
                ;
                vstd::arithmetic::div_mod::lemma_fundamental_div_mod_converse(ai, ci, -q, 0);
            }
            if ni % ci != 0 {
                let q = ni / ci;
                let rm = ni % ci;
                vstd::arithmetic::div_mod::lemma_fundamental_div_mod(ni, ci);
                assert(ai == (-q - 1) * ci + (ci - rm)) by (nonlinear_arith)
                    requires
                        ni == ci * q + rm,
                        ai == -ni,
                ;
                vstd::arithmetic::div_mod::lemma_fundamental_div_mod_converse(ai, ci, -q - 1, ci - rm);
            }
        }
    }
    Some(r as i32)
}

/// `gT` after `gt` comes back to the tab it started from, and `gt` after
/// `gT` as well.
pub proof fn law_next_then_previous_tab(current: int, count: int)
    requires
        0 <= current < count,
        count > 1,
    ensures
        tab_after(tab_after(current, 1, count)->0, -1, count) == Some(current),
        tab_after(tab_after(current, -1, count)->0, 1, count) == Some(current),
{
    vstd::arithmetic::div_mod::lemma_fundamental_div_mod_converse(-1, count, -1, count - 1);
    vstd::arithmetic::div_mod::lemma_fundamental_div_mod_converse(current, count, 0, current);
    vstd::arithmetic::div_mod::lemma_fundamental_div_mod_converse(count, count, 1, 0);
    if current + 1 < count {
        vstd::arithmetic::div_mod::lemma_fundamental_div_mod_converse(current + 1, count, 0, current + 1);
    }
    if current > 0 {
        vstd::arithmetic::div_mod::lemma_fundamental_div_mod_converse(current - 1, count, 0, current - 1);
    }
}

/// The index of the first path from `i` on that is `current`; 0 when
/// none is.
pub open spec fn first_position(paths: Seq<Seq<char>>, current: Seq<char>, i: int) -> int
    decreases paths.len() - i,
{
    if i < 0 || i >= paths.len() {
        0
    } else if paths[i] == current {
        i
    } else {
        first_position(paths, current, i + 1)
    }
}

/// The index of the script shown among the open scripts: the first whose
/// path is `current`, else the first.
pub open spec fn current_tab(paths: Seq<Seq<char>>, current: Seq<char>) -> int {
    first_position(paths, current, 0)
}

/// `gt` (offset 1) and `gT` (offset -1): the index of the script to show
/// among the open scripts, going round past either end; none when at most
/// one script is open.
pub fn next_script_index(paths: &Vec<String>, current: &str, offset: i32) -> (r: Option<i32>)
    requires
        paths@.len() <= 0x3fff_ffff,
        -1 <= offset <= 1,
    ensures
        match r {
            Some(i) => tab_after(current_tab(strings_view(paths@), current@), offset as int, paths@.len() as int) == Some(i as int),
            None => tab_after(current_tab(strings_view(paths@), current@), offset as int, paths@.len() as int) is None,
        },
{
    let ghost pv = strings_view(paths@);
    let count = paths.len() as i32;
    let mut i: usize = 0;
    while i < paths.len()
        invariant
            pv == strings_view(paths@),
            i <= paths@.len() <= 0x3fff_ffff,
            -1 <= offset <= 1,
            count == paths@.len(),
            current_tab(pv, current@) == first_position(pv, current@, i as int),
        decreases paths.len() - i,
    {
        if eq_str(&chars_of(paths[i].as_str()), current) {
            return wrap_tab_index(i as i32, offset, count);
        }
        i = i + 1;
    }
    wrap_tab_index(0, offset, count)
}

// ---------------------------------------------------------------------
// Following Neovim's buffer
// ---------------------------------------------------------------------

/// The index of the first path from `i` on that names `target` once
/// backslashes are read as slashes.
pub open spec fn first_same_path(paths: Seq<Seq<char>>, target: Seq<char>, i: int) -> Option<int>
    decreases paths.len() - i,
{
    if i < 0 || i >= paths.len() {
        None
    } else if forward_slashes(paths[i]) == forward_slashes(target) {
        Some(i)
    } else {
        first_same_path(paths, target, i + 1)
    }
}

/// The script tab to show when Neovim entered the buffer of `buffer_path`:
/// none when the script shown already has that (absolute) path, else the
/// first open script with that path, if any. Paths are compared with
/// backslashes read as slashes.
pub open spec fn tab_for_buffer(buffer_path: Seq<char>, shown: Option<Seq<char>>, open: Seq<Seq<char>>) -> Option<int> {
    if shown is Some && forward_slashes(shown->0) == forward_slashes(buffer_path) {
        None
    } else {
        first_same_path(open, buffer_path, 0)
    }
}

pub open spec fn opt_str_view(s: Option<&str>) -> Option<Seq<char>> {
    match s {
        Some(t) => Some(t@),
        None => None,
    }
}

/// The open script to switch to for Neovim's buffer (see
/// `tab_for_buffer`); `shown` and `open` are absolute paths.
pub fn script_tab_for_buffer(buffer_path: &str, shown: Option<&str>, open: &Vec<String>) -> (r: Option<usize>)
    ensures
        match r {
            Some(i) => tab_for_buffer(buffer_path@, opt_str_view(shown), strings_view(open@)) == Some(i as int),
            None => tab_for_buffer(buffer_path@, opt_str_view(shown), strings_view(open@)) is None,
        },
{
    let target = to_forward_slashes(&chars_of(buffer_path));
    if let Some(s) = shown {
        if crate::chars::eq_seq(&to_forward_slashes(&chars_of(s)), &target) {
            return None;
        }
    }
    let ghost pv = strings_view(open@);
    let mut i: usize = 0;
    while i < open.len()
        invariant
            pv == strings_view(open@),
            i <= open@.len(),
            target@ == forward_slashes(buffer_path@),
            tab_for_buffer(buffer_path@, opt_str_view(shown), pv) == first_same_path(pv, buffer_path@, 0),
            first_same_path(pv, buffer_path@, 0) == first_same_path(pv, buffer_path@, i as int),
        decreases open.len() - i,
    {
        if crate::chars::eq_seq(&to_forward_slashes(&chars_of(open[i].as_str())), &target) {
            assert(pv[i as int] == open@[i as int]@);
            return Some(i);
        }
        i = i + 1;
    }
    None
}

} // verus!
