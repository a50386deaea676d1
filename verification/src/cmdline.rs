//! The `:` command line: its buffer, history browsing, and the Ex
//! commands it runs.

use crate::chars::{
    chars_of, concat, eq_str, is_space, slice_of, starts_with_str, trim, trim_exec,
};
use crate::dispatch::{clear_pending, cleared_pending, InputState, StateView};
use crate::keys::{key_char, KeyInput, KEY_BACKSPACE, KEY_DOWN, KEY_ENTER, KEY_ESCAPE, KEY_UP};
use crate::numbers::{parse_int, parse_int_exec};
use crate::unicode::{utf8_len, utf8_len_above_one};
use vstd::prelude::*;

verus! {

/// Command-line state. `T` is the text type, `H` a list of texts.
pub struct CommandLineOf<T, H> {
    /// The command line is open.
    pub active: bool,
    /// What is typed, starting with `:`.
    pub buffer: T,
    /// Commands run so far, oldest first.
    pub history: H,
    /// The history entry shown while browsing.
    pub history_index: Option<usize>,
    /// What was typed before browsing began.
    pub history_temp: T,
}

pub type CommandLine = CommandLineOf<Vec<char>, Vec<Vec<char>>>;

pub type CommandLineView = CommandLineOf<Seq<char>, Seq<Seq<char>>>;

pub open spec fn history_view(h: Seq<Vec<char>>) -> Seq<Seq<char>> {
    h.map_values(|v: Vec<char>| v@)
}

impl View for CommandLineOf<Vec<char>, Vec<Vec<char>>> {
    type V = CommandLineView;

    open spec fn view(&self) -> CommandLineView {
        CommandLineOf {
            active: self.active,
            buffer: self.buffer@,
            history: history_view(self.history@),
            history_index: self.history_index,
            history_temp: self.history_temp@,
        }
    }
}

/// The history index, when set, points into the history.
pub open spec fn cl_wf(c: CommandLineView) -> bool {
    &&& c.history.len() <= usize::MAX
    &&& c.history_index matches Some(i) ==> i < c.history.len()
}

impl CommandLineOf<Vec<char>, Vec<Vec<char>>> {
    /// A closed command line with no history.
    pub fn new() -> (c: CommandLine)
        ensures
            cl_wf(c@),
            !c@.active,
            c@.buffer == Seq::<char>::empty(),
            c@.history == Seq::<Seq<char>>::empty(),
            c@.history_index is None,
            c@.history_temp == Seq::<char>::empty(),
    {
        let c = CommandLineOf {
            active: false,
            buffer: Vec::new(),
            history: Vec::new(),
            history_index: None,
            history_temp: Vec::new(),
        };
        assert(history_view(c.history@) =~= Seq::<Seq<char>>::empty());
        c
    }
}

/// `:` followed by `s`.
pub open spec fn with_colon(s: Seq<char>) -> Seq<char> {
    seq![':'] + s
}

/// `s` without a leading `:`, or empty when it does not start with one
/// (`strip_prefix(':').unwrap_or("")`).
pub open spec fn after_colon_or_empty(s: Seq<char>) -> Seq<char> {
    if s.len() > 0 && s[0] == ':' {
        s.subrange(1, s.len() as int)
    } else {
        Seq::empty()
    }
}

/// `s` without a leading `:`, or `s` itself (`strip_prefix(':').unwrap_or(s)`).
pub open spec fn after_colon(s: Seq<char>) -> Seq<char> {
    if s.len() > 0 && s[0] == ':' {
        s.subrange(1, s.len() as int)
    } else {
        s
    }
}

/// Open the command line: pending key operations are dropped and the
/// buffer holds `:`.
pub fn open_command_line(st: &mut InputState, cl: &mut CommandLine)
    ensures
        final(st)@ == cleared_pending(old(st)@),
        final(cl)@ == (CommandLineOf { active: true, buffer: seq![':'], ..old(cl)@ }),
{
    clear_pending(st);
    cl.active = true;
    let mut b: Vec<char> = Vec::new();
    b.push(':');
    cl.buffer = b;
    assert(cl.buffer@ =~= seq![':']);
}

/// Close the command line and empty its buffer.
pub fn close_command_line(cl: &mut CommandLine)
    ensures
        final(cl)@ == (CommandLineOf { active: false, buffer: Seq::<char>::empty(), ..old(cl)@ }),
{
    cl.active = false;
    cl.buffer = Vec::new();
    assert(cl.buffer@ =~= Seq::<char>::empty());
}

/// The command line after `Up`: the next older history entry.
pub open spec fn history_up_spec(c: CommandLineView) -> CommandLineView {
    if c.history.len() == 0 {
        c
    } else {
        match c.history_index {
            None => CommandLineOf {
                history_temp: after_colon_or_empty(c.buffer),
                history_index: Some((c.history.len() - 1) as usize),
                buffer: with_colon(c.history.last()),
                ..c
            },
            Some(i) => if i == 0 {
                c
            } else {
                CommandLineOf {
                    history_index: Some((i - 1) as usize),
                    buffer: with_colon(c.history[i - 1]),
                    ..c
                }
            },
        }
    }
}

/// The command line after `Down`: the next newer history entry, or what
/// was typed before browsing.
pub open spec fn history_down_spec(c: CommandLineView) -> CommandLineView {
    match c.history_index {
        None => c,
        Some(i) => if i + 1 >= c.history.len() {
            CommandLineOf { buffer: with_colon(c.history_temp), history_index: None, ..c }
        } else {
            CommandLineOf {
                history_index: Some((i + 1) as usize),
                buffer: with_colon(c.history[i + 1]),
                ..c
            }
        },
    }
}

fn colon_then(v: &Vec<char>) -> (r: Vec<char>)
    ensures
        r@ == with_colon(v@),
{
    let mut c: Vec<char> = Vec::new();
    c.push(':');
    let r = concat(&c, v);
    assert(c@ =~= seq![':']);
    r
}

fn strip_colon_or_empty(v: &Vec<char>) -> (r: Vec<char>)
    ensures
        r@ == after_colon_or_empty(v@),
{
    if v.len() > 0 && v[0] == ':' {
        slice_of(v, 1, v.len())
    } else {
        Vec::new()
    }
}

fn strip_colon(v: &Vec<char>) -> (r: Vec<char>)
    ensures
        r@ == after_colon(v@),
{
    if v.len() > 0 && v[0] == ':' {
        slice_of(v, 1, v.len())
    } else {
        let r = slice_of(v, 0, v.len());
        assert(r@ =~= v@);
        r
    }
}

fn history_entry(cl: &CommandLine, i: usize) -> (r: Vec<char>)
    requires
        i < cl@.history.len(),
    ensures
        r@ == cl@.history[i as int],
{
    let e = &cl.history[i];
    slice_of(e, 0, e.len())
}

/// Browse to the next older command (`Up`). Returns whether the buffer
/// now shows a history entry.
pub fn command_history_up(cl: &mut CommandLine) -> (shown: bool)
    requires
        cl_wf(old(cl)@),
    ensures
        cl_wf(final(cl)@),
        final(cl)@ == history_up_spec(old(cl)@),
        shown == (old(cl)@.history.len() > 0 && old(cl)@.history_index != Some(0usize)),
{
    let n = cl.history.len();
    assert(n == old(cl)@.history.len());
    if n == 0 {
        return false;
    }
    match cl.history_index {
        None => {
            cl.history_temp = strip_colon_or_empty(&cl.buffer);
            cl.history_index = Some(n - 1);
            let e = history_entry(cl, n - 1);
            cl.buffer = colon_then(&e);
            true
        },
        Some(i) => {
            if i == 0 {
                false
            } else {
                cl.history_index = Some(i - 1);
                let e = history_entry(cl, i - 1);
                cl.buffer = colon_then(&e);
                true
            }
        },
    }
}

/// Browse to the next newer command (`Down`), or back to what was typed.
/// Returns whether the buffer changed (the history was being browsed).
pub fn command_history_down(cl: &mut CommandLine) -> (shown: bool)
    requires
        cl_wf(old(cl)@),
    ensures
        cl_wf(final(cl)@),
        final(cl)@ == history_down_spec(old(cl)@),
        shown == old(cl)@.history_index is Some,
{
    let n = cl.history.len();
    assert(n == old(cl)@.history.len());
    match cl.history_index {
        None => false,
        Some(i) => {
            if i + 1 >= n {
                cl.buffer = colon_then(&cl.history_temp);
                cl.history_index = None;
            } else {
                cl.history_index = Some(i + 1);
                let e = history_entry(cl, i + 1);
                cl.buffer = colon_then(&e);
            }
            true
        },
    }
}

/// Browsing up then down from the typed input gives it back: the buffer
/// is again what was typed (after its `:`) and browsing has stopped.
pub proof fn law_history_up_down(c: CommandLineView)
    requires
        cl_wf(c),
        c.history.len() > 0,
        c.history_index is None,
        c.buffer.len() > 0,
        c.buffer[0] == ':',
    ensures
        history_down_spec(history_up_spec(c)).buffer == c.buffer,
        history_down_spec(history_up_spec(c)).history_index is None,
        history_down_spec(history_up_spec(c)).history == c.history,
{
    assert(with_colon(c.buffer.subrange(1, c.buffer.len() as int)) =~= c.buffer);
}

/// Browsing down then up from a history entry that is not the newest
/// returns to that entry.
pub proof fn law_history_down_up(c: CommandLineView, i: usize)
    requires
        cl_wf(c),
        c.history_index == Some(i),
        i + 1 < c.history.len(),
    ensures
        history_up_spec(history_down_spec(c)).history_index == Some(i),
        history_up_spec(history_down_spec(c)).buffer == with_colon(c.history[i as int]),
{
}

// ---------------------------------------------------------------------
// Ex commands
// ---------------------------------------------------------------------

/// What an Ex command asks for.
pub enum ExCommand<T> {
    /// `:w`
    Save,
    /// `:q`, `:bd`
    Close,
    /// `:q!`
    CloseDiscard,
    /// `:qa`, `:qall` (also with `!`)
    CloseAll,
    /// `:wq`, `:x` (also with `!`)
    SaveAndClose,
    /// `:wa`, `:wall`
    SaveAll,
    /// `:wqa`, `:xa` and their spellings: save all, then close all.
    SaveAllAndCloseAll,
    /// `:e!`, `:edit!`
    Reload,
    /// `:{number}`
    GotoLine(i32),
    /// Handled by Neovim: ranges, substitute, global, sort, copy, move and
    /// user commands.
    ForwardToNeovim(T),
    ShowMarks,
    ShowRegisters,
    ShowJumps,
    ShowChanges,
    /// `:e {file}`; an empty path opens the quick-open dialog.
    Edit(T),
    BufferNext,
    BufferPrev,
    ListBuffers,
    Help,
    Version,
    /// Anything else.
    Unknown(T),
}

pub open spec fn ex_view(e: ExCommand<Vec<char>>) -> ExCommand<Seq<char>> {
    match e {
        ExCommand::Save => ExCommand::Save,
        ExCommand::Close => ExCommand::Close,
        ExCommand::CloseDiscard => ExCommand::CloseDiscard,
        ExCommand::CloseAll => ExCommand::CloseAll,
        ExCommand::SaveAndClose => ExCommand::SaveAndClose,
        ExCommand::SaveAll => ExCommand::SaveAll,
        ExCommand::SaveAllAndCloseAll => ExCommand::SaveAllAndCloseAll,
        ExCommand::Reload => ExCommand::Reload,
        ExCommand::GotoLine(n) => ExCommand::GotoLine(n),
        ExCommand::ForwardToNeovim(t) => ExCommand::ForwardToNeovim(t@),
        ExCommand::ShowMarks => ExCommand::ShowMarks,
        ExCommand::ShowRegisters => ExCommand::ShowRegisters,
        ExCommand::ShowJumps => ExCommand::ShowJumps,
        ExCommand::ShowChanges => ExCommand::ShowChanges,
        ExCommand::Edit(t) => ExCommand::Edit(t@),
        ExCommand::BufferNext => ExCommand::BufferNext,
        ExCommand::BufferPrev => ExCommand::BufferPrev,
        ExCommand::ListBuffers => ExCommand::ListBuffers,
        ExCommand::Help => ExCommand::Help,
        ExCommand::Version => ExCommand::Version,
        ExCommand::Unknown(t) => ExCommand::Unknown(t@),
    }
}

/// The command starts with a line range: a digit, `.`, `$`, `'`, `+` or `-`.
pub open spec fn has_line_range_spec(cmd: Seq<char>) -> bool {
    cmd.len() > 0 && (('0' <= cmd[0] && cmd[0] <= '9') || cmd[0] == '.' || cmd[0] == '$'
        || cmd[0] == '\'' || cmd[0] == '+' || cmd[0] == '-')
}

/// Whether a command starts with a line range specifier.
pub fn has_line_range(cmd: &Vec<char>) -> (b: bool)
    ensures
        b == has_line_range_spec(cmd@),
{
    if cmd.len() == 0 {
        return false;
    }
    let c = cmd[0];
    ('0' <= c && c <= '9') || c == '.' || c == '$' || c == '\'' || c == '+' || c == '-'
}

pub open spec fn starts_with(s: Seq<char>, p: Seq<char>) -> bool {
    p.len() <= s.len() && s.subrange(0, p.len() as int) == p
}

/// Commands Neovim runs for us: substitute, global, sort, copy, move.
pub open spec fn neovim_command(cmd: Seq<char>) -> bool {
    ||| starts_with(cmd, "%s/"@)
    ||| starts_with(cmd, "s/"@)
    ||| starts_with(cmd, "g/"@)
    ||| cmd == "sort"@
    ||| starts_with(cmd, "sort "@)
    ||| (cmd.len() > 1 && cmd[0] == 't')
    ||| (cmd.len() > 1 && cmd[0] == 'm')
}

/// The file of `:e {file}` / `:edit {file}`.
pub open spec fn edit_path(cmd: Seq<char>) -> Seq<char> {
    if cmd == "e"@ || cmd == "edit"@ {
        Seq::empty()
    } else if starts_with(cmd, "edit "@) {
        trim(cmd.subrange(5, cmd.len() as int))
    } else {
        trim(cmd.subrange(2, cmd.len() as int))
    }
}

/// The Ex command written `cmd` (already trimmed, without `:`).
pub open spec fn parse_ex_spec(cmd: Seq<char>) -> ExCommand<Seq<char>> {
    if cmd == "w"@ {
        ExCommand::Save
    } else if cmd == "q"@ {
        ExCommand::Close
    } else if cmd == "q!"@ {
        ExCommand::CloseDiscard
    } else if cmd == "qa"@ || cmd == "qall"@ || cmd == "qa!"@ || cmd == "qall!"@ {
        ExCommand::CloseAll
    } else if cmd == "wq"@ || cmd == "x"@ || cmd == "wq!"@ || cmd == "x!"@ {
        ExCommand::SaveAndClose
    } else if cmd == "wa"@ || cmd == "wall"@ {
        ExCommand::SaveAll
    } else if cmd == "wqa"@ || cmd == "wqall"@ || cmd == "xa"@ || cmd == "xall"@ || cmd
        == "wqa!"@ || cmd == "wqall!"@ || cmd == "xa!"@ || cmd == "xall!"@ {
        ExCommand::SaveAllAndCloseAll
    } else if cmd == "e!"@ || cmd == "edit!"@ {
        ExCommand::Reload
    } else if parse_int(cmd, i32::MIN as int, i32::MAX as int) is Some {
        ExCommand::GotoLine(parse_int(cmd, i32::MIN as int, i32::MAX as int)->0 as i32)
    } else if has_line_range_spec(cmd) {
        ExCommand::ForwardToNeovim(cmd)
    } else if cmd == "marks"@ {
        ExCommand::ShowMarks
    } else if cmd == "registers"@ || cmd == "reg"@ {
        ExCommand::ShowRegisters
    } else if cmd == "jumps"@ || cmd == "ju"@ {
        ExCommand::ShowJumps
    } else if cmd == "changes"@ {
        ExCommand::ShowChanges
    } else if cmd == "e"@ || cmd == "edit"@ || starts_with(cmd, "e "@) || starts_with(cmd, "edit "@) {
        ExCommand::Edit(edit_path(cmd))
    } else if neovim_command(cmd) {
        ExCommand::ForwardToNeovim(cmd)
    } else if cmd == "bn"@ || cmd == "bnext"@ {
        ExCommand::BufferNext
    } else if cmd == "bp"@ || cmd == "bprev"@ || cmd == "bprevious"@ {
        ExCommand::BufferPrev
    } else if cmd == "bd"@ || cmd == "bdelete"@ {
        ExCommand::Close
    } else if cmd == "ls"@ || cmd == "buffers"@ {
        ExCommand::ListBuffers
    } else if cmd == "help"@ || cmd == "h"@ {
        ExCommand::Help
    } else if cmd == "version"@ || cmd == "ver"@ {
        ExCommand::Version
    } else if cmd.len() > 0 && 'A' <= cmd[0] && cmd[0] <= 'Z' {
        ExCommand::ForwardToNeovim(cmd)
    } else {
        ExCommand::Unknown(cmd)
    }
}

fn copy_of(v: &Vec<char>) -> (r: Vec<char>)
    ensures
        r@ == v@,
{
    let r = slice_of(v, 0, v.len());
    assert(r@ =~= v@);
    r
}

fn is_any(cmd: &Vec<char>, a: &str, b: &str) -> (r: bool)
    ensures
        r == (cmd@ == a@ || cmd@ == b@),
{
    eq_str(cmd, a) || eq_str(cmd, b)
}

fn is_neovim_command(cmd: &Vec<char>) -> (r: bool)
    ensures
        r == neovim_command(cmd@),
{
    starts_with_str(cmd, "%s/") || starts_with_str(cmd, "s/") || starts_with_str(cmd, "g/")
        || eq_str(cmd, "sort") || starts_with_str(cmd, "sort ") || (cmd.len() > 1 && cmd[0]
        == 't') || (cmd.len() > 1 && cmd[0] == 'm')
}

fn edit_path_exec(cmd: &Vec<char>) -> (r: Vec<char>)
    requires
        cmd@ == "e"@ || cmd@ == "edit"@ || starts_with(cmd@, "e "@) || starts_with(cmd@, "edit "@),
    ensures
        r@ == edit_path(cmd@),
{
    proof {
        reveal_strlit("e ");
        reveal_strlit("edit ");
    }
    if is_any(cmd, "e", "edit") {
        Vec::new()
    } else if starts_with_str(cmd, "edit ") {
        trim_exec(&slice_of(cmd, 5, cmd.len()))
    } else {
        trim_exec(&slice_of(cmd, 2, cmd.len()))
    }
}

/// The Ex command written `cmd` (already trimmed, without `:`).
pub fn parse_ex_command(cmd: &Vec<char>) -> (r: ExCommand<Vec<char>>)
    ensures
        ex_view(r) == parse_ex_spec(cmd@),
{
    if eq_str(cmd, "w") {
        ExCommand::Save
    } else if eq_str(cmd, "q") {
        ExCommand::Close
    } else if eq_str(cmd, "q!") {
        ExCommand::CloseDiscard
    } else if is_any(cmd, "qa", "qall") || is_any(cmd, "qa!", "qall!") {
        ExCommand::CloseAll
    } else if is_any(cmd, "wq", "x") || is_any(cmd, "wq!", "x!") {
        ExCommand::SaveAndClose
    } else if is_any(cmd, "wa", "wall") {
        ExCommand::SaveAll
    } else if is_any(cmd, "wqa", "wqall") || is_any(cmd, "xa", "xall") || is_any(
        cmd,
        "wqa!",
        "wqall!",
    ) || is_any(cmd, "xa!", "xall!") {
        ExCommand::SaveAllAndCloseAll
    } else if is_any(cmd, "e!", "edit!") {
        ExCommand::Reload
    } else {
        match parse_int_exec(cmd, i32::MIN as i64, i32::MAX as i64) {
            Some(n) => {
                return ExCommand::GotoLine(n as i32);
            },
            None => {},
        }
        if has_line_range(cmd) {
            ExCommand::ForwardToNeovim(copy_of(cmd))
        } else if eq_str(cmd, "marks") {
            ExCommand::ShowMarks
        } else if is_any(cmd, "registers", "reg") {
            ExCommand::ShowRegisters
        } else if is_any(cmd, "jumps", "ju") {
            ExCommand::ShowJumps
        } else if eq_str(cmd, "changes") {
            ExCommand::ShowChanges
        } else if is_any(cmd, "e", "edit") || starts_with_str(cmd, "e ") || starts_with_str(
            cmd,
            "edit ",
        ) {
            ExCommand::Edit(edit_path_exec(cmd))
        } else if is_neovim_command(cmd) {
            ExCommand::ForwardToNeovim(copy_of(cmd))
        } else if is_any(cmd, "bn", "bnext") {
            ExCommand::BufferNext
        } else if is_any(cmd, "bp", "bprev") || eq_str(cmd, "bprevious") {
            ExCommand::BufferPrev
        } else if is_any(cmd, "bd", "bdelete") {
            ExCommand::Close
        } else if is_any(cmd, "ls", "buffers") {
            ExCommand::ListBuffers
        } else if is_any(cmd, "help", "h") {
            ExCommand::Help
        } else if is_any(cmd, "version", "ver") {
            ExCommand::Version
        } else if cmd.len() > 0 && 'A' <= cmd[0] && cmd[0] <= 'Z' {
            ExCommand::ForwardToNeovim(copy_of(cmd))
        } else {
            ExCommand::Unknown(copy_of(cmd))
        }
    }
}

/// The command typed in `buffer`: without its `:`, trimmed.
pub open spec fn typed_command(buffer: Seq<char>) -> Seq<char> {
    trim(after_colon(buffer))
}

/// History after running `cmd`: appended unless empty or equal to the
/// last entry.
pub open spec fn history_after(h: Seq<Seq<char>>, cmd: Seq<char>) -> Seq<Seq<char>> {
    if cmd.len() > 0 && !(h.len() > 0 && h.last() == cmd) {
        h.push(cmd)
    } else {
        h
    }
}

/// The command line after running its command: recorded in the history,
/// browsing reset, closed.
pub open spec fn executed_spec(c: CommandLineView) -> CommandLineView {
    CommandLineOf {
        active: false,
        buffer: Seq::empty(),
        history: history_after(c.history, typed_command(c.buffer)),
        history_index: None,
        history_temp: Seq::empty(),
    }
}

proof fn lemma_history_push(h: Seq<Vec<char>>, v: Vec<char>)
    ensures
        history_view(h.push(v)) == history_view(h).push(v@),
{
    assert(history_view(h.push(v)) =~= history_view(h).push(v@));
}

/// Run the typed command: it is recorded in the history (unless empty or
/// the same as the last one), browsing is reset and the command line
/// closes. Returns the command to carry out.
pub fn execute_command(cl: &mut CommandLine) -> (r: ExCommand<Vec<char>>)
    requires
        cl_wf(old(cl)@),
    ensures
        cl_wf(final(cl)@),
        final(cl)@ == executed_spec(old(cl)@),
        ex_view(r) == parse_ex_spec(typed_command(old(cl)@.buffer)),
{
    let cmd = trim_exec(&strip_colon(&cl.buffer));
    let n = cl.history.len();
    assert(n == old(cl)@.history.len());
    let same_as_last = n > 0 && {
        let last = &cl.history[n - 1];
        crate::chars::eq_seq(last, &cmd)
    };
    assert(n > 0 ==> old(cl)@.history.last() == cl.history@[n - 1]@);
    if cmd.len() > 0 && !same_as_last {
        let entry = copy_of(&cmd);
        proof {
            lemma_history_push(cl.history@, entry);
        }
        cl.history.push(entry);
    }
    let n2 = cl.history.len();
    assert(history_view(cl.history@).len() == n2);
    cl.history_index = None;
    cl.history_temp = Vec::new();
    assert(cl.history_temp@ =~= Seq::<char>::empty());
    let r = parse_ex_command(&cmd);
    close_command_line(cl);
    r
}

/// `@:`: run the last command again, when there is one.
pub fn repeat_last_ex_command(cl: &mut CommandLine) -> (r: Option<ExCommand<Vec<char>>>)
    requires
        cl_wf(old(cl)@),
    ensures
        cl_wf(final(cl)@),
        old(cl)@.history.len() == 0 ==> r is None && final(cl)@ == old(cl)@,
        old(cl)@.history.len() > 0 ==> {
            let c1 = CommandLineOf { buffer: with_colon(old(cl)@.history.last()), ..old(cl)@ };
            &&& r matches Some(e) && ex_view(e) == parse_ex_spec(typed_command(c1.buffer))
            &&& final(cl)@ == executed_spec(c1)
        },
{
    let n = cl.history.len();
    if n == 0 {
        return None;
    }
    let e = history_entry(cl, n - 1);
    cl.buffer = colon_then(&e);
    Some(execute_command(cl))
}

/// Running a command twice in a row records it once.
pub proof fn law_history_no_repeat(c: CommandLineView)
    ensures
        executed_spec(CommandLineOf { buffer: c.buffer, ..executed_spec(c) }).history
            == executed_spec(c).history,
{
}

/// No two neighbouring history entries are equal.
pub open spec fn no_adjacent_repeats(h: Seq<Seq<char>>) -> bool {
    forall|i: int, j: int| 0 <= i && j == i + 1 && j < h.len() ==> #[trigger] h[i] != #[trigger] h[j]
}

/// Running commands keeps the history free of neighbouring repeats.
pub proof fn law_history_keeps_no_repeats(c: CommandLineView)
    requires
        no_adjacent_repeats(c.history),
    ensures
        no_adjacent_repeats(executed_spec(c).history),
{
    let h = c.history;
    let cmd = typed_command(c.buffer);
    if cmd.len() > 0 && !(h.len() > 0 && h.last() == cmd) {
        let h2 = h.push(cmd);
        assert forall|i: int, j: int| 0 <= i && j == i + 1 && j < h2.len() implies #[trigger] h2[i]
            != #[trigger] h2[j] by {
            if j < h.len() {
                assert(h2[i] == h[i] && h2[j] == h[j]);
            } else {
                assert(h2[i] == h.last());
            }
        }
    }
}

// ---------------------------------------------------------------------
// Keys typed on the command line
// ---------------------------------------------------------------------

/// What a key typed on the command line did.
pub enum CommandKeyOutcome<T> {
    /// `Esc`: the command line closed.
    Closed,
    /// `Enter`: the command line ran this command and closed.
    Executed(ExCommand<T>),
    /// The buffer changed: show it again.
    Redraw,
    /// Nothing to show.
    Unchanged,
}

pub open spec fn key_outcome_view(o: CommandKeyOutcome<Vec<char>>) -> CommandKeyOutcome<Seq<char>> {
    match o {
        CommandKeyOutcome::Closed => CommandKeyOutcome::Closed,
        CommandKeyOutcome::Executed(e) => CommandKeyOutcome::Executed(ex_view(e)),
        CommandKeyOutcome::Redraw => CommandKeyOutcome::Redraw,
        CommandKeyOutcome::Unchanged => CommandKeyOutcome::Unchanged,
    }
}

/// A typed character: the key's Unicode value, when not zero and valid.
pub open spec fn typed_char(k: KeyInput) -> Option<char> {
    if k.unicode > 0 {
        crate::keys::unicode_char(k)
    } else {
        None
    }
}

/// The command line and the outcome after a key.
pub open spec fn command_key_spec(c: CommandLineView, k: KeyInput) -> (CommandLineView, CommandKeyOutcome<Seq<char>>) {
    if k.keycode == KEY_ESCAPE {
        (CommandLineOf { active: false, buffer: Seq::empty(), ..c }, CommandKeyOutcome::Closed)
    } else if k.keycode == KEY_ENTER {
        (executed_spec(c), CommandKeyOutcome::Executed(parse_ex_spec(typed_command(c.buffer))))
    } else if k.keycode == KEY_BACKSPACE {
        if utf8_len(c.buffer) > 1 {
            (CommandLineOf { buffer: c.buffer.drop_last(), history_index: None, ..c }, CommandKeyOutcome::Redraw)
        } else {
            (CommandLineOf { history_index: None, ..c }, CommandKeyOutcome::Unchanged)
        }
    } else if k.keycode == KEY_UP {
        (history_up_spec(c), if c.history.len() > 0 && c.history_index != Some(0usize) {
            CommandKeyOutcome::Redraw
        } else {
            CommandKeyOutcome::Unchanged
        })
    } else if k.keycode == KEY_DOWN {
        (history_down_spec(c), if c.history_index is Some {
            CommandKeyOutcome::Redraw
        } else {
            CommandKeyOutcome::Unchanged
        })
    } else {
        match typed_char(k) {
            Some(ch) => (CommandLineOf { buffer: c.buffer.push(ch), history_index: None, ..c }, CommandKeyOutcome::Redraw),
            None => (c, CommandKeyOutcome::Unchanged),
        }
    }
}

/// Handle a key typed while the command line is open (the key is always
/// consumed).
pub fn handle_command_mode_input(cl: &mut CommandLine, k: &KeyInput) -> (r: CommandKeyOutcome<Vec<char>>)
    requires
        cl_wf(old(cl)@),
    ensures
        cl_wf(final(cl)@),
        final(cl)@ == command_key_spec(old(cl)@, *k).0,
        key_outcome_view(r) == command_key_spec(old(cl)@, *k).1,
{
    if k.keycode == KEY_ESCAPE {
        close_command_line(cl);
        CommandKeyOutcome::Closed
    } else if k.keycode == KEY_ENTER {
        CommandKeyOutcome::Executed(execute_command(cl))
    } else if k.keycode == KEY_BACKSPACE {
        let out = if utf8_len_above_one(&cl.buffer) {
            cl.buffer.pop();
            CommandKeyOutcome::Redraw
        } else {
            CommandKeyOutcome::Unchanged
        };
        cl.history_index = None;
        out
    } else if k.keycode == KEY_UP {
        if command_history_up(cl) {
            CommandKeyOutcome::Redraw
        } else {
            CommandKeyOutcome::Unchanged
        }
    } else if k.keycode == KEY_DOWN {
        if command_history_down(cl) {
            CommandKeyOutcome::Redraw
        } else {
            CommandKeyOutcome::Unchanged
        }
    } else {
        let ch = if k.unicode > 0 {
            key_char(k)
        } else {
            None
        };
        match ch {
            Some(c) => {
                cl.buffer.push(c);
                cl.history_index = None;
                CommandKeyOutcome::Redraw
            },
            None => CommandKeyOutcome::Unchanged,
        }
    }
}

} // verus!
