//! Reading the replies of the RPC calls the editor makes to Neovim, and
//! the command line that starts Neovim.

use crate::chars::{chars_of, eq_str};
use crate::msgpack::{as_bool, as_i64, as_str, value_as_bool, value_as_i64, value_as_str, MsgValue};
use vstd::prelude::*;

verus! {

/// Result of switching Neovim to the buffer of a file.
#[derive(Debug, Clone, Copy, PartialEq, Eq)]
pub struct SwitchBufferResult {
    /// Buffer number in Neovim.
    pub bufnr: i64,
    /// Current changedtick.
    pub tick: i64,
    /// The buffer was created by this switch.
    pub is_new: bool,
    /// The buffer is attached for change notifications.
    pub attached: bool,
    /// Cursor (line 1-indexed, column 0-indexed).
    pub cursor: (i64, i64),
}

/// How the buffer is indented.
#[derive(Debug, Clone, Copy, PartialEq, Eq)]
pub struct IndentOptions {
    /// Spaces rather than tabs.
    pub use_spaces: bool,
    /// The number of spaces of a level, or the width of a tab.
    pub indent_size: i32,
}

pub open spec fn key_named(k: MsgValue, name: Seq<char>) -> bool {
    as_str(k) == Some(name)
}

/// The value of the last entry with key `name`.
pub open spec fn last_value(entries: Seq<(MsgValue, MsgValue)>, name: Seq<char>) -> Option<MsgValue>
    decreases entries.len(),
{
    if entries.len() == 0 {
        None
    } else if key_named(entries.last().0, name) {
        Some(entries.last().1)
    } else {
        last_value(entries.drop_last(), name)
    }
}

pub open spec fn i64_field(entries: Seq<(MsgValue, MsgValue)>, name: Seq<char>) -> Option<i64> {
    match last_value(entries, name) {
        Some(v) => as_i64(v),
        None => None,
    }
}

pub open spec fn bool_field(entries: Seq<(MsgValue, MsgValue)>, name: Seq<char>) -> Option<bool> {
    match last_value(entries, name) {
        Some(v) => as_bool(v),
        None => None,
    }
}

/// The cursor from the last `cursor` entry holding an array of at least two
/// items (row defaults to 1 and column to 0 when not numbers).
pub open spec fn cursor_field(entries: Seq<(MsgValue, MsgValue)>) -> Option<(i64, i64)>
    decreases entries.len(),
{
    if entries.len() == 0 {
        None
    } else if key_named(entries.last().0, "cursor"@) && entries.last().1 is Array
        && entries.last().1->Array_0@.len() >= 2 {
        let arr = entries.last().1->Array_0@;
        Some((
            if as_i64(arr[0]) is Some { as_i64(arr[0])->0 } else { 1 },
            if as_i64(arr[1]) is Some { as_i64(arr[1])->0 } else { 0 },
        ))
    } else {
        cursor_field(entries.drop_last())
    }
}

/// What the `switch_to_buffer` reply `{bufnr, tick, is_new, attached,
/// cursor}` means: the result when all five are present and readable.
pub open spec fn switch_result_spec(v: MsgValue) -> Option<SwitchBufferResult> {
    match v {
        MsgValue::Table(entries) => {
            let e = entries@;
            if i64_field(e, "bufnr"@) is Some && i64_field(e, "tick"@) is Some && bool_field(
                e,
                "is_new"@,
            ) is Some && bool_field(e, "attached"@) is Some && cursor_field(e) is Some {
                Some(SwitchBufferResult {
                    bufnr: i64_field(e, "bufnr"@)->0,
                    tick: i64_field(e, "tick"@)->0,
                    is_new: bool_field(e, "is_new"@)->0,
                    attached: bool_field(e, "attached"@)->0,
                    cursor: cursor_field(e)->0,
                })
            } else {
                None
            }
        },
        _ => None,
    }
}

fn key_named_exec(k: &MsgValue, name: &str) -> (b: bool)
    ensures
        b == key_named(*k, name@),
{
    match value_as_str(k) {
        Some(s) => eq_str(&chars_of(s.as_str()), name),
        None => false,
    }
}

/// Read the reply of `switch_to_buffer`.
pub fn parse_switch_buffer_result(result: &MsgValue) -> (r: Result<SwitchBufferResult, String>)
    ensures
        match r {
            Ok(x) => switch_result_spec(*result) == Some(x),
            Err(m) => switch_result_spec(*result) is None && (if result is Table {
                m@ == "Invalid result from switch_to_buffer"@
            } else {
                m@ == "Expected table result from switch_to_buffer"@
            }),
        },
{
    let entries = match result {
        MsgValue::Table(e) => e,
        _ => {
            return Err(String::from_str("Expected table result from switch_to_buffer"));
        },
    };
    let mut bufnr: Option<i64> = None;
    let mut tick: Option<i64> = None;
    let mut is_new: Option<bool> = None;
    let mut attached: Option<bool> = None;
    let mut cursor: Option<(i64, i64)> = None;
    let mut i: usize = 0;
    while i < entries.len()
        invariant
            i <= entries@.len(),
            bufnr == i64_field(entries@.subrange(0, i as int), "bufnr"@),
            tick == i64_field(entries@.subrange(0, i as int), "tick"@),
            is_new == bool_field(entries@.subrange(0, i as int), "is_new"@),
            attached == bool_field(entries@.subrange(0, i as int), "attached"@),
            cursor == cursor_field(entries@.subrange(0, i as int)),
        decreases entries.len() - i,
    {
        let ghost pre = entries@.subrange(0, i as int);
        assert(entries@.subrange(0, i + 1).drop_last() =~= pre);
        proof {
            reveal_strlit("bufnr");
            reveal_strlit("tick");
            reveal_strlit("is_new");
            reveal_strlit("attached");
            reveal_strlit("cursor");
            assert("bufnr"@.len() == 5 && "tick"@.len() == 4 && "is_new"@.len() == 6);
            assert("attached"@.len() == 8 && "cursor"@.len() == 6);
            assert("is_new"@[0] == 'i' && "cursor"@[0] == 'c');
        }
        let (k, v) = &entries[i];
        if key_named_exec(k, "bufnr") {
            bufnr = value_as_i64(v);
        } else if key_named_exec(k, "tick") {
            tick = value_as_i64(v);
        } else if key_named_exec(k, "is_new") {
            is_new = value_as_bool(v);
        } else if key_named_exec(k, "attached") {
            attached = value_as_bool(v);
        } else if key_named_exec(k, "cursor") {
            match v {
                MsgValue::Array(arr) => {
                    if arr.len() >= 2 {
                        let row = match value_as_i64(&arr[0]) {
                            Some(x) => x,
                            None => 1,
                        };
                        let col = match value_as_i64(&arr[1]) {
                            Some(x) => x,
                            None => 0,
                        };
                        cursor = Some((row, col));
                    }
                },
                _ => {},
            }
        }
        i = i + 1;
    }
    assert(entries@.subrange(0, i as int) =~= entries@);
    match (bufnr, tick, is_new, attached, cursor) {
        (Some(b), Some(t), Some(n), Some(a), Some(c)) => Ok(
            SwitchBufferResult { bufnr: b, tick: t, is_new: n, attached: a, cursor: c },
        ),
        _ => Err(String::from_str("Invalid result from switch_to_buffer")),
    }
}

/// A position reply `[bufnum, lnum, col, off]` (1-indexed) as a 0-indexed
/// `(line, col)`.
pub open spec fn position_spec(v: MsgValue) -> Option<(i64, i64)> {
    match v {
        MsgValue::Array(arr) => {
            let a = arr@;
            if a.len() > 2 && as_i64(a[1]) is Some && as_i64(a[2]) is Some {
                Some(((as_i64(a[1])->0 - 1) as i64, (as_i64(a[2])->0 - 1) as i64))
            } else {
                None
            }
        },
        _ => None,
    }
}

/// The numbers read are not the smallest `i64` (whose predecessor does not
/// exist).
pub open spec fn position_defined(v: MsgValue) -> bool {
    match v {
        MsgValue::Array(arr) => {
            let a = arr@;
            &&& !(a.len() > 1 && as_i64(a[1]) == Some(i64::MIN))
            &&& !(a.len() > 2 && as_i64(a[1]) is Some && as_i64(a[2]) == Some(i64::MIN))
        },
        _ => true,
    }
}

/// Read a `getpos()` reply.
pub fn parse_position(v: &MsgValue) -> (r: Option<(i64, i64)>)
    requires
        position_defined(*v),
    ensures
        r == position_spec(*v),
{
    let arr = match v {
        MsgValue::Array(a) => a,
        _ => {
            return None;
        },
    };
    if arr.len() < 2 {
        return None;
    }
    let line = match value_as_i64(&arr[1]) {
        Some(x) => x - 1,
        None => {
            return None;
        },
    };
    if arr.len() < 3 {
        return None;
    }
    let col = match value_as_i64(&arr[2]) {
        Some(x) => x - 1,
        None => {
            return None;
        },
    };
    Some((line, col))
}

/// The mode in a `set_visual_selection` reply `{mode = ...}`: the first
/// `mode` entry holding a string (`"v"` for one that is not valid UTF-8);
/// `"v"` when there is none.
pub open spec fn visual_mode_reply(v: MsgValue) -> Seq<char> {
    match v {
        MsgValue::Table(entries) => first_mode(entries@),
        _ => "v"@,
    }
}

pub open spec fn first_mode(entries: Seq<(MsgValue, MsgValue)>) -> Seq<char>
    decreases entries.len(),
{
    if entries.len() == 0 {
        "v"@
    } else if key_named(entries[0].0, "mode"@) && entries[0].1 is Str {
        match as_str(entries[0].1) {
            Some(m) => m,
            None => "v"@,
        }
    } else {
        first_mode(entries.drop_first())
    }
}

/// Read the mode out of a `set_visual_selection` reply.
pub fn parse_visual_mode_reply(v: &MsgValue) -> (r: String)
    ensures
        r@ == visual_mode_reply(*v),
{
    let entries = match v {
        MsgValue::Table(e) => e,
        _ => {
            return String::from_str("v");
        },
    };
    let mut i: usize = 0;
    assert(entries@.subrange(0, entries@.len() as int) =~= entries@);
    while i < entries.len()
        invariant
            i <= entries@.len(),
            *v == MsgValue::Table(*entries),
            first_mode(entries@) == first_mode(entries@.subrange(i as int, entries@.len() as int)),
        decreases entries.len() - i,
    {
        let ghost rest = entries@.subrange(i as int, entries@.len() as int);
        assert(rest.drop_first() =~= entries@.subrange(i + 1, entries@.len() as int));
        assert(rest[0] == entries@[i as int]);
        let (k, m) = &entries[i];
        if key_named_exec(k, "mode") {
            match m {
                MsgValue::Str(_) => {
                    return match value_as_str(m) {
                        Some(s) => String::from_str(s.as_str()),
                        None => String::from_str("v"),
                    };
                },
                _ => {},
            }
        }
        i = i + 1;
    }
    String::from_str("v")
}

/// The changedtick returned by `buffer_update`.
pub fn parse_changedtick(v: &MsgValue) -> (r: Result<i64, String>)
    ensures
        r matches Ok(t) ==> as_i64(*v) == Some(t),
        r matches Err(m) ==> as_i64(*v) is None && m@ == "Invalid changedtick returned"@,
{
    match value_as_i64(v) {
        Some(t) => Ok(t),
        None => Err(String::from_str("Invalid changedtick returned")),
    }
}

/// `getbufvar(0, '&modified')` is 1 when modified (non-numbers read as 0).
pub fn parse_modified_flag(v: &MsgValue) -> (b: bool)
    ensures
        b == (as_i64(*v) is Some && as_i64(*v)->0 != 0),
{
    match value_as_i64(v) {
        Some(x) => x != 0,
        None => false,
    }
}

/// The key mappings `lhs -> rhs` in a keymap reply, skipping entries whose
/// key or value is not a valid string.
pub open spec fn keymap_entries(entries: Seq<(MsgValue, MsgValue)>) -> Seq<(Seq<char>, Seq<char>)>
    decreases entries.len(),
{
    if entries.len() == 0 {
        Seq::empty()
    } else if as_str(entries.last().0) is Some && as_str(entries.last().1) is Some {
        keymap_entries(entries.drop_last()).push((as_str(entries.last().0)->0, as_str(entries.last().1)->0))
    } else {
        keymap_entries(entries.drop_last())
    }
}

pub open spec fn pairs_view(v: Seq<(String, String)>) -> Seq<(Seq<char>, Seq<char>)> {
    v.map_values(|p: (String, String)| (p.0@, p.1@))
}

/// Read a keymap reply (a table from left-hand to right-hand sides).
pub fn parse_keymaps(v: &MsgValue) -> (r: Vec<(String, String)>)
    ensures
        pairs_view(r@) == (match *v {
            MsgValue::Table(entries) => keymap_entries(entries@),
            _ => Seq::empty(),
        }),
{
    let mut r: Vec<(String, String)> = Vec::new();
    let entries = match v {
        MsgValue::Table(e) => e,
        _ => {
            assert(pairs_view(r@) =~= Seq::<(Seq<char>, Seq<char>)>::empty());
            return r;
        },
    };
    let mut i: usize = 0;
    assert(pairs_view(r@) =~= keymap_entries(entries@.subrange(0, 0)));
    while i < entries.len()
        invariant
            i <= entries@.len(),
            pairs_view(r@) == keymap_entries(entries@.subrange(0, i as int)),
        decreases entries.len() - i,
    {
        assert(entries@.subrange(0, i + 1).drop_last() =~= entries@.subrange(0, i as int));
        let (k, m) = &entries[i];
        match (value_as_str(k), value_as_str(m)) {
            (Some(a), Some(b)) => {
                let ghost old_r = r@;
                let pair = (String::from_str(a.as_str()), String::from_str(b.as_str()));
                r.push(pair);
                assert(pairs_view(r@) =~= pairs_view(old_r).push((a@, b@)));
            },
            _ => {},
        }
        i = i + 1;
    }
    assert(entries@.subrange(0, i as int) =~= entries@);
    r
}

/// Arguments Neovim is started with: embedded and headless, without swap
/// files, and with `--clean` when asked.
pub open spec fn nvim_args_spec(clean: bool) -> Seq<Seq<char>> {
    if clean {
        seq!["--embed"@, "--headless"@, "-n"@, "--clean"@]
    } else {
        seq!["--embed"@, "--headless"@, "-n"@]
    }
}

pub fn nvim_args(clean: bool) -> (r: Vec<String>)
    ensures
        r@.map_values(|s: String| s@) == nvim_args_spec(clean),
{
    let mut r: Vec<String> = Vec::new();
    r.push(String::from_str("--embed"));
    r.push(String::from_str("--headless"));
    r.push(String::from_str("-n"));
    if clean {
        r.push(String::from_str("--clean"));
    }
    assert(r@.map_values(|s: String| s@) =~= nvim_args_spec(clean));
    r
}

// ---------------------------------------------------------------------
// Mode and state replies
// ---------------------------------------------------------------------

/// The `(mode, blocking)` pair read from the entries of an `nvim_get_mode`
/// reply: entries are read in order and a later one overrides an earlier
/// one; `mode` counts when it holds a string (`"n"` for one that is not
/// valid UTF-8), `blocking` when it holds a boolean. Without such entries
/// the mode is `"n"` and nothing blocks.
pub open spec fn mode_reply(entries: Seq<(MsgValue, MsgValue)>) -> (Seq<char>, bool)
    decreases entries.len(),
{
    if entries.len() == 0 {
        ("n"@, false)
    } else {
        let before = mode_reply(entries.drop_last());
        let (k, v) = entries.last();
        if key_named(k, "mode"@) && v is Str {
            (
                match as_str(v) {
                    Some(m) => m,
                    None => "n"@,
                },
                before.1,
            )
        } else if key_named(k, "blocking"@) && v is Boolean {
            (before.0, v->Boolean_0)
        } else {
            before
        }
    }
}

/// Reads the current mode and whether Neovim waits for input from the
/// entries of an `nvim_get_mode` reply (see `mode_reply`).
pub fn parse_mode_reply(entries: &Vec<(MsgValue, MsgValue)>) -> (r: (String, bool))
    ensures
        (r.0@, r.1) == mode_reply(entries@),
{
    let mut mode = String::from_str("n");
    let mut blocking = false;
    let mut i: usize = 0;
    while i < entries.len()
        invariant
            i <= entries@.len(),
            (mode@, blocking) == mode_reply(entries@.subrange(0, i as int)),
        decreases entries.len() - i,
    {
        assert(entries@.subrange(0, i + 1).drop_last() =~= entries@.subrange(0, i as int));
        let (k, v) = &entries[i];
        if key_named_exec(k, "mode") && matches!(v, MsgValue::Str(_)) {
            mode = match value_as_str(v) {
                Some(m) => String::from_str(m.as_str()),
                None => String::from_str("n"),
            };
        } else if key_named_exec(k, "blocking") && matches!(v, MsgValue::Boolean(_)) {
            if let MsgValue::Boolean(b) = v {
                blocking = *b;
            }
        }
        i = i + 1;
    }
    assert(entries@.subrange(0, i as int) =~= entries@);
    (mode, blocking)
}

/// The `(mode, line, col)` read from the entries of the state table that
/// the plugin's Lua side returns: entries are read in order, a later one
/// overriding an earlier one; `mode` counts when it holds a string (`"n"`
/// for one that is not valid UTF-8); `line` and `col` take any value, one
/// that is not an `i64` giving 1 and 0. Without such entries the state is
/// `("n", 1, 0)`.
pub open spec fn state_reply(entries: Seq<(MsgValue, MsgValue)>) -> (Seq<char>, i64, i64)
    decreases entries.len(),
{
    if entries.len() == 0 {
        ("n"@, 1, 0)
    } else {
        let before = state_reply(entries.drop_last());
        let (k, v) = entries.last();
        if key_named(k, "mode"@) {
            if v is Str {
                (
                    match as_str(v) {
                        Some(m) => m,
                        None => "n"@,
                    },
                    before.1,
                    before.2,
                )
            } else {
                before
            }
        } else if key_named(k, "line"@) {
            (before.0, match as_i64(v) {
                Some(x) => x,
                None => 1,
            }, before.2)
        } else if key_named(k, "col"@) {
            (before.0, before.1, match as_i64(v) {
                Some(x) => x,
                None => 0,
            })
        } else {
            before
        }
    }
}

/// Reads the reply of the plugin's Lua `get_state()`: a table gives its
/// state (see `state_reply`); anything else is refused.
pub fn parse_state_reply(v: &MsgValue) -> (r: Result<(String, i64, i64), String>)
    ensures
        match v {
            MsgValue::Table(entries) => r is Ok && (r->Ok_0.0@, r->Ok_0.1, r->Ok_0.2) == state_reply(entries@),
            _ => r is Err && r->Err_0@ == "Invalid response from Lua"@,
        },
{
    let entries = match v {
        MsgValue::Table(e) => e,
        _ => {
            return Err(String::from_str("Invalid response from Lua"));
        },
    };
    let mut mode = String::from_str("n");
    let mut line: i64 = 1;
    let mut col: i64 = 0;
    let mut i: usize = 0;
    while i < entries.len()
        invariant
            i <= entries@.len(),
            (mode@, line, col) == state_reply(entries@.subrange(0, i as int)),
        decreases entries.len() - i,
    {
        assert(entries@.subrange(0, i + 1).drop_last() =~= entries@.subrange(0, i as int));
        let (k, x) = &entries[i];
        if key_named_exec(k, "mode") {
            if matches!(x, MsgValue::Str(_)) {
                mode = match value_as_str(x) {
                    Some(m) => String::from_str(m.as_str()),
                    None => String::from_str("n"),
                };
            }
        } else if key_named_exec(k, "line") {
            line = match value_as_i64(x) {
                Some(n) => n,
                None => 1,
            };
        } else if key_named_exec(k, "col") {
            col = match value_as_i64(x) {
                Some(n) => n,
                None => 0,
            };
        }
        i = i + 1;
    }
    assert(entries@.subrange(0, i as int) =~= entries@);
    Ok((mode, line, col))
}

// ---------------------------------------------------------------------
// Reload reply
// ---------------------------------------------------------------------

/// The reply of the plugin's Lua `reload_buffer()`: the file's lines as
/// read from disk, the buffer's changedtick and the cursor (line from 1).
pub struct ReloadReply {
    pub lines: Vec<String>,
    pub tick: i64,
    pub cursor: Option<(i64, i64)>,
}

/// The reply as values.
pub open spec fn reload_view(r: ReloadReply) -> (Seq<Seq<char>>, i64, Option<(i64, i64)>) {
    (crate::handler::strings_view(r.lines@), r.tick, r.cursor)
}

/// The reply read from its entries in order, a later entry overriding an
/// earlier one: `lines` counts when it holds an array (its valid strings
/// are kept), `tick` when it holds an integer (0 for one outside `i64`),
/// `cursor` when it holds an array of at least two items (a line that is
/// not an `i64` reads as 1, a column as 0). Without such entries there are
/// no lines, the tick is 0 and there is no cursor.
pub open spec fn reload_reply(entries: Seq<(MsgValue, MsgValue)>) -> (Seq<Seq<char>>, i64, Option<(i64, i64)>)
    decreases entries.len(),
{
    if entries.len() == 0 {
        (Seq::empty(), 0, None)
    } else {
        let before = reload_reply(entries.drop_last());
        let (k, v) = entries.last();
        if key_named(k, "lines"@) && v is Array {
            (crate::handler::string_items(v->Array_0@), before.1, before.2)
        } else if key_named(k, "tick"@) && v is Integer {
            (before.0, match as_i64(v) {
                Some(t) => t,
                None => 0,
            }, before.2)
        } else if key_named(k, "cursor"@) && v is Array && v->Array_0@.len() >= 2 {
            (before.0, before.1, Some((match as_i64(v->Array_0@[0]) {
                Some(x) => x,
                None => 1,
            }, match as_i64(v->Array_0@[1]) {
                Some(x) => x,
                None => 0,
            })))
        } else {
            before
        }
    }
}

/// Reads the reply of `reload_buffer()`: a table gives its content (see
/// `reload_reply`); anything else gives nothing.
pub fn parse_reload_reply(v: &MsgValue) -> (r: Option<ReloadReply>)
    ensures
        match v {
            MsgValue::Table(entries) => r is Some && reload_view(r->0) == reload_reply(entries@),
            _ => r is None,
        },
{
    let entries = match v {
        MsgValue::Table(e) => e,
        _ => {
            return None;
        },
    };
    let mut lines: Vec<String> = Vec::new();
    let mut tick: i64 = 0;
    let mut cursor: Option<(i64, i64)> = None;
    let mut i: usize = 0;
    while i < entries.len()
        invariant
            i <= entries@.len(),
            (crate::handler::strings_view(lines@), tick, cursor) == reload_reply(entries@.subrange(0, i as int)),
        decreases entries.len() - i,
    {
        assert(entries@.subrange(0, i + 1).drop_last() =~= entries@.subrange(0, i as int));
        let (k, x) = &entries[i];
        if key_named_exec(k, "lines") && matches!(x, MsgValue::Array(_)) {
            if let MsgValue::Array(items) = x {
                lines = crate::handler::string_items_exec(items);
            }
        } else if key_named_exec(k, "tick") && matches!(x, MsgValue::Integer(_)) {
            tick = match value_as_i64(x) {
                Some(t) => t,
                None => 0,
            };
        } else if key_named_exec(k, "cursor") && matches!(x, MsgValue::Array(_)) {
            if let MsgValue::Array(items) = x {
                if items.len() >= 2 {
                    let row = match value_as_i64(&items[0]) {
                        Some(n) => n,
                        None => 1,
                    };
                    let col = match value_as_i64(&items[1]) {
                        Some(n) => n,
                        None => 0,
                    };
                    cursor = Some((row, col));
                }
            }
        }
        i = i + 1;
    }
    assert(entries@.subrange(0, i as int) =~= entries@);
    Some(ReloadReply { lines, tick, cursor })
}

/// The 0-based caret line for a cursor line counted from 1 (the first
/// line for anything before it).
pub fn reload_caret_line(row: i64) -> (l: i64)
    requires
        row > i64::MIN,
    ensures
        l == if row - 1 > 0 { row - 1 } else { 0 },
{
    if row - 1 > 0 {
        row - 1
    } else {
        0
    }
}

} // verus!
