//! Typed redraw events from Neovim's UI protocol.

use crate::chars::{chars_of, concat, string_of};
use crate::msgpack::{as_i64, as_str, as_u64, value_as_i64, value_as_str, value_as_u64, MsgValue};
use crate::numbers::{decimal, u64_decimal};
use vstd::prelude::*;

verus! {

/// Redraw events the editor reacts to. `T` is the text type.
#[derive(Debug, PartialEq)]
pub enum RedrawEventOf<T> {
    /// Mode changed (mode name, mode index).
    ModeChange { mode: T, mode_index: u64 },
    /// Cursor moved on a grid.
    GridCursorGoto { grid: u64, row: u64, col: u64 },
    /// A window's viewport changed (multigrid).
    WinViewport {
        grid: u64,
        win: i64,
        topline: i64,
        botline: i64,
        curline: i64,
        curcol: i64,
        line_count: i64,
        scroll_delta: i64,
    },
    /// End of a redraw batch.
    Flush,
    /// Any other event, by name.
    Unknown(T),
}

pub type RedrawEvent = RedrawEventOf<String>;

pub type EventView = RedrawEventOf<Seq<char>>;

/// Why an event could not be read.
#[derive(Debug, PartialEq)]
pub struct ParseErrorOf<T> {
    pub event_name: T,
    pub reason: T,
}

pub type ParseError = ParseErrorOf<String>;

pub type ErrorView = ParseErrorOf<Seq<char>>;

pub open spec fn event_view(e: RedrawEvent) -> EventView {
    match e {
        RedrawEventOf::ModeChange { mode, mode_index } => RedrawEventOf::ModeChange {
            mode: mode@,
            mode_index,
        },
        RedrawEventOf::GridCursorGoto { grid, row, col } => RedrawEventOf::GridCursorGoto {
            grid,
            row,
            col,
        },
        RedrawEventOf::WinViewport {
            grid,
            win,
            topline,
            botline,
            curline,
            curcol,
            line_count,
            scroll_delta,
        } => RedrawEventOf::WinViewport {
            grid,
            win,
            topline,
            botline,
            curline,
            curcol,
            line_count,
            scroll_delta,
        },
        RedrawEventOf::Flush => RedrawEventOf::Flush,
        RedrawEventOf::Unknown(n) => RedrawEventOf::Unknown(n@),
    }
}

pub open spec fn error_view(e: ParseError) -> ErrorView {
    ParseErrorOf { event_name: e.event_name@, reason: e.reason@ }
}

pub open spec fn err(name: Seq<char>, reason: Seq<char>) -> ErrorView {
    ParseErrorOf { event_name: name, reason }
}

/// Which event kind a list of items belongs to.
pub enum EventKind {
    ModeChange,
    GridCursorGoto,
    WinViewport,
}

pub open spec fn i64_or_zero(items: Seq<MsgValue>, i: int) -> i64 {
    if i < items.len() && as_i64(items[i]) is Some {
        as_i64(items[i])->0
    } else {
        0
    }
}

/// One `[mode_name, mode_index]` item.
pub open spec fn parse_mode_change_spec(v: Option<MsgValue>) -> Result<Option<EventView>, ErrorView> {
    match v {
        Some(MsgValue::Array(info)) => {
            let items = info@;
            if items.len() > 0 && as_str(items[0]) is Some {
                let index = if items.len() > 1 && as_u64(items[1]) is Some {
                    as_u64(items[1])->0
                } else {
                    0
                };
                Ok(Some(RedrawEventOf::ModeChange { mode: as_str(items[0])->0, mode_index: index }))
            } else {
                Err(err("mode_change"@, "Missing mode name"@))
            }
        },
        _ => Ok(None),
    }
}

/// One `[grid, row, col]` item.
pub open spec fn parse_grid_cursor_goto_spec(v: Option<MsgValue>) -> Result<Option<EventView>, ErrorView> {
    match v {
        Some(MsgValue::Array(info)) => {
            let items = info@;
            if items.len() < 3 {
                Err(err("grid_cursor_goto"@, "Expected 3 values, got "@ + decimal(items.len())))
            } else if as_u64(items[0]) is None {
                Err(err("grid_cursor_goto"@, "Invalid grid id"@))
            } else if as_u64(items[1]) is None {
                Err(err("grid_cursor_goto"@, "Invalid row"@))
            } else if as_u64(items[2]) is None {
                Err(err("grid_cursor_goto"@, "Invalid col"@))
            } else {
                Ok(Some(RedrawEventOf::GridCursorGoto {
                    grid: as_u64(items[0])->0,
                    row: as_u64(items[1])->0,
                    col: as_u64(items[2])->0,
                }))
            }
        },
        _ => Ok(None),
    }
}

/// One `[grid, win, topline, botline, curline, curcol, line_count,
/// scroll_delta]` item; unreadable numbers other than the grid read as 0.
pub open spec fn parse_win_viewport_spec(v: Option<MsgValue>) -> Result<Option<EventView>, ErrorView> {
    match v {
        Some(MsgValue::Array(info)) => {
            let items = info@;
            if items.len() < 8 {
                Err(err("win_viewport"@, "Expected 8 values, got "@ + decimal(items.len())))
            } else if as_u64(items[0]) is None {
                Err(err("win_viewport"@, "Invalid grid id"@))
            } else {
                Ok(Some(RedrawEventOf::WinViewport {
                    grid: as_u64(items[0])->0,
                    win: i64_or_zero(items, 1),
                    topline: i64_or_zero(items, 2),
                    botline: i64_or_zero(items, 3),
                    curline: i64_or_zero(items, 4),
                    curcol: i64_or_zero(items, 5),
                    line_count: i64_or_zero(items, 6),
                    scroll_delta: i64_or_zero(items, 7),
                }))
            }
        },
        _ => Ok(None),
    }
}

pub open spec fn parse_item_spec(kind: EventKind, v: MsgValue) -> Result<Option<EventView>, ErrorView> {
    match kind {
        EventKind::ModeChange => parse_mode_change_spec(Some(v)),
        EventKind::GridCursorGoto => parse_grid_cursor_goto_spec(Some(v)),
        EventKind::WinViewport => parse_win_viewport_spec(Some(v)),
    }
}

/// The events of a list of items, in order; the first bad item's error.
pub open spec fn parse_items_spec(kind: EventKind, items: Seq<MsgValue>) -> Result<Seq<EventView>, ErrorView>
    decreases items.len(),
{
    if items.len() == 0 {
        Ok(Seq::empty())
    } else {
        match parse_items_spec(kind, items.drop_last()) {
            Err(e) => Err(e),
            Ok(evs) => match parse_item_spec(kind, items.last()) {
                Err(e) => Err(e),
                Ok(None) => Ok(evs),
                Ok(Some(ev)) => Ok(evs.push(ev)),
            },
        }
    }
}

/// The events in one redraw entry `[name, item, item, ...]`.
pub open spec fn parse_spec(data: Seq<MsgValue>) -> Result<Seq<EventView>, ErrorView> {
    if data.len() == 0 || as_str(data[0]) is None {
        Err(err("unknown"@, "Missing event name"@))
    } else {
        let name = as_str(data[0])->0;
        let items = data.subrange(1, data.len() as int);
        if name == "mode_change"@ {
            parse_items_spec(EventKind::ModeChange, items)
        } else if name == "grid_cursor_goto"@ {
            parse_items_spec(EventKind::GridCursorGoto, items)
        } else if name == "win_viewport"@ {
            parse_items_spec(EventKind::WinViewport, items)
        } else if name == "flush"@ {
            Ok(seq![RedrawEventOf::Flush])
        } else {
            Ok(seq![RedrawEventOf::Unknown(name)])
        }
    }
}

pub open spec fn result_view(r: Result<Vec<RedrawEvent>, ParseError>) -> Result<Seq<EventView>, ErrorView> {
    match r {
        Ok(v) => Ok(v@.map_values(|e: RedrawEvent| event_view(e))),
        Err(e) => Err(error_view(e)),
    }
}

pub open spec fn item_result_view(r: Result<Option<RedrawEvent>, ParseError>) -> Result<Option<EventView>, ErrorView> {
    match r {
        Ok(Some(e)) => Ok(Some(event_view(e))),
        Ok(None) => Ok(None),
        Err(e) => Err(error_view(e)),
    }
}

fn make_error(name: &str, reason: &str) -> (e: ParseError)
    ensures
        error_view(e) == err(name@, reason@),
{
    ParseErrorOf { event_name: String::from_str(name), reason: String::from_str(reason) }
}

fn count_error(name: &str, prefix: &str, n: usize) -> (e: ParseError)
    ensures
        error_view(e) == err(name@, prefix@ + decimal(n as nat)),
{
    let reason = concat(&chars_of(prefix), &u64_decimal(n as u64));
    ParseErrorOf { event_name: String::from_str(name), reason: string_of(&reason) }
}

fn copy_string(s: &String) -> (r: String)
    ensures
        r@ == s@,
{
    String::from_str(s.as_str())
}

fn i64_or_zero_exec(items: &Vec<MsgValue>, i: usize) -> (r: i64)
    ensures
        r == i64_or_zero(items@, i as int),
{
    if i < items.len() {
        match value_as_i64(&items[i]) {
            Some(x) => x,
            None => 0,
        }
    } else {
        0
    }
}

impl RedrawEventOf<String> {
    fn parse_mode_change(value: Option<&MsgValue>) -> (r: Result<Option<RedrawEvent>, ParseError>)
        ensures
            item_result_view(r) == parse_mode_change_spec(match value { Some(v) => Some(*v), None => None }),
    {
        let info = match value {
            Some(MsgValue::Array(info)) => info,
            _ => {
                return Ok(None);
            },
        };
        if info.len() == 0 {
            return Err(make_error("mode_change", "Missing mode name"));
        }
        let mode = match value_as_str(&info[0]) {
            Some(s) => copy_string(s),
            None => {
                return Err(make_error("mode_change", "Missing mode name"));
            },
        };
        let mode_index = if info.len() > 1 {
            match value_as_u64(&info[1]) {
                Some(x) => x,
                None => 0,
            }
        } else {
            0
        };
        Ok(Some(RedrawEventOf::ModeChange { mode, mode_index }))
    }

    fn parse_grid_cursor_goto(value: Option<&MsgValue>) -> (r: Result<Option<RedrawEvent>, ParseError>)
        ensures
            item_result_view(r) == parse_grid_cursor_goto_spec(match value { Some(v) => Some(*v), None => None }),
    {
        let info = match value {
            Some(MsgValue::Array(info)) => info,
            _ => {
                return Ok(None);
            },
        };
        if info.len() < 3 {
            return Err(count_error("grid_cursor_goto", "Expected 3 values, got ", info.len()));
        }
        let grid = match value_as_u64(&info[0]) {
            Some(x) => x,
            None => {
                return Err(make_error("grid_cursor_goto", "Invalid grid id"));
            },
        };
        let row = match value_as_u64(&info[1]) {
            Some(x) => x,
            None => {
                return Err(make_error("grid_cursor_goto", "Invalid row"));
            },
        };
        let col = match value_as_u64(&info[2]) {
            Some(x) => x,
            None => {
                return Err(make_error("grid_cursor_goto", "Invalid col"));
            },
        };
        Ok(Some(RedrawEventOf::GridCursorGoto { grid, row, col }))
    }

    fn parse_win_viewport(value: Option<&MsgValue>) -> (r: Result<Option<RedrawEvent>, ParseError>)
        ensures
            item_result_view(r) == parse_win_viewport_spec(match value { Some(v) => Some(*v), None => None }),
    {
        let info = match value {
            Some(MsgValue::Array(info)) => info,
            _ => {
                return Ok(None);
            },
        };
        if info.len() < 8 {
            return Err(count_error("win_viewport", "Expected 8 values, got ", info.len()));
        }
        let grid = match value_as_u64(&info[0]) {
            Some(x) => x,
            None => {
                return Err(make_error("win_viewport", "Invalid grid id"));
            },
        };
        Ok(Some(RedrawEventOf::WinViewport {
            grid,
            win: i64_or_zero_exec(info, 1),
            topline: i64_or_zero_exec(info, 2),
            botline: i64_or_zero_exec(info, 3),
            curline: i64_or_zero_exec(info, 4),
            curcol: i64_or_zero_exec(info, 5),
            line_count: i64_or_zero_exec(info, 6),
            scroll_delta: i64_or_zero_exec(info, 7),
        }))
    }

    fn parse_item(kind: &EventKind, v: &MsgValue) -> (r: Result<Option<RedrawEvent>, ParseError>)
        ensures
            item_result_view(r) == parse_item_spec(*kind, *v),
    {
        match kind {
            EventKind::ModeChange => Self::parse_mode_change(Some(v)),
            EventKind::GridCursorGoto => Self::parse_grid_cursor_goto(Some(v)),
            EventKind::WinViewport => Self::parse_win_viewport(Some(v)),
        }
    }

    fn parse_items(kind: &EventKind, data: &[MsgValue]) -> (r: Result<Vec<RedrawEvent>, ParseError>)
        requires
            data@.len() >= 1,
        ensures
            result_view(r) == parse_items_spec(*kind, data@.subrange(1, data@.len() as int)),
    {
        let mut events: Vec<RedrawEvent> = Vec::new();
        let mut i: usize = 1;
        assert(data@.subrange(1, 1) =~= Seq::<MsgValue>::empty());
        assert(events@.map_values(|e: RedrawEvent| event_view(e)) =~= Seq::<EventView>::empty());
        while i < data.len()
            invariant
                1 <= i <= data@.len(),
                parse_items_spec(*kind, data@.subrange(1, i as int)) == Ok::<Seq<EventView>, ErrorView>(
                    events@.map_values(|e: RedrawEvent| event_view(e)),
                ),
            decreases data.len() - i,
        {
            let ghost prefix = data@.subrange(1, i as int);
            assert(data@.subrange(1, i + 1).drop_last() =~= prefix);
            assert(data@.subrange(1, i + 1).last() == data@[i as int]);
            match Self::parse_item(kind, &data[i]) {
                Err(e) => {
                    proof {
                        lemma_items_err_extends(*kind, data@.subrange(1, data@.len() as int), (i - 1) as int);
                        assert(data@.subrange(1, data@.len() as int).subrange(0, i as int) =~= data@.subrange(1, i + 1));
                    }
                    return Err(e);
                },
                Ok(None) => {},
                Ok(Some(ev)) => {
                    let ghost old_events = events@;
                    events.push(ev);
                    assert(events@.map_values(|e: RedrawEvent| event_view(e)) =~= old_events.map_values(
                        |e: RedrawEvent| event_view(e),
                    ).push(event_view(ev)));
                },
            }
            i = i + 1;
        }
        assert(data@.subrange(1, i as int) =~= data@.subrange(1, data@.len() as int));
        Ok(events)
    }

    /// Parse one redraw entry `[name, item, item, ...]` into its events.
    pub fn parse(event_data: &[MsgValue]) -> (r: Result<Vec<RedrawEvent>, ParseError>)
        ensures
            result_view(r) == parse_spec(event_data@),
    {
        if event_data.len() == 0 {
            return Err(make_error("unknown", "Missing event name"));
        }
        let name = match value_as_str(&event_data[0]) {
            Some(s) => chars_of(s.as_str()),
            None => {
                return Err(make_error("unknown", "Missing event name"));
            },
        };
        if crate::chars::eq_str(&name, "mode_change") {
            Self::parse_items(&EventKind::ModeChange, event_data)
        } else if crate::chars::eq_str(&name, "grid_cursor_goto") {
            Self::parse_items(&EventKind::GridCursorGoto, event_data)
        } else if crate::chars::eq_str(&name, "win_viewport") {
            Self::parse_items(&EventKind::WinViewport, event_data)
        } else if crate::chars::eq_str(&name, "flush") {
            let mut v: Vec<RedrawEvent> = Vec::new();
            v.push(RedrawEventOf::Flush);
            assert(v@.map_values(|e: RedrawEvent| event_view(e)) =~= seq![RedrawEventOf::<Seq<char>>::Flush]);
            Ok(v)
        } else {
            let mut v: Vec<RedrawEvent> = Vec::new();
            let n = string_of(&name);
            v.push(RedrawEventOf::Unknown(n));
            assert(v@.map_values(|e: RedrawEvent| event_view(e)) =~= seq![RedrawEventOf::<Seq<char>>::Unknown(name@)]);
            Ok(v)
        }
    }
}

/// An error in an item makes the whole list an error (the first one).
proof fn lemma_items_err_extends(kind: EventKind, items: Seq<MsgValue>, i: int)
    requires
        0 <= i < items.len(),
        parse_items_spec(kind, items.subrange(0, i + 1)) is Err,
    ensures
        parse_items_spec(kind, items) == parse_items_spec(kind, items.subrange(0, i + 1)),
    decreases items.len() - i,
{
    if i + 1 < items.len() {
        assert(items.drop_last().subrange(0, i + 1) =~= items.subrange(0, i + 1));
        lemma_items_err_extends(kind, items.drop_last(), i);
    } else {
        assert(items.subrange(0, i + 1) =~= items);
    }
}

} // verus!
