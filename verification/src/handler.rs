//! Decisions taken on Neovim's RPC notifications.
//!
//! The editor receives notifications on its I/O task and hands their
//! decoded arguments here: redraw batches update the shared UI state, and
//! buffer notifications become [`BufEvent`]s.

use crate::events::{event_view, parse_spec, EventView, RedrawEvent, RedrawEventOf};
use crate::msgpack::{as_bool, as_i64, as_str, value_as_bool, value_as_i64, value_as_str, MsgValue};
use vstd::prelude::*;

verus! {

/// State shared between the notification handler and the editor.
#[derive(Debug)]
pub struct NeovimStateOf<T> {
    /// Current mode (`n`, `i`, `v`, ...).
    pub mode: T,
    /// Cursor position (row, column) on the grid, 0-indexed.
    pub cursor: (i64, i64),
    /// Grid the cursor is on.
    pub cursor_grid: i64,
}

pub type NeovimState = NeovimStateOf<String>;

pub type StateModel = NeovimStateOf<Seq<char>>;

pub open spec fn state_view(s: NeovimState) -> StateModel {
    NeovimStateOf { mode: s.mode@, cursor: s.cursor, cursor_grid: s.cursor_grid }
}

impl NeovimStateOf<String> {
    /// Normal mode, cursor at the origin of grid 1.
    pub fn initial() -> (s: NeovimState)
        ensures
            state_view(s) == (NeovimStateOf { mode: "n"@, cursor: (0i64, 0i64), cursor_grid: 1i64 }),
    {
        NeovimStateOf { mode: String::from_str("n"), cursor: (0, 0), cursor_grid: 1 }
    }
}

/// The events of one redraw entry, or none when it is malformed.
pub open spec fn entry_events(raw: MsgValue) -> Seq<EventView> {
    match raw {
        MsgValue::Array(d) => match parse_spec(d@) {
            Ok(evs) => evs,
            Err(_) => Seq::empty(),
        },
        _ => Seq::empty(),
    }
}

pub open spec fn entries_events(raws: Seq<MsgValue>) -> Seq<EventView>
    decreases raws.len(),
{
    if raws.len() == 0 {
        Seq::empty()
    } else {
        entries_events(raws.drop_last()) + entry_events(raws.last())
    }
}

pub open spec fn batch_events(arg: MsgValue) -> Seq<EventView> {
    match arg {
        MsgValue::Array(raws) => entries_events(raws@),
        _ => Seq::empty(),
    }
}

/// Every event of a redraw notification, in order.
pub open spec fn redraw_events(args: Seq<MsgValue>) -> Seq<EventView>
    decreases args.len(),
{
    if args.len() == 0 {
        Seq::empty()
    } else {
        redraw_events(args.drop_last()) + batch_events(args.last())
    }
}

/// Progress through a redraw notification: the state, whether it changed,
/// and whether a flush came after a change.
pub struct RedrawProgress {
    pub st: StateModel,
    pub updated: bool,
    pub flagged: bool,
}

pub open spec fn apply_event(p: RedrawProgress, e: EventView) -> RedrawProgress {
    match e {
        RedrawEventOf::ModeChange { mode, .. } => RedrawProgress {
            st: NeovimStateOf { mode, ..p.st },
            updated: true,
            flagged: p.flagged,
        },
        RedrawEventOf::GridCursorGoto { grid, row, col } => RedrawProgress {
            st: NeovimStateOf { cursor: (row as i64, col as i64), cursor_grid: grid as i64, ..p.st },
            updated: true,
            flagged: p.flagged,
        },
        RedrawEventOf::Flush => RedrawProgress { flagged: p.flagged || p.updated, ..p },
        _ => p,
    }
}

pub open spec fn apply_events(p: RedrawProgress, evs: Seq<EventView>) -> RedrawProgress
    decreases evs.len(),
{
    if evs.len() == 0 {
        p
    } else {
        apply_event(apply_events(p, evs.drop_last()), evs.last())
    }
}

pub open spec fn redraw_result(st: StateModel, args: Seq<MsgValue>) -> RedrawProgress {
    apply_events(RedrawProgress { st, updated: false, flagged: false }, redraw_events(args))
}

proof fn lemma_apply_concat(p: RedrawProgress, a: Seq<EventView>, b: Seq<EventView>)
    ensures
        apply_events(p, a + b) == apply_events(apply_events(p, a), b),
    decreases b.len(),
{
    if b.len() == 0 {
        assert(a + b =~= a);
    } else {
        lemma_apply_concat(p, a, b.drop_last());
        assert((a + b).drop_last() =~= a + b.drop_last());
    }
}

fn apply_event_exec(st: &mut NeovimState, updated: &mut bool, flagged: &mut bool, e: &RedrawEvent)
    ensures
        ({
            let p = apply_event(
                RedrawProgress { st: state_view(*old(st)), updated: *old(updated), flagged: *old(flagged) },
                event_view(*e),
            );
            &&& state_view(*final(st)) == p.st
            &&& *final(updated) == p.updated
            &&& *final(flagged) == p.flagged
        }),
{
    match e {
        RedrawEventOf::ModeChange { mode, .. } => {
            st.mode = String::from_str(mode.as_str());
            *updated = true;
        },
        RedrawEventOf::GridCursorGoto { grid, row, col } => {
            st.cursor_grid = *grid as i64;
            st.cursor = (*row as i64, *col as i64);
            *updated = true;
        },
        RedrawEventOf::Flush => {
            if *updated {
                *flagged = true;
            }
        },
        _ => {},
    }
}

/// Apply a `redraw` notification to the shared state. Returns whether a
/// flush followed some change, i.e. whether to raise the updates flag.
/// Malformed entries are skipped.
pub fn handle_redraw(st: &mut NeovimState, args: &Vec<MsgValue>) -> (flag: bool)
    ensures
        state_view(*final(st)) == redraw_result(state_view(*old(st)), args@).st,
        flag == redraw_result(state_view(*old(st)), args@).flagged,
{
    let ghost start = RedrawProgress { st: state_view(*st), updated: false, flagged: false };
    let mut updated = false;
    let mut flagged = false;
    let mut i: usize = 0;
    while i < args.len()
        invariant
            i <= args@.len(),
            apply_events(start, redraw_events(args@.subrange(0, i as int))) == (RedrawProgress {
                st: state_view(*st),
                updated,
                flagged,
            }),
        decreases args.len() - i,
    {
        let ghost before = redraw_events(args@.subrange(0, i as int));
        assert(args@.subrange(0, i + 1).drop_last() =~= args@.subrange(0, i as int));
        proof {
            lemma_apply_concat(start, before, batch_events(args@[i as int]));
        }
        match &args[i] {
            MsgValue::Array(raws) => {
                let mut j: usize = 0;
                assert(raws@.subrange(0, 0) =~= Seq::<MsgValue>::empty());
                assert(before + entries_events(raws@.subrange(0, 0)) =~= before);
                while j < raws.len()
                    invariant
                        j <= raws@.len(),
                        apply_events(start, before + entries_events(raws@.subrange(0, j as int))) == (
                        RedrawProgress { st: state_view(*st), updated, flagged }),
                    decreases raws.len() - j,
                {
                    let ghost pre_e = entries_events(raws@.subrange(0, j as int));
                    assert(raws@.subrange(0, j + 1).drop_last() =~= raws@.subrange(0, j as int));
                    let ghost ev_j = entry_events(raws@[j as int]);
                    assert(before + entries_events(raws@.subrange(0, j + 1)) =~= (before + pre_e) + ev_j);
                    proof {
                        lemma_apply_concat(start, before + pre_e, ev_j);
                    }
                    match &raws[j] {
                        MsgValue::Array(data) => {
                            match RedrawEvent::parse(data.as_slice()) {
                                Ok(events) => {
                                    let mut k: usize = 0;
                                    let ghost evs = events@.map_values(|e: RedrawEvent| event_view(e));
                                    assert(evs.subrange(0, 0) =~= Seq::<EventView>::empty());
                                    assert((before + pre_e) + evs.subrange(0, 0) =~= before + pre_e);
                                    while k < events.len()
                                        invariant
                                            k <= events@.len(),
                                            evs == (events@.map_values(|e: RedrawEvent| event_view(e))),
                                            apply_events(start, (before + pre_e) + evs.subrange(0, k as int)) == (
                                            RedrawProgress { st: state_view(*st), updated, flagged }),
                                        decreases evs.len() - k,
                                    {
                                        let e = &events[k];
                                        let ghost prefix = (before + pre_e) + evs.subrange(0, k as int);
                                        assert((before + pre_e) + evs.subrange(0, k + 1) =~= prefix.push(event_view(*e)));
                                        assert(prefix.push(event_view(*e)).drop_last() =~= prefix);
                                        apply_event_exec(st, &mut updated, &mut flagged, e);
                                        k = k + 1;
                                    }
                                    assert(evs.subrange(0, k as int) =~= evs);
                                },
                                Err(_) => {
                                    assert(ev_j =~= Seq::<EventView>::empty());
                                    assert((before + pre_e) + ev_j =~= before + pre_e);
                                },
                            }
                        },
                        _ => {
                            assert((before + pre_e) + ev_j =~= before + pre_e);
                        },
                    }
                    j = j + 1;
                }
                assert(raws@.subrange(0, j as int) =~= raws@);
            },
            _ => {
                assert(before + batch_events(args@[i as int]) =~= before);
            },
        }
        i = i + 1;
    }
    assert(args@.subrange(0, i as int) =~= args@);
    flagged
}

/// A `nvim_buf_lines_event`: lines `first_line..last_line` were replaced
/// by `line_data` (`last_line` is -1 for "to the end").
#[derive(Debug)]
pub struct BufLinesEvent {
    pub buf: i64,
    pub changedtick: i64,
    pub first_line: i64,
    pub last_line: i64,
    pub line_data: Vec<String>,
    pub more: bool,
}

/// Buffer events from `nvim_buf_attach`.
#[derive(Debug)]
pub enum BufEvent {
    /// Buffer lines changed.
    Lines(BufLinesEvent),
    /// Only the changedtick moved.
    ChangedTick { buf: i64, tick: i64 },
    /// The buffer was detached.
    Detach { buf: i64 },
}

/// The buffer number in a notification: an integer, or an extension value
/// whose first payload byte is the number. `None` for anything else.
pub open spec fn buffer_id(v: MsgValue) -> Option<i64> {
    match v {
        MsgValue::Integer(_) => Some(if as_i64(v) is Some { as_i64(v)->0 } else { 0 }),
        MsgValue::Ext(_, data) => Some(if data@.len() > 0 { data@[0] as i64 } else { 0 }),
        _ => None,
    }
}

/// An integer argument, `dflt` when out of `i64` range; `None` when the
/// argument is not an integer.
pub open spec fn int_arg(v: MsgValue, dflt: i64) -> Option<i64> {
    match v {
        MsgValue::Integer(_) => Some(if as_i64(v) is Some { as_i64(v)->0 } else { dflt }),
        _ => None,
    }
}

/// The valid UTF-8 strings among the items, in order.
pub open spec fn string_items(items: Seq<MsgValue>) -> Seq<Seq<char>>
    decreases items.len(),
{
    if items.len() == 0 {
        Seq::empty()
    } else if as_str(items.last()) is Some {
        string_items(items.drop_last()).push(as_str(items.last())->0)
    } else {
        string_items(items.drop_last())
    }
}

pub open spec fn strings_view(v: Seq<String>) -> Seq<Seq<char>> {
    v.map_values(|s: String| s@)
}

fn buffer_id_exec(v: &MsgValue) -> (r: Option<i64>)
    ensures
        r == buffer_id(*v),
{
    match v {
        MsgValue::Integer(_) => Some(match value_as_i64(v) {
            Some(x) => x,
            None => 0,
        }),
        MsgValue::Ext(_, data) => Some(if data.len() > 0 { data[0] as i64 } else { 0 }),
        _ => None,
    }
}

fn int_arg_exec(v: &MsgValue, dflt: i64) -> (r: Option<i64>)
    ensures
        r == int_arg(*v, dflt),
{
    match v {
        MsgValue::Integer(_) => Some(match value_as_i64(v) {
            Some(x) => x,
            None => dflt,
        }),
        _ => None,
    }
}

pub(crate) fn string_items_exec(items: &Vec<MsgValue>) -> (r: Vec<String>)
    ensures
        strings_view(r@) == string_items(items@),
{
    let mut r: Vec<String> = Vec::new();
    let mut i: usize = 0;
    assert(strings_view(r@) =~= string_items(items@.subrange(0, 0)));
    while i < items.len()
        invariant
            i <= items@.len(),
            strings_view(r@) == string_items(items@.subrange(0, i as int)),
        decreases items.len() - i,
    {
        assert(items@.subrange(0, i + 1).drop_last() =~= items@.subrange(0, i as int));
        match value_as_str(&items[i]) {
            Some(s) => {
                let ghost old_r = r@;
                r.push(String::from_str(s.as_str()));
                assert(strings_view(r@) =~= strings_view(old_r).push(s@));
            },
            None => {},
        }
        i = i + 1;
    }
    assert(items@.subrange(0, i as int) =~= items@);
    r
}

/// Whether a lines notification is readable: six arguments, of the
/// right kinds.
pub open spec fn lines_event_ok(args: Seq<MsgValue>) -> bool {
    &&& args.len() >= 6
    &&& buffer_id(args[0]) is Some
    &&& int_arg(args[1], 0) is Some
    &&& int_arg(args[2], 0) is Some
    &&& int_arg(args[3], -1i64) is Some
    &&& args[4] is Array
}

/// Read `[buf, changedtick, firstline, lastline, linedata, more]`.
pub fn parse_buf_lines_event(args: &Vec<MsgValue>) -> (r: Option<BufEvent>)
    ensures
        r is Some <==> lines_event_ok(args@),
        r matches Some(BufEvent::Lines(e)) ==> ({
            &&& Some(e.buf) == buffer_id(args@[0])
            &&& Some(e.changedtick) == int_arg(args@[1], 0)
            &&& Some(e.first_line) == int_arg(args@[2], 0)
            &&& Some(e.last_line) == int_arg(args@[3], -1i64)
            &&& strings_view(e.line_data@) == string_items(args@[4]->Array_0@)
            &&& e.more == (as_bool(args@[5]) == Some(true))
        }),
        r is Some ==> r->0 is Lines,
{
    if args.len() < 6 {
        return None;
    }
    let buf = match buffer_id_exec(&args[0]) {
        Some(b) => b,
        None => {
            return None;
        },
    };
    let changedtick = match int_arg_exec(&args[1], 0) {
        Some(x) => x,
        None => {
            return None;
        },
    };
    let first_line = match int_arg_exec(&args[2], 0) {
        Some(x) => x,
        None => {
            return None;
        },
    };
    let last_line = match int_arg_exec(&args[3], -1) {
        Some(x) => x,
        None => {
            return None;
        },
    };
    let line_data = match &args[4] {
        MsgValue::Array(arr) => string_items_exec(arr),
        _ => {
            return None;
        },
    };
    let more = match value_as_bool(&args[5]) {
        Some(b) => b,
        None => false,
    };
    Some(BufEvent::Lines(BufLinesEvent { buf, changedtick, first_line, last_line, line_data, more }))
}

/// Read `[buf, changedtick]`.
pub fn parse_buf_changedtick_event(args: &Vec<MsgValue>) -> (r: Option<BufEvent>)
    ensures
        r is Some <==> (args@.len() >= 2 && buffer_id(args@[0]) is Some && int_arg(args@[1], 0) is Some),
        r matches Some(e) ==> e == (BufEvent::ChangedTick {
            buf: buffer_id(args@[0])->0,
            tick: int_arg(args@[1], 0)->0,
        }),
{
    if args.len() < 2 {
        return None;
    }
    let buf = match buffer_id_exec(&args[0]) {
        Some(b) => b,
        None => {
            return None;
        },
    };
    let tick = match int_arg_exec(&args[1], 0) {
        Some(x) => x,
        None => {
            return None;
        },
    };
    Some(BufEvent::ChangedTick { buf, tick })
}

/// Read `[buf]`.
pub fn parse_buf_detach_event(args: &Vec<MsgValue>) -> (r: Option<BufEvent>)
    ensures
        r is Some <==> (args@.len() >= 1 && buffer_id(args@[0]) is Some),
        r matches Some(e) ==> e == (BufEvent::Detach { buf: buffer_id(args@[0])->0 }),
{
    if args.len() < 1 {
        return None;
    }
    match buffer_id_exec(&args[0]) {
        Some(buf) => Some(BufEvent::Detach { buf }),
        None => None,
    }
}

/// What a notification is.
#[derive(PartialEq, Eq, Structural, Debug)]
pub enum NotificationKind {
    Redraw,
    BufLines,
    BufChangedTick,
    BufDetach,
    Ignored,
}

pub open spec fn notification_kind_spec(name: Seq<char>) -> NotificationKind {
    if name == "redraw"@ {
        NotificationKind::Redraw
    } else if name == "nvim_buf_lines_event"@ {
        NotificationKind::BufLines
    } else if name == "nvim_buf_changedtick_event"@ {
        NotificationKind::BufChangedTick
    } else if name == "nvim_buf_detach_event"@ {
        NotificationKind::BufDetach
    } else {
        NotificationKind::Ignored
    }
}

/// Classify a notification by name.
pub fn notification_kind(name: &str) -> (k: NotificationKind)
    ensures
        k == notification_kind_spec(name@),
{
    let n = crate::chars::chars_of(name);
    if crate::chars::eq_str(&n, "redraw") {
        NotificationKind::Redraw
    } else if crate::chars::eq_str(&n, "nvim_buf_lines_event") {
        NotificationKind::BufLines
    } else if crate::chars::eq_str(&n, "nvim_buf_changedtick_event") {
        NotificationKind::BufChangedTick
    } else if crate::chars::eq_str(&n, "nvim_buf_detach_event") {
        NotificationKind::BufDetach
    } else {
        NotificationKind::Ignored
    }
}

} // verus!
