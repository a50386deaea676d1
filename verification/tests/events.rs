use godot_neovim::events::{ParseErrorOf, RedrawEvent};
use godot_neovim::msgpack::MsgValue;

fn s(x: &str) -> MsgValue {
    MsgValue::Str(Some(x.to_string()))
}

fn n(x: i128) -> MsgValue {
    MsgValue::Integer(x)
}

#[test]
fn test_parse_mode_change() {
    let event_data = vec![s("mode_change"), MsgValue::Array(vec![s("i"), n(1)])];

    let events = RedrawEvent::parse(&event_data).unwrap();
    assert_eq!(events.len(), 1);
    assert_eq!(
        events[0],
        RedrawEvent::ModeChange {
            mode: "i".to_string(),
            mode_index: 1
        }
    );
}

#[test]
fn test_parse_grid_cursor_goto() {
    let event_data = vec![
        s("grid_cursor_goto"),
        MsgValue::Array(vec![n(1), n(10), n(5)]),
    ];

    let events = RedrawEvent::parse(&event_data).unwrap();
    assert_eq!(events.len(), 1);
    assert_eq!(
        events[0],
        RedrawEvent::GridCursorGoto {
            grid: 1,
            row: 10,
            col: 5
        }
    );
}

#[test]
fn test_parse_win_viewport() {
    let event_data = vec![
        s("win_viewport"),
        MsgValue::Array(vec![n(1), n(1000), n(10), n(30), n(15), n(5), n(100), n(0)]),
    ];

    let events = RedrawEvent::parse(&event_data).unwrap();
    assert_eq!(events.len(), 1);
    assert_eq!(
        events[0],
        RedrawEvent::WinViewport {
            grid: 1,
            win: 1000,
            topline: 10,
            botline: 30,
            curline: 15,
            curcol: 5,
            line_count: 100,
            scroll_delta: 0,
        }
    );
}

#[test]
fn test_parse_flush() {
    let event_data = vec![s("flush")];

    let events = RedrawEvent::parse(&event_data).unwrap();
    assert_eq!(events.len(), 1);
    assert_eq!(events[0], RedrawEvent::Flush);
}

#[test]
fn test_parse_unknown() {
    let event_data = vec![s("some_unknown_event")];

    let events = RedrawEvent::parse(&event_data).unwrap();
    assert_eq!(events.len(), 1);
    assert_eq!(
        events[0],
        RedrawEvent::Unknown("some_unknown_event".to_string())
    );
}

#[test]
fn parse_reports_missing_event_name() {
    let err = RedrawEvent::parse(&[n(3)]).unwrap_err();
    assert_eq!(
        err,
        ParseErrorOf {
            event_name: "unknown".to_string(),
            reason: "Missing event name".to_string()
        }
    );
    assert!(RedrawEvent::parse(&[]).is_err());
}

#[test]
fn parse_reports_short_cursor_item() {
    let event_data = vec![s("grid_cursor_goto"), MsgValue::Array(vec![n(1), n(2)])];
    let err = RedrawEvent::parse(&event_data).unwrap_err();
    assert_eq!(err.event_name, "grid_cursor_goto");
    assert_eq!(err.reason, "Expected 3 values, got 2");
}

#[test]
fn parse_reports_bad_cursor_fields() {
    let bad_grid = vec![s("grid_cursor_goto"), MsgValue::Array(vec![n(-1), n(2), n(3)])];
    assert_eq!(RedrawEvent::parse(&bad_grid).unwrap_err().reason, "Invalid grid id");
    let bad_row = vec![s("grid_cursor_goto"), MsgValue::Array(vec![n(1), s("x"), n(3)])];
    assert_eq!(RedrawEvent::parse(&bad_row).unwrap_err().reason, "Invalid row");
    let bad_col = vec![s("grid_cursor_goto"), MsgValue::Array(vec![n(1), n(2), MsgValue::Nil])];
    assert_eq!(RedrawEvent::parse(&bad_col).unwrap_err().reason, "Invalid col");
}

#[test]
fn parse_reports_short_viewport_and_defaults_fields() {
    let short = vec![s("win_viewport"), MsgValue::Array(vec![n(1), n(1), n(1), n(1), n(1), n(1), n(1)])];
    assert_eq!(RedrawEvent::parse(&short).unwrap_err().reason, "Expected 8 values, got 7");
    let odd = vec![
        s("win_viewport"),
        MsgValue::Array(vec![n(2), s("w"), n(3), n(4), n(5), n(6), n(7), n(u64::MAX as i128)]),
    ];
    let events = RedrawEvent::parse(&odd).unwrap();
    assert_eq!(
        events[0],
        RedrawEvent::WinViewport {
            grid: 2,
            win: 0,
            topline: 3,
            botline: 4,
            curline: 5,
            curcol: 6,
            line_count: 7,
            scroll_delta: 0,
        }
    );
}

#[test]
fn parse_mode_change_items_in_order_and_skips_non_arrays() {
    let event_data = vec![
        s("mode_change"),
        MsgValue::Array(vec![s("n"), n(0)]),
        MsgValue::Nil,
        MsgValue::Array(vec![s("v")]),
    ];
    let events = RedrawEvent::parse(&event_data).unwrap();
    assert_eq!(events.len(), 2);
    assert_eq!(events[0], RedrawEvent::ModeChange { mode: "n".to_string(), mode_index: 0 });
    assert_eq!(events[1], RedrawEvent::ModeChange { mode: "v".to_string(), mode_index: 0 });
    let bad = vec![s("mode_change"), MsgValue::Array(vec![n(1)])];
    assert_eq!(RedrawEvent::parse(&bad).unwrap_err().reason, "Missing mode name");
}
