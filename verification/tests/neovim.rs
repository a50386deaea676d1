use godot_neovim::handler::{notification_kind, NotificationKind};
use godot_neovim::keymap::{dispatch_key_builtin, BuiltinDispatch, KeyAction};
use godot_neovim::msgpack::MsgValue;
use godot_neovim::version::{parse_api_info_version, NeovimVersion};

fn s(x: &str) -> MsgValue {
    MsgValue::Str(Some(x.to_string()))
}

#[test]
fn version_requirements() {
    let v = NeovimVersion { major: 0, minor: 10, patch: 2 };
    assert!(v.meets_requirement(0, 9, 0));
    assert!(v.meets_requirement(0, 10, 2));
    assert!(!v.meets_requirement(0, 10, 3));
    assert!(!v.meets_requirement(1, 0, 0));
    assert!(NeovimVersion { major: 1, minor: 0, patch: 0 }.meets_requirement(0, 99, 99));
    assert_eq!(v.to_version_string(), "0.10.2");
    assert_eq!(NeovimVersion::default().to_version_string(), "0.0.0");
}

#[test]
fn api_info() {
    let info = vec![
        MsgValue::Integer(1),
        MsgValue::Table(vec![
            (s("functions"), MsgValue::Array(vec![])),
            (
                s("version"),
                MsgValue::Table(vec![
                    (s("major"), MsgValue::Integer(0)),
                    (s("minor"), MsgValue::Integer(11)),
                    (s("patch"), MsgValue::Integer(1)),
                    (s("api_level"), MsgValue::Integer(13)),
                ]),
            ),
        ]),
    ];
    assert_eq!(
        parse_api_info_version(&info),
        Some(NeovimVersion { major: 0, minor: 11, patch: 1 })
    );
    // Missing or non-numeric parts read as 0.
    let info = vec![
        MsgValue::Integer(1),
        MsgValue::Table(vec![(s("version"), MsgValue::Table(vec![(s("minor"), s("x"))]))]),
    ];
    assert_eq!(parse_api_info_version(&info), Some(NeovimVersion::default()));
    assert_eq!(parse_api_info_version(&vec![MsgValue::Integer(1)]), None);
    let info = vec![MsgValue::Integer(1), MsgValue::Table(vec![(s("version"), MsgValue::Nil)])];
    assert_eq!(parse_api_info_version(&info), None);
}

#[test]
fn notification_kinds() {
    assert_eq!(notification_kind("redraw"), NotificationKind::Redraw);
    assert_eq!(notification_kind("nvim_buf_lines_event"), NotificationKind::BufLines);
    assert_eq!(notification_kind("nvim_buf_changedtick_event"), NotificationKind::BufChangedTick);
    assert_eq!(notification_kind("nvim_buf_detach_event"), NotificationKind::BufDetach);
    assert_eq!(notification_kind("other"), NotificationKind::Ignored);
}

#[test]
fn builtin_keymap() {
    assert!(matches!(dispatch_key_builtin("n", "<C-f>"), BuiltinDispatch::Action(KeyAction::PageDown)));
    assert!(matches!(dispatch_key_builtin("n", "gd"), BuiltinDispatch::Action(KeyAction::GotoDefinition)));
    assert!(matches!(dispatch_key_builtin("v", "gv"), BuiltinDispatch::Action(_)));
    assert!(matches!(dispatch_key_builtin("V", "*"), BuiltinDispatch::Action(KeyAction::SearchWordForward)));
    match dispatch_key_builtin("i", "<C-f>") {
        BuiltinDispatch::SendKeys(k) => assert_eq!(k, "<C-f>"),
        _ => panic!("insert mode sends keys"),
    }
    match dispatch_key_builtin("v", "gd") {
        BuiltinDispatch::SendKeys(k) => assert_eq!(k, "gd"),
        _ => panic!("unbound in visual mode"),
    }
    match dispatch_key_builtin("n", "x") {
        BuiltinDispatch::SendKeys(k) => assert_eq!(k, "x"),
        _ => panic!("unbound key"),
    }
}

use godot_neovim::handler::{
    handle_redraw, parse_buf_changedtick_event, parse_buf_detach_event, parse_buf_lines_event,
    BufEvent, NeovimState,
};

#[test]
fn redraw_updates_state() {
    let mut st = NeovimState::initial();
    // A notification holds batches of entries `[name, item, ...]`.
    let batch = || MsgValue::Array(vec![
        s("mode_change"),
        MsgValue::Array(vec![s("insert"), MsgValue::Integer(2)]),
    ]);
    let cursor = || MsgValue::Array(vec![
        s("grid_cursor_goto"),
        MsgValue::Array(vec![MsgValue::Integer(1), MsgValue::Integer(4), MsgValue::Integer(7)]),
    ]);
    let flush = || MsgValue::Array(vec![s("flush"), MsgValue::Array(vec![])]);
    // Changes without a flush are not announced yet.
    assert!(!handle_redraw(&mut st, &vec![MsgValue::Array(vec![batch(), cursor()])]));
    assert_eq!(st.mode, "insert");
    assert_eq!(st.cursor, (4, 7));
    assert!(handle_redraw(&mut st, &vec![MsgValue::Array(vec![cursor()]), MsgValue::Array(vec![flush()])]));
    // A flush alone announces nothing.
    assert!(!handle_redraw(&mut st, &vec![MsgValue::Array(vec![flush()])]));
    // Malformed entries are passed over.
    assert!(handle_redraw(&mut st, &vec![MsgValue::Nil, MsgValue::Array(vec![MsgValue::Nil, batch(), flush()])]));
}

#[test]
fn buffer_notifications() {
    let args = vec![
        MsgValue::Ext(0, vec![3]),
        MsgValue::Integer(12),
        MsgValue::Integer(0),
        MsgValue::Integer(-1),
        MsgValue::Array(vec![s("a"), s("b")]),
        MsgValue::Boolean(false),
    ];
    match parse_buf_lines_event(&args) {
        Some(BufEvent::Lines(e)) => {
            assert_eq!((e.buf, e.changedtick, e.first_line, e.last_line), (3, 12, 0, -1));
            assert_eq!(e.line_data, vec!["a", "b"]);
            assert!(!e.more);
        },
        other => panic!("{:?}", other),
    }
    let mut short = args;
    short.pop();
    assert!(parse_buf_lines_event(&short).is_none());
    match parse_buf_changedtick_event(&vec![MsgValue::Integer(2), MsgValue::Integer(30)]) {
        Some(BufEvent::ChangedTick { buf, tick }) => assert_eq!((buf, tick), (2, 30)),
        other => panic!("{:?}", other),
    }
    match parse_buf_detach_event(&vec![MsgValue::Integer(5)]) {
        Some(BufEvent::Detach { buf }) => assert_eq!(buf, 5),
        other => panic!("{:?}", other),
    }
    assert!(parse_buf_detach_event(&vec![s("x")]).is_none());
}
