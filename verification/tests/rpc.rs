use godot_neovim::msgpack::MsgValue;
use godot_neovim::rpc::{
    nvim_args, parse_changedtick, parse_keymaps, parse_mode_reply, parse_modified_flag,
    parse_position, parse_reload_reply, parse_state_reply, parse_switch_buffer_result,
    parse_visual_mode_reply, reload_caret_line,
};

fn s(x: &str) -> MsgValue {
    MsgValue::Str(Some(x.to_string()))
}

fn n(x: i128) -> MsgValue {
    MsgValue::Integer(x)
}

fn table(entries: Vec<(&str, MsgValue)>) -> MsgValue {
    MsgValue::Table(entries.into_iter().map(|(k, v)| (s(k), v)).collect())
}

#[test]
fn switch_buffer_reply() {
    let reply = table(vec![
        ("bufnr", n(3)),
        ("tick", n(12)),
        ("is_new", MsgValue::Boolean(true)),
        ("attached", MsgValue::Boolean(false)),
        ("cursor", MsgValue::Array(vec![n(5), n(2)])),
    ]);
    let r = parse_switch_buffer_result(&reply).unwrap();
    assert_eq!(r.bufnr, 3);
    assert_eq!(r.tick, 12);
    assert!(r.is_new);
    assert!(!r.attached);
    assert_eq!(r.cursor, (5, 2));

    // A cursor whose items are not numbers reads as (1, 0).
    let reply = table(vec![
        ("bufnr", n(3)),
        ("tick", n(12)),
        ("is_new", MsgValue::Boolean(true)),
        ("attached", MsgValue::Boolean(true)),
        ("cursor", MsgValue::Array(vec![MsgValue::Nil, MsgValue::Nil])),
    ]);
    assert_eq!(parse_switch_buffer_result(&reply).unwrap().cursor, (1, 0));

    let missing = table(vec![("bufnr", n(3))]);
    assert_eq!(
        parse_switch_buffer_result(&missing).err().unwrap(),
        "Invalid result from switch_to_buffer"
    );
    assert!(parse_switch_buffer_result(&n(1)).is_err());
}

#[test]
fn positions_and_flags() {
    assert_eq!(parse_position(&MsgValue::Array(vec![n(0), n(3), n(7), n(0)])), Some((2, 6)));
    assert_eq!(parse_position(&MsgValue::Array(vec![n(0), n(3)])), None);
    assert_eq!(parse_position(&s("x")), None);
    assert_eq!(parse_changedtick(&n(41)), Ok(41));
    assert_eq!(parse_changedtick(&s("x")), Err("Invalid changedtick returned".to_string()));
    assert!(parse_modified_flag(&n(1)));
    assert!(!parse_modified_flag(&n(0)));
    assert!(!parse_modified_flag(&MsgValue::Boolean(true)));
}

#[test]
fn visual_mode_and_keymaps() {
    assert_eq!(parse_visual_mode_reply(&table(vec![("mode", s("V"))])), "V");
    assert_eq!(parse_visual_mode_reply(&table(vec![("other", n(1))])), "v");
    assert_eq!(parse_visual_mode_reply(&MsgValue::Nil), "v");
    assert_eq!(
        parse_visual_mode_reply(&table(vec![("mode", MsgValue::Str(None)), ("mode", s("V"))])),
        "v"
    );
    let maps = parse_keymaps(&MsgValue::Table(vec![
        (s("<C-p>"), s("quick_open")),
        (n(1), s("x")),
        (s("<C-s>"), s("save")),
    ]));
    assert_eq!(
        maps,
        vec![
            ("<C-p>".to_string(), "quick_open".to_string()),
            ("<C-s>".to_string(), "save".to_string())
        ]
    );
    assert!(parse_keymaps(&n(3)).is_empty());
}

#[test]
fn neovim_arguments() {
    assert_eq!(nvim_args(false), vec!["--embed", "--headless", "-n"]);
    assert_eq!(nvim_args(true), vec!["--embed", "--headless", "-n", "--clean"]);
}

#[test]
fn mode_reply_defaults_and_overrides() {
    assert_eq!(parse_mode_reply(&vec![]), ("n".to_string(), false));
    let entries = vec![
        (s("mode"), s("no")),
        (s("blocking"), MsgValue::Boolean(true)),
    ];
    assert_eq!(parse_mode_reply(&entries), ("no".to_string(), true));
    // Values of the wrong kind are passed over; a later entry wins.
    let entries = vec![
        (s("mode"), s("i")),
        (s("mode"), n(3)),
        (s("blocking"), n(1)),
        (s("mode"), s("v")),
    ];
    assert_eq!(parse_mode_reply(&entries), ("v".to_string(), false));
    let entries = vec![(s("mode"), MsgValue::Str(None))];
    assert_eq!(parse_mode_reply(&entries), ("n".to_string(), false));
}

#[test]
fn state_reply() {
    assert_eq!(
        parse_state_reply(&n(1)),
        Err("Invalid response from Lua".to_string())
    );
    assert_eq!(parse_state_reply(&table(vec![])), Ok(("n".to_string(), 1, 0)));
    assert_eq!(
        parse_state_reply(&table(vec![("mode", s("i")), ("line", n(12)), ("col", n(4))])),
        Ok(("i".to_string(), 12, 4))
    );
    // line and col fall back to 1 and 0 for values that are not numbers.
    assert_eq!(
        parse_state_reply(&table(vec![("line", n(12)), ("line", s("x")), ("col", MsgValue::Nil)])),
        Ok(("n".to_string(), 1, 0))
    );
}

#[test]
fn reload_reply() {
    assert!(parse_reload_reply(&s("x")).is_none());
    let r = parse_reload_reply(&table(vec![
        ("lines", MsgValue::Array(vec![s("a"), n(1), s("b"), MsgValue::Str(None)])),
        ("tick", n(9)),
        ("cursor", MsgValue::Array(vec![n(2), n(5)])),
    ]))
    .unwrap();
    assert_eq!(r.lines, vec!["a", "b"]);
    assert_eq!(r.tick, 9);
    assert_eq!(r.cursor, Some((2, 5)));
    let r = parse_reload_reply(&table(vec![
        ("tick", n(1 << 70)),
        ("cursor", MsgValue::Array(vec![n(2)])),
    ]))
    .unwrap();
    assert!(r.lines.is_empty());
    assert_eq!(r.tick, 0);
    assert_eq!(r.cursor, None);
    assert_eq!(reload_caret_line(1), 0);
    assert_eq!(reload_caret_line(0), 0);
    assert_eq!(reload_caret_line(10), 9);
}
