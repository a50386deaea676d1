use godot_neovim::exops::{forward_command, option_value_text, ForwardOf};
use godot_neovim::msgpack::MsgValue;

#[test]
fn forwarded_commands() {
    match forward_command("s/a/b/g") {
        ForwardOf::Command(c) => assert_eq!(c, ":s/a/b/g"),
        _ => panic!("command expected"),
    }
    match forward_command("set tabstop?") {
        ForwardOf::QueryOption { name, lua } => {
            assert_eq!(name, "tabstop");
            assert_eq!(lua, "return vim.api.nvim_get_option_value('tabstop', { buf = 0 })");
        },
        _ => panic!("query expected"),
    }
    assert!(matches!(forward_command("set ?"), ForwardOf::Nothing));
    assert!(matches!(forward_command("set a?b"), ForwardOf::Nothing));
    match forward_command("set tabstop=4") {
        ForwardOf::Command(c) => assert_eq!(c, ":set tabstop=4"),
        _ => panic!("command expected"),
    }
    match forward_command("sort?") {
        ForwardOf::Command(c) => assert_eq!(c, ":sort?"),
        _ => panic!("command expected"),
    }
}

#[test]
fn option_values() {
    assert_eq!(option_value_text(&MsgValue::Str(Some("gdscript".to_string()))), Some("gdscript".to_string()));
    assert_eq!(option_value_text(&MsgValue::Str(None)), Some(String::new()));
    assert_eq!(option_value_text(&MsgValue::Boolean(true)), Some("true".to_string()));
    assert_eq!(option_value_text(&MsgValue::Integer(-4)), Some("-4".to_string()));
    assert_eq!(option_value_text(&MsgValue::Integer(1 << 64)), None);
    assert_eq!(option_value_text(&MsgValue::Nil), None);
}

use godot_neovim::exops::{
    cmd_copy_line, cmd_global, cmd_move_line, cmd_sort, cmd_substitute, repeat_substitute,
    replace_all, sort_lines, GlobalResult, LastSubstitute,
};

fn cv(s: &str) -> Vec<char> {
    s.chars().collect()
}

fn st(v: &[char]) -> String {
    v.iter().collect()
}

fn lines(v: &[&str]) -> Vec<Vec<char>> {
    v.iter().map(|l| cv(l)).collect()
}

fn strs(ls: &[Vec<char>]) -> Vec<String> {
    ls.iter().map(|l| st(l)).collect()
}

#[test]
fn replacing_like_str_replace() {
    for (s, p, r) in [("aaa", "a", "b"), ("abab", "ab", "x"), ("xyz", "q", "w"), ("ab", "", "-"), ("aaaa", "aa", "a")] {
        assert_eq!(st(&replace_all(&cv(s), &cv(p), &cv(r))), s.replace(p, r), "{} {} {}", s, p, r);
    }
}

#[test]
fn substitution_and_repeat() {
    let mut last: Option<LastSubstitute> = None;
    assert_eq!(repeat_substitute(&last, &cv("foo"), 0), None);
    let r = cmd_substitute(&mut last, &cv("%s/foo/bar/g"), &cv("foo x foo\nfoo"), 1).unwrap();
    assert_eq!((st(&r.0), r.1), ("bar x bar\nbar".to_string(), 1));
    let l = last.as_ref().unwrap();
    assert_eq!((st(&l.pattern), st(&l.replacement)), ("foo".to_string(), "bar".to_string()));
    // g& repeats it; no change gives nothing.
    assert_eq!(repeat_substitute(&last, &cv("a foo"), 0), Some((cv("a bar"), 0)));
    assert_eq!(repeat_substitute(&last, &cv("none"), 0), None);
    // A replacement that drops lines keeps the cursor on the last one.
    let r = cmd_substitute(&mut last, &cv("s/\n/"), &cv("a\nb\nc"), 2).unwrap();
    assert_eq!((st(&r.0), r.1), ("abc".to_string(), 0));
    // Without a second `/` nothing happens and the last one stays.
    assert_eq!(cmd_substitute(&mut last, &cv("s"), &cv("foo"), 0), None);
    assert_eq!(st(&last.as_ref().unwrap().pattern), "\n");
}

#[test]
fn global_delete() {
    let ls = lines(&["keep", "drop me", "also drop", "end"]);
    match cmd_global(&cv("g/drop/d"), &ls) {
        GlobalResult::Deleted(t, n) => {
            assert_eq!(strs(&t), vec!["keep", "end"]);
            assert_eq!(n, 2);
        },
        _ => panic!("deleted expected"),
    }
    assert!(matches!(cmd_global(&cv("g/none/d"), &ls), GlobalResult::NoMatch));
    assert!(matches!(cmd_global(&cv("g/drop/p"), &ls), GlobalResult::Unsupported(2)));
    assert!(matches!(cmd_global(&cv("g/drop"), &ls), GlobalResult::Invalid));
}

#[test]
fn sorting() {
    let ls = lines(&["b", "a", "c", "a"]);
    assert_eq!(strs(&sort_lines(&ls)), vec!["a", "a", "b", "c"]);
    assert_eq!(strs(&cmd_sort(&cv("sort"), &ls)), vec!["a", "a", "b", "c"]);
    assert_eq!(strs(&cmd_sort(&cv("sort u"), &ls)), vec!["a", "b", "c"]);
    assert_eq!(strs(&cmd_sort(&cv("sort!"), &ls)), vec!["c", "b", "a", "a"]);
    assert_eq!(strs(&cmd_sort(&cv("sort! u"), &ls)), vec!["c", "b", "a"]);
    // Code point order, as `str` orders.
    assert_eq!(strs(&sort_lines(&lines(&["é", "Z", "a", ""]))), vec!["", "Z", "a", "é"]);
}

#[test]
fn copying_and_moving_lines() {
    let ls = lines(&["a", "b", "c", "d"]);
    let (t, cur) = cmd_copy_line(&ls, 0, 2);
    assert_eq!(strs(&t), vec!["a", "b", "a", "c", "d"]);
    assert_eq!(cur, 2);
    let (t, cur) = cmd_copy_line(&ls, 3, 0);
    assert_eq!(strs(&t), vec!["a", "d", "b", "c", "d"]);
    assert_eq!(cur, 1);
    let (t, cur) = cmd_move_line(&ls, 3, 0);
    assert_eq!(strs(&t), vec!["d", "a", "b", "c"]);
    assert_eq!(cur, 0);
    // The target counts the moved line as gone once more.
    let (t, cur) = cmd_move_line(&ls, 0, 4);
    assert_eq!(strs(&t), vec!["b", "c", "a", "d"]);
    assert_eq!(cur, 3);
    let (t, cur) = cmd_move_line(&ls, 0, 3);
    assert_eq!(strs(&t), vec!["b", "a", "c", "d"]);
    assert_eq!(cur, 2);
}
