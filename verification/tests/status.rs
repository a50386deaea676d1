use godot_neovim::status::{
    after_send, after_state_change, buffer_needs_update, char_info_message, file_info_message,
    goto_line_target, mode_display, next_script_index, script_tab_for_buffer, visual_line_selection,
    visual_selection, wrap_tab_index, CaretShape, ModeColor, ScriptFile, SelectionUpdate,
    SendOutcome, StateUpdate,
};

fn cv(s: &str) -> Vec<char> {
    s.chars().collect()
}

fn lines(v: &[&str]) -> Vec<Vec<char>> {
    v.iter().map(|l| cv(l)).collect()
}

#[test]
fn mode_labels() {
    let d = mode_display(false, "n", Some((12, 4))).unwrap();
    assert_eq!(d.text, "NORMAL 12:4");
    assert_eq!(d.color, ModeColor::Green);
    assert_eq!(d.caret, CaretShape::Block);
    let d = mode_display(false, "insert", None).unwrap();
    assert_eq!(d.text, "INSERT");
    assert_eq!(d.color, ModeColor::Blue);
    assert_eq!(d.caret, CaretShape::Line);
    let d = mode_display(false, "\u{16}", None).unwrap();
    assert_eq!(d.text, "V-BLOCK");
    assert_eq!(d.color, ModeColor::Orange);
    let d = mode_display(false, "visual_line", None).unwrap();
    assert_eq!(d.text, "V-LINE");
    assert_eq!(d.color, ModeColor::Gray);
    let d = mode_display(false, "R", Some((1, 0))).unwrap();
    assert_eq!(d.text, "REPLACE 1:0");
    assert_eq!(d.color, ModeColor::Red);
    assert_eq!(d.caret, CaretShape::Line);
    let d = mode_display(false, "c", None).unwrap();
    assert_eq!((d.text.as_str(), d.color), ("COMMAND", ModeColor::Yellow));
    let d = mode_display(false, "terminal", None).unwrap();
    assert_eq!(d.text, "TERMINAL");
    let d = mode_display(false, "no", None).unwrap();
    assert_eq!(d.text, "no");
    assert_eq!(d.color, ModeColor::Gray);
    assert!(mode_display(true, "n", None).is_none());
}

#[test]
fn selections() {
    assert_eq!(visual_selection((2, 5), (4, 1)), (2, 5, 4, 2));
    assert_eq!(visual_selection((4, 1), (2, 5)), (2, 5, 4, 2));
    assert_eq!(visual_selection((3, 7), (3, 2)), (3, 2, 3, 8));
    assert_eq!(visual_selection((3, 2), (3, 2)), (3, 2, 3, 3));
    let ls = lines(&["abc", "hello", ""]);
    assert_eq!(visual_line_selection(1, 0, &ls), (0, 0, 1, 5));
    assert_eq!(visual_line_selection(0, 2, &ls), (0, 0, 2, 0));
    assert_eq!(visual_line_selection(0, 9, &ls), (0, 0, 9, 0));
}

#[test]
fn char_info() {
    assert_eq!(char_info_message(&cv("a"), 0), "<a> 97, Hex 61, Oct 141");
    assert_eq!(char_info_message(&cv("a b"), 1), "<Space> 32, Hex 20, Oct 040");
    assert_eq!(char_info_message(&cv("\t"), 0), "<Tab> 9, Hex 09, Oct 011");
    assert_eq!(char_info_message(&cv("\u{1}"), 0), "<Ctrl> 1, Hex 01, Oct 001");
    assert_eq!(char_info_message(&cv("é"), 0), "<é> 233, Hex e9, Oct 351");
    assert_eq!(char_info_message(&cv("€"), 0), "<€> 8364, Hex 20ac, Oct 20254");
    assert_eq!(char_info_message(&cv("ab"), 2), "NUL");
    assert_eq!(char_info_message(&cv(""), 0), "NUL");
    let c = '\u{10FFFF}';
    assert_eq!(
        char_info_message(&vec![c], 0),
        format!("<{}> {}, Hex {:02x}, Oct {:03o}", c, c as u32, c as u32, c as u32)
    );
}

#[test]
fn file_info() {
    assert_eq!(file_info_message(None, &ScriptFile::NoEditor), "No file");
    assert_eq!(
        file_info_message(Some((9, 40)), &ScriptFile::Path("res://scenes/player.gd".to_string())),
        "\"player.gd\" line 10 of 40 --25%--"
    );
    assert_eq!(
        file_info_message(Some((0, 3)), &ScriptFile::Path(String::new())),
        "\"[New File]\" line 1 of 3 --33%--"
    );
    assert_eq!(
        file_info_message(Some((0, 0)), &ScriptFile::NoScript),
        "\"[No Script]\" line 1 of 0 --0%--"
    );
    assert_eq!(
        file_info_message(Some((2, 3)), &ScriptFile::NoEditor),
        "\"[Unknown]\" line 3 of 3 --100%--"
    );
}

#[test]
fn decisions_after_keys() {
    assert_eq!(after_send("n", "i", true), SendOutcome::InsertEntered);
    assert_eq!(after_send("n", "no", true), SendOutcome::Pending);
    assert_eq!(after_send("n", "v", false), SendOutcome::Synced(SelectionUpdate::Chars));
    assert_eq!(after_send("n", "V", false), SendOutcome::Synced(SelectionUpdate::Lines));
    assert_eq!(after_send("V", "n", false), SendOutcome::Synced(SelectionUpdate::Clear));
    assert_eq!(after_send("n", "n", false), SendOutcome::Synced(SelectionUpdate::Keep));
    assert_eq!(
        after_state_change("i", "n"),
        StateUpdate { push_text: true, selection: SelectionUpdate::Keep }
    );
    assert_eq!(
        after_state_change("n", "CTRL-V"),
        StateUpdate { push_text: false, selection: SelectionUpdate::Chars }
    );
    assert_eq!(
        after_state_change("i", "i"),
        StateUpdate { push_text: false, selection: SelectionUpdate::Keep }
    );
}

#[test]
fn buffer_comparison() {
    let nv = vec!["a".to_string(), "b".to_string()];
    assert!(!buffer_needs_update(&nv, "a\nb"));
    assert!(!buffer_needs_update(&nv, "a\r\nb\n\n"));
    assert!(buffer_needs_update(&nv, "a\nc"));
    assert!(!buffer_needs_update(&vec![], ""));
    assert!(!buffer_needs_update(&vec!["x".to_string(), String::new()], "x"));
    assert!(buffer_needs_update(&vec!["x".to_string()], "x\r"));
}

#[test]
fn goto_line() {
    let ls = lines(&["a", "    b", "\tc"]);
    assert_eq!(goto_line_target(2, &ls), (1, 4));
    assert_eq!(goto_line_target(0, &ls), (0, 0));
    assert_eq!(goto_line_target(-5, &ls), (0, 0));
    assert_eq!(goto_line_target(100, &ls), (2, 1));
}

#[test]
fn tabs() {
    assert_eq!(wrap_tab_index(0, -1, 3), Some(2));
    assert_eq!(wrap_tab_index(2, 1, 3), Some(0));
    assert_eq!(wrap_tab_index(1, 1, 3), Some(2));
    assert_eq!(wrap_tab_index(0, 1, 1), None);
    assert_eq!(wrap_tab_index(-7, 0, 3), Some(2));
    // gT then gt comes back.
    let there = wrap_tab_index(0, 1, 4).unwrap();
    assert_eq!(wrap_tab_index(there, -1, 4), Some(0));
    let paths: Vec<String> = ["res://a.gd", "res://b.gd", "res://c.gd"].iter().map(|s| s.to_string()).collect();
    assert_eq!(next_script_index(&paths, "res://b.gd", 1), Some(2));
    assert_eq!(next_script_index(&paths, "res://a.gd", -1), Some(2));
    assert_eq!(next_script_index(&paths, "res://zz.gd", 1), Some(1));
    assert_eq!(next_script_index(&paths[..1].to_vec(), "res://a.gd", 1), None);
}

#[test]
fn buffer_follows_neovim() {
    let open: Vec<String> = ["C:/p/a.gd", "C:\\p\\b.gd"].iter().map(|s| s.to_string()).collect();
    assert_eq!(script_tab_for_buffer("C:\\p\\b.gd", Some("C:/p/a.gd"), &open), Some(1));
    assert_eq!(script_tab_for_buffer("C:/p/b.gd", Some("C:\\p\\b.gd"), &open), None);
    assert_eq!(script_tab_for_buffer("C:/p/zz.gd", None, &open), None);
    assert_eq!(script_tab_for_buffer("C:/p/a.gd", None, &open), Some(0));
}
