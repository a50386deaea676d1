use godot_neovim::jumps::JumpList;
use godot_neovim::report::{buffers_report, jumps_report, marks_report, registers_report, sorted_keys};
use godot_neovim::store::{set_mark, yank_line_to_register, VimStore};
use std::collections::HashMap;

fn cv(s: &str) -> Vec<char> {
    s.chars().collect()
}

#[test]
fn keys_come_sorted() {
    let mut m: HashMap<u32, u8> = HashMap::new();
    for k in [40u32, 3, 99, 7, 1000, 0] {
        m.insert(k, 1);
    }
    assert_eq!(sorted_keys(&m), vec![0, 3, 7, 40, 99, 1000]);
    assert!(sorted_keys(&HashMap::<u32, u8>::new()).is_empty());
}

#[test]
fn marks_listing() {
    let mut st = VimStore::new();
    assert_eq!(marks_report(&st), vec!["[godot-neovim] :marks - No marks set"]);
    set_mark(&mut st, 'b', 41, 7);
    set_mark(&mut st, 'a', 0, 12);
    set_mark(&mut st, 'z', 12344, 1234);
    assert_eq!(
        marks_report(&st),
        vec![
            "[godot-neovim] :marks".to_string(),
            "mark  line  col".to_string(),
            " a       1   12".to_string(),
            " b      42    7".to_string(),
            " z    12345  1234".to_string(),
        ]
    );
}

#[test]
fn registers_listing() {
    let mut st = VimStore::new();
    assert_eq!(registers_report(&st), vec!["[godot-neovim] :registers - No registers set"]);
    yank_line_to_register(&mut st, 'q', &cv("  return x"));
    let long: String = "x".repeat(60);
    yank_line_to_register(&mut st, 'c', &cv(&long));
    assert_eq!(
        registers_report(&st),
        vec![
            "[godot-neovim] :registers".to_string(),
            format!("\"c   {}...", "x".repeat(47)),
            "\"q     return x^J".to_string(),
        ]
    );
}

#[test]
fn jumps_listing() {
    let mut j = JumpList::new();
    assert_eq!(
        jumps_report(&j),
        vec!["[godot-neovim] :jumps", " jump line  col", "   (empty)"]
    );
    j.add_to_jump_list(9, 4);
    j.add_to_jump_list(19, 0);
    assert_eq!(
        jumps_report(&j),
        vec![
            "[godot-neovim] :jumps".to_string(),
            " jump line  col".to_string(),
            "    1    10    4".to_string(),
            "    2    20    0".to_string(),
            ">          (current)".to_string(),
        ]
    );
    // The first Ctrl+O records where it starts and stands on that entry.
    let back = j.jump_back(30, 2);
    assert_eq!(back, Some((30, 2)));
    let rows = jumps_report(&j);
    assert_eq!(rows.len(), 5);
    assert_eq!(rows[3], "    2    20    0");
    assert_eq!(rows[4], ">   3    31    2");
}

#[test]
fn buffers_listing() {
    let scripts = vec![
        Some("res://player.gd".to_string()),
        None,
        Some("res://ui/menu/main.gd".to_string()),
        Some("noslash".to_string()),
    ];
    assert_eq!(
        buffers_report(&scripts),
        vec![
            "[godot-neovim] :ls - Open buffers:",
            "  1: player.gd",
            "  3: main.gd",
            "  4: noslash"
        ]
    );
}
