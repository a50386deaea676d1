use godot_neovim::jumps::JumpList;
use godot_neovim::store::{
    delete_line_to_register, get_mark, jump_to_mark_line, jump_to_mark_position,
    paste_from_register, play_macro, replay_last_macro, set_mark, store_macro,
    yank_line_to_register, VimStore,
};

fn cv(s: &str) -> Vec<char> {
    s.chars().collect()
}

fn lines(v: &[&str]) -> Vec<Vec<char>> {
    v.iter().map(|l| cv(l)).collect()
}

fn st(ls: &[Vec<char>]) -> Vec<String> {
    ls.iter().map(|l| l.iter().collect()).collect()
}

#[test]
fn marks_round_trip() {
    let mut s = VimStore::new();
    assert_eq!(get_mark(&s, 'a'), None);
    set_mark(&mut s, 'a', 3, 7);
    assert_eq!(get_mark(&s, 'a'), Some((3, 7)));
    set_mark(&mut s, 'a', 1, 0);
    assert_eq!(get_mark(&s, 'a'), Some((1, 0)));
    let ls = lines(&["x", "   indented", "end"]);
    assert_eq!(jump_to_mark_line(&s, 'a', &ls), Some((1, 3)));
    set_mark(&mut s, 'b', 10, 50);
    assert_eq!(jump_to_mark_position(&s, 'b', &ls), Some((2, 3)));
    assert_eq!(jump_to_mark_line(&s, 'b', &ls), Some((2, 0)));
    assert_eq!(jump_to_mark_position(&s, 'z', &ls), None);
}

#[test]
fn macros() {
    let mut s = VimStore::new();
    assert_eq!(play_macro(&mut s, 'q'), None);
    assert_eq!(replay_last_macro(&mut s), None);
    store_macro(&mut s, 'q', vec![cv("d"), cv("w")]);
    store_macro(&mut s, 'e', vec![]);
    assert_eq!(play_macro(&mut s, 'e'), None);
    assert_eq!(replay_last_macro(&mut s), None);
    assert_eq!(play_macro(&mut s, 'q'), Some(vec![cv("d"), cv("w")]));
    assert_eq!(replay_last_macro(&mut s), Some(vec![cv("d"), cv("w")]));
}

#[test]
fn yank_then_paste_duplicates_the_line() {
    let mut s = VimStore::new();
    let ls = lines(&["one", "  two", "three"]);
    yank_line_to_register(&mut s, 'a', &ls[1]);
    let (after, l, c) = paste_from_register(&s, 'a', &ls, 1, 0, false).unwrap();
    assert_eq!(st(&after), vec!["one", "  two", "  two", "three"]);
    assert_eq!((l, c), (2, 2));
    let (before, l, c) = paste_from_register(&s, 'a', &ls, 1, 0, true).unwrap();
    assert_eq!(st(&before), vec!["one", "  two", "  two", "three"]);
    assert_eq!((l, c), (1, 2));
    assert_eq!(paste_from_register(&s, 'b', &ls, 0, 0, false), None);
}

#[test]
fn delete_then_paste_before_restores() {
    let mut s = VimStore::new();
    let ls = lines(&["a", "b", "c"]);
    let (after, l, c) = delete_line_to_register(&mut s, 'x', &ls, 1);
    assert_eq!(st(&after), vec!["a", "c"]);
    assert_eq!((l, c), (1, 0));
    let (back, l, _) = paste_from_register(&s, 'x', &after, 1, 0, true).unwrap();
    assert_eq!(back, ls);
    assert_eq!(l, 1);
    // The last line: the cursor goes to the new last line.
    let (after, l, _) = delete_line_to_register(&mut s, 'y', &ls, 2);
    assert_eq!(st(&after), vec!["a", "b"]);
    assert_eq!(l, 1);
    // The only line leaves one empty line.
    let (after, l, c) = delete_line_to_register(&mut s, 'z', &lines(&["solo"]), 0);
    assert_eq!(st(&after), vec![""]);
    assert_eq!((l, c), (0, 0));
}

#[test]
fn jump_list() {
    let mut j = JumpList::new();
    assert_eq!(j.jump_back(0, 0), None);
    assert_eq!(j.jump_forward(), None);
    j.add_to_jump_list(1, 1);
    j.add_to_jump_list(1, 1);
    assert_eq!(j.entries.len(), 1);
    j.add_to_jump_list(5, 2);
    assert_eq!(j.jump_back(9, 9), Some((9, 9)));
    assert_eq!(j.jump_back(9, 9), Some((5, 2)));
    assert_eq!(j.jump_back(5, 2), Some((1, 1)));
    assert_eq!(j.jump_back(1, 1), None);
    assert_eq!(j.jump_forward(), Some((5, 2)));
    assert_eq!(j.jump_forward(), Some((9, 9)));
    assert_eq!(j.jump_forward(), None);
    // A new jump while browsing drops the entries from the browsing
    // position on.
    assert_eq!(j.jump_back(9, 9), Some((5, 2)));
    j.add_to_jump_list(7, 7);
    assert_eq!(j.entries, vec![(1, 1), (7, 7)]);
    assert_eq!(j.pos, 2);
    // At most 100 entries are kept, the oldest going first.
    for i in 0..150 {
        j.add_to_jump_list(i + 100, 0);
    }
    assert_eq!(j.entries.len(), 100);
    assert_eq!(j.entries[0], (150, 0));
    assert_eq!(j.pos, 100);
}
