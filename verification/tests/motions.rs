use godot_neovim::motions::{
    clamp_position, find_char_backward, find_char_forward, first_non_blank, jump_to_matching_bracket,
    line_end_col, move_to_next_paragraph, move_to_prev_paragraph, page_down, page_up,
    repeat_find_char, scroll_viewport_down, scroll_viewport_up, visible_bottom, visible_middle,
    LastFind,
};

fn cv(s: &str) -> Vec<char> {
    s.chars().collect()
}

fn lines(v: &[&str]) -> Vec<Vec<char>> {
    v.iter().map(|l| cv(l)).collect()
}

#[test]
fn matching_brackets() {
    let ls = lines(&["f(a[b])", "{", "}", "{x}"]);
    assert_eq!(jump_to_matching_bracket(&ls, 0, 1), Some((0, 6)));
    assert_eq!(jump_to_matching_bracket(&ls, 0, 3), Some((0, 5)));
    assert_eq!(jump_to_matching_bracket(&ls, 0, 6), Some((0, 1)));
    assert_eq!(jump_to_matching_bracket(&ls, 1, 0), Some((2, 0)));
    assert_eq!(jump_to_matching_bracket(&ls, 3, 2), Some((3, 0)));
    // From column 0 the backward search starts at the line's end, where the
    // bracket itself counts once more.
    assert_eq!(jump_to_matching_bracket(&ls, 2, 0), None);
    assert_eq!(jump_to_matching_bracket(&ls, 0, 0), None);
    assert_eq!(jump_to_matching_bracket(&ls, 0, 9), None);
    assert_eq!(jump_to_matching_bracket(&lines(&["(("]), 0, 0), None);
}

#[test]
fn line_columns() {
    assert_eq!(first_non_blank(&cv("   x y")), 3);
    assert_eq!(first_non_blank(&cv("    ")), 0);
    assert_eq!(line_end_col(&cv("abc")), 2);
    assert_eq!(line_end_col(&cv("")), 0);
}

#[test]
fn character_search_and_repeat() {
    let l = cv("a,b,c,d");
    let mut last = LastFind::new();
    assert_eq!(repeat_find_char(&mut last, &l, 0, true), None);
    assert_eq!(find_char_forward(&mut last, &l, 0, ',', false), Some(1));
    // ; goes on to the next one, , comes back.
    assert_eq!(repeat_find_char(&mut last, &l, 1, true), Some(3));
    assert_eq!(repeat_find_char(&mut last, &l, 3, false), Some(1));
    assert_eq!(find_char_forward(&mut last, &l, 0, ',', true), Some(0));
    assert_eq!(find_char_backward(&mut last, &l, 6, ',', false), Some(5));
    assert_eq!(find_char_backward(&mut last, &l, 6, ',', true), Some(6));
    assert_eq!(repeat_find_char(&mut last, &l, 4, true), Some(4));
    // A failed search leaves the last one in place.
    assert_eq!(find_char_forward(&mut last, &l, 0, 'z', false), None);
    assert_eq!(repeat_find_char(&mut last, &l, 6, true), Some(6));
}

#[test]
fn paragraphs() {
    let ls = lines(&["a", "b", "", "c", "d", "  ", "e"]);
    assert_eq!(move_to_next_paragraph(&ls, 0), 3);
    assert_eq!(move_to_next_paragraph(&ls, 3), 6);
    assert_eq!(move_to_next_paragraph(&ls, 6), 6);
    assert_eq!(move_to_prev_paragraph(&ls, 4), 2);
    assert_eq!(move_to_prev_paragraph(&ls, 6), 2);
    assert_eq!(move_to_prev_paragraph(&ls, 1), 0);
    assert_eq!(move_to_prev_paragraph(&ls, 0), 0);
}

#[test]
fn positions_and_screens() {
    let ls = lines(&["abc", "de"]);
    assert_eq!(clamp_position(&ls, 5, 9), (1, 2));
    assert_eq!(clamp_position(&ls, 0, 1), (0, 1));
    assert_eq!(visible_middle(10, 20, 100), 20);
    assert_eq!(visible_middle(10, 20, 15), 14);
    assert_eq!(visible_bottom(30, 100), 30);
    assert_eq!(visible_bottom(30, 12), 11);
    assert_eq!(page_down(5, 0, 20, 100, true), (15, Some(10)));
    assert_eq!(page_down(5, 0, 20, 100, false), (25, Some(20)));
    assert_eq!(page_down(95, 80, 20, 100, false), (99, None));
    assert_eq!(page_up(15, 10, 20, true), (5, Some(0)));
    assert_eq!(page_up(3, 0, 20, false), (0, None));
    // Ctrl+D then Ctrl+U comes back to the same line.
    let (down, first) = page_down(40, 30, 20, 100, true);
    assert_eq!(page_up(down, first.unwrap(), 20, true).0, 40);
    assert_eq!(scroll_viewport_up(0), None);
    assert_eq!(scroll_viewport_up(4), Some(3));
    assert_eq!(scroll_viewport_down(4, 10), Some(5));
    assert_eq!(scroll_viewport_down(9, 10), None);
}
