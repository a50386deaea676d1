use godot_neovim::search::{
    find_word_in_line, find_word_in_line_backward, get_word_under_cursor, repeat_search,
    search_word_backward_internal, search_word_forward_internal, search_word_under_cursor,
    LastSearch,
};

fn cv(s: &str) -> Vec<char> {
    s.chars().collect()
}

fn lines(v: &[&str]) -> Vec<Vec<char>> {
    v.iter().map(|l| cv(l)).collect()
}

#[test]
fn whole_words_in_a_line() {
    let l = cv("foobar foo _foo foo");
    assert_eq!(find_word_in_line(&l, &cv("foo"), 0, true), Some(7));
    assert_eq!(find_word_in_line(&l, &cv("foo"), 8, true), Some(16));
    assert_eq!(find_word_in_line(&l, &cv("foo"), 0, false), Some(16));
    assert_eq!(find_word_in_line(&l, &cv(""), 0, true), None);
    assert_eq!(find_word_in_line(&cv("fo"), &cv("foo"), 0, true), None);
    assert_eq!(find_word_in_line_backward(&l, &cv("foo"), true, 16), Some(7));
    assert_eq!(find_word_in_line_backward(&l, &cv("foo"), false, 0), Some(16));
    assert_eq!(find_word_in_line_backward(&l, &cv("foo"), true, 0), None);
}

#[test]
fn word_under_cursor() {
    let l = cv("let my_var = 3");
    assert_eq!(get_word_under_cursor(&l, 6), Some(cv("my_var")));
    assert_eq!(get_word_under_cursor(&l, 3), None);
    assert_eq!(get_word_under_cursor(&l, 13), Some(cv("3")));
    assert_eq!(get_word_under_cursor(&l, 14), None);
}

#[test]
fn star_then_n_and_n_reversed() {
    let ls = lines(&["foo bar foo", "x foo", "foobar foo"]);
    let mut last = LastSearch { word: vec![], forward: true };
    assert_eq!(repeat_search(&last, true, &ls, 0, 0), None);
    // On a blank nothing is searched or remembered.
    assert_eq!(search_word_under_cursor(&mut last, &ls, 0, 3, true), None);
    assert!(last.word.is_empty());
    assert_eq!(search_word_under_cursor(&mut last, &ls, 0, 1, true), Some((0, 8)));
    assert_eq!(last.word, cv("foo"));
    assert!(last.forward);
    assert_eq!(repeat_search(&last, true, &ls, 0, 8), Some((1, 2)));
    assert_eq!(repeat_search(&last, true, &ls, 1, 2), Some((2, 7)));
    // Wraps to the top.
    assert_eq!(repeat_search(&last, true, &ls, 2, 7), Some((0, 0)));
    assert_eq!(repeat_search(&last, false, &ls, 1, 2), Some((0, 8)));
}

#[test]
fn hash_searches_backward() {
    let ls = lines(&["foo bar foo", "x foo", "foobar foo"]);
    let mut last = LastSearch { word: vec![], forward: true };
    // From inside a word, `#` first lands on that word's start.
    assert_eq!(search_word_under_cursor(&mut last, &ls, 1, 3, false), Some((1, 2)));
    assert!(!last.forward);
    assert_eq!(repeat_search(&last, true, &ls, 1, 2), Some((0, 8)));
    assert_eq!(repeat_search(&last, true, &ls, 0, 8), Some((0, 0)));
    assert_eq!(repeat_search(&last, false, &ls, 0, 8), Some((1, 2)));
    assert_eq!(search_word_forward_internal(&ls, &cv("bar"), 2, 0), Some((0, 4)));
    // Wraps round to the bottom and back up to the only match.
    assert_eq!(search_word_backward_internal(&ls, &cv("bar"), 0, 4), Some((0, 4)));
    assert_eq!(search_word_backward_internal(&ls, &cv("nothing"), 2, 0), None);
}
