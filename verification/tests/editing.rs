use godot_neovim::editing::{
    delete_char_backward, delete_char_forward, increment_number, indent_line, join_lines,
    replace_char, toggle_case, unindent_line,
};

fn cv(s: &str) -> Vec<char> {
    s.chars().collect()
}

fn st(v: &[char]) -> String {
    v.iter().collect()
}

fn lines(v: &[&str]) -> Vec<Vec<char>> {
    v.iter().map(|l| cv(l)).collect()
}

#[test]
fn deleting_characters() {
    assert_eq!(delete_char_forward(&cv("abc"), 0), Some((cv("bc"), 0)));
    assert_eq!(delete_char_forward(&cv("abc"), 2), Some((cv("ab"), 1)));
    assert_eq!(delete_char_forward(&cv("a"), 0), Some((cv(""), 0)));
    assert_eq!(delete_char_forward(&cv("abc"), 3), None);
    assert_eq!(delete_char_backward(&cv("abc"), 2), Some((cv("ac"), 1)));
    assert_eq!(delete_char_backward(&cv("abc"), 3), Some((cv("ab"), 2)));
    assert_eq!(delete_char_backward(&cv("abc"), 0), None);
}

#[test]
fn replacing_and_toggling() {
    assert_eq!(replace_char(&cv("cat"), 0, 'b'), Some(cv("bat")));
    assert_eq!(replace_char(&cv("cat"), 3, 'b'), None);
    assert_eq!(toggle_case(&cv("aBc"), 0), Some((cv("ABc"), 1)));
    assert_eq!(toggle_case(&cv("aBc"), 1), Some((cv("abc"), 2)));
    assert_eq!(toggle_case(&cv("aBc"), 2), Some((cv("aBC"), 2)));
    assert_eq!(toggle_case(&cv("é1"), 0), Some((cv("É1"), 1)));
    assert_eq!(toggle_case(&cv("1"), 0), Some((cv("1"), 0)));
    // Only the first character of a longer mapping is kept.
    assert_eq!(toggle_case(&cv("ß"), 0), Some((cv("S"), 0)));
    assert_eq!(toggle_case(&cv(""), 0), None);
}

#[test]
fn indenting() {
    assert_eq!(indent_line(&cv("x = 1")), (cv("\tx = 1"), 1));
    assert_eq!(unindent_line(&cv("\tx")), (cv("x"), 0));
    assert_eq!(unindent_line(&cv("      x")), (cv("  x"), 2));
    assert_eq!(unindent_line(&cv("   x")), (cv(" x"), 1));
    assert_eq!(unindent_line(&cv(" x")), (cv("x"), 0));
    assert_eq!(unindent_line(&cv("x")), (cv("x"), 0));
    // << undoes >>.
    let l = cv("  if ok:");
    let (indented, _) = indent_line(&l);
    assert_eq!(unindent_line(&indented).0, l);
}

#[test]
fn incrementing_numbers() {
    assert_eq!(increment_number(&cv("x = 41"), 0, 1), Some((cv("x = 42"), 5)));
    assert_eq!(increment_number(&cv("x = 9"), 2, 1), Some((cv("x = 10"), 5)));
    assert_eq!(increment_number(&cv("a -1 b"), 0, 1), Some((cv("a 0 b"), 2)));
    assert_eq!(increment_number(&cv("a 0"), 0, -1), Some((cv("a -1"), 3)));
    // The number at or after the cursor, counted from the cursor.
    assert_eq!(increment_number(&cv("x12"), 2, 1), Some((cv("x13"), 2)));
    // Before the cursor when nothing follows it.
    assert_eq!(increment_number(&cv("7 abc"), 3, 1), Some((cv("8 abc"), 0)));
    assert_eq!(increment_number(&cv("no digits"), 0, 1), None);
    assert_eq!(increment_number(&cv("99999999999999999999"), 0, 1), None);
}

#[test]
fn joining_lines() {
    let (ls, col) = join_lines(&lines(&["foo   ", "   bar", "baz"]), 0).unwrap();
    assert_eq!(ls.iter().map(|l| st(l)).collect::<Vec<_>>(), vec!["foo bar", "baz"]);
    assert_eq!(col, 3);
    let (ls, col) = join_lines(&lines(&["a", "", "c"]), 0).unwrap();
    assert_eq!(ls.iter().map(|l| st(l)).collect::<Vec<_>>(), vec!["a", "c"]);
    assert_eq!(col, 1);
    assert_eq!(join_lines(&lines(&["a", "b"]), 1), None);
}
