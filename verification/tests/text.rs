use godot_neovim::chars::{chars_of, trim_exec};
use godot_neovim::numbers::{i64_decimal, parse_int_exec, u64_decimal};
use godot_neovim::text::{find_exec, join_lines_exec, lines_exec};
use godot_neovim::unicode::{utf8_len_above_one, utf8_len_exec};

fn cv(s: &str) -> Vec<char> {
    s.chars().collect()
}

fn st(v: &[char]) -> String {
    v.iter().collect()
}

#[test]
fn decimal_rendering() {
    assert_eq!(st(&u64_decimal(0)), "0");
    assert_eq!(st(&u64_decimal(u64::MAX)), u64::MAX.to_string());
    assert_eq!(st(&i64_decimal(i64::MIN)), i64::MIN.to_string());
    assert_eq!(st(&i64_decimal(-42)), "-42");
}

#[test]
fn integer_parsing() {
    assert_eq!(parse_int_exec(&cv("-12"), i32::MIN as i64, i32::MAX as i64), Some(-12));
    assert_eq!(parse_int_exec(&cv("+7"), i32::MIN as i64, i32::MAX as i64), Some(7));
    assert_eq!(parse_int_exec(&cv("2147483648"), i32::MIN as i64, i32::MAX as i64), None);
    assert_eq!(parse_int_exec(&cv("-2147483648"), i32::MIN as i64, i32::MAX as i64), Some(i32::MIN as i64));
    assert_eq!(parse_int_exec(&cv("1a"), -10, 10), None);
    assert_eq!(parse_int_exec(&cv(""), -10, 10), None);
    assert_eq!(parse_int_exec(&cv("-"), -10, 10), None);
}

#[test]
fn lines_and_joins() {
    let ls = lines_exec(&cv("a\r\nb\n\nc\n"));
    let got: Vec<String> = ls.iter().map(|l| st(l)).collect();
    let want: Vec<String> = "a\r\nb\n\nc\n".lines().map(String::from).collect();
    assert_eq!(got, want);
    let joined = join_lines_exec(&vec!["x".to_string(), "".to_string(), "y".to_string()]);
    assert_eq!(st(&joined), "x\n\ny");
    assert!(join_lines_exec(&vec![]).is_empty());
}

#[test]
fn search_and_trim() {
    assert_eq!(find_exec(&cv("hello world"), &cv("o w")), Some(4));
    assert_eq!(find_exec(&cv("hello"), &cv("z")), None);
    assert_eq!(st(&trim_exec(&cv("\u{3000} a b \t"))), "a b");
    assert_eq!(chars_of("ab"), vec!['a', 'b']);
}

#[test]
fn utf8_lengths() {
    assert_eq!(utf8_len_exec(&cv("aé€😀")), Some(1 + 2 + 3 + 4));
    assert!(!utf8_len_above_one(&cv("a")));
    assert!(utf8_len_above_one(&cv("é")));
    assert!(utf8_len_above_one(&cv("ab")));
    assert!(!utf8_len_above_one(&cv("")));
}
