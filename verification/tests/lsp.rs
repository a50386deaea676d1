use godot_neovim::lsp::{
    check_response, first_definition, frame_message, read_header_line, DefinitionResponse,
    HeaderStepOf, Location, LocationLink, Range, ResponseError,
};
use godot_neovim::numbers::{parse_usize, IntParseError};

fn cv(s: &str) -> Vec<char> {
    s.chars().collect()
}

fn range(a: u32, b: u32, c: u32, d: u32) -> Range {
    Range { start_line: a, start_character: b, end_line: c, end_character: d }
}

#[test]
fn frame_counts_bytes_not_chars() {
    assert_eq!(frame_message("{}"), "Content-Length: 2\r\n\r\n{}");
    assert_eq!(frame_message(""), "Content-Length: 0\r\n\r\n");
    // 'é' takes two bytes, '€' three.
    assert_eq!(frame_message("é€"), "Content-Length: 5\r\n\r\né€");
}

#[test]
fn framed_header_reads_back() {
    let body = "{\"jsonrpc\":\"2.0\",\"id\":1}";
    let framed = frame_message(body);
    let mut parts = framed.split("\r\n");
    let first = parts.next().unwrap();
    let step = read_header_line(None, &format!("{}\r\n", first));
    assert!(matches!(step, HeaderStepOf::Next(Some(n)) if n == body.len()));
    let end = read_header_line(Some(body.len()), "\r\n");
    assert!(matches!(end, HeaderStepOf::Body(n) if n == body.len()));
}

#[test]
fn header_lines() {
    assert!(matches!(read_header_line(None, "Content-Length: 42\r\n"), HeaderStepOf::Next(Some(42))));
    assert!(matches!(read_header_line(Some(7), "Content-Type: application/json\r\n"), HeaderStepOf::Next(Some(7))));
    assert!(matches!(read_header_line(None, "Content-Type: x\r\n"), HeaderStepOf::Next(None)));
    assert!(matches!(read_header_line(Some(3), ""), HeaderStepOf::Body(3)));
    assert!(matches!(read_header_line(None, "Content-Length: +5"), HeaderStepOf::Next(Some(5))));
    match read_header_line(None, "\r\n") {
        HeaderStepOf::Fail(m) => assert_eq!(m, "Missing Content-Length header"),
        _ => panic!("expected a failure"),
    }
    match read_header_line(None, "Content-Length: 4x\r\n") {
        HeaderStepOf::Fail(m) => assert_eq!(m, "Invalid Content-Length: invalid digit found in string"),
        _ => panic!("expected a failure"),
    }
    match read_header_line(None, "Content-Length: 99999999999999999999999") {
        HeaderStepOf::Fail(m) => assert_eq!(m, "Invalid Content-Length: number too large to fit in target type"),
        _ => panic!("expected a failure"),
    }
    // The line is trimmed first, so a bare prefix loses its space and is
    // passed over like any other header.
    assert!(matches!(read_header_line(None, "Content-Length: \r\n"), HeaderStepOf::Next(None)));
}

#[test]
fn parse_usize_matches_std() {
    for s in ["", "+", "-", "0", "+12", "-1", "12a", "007", "18446744073709551615", "18446744073709551616", "１"] {
        let ours = parse_usize(&cv(s));
        let std = s.parse::<usize>();
        match (ours, std) {
            (Ok(a), Ok(b)) => assert_eq!(a, b, "{}", s),
            (Err(e), Err(f)) => assert_eq!(e.message(), f.to_string(), "{}", s),
            (a, b) => panic!("{}: {:?} vs {:?}", s, a, b),
        }
    }
    assert_eq!(parse_usize(&cv("")), Err(IntParseError::Empty));
    assert_eq!(parse_usize(&cv("+")), Err(IntParseError::InvalidDigit));
}

#[test]
fn response_checks() {
    assert_eq!(check_response(3, Some(3), None), Ok(()));
    assert_eq!(check_response(3, None, None), Ok(()));
    assert_eq!(
        check_response(3, Some(4), None),
        Err("Response ID mismatch: expected 3, got 4".to_string())
    );
    assert_eq!(
        check_response(3, Some(3), Some(ResponseError { code: -32601, message: "Method not found".to_string() })),
        Err("LSP error -32601: Method not found".to_string())
    );
    // A wrong id is reported before an error member.
    assert_eq!(
        check_response(1, Some(2), Some(ResponseError { code: 1, message: "x".to_string() })),
        Err("Response ID mismatch: expected 1, got 2".to_string())
    );
}

#[test]
fn definition_choice() {
    assert!(first_definition(None).is_none());
    assert!(first_definition(Some(DefinitionResponse::Array(vec![]))).is_none());
    assert!(first_definition(Some(DefinitionResponse::Link(vec![]))).is_none());
    let l = first_definition(Some(DefinitionResponse::Scalar(Location {
        uri: "file:///a.gd".to_string(),
        range: range(1, 2, 1, 5),
    })))
    .unwrap();
    assert_eq!(l.uri, "file:///a.gd");
    assert_eq!(l.range, range(1, 2, 1, 5));
    let l = first_definition(Some(DefinitionResponse::Array(vec![
        Location { uri: "file:///b.gd".to_string(), range: range(3, 0, 3, 1) },
        Location { uri: "file:///c.gd".to_string(), range: range(4, 0, 4, 1) },
    ])))
    .unwrap();
    assert_eq!(l.uri, "file:///b.gd");
    assert_eq!(l.range.start_line, 3);
    let l = first_definition(Some(DefinitionResponse::Link(vec![LocationLink {
        target_uri: "file:///d.gd".to_string(),
        target_selection_range: range(9, 4, 9, 8),
    }])))
    .unwrap();
    assert_eq!(l.uri, "file:///d.gd");
    assert_eq!(l.range, range(9, 4, 9, 8));
}
