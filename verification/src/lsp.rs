//! The language-server side of `gd`: the `Content-Length` framing of a
//! message, the reading of a message's headers one line at a time, the
//! checks made on a response, and the choice of the location that a
//! definition request answered.

use crate::chars::{chars_of, concat, occurs_at_exec, slice_of, string_of, trim, trim_exec};
use crate::numbers::{
    decimal, int_parse_error_text, lemma_scan_decimal, parse_unsigned, parse_usize, scan_digits,
    signed_decimal, u64_decimal, i64_decimal, IntParseError,
};
use crate::text::starts_with;
use crate::unicode::{utf8_len, utf8_len_exec};
use vstd::prelude::*;

verus! {

// ---------------------------------------------------------------------
// Framing
// ---------------------------------------------------------------------

/// The header line that announces a body of `len` bytes, with its line end.
pub open spec fn length_line(len: nat) -> Seq<char> {
    "Content-Length: "@ + decimal(len) + "\r\n"@
}

/// What goes before a body of `len` bytes: the length line and an empty line.
pub open spec fn content_header(len: nat) -> Seq<char> {
    length_line(len) + "\r\n"@
}

/// The message that carries `body`: its header, then the body itself.
pub open spec fn framed(body: Seq<char>) -> Seq<char> {
    content_header(utf8_len(body)) + body
}

/// Frames a JSON body for the wire: `Content-Length: <bytes>`, an empty
/// line, then the body.
pub fn frame_message(body: &str) -> (m: String)
    requires
        utf8_len(body@) <= usize::MAX,
    ensures
        m@ == framed(body@),
{
    let b = chars_of(body);
    let len = match utf8_len_exec(&b) {
        Some(n) => n,
        None => 0,
    };
    let head = concat(&chars_of("Content-Length: "), &u64_decimal(len as u64));
    let head = concat(&head, &chars_of("\r\n\r\n"));
    let all = concat(&head, &b);
    proof {
        reveal_strlit("\r\n\r\n");
        reveal_strlit("\r\n");
        assert(head@ =~= content_header(utf8_len(body@)));
    }
    string_of(&all)
}

// ---------------------------------------------------------------------
// Reading headers
// ---------------------------------------------------------------------

/// What one header line tells the reader of a message.
#[derive(Debug)]
pub enum HeaderStepOf<S> {
    /// Go on with the next header line; the body length known so far.
    Next(Option<usize>),
    /// The headers are over; read a body of this many bytes.
    Body(usize),
    /// The message cannot be read.
    Fail(S),
}

pub type HeaderStep = HeaderStepOf<String>;

pub open spec fn header_step_view(r: HeaderStep) -> HeaderStepOf<Seq<char>> {
    match r {
        HeaderStepOf::Next(k) => HeaderStepOf::Next(k),
        HeaderStepOf::Body(n) => HeaderStepOf::Body(n),
        HeaderStepOf::Fail(m) => HeaderStepOf::Fail(m@),
    }
}

/// The prefix of the one header that the reader looks at.
pub open spec fn length_prefix() -> Seq<char> {
    "Content-Length: "@
}

/// One header line read with `known` as the body length seen so far. The
/// line is trimmed first. An empty line ends the headers: the body length
/// must be known by then. A `Content-Length: ` line sets the length, which
/// must parse as a `usize`. Any other header is passed over.
pub open spec fn header_step(known: Option<usize>, line: Seq<char>) -> HeaderStepOf<Seq<char>> {
    let t = trim(line);
    if t.len() == 0 {
        match known {
            Some(n) => HeaderStepOf::Body(n),
            None => HeaderStepOf::Fail("Missing Content-Length header"@),
        }
    } else if starts_with(t, length_prefix()) {
        match parse_unsigned(t.subrange(length_prefix().len() as int, t.len() as int), usize::MAX as nat) {
            Ok(n) => HeaderStepOf::Next(Some(n as usize)),
            Err(e) => HeaderStepOf::Fail("Invalid Content-Length: "@ + int_parse_error_text(e)),
        }
    } else {
        HeaderStepOf::Next(known)
    }
}

/// Reads one header line of an incoming message (see `header_step`).
pub fn read_header_line(known: Option<usize>, line: &str) -> (r: HeaderStep)
    ensures
        header_step_view(r) == header_step(known, line@),
{
    let t = trim_exec(&chars_of(line));
    if t.len() == 0 {
        return match known {
            Some(n) => HeaderStepOf::Body(n),
            None => HeaderStepOf::Fail(String::from_str("Missing Content-Length header")),
        };
    }
    let prefix = chars_of("Content-Length: ");
    if t.len() >= prefix.len() && occurs_at_exec(&t, 0, &prefix) {
        proof {
            assert(t@.subrange(0, prefix@.len() as int) =~= prefix@);
        }
        let rest = slice_of(&t, prefix.len(), t.len());
        match parse_usize(&rest) {
            Ok(n) => HeaderStepOf::Next(Some(n)),
            Err(e) => {
                let msg = concat(&chars_of("Invalid Content-Length: "), &chars_of(e.message().as_str()));
                HeaderStepOf::Fail(string_of(&msg))
            },
        }
    } else {
        proof {
            if starts_with(t@, length_prefix()) {
                assert(crate::chars::occurs_at(t@, 0, prefix@));
            }
        }
        HeaderStepOf::Next(known)
    }
}

/// A message framed by `frame_message` reads back: its length line gives
/// the number of bytes of the body, and the empty line after it ends the
/// headers with that length.
pub proof fn law_framed_length_reads_back(body: Seq<char>)
    requires
        utf8_len(body) <= usize::MAX,
    ensures
        framed(body) == length_line(utf8_len(body)) + "\r\n"@ + body,
        header_step(None, length_line(utf8_len(body))) == HeaderStepOf::<Seq<char>>::Next(
            Some(utf8_len(body) as usize),
        ),
        header_step(Some(utf8_len(body) as usize), "\r\n"@) == HeaderStepOf::<Seq<char>>::Body(
            utf8_len(body) as usize,
        ),
{
    let n = utf8_len(body);
    let d = decimal(n);
    lemma_scan_decimal(n, usize::MAX as nat);
    lemma_decimal_last(n);
    reveal_strlit("Content-Length: ");
    reveal_strlit("\r\n");
    let pfx = "Content-Length: "@;
    let line = length_line(n);
    let core = pfx + d;
    // Trimming the length line leaves the prefix and the digits.
    assert(line[0] == 'C');
    assert(crate::chars::leading_spaces(line) == 0);
    assert(line.drop_last() =~= core.push('\r'));
    assert(line.drop_last().drop_last() =~= core);
    assert(core.last() == d.last());
    assert(crate::chars::trailing_spaces(core) == 0);
    assert(crate::chars::trailing_spaces(line.drop_last()) == 1);
    assert(crate::chars::trailing_spaces(line) == 2);
    assert(line.subrange(0, line.len() as int) =~= line);
    assert(trim(line) =~= core);
    assert(core.subrange(0, pfx.len() as int) =~= pfx);
    assert(core.subrange(pfx.len() as int, core.len() as int) =~= d);
    // Trimming the empty line leaves nothing.
    let crlf = "\r\n"@;
    assert(crlf.subrange(1, 2) =~= seq!['\n']);
    assert(seq!['\n'].subrange(1, 1) =~= Seq::<char>::empty());
    assert(crate::chars::leading_spaces(Seq::<char>::empty()) == 0);
    assert(crate::chars::is_space('\n'));
    assert(crate::chars::leading_spaces(seq!['\n']) == 1);
    assert(crate::chars::leading_spaces(crlf) == 2);
    assert(trim(crlf).len() == 0);
}

proof fn lemma_decimal_last(n: nat)
    ensures
        decimal(n).len() >= 1,
        crate::chars::is_digit(decimal(n).last()),
    decreases n,
{
    if n >= 10 {
        lemma_decimal_last(n / 10);
    }
}

// ---------------------------------------------------------------------
// Responses
// ---------------------------------------------------------------------

/// The `error` member of a JSON-RPC response.
pub struct ResponseError {
    pub code: i64,
    pub message: String,
}

/// What is wrong with a response to the request numbered `expected`, if
/// anything: an `id` that names another request, else an `error` member.
/// A response without an `id` is not held against the request.
pub open spec fn response_problem(expected: i64, id: Option<i64>, error: Option<ResponseError>) -> Option<Seq<char>> {
    if id is Some && id->0 != expected {
        Some("Response ID mismatch: expected "@ + signed_decimal(expected as int) + ", got "@ + signed_decimal(id->0 as int))
    } else if error is Some {
        Some("LSP error "@ + signed_decimal(error->0.code as int) + ": "@ + error->0.message@)
    } else {
        None
    }
}

/// Checks a response against the request it answers; `Err` carries the
/// message of the first problem found.
pub fn check_response(expected: i64, id: Option<i64>, error: Option<ResponseError>) -> (r: Result<(), String>)
    ensures
        match response_problem(expected, id, error) {
            Some(m) => r is Err && r->Err_0@ == m,
            None => r is Ok,
        },
{
    if let Some(got) = id {
        if got != expected {
            let m = concat(&chars_of("Response ID mismatch: expected "), &i64_decimal(expected));
            let m = concat(&m, &chars_of(", got "));
            let m = concat(&m, &i64_decimal(got));
            return Err(string_of(&m));
        }
    }
    match error {
        Some(e) => {
            let m = concat(&chars_of("LSP error "), &i64_decimal(e.code));
            let m = concat(&m, &chars_of(": "));
            let m = concat(&m, &chars_of(e.message.as_str()));
            Err(string_of(&m))
        },
        None => Ok(()),
    }
}

// ---------------------------------------------------------------------
// Definition results
// ---------------------------------------------------------------------

/// A range of a text document, in lines and characters.
#[derive(Clone, Copy, Debug, PartialEq, Eq, Structural)]
pub struct Range {
    pub start_line: u32,
    pub start_character: u32,
    pub end_line: u32,
    pub end_character: u32,
}

/// A place in a document.
#[derive(Debug)]
pub struct Location {
    pub uri: String,
    pub range: Range,
}

/// A link to a definition: where it is, and the part of it to select.
#[derive(Debug)]
pub struct LocationLink {
    pub target_uri: String,
    pub target_selection_range: Range,
}

/// The three shapes in which a server answers a definition request.
#[derive(Debug)]
pub enum DefinitionResponse {
    Scalar(Location),
    Array(Vec<Location>),
    Link(Vec<LocationLink>),
}

/// The location to go to for a definition result: the one location, the
/// first of a list, or the selection of the first link; none for an empty
/// list or no result.
pub open spec fn definition_choice(result: Option<DefinitionResponse>) -> Option<(Seq<char>, Range)> {
    match result {
        Some(DefinitionResponse::Scalar(l)) => Some((l.uri@, l.range)),
        Some(DefinitionResponse::Array(v)) => if v@.len() > 0 {
            Some((v@[0].uri@, v@[0].range))
        } else {
            None
        },
        Some(DefinitionResponse::Link(v)) => if v@.len() > 0 {
            Some((v@[0].target_uri@, v@[0].target_selection_range))
        } else {
            None
        },
        None => None,
    }
}

pub open spec fn location_view(l: Option<Location>) -> Option<(Seq<char>, Range)> {
    match l {
        Some(l) => Some((l.uri@, l.range)),
        None => None,
    }
}

/// Picks the location to jump to from a definition result (see
/// `definition_choice`).
pub fn first_definition(result: Option<DefinitionResponse>) -> (r: Option<Location>)
    ensures
        location_view(r) == definition_choice(result),
{
    match result {
        Some(DefinitionResponse::Scalar(l)) => Some(l),
        Some(DefinitionResponse::Array(v)) => {
            let mut v = v;
            if v.len() > 0 {
                Some(v.remove(0))
            } else {
                None
            }
        },
        Some(DefinitionResponse::Link(v)) => {
            let mut v = v;
            if v.len() > 0 {
                let link = v.remove(0);
                Some(Location { uri: link.target_uri, range: link.target_selection_range })
            } else {
                None
            }
        },
        None => None,
    }
}

} // verus!
