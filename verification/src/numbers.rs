//! Decimal numbers: parsing (as `str::parse` does) and rendering (as
//! `to_string` does).

use crate::chars::{is_digit, is_digit_char};
use vstd::prelude::*;

verus! {

pub open spec fn digit_value(c: char) -> nat {
    ((c as u32) - ('0' as u32)) as nat
}

pub open spec fn digit_char(d: nat) -> char {
    ((d + ('0' as u32)) as u32) as char
}

pub open spec fn all_digits(s: Seq<char>) -> bool {
    forall|i: int| 0 <= i < s.len() ==> is_digit(#[trigger] s[i])
}

/// Value of a sequence of decimal digits.
pub open spec fn digits_value(s: Seq<char>) -> nat
    decreases s.len(),
{
    if s.len() == 0 {
        0
    } else {
        digits_value(s.drop_last()) * 10 + digit_value(s.last())
    }
}

/// Decimal rendering of a natural number, without leading zeros.
pub open spec fn decimal(n: nat) -> Seq<char>
    decreases n,
{
    if n < 10 {
        seq![digit_char(n)]
    } else {
        decimal(n / 10).push(digit_char(n % 10))
    }
}

/// Decimal rendering of an integer with a leading `-` when negative.
pub open spec fn signed_decimal(n: int) -> Seq<char> {
    if n < 0 {
        seq!['-'] + decimal((-n) as nat)
    } else {
        decimal(n as nat)
    }
}

/// What `s.parse::<T>()` gives for an integer type whose values are
/// `lo..=hi`: an optional sign, then at least one digit and nothing else.
pub open spec fn parse_int(s: Seq<char>, lo: int, hi: int) -> Option<int> {
    if s.len() > 0 && (s[0] == '-' || s[0] == '+') {
        let body = s.subrange(1, s.len() as int);
        if body.len() > 0 && all_digits(body) {
            let v: int = if s[0] == '-' {
                -(digits_value(body) as int)
            } else {
                digits_value(body) as int
            };
            if lo <= v && v <= hi {
                Some(v)
            } else {
                None
            }
        } else {
            None
        }
    } else if s.len() > 0 && all_digits(s) && lo <= digits_value(s) as int && digits_value(
        s,
    ) as int <= hi {
        Some(digits_value(s) as int)
    } else {
        None
    }
}

proof fn lemma_digits_value_push(s: Seq<char>, c: char)
    ensures
        digits_value(s.push(c)) == digits_value(s) * 10 + digit_value(c),
{
    assert(s.push(c).drop_last() =~= s);
}

/// Value of `v[from..to]` as digits, or `None` when some character is not
/// a digit or the value exceeds `limit`.
pub(crate) fn digits_value_upto(v: &Vec<char>, from: usize, to: usize, limit: u64) -> (r: Option<u64>)
    requires
        from <= to <= v.len(),
    ensures
        r matches Some(x) ==> all_digits(v@.subrange(from as int, to as int)) && x == digits_value(
            v@.subrange(from as int, to as int),
        ) && x <= limit,
        r is None ==> !all_digits(v@.subrange(from as int, to as int)) || digits_value(
            v@.subrange(from as int, to as int),
        ) > limit,
{
    let mut acc: u64 = 0;
    let mut i = from;
    while i < to
        invariant
            from <= i <= to <= v.len(),
            all_digits(v@.subrange(from as int, i as int)),
            acc == digits_value(v@.subrange(from as int, i as int)),
            acc <= limit,
        decreases to - i,
    {
        let c = v[i];
        let ghost pre = v@.subrange(from as int, i as int);
        assert(v@.subrange(from as int, i + 1) =~= pre.push(c));
        proof {
            lemma_digits_value_push(pre, c);
        }
        if !is_digit_char(c) {
            assert(!is_digit(v@.subrange(from as int, to as int)[i - from]));
            return None;
        }
        let d: u64 = (c as u32 - '0' as u32) as u64;
        if d > limit || acc > (limit - d) / 10 {
            proof {
                lemma_value_prefix_le(v@.subrange(from as int, to as int), (i + 1 - from) as int);
                assert(v@.subrange(from as int, to as int).subrange(0, i + 1 - from) =~= pre.push(
                    c,
                ));
                assert(acc * 10 + d > limit) by (nonlinear_arith)
                    requires
                        d > limit || acc > (limit - d) / 10,
                        d <= 9,
                ;
            }
            return None;
        }
        assert(acc * 10 + d <= limit) by (nonlinear_arith)
            requires
                acc <= (limit - d) / 10,
                d <= limit,
        ;
        acc = acc * 10 + d;
        i = i + 1;
    }
    Some(acc)
}

proof fn lemma_value_prefix_le(s: Seq<char>, k: int)
    requires
        0 <= k <= s.len(),
    ensures
        digits_value(s.subrange(0, k)) <= digits_value(s),
    decreases s.len() - k,
{
    if k < s.len() {
        lemma_value_prefix_le(s, k + 1);
        let p = s.subrange(0, k + 1);
        assert(p.drop_last() =~= s.subrange(0, k));
    } else {
        assert(s.subrange(0, k) =~= s);
    }
}

/// `v.parse::<T>()` for an integer type whose values are `lo..=hi`.
pub fn parse_int_exec(v: &Vec<char>, lo: i64, hi: i64) -> (r: Option<i64>)
    requires
        lo < 0 <= hi,
    ensures
        r matches Some(x) ==> parse_int(v@, lo as int, hi as int) == Some(x as int),
        r is None ==> parse_int(v@, lo as int, hi as int) is None,
{
    let n = v.len();
    if n > 0 && (v[0] == '-' || v[0] == '+') {
        let ghost body = v@.subrange(1, n as int);
        if n == 1 {
            return None;
        }
        if v[0] == '-' {
            let lim: u64 = ((-(lo + 1)) as u64) + 1;
            match digits_value_upto(v, 1, n, lim) {
                Some(x) => {
                    if x == lim {
                        Some(lo)
                    } else {
                        let y: i64 = x as i64;
                        Some(-y)
                    }
                },
                None => None,
            }
        } else {
            match digits_value_upto(v, 1, n, hi as u64) {
                Some(x) => Some(x as i64),
                None => None,
            }
        }
    } else {
        assert(v@.subrange(0, n as int) =~= v@);
        if n == 0 {
            return None;
        }
        match digits_value_upto(v, 0, n, hi as u64) {
            Some(x) => Some(x as i64),
            None => None,
        }
    }
}

proof fn lemma_decimal_len(n: nat)
    ensures
        decimal(n).len() >= 1,
    decreases n,
{
    if n >= 10 {
        lemma_decimal_len(n / 10);
    }
}

/// Decimal rendering of an unsigned number.
pub fn u64_decimal(n: u64) -> (r: Vec<char>)
    ensures
        r@ == decimal(n as nat),
    decreases n,
{
    if n < 10 {
        let mut r: Vec<char> = Vec::new();
        r.push(digit_to_char(n));
        assert(r@ =~= seq![digit_char(n as nat)]);
        r
    } else {
        let mut r = u64_decimal(n / 10);
        r.push(digit_to_char(n % 10));
        r
    }
}

fn digit_to_char(d: u64) -> (c: char)
    requires
        d < 10,
    ensures
        c == digit_char(d as nat),
{
    let b: u8 = (d as u8) + 48;
    b as char
}

/// Decimal rendering of a signed number, as `i64::to_string`.
pub fn i64_decimal(n: i64) -> (r: Vec<char>)
    ensures
        r@ == signed_decimal(n as int),
{
    if n < 0 {
        let m: u64 = ((-(n + 1)) as u64) + 1;
        let d = u64_decimal(m);
        let mut r: Vec<char> = Vec::new();
        r.push('-');
        let r2 = crate::chars::concat(&r, &d);
        assert(r@ =~= seq!['-']);
        r2
    } else {
        u64_decimal(n as u64)
    }
}


// ---------------------------------------------------------------------
// Unsigned parsing with the error kinds of `ParseIntError`
// ---------------------------------------------------------------------

/// Why parsing an unsigned integer failed, as `ParseIntError::kind` tells.
#[derive(Clone, Copy, Debug, PartialEq, Eq, Structural)]
pub enum IntParseError {
    Empty,
    InvalidDigit,
    PosOverflow,
}

/// The text that `ParseIntError` displays for each kind.
pub open spec fn int_parse_error_text(e: IntParseError) -> Seq<char> {
    match e {
        IntParseError::Empty => "cannot parse integer from empty string"@,
        IntParseError::InvalidDigit => "invalid digit found in string"@,
        IntParseError::PosOverflow => "number too large to fit in target type"@,
    }
}

impl IntParseError {
    /// The message of this error.
    pub fn message(&self) -> (s: String)
        ensures
            s@ == int_parse_error_text(*self),
    {
        match self {
            IntParseError::Empty => String::from_str("cannot parse integer from empty string"),
            IntParseError::InvalidDigit => String::from_str("invalid digit found in string"),
            IntParseError::PosOverflow => String::from_str("number too large to fit in target type"),
        }
    }
}

/// Reads the digits of `s` from `i` on, `acc` being the value read so far:
/// the first character that is no digit fails with `InvalidDigit`, the first
/// digit that takes the value past `max` fails with `PosOverflow`.
pub open spec fn scan_digits(s: Seq<char>, i: int, acc: nat, max: nat) -> Result<nat, IntParseError>
    decreases s.len() - i,
{
    if i < 0 || i >= s.len() {
        Ok(acc)
    } else if !is_digit(s[i]) {
        Err(IntParseError::InvalidDigit)
    } else if acc * 10 + digit_value(s[i]) > max {
        Err(IntParseError::PosOverflow)
    } else {
        scan_digits(s, i + 1, acc * 10 + digit_value(s[i]), max)
    }
}

/// What `s.parse::<T>()` gives for an unsigned type whose largest value is
/// `max`: an optional `+`, then digits.
pub open spec fn parse_unsigned(s: Seq<char>, max: nat) -> Result<nat, IntParseError> {
    if s.len() == 0 {
        Err(IntParseError::Empty)
    } else if s.len() == 1 && (s[0] == '+' || s[0] == '-') {
        Err(IntParseError::InvalidDigit)
    } else if s[0] == '+' {
        scan_digits(s, 1, 0, max)
    } else {
        scan_digits(s, 0, 0, max)
    }
}

/// `v.parse::<usize>()`.
pub fn parse_usize(v: &Vec<char>) -> (r: Result<usize, IntParseError>)
    ensures
        match r {
            Ok(n) => parse_unsigned(v@, usize::MAX as nat) == Ok::<nat, IntParseError>(n as nat),
            Err(e) => parse_unsigned(v@, usize::MAX as nat) == Err::<nat, IntParseError>(e),
        },
{
    let n = v.len();
    if n == 0 {
        return Err(IntParseError::Empty);
    }
    if n == 1 && (v[0] == '+' || v[0] == '-') {
        return Err(IntParseError::InvalidDigit);
    }
    let mut i: usize = if v[0] == '+' { 1 } else { 0 };
    let ghost start: int = i as int;
    let mut acc: usize = 0;
    while i < n
        invariant
            n == v@.len(),
            i <= n,
            parse_unsigned(v@, usize::MAX as nat) == scan_digits(v@, i as int, acc as nat, usize::MAX as nat),
        decreases n - i,
    {
        let c = v[i];
        if !is_digit_char(c) {
            return Err(IntParseError::InvalidDigit);
        }
        let d: usize = (c as u32 - '0' as u32) as usize;
        if acc > (usize::MAX - d) / 10 {
            assert(acc * 10 + d > usize::MAX) by (nonlinear_arith)
                requires
                    acc > (usize::MAX - d) / 10,
                    d <= 9,
            ;
            return Err(IntParseError::PosOverflow);
        }
        assert(acc * 10 + d <= usize::MAX) by (nonlinear_arith)
            requires
                acc <= (usize::MAX - d) / 10,
                d <= 9,
        ;
        acc = acc * 10 + d;
        i = i + 1;
    }
    Ok(acc)
}

/// The digits of `decimal(n)` read back give `n`.
pub proof fn lemma_scan_decimal(n: nat, max: nat)
    requires
        n <= max,
    ensures
        scan_digits(decimal(n), 0, 0, max) == Ok::<nat, IntParseError>(n),
        decimal(n).len() >= 1,
        decimal(n)[0] != '+' && decimal(n)[0] != '-',
    decreases n,
{
    lemma_decimal_len(n);
    if n < 10 {
        assert(scan_digits(decimal(n), 1, n, max) == Ok::<nat, IntParseError>(n));
    } else {
        lemma_scan_decimal(n / 10, max);
        let d = decimal(n / 10);
        lemma_scan_push(d, digit_char(n % 10), 0, 0, max, n / 10);
        assert(decimal(n)[0] == d[0]);
    }
}

/// Reading one more digit after a prefix that reads as `v`.
proof fn lemma_scan_push(s: Seq<char>, c: char, i: int, acc: nat, max: nat, v: nat)
    requires
        0 <= i <= s.len(),
        scan_digits(s, i, acc, max) == Ok::<nat, IntParseError>(v),
        is_digit(c),
        v * 10 + digit_value(c) <= max,
    ensures
        scan_digits(s.push(c), i, acc, max) == Ok::<nat, IntParseError>(v * 10 + digit_value(c)),
    decreases s.len() - i,
{
    if i < s.len() {
        assert(s.push(c)[i] == s[i]);
        lemma_scan_push(s, c, i + 1, acc * 10 + digit_value(s[i]), max, v);
    } else {
        assert(s.push(c)[i] == c);
        assert(scan_digits(s.push(c), i + 1, acc * 10 + digit_value(c), max) == Ok::<nat, IntParseError>(acc * 10 + digit_value(c)));
    }
}

} // verus!
