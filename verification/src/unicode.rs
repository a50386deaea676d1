//! Unicode character properties the editor logic relies on.
//!
//! Whitespace, control characters and UTF-8 widths are stated here in
//! full; the larger tables (alphanumeric, case) come from `char`'s own
//! methods, whose answers are named below.

use vstd::prelude::*;

verus! {

/// What `char::is_alphanumeric` answers for a character.
pub uninterp spec fn char_is_alphanumeric(c: char) -> bool;

/// What `char::is_uppercase` answers for a character.
pub uninterp spec fn char_is_uppercase(c: char) -> bool;

/// The characters `char::to_uppercase` yields for a character.
pub uninterp spec fn char_to_uppercase(c: char) -> Seq<char>;

/// The characters `char::to_lowercase` yields for a character.
pub uninterp spec fn char_to_lowercase(c: char) -> Seq<char>;

/// `char::is_alphanumeric`: the character is alphabetic or numeric in the
/// Unicode tables; the answer is named, not spelled out.
#[verifier::external_body]
pub(crate) fn is_alphanumeric(c: char) -> (b: bool)
    ensures
        b == char_is_alphanumeric(c),
{
    c.is_alphanumeric()
}

/// `char::is_uppercase`: the Unicode `Uppercase` property, named.
#[verifier::external_body]
pub(crate) fn is_uppercase(c: char) -> (b: bool)
    ensures
        b == char_is_uppercase(c),
{
    c.is_uppercase()
}

/// `char::to_uppercase`: the uppercase mapping of one character, which
/// may be several characters; named.
#[verifier::external_body]
pub(crate) fn to_uppercase(c: char) -> (v: Vec<char>)
    ensures
        v@ == char_to_uppercase(c),
{
    c.to_uppercase().collect()
}

/// `char::to_lowercase`: the lowercase mapping of one character, which
/// may be several characters; named.
#[verifier::external_body]
pub(crate) fn to_lowercase(c: char) -> (v: Vec<char>)
    ensures
        v@ == char_to_lowercase(c),
{
    c.to_lowercase().collect()
}

/// Word characters for `*`, `#`, `K` and friends.
pub open spec fn is_word_char(c: char) -> bool {
    char_is_alphanumeric(c) || c == '_'
}

pub fn is_word_char_exec(c: char) -> (b: bool)
    ensures
        b == is_word_char(c),
{
    is_alphanumeric(c) || c == '_'
}

/// Control characters (general category Cc), as `char::is_control`.
pub open spec fn is_control(c: char) -> bool {
    (c as u32) < 0x20 || (0x7f <= (c as u32) && (c as u32) < 0xa0)
}

pub fn is_control_exec(c: char) -> (b: bool)
    ensures
        b == is_control(c),
{
    (c as u32) < 0x20 || (0x7f <= (c as u32) && (c as u32) < 0xa0)
}

/// Bytes a character takes in UTF-8.
pub open spec fn utf8_width(c: char) -> nat {
    if (c as u32) < 0x80 {
        1
    } else if (c as u32) < 0x800 {
        2
    } else if (c as u32) < 0x10000 {
        3
    } else {
        4
    }
}

/// Bytes a text takes in UTF-8 (what `str::len` returns).
pub open spec fn utf8_len(s: Seq<char>) -> nat
    decreases s.len(),
{
    if s.len() == 0 {
        0
    } else {
        utf8_len(s.drop_last()) + utf8_width(s.last())
    }
}

pub proof fn lemma_utf8_len_ge(s: Seq<char>)
    ensures
        utf8_len(s) >= s.len(),
        utf8_len(s) == s.len() <==> (forall|i: int| 0 <= i < s.len() ==> (#[trigger] s[i] as u32) < 0x80),
    decreases s.len(),
{
    if s.len() > 0 {
        lemma_utf8_len_ge(s.drop_last());
        if utf8_len(s) == s.len() {
            assert forall|i: int| 0 <= i < s.len() implies (#[trigger] s[i] as u32) < 0x80 by {
                if i < s.len() - 1 {
                    assert(s[i] == s.drop_last()[i]);
                }
            }
        }
        if forall|i: int| 0 <= i < s.len() ==> (#[trigger] s[i] as u32) < 0x80 {
            assert forall|i: int| 0 <= i < s.drop_last().len() implies (#[trigger] s.drop_last()[i] as u32) < 0x80 by {
                assert(s.drop_last()[i] == s[i]);
            }
        }
    }
}

/// The UTF-8 length of a text, when it fits in `usize`.
pub fn utf8_len_exec(v: &Vec<char>) -> (r: Option<usize>)
    ensures
        r matches Some(n) ==> n == utf8_len(v@),
        r is None ==> utf8_len(v@) > usize::MAX,
{
    let mut n: usize = 0;
    let mut i: usize = 0;
    while i < v.len()
        invariant
            i <= v@.len(),
            n == utf8_len(v@.subrange(0, i as int)),
        decreases v.len() - i,
    {
        assert(v@.subrange(0, i + 1).drop_last() =~= v@.subrange(0, i as int));
        let c = v[i];
        let w: usize = if (c as u32) < 0x80 {
            1
        } else if (c as u32) < 0x800 {
            2
        } else if (c as u32) < 0x10000 {
            3
        } else {
            4
        };
        if n > usize::MAX - w {
            proof {
                lemma_utf8_prefix_le(v@, i + 1);
            }
            return None;
        }
        n = n + w;
        i = i + 1;
    }
    assert(v@.subrange(0, i as int) =~= v@);
    Some(n)
}

proof fn lemma_utf8_prefix_le(s: Seq<char>, k: int)
    requires
        0 <= k <= s.len(),
    ensures
        utf8_len(s.subrange(0, k)) <= utf8_len(s),
    decreases s.len() - k,
{
    if k < s.len() {
        lemma_utf8_prefix_le(s, k + 1);
        assert(s.subrange(0, k + 1).drop_last() =~= s.subrange(0, k));
    } else {
        assert(s.subrange(0, k) =~= s);
    }
}

/// Whether a text takes more than one byte in UTF-8.
pub fn utf8_len_above_one(v: &Vec<char>) -> (b: bool)
    ensures
        b == (utf8_len(v@) > 1),
{
    proof {
        lemma_utf8_len_ge(v@);
    }
    if v.len() >= 2 {
        true
    } else if v.len() == 1 {
        proof {
            assert(v@.drop_last() =~= Seq::<char>::empty());
        }
        (v[0] as u32) >= 0x80
    } else {
        false
    }
}

} // verus!
