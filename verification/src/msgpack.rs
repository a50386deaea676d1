//! Msgpack values as Neovim sends them over RPC.
//!
//! The editor decodes the wire format; the library reads the decoded
//! values through the accessors below, which answer as the msgpack
//! decoder's accessors do (`as_str`, `as_u64`, `as_i64`, ...).

use vstd::prelude::*;

verus! {

/// A decoded msgpack value (`Table` is a msgpack map).
pub enum MsgValue {
    Nil,
    Boolean(bool),
    /// An integer, within `i64::MIN..=u64::MAX`.
    Integer(i128),
    /// A string: its text, or `None` when it is not valid UTF-8.
    Str(Option<String>),
    Array(Vec<MsgValue>),
    Table(Vec<(MsgValue, MsgValue)>),
    /// An extension value: type tag and payload.
    Ext(i8, Vec<u8>),
    /// Binary data or a float: never read by the library.
    Other,
}

pub open spec fn as_str(v: MsgValue) -> Option<Seq<char>> {
    match v {
        MsgValue::Str(Some(s)) => Some(s@),
        _ => None,
    }
}

pub open spec fn as_u64(v: MsgValue) -> Option<u64> {
    match v {
        MsgValue::Integer(n) => if 0 <= n <= u64::MAX {
            Some(n as u64)
        } else {
            None
        },
        _ => None,
    }
}

pub open spec fn as_i64(v: MsgValue) -> Option<i64> {
    match v {
        MsgValue::Integer(n) => if i64::MIN <= n <= i64::MAX {
            Some(n as i64)
        } else {
            None
        },
        _ => None,
    }
}

pub open spec fn as_bool(v: MsgValue) -> Option<bool> {
    match v {
        MsgValue::Boolean(b) => Some(b),
        _ => None,
    }
}

/// The string of a value, if it is a valid UTF-8 string.
pub fn value_as_str(v: &MsgValue) -> (r: Option<&String>)
    ensures
        r matches Some(s) ==> as_str(*v) == Some(s@),
        r is None ==> as_str(*v) is None,
{
    match v {
        MsgValue::Str(Some(s)) => Some(s),
        _ => None,
    }
}

pub fn value_as_u64(v: &MsgValue) -> (r: Option<u64>)
    ensures
        r == as_u64(*v),
{
    match v {
        MsgValue::Integer(n) => if 0 <= *n && *n <= u64::MAX as i128 {
            Some(*n as u64)
        } else {
            None
        },
        _ => None,
    }
}

pub fn value_as_i64(v: &MsgValue) -> (r: Option<i64>)
    ensures
        r == as_i64(*v),
{
    match v {
        MsgValue::Integer(n) => if i64::MIN as i128 <= *n && *n <= i64::MAX as i128 {
            Some(*n as i64)
        } else {
            None
        },
        _ => None,
    }
}

pub fn value_as_bool(v: &MsgValue) -> (r: Option<bool>)
    ensures
        r == as_bool(*v),
{
    match v {
        MsgValue::Boolean(b) => Some(*b),
        _ => None,
    }
}

} // verus!
