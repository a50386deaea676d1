//! Neovim versions and the minimum this plugin needs.

use crate::chars::{chars_of, concat, string_of};
use crate::msgpack::{as_str, as_u64, value_as_str, value_as_u64, MsgValue};
use crate::numbers::{decimal, u64_decimal};
use vstd::prelude::*;

verus! {

/// Neovim version information.
#[derive(Debug, Clone, Copy, Default, PartialEq, Eq, Structural)]
pub struct NeovimVersion {
    pub major: u64,
    pub minor: u64,
    pub patch: u64,
}

/// The minimum Neovim version: 0.9.0.
pub const NEOVIM_REQUIRED_MAJOR: u64 = 0;

pub const NEOVIM_REQUIRED_MINOR: u64 = 9;

pub const NEOVIM_REQUIRED_PATCH: u64 = 0;

/// `(major, minor, patch)` is at least `(a, b, c)` in lexicographic order.
pub open spec fn version_at_least(major: u64, minor: u64, patch: u64, a: u64, b: u64, c: u64) -> bool {
    major > a || (major == a && (minor > b || (minor == b && patch >= c)))
}

impl NeovimVersion {
    /// Whether this version is at least `major.minor.patch`.
    pub fn meets_requirement(&self, major: u64, minor: u64, patch: u64) -> (b: bool)
        ensures
            b == version_at_least(self.major, self.minor, self.patch, major, minor, patch),
    {
        if self.major > major {
            return true;
        }
        if self.major < major {
            return false;
        }
        if self.minor > minor {
            return true;
        }
        if self.minor < minor {
            return false;
        }
        self.patch >= patch
    }

    /// The version as `major.minor.patch`.
    pub fn to_version_string(&self) -> (s: String)
        ensures
            s@ == decimal(self.major as nat) + "."@ + decimal(self.minor as nat) + "."@ + decimal(
                self.patch as nat,
            ),
    {
        let dot = chars_of(".");
        let v = concat(
            &concat(&concat(&concat(&u64_decimal(self.major), &dot), &u64_decimal(self.minor)), &dot),
            &u64_decimal(self.patch),
        );
        string_of(&v)
    }
}

/// Every version meets its own requirement.
pub proof fn law_requirement_reflexive(v: NeovimVersion)
    ensures
        version_at_least(v.major, v.minor, v.patch, v.major, v.minor, v.patch),
{
}

/// Meeting requirements is transitive: a version that meets `w` meets
/// everything `w` meets.
pub proof fn law_requirement_transitive(v: NeovimVersion, w: NeovimVersion, x: NeovimVersion)
    requires
        version_at_least(v.major, v.minor, v.patch, w.major, w.minor, w.patch),
        version_at_least(w.major, w.minor, w.patch, x.major, x.minor, x.patch),
    ensures
        version_at_least(v.major, v.minor, v.patch, x.major, x.minor, x.patch),
{
}

/// Of two versions, one always meets the other; both do only when equal.
pub proof fn law_requirement_total(v: NeovimVersion, w: NeovimVersion)
    ensures
        version_at_least(v.major, v.minor, v.patch, w.major, w.minor, w.patch) || version_at_least(
            w.major,
            w.minor,
            w.patch,
            v.major,
            v.minor,
            v.patch,
        ),
        (version_at_least(v.major, v.minor, v.patch, w.major, w.minor, w.patch)
            && version_at_least(w.major, w.minor, w.patch, v.major, v.minor, v.patch)) ==> v == w,
{
}

/// The value of the last entry named `name`, as an unsigned number
/// (0 when it is not one); 0 when there is no such entry.
pub open spec fn last_u64_field(entries: Seq<(MsgValue, MsgValue)>, name: Seq<char>) -> u64
    decreases entries.len(),
{
    if entries.len() == 0 {
        0
    } else if as_str(entries.last().0) == Some(name) {
        if as_u64(entries.last().1) is Some {
            as_u64(entries.last().1)->0
        } else {
            0
        }
    } else {
        last_u64_field(entries.drop_last(), name)
    }
}

/// Index of the first entry named `name`.
pub open spec fn first_entry(entries: Seq<(MsgValue, MsgValue)>, name: Seq<char>) -> Option<int>
    decreases entries.len(),
{
    if entries.len() == 0 {
        None
    } else if as_str(entries[0].0) == Some(name) {
        Some(0)
    } else {
        match first_entry(entries.drop_first(), name) {
            Some(i) => Some(i + 1),
            None => None,
        }
    }
}

/// The version in `nvim_get_api_info`'s reply `[channel, {version: {...}}]`.
pub open spec fn api_info_version(info: Seq<MsgValue>) -> Option<NeovimVersion> {
    if info.len() < 2 {
        None
    } else {
        match info[1] {
            MsgValue::Table(entries) => match first_entry(entries@, "version"@) {
                None => None,
                Some(i) => match entries@[i].1 {
                    MsgValue::Table(fields) => Some(NeovimVersion {
                        major: last_u64_field(fields@, "major"@),
                        minor: last_u64_field(fields@, "minor"@),
                        patch: last_u64_field(fields@, "patch"@),
                    }),
                    _ => None,
                },
            },
            _ => None,
        }
    }
}

fn key_is(v: &MsgValue, name: &str) -> (b: bool)
    ensures
        b == (as_str(*v) == Some(name@)),
{
    match value_as_str(v) {
        Some(s) => crate::chars::eq_str(&chars_of(s.as_str()), name),
        None => false,
    }
}

fn last_u64_field_exec(entries: &Vec<(MsgValue, MsgValue)>, name: &str) -> (r: u64)
    ensures
        r == last_u64_field(entries@, name@),
{
    let mut r: u64 = 0;
    let mut i: usize = 0;
    assert(entries@.subrange(0, 0).len() == 0);
    while i < entries.len()
        invariant
            i <= entries@.len(),
            r == last_u64_field(entries@.subrange(0, i as int), name@),
        decreases entries.len() - i,
    {
        assert(entries@.subrange(0, i + 1).drop_last() =~= entries@.subrange(0, i as int));
        if key_is(&entries[i].0, name) {
            r = match value_as_u64(&entries[i].1) {
                Some(x) => x,
                None => 0,
            };
        }
        i = i + 1;
    }
    assert(entries@.subrange(0, i as int) =~= entries@);
    r
}

proof fn lemma_first_entry(entries: Seq<(MsgValue, MsgValue)>, name: Seq<char>, i: int)
    requires
        0 <= i <= entries.len(),
        forall|j: int| 0 <= j < i ==> as_str(#[trigger] entries[j].0) != Some(name),
    ensures
        i < entries.len() && as_str(entries[i].0) == Some(name) ==> first_entry(entries, name) == Some(i),
        i == entries.len() ==> first_entry(entries, name) is None,
    decreases i,
{
    if i > 0 {
        let rest = entries.drop_first();
        assert forall|j: int| 0 <= j < i - 1 implies as_str(#[trigger] rest[j].0) != Some(name) by {
            assert(rest[j] == entries[j + 1]);
        }
        lemma_first_entry(rest, name, i - 1);
    }
}

/// Read the version out of `nvim_get_api_info`'s reply.
pub fn parse_api_info_version(info: &Vec<MsgValue>) -> (r: Option<NeovimVersion>)
    ensures
        r == api_info_version(info@),
{
    if info.len() < 2 {
        return None;
    }
    let entries = match &info[1] {
        MsgValue::Table(e) => e,
        _ => {
            return None;
        },
    };
    let mut i: usize = 0;
    while i < entries.len()
        invariant
            i <= entries@.len(),
            info@.len() >= 2,
            info@[1] == MsgValue::Table(*entries),
            forall|j: int| 0 <= j < i ==> as_str(#[trigger] entries@[j].0) != Some("version"@),
        decreases entries.len() - i,
    {
        if key_is(&entries[i].0, "version") {
            proof {
                lemma_first_entry(entries@, "version"@, i as int);
            }
            assert(first_entry(entries@, "version"@) == Some(i as int));
            let entry = &entries[i];
            assert(*entry == entries@[i as int]);
            return match &entry.1 {
                MsgValue::Table(fields) => {
                    let major = last_u64_field_exec(fields, "major");
                    let minor = last_u64_field_exec(fields, "minor");
                    let patch = last_u64_field_exec(fields, "patch");
                    Some(NeovimVersion { major, minor, patch })
                },
                _ => None,
            };
        }
        i = i + 1;
    }
    proof {
        lemma_first_entry(entries@, "version"@, i as int);
    }
    None
}

} // verus!
