//! Versions of pinned definitions.

use vstd::prelude::*;

use crate::debug::{entry_string, entry_text, is_alternate, struct_string, struct_text, write_text};
use crate::decimal::{decimal_string, decimal_text};
use crate::text::texts;

verus! {

/// A version of three numbers.
#[derive(Clone, Copy, PartialEq, Eq, PartialOrd, Ord, Hash, Structural)]
pub struct Version {
    /// The major number.
    pub major: u64,
    /// The minor number.
    pub minor: u64,
    /// The patch number.
    pub patch: u64,
}

/// The text of a version: its numbers, joined by `.`.
pub open spec fn version_text(version: Version) -> Seq<char> {
    decimal_text(version.major as nat).push('.') + decimal_text(version.minor as nat).push('.')
        + decimal_text(version.patch as nat)
}

impl Version {
    /// Names a version.
    pub fn new(major: u64, minor: u64, patch: u64) -> (r: Version)
        ensures
            r == (Version { major, minor, patch }),
    {
        Version { major, minor, patch }
    }

    /// Writes the text of the version.
    pub fn to_string(&self) -> (r: String)
        ensures
            r@ == version_text(*self),
    {
        let mut text: String = decimal_string(self.major);
        text.push('.');
        let minor: String = decimal_string(self.minor);
        text.append(minor.as_str());
        text.push('.');
        let patch: String = decimal_string(self.patch);
        text.append(patch.as_str());
        assert(text@ =~= version_text(*self));
        text
    }
}

// ---------------------------------------------------------------------------
// Debug output
// ---------------------------------------------------------------------------

/// The fields that are shown of a version.
pub open spec fn version_fields(version: Version) -> Seq<Seq<char>> {
    seq![
        entry_text("major"@, decimal_text(version.major as nat)),
        entry_text("minor"@, decimal_text(version.minor as nat)),
        entry_text("patch"@, decimal_text(version.patch as nat)),
    ]
}

/// What is shown of a version.
pub open spec fn version_shown(version: Version, alternate: bool) -> Seq<char> {
    struct_text("Version"@, version_fields(version), false, alternate)
}

impl Version {
    /// Returns what is shown of it for debugging.
    pub fn debug_text(&self, alternate: bool) -> (r: String)
        ensures
            r@ == version_shown(*self, alternate),
    {
        let fields = vec![
            entry_string("major", decimal_string(self.major)),
            entry_string("minor", decimal_string(self.minor)),
            entry_string("patch", decimal_string(self.patch)),
        ];
        assert(texts(fields@) =~= version_fields(*self));
        struct_string("Version", &fields, false, alternate)
    }
}

impl core::fmt::Debug for Version {
    fn fmt(&self, formatter: &mut core::fmt::Formatter<'_>) -> core::fmt::Result {
        let alternate: bool = is_alternate(formatter);
        write_text(formatter, self.debug_text(alternate).as_str())
    }
}

} // verus!
