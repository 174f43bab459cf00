//! The version triple and the three ways to step it.

use vstd::prelude::*;
use crate::text::{decimal, decimal_chars, push_all, string_of};

verus! {

/// Which component of a version a bump increments.
#[allow(non_camel_case_types)]
#[derive(Clone, Copy, Debug, PartialEq, Eq, Structural)]
pub enum BumpType {
    major,
    minor,
    patch,
}

/// A `major.minor.patch` triple.
#[derive(Clone, Copy, Debug, PartialEq, Eq, Structural)]
pub struct Version {
    pub major: i32,
    pub minor: i32,
    pub patch: i32,
}

/// What a bump of `v` in the given way is, as a triple of integers.
pub open spec fn bumped(v: (int, int, int), kind: BumpType) -> (int, int, int) {
    match kind {
        BumpType::major => (v.0 + 1, 0, 0),
        BumpType::minor => (v.0, v.1 + 1, 0),
        BumpType::patch => (v.0, v.1, v.2 + 1),
    }
}

/// Whether the component of `v` that a bump of the given kind steps can grow
/// by one and still fit in `i32`.
pub open spec fn bumpable(v: (int, int, int), kind: BumpType) -> bool {
    match kind {
        BumpType::major => v.0 < i32::MAX,
        BumpType::minor => v.1 < i32::MAX,
        BumpType::patch => v.2 < i32::MAX,
    }
}

/// The text of a version: its three numbers in decimal, parted by full stops.
pub open spec fn version_text(v: (int, int, int)) -> Seq<char> {
    decimal(v.0 as nat) + seq!['.'] + decimal(v.1 as nat) + seq!['.'] + decimal(v.2 as nat)
}

impl View for Version {
    type V = (int, int, int);

    open spec fn view(&self) -> (int, int, int) {
        (self.major as int, self.minor as int, self.patch as int)
    }
}

impl Version {
    /// No component is negative.
    pub open spec fn wf(&self) -> bool {
        self.major >= 0 && self.minor >= 0 && self.patch >= 0
    }

    /// Whether the bump of the given kind stays within `i32`.
    pub open spec fn can_bump(&self, kind: BumpType) -> bool {
        bumpable(self@, kind)
    }

    /// The next major version: minor and patch start again at zero.
    pub fn bump_major(&self) -> (next: Version)
        requires
            self.wf(),
            self.can_bump(BumpType::major),
        ensures
            next.wf(),
            next@ == bumped(self@, BumpType::major),
    {
        Version { major: self.major + 1, minor: 0, patch: 0 }
    }

    /// The next minor version: patch starts again at zero.
    pub fn bump_minor(&self) -> (next: Version)
        requires
            self.wf(),
            self.can_bump(BumpType::minor),
        ensures
            next.wf(),
            next@ == bumped(self@, BumpType::minor),
    {
        Version { major: self.major, minor: self.minor + 1, patch: 0 }
    }

    /// The next patch version.
    pub fn bump_patch(&self) -> (next: Version)
        requires
            self.wf(),
            self.can_bump(BumpType::patch),
        ensures
            next.wf(),
            next@ == bumped(self@, BumpType::patch),
    {
        Version { major: self.major, minor: self.minor, patch: self.patch + 1 }
    }

    /// The bump of the given kind, unless the component to step is at the top of `i32`.
    pub fn bump(&self, kind: BumpType) -> (next: Option<Version>)
        requires
            self.wf(),
        ensures
            next is Some <==> self.can_bump(kind),
            next is Some ==> next->0.wf() && next->0@ == bumped(self@, kind),
    {
        match kind {
            BumpType::major => if self.major < i32::MAX {
                Some(self.bump_major())
            } else {
                None
            },
            BumpType::minor => if self.minor < i32::MAX {
                Some(self.bump_minor())
            } else {
                None
            },
            BumpType::patch => if self.patch < i32::MAX {
                Some(self.bump_patch())
            } else {
                None
            },
        }
    }

    /// The version as text, `major.minor.patch`.
    pub fn version_str(&self) -> (s: String)
        requires
            self.wf(),
        ensures
            s@ == version_text(self@),
    {
        let mut out = decimal_chars(self.major as u32);
        out.push('.');
        let minor = decimal_chars(self.minor as u32);
        push_all(&mut out, &minor);
        out.push('.');
        let patch = decimal_chars(self.patch as u32);
        push_all(&mut out, &patch);
        assert(out@ =~= version_text(self@));
        string_of(&out)
    }
}

} // verus!
