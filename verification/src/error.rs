//! The ways in which a bump ends before its time.

use vstd::prelude::*;
use vstd::string::StringExecFns;

verus! {

/// Why no bump was made.
#[derive(Debug, PartialEq, Eq)]
pub enum BumpError {
    /// HEAD is not on the primary branch. `actual` is the branch it is on,
    /// where it is on one.
    WrongBranch { actual: Option<String> },
    /// The working tree differs from the index; `summary` says in what.
    DirtyWorkingTree { summary: String },
    /// No commit in the history of HEAD has a tag.
    NoPreviousTag,
    /// The tag found does not end in `-X.Y.Z`, or one of its numbers is too large.
    MalformedTag,
    /// The component to step is already the largest that the version can hold.
    VersionOverflow,
}

impl BumpError {
    /// What `message` says.
    pub open spec fn message_text(&self) -> Seq<char> {
        match self {
            BumpError::WrongBranch { actual: None } => "must be on main branch"@,
            BumpError::WrongBranch { actual: Some(branch) } => "must be on main branch, not on "@
                + branch@,
            BumpError::DirtyWorkingTree { summary } => "Repo contains uncommited changes: "@
                + summary@,
            BumpError::NoPreviousTag => "No previous tag found"@,
            BumpError::MalformedTag => "Tag name does not end in a version"@,
            BumpError::VersionOverflow => "Version number too large to bump"@,
        }
    }

    /// One line that describes the failure.
    pub fn message(&self) -> (text: String)
        ensures
            text@ == self.message_text(),
    {
        match self {
            BumpError::WrongBranch { actual: None } => String::from_str("must be on main branch"),
            BumpError::WrongBranch { actual: Some(branch) } => {
                let mut text = String::from_str("must be on main branch, not on ");
                text.append(branch.as_str());
                text
            },
            BumpError::DirtyWorkingTree { summary } => {
                let mut text = String::from_str("Repo contains uncommited changes: ");
                text.append(summary.as_str());
                text
            },
            BumpError::NoPreviousTag => String::from_str("No previous tag found"),
            BumpError::MalformedTag => String::from_str("Tag name does not end in a version"),
            BumpError::VersionOverflow => String::from_str("Version number too large to bump"),
        }
    }
}

} // verus!
