//! The decisions of one run: whether the repository is in a state to bump
//! from, and which version follows which.

use vstd::prelude::*;
use vstd::string::StringExecFns;
use crate::error::BumpError;
use crate::index::{is_first_tagged, latest_tagged, none_tagged, CommitId, TagIndex};
use crate::tag::tag_version;
use crate::text::same_text;
use crate::version::{bumpable, bumped, version_text, BumpType, Version};

verus! {

/// The short name of the branch that a bump is made from.
pub open spec fn primary_branch() -> Seq<char> {
    "main"@
}

/// The version found and the version that follows it, both as text.
#[derive(Debug, PartialEq, Eq)]
pub struct BumpPlan {
    pub old_version: String,
    pub next_version: String,
}

/// Whether `r` is what a bump of the given kind from the tag `name` comes to:
/// `MalformedTag` where the name spells no version, `VersionOverflow` where
/// the version cannot be stepped, else the two texts.
pub open spec fn is_plan_for(r: Result<BumpPlan, BumpError>, name: Seq<char>, kind: BumpType) -> bool {
    match tag_version(name) {
        None => r is Err && r->Err_0 is MalformedTag,
        Some(v) => if bumpable(v, kind) {
            &&& r is Ok
            &&& r->Ok_0.old_version@ == version_text(v)
            &&& r->Ok_0.next_version@ == version_text(bumped(v, kind))
        } else {
            r is Err && r->Err_0 is VersionOverflow
        },
    }
}

/// Whether `r` is what a run comes to on the history `walk`, newest first,
/// and the tags of `index`: `NoPreviousTag` where no commit of the walk has a
/// tag, else what the tag of the first that has one gives.
pub open spec fn is_next_versions(
    r: Result<BumpPlan, BumpError>,
    walk: Seq<CommitId>,
    index: Map<Seq<u8>, Seq<char>>,
    kind: BumpType,
) -> bool {
    &&& none_tagged(walk, index) ==> r is Err && r->Err_0 is NoPreviousTag
    &&& forall|i: int| is_first_tagged(walk, index, i) ==> is_plan_for(r, index[walk[i]@], kind)
}

/// Passes exactly where HEAD is on the primary branch. `shorthand` is the
/// short name of what HEAD resolves to, `None` where it has none.
pub fn check_branch(shorthand: Option<&str>) -> (r: Result<(), BumpError>)
    ensures
        r is Ok <==> shorthand is Some && shorthand->0@ == primary_branch(),
        r is Err ==> r->Err_0 is WrongBranch && match r->Err_0->actual {
            Some(branch) => shorthand is Some && branch@ == shorthand->0@,
            None => shorthand is None,
        },
{
    match shorthand {
        Some(name) => {
            if same_text(name, "main") {
                Ok(())
            } else {
                Err(BumpError::WrongBranch { actual: Some(String::from_str(name)) })
            }
        },
        None => Err(BumpError::WrongBranch { actual: None }),
    }
}

/// Passes exactly where no file of the working tree differs from the index:
/// a bump is made from a clean tree only. `summary` describes the differences
/// and goes into the error.
pub fn check_clean(files_changed: usize, summary: &str) -> (r: Result<(), BumpError>)
    ensures
        r is Ok <==> files_changed == 0,
        r is Err ==> r->Err_0 is DirtyWorkingTree && r->Err_0->summary@ == summary@,
{
    if files_changed > 0 {
        Err(BumpError::DirtyWorkingTree { summary: String::from_str(summary) })
    } else {
        Ok(())
    }
}

/// The version that the tag `name` spells and the one that a bump of the
/// given kind makes of it.
pub fn plan_from_tag(name: &str, kind: BumpType) -> (r: Result<BumpPlan, BumpError>)
    ensures
        is_plan_for(r, name@, kind),
{
    match Version::parse_tag(name) {
        Err(e) => Err(e),
        Ok(version) => {
            match version.bump(kind) {
                None => Err(BumpError::VersionOverflow),
                Some(next) => Ok(
                    BumpPlan { old_version: version.version_str(), next_version: next.version_str() },
                ),
            }
        },
    }
}

/// The plan of a run: finds the newest commit of `walk` that has a tag in
/// `index`, reads the version in the tag's name and steps it. `walk` is the
/// history of HEAD, newest first. Fails with `NoPreviousTag` exactly where no
/// commit of the walk has a tag.
pub fn next_versions(walk: &Vec<CommitId>, index: &TagIndex, kind: BumpType) -> (r: Result<
    BumpPlan,
    BumpError,
>)
    requires
        index.wf(),
    ensures
        is_next_versions(r, walk@, index@, kind),
{
    match latest_tagged(walk, index) {
        None => {
            assert forall|i: int| is_first_tagged(walk@, index@, i) implies false by {
                assert(!index@.contains_key(walk@[i]@));
            }
            Err(BumpError::NoPreviousTag)
        },
        Some(at) => {
            assert forall|i: int| is_first_tagged(walk@, index@, i) implies i == at by {
                if i < at {
                    assert(!index@.contains_key(walk@[i]@));
                }
                if at < i {
                    assert(!index@.contains_key(walk@[at as int]@));
                }
            }
            assert(!none_tagged(walk@, index@));
            match index.get(&walk[at]) {
                Some(name) => plan_from_tag(name.as_str(), kind),
                None => Err(BumpError::NoPreviousTag),
            }
        },
    }
}

} // verus!
