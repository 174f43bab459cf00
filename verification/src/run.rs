//! One run as a sequence of steps: the program around the library reads what
//! an action asks for and hands it back as an event; each step decides what
//! comes next.

use vstd::pervasive::unreached;
use vstd::prelude::*;
use crate::error::BumpError;
use crate::index::{CommitId, TagIndex};
use crate::patch::{patch_contents, replaced};
use crate::plan::{check_branch, check_clean, is_next_versions, next_versions, primary_branch, BumpPlan};
use crate::version::BumpType;

verus! {

/// The name of the file that declares the project's version. It stands at
/// the root of the working tree, and is the one file that a run reads and writes.
pub const VERSION_FILE: &'static str = "package.py";

/// Where a run stands: what it waits for.
#[derive(Debug)]
pub enum Stage {
    /// The branch that HEAD is on.
    Head,
    /// How the working tree differs from the index.
    Diff,
    /// The tags of the repository and the history of HEAD.
    History,
    /// The content of the version file, which `plan` is to be carried into.
    Contents { plan: BumpPlan },
    /// Nothing: the run has ended, with a write or a failure.
    Finished,
}

/// What the repository or the file system showed.
pub enum Event {
    /// The short name of what HEAD resolves to, `None` where it has none.
    Head { shorthand: Option<String> },
    /// The number of files that differ, and a summary of the differences.
    Diff { files_changed: usize, summary: String },
    /// Every tag, and the commits reachable from HEAD, newest first.
    History { index: TagIndex, walk: Vec<CommitId> },
    /// The text of the version file.
    Contents { text: String },
}

/// What is to be done next.
#[derive(Debug, PartialEq, Eq)]
pub enum Action {
    ReadHead,
    ReadDiff,
    ReadHistory,
    ReadContents,
    /// Overwrite the version file with `contents`: the one write of a run.
    Write { contents: String },
    /// End the run with `error`.
    Fail { error: BumpError },
}

/// Whether `event` is what a run at `stage` waits for.
pub open spec fn expects(stage: Stage, event: Event) -> bool {
    match (stage, event) {
        (Stage::Head, Event::Head { .. }) => true,
        (Stage::Diff, Event::Diff { .. }) => true,
        (Stage::History, Event::History { index, .. }) => index.wf(),
        (Stage::Contents { .. }, Event::Contents { .. }) => true,
        _ => false,
    }
}

/// Whether `next` and `action` are what follows `event` at `stage`. Every
/// failure ends the run; the steps follow one another in one order, and only
/// the last of them writes.
pub open spec fn is_step(stage: Stage, event: Event, kind: BumpType, next: Stage, action: Action) -> bool {
    match (stage, event) {
        (Stage::Head, Event::Head { shorthand }) => {
            if shorthand is Some && shorthand->0@ == primary_branch() {
                next is Diff && action is ReadDiff
            } else {
                &&& next is Finished
                &&& action is Fail
                &&& action->error is WrongBranch
                &&& match (action->error->actual, shorthand) {
                    (Some(told), Some(seen)) => told@ == seen@,
                    (None, None) => true,
                    _ => false,
                }
            }
        },
        (Stage::Diff, Event::Diff { files_changed, summary }) => {
            if files_changed == 0 {
                next is History && action is ReadHistory
            } else {
                &&& next is Finished
                &&& action is Fail
                &&& action->error is DirtyWorkingTree
                &&& action->error->summary@ == summary@
            }
        },
        (Stage::History, Event::History { index, walk }) => match (next, action) {
            (Stage::Contents { plan }, Action::ReadContents) => is_next_versions(
                Ok(plan),
                walk@,
                index@,
                kind,
            ),
            (Stage::Finished, Action::Fail { error }) => is_next_versions(
                Err(error),
                walk@,
                index@,
                kind,
            ),
            _ => false,
        },
        (Stage::Contents { plan }, Event::Contents { text }) => {
            &&& next is Finished
            &&& action is Write
            &&& action->contents@ == replaced(text@, plan.old_version@, plan.next_version@)
        },
        _ => true,
    }
}

/// The beginning of a run.
pub fn start() -> (r: (Stage, Action))
    ensures
        r.0 is Head,
        r.1 is ReadHead,
{
    (Stage::Head, Action::ReadHead)
}

/// One step of a run that bumps in the way `kind`.
pub fn step(stage: Stage, event: Event, kind: BumpType) -> (r: (Stage, Action))
    requires
        expects(stage, event),
    ensures
        is_step(stage, event, kind, r.0, r.1),
{
    match stage {
        Stage::Head => match event {
            Event::Head { shorthand } => {
                let verdict = match &shorthand {
                    Some(name) => check_branch(Some(name.as_str())),
                    None => check_branch(None),
                };
                match verdict {
                    Ok(_) => (Stage::Diff, Action::ReadDiff),
                    Err(error) => (Stage::Finished, Action::Fail { error }),
                }
            },
            _ => unreached(),
        },
        Stage::Diff => match event {
            Event::Diff { files_changed, summary } => {
                match check_clean(files_changed, summary.as_str()) {
                    Ok(_) => (Stage::History, Action::ReadHistory),
                    Err(error) => (Stage::Finished, Action::Fail { error }),
                }
            },
            _ => unreached(),
        },
        Stage::History => match event {
            Event::History { index, walk } => {
                match next_versions(&walk, &index, kind) {
                    Ok(plan) => (Stage::Contents { plan }, Action::ReadContents),
                    Err(error) => (Stage::Finished, Action::Fail { error }),
                }
            },
            _ => unreached(),
        },
        Stage::Contents { plan } => match event {
            Event::Contents { text } => {
                let contents = patch_contents(
                    text.as_str(),
                    plan.old_version.as_str(),
                    plan.next_version.as_str(),
                );
                (Stage::Finished, Action::Write { contents })
            },
            _ => unreached(),
        },
        Stage::Finished => unreached(),
    }
}

} // verus!
