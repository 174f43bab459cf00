use dodgem::error::BumpError;
use dodgem::index::{CommitId, TagIndex};
use dodgem::plan::BumpPlan;
use dodgem::run::{start, step, Action, Event, Stage, VERSION_FILE};
use dodgem::version::BumpType;

fn id(byte: u8) -> CommitId {
    CommitId { bytes: vec![byte; 20] }
}

fn head(name: &str) -> Event {
    Event::Head { shorthand: Some(String::from(name)) }
}

fn clean() -> Event {
    Event::Diff { files_changed: 0, summary: String::new() }
}

fn history(tags: &[(u8, &str)], walk: &[u8]) -> Event {
    let mut index = TagIndex::new();
    for (commit, name) in tags {
        index.record(Some(id(*commit)), name.as_bytes().to_vec());
    }
    Event::History { index, walk: walk.iter().map(|b| id(*b)).collect() }
}

#[test]
fn the_version_file_is_the_package_file() {
    assert_eq!(VERSION_FILE, "package.py");
}

#[test]
fn a_run_starts_by_reading_head() {
    let (stage, action) = start();
    assert!(matches!(stage, Stage::Head));
    assert_eq!(action, Action::ReadHead);
}

#[test]
fn a_full_run_ends_in_one_write() {
    let (stage, action) = start();
    assert_eq!(action, Action::ReadHead);
    let (stage, action) = step(stage, head("main"), BumpType::minor);
    assert!(matches!(stage, Stage::Diff));
    assert_eq!(action, Action::ReadDiff);
    let (stage, action) = step(stage, clean(), BumpType::minor);
    assert!(matches!(stage, Stage::History));
    assert_eq!(action, Action::ReadHistory);
    let (stage, action) = step(stage, history(&[(2, "release-1.2.3")], &[3, 2, 1]), BumpType::minor);
    match &stage {
        Stage::Contents { plan } => assert_eq!(
            plan,
            &BumpPlan { old_version: String::from("1.2.3"), next_version: String::from("1.3.0") }
        ),
        other => panic!("{:?}", other),
    }
    assert_eq!(action, Action::ReadContents);
    let event = Event::Contents { text: String::from("version = \"1.2.3\"\n") };
    let (stage, action) = step(stage, event, BumpType::minor);
    assert!(matches!(stage, Stage::Finished));
    assert_eq!(action, Action::Write { contents: String::from("version = \"1.3.0\"\n") });
}

#[test]
fn a_run_on_another_branch_fails_before_anything_else() {
    let (stage, _) = start();
    let (stage, action) = step(stage, head("develop"), BumpType::minor);
    assert!(matches!(stage, Stage::Finished));
    assert_eq!(
        action,
        Action::Fail { error: BumpError::WrongBranch { actual: Some(String::from("develop")) } }
    );
}

#[test]
fn a_run_without_a_branch_name_fails() {
    let (stage, _) = start();
    let (stage, action) = step(stage, Event::Head { shorthand: None }, BumpType::minor);
    assert!(matches!(stage, Stage::Finished));
    assert_eq!(action, Action::Fail { error: BumpError::WrongBranch { actual: None } });
}

#[test]
fn a_run_on_a_dirty_tree_fails() {
    let event = Event::Diff { files_changed: 2, summary: String::from(" 2 files changed") };
    let (stage, action) = step(Stage::Diff, event, BumpType::patch);
    assert!(matches!(stage, Stage::Finished));
    assert_eq!(
        action,
        Action::Fail { error: BumpError::DirtyWorkingTree { summary: String::from(" 2 files changed") } }
    );
}

#[test]
fn a_run_without_a_reachable_tag_fails_and_writes_nothing() {
    let (stage, action) = step(Stage::History, history(&[(9, "release-1.0.0")], &[3, 2, 1]), BumpType::minor);
    assert!(matches!(stage, Stage::Finished));
    assert_eq!(action, Action::Fail { error: BumpError::NoPreviousTag });
    let (stage, action) = step(Stage::History, history(&[], &[3, 2, 1]), BumpType::minor);
    assert!(matches!(stage, Stage::Finished));
    assert_eq!(action, Action::Fail { error: BumpError::NoPreviousTag });
}

#[test]
fn a_run_on_a_malformed_tag_fails() {
    let (stage, action) = step(Stage::History, history(&[(3, "v1.2.3")], &[3, 2, 1]), BumpType::minor);
    assert!(matches!(stage, Stage::Finished));
    assert_eq!(action, Action::Fail { error: BumpError::MalformedTag });
}

#[test]
fn a_run_at_the_top_of_the_range_fails() {
    let (stage, action) =
        step(Stage::History, history(&[(3, "v-2147483647.0.0")], &[3]), BumpType::major);
    assert!(matches!(stage, Stage::Finished));
    assert_eq!(action, Action::Fail { error: BumpError::VersionOverflow });
}

#[test]
fn the_write_replaces_every_occurrence() {
    let plan = BumpPlan { old_version: String::from("1.2.3"), next_version: String::from("2.0.0") };
    let event = Event::Contents { text: String::from("# 1.2.3\nversion = '1.2.3'\n") };
    let (stage, action) = step(Stage::Contents { plan }, event, BumpType::major);
    assert!(matches!(stage, Stage::Finished));
    assert_eq!(action, Action::Write { contents: String::from("# 2.0.0\nversion = '2.0.0'\n") });
}
