use reemerge::apply::{apply_file_selection, apply_whole_commit, Apply, ApplyError, ApplyStep};
use reemerge::commits::CommitInfo;
use reemerge::git::{read_reply, Command, Fault, GitError, Reply};
use reemerge::selection::{
    add_restriction, are_below, build_selections, count_selections, no_restrictions, restrict,
    CommitSelection, Counts,
};

fn strings(items: &[&str]) -> Vec<String> {
    items.iter().map(|s| s.to_string()).collect()
}

fn commit() -> CommitInfo {
    CommitInfo {
        hash: "0123456789abcdef".to_string(),
        author: "Ann".to_string(),
        email: "ann@example.com".to_string(),
        date: "2026-01-15 10:00:00 +0100".to_string(),
        subject: "Fix bug".to_string(),
        files: strings(&["a", "b"]),
    }
}

fn success(out: &str) -> Reply {
    read_reply(true, out.as_bytes().to_vec(), Vec::new())
}

fn failure(err: &str) -> Reply {
    read_reply(false, Vec::new(), err.as_bytes().to_vec())
}

fn fault(fault: Fault) -> Reply {
    Reply::NotRun { fault, cause: "broken pipe".to_string() }
}

/// Runs an applying to its end and gives its commands and its outcome.
fn run(
    start: (Apply, ApplyStep),
    replies: Vec<Reply>,
) -> (Vec<Command>, Result<(), ApplyError>, bool) {
    let (mut apply, mut step) = start;
    let mut commands = Vec::new();
    let mut merges = false;
    let mut replies = replies.into_iter();
    loop {
        match step {
            ApplyStep::Done(result) => {
                assert!(replies.next().is_none());
                return (commands, result, merges);
            }
            ApplyStep::Run { command, merge_found } => {
                merges = merges || merge_found;
                commands.push(command);
                let reply = replies.next().expect("another reply");
                step = apply.resume(&reply);
            }
        }
    }
}

fn pick() -> Command {
    Command::git("cherry-pick").arg("0123456789abcdef")
}

fn retry() -> Command {
    Command::git("cherry-pick").arg("-m").arg("1").arg("0123456789abcdef")
}

fn abort() -> Command {
    Command::git("cherry-pick").arg("--abort")
}

const MERGE: &str = "error: commit 0123456789abcdef is a merge but no -m option was given.\n";

#[test]
fn a_whole_commit_is_picked() {
    let (commands, result, merges) = run(apply_whole_commit(&commit()), vec![success("")]);
    assert_eq!(commands, vec![pick()]);
    assert_eq!(result, Ok(()));
    assert!(!merges);
}

#[test]
fn a_failed_pick_is_given_up() {
    let (commands, result, merges) =
        run(apply_whole_commit(&commit()), vec![failure(" conflict \n"), failure("ignored")]);
    assert_eq!(commands, vec![pick(), abort()]);
    assert_eq!(result, Err(ApplyError::PickFailed("conflict".to_string())));
    assert_eq!(result.unwrap_err().message(), "Cherry-pick failed: conflict");
    assert!(!merges);
}

#[test]
fn a_merge_is_picked_along_its_first_parent() {
    let (commands, result, merges) = run(
        apply_whole_commit(&commit()),
        vec![failure(MERGE), fault(Fault::Start), success("")],
    );
    assert_eq!(commands, vec![pick(), abort(), retry()]);
    assert_eq!(result, Ok(()));
    assert!(merges);
}

#[test]
fn a_merge_that_cannot_be_picked_is_given_up_again() {
    let (commands, result, _) = run(
        apply_whole_commit(&commit()),
        vec![failure(MERGE), success(""), failure(MERGE), success("")],
    );
    assert_eq!(commands, vec![pick(), abort(), retry(), abort()]);
    assert_eq!(result, Err(ApplyError::PickFailed(MERGE.trim().to_string())));
}

#[test]
fn a_pick_that_does_not_start_is_reported() {
    let (commands, result, _) = run(apply_whole_commit(&commit()), vec![fault(Fault::Start)]);
    assert_eq!(commands, vec![pick()]);
    assert_eq!(result, Err(ApplyError::PickNotRun));
    assert_eq!(result.unwrap_err().message(), "Failed to run git cherry-pick");
    let (_, result, _) = run(
        apply_whole_commit(&commit()),
        vec![failure(MERGE), success(""), fault(Fault::Start)],
    );
    assert_eq!(result, Err(ApplyError::RetryNotRun));
    assert_eq!(result.unwrap_err().message(), "Failed to run git cherry-pick with -m 1");
}

fn parent() -> Command {
    Command::git("rev-parse").arg("--verify").arg("0123456789abcdef^")
}

fn checkout() -> Command {
    Command::git("checkout").arg("0123456789abcdef").arg("--").arg("a").arg("b c")
}

fn diff() -> Command {
    Command::git("diff")
        .arg("--binary")
        .arg("0123456789abcdef^")
        .arg("0123456789abcdef")
        .arg("--")
        .arg("a")
        .arg("b c")
}

fn patch() -> Command {
    Command::git("apply").arg("--3way").arg("--index").reading(vec![0xff, b'x'])
}

fn record() -> Command {
    Command::git("commit")
        .arg("-m")
        .arg("Fix bug (cherry-picked from 0123456789abcdef)")
        .arg("--no-verify")
}

fn files() -> Vec<String> {
    strings(&["a", "b c"])
}

fn the_diff() -> Reply {
    read_reply(true, vec![0xff, b'x'], Vec::new())
}

#[test]
fn files_of_a_commit_are_patched_in() {
    let (commands, result, _) = run(
        apply_file_selection(&commit(), &files()),
        vec![success("x"), the_diff(), success(""), success("")],
    );
    assert_eq!(commands, vec![parent(), diff(), patch(), record()]);
    assert_eq!(result, Ok(()));
}

#[test]
fn files_of_a_root_commit_are_checked_out() {
    for reply in [failure("fatal: Needed a single revision"), fault(Fault::Start)] {
        let (commands, result, _) = run(
            apply_file_selection(&commit(), &files()),
            vec![reply, success(""), success("")],
        );
        assert_eq!(commands, vec![parent(), checkout(), record()]);
        assert_eq!(result, Ok(()));
    }
}

#[test]
fn no_files_need_no_command() {
    let (commands, result, _) = run(apply_file_selection(&commit(), &vec![]), vec![]);
    assert_eq!(commands, vec![]);
    assert_eq!(result, Ok(()));
}

fn message_after(replies: Vec<Reply>) -> String {
    let (_, result, _) = run(apply_file_selection(&commit(), &files()), replies);
    let error = result.unwrap_err();
    assert!(error.is_presentable());
    error.message()
}

#[test]
fn every_step_of_applying_files_can_fail() {
    assert_eq!(
        message_after(vec![failure(""), failure("pathspec\n")]),
        "Git error: pathspec"
    );
    assert_eq!(
        message_after(vec![success(""), fault(Fault::Start)]),
        "Failed to run git diff"
    );
    assert_eq!(message_after(vec![success(""), failure("x\n")]), "git diff failed: x");
    assert_eq!(
        message_after(vec![success(""), success("")]),
        "No diff output for selected files in commit 01234567. They may be binary or permissions-only changes."
    );
    assert_eq!(
        message_after(vec![success(""), the_diff(), fault(Fault::Start)]),
        "Failed to spawn git apply"
    );
    assert_eq!(
        message_after(vec![success(""), the_diff(), fault(Fault::Stdin)]),
        "Failed to capture git apply stdin"
    );
    assert_eq!(
        message_after(vec![success(""), the_diff(), fault(Fault::Write)]),
        "Failed to write diff to git apply"
    );
    assert_eq!(
        message_after(vec![success(""), the_diff(), fault(Fault::Wait)]),
        "broken pipe"
    );
    assert_eq!(
        message_after(vec![success(""), the_diff(), failure("does not apply\n")]),
        "Failed to apply patch: does not apply"
    );
    assert_eq!(
        message_after(vec![success(""), the_diff(), success(""), fault(Fault::Start)]),
        "Failed to run git commit -m Fix bug (cherry-picked from 0123456789abcdef) --no-verify"
    );
    assert_eq!(ApplyError::Git(GitError::Failed("x".to_string())).message(), "Git error: x");
    assert!(!ApplyError::NoDiff("short".to_string()).is_presentable());
}

#[test]
fn test_commit_selection_skip() {
    let sel = CommitSelection::Skip;
    assert!(matches!(sel, CommitSelection::Skip));
}

#[test]
fn test_commit_selection_whole() {
    let sel = CommitSelection::Whole;
    assert!(matches!(sel, CommitSelection::Whole));
}

#[test]
fn test_commit_selection_files() {
    let sel = CommitSelection::Files(vec!["a.ts".to_string(), "b.ts".to_string()]);
    if let CommitSelection::Files(files) = &sel {
        assert_eq!(files.len(), 2);
        assert_eq!(files[0], "a.ts");
    } else {
        panic!("Expected Files variant");
    }
}

#[test]
fn test_commit_selection_files_empty() {
    let sel = CommitSelection::Files(vec![]);
    if let CommitSelection::Files(files) = &sel {
        assert!(files.is_empty());
    } else {
        panic!("Expected Files variant");
    }
}

#[test]
fn picking_files_restricts_a_commit() {
    let files = strings(&["a", "b", "c"]);
    assert_eq!(restrict(&files, &vec![0, 2]), Some(strings(&["a", "c"])));
    assert_eq!(restrict(&files, &vec![]), Some(strings(&[])));
    assert_eq!(restrict(&files, &vec![0, 1, 2]), None);
    assert_eq!(restrict(&strings(&["a"]), &vec![0]), None);
    assert!(are_below(&vec![0, 2], 3));
    assert!(!are_below(&vec![0, 3], 3));
}

#[test]
fn selections_follow_what_was_picked() {
    let mut restrictions = no_restrictions();
    add_restriction(&mut restrictions, 1, strings(&["x"]));
    add_restriction(&mut restrictions, 2, strings(&[]));
    add_restriction(&mut restrictions, 4, strings(&["y"]));
    let selections = build_selections(5, &vec![0, 1, 2], &restrictions);
    assert_eq!(
        selections,
        vec![
            CommitSelection::Whole,
            CommitSelection::Files(strings(&["x"])),
            CommitSelection::Skip,
            CommitSelection::Skip,
            CommitSelection::Skip,
        ]
    );
    assert_eq!(selections.clone(), selections);
    assert_eq!(count_selections(&selections), Counts { whole: 1, partial: 1, skipped: 3 });
    assert_eq!(count_selections(&vec![]), Counts { whole: 0, partial: 0, skipped: 0 });
}
