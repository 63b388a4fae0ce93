use reemerge::branches::{get_branches, preselect, select_branch, suggest_name};
use reemerge::commits::{
    get_commits_between, log_query, parse_line, parse_log, CommitInfo, QueryStep,
};
use reemerge::git::{
    check_git_repo, files_query, get_commit_files, has_uncommitted_changes, read_reply, run_git,
    Command, Fault, GitError, Reply,
};

fn strings(items: &[&str]) -> Vec<String> {
    items.iter().map(|s| s.to_string()).collect()
}

fn success(out: &str) -> Reply {
    read_reply(true, out.as_bytes().to_vec(), Vec::new())
}

fn failure(err: &str) -> Reply {
    read_reply(false, Vec::new(), err.as_bytes().to_vec())
}

fn not_run() -> Reply {
    Reply::NotRun { fault: Fault::Start, cause: "No such file or directory".to_string() }
}

#[test]
fn test_check_git_repo_in_repo() {
    let result = check_git_repo(&success("/tmp/reemerge_test_1_0\n"));
    assert!(result.is_ok());
    let path = result.unwrap();
    assert!(!path.is_empty());
    assert_eq!(path, "/tmp/reemerge_test_1_0");
}

#[test]
fn test_check_git_repo_outside_repo() {
    let result = check_git_repo(&failure(
        "fatal: not a git repository (or any of the parent directories): .git\n",
    ));
    assert!(result.is_err());
}

#[test]
fn test_has_uncommitted_changes_clean() {
    let result = has_uncommitted_changes(&success(""));
    assert!(result.is_ok());
    assert!(!result.unwrap());
}

#[test]
fn test_has_uncommitted_changes_dirty() {
    let result = has_uncommitted_changes(&success("?? dirty.txt\n"));
    assert!(result.is_ok());
    assert!(result.unwrap());
}

#[test]
fn test_run_git_basic() {
    let result = run_git(&strings(&["rev-parse", "--git-dir"]), &success(".git\n"));
    assert!(result.is_ok());
    assert_eq!(result.unwrap(), ".git");
}

#[test]
fn test_run_git_failure() {
    let result = run_git(
        &strings(&["this-command-does-not-exist"]),
        &failure("git: 'this-command-does-not-exist' is not a git command. See 'git --help'.\n"),
    );
    assert!(result.is_err());
}

#[test]
fn git_errors_have_messages() {
    let args = strings(&["push", "origin", "x"]);
    let failed = run_git(&args, &failure(" fatal: nope \n")).unwrap_err();
    assert_eq!(failed, GitError::Failed("fatal: nope".to_string()));
    assert_eq!(failed.message(), "Git error: fatal: nope");
    assert_eq!(failed.causes(), strings(&[]));
    let missing = run_git(&args, &not_run()).unwrap_err();
    assert_eq!(missing.message(), "Failed to run git push origin x");
    assert_eq!(missing.causes(), strings(&["No such file or directory"]));
}

#[test]
fn bytes_that_are_no_text_are_replaced() {
    let reply = read_reply(true, vec![b'a', 0xff, b'b'], "é".as_bytes().to_vec());
    assert_eq!(
        reply,
        Reply::Ran {
            success: true,
            bytes: vec![b'a', 0xff, b'b'],
            out: "a\u{fffd}b".to_string(),
            err: "é".to_string(),
        }
    );
}

#[test]
fn commands_are_built_from_arguments() {
    let command = Command::git("a").arg("b").all_args(&strings(&["c", "d"])).reading(vec![1, 2]);
    assert_eq!(command.args, strings(&["a", "b", "c", "d"]));
    assert_eq!(command.input, Some(vec![1, 2]));
}

#[test]
fn test_get_commits_between_same_ref() {
    let (_, step) = get_commits_between("HEAD", "HEAD");
    assert_eq!(step, QueryStep::Done(Ok(vec![])));
}

#[test]
fn test_get_commits_between_with_commits() {
    let (mut query, step) = get_commits_between("main", "feature");
    assert_eq!(
        step,
        QueryStep::Run(Command::git("log").arg("--format=%H|%an|%ae|%ai|%s").arg("main..feature"))
    );
    let log = "2222222222222222222222222222222222222222|Test User|test@example.com|2026-01-15 10:00:01 +0100|Add main\n1111111111111111111111111111111111111111|Test User|test@example.com|2026-01-15 10:00:00 +0100|Add lib\n";
    let step = query.resume(&success(log));
    assert_eq!(step, QueryStep::Run(files_query("2222222222222222222222222222222222222222")));
    let step = query.resume(&success("src/main.rs\n"));
    assert_eq!(step, QueryStep::Run(files_query("1111111111111111111111111111111111111111")));
    let commits = match query.resume(&success("src/lib.rs\n")) {
        QueryStep::Done(Ok(commits)) => commits,
        other => panic!("{:?}", other),
    };
    assert_eq!(commits.len(), 2);
    assert!(commits[0].subject.contains("Add") || commits[1].subject.contains("Add"));
    assert_eq!(commits[0].author, "Test User");
    assert_eq!(commits[0].email, "test@example.com");
    assert_eq!(commits[0].subject, "Add main");
    assert_eq!(commits[0].files, strings(&["src/main.rs"]));
    assert_eq!(commits[1].files, strings(&["src/lib.rs"]));
}

#[test]
fn collecting_stops_at_the_first_error() {
    let (mut query, _) = get_commits_between("a", "b");
    assert_eq!(
        query.resume(&failure("fatal: bad revision")),
        QueryStep::Done(Err(GitError::Failed("fatal: bad revision".to_string())))
    );
    let (mut query, _) = get_commits_between("a", "b");
    query.resume(&success("h|a|e|d|s"));
    assert_eq!(
        query.resume(&not_run()),
        QueryStep::Done(Err(GitError::NotRun {
            args: strings(&["log", "-1", "--name-only", "--format=", "h"]),
            cause: "No such file or directory".to_string(),
        }))
    );
    let (mut query, _) = get_commits_between("a", "b");
    assert_eq!(query.resume(&success("\n")), QueryStep::Done(Ok(vec![])));
    assert_eq!(
        log_query("a", "b").args,
        strings(&["log", "--format=%H|%an|%ae|%ai|%s", "a..b"])
    );
}

#[test]
fn the_first_failing_file_list_decides() {
    let (mut query, _) = get_commits_between("a", "b");
    assert_eq!(
        query.resume(&success("h1|a|e|d|s\nh2|a|e|d|s\nh3|a|e|d|s\n")),
        QueryStep::Run(files_query("h1"))
    );
    assert_eq!(query.resume(&success("x\n")), QueryStep::Run(files_query("h2")));
    assert_eq!(
        query.resume(&failure("fatal: bad object h2\n")),
        QueryStep::Done(Err(GitError::Failed("fatal: bad object h2".to_string())))
    );
}

#[test]
fn branches_stand_in_the_order_of_their_first_places() {
    assert_eq!(
        get_branches("zeta\nalpha\nzeta\nmid", "origin/z\nalpha\norigin/a\nmid\norigin/z"),
        strings(&["zeta", "alpha", "mid", "origin/z", "origin/a"])
    );
}

#[test]
fn test_get_commit_files() {
    let result = get_commit_files("1234", &success("file_b.txt\n"));
    assert!(result.is_ok());
    let files = result.unwrap();
    assert_eq!(files.len(), 1);
    assert_eq!(files[0], "file_b.txt");
}

#[test]
fn test_get_branches_local_only() {
    let branches = get_branches("develop\nmain", "");
    assert!(branches.contains(&"main".to_string()));
    assert!(branches.contains(&"develop".to_string()));
    assert_eq!(branches.len(), 2);
}

#[test]
fn branches_are_listed_once_and_local_ones_first() {
    assert_eq!(
        get_branches("  main\ndevelop\n\nmain\n", "origin/main\ndevelop\norigin/x\n"),
        strings(&["main", "develop", "origin/main", "origin/x"])
    );
    assert_eq!(get_branches("", ""), strings(&[]));
}

#[test]
fn the_preferred_branch_is_preselected() {
    let branches = strings(&["develop", "origin/main", "main"]);
    assert_eq!(preselect(&branches, "main"), 1);
    assert_eq!(preselect(&branches, "develop"), 0);
    assert_eq!(preselect(&branches, "trunk"), 0);
    assert_eq!(preselect(&strings(&["a", "mainline", "main"]), "main"), 2);
    assert_eq!(preselect(&strings(&[]), "main"), 0);
    assert_eq!(select_branch(&branches, 2), "main");
}

#[test]
fn the_suggested_name_leaves_out_the_remote() {
    assert_eq!(suggest_name("feature"), "pr/feature");
    assert_eq!(suggest_name("origin/feature"), "pr/feature");
    assert_eq!(suggest_name("origin/origin/feature"), "pr/feature");
    assert_eq!(suggest_name("remotes/origin/feature"), "pr/feature");
    assert_eq!(suggest_name("remotes/origin/origin/x"), "pr/origin/x");
    assert_eq!(suggest_name("fix/origin/x"), "pr/fix/origin/x");
}

#[test]
fn test_commit_info_creation() {
    let info = CommitInfo {
        hash: "abc123".to_string(),
        author: "Alice".to_string(),
        email: "alice@example.com".to_string(),
        date: "2026-01-15".to_string(),
        subject: "Fix bug".to_string(),
        files: vec!["src/main.rs".to_string()],
    };
    assert_eq!(info.hash, "abc123");
    assert_eq!(info.author, "Alice");
    assert_eq!(info.files.len(), 1);
    assert_eq!(info.clone(), info);
    assert!(!info.is_presentable());
}

#[test]
fn log_lines_are_read_back() {
    let commit = parse_line("0123456789|Ann|ann@example.com|2026-01-15 10:00:00 +0100|Fix a|b|c").unwrap();
    assert_eq!(commit.hash, "0123456789");
    assert_eq!(commit.author, "Ann");
    assert_eq!(commit.email, "ann@example.com");
    assert_eq!(commit.date, "2026-01-15 10:00:00 +0100");
    assert_eq!(commit.subject, "Fix a|b|c");
    assert_eq!(commit.files, strings(&[]));
    assert!(commit.is_presentable());
    assert_eq!(commit.short_hash(), "01234567");
    assert_eq!(commit.day(), "2026-01-15");
    assert_eq!(commit.item(), "01234567  Fix a|b|c");
    assert_eq!(parse_line("h|a|e|d"), None);
    assert_eq!(parse_line("h|a|e|d|").map(|c| c.subject), Some(String::new()));
    assert_eq!(parse_log("h|a|e|d|s\nnoise\nh2|a|e|d|s2\r\n").len(), 2);
}

#[test]
fn lines_with_four_bars_describe_commits() {
    for line in ["||||", "h|a|e|d|s", "h||e||", "|||||x|", "é|ü|ß|✓|a|b||"] {
        let commit = parse_line(line).unwrap();
        for field in [&commit.hash, &commit.author, &commit.email, &commit.date] {
            assert!(!field.contains('|'));
        }
        assert_eq!(
            format!(
                "{}|{}|{}|{}|{}",
                commit.hash, commit.author, commit.email, commit.date, commit.subject
            ),
            line
        );
    }
    for line in ["", "h", "|", "|||", "h|a|e|d"] {
        assert_eq!(parse_line(line), None);
    }
}
