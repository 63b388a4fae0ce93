use colored::Colorize;
use reemerge::dialogue::{Ask, Event, Failure, Step};
use reemerge::git::{read_reply, Command, Fault, GitError, Reply};
use reemerge::messages::{
    ask_create, ask_push, noun_for, say_picking, say_preview, say_summary, Line, Stream,
};
use reemerge::options::{parse_args, Options};
use reemerge::session::Session;
use reemerge::style::{paint, paint_all, paint_all_when, paint_when, Span, Tone};

fn strings(items: &[&str]) -> Vec<String> {
    items.iter().map(|s| s.to_string()).collect()
}

fn success(out: &str) -> Event {
    Event::Ran(read_reply(true, out.as_bytes().to_vec(), Vec::new()))
}

fn failure(err: &str) -> Event {
    Event::Ran(read_reply(false, Vec::new(), err.as_bytes().to_vec()))
}

fn not_run() -> Event {
    Event::Ran(Reply::NotRun { fault: Fault::Start, cause: "no git".to_string() })
}

fn broken() -> Event {
    Event::Failed {
        message: "IO error: not a terminal".to_string(),
        causes: strings(&["not a terminal"]),
    }
}

fn plain(spans: &[Span]) -> String {
    spans.iter().map(|s| s.text.as_str()).collect::<Vec<&str>>().join("")
}

fn texts(lines: &[Line]) -> Vec<String> {
    lines.iter().map(|l| plain(&l.spans)).collect()
}

fn git(args: &[&str]) -> Ask {
    let mut command = Command::git(args[0]);
    for arg in &args[1..] {
        command = command.arg(arg);
    }
    Ask::Git(command)
}

/// Feeds the events to a new session and gives it with its last step.
fn after(diff: bool, events: Vec<Event>) -> (Session, Step) {
    let (mut session, mut step) = Session::start(diff);
    for event in events {
        assert!(session.accepts(&event), "{:?} after {:?}", event, step.ask);
        step = session.step(event);
    }
    (session, step)
}

fn to_branches() -> Vec<Event> {
    vec![success("/repo\n"), success(""), success("main\ndevelop\n"), success("origin/main\n")]
}

const LOG: &str = "aaaaaaaaaa|Ann|ann@x.org|2026-01-17 10:00:00 +0100|Third\n\
bbbbbbbbbb|Ben|ben@x.org|2026-01-16 10:00:00 +0100|Second\n\
cccccccccc|Cem|cem@x.org|2026-01-15 10:00:00 +0100|First";

fn to_commits() -> Vec<Event> {
    let mut events = to_branches();
    events.push(Event::Picked(0));
    events.push(Event::Picked(1));
    events.push(success(LOG));
    events.push(success("a.rs\nb.rs\n"));
    events.push(success("c.rs\n"));
    events.push(success(""));
    events
}

fn to_name() -> Vec<Event> {
    let mut events = to_commits();
    events.push(Event::PickedMany(vec![0, 1, 2]));
    events.push(Event::Answered(false));
    events.push(Event::PickedMany(vec![1]));
    events.push(Event::PickedMany(vec![0]));
    events
}

fn to_apply() -> Vec<Event> {
    let mut events = to_name();
    events.push(Event::Entered("pr/develop".to_string()));
    events.push(Event::Answered(true));
    events
}

#[test]
fn a_session_starts_by_looking_for_the_repository() {
    let (_, step) = after(false, vec![]);
    assert_eq!(step.ask, git(&["rev-parse", "--show-toplevel"]));
    assert_eq!(step.lines.len(), 6);
    assert_eq!(texts(&step.lines)[2], "║           PR Prep - Cherry Pick           ║");
}

#[test]
fn outside_a_repository_the_session_fails() {
    let (session, step) = after(false, vec![failure("fatal: not a git repository\n")]);
    let error = GitError::Failed("fatal: not a git repository".to_string());
    assert_eq!(step.ask, Ask::End(Err(Failure::Git(error))));
    assert!(!session.accepts(&success("")));
    let (_, step) = after(false, vec![not_run()]);
    match step.ask {
        Ask::End(Err(failure)) => {
            assert_eq!(failure.message(), "Failed to run git rev-parse --show-toplevel");
            assert_eq!(failure.causes(), strings(&["no git"]));
        }
        other => panic!("{:?}", other),
    }
}

#[test]
fn uncommitted_changes_need_consent() {
    let (_, step) = after(false, vec![success("/repo\n"), success(" M x\n")]);
    match &step.ask {
        Ask::Confirm { question, preset } => {
            assert_eq!(plain(question), "Continue anyway?");
            assert!(!*preset);
        }
        other => panic!("{:?}", other),
    }
    let (_, step) =
        after(false, vec![success("/repo\n"), success(" M x\n"), Event::Answered(false)]);
    assert_eq!(step.ask, Ask::End(Ok(())));
    assert_eq!(
        texts(&step.lines),
        strings(&["  Exiting. Please commit or stash your changes first."])
    );
    let (_, step) =
        after(false, vec![success("/repo\n"), success(" M x\n"), Event::Answered(true)]);
    assert_eq!(step.ask, git(&["branch", "--format=%(refname:short)"]));
    let (_, step) = after(false, vec![success("/repo\n"), success(" M x\n"), broken()]);
    let unread = Failure::Prompt {
        message: "IO error: not a terminal".to_string(),
        causes: strings(&["not a terminal"]),
    };
    assert_eq!(unread.message(), "IO error: not a terminal");
    assert_eq!(unread.causes(), strings(&["not a terminal"]));
    assert_eq!(step.ask, Ask::End(Err(unread)));
    let (_, step) = after(false, vec![success("/repo\n"), failure("x")]);
    assert_eq!(step.ask, Ask::End(Err(Failure::Git(GitError::Failed("x".to_string())))));
}

#[test]
fn branches_are_offered_with_a_preselection() {
    let (_, step) = after(false, to_branches());
    assert_eq!(texts(&step.lines), strings(&["  ✓ Found 3 branches\n"]));
    assert_eq!(
        step.ask,
        Ask::Select {
            prompt: "Which branch do you want to PR into (target)?".to_string(),
            items: strings(&["main", "develop", "origin/main"]),
            initial: 0,
        }
    );
    let mut events = to_branches();
    events.push(Event::Picked(2));
    let (session, step) = after(false, events);
    assert_eq!(texts(&step.lines), strings(&["  ✓ Target branch: origin/main", ""]));
    assert_eq!(
        step.ask,
        Ask::Select {
            prompt: "Which branch contains the changes (source)?".to_string(),
            items: strings(&["main", "develop", "origin/main"]),
            initial: 1,
        }
    );
    assert!(!session.accepts(&Event::Picked(3)));
    assert!(!session.accepts(&Event::Answered(true)));
}

#[test]
fn without_branches_the_session_fails() {
    let events = vec![success("/repo"), success(""), success("\n"), success("")];
    let (_, step) = after(false, events);
    assert_eq!(step.ask, Ask::End(Err(Failure::NoBranches)));
    assert_eq!(Failure::NoBranches.message(), "No branches found in this repository");
    assert_eq!(Failure::NoBranches.causes(), strings(&[]));
}

#[test]
fn a_branch_can_be_typed_in_where_the_list_fails() {
    let mut events = to_branches();
    events.push(broken());
    let (_, step) = after(false, events);
    assert_eq!(step.lines[0].stream, Stream::Errors);
    assert_eq!(texts(&step.lines), strings(&["  ⚠ Selection failed: IO error: not a terminal"]));
    assert_eq!(
        step.ask,
        Ask::Input { prompt: "Enter target branch name".to_string(), offered: None }
    );
    let mut events = to_branches();
    events.push(broken());
    events.push(Event::Entered("trunk".to_string()));
    events.push(broken());
    let (_, step) = after(false, events);
    assert_eq!(
        step.ask,
        Ask::Input { prompt: "Enter source branch name".to_string(), offered: None }
    );
    let mut events = to_branches();
    events.push(broken());
    events.push(Event::Entered("trunk".to_string()));
    events.push(broken());
    events.push(Event::Entered("topic".to_string()));
    let (_, step) = after(false, events);
    assert_eq!(step.ask, git(&["log", "--format=%H|%an|%ae|%ai|%s", "trunk..topic"]));
    assert_eq!(texts(&step.lines)[2], "  ⟳ Finding commits on topic not on trunk...");
}

#[test]
fn a_branch_has_no_commits_over_itself() {
    let mut events = to_branches();
    events.push(Event::Picked(1));
    events.push(Event::Picked(1));
    let (_, step) = after(false, events);
    assert_eq!(step.ask, Ask::End(Ok(())));
    assert_eq!(texts(&step.lines)[3], "  ℹ No new commits found.");
}

#[test]
fn commits_are_listed_and_offered() {
    let (session, step) = after(false, to_commits());
    assert_eq!(
        texts(&step.lines),
        vec![
            "  ✓ Found 3 commit(s)\n".to_string(),
            "─".repeat(64),
            "  📋 Commits on develop not on main:".to_string(),
            "".to_string(),
            "   1.  aaaaaaaa  Third  2 files:".to_string(),
            "      Author: Ann <ann@x.org>".to_string(),
            "      Date: 2026-01-17".to_string(),
            "   2.  bbbbbbbb  Second  1 files:".to_string(),
            "      Author: Ben <ben@x.org>".to_string(),
            "      Date: 2026-01-16".to_string(),
            "   3.  cccccccc  First  0 files: (no files)".to_string(),
            "      Author: Cem <cem@x.org>".to_string(),
            "      Date: 2026-01-15".to_string(),
            "".to_string(),
        ]
    );
    assert_eq!(
        step.ask,
        Ask::MultiSelect {
            prompt: "Select commits to include (space: toggle, ↑/↓: navigate, enter: confirm)"
                .to_string(),
            items: strings(&["aaaaaaaa  Third", "bbbbbbbb  Second", "cccccccc  First"]),
            checked: false,
        }
    );
    assert!(!session.accepts(&Event::PickedMany(vec![3])));
    let mut events = to_commits();
    events.push(broken());
    let (_, step) = after(false, events);
    match step.ask {
        Ask::End(Err(failure)) => {
            assert_eq!(failure.message(), "Failed to get user input, try running in a terminal");
            assert_eq!(
                failure.causes(),
                strings(&["IO error: not a terminal", "not a terminal"])
            );
        }
        other => panic!("{:?}", other),
    }
}

#[test]
fn commits_that_cannot_be_abbreviated_are_refused() {
    let mut events = to_branches();
    events.push(Event::Picked(0));
    events.push(Event::Picked(1));
    events.push(success("abc|Ann|ann@x.org|2026-01-17 10:00:00|Third"));
    let (session, _) = after(false, events);
    assert!(!session.accepts(&success("a.rs")));
    assert!(session.accepts(&failure("x")));
}

#[test]
fn diffs_are_shown_on_request_only() {
    let mut events = to_commits();
    events.push(Event::PickedMany(vec![0, 2]));
    let (_, step) = after(false, events);
    assert_eq!(texts(&step.lines), strings(&["", "  ✓ Selected 2 of 3 commit(s)\n"]));
    match &step.ask {
        Ask::Confirm { question, preset } => {
            assert_eq!(plain(question), "Show diff preview for selected commits?");
            assert!(!*preset);
        }
        other => panic!("{:?}", other),
    }
    let mut events = to_commits();
    events.push(Event::PickedMany(vec![0, 2]));
    events.push(Event::Answered(true));
    let (_, step) = after(false, events);
    assert_eq!(step.ask, git(&["show", "--color=always", "--format=", "aaaaaaaaaa"]));
    assert_eq!(texts(&step.lines)[2], "  📄 aaaaaaaa  Third");
    let mut events = to_commits();
    events.push(Event::PickedMany(vec![0, 2]));
    events.push(Event::Answered(true));
    events.push(success("\n+one\n-two\n"));
    let (_, step) = after(false, events);
    assert_eq!(texts(&step.lines), strings(&["  │ +one", "  │ -two", ""]));
    assert_eq!(
        step.ask,
        Ask::MultiSelect {
            prompt: "Select files (space: toggle, enter: confirm — deselect to exclude)"
                .to_string(),
            items: strings(&["a.rs", "b.rs"]),
            checked: true,
        }
    );
    let mut events = to_commits();
    events.push(Event::PickedMany(vec![0, 2]));
    events.push(Event::Answered(true));
    events.push(failure("x"));
    let (_, step) = after(false, events);
    assert_eq!(texts(&step.lines), strings(&[]));
}

#[test]
fn the_diff_option_skips_the_question() {
    let mut events = to_commits();
    events.push(Event::PickedMany(vec![2, 1]));
    let (_, step) = after(true, events);
    assert_eq!(step.ask, git(&["show", "--color=always", "--format=", "bbbbbbbbbb"]));
    let mut events = to_commits();
    events.push(Event::PickedMany(vec![]));
    let (_, step) = after(true, events);
    assert_eq!(step.ask, Ask::End(Ok(())));
}

#[test]
fn with_nothing_selected_there_is_nothing_to_do() {
    let mut events = to_commits();
    events.push(Event::PickedMany(vec![]));
    let (_, step) = after(false, events);
    assert_eq!(step.ask, Ask::End(Ok(())));
    let lines = texts(&step.lines);
    assert_eq!(lines[7], "  ▶ 0 whole commits, 0 partial commits, 3 skipped");
    assert_eq!(lines.last().unwrap(), "  ℹ No commits selected. Nothing to do.");
    let mut events = to_commits();
    events.push(Event::PickedMany(vec![1]));
    events.push(Event::Answered(false));
    events.push(Event::PickedMany(vec![]));
    let (_, step) = after(false, events);
    assert_eq!(texts(&step.lines)[0], "  → No files selected, skipping commit.\n");
    assert_eq!(step.ask, Ask::End(Ok(())));
}

#[test]
fn picked_files_are_summarized() {
    let (_, step) = after(false, to_name());
    let lines = texts(&step.lines);
    assert_eq!(lines[0], "  ✓ Including all files\n");
    assert_eq!(lines[1], "═".repeat(64));
    assert_eq!(lines[4], "  ◉  Target: main");
    assert_eq!(lines[5], "  ◉  Source: develop");
    assert_eq!(lines[6], "  ▶ 2 whole commits, 1 partial commit, 0 skipped");
    assert_eq!(
        step.ask,
        Ask::Input {
            prompt: "Name for the new PR branch".to_string(),
            offered: Some("pr/develop".to_string()),
        }
    );
    let mut events = to_name();
    events.pop();
    let (session, step) = after(false, events);
    assert_eq!(texts(&step.lines)[0], "  ✓ Selected 1 of 2 file(s)\n");
    assert!(!session.accepts(&Event::PickedMany(vec![1])));
    let mut events = to_name();
    events.pop();
    events.push(broken());
    let (_, step) = after(false, events);
    match step.ask {
        Ask::End(Err(failure)) => {
            assert_eq!(failure.message(), "Failed to get user input");
            assert_eq!(
                failure.causes(),
                strings(&["IO error: not a terminal", "not a terminal"])
            );
        }
        other => panic!("{:?}", other),
    }
}

#[test]
fn the_branch_is_created_on_consent_only() {
    let mut events = to_name();
    events.push(Event::Entered("topic".to_string()));
    let (_, step) = after(false, events);
    match &step.ask {
        Ask::Confirm { question, preset } => {
            assert_eq!(plain(question), "Create branch 'topic' and apply 3 selection(s)?");
            assert!(*preset);
        }
        other => panic!("{:?}", other),
    }
    let mut events = to_name();
    events.push(Event::Entered("topic".to_string()));
    events.push(Event::Answered(false));
    let (_, step) = after(false, events);
    assert_eq!(step.ask, Ask::End(Ok(())));
    assert_eq!(texts(&step.lines), strings(&["  Aborted."]));
    let (_, step) = after(false, to_apply());
    assert_eq!(step.ask, git(&["checkout", "-b", "pr/develop", "main"]));
    let mut events = to_apply();
    events.push(failure("fatal: exists"));
    let (_, step) = after(false, events);
    match step.ask {
        Ask::End(Err(failure)) => {
            assert_eq!(failure.message(), "Failed to create new branch");
            assert_eq!(failure.causes(), strings(&["Git error: fatal: exists"]));
        }
        other => panic!("{:?}", other),
    }
}

#[test]
fn selected_commits_are_applied_in_order() {
    let mut events = to_apply();
    events.push(success(""));
    let (_, step) = after(false, events);
    assert_eq!(
        texts(&step.lines),
        strings(&[
            "  ✓ Branch 'pr/develop' created from main\n",
            "  [1/3] Applying files from aaaaaaaa Third...",
        ])
    );
    assert_eq!(step.ask, git(&["rev-parse", "--verify", "aaaaaaaaaa^"]));

    let mut events = to_apply();
    for reply in ["", "parent", "diff", "", ""] {
        events.push(success(reply));
    }
    let (_, step) = after(false, events);
    assert_eq!(
        texts(&step.lines),
        strings(&["  ✓ Applied\n", "  [2/3] Cherry-picking bbbbbbbb Second..."])
    );
    assert_eq!(step.ask, git(&["cherry-pick", "bbbbbbbbbb"]));

    let mut events = to_apply();
    for reply in ["", "parent", "diff", "", "", "", ""] {
        events.push(success(reply));
    }
    let (_, step) = after(false, events);
    assert_eq!(
        texts(&step.lines),
        strings(&["  ✓ Applied\n", "  ✓ All 3 selection(s) applied successfully!", ""])
    );
    match &step.ask {
        Ask::Confirm { question, preset } => {
            assert_eq!(plain(question), "Push 'pr/develop' to origin?");
            assert!(*preset);
        }
        other => panic!("{:?}", other),
    }
}

#[test]
fn a_commit_left_out_is_not_applied() {
    let mut events = to_commits();
    events.push(Event::PickedMany(vec![1]));
    events.push(Event::Answered(false));
    events.push(Event::PickedMany(vec![0]));
    events.push(Event::Entered("topic".to_string()));
    events.push(Event::Answered(true));
    events.push(success(""));
    let (mut session, step) = after(false, events);
    assert_eq!(step.ask, git(&["cherry-pick", "bbbbbbbbbb"]));
    assert_eq!(texts(&step.lines)[1], "  [1/1] Cherry-picking bbbbbbbb Second...");
    let step = session.step(success(""));
    assert!(matches!(step.ask, Ask::Confirm { .. }));
}

#[test]
fn a_commit_that_fails_ends_the_session() {
    let mut events = to_apply();
    events.push(success(""));
    events.push(success(""));
    events.push(failure("bad"));
    let (_, step) = after(false, events);
    assert_eq!(step.ask, Ask::End(Ok(())));
    assert_eq!(
        texts(&step.lines),
        strings(&[
            "  ✗ Failed: git diff failed: bad",
            "  ℹ The branch 'pr/develop' has been created but the operation was interrupted.",
            "  ℹ Run 'git status' to see the current state.",
        ])
    );
    assert!(step.lines.iter().all(|l| l.stream == Stream::Errors));

    let mut events = to_apply();
    for reply in ["", "parent", "diff", "", ""] {
        events.push(success(reply));
    }
    events.push(failure("commit b is a merge but no -m option was given"));
    let (mut session, step) = after(false, events);
    assert_eq!(
        texts(&step.lines),
        strings(&["  ℹ Merge commit detected, retrying with -m 1"])
    );
    assert_eq!(step.ask, git(&["cherry-pick", "--abort"]));
    let step = session.step(success(""));
    assert_eq!(step.ask, git(&["cherry-pick", "-m", "1", "bbbbbbbbbb"]));
    let step = session.step(failure("conflict"));
    assert_eq!(step.ask, git(&["cherry-pick", "--abort"]));
    let step = session.step(success(""));
    assert_eq!(step.ask, Ask::End(Ok(())));
    assert_eq!(
        texts(&step.lines)[..2],
        strings(&[
            "  ✗ Failed: Cherry-pick failed: conflict",
            "  ℹ You may need to resolve conflicts manually.",
        ])[..]
    );
}

/// The commands that a session asks for, up to its last step.
fn commands(events: Vec<Event>) -> Vec<Vec<String>> {
    let mut all = Vec::new();
    let (mut session, mut step) = Session::start(false);
    for event in events {
        if let Ask::Git(command) = &step.ask {
            all.push(command.args.clone());
        }
        assert!(session.accepts(&event));
        step = session.step(event);
    }
    if let Ask::Git(command) = &step.ask {
        all.push(command.args.clone());
    }
    all
}

#[test]
fn a_session_acts_on_what_was_picked_and_entered() {
    let mut events = to_branches();
    events.push(broken());
    events.push(Event::Entered("trunk".to_string()));
    events.push(Event::Picked(1));
    events.push(success(LOG));
    events.push(success("a.rs\nb.rs\nd.rs\n"));
    events.push(success("c.rs\n"));
    events.push(success("e.rs\nf.rs\n"));
    events.push(Event::PickedMany(vec![0, 2]));
    events.push(Event::Answered(false));
    events.push(Event::PickedMany(vec![0, 2]));
    events.push(Event::PickedMany(vec![0, 1]));
    events.push(Event::Entered("mine".to_string()));
    events.push(Event::Answered(true));
    for reply in ["", "parent", "diff", "", "", ""] {
        events.push(success(reply));
    }
    events.push(Event::Answered(true));
    let all = commands(events);
    assert_eq!(all[4], strings(&["log", "--format=%H|%an|%ae|%ai|%s", "trunk..develop"]));
    assert_eq!(all[8], strings(&["checkout", "-b", "mine", "trunk"]));
    assert_eq!(all[9], strings(&["rev-parse", "--verify", "aaaaaaaaaa^"]));
    assert_eq!(all[10][0], "diff");
    assert_eq!(all[10][all[10].len() - 3..], strings(&["--", "a.rs", "d.rs"]));
    assert_eq!(all[13], strings(&["cherry-pick", "cccccccccc"]));
    assert_eq!(all[14], strings(&["push", "origin", "mine"]));
    assert_eq!(all.len(), 15);
}

#[test]
fn a_commit_without_picked_files_is_left_out() {
    let mut events = to_commits();
    events.push(Event::PickedMany(vec![0, 1]));
    events.push(Event::Answered(false));
    events.push(Event::PickedMany(vec![]));
    events.push(Event::PickedMany(vec![0]));
    events.push(Event::Entered("mine".to_string()));
    events.push(Event::Answered(true));
    events.push(success(""));
    let all = commands(events);
    assert_eq!(all[all.len() - 2], strings(&["checkout", "-b", "mine", "main"]));
    assert_eq!(all[all.len() - 1], strings(&["cherry-pick", "bbbbbbbbbb"]));
}

fn to_push() -> Vec<Event> {
    let mut events = to_apply();
    for reply in ["", "parent", "diff", "", "", "", ""] {
        events.push(success(reply));
    }
    events
}

#[test]
fn the_branch_is_pushed_on_consent_only() {
    let mut events = to_push();
    events.push(Event::Answered(true));
    let (mut session, step) = after(false, events);
    assert_eq!(step.ask, git(&["push", "origin", "pr/develop"]));
    let step = session.step(success(""));
    assert_eq!(step.ask, Ask::End(Ok(())));
    assert_eq!(
        texts(&step.lines),
        strings(&[
            "  ✓ Branch 'pr/develop' pushed to origin",
            "",
            "  🎉 Branch 'pr/develop' is ready for a PR into main!",
            "  Happy coding! 🚀",
            "",
        ])
    );
    let mut events = to_push();
    events.push(Event::Answered(false));
    let (_, step) = after(false, events);
    assert_eq!(step.ask, Ask::End(Ok(())));
    assert_eq!(
        texts(&step.lines)[..2],
        strings(&[
            "  → Skipped push. You can push manually:",
            "    git push origin pr/develop",
        ])[..]
    );
    let mut events = to_push();
    events.push(Event::Answered(true));
    events.push(failure("rejected"));
    let (_, step) = after(false, events);
    assert_eq!(step.ask, Ask::End(Ok(())));
    assert_eq!(
        texts(&step.lines)[..2],
        strings(&[
            "  ✗ Push failed: Git error: rejected",
            "  ℹ You can push manually later.",
        ])[..]
    );
}

#[test]
fn options_are_read_from_the_arguments() {
    assert_eq!(parse_args(&strings(&["x"])), Options { version: false, diff: false });
    assert_eq!(parse_args(&strings(&["x", "--diff"])), Options { version: false, diff: true });
    assert_eq!(parse_args(&strings(&["x", "-V"])), Options { version: true, diff: false });
    assert_eq!(
        parse_args(&strings(&["x", "--diff", "--version"])),
        Options { version: true, diff: true }
    );
    assert_eq!(parse_args(&strings(&["--diffs"])), Options { version: false, diff: false });
}

#[test]
fn messages_are_worded() {
    assert_eq!(noun_for(1), "commit");
    assert_eq!(noun_for(0), "commits");
    assert_eq!(noun_for(2), "commits");
    assert_eq!(plain(&ask_create("b", 2)), "Create branch 'b' and apply 2 selection(s)?");
    assert_eq!(plain(&ask_push("b")), "Push 'b' to origin?");
    let subject = "x".repeat(60);
    assert_eq!(
        texts(&say_picking(1, 2, "short", &subject)),
        vec![format!("  [1/2] Cherry-picking short {}......", "x".repeat(47))]
    );
    assert_eq!(say_preview("").len(), 0);
    let summary = say_summary("t", "s", 1, 2, 0);
    assert_eq!(texts(&summary)[5], "  ▶ 1 whole commit, 2 partial commits, 0 skipped");
    assert_eq!(summary[1].spans[1].tone, Tone::Bold);
}

fn span(tone: Tone, text: &str) -> Span {
    Span { tone, text: text.to_string() }
}

#[test]
fn tones_are_painted_where_they_show() {
    let painted = |tone: Tone| paint_when(true, &span(tone, "x"));
    assert_eq!(painted(Tone::Plain), "x");
    assert_eq!(painted(Tone::Green), "\x1b[32mx\x1b[0m");
    assert_eq!(painted(Tone::BrightGreen), "\x1b[92mx\x1b[0m");
    assert_eq!(painted(Tone::BoldBrightGreen), "\x1b[1;92mx\x1b[0m");
    assert_eq!(painted(Tone::Yellow), "\x1b[33mx\x1b[0m");
    assert_eq!(painted(Tone::Blue), "\x1b[34mx\x1b[0m");
    assert_eq!(painted(Tone::Cyan), "\x1b[36mx\x1b[0m");
    assert_eq!(painted(Tone::Red), "\x1b[31mx\x1b[0m");
    assert_eq!(painted(Tone::White), "\x1b[37mx\x1b[0m");
    assert_eq!(painted(Tone::Bold), "\x1b[1mx\x1b[0m");
    assert_eq!(painted(Tone::Dimmed), "\x1b[2mx\x1b[0m");
    assert_eq!(
        paint_when(true, &span(Tone::Red, "a\x1b[0mb")),
        "\x1b[31ma\x1b[0m\x1b[31mb\x1b[0m"
    );
    assert_eq!(
        paint_all_when(
            true,
            &vec![span(Tone::Plain, "  "), span(Tone::Green, "✓"), span(Tone::Plain, " ok")]
        ),
        "  \x1b[32m✓\x1b[0m ok"
    );
}

#[test]
fn tones_do_not_change_text_where_they_do_not_show() {
    for tone in [Tone::Green, Tone::Bold, Tone::Dimmed, Tone::BoldBrightGreen] {
        assert_eq!(paint_when(false, &span(tone, "a\x1b[0mb")), "a\x1b[0mb");
    }
    assert_eq!(paint_all_when(false, &vec![span(Tone::Red, "a"), span(Tone::Bold, "b")]), "ab");
    assert_eq!(paint_all_when(true, &vec![]), "");
}

/// What `colored` makes of the text.
fn coloured(tone: Tone, text: &str) -> String {
    match tone {
        Tone::Plain => text.to_string(),
        Tone::Green => text.green().to_string(),
        Tone::BrightGreen => text.bright_green().to_string(),
        Tone::BoldBrightGreen => text.bright_green().bold().to_string(),
        Tone::Yellow => text.yellow().to_string(),
        Tone::Blue => text.blue().to_string(),
        Tone::Cyan => text.cyan().to_string(),
        Tone::Red => text.red().to_string(),
        Tone::White => text.white().to_string(),
        Tone::Bold => text.bold().to_string(),
        Tone::Dimmed => text.dimmed().to_string(),
    }
}

/// The only test that sets whether tones show, which holds for the whole process.
#[test]
fn text_is_painted_as_colored_paints_it() {
    let tones = [
        Tone::Plain,
        Tone::Green,
        Tone::BrightGreen,
        Tone::BoldBrightGreen,
        Tone::Yellow,
        Tone::Blue,
        Tone::Cyan,
        Tone::Red,
        Tone::White,
        Tone::Bold,
        Tone::Dimmed,
    ];
    let contents = [
        "",
        "x",
        "✓ größer",
        "a\x1b[0mb",
        "\x1b[0m",
        "\x1b[0m\x1b[0mz",
        "\x1b[32mx\x1b[0m y\x1b[0",
        "\x1b\x1b[0m[0m",
    ];
    for shown in [true, false] {
        colored::control::set_override(shown);
        let mut line: Vec<Span> = Vec::new();
        let mut whole = String::new();
        for tone in tones {
            for text in contents {
                let expected = coloured(tone, text);
                assert_eq!(paint(&span(tone, text)), expected);
                assert_eq!(paint_when(shown, &span(tone, text)), expected);
                line.push(span(tone, text));
                whole.push_str(&expected);
            }
        }
        assert_eq!(paint_all(&line), whole);
        assert_eq!(paint_all_when(shown, &line), whole);
    }
    colored::control::unset_override();
}
