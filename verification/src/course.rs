//! The course of a session, question by question: what each answer leads to.

use vstd::prelude::*;
use crate::apply::{files_start, law_changes_word_by_word, whole_start, ApplyStepModel};
use crate::branches::{default_index, law_listings_word_by_word, merged, suggested};
use crate::commits::{fresh_query, law_log_word_by_word, CommitModel, QueryStepModel};
use crate::dialogue::{AskModel, EventModel, FailureModel};
use crate::flow::{
    create_model, first_step, fresh_session, lemma_next_active, next_active, next_with_files,
    push_model, show_model, Move, Phase, SessionModel,
};
use crate::git::{git_result, law_questions_word_by_word, uncommitted, ReplyModel};
use crate::messages::{
    aborted, all_applied, all_files, applied, banner, blank, commit_head, conflicts,
    create_question, created, creating, exiting, failed, fetching, finding, found_branches,
    found_commits, interrupted, listing, merge_found, no_commits, no_files, nothing_to_do,
    picking, preview, push_failed, push_question, push_skipped, pushed, pushing, question, ready,
    repository, selected_commits, selection_failed, some_files, source_chosen, summary,
    taking_files, target_chosen, LineModel,
};
use crate::selection::{
    partial_count, restriction, selections_of, skipped_count, whole_count, SelectionModel,
};
use crate::text::Text;

verus! {

/// The session waits in `phase`, otherwise as `s`; these lines are said; and git is
/// to run with these arguments and nothing to read.
pub open spec fn runs_git(
    outcome: Move,
    s: SessionModel,
    phase: Phase,
    lines: Seq<LineModel>,
    args: Seq<Text>,
) -> bool {
    &&& outcome.0 == (SessionModel { phase, ..s })
    &&& outcome.1.lines == lines
    &&& outcome.1.ask matches AskModel::Git(command) && command.args == args
        && command.input is None
}

/// The session waits in `phase`, otherwise as `s`; these lines are said; and this
/// is asked.
pub open spec fn puts(
    outcome: Move,
    s: SessionModel,
    phase: Phase,
    lines: Seq<LineModel>,
    ask: AskModel,
) -> bool {
    &&& outcome.0 == (SessionModel { phase, ..s })
    &&& outcome.1.lines == lines
    &&& outcome.1.ask == ask
}

/// The session is over; these lines are said last.
pub open spec fn is_over(outcome: Move, s: SessionModel, lines: Seq<LineModel>) -> bool {
    puts(outcome, s, Phase::Ended, lines, AskModel::End(Ok(())))
}

/// The session has failed, and nothing is said.
pub open spec fn has_failed(outcome: Move, s: SessionModel, failure: FailureModel) -> bool {
    puts(outcome, s, Phase::Ended, Seq::empty(), AskModel::End(Err(failure)))
}

/// The remaining commands of a session, word by word.
pub proof fn law_branch_commands_word_by_word(branch: Text, target: Text, hash: Text)
    ensures
        create_model(branch, target).args == seq!["checkout"@, "-b"@, branch, target],
        create_model(branch, target).input is None,
        push_model(branch).args == seq!["push"@, "origin"@, branch],
        push_model(branch).input is None,
        show_model(hash).args == seq!["show"@, "--color=always"@, "--format="@, hash],
        show_model(hash).input is None,
{
    assert(create_model(branch, target).args =~= seq!["checkout"@, "-b"@, branch, target]);
    assert(push_model(branch).args =~= seq!["push"@, "origin"@, branch]);
    assert(show_model(hash).args =~= seq!["show"@, "--color=always"@, "--format="@, hash]);
}

/// A session starts with the banner and the question where the repository is.
pub proof fn law_sessions_start_at_the_repository(diff: bool)
    ensures
        fresh_session(diff).phase == Phase::Root,
        fresh_session(diff).diff == diff,
        !fresh_session(diff).show_diff,
        fresh_session(diff).commits.len() == 0,
        fresh_session(diff).selected.len() == 0,
        fresh_session(diff).restrictions.dom() == Set::<usize>::empty(),
        first_step().lines == banner(),
        first_step().ask matches AskModel::Git(command) && command.args == seq![
            "rev-parse"@,
            "--show-toplevel"@,
        ] && command.input is None,
{
    law_questions_word_by_word(Seq::empty());
}

/// Once the repository is known, uncommitted changes are asked for. They have to be
/// accepted before the branches are listed, and a no ends the session.
pub proof fn law_changes_are_asked_for_first(s: SessionModel, reply: ReplyModel, answer: bool)
    ensures
        s.phase == Phase::Root ==> match git_result(
            seq!["rev-parse"@, "--show-toplevel"@],
            reply,
        ) {
            Ok(root) => runs_git(
                s.next(EventModel::Ran(reply)),
                s,
                Phase::Status,
                repository(root),
                seq!["status"@, "--porcelain"@],
            ),
            Err(error) => has_failed(
                s.next(EventModel::Ran(reply)),
                s,
                FailureModel::Git(error),
            ),
        },
        s.phase == Phase::Status ==> match uncommitted(reply) {
            Ok(true) => puts(
                s.next(EventModel::Ran(reply)),
                s,
                Phase::Dirty,
                crate::messages::uncommitted(),
                AskModel::Confirm { question: question("Continue anyway?"@), preset: false },
            ),
            Ok(false) => runs_git(
                s.next(EventModel::Ran(reply)),
                s,
                Phase::Local,
                fetching(),
                seq!["branch"@, "--format=%(refname:short)"@],
            ),
            Err(error) => has_failed(
                s.next(EventModel::Ran(reply)),
                s,
                FailureModel::Git(error),
            ),
        },
        s.phase == Phase::Dirty && answer ==> runs_git(
            s.next(EventModel::Answered(answer)),
            s,
            Phase::Local,
            blank() + fetching(),
            seq!["branch"@, "--format=%(refname:short)"@],
        ),
        s.phase == Phase::Dirty && !answer ==> is_over(
            s.next(EventModel::Answered(answer)),
            s,
            exiting(),
        ),
{
    law_questions_word_by_word(Seq::empty());
    law_listings_word_by_word();
    assert(Seq::<LineModel>::empty() + fetching() =~= fetching());
}

/// The local branches are listed first and then the remote ones. The branches of
/// both are offered as the target, `main` before others; without any branch the
/// session fails.
pub proof fn law_both_listings_are_offered(s: SessionModel, reply: ReplyModel)
    ensures
        s.phase == Phase::Local ==> match git_result(
            seq!["branch"@, "--format=%(refname:short)"@],
            reply,
        ) {
            Ok(local) => runs_git(
                s.next(EventModel::Ran(reply)),
                SessionModel { local, ..s },
                Phase::Remote,
                Seq::empty(),
                seq!["branch"@, "-r"@, "--format=%(refname:short)"@],
            ),
            Err(error) => has_failed(
                s.next(EventModel::Ran(reply)),
                s,
                FailureModel::Git(error),
            ),
        },
        s.phase == Phase::Remote ==> match git_result(
            seq!["branch"@, "-r"@, "--format=%(refname:short)"@],
            reply,
        ) {
            Ok(remote) => {
                let branches = merged(s.local, remote);
                if branches.len() == 0 {
                    has_failed(
                        s.next(EventModel::Ran(reply)),
                        SessionModel { branches, ..s },
                        FailureModel::NoBranches,
                    )
                } else {
                    puts(
                        s.next(EventModel::Ran(reply)),
                        SessionModel { branches, ..s },
                        Phase::Target,
                        found_branches(branches.len() as usize),
                        AskModel::Select {
                            prompt: "Which branch do you want to PR into (target)?"@,
                            items: branches,
                            initial: default_index(branches, "main"@),
                        },
                    )
                }
            },
            Err(error) => has_failed(
                s.next(EventModel::Ran(reply)),
                s,
                FailureModel::Git(error),
            ),
        },
{
    law_listings_word_by_word();
}

/// The target is the branch picked, or the name entered where picking failed. Then
/// the same branches are offered as the source, `develop` before others.
pub proof fn law_source_follows_target(
    s: SessionModel,
    index: usize,
    name: Text,
    message: Text,
    causes: Seq<Text>,
)
    ensures
        s.phase == Phase::Target ==> asks_for_source(
            s,
            s.branches[index as int],
            s.next(EventModel::Picked(index)),
        ),
        s.phase == Phase::TargetName ==> asks_for_source(s, name, s.next(EventModel::Entered(name))),
        s.phase == Phase::Target ==> puts(
            s.next(EventModel::Failed { message, causes }),
            s,
            Phase::TargetName,
            selection_failed(message),
            AskModel::Input { prompt: "Enter target branch name"@, offered: None },
        ),
{
}

/// The target is `target`, and the source is asked for.
pub open spec fn asks_for_source(s: SessionModel, target: Text, outcome: Move) -> bool {
    puts(
        outcome,
        SessionModel { target, ..s },
        Phase::Source,
        target_chosen(target),
        AskModel::Select {
            prompt: "Which branch contains the changes (source)?"@,
            items: s.branches,
            initial: default_index(s.branches, "develop"@),
        },
    )
}

/// The source is the branch picked, or the name entered where picking failed. Then
/// the commits on it that are not on the target are collected.
pub proof fn law_commits_follow_source(
    s: SessionModel,
    index: usize,
    name: Text,
    message: Text,
    causes: Seq<Text>,
)
    ensures
        s.phase == Phase::Source ==> asks_for_log(
            s,
            s.branches[index as int],
            s.next(EventModel::Picked(index)),
        ),
        s.phase == Phase::SourceName ==> asks_for_log(s, name, s.next(EventModel::Entered(name))),
        s.phase == Phase::Source ==> puts(
            s.next(EventModel::Failed { message, causes }),
            s,
            Phase::SourceName,
            selection_failed(message),
            AskModel::Input { prompt: "Enter source branch name"@, offered: None },
        ),
{
    law_log_word_by_word(s.target, s.branches[index as int]);
    law_log_word_by_word(s.target, name);
}

/// The source is `source`, and its log is asked for; if it is the target itself,
/// there are no commits, and the session is over.
pub open spec fn asks_for_log(s: SessionModel, source: Text, outcome: Move) -> bool {
    let n = SessionModel { source, query: fresh_query(s.target, source), ..s };
    let lines = source_chosen(source) + finding(source, s.target);
    if source == s.target {
        is_over(outcome, SessionModel { commits: Seq::empty(), ..n }, lines + no_commits())
    } else {
        runs_git(
            outcome,
            n,
            Phase::Collect,
            lines,
            seq!["log"@, "--format=%H|%an|%ae|%ai|%s"@, s.target + ".."@ + source],
        )
    }
}

/// The commits collected are listed and offered, none of them checked. Without any
/// the session is over, and an error is its failure.
pub proof fn law_collected_commits_are_offered(s: SessionModel, reply: ReplyModel)
    requires
        s.phase == Phase::Collect,
    ensures
        ({
            let (query, step) = s.query.resumed(reply);
            let outcome = s.next(EventModel::Ran(reply));
            let n = SessionModel { query, ..s };
            match step {
                QueryStepModel::Run(command) => puts(
                    outcome,
                    n,
                    Phase::Collect,
                    Seq::empty(),
                    AskModel::Git(command),
                ),
                QueryStepModel::Done(Err(error)) => has_failed(
                    outcome,
                    n,
                    FailureModel::Git(error),
                ),
                QueryStepModel::Done(Ok(commits)) => if commits.len() == 0 {
                    is_over(outcome, SessionModel { commits, ..n }, no_commits())
                } else {
                    &&& outcome.0 == (SessionModel { commits, phase: Phase::Commits, ..n })
                    &&& outcome.1.lines == found_commits(commits.len() as usize) + listing(
                        s.source,
                        s.target,
                        commits,
                    )
                    &&& outcome.1.ask matches AskModel::MultiSelect { prompt, items, checked } && {
                        &&& prompt
                            == "Select commits to include (space: toggle, ↑/↓: navigate, enter: confirm)"@
                        &&& items.len() == commits.len()
                        &&& forall|i: int|
                            0 <= i < commits.len() ==> #[trigger] items[i] == (
                            #[trigger] commits[i]).short_hash() + "  "@ + commits[i].subject
                        &&& !checked
                    }
                },
            }
        }),
{
    if let QueryStepModel::Done(Ok(commits)) = s.query.resumed(reply).1 {
        let found = found_commits(commits.len() as usize);
        let listed = listing(s.source, s.target, commits);
        assert(Seq::<LineModel>::empty() + found + listed =~= found + listed);
        assert(Seq::<LineModel>::empty() + no_commits() =~= no_commits());
    }
}

/// Once commits are picked, diffs are shown if they were asked for on the command
/// line, and otherwise the user is asked about them, with no as the answer offered;
/// without any commits picked, that question is left out.
pub proof fn law_diffs_follow_the_choice_of_commits(
    s: SessionModel,
    picked: Seq<usize>,
    answer: bool,
)
    ensures
        s.phase == Phase::Commits ==> ({
            let lines = selected_commits(picked.len() as usize, s.commits.len() as usize);
            let n = SessionModel { selected: picked, ..s };
            let outcome = s.next(EventModel::PickedMany(picked));
            if s.diff {
                outcome == (SessionModel {
                    show_diff: true,
                    restrictions: Map::empty(),
                    ..n
                }).visits(0, lines + blank())
            } else if picked.len() == 0 {
                outcome == (SessionModel {
                    show_diff: false,
                    restrictions: Map::empty(),
                    ..n
                }).visits(0, lines)
            } else {
                puts(
                    outcome,
                    n,
                    Phase::Diffs,
                    lines,
                    AskModel::Confirm {
                        question: question("Show diff preview for selected commits?"@),
                        preset: false,
                    },
                )
            }
        }),
        s.phase == Phase::Diffs ==> s.next(EventModel::Answered(answer)) == (SessionModel {
            show_diff: answer,
            restrictions: Map::empty(),
            ..s
        }).visits(
            0,
            if answer {
                blank()
            } else {
                Seq::empty()
            },
        ),
{
}

/// The selected commit asked about next is the first from `from` on that has files.
pub proof fn law_next_with_files_is_the_first(
    commits: Seq<CommitModel>,
    selected: Seq<usize>,
    from: nat,
    p: int,
)
    requires
        from <= p < selected.len(),
        forall|q: int|
            from <= q < p ==> commits[#[trigger] selected[q] as int].files.len() == 0,
    ensures
        commits[selected[p] as int].files.len() > 0 ==> next_with_files(commits, selected, from)
            == p,
        commits[selected[p] as int].files.len() == 0 && p == selected.len() - 1
            ==> next_with_files(commits, selected, from) == selected.len(),
    decreases p - from,
{
    if from < p {
        assert(commits[selected[from as int] as int].files.len() == 0);
        law_next_with_files_is_the_first(commits, selected, from + 1, p);
    } else if commits[selected[p] as int].files.len() == 0 {
        assert(next_with_files(commits, selected, from + 1) == next_with_files(
            commits,
            selected,
            from,
        ));
    }
}

/// The commit applied next is the first from `from` on that is not left out.
pub proof fn law_next_active_is_the_first(selections: Seq<SelectionModel>, from: nat, p: int)
    requires
        from <= p < selections.len(),
        forall|q: int| from <= q < p ==> #[trigger] selections[q] is Skip,
    ensures
        !(selections[p] is Skip) ==> next_active(selections, from) == p,
        selections[p] is Skip && p == selections.len() - 1 ==> next_active(selections, from)
            == selections.len(),
    decreases p - from,
{
    if from < p {
        assert(selections[from as int] is Skip);
        law_next_active_is_the_first(selections, from + 1, p);
    } else if selections[p] is Skip {
        assert(next_active(selections, from + 1) == next_active(selections, from));
    }
}

/// Behind the last one, nothing comes next.
pub proof fn law_nothing_comes_behind_the_last(
    commits: Seq<CommitModel>,
    selected: Seq<usize>,
    selections: Seq<SelectionModel>,
    from: nat,
)
    ensures
        from >= selected.len() ==> next_with_files(commits, selected, from) == selected.len(),
        from >= selections.len() ==> next_active(selections, from) == selections.len(),
{
}

/// The question which files of the current commit to take: all of them are offered,
/// and all are checked.
pub open spec fn asks_for_files(outcome: Move, s: SessionModel, lines: Seq<LineModel>) -> bool {
    puts(
        outcome,
        s,
        Phase::Files,
        lines,
        AskModel::MultiSelect {
            prompt: "Select files (space: toggle, enter: confirm — deselect to exclude)"@,
            items: s.commits[s.selected[s.cursor as int] as int].files,
            checked: true,
        },
    )
}

/// The next selected commit with files is introduced, and its files are asked for,
/// after its diff where diffs are shown. Where none is left, the selection is summed
/// up.
pub proof fn law_files_are_asked_for_commit_by_commit(
    s: SessionModel,
    from: nat,
    lines: Seq<LineModel>,
)
    ensures
        ({
            let cursor = next_with_files(s.commits, s.selected, from);
            let n = SessionModel { cursor, ..s };
            let commit = s.commits[s.selected[cursor as int] as int];
            let head = lines + commit_head(commit.short_hash(), commit.subject);
            if cursor >= s.selected.len() {
                s.visits(from, lines) == n.summarizes(lines)
            } else if s.show_diff {
                runs_git(
                    s.visits(from, lines),
                    n,
                    Phase::Preview,
                    head,
                    seq!["show"@, "--color=always"@, "--format="@, commit.hash],
                )
            } else {
                asks_for_files(s.visits(from, lines), n, head)
            }
        }),
{
    let cursor = next_with_files(s.commits, s.selected, from);
    let commit = s.commits[s.selected[cursor as int] as int];
    law_branch_commands_word_by_word(Seq::empty(), Seq::empty(), commit.hash);
}

/// A diff that git showed is previewed, and without one nothing is; the files are
/// asked for either way.
pub proof fn law_files_follow_the_preview(s: SessionModel, reply: ReplyModel)
    requires
        s.phase == Phase::Preview,
    ensures
        ({
            let commit = s.commits[s.selected[s.cursor as int] as int];
            match git_result(
                seq!["show"@, "--color=always"@, "--format="@, commit.hash],
                reply,
            ) {
                Ok(diff) => asks_for_files(s.next(EventModel::Ran(reply)), s, preview(diff)),
                Err(_) => asks_for_files(s.next(EventModel::Ran(reply)), s, Seq::empty()),
            }
        }),
{
    law_branch_commands_word_by_word(Seq::empty(), Seq::empty(), s.current().hash);
}

/// A choice of files is kept for its commit where it is a restriction; how many
/// files were picked is said; and the next commit is asked about.
pub proof fn law_choices_of_files_are_kept(s: SessionModel, picked: Seq<usize>)
    requires
        s.phase == Phase::Files,
    ensures
        ({
            let index = s.selected[s.cursor as int];
            let files = s.commits[index as int].files;
            let lines = if picked.len() == 0 {
                no_files()
            } else if picked.len() < files.len() {
                some_files(picked.len() as usize, files.len() as usize)
            } else {
                all_files()
            };
            let outcome = s.next(EventModel::PickedMany(picked));
            match restriction(files, picked) {
                Some(chosen) => outcome == (SessionModel {
                    restrictions: s.restrictions.insert(index, chosen),
                    ..s
                }).visits(s.cursor + 1, lines),
                None => outcome == s.visits(s.cursor + 1, lines),
            }
        }),
{
}

/// The summary counts what becomes of the commits. If anything is to be applied, the
/// name of the new branch is asked for, with a suggestion; otherwise the session is
/// over.
pub proof fn law_summary_counts_the_selection(s: SessionModel, lines: Seq<LineModel>)
    ensures
        ({
            let selections = selections_of(s.commits.len(), s.selected, s.restrictions);
            let n = SessionModel { selections, ..s };
            let said = lines + summary(
                s.target,
                s.source,
                whole_count(selections) as usize,
                partial_count(selections) as usize,
                skipped_count(selections) as usize,
            );
            if whole_count(selections) + partial_count(selections) == 0 {
                is_over(s.summarizes(lines), n, said + nothing_to_do())
            } else {
                puts(
                    s.summarizes(lines),
                    n,
                    Phase::Name,
                    said,
                    AskModel::Input {
                        prompt: "Name for the new PR branch"@,
                        offered: Some(suggested(s.source)),
                    },
                )
            }
        }),
{
}

/// The branch named is created at the target on a yes, which is the answer offered;
/// a no ends the session. Once it is created, applying begins with the first commit;
/// otherwise the session fails.
pub proof fn law_branch_is_created_on_consent(
    s: SessionModel,
    name: Text,
    answer: bool,
    reply: ReplyModel,
)
    ensures
        s.phase == Phase::Name ==> puts(
            s.next(EventModel::Entered(name)),
            SessionModel { branch: name, ..s },
            Phase::Create,
            blank(),
            AskModel::Confirm {
                question: create_question(
                    name,
                    (whole_count(s.selections) + partial_count(s.selections)) as usize,
                ),
                preset: true,
            },
        ),
        s.phase == Phase::Create && answer ==> runs_git(
            s.next(EventModel::Answered(answer)),
            s,
            Phase::Branch,
            blank() + creating(s.target),
            seq!["checkout"@, "-b"@, s.branch, s.target],
        ),
        s.phase == Phase::Create && !answer ==> is_over(
            s.next(EventModel::Answered(answer)),
            s,
            aborted(),
        ),
        s.phase == Phase::Branch ==> match git_result(
            seq!["checkout"@, "-b"@, s.branch, s.target],
            reply,
        ) {
            Ok(_) => s.next(EventModel::Ran(reply)) == (SessionModel { applied: 0, ..s }).applies(
                0,
                created(s.branch, s.target),
            ),
            Err(error) => has_failed(
                s.next(EventModel::Ran(reply)),
                s,
                FailureModel::Create(error),
            ),
        },
{
    law_branch_commands_word_by_word(s.branch, s.target, Seq::empty());
}

/// The next commit that is not left out is applied, as a whole or those files of it
/// that were settled on; which one of how many it is, is said. Behind the last one
/// the push is asked for, with yes as the answer offered.
pub proof fn law_commits_are_applied_one_by_one(
    s: SessionModel,
    from: nat,
    lines: Seq<LineModel>,
)
    requires
        from <= s.selections.len(),
    ensures
        ({
            let position = next_active(s.selections, from);
            let total = (whole_count(s.selections) + partial_count(s.selections)) as usize;
            let commit = s.commits[position as int];
            let applied = s.applied + 1;
            let outcome = s.applies(from, lines);
            if position >= s.selections.len() {
                puts(
                    outcome,
                    SessionModel { position, ..s },
                    Phase::Push,
                    lines + all_applied(total),
                    AskModel::Confirm { question: push_question(s.branch), preset: true },
                )
            } else {
                match s.selections[position as int] {
                    SelectionModel::Skip => false,
                    SelectionModel::Whole => runs_git(
                        outcome,
                        SessionModel { position, applied, job: whole_start(commit), ..s },
                        Phase::Apply,
                        lines + picking(
                            applied as usize,
                            total,
                            commit.short_hash(),
                            commit.subject,
                        ),
                        seq!["cherry-pick"@, commit.hash],
                    ),
                    SelectionModel::Files(files) => runs_git(
                        outcome,
                        SessionModel { position, applied, job: files_start(commit, files), ..s },
                        Phase::Apply,
                        lines + taking_files(
                            applied as usize,
                            total,
                            commit.short_hash(),
                            commit.subject,
                        ),
                        seq!["rev-parse"@, "--verify"@, commit.hash + "^"@],
                    ),
                }
            }
        }),
{
    let position = next_active(s.selections, from);
    let commit = s.commits[position as int];
    law_changes_word_by_word(commit.hash, commit.subject, Seq::empty(), Seq::empty());
    lemma_next_active(s.selections, from);
}

/// A job goes on command by command, and a merge is spoken of when it is found. Once
/// it is done, the next commit is applied; if it fails, that is said, the branch is
/// left as it is, and the session is over. Conflicts are spoken of where a whole
/// commit was applied.
pub proof fn law_jobs_go_on_until_one_fails(s: SessionModel, reply: ReplyModel)
    requires
        s.phase == Phase::Apply,
    ensures
        ({
            let (job, step) = s.job.resumed(reply);
            let n = SessionModel { job, ..s };
            let outcome = s.next(EventModel::Ran(reply));
            match step {
                ApplyStepModel::Run { command, merge_found: merge } => puts(
                    outcome,
                    n,
                    Phase::Apply,
                    if merge {
                        merge_found()
                    } else {
                        Seq::empty()
                    },
                    AskModel::Git(command),
                ),
                ApplyStepModel::Done(Ok(_)) => outcome == n.applies(s.position + 1, applied()),
                ApplyStepModel::Done(Err(error)) => is_over(
                    outcome,
                    n,
                    if s.selections[s.position as int] is Whole {
                        failed(error.message()) + conflicts() + interrupted(s.branch)
                    } else {
                        failed(error.message()) + interrupted(s.branch)
                    },
                ),
            }
        }),
{
}

/// The branch is pushed to `origin` on a yes, and not otherwise; that the branch is
/// ready is said in any case, and the session is over.
pub proof fn law_push_is_the_last_question(s: SessionModel, answer: bool, reply: ReplyModel)
    ensures
        s.phase == Phase::Push && answer ==> runs_git(
            s.next(EventModel::Answered(answer)),
            s,
            Phase::Pushing,
            pushing(),
            seq!["push"@, "origin"@, s.branch],
        ),
        s.phase == Phase::Push && !answer ==> is_over(
            s.next(EventModel::Answered(answer)),
            s,
            push_skipped(s.branch) + ready(s.branch, s.target),
        ),
        s.phase == Phase::Pushing ==> match git_result(
            seq!["push"@, "origin"@, s.branch],
            reply,
        ) {
            Ok(_) => is_over(
                s.next(EventModel::Ran(reply)),
                s,
                pushed(s.branch) + ready(s.branch, s.target),
            ),
            Err(error) => is_over(
                s.next(EventModel::Ran(reply)),
                s,
                push_failed(error.message()) + ready(s.branch, s.target),
            ),
        },
{
    law_branch_commands_word_by_word(s.branch, s.target, Seq::empty());
}

/// A prompt that fails is the failure of the session, except where a branch was to
/// be picked, which can be entered instead. What is said of it depends on whether
/// commits or files were to be picked.
pub proof fn law_failing_prompts_end_the_session(
    s: SessionModel,
    message: Text,
    causes: Seq<Text>,
)
    requires
        s.phase != Phase::Target,
        s.phase != Phase::Source,
    ensures
        has_failed(
            s.next(EventModel::Failed { message, causes }),
            s,
            match s.phase {
                Phase::Commits => FailureModel::CommitPrompt { message, causes },
                Phase::Files => FailureModel::FilePrompt { message, causes },
                _ => FailureModel::Prompt { message, causes },
            },
        ),
{
}

/// A session takes the reply to a command where it waits for one; an answer, a
/// text or a choice where it asked for that; a choice only among what it offered;
/// and the failure of a prompt where it prompted. Once it has ended it takes
/// nothing. A log is taken only with commits that can be shown.
pub proof fn law_sessions_take_what_they_asked_for(s: SessionModel, event: EventModel)
    ensures
        s.accepts(event) <==> match event {
            EventModel::Ran(reply) => match s.phase {
                Phase::Root | Phase::Status | Phase::Local | Phase::Remote | Phase::Preview
                | Phase::Branch | Phase::Apply | Phase::Pushing => true,
                Phase::Collect => s.query.resumed(reply).1 matches QueryStepModel::Done(Ok(commits))
                    ==> commits.len() <= usize::MAX && forall|i: int|
                    0 <= i < commits.len() ==> (#[trigger] commits[i]).is_presentable(),
                _ => false,
            },
            EventModel::Answered(_) => s.phase == Phase::Dirty || s.phase == Phase::Diffs || s.phase
                == Phase::Create || s.phase == Phase::Push,
            EventModel::Picked(index) => (s.phase == Phase::Target || s.phase == Phase::Source)
                && index < s.branches.len(),
            EventModel::PickedMany(picked) => {
                ||| s.phase == Phase::Commits && forall|i: int|
                    0 <= i < picked.len() ==> #[trigger] picked[i] < s.commits.len()
                ||| s.phase == Phase::Files && forall|i: int|
                    0 <= i < picked.len() ==> #[trigger] picked[i] < s.commits[s.selected[s.cursor as int] as int].files.len()
            },
            EventModel::Entered(_) => s.phase == Phase::TargetName || s.phase == Phase::SourceName
                || s.phase == Phase::Name,
            EventModel::Failed { message, causes } => match s.phase {
                Phase::Dirty | Phase::Target | Phase::TargetName | Phase::Source
                | Phase::SourceName | Phase::Commits | Phase::Diffs | Phase::Files | Phase::Name
                | Phase::Create | Phase::Push => true,
                _ => false,
            },
        },
{
}

} // verus!
