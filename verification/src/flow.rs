//! The course of a session, as a state machine over models.

use vstd::prelude::*;
use crate::apply::{
    files_start, parent_model, pick_model, whole_start, ApplyErrorModel, ApplyModel,
    ApplyStepModel, StageModel,
};
use crate::branches::{default_index, local_query_model, merged, remote_query_model, suggested};
use crate::commits::{
    first_query_step, fresh_query, CommitModel, QueryModel, QueryStepModel,
};
use crate::dialogue::{AskModel, EventModel, FailureModel, StepModel};
use crate::git::{
    git, git_result, root_query_model, status_query_model, uncommitted, CommandModel, ReplyModel,
};
use crate::messages::{
    aborted, all_applied, all_files, all_presentable, applied, banner, blank, commit_head,
    conflicts, create_question, created, creating, exiting, failed, fetching, finding,
    found_branches, found_commits, interrupted, listing, merge_found, no_commits, no_files,
    nothing_to_do, picking, preview, push_failed, push_question, push_skipped, pushed, pushing,
    question, ready, repository, selected_commits, selection_failed, some_files, source_chosen,
    summary, taking_files, target_chosen, LineModel,
};
use crate::selection::{
    active_count, all_below, lemma_active_push, partial_count, restriction, selections_of, skipped_count,
    whole_count, SelectionModel,
};
use crate::text::Text;

verus! {

/// What a session waits for.
#[derive(Clone, Copy, Debug, PartialEq, Eq, Structural)]
pub enum Phase {
    /// Where the repository is.
    Root,
    /// Whether there are uncommitted changes.
    Status,
    /// Whether to go on in spite of them.
    Dirty,
    /// The local branches.
    Local,
    /// The remote branches.
    Remote,
    /// The target branch, from the list.
    Target,
    /// The target branch, by name.
    TargetName,
    /// The source branch, from the list.
    Source,
    /// The source branch, by name.
    SourceName,
    /// The commits.
    Collect,
    /// Which commits to take.
    Commits,
    /// Whether to show diffs.
    Diffs,
    /// The diff of a commit.
    Preview,
    /// Which files of the commit to take.
    Files,
    /// The name of the new branch.
    Name,
    /// Whether to create it.
    Create,
    /// The creation of the branch.
    Branch,
    /// A command of applying a commit.
    Apply,
    /// Whether to push the branch.
    Push,
    /// The push.
    Pushing,
    /// Nothing more.
    Ended,
}

/// The model of a session.
pub struct SessionModel {
    pub phase: Phase,
    /// Whether diffs are shown without asking.
    pub diff: bool,
    /// The listing of the local branches.
    pub local: Text,
    pub branches: Seq<Text>,
    pub target: Text,
    pub source: Text,
    pub query: QueryModel,
    pub commits: Seq<CommitModel>,
    /// The positions of the selected commits.
    pub selected: Seq<usize>,
    /// Whether diffs are shown.
    pub show_diff: bool,
    /// The position in `selected` of the commit whose files are asked for.
    pub cursor: nat,
    pub restrictions: Map<usize, Seq<Text>>,
    /// What becomes of each commit.
    pub selections: Seq<SelectionModel>,
    /// The name of the new branch.
    pub branch: Text,
    pub job: ApplyModel,
    /// The position of the commit that `job` applies.
    pub position: nat,
    /// The number of commits whose applying has begun.
    pub applied: nat,
}

/// The outcome of an event: the session after it, and the step that follows.
pub type Move = (SessionModel, StepModel);

/// Creates the branch `branch` at `target`.
pub open spec fn create_model(branch: Text, target: Text) -> CommandModel {
    git("checkout"@).arg("-b"@).arg(branch).arg(target)
}

/// Pushes the branch.
pub open spec fn push_model(branch: Text) -> CommandModel {
    git("push"@).arg("origin"@).arg(branch)
}

/// Shows the diff of a commit, in colour.
pub open spec fn show_model(hash: Text) -> CommandModel {
    git("show"@).arg("--color=always"@).arg("--format="@).arg(hash)
}

/// The first position from `from` on, in `selected`, of a commit with files.
pub open spec fn next_with_files(
    commits: Seq<CommitModel>,
    selected: Seq<usize>,
    from: nat,
) -> nat
    decreases selected.len() - from,
{
    if from >= selected.len() {
        selected.len()
    } else if commits[selected[from as int] as int].files.len() > 0 {
        from
    } else {
        next_with_files(commits, selected, from + 1)
    }
}

/// The first position from `from` on of a commit that is not left out.
pub open spec fn next_active(selections: Seq<SelectionModel>, from: nat) -> nat
    decreases selections.len() - from,
{
    if from >= selections.len() {
        selections.len()
    } else if !(selections[from as int] is Skip) {
        from
    } else {
        next_active(selections, from + 1)
    }
}

/// The entries of the list of commits to choose from.
pub open spec fn commit_items(commits: Seq<CommitModel>) -> Seq<Text> {
    Seq::new(commits.len(), |i: int| commits[i].item())
}

/// A session before anything has come back.
pub open spec fn fresh_session(diff: bool) -> SessionModel {
    SessionModel {
        phase: Phase::Root,
        diff,
        local: Seq::empty(),
        branches: Seq::empty(),
        target: Seq::empty(),
        source: Seq::empty(),
        query: fresh_query(Seq::empty(), Seq::empty()),
        commits: Seq::empty(),
        selected: Seq::empty(),
        show_diff: false,
        cursor: 0,
        restrictions: Map::empty(),
        selections: Seq::empty(),
        branch: Seq::empty(),
        job: ApplyModel {
            hash: Seq::empty(),
            subject: Seq::empty(),
            files: Seq::empty(),
            stage: StageModel::Pick,
        },
        position: 0,
        applied: 0,
    }
}

/// The first step of a session.
pub open spec fn first_step() -> StepModel {
    StepModel { lines: banner(), ask: AskModel::Git(root_query_model()) }
}

impl SessionModel {
    /// The number of commits to apply.
    pub open spec fn total(self) -> nat {
        active_count(self.selections)
    }

    /// The commit whose files are asked for.
    pub open spec fn current(self) -> CommitModel {
        self.commits[self.selected[self.cursor as int] as int]
    }

    /// The session waits in `phase` for the answer to `ask`.
    pub open spec fn awaits(self, phase: Phase, lines: Seq<LineModel>, ask: AskModel) -> Move {
        (SessionModel { phase, ..self }, StepModel { lines, ask })
    }

    /// The session is over.
    pub open spec fn ends(self, lines: Seq<LineModel>) -> Move {
        self.awaits(Phase::Ended, lines, AskModel::End(Ok(())))
    }

    /// The session has failed.
    pub open spec fn fails(self, failure: FailureModel) -> Move {
        self.awaits(Phase::Ended, Seq::empty(), AskModel::End(Err(failure)))
    }

    /// The repository was found, or not.
    pub open spec fn on_root(self, reply: ReplyModel) -> Move {
        match git_result(root_query_model().args, reply) {
            Err(error) => self.fails(FailureModel::Git(error)),
            Ok(root) => self.awaits(
                Phase::Status,
                repository(root),
                AskModel::Git(status_query_model()),
            ),
        }
    }

    /// It is known whether there are uncommitted changes.
    pub open spec fn on_status(self, reply: ReplyModel) -> Move {
        match uncommitted(reply) {
            Err(error) => self.fails(FailureModel::Git(error)),
            Ok(true) => self.awaits(
                Phase::Dirty,
                crate::messages::uncommitted(),
                AskModel::Confirm { question: question("Continue anyway?"@), preset: false },
            ),
            Ok(false) => self.lists_branches(Seq::empty()),
        }
    }

    /// Begins to list the branches.
    pub open spec fn lists_branches(self, lines: Seq<LineModel>) -> Move {
        self.awaits(Phase::Local, lines + fetching(), AskModel::Git(local_query_model()))
    }

    /// The user goes on in spite of uncommitted changes, or not.
    pub open spec fn on_dirty(self, answer: bool) -> Move {
        if answer {
            self.lists_branches(blank())
        } else {
            self.ends(exiting())
        }
    }

    /// The local branches are listed.
    pub open spec fn on_local(self, reply: ReplyModel) -> Move {
        match git_result(local_query_model().args, reply) {
            Err(error) => self.fails(FailureModel::Git(error)),
            Ok(local) => (SessionModel { local, ..self }).awaits(
                Phase::Remote,
                Seq::empty(),
                AskModel::Git(remote_query_model()),
            ),
        }
    }

    /// The remote branches are listed.
    pub open spec fn on_remote(self, reply: ReplyModel) -> Move {
        match git_result(remote_query_model().args, reply) {
            Err(error) => self.fails(FailureModel::Git(error)),
            Ok(remote) => {
                let branches = merged(self.local, remote);
                if branches.len() == 0 {
                    (SessionModel { branches, ..self }).fails(FailureModel::NoBranches)
                } else {
                    (SessionModel { branches, ..self }).awaits(
                        Phase::Target,
                        found_branches(branches.len() as usize),
                        AskModel::Select {
                            prompt: "Which branch do you want to PR into (target)?"@,
                            items: branches,
                            initial: default_index(branches, "main"@),
                        },
                    )
                }
            },
        }
    }

    /// The target branch could not be picked from the list.
    pub open spec fn on_target_failed(self, cause: Text) -> Move {
        self.awaits(
            Phase::TargetName,
            selection_failed(cause),
            AskModel::Input { prompt: "Enter target branch name"@, offered: None },
        )
    }

    /// The target branch is known.
    pub open spec fn on_target(self, target: Text) -> Move {
        (SessionModel { target, ..self }).awaits(
            Phase::Source,
            target_chosen(target),
            AskModel::Select {
                prompt: "Which branch contains the changes (source)?"@,
                items: self.branches,
                initial: default_index(self.branches, "develop"@),
            },
        )
    }

    /// The source branch could not be picked from the list.
    pub open spec fn on_source_failed(self, cause: Text) -> Move {
        self.awaits(
            Phase::SourceName,
            selection_failed(cause),
            AskModel::Input { prompt: "Enter source branch name"@, offered: None },
        )
    }

    /// The source branch is known.
    pub open spec fn on_source(self, source: Text) -> Move {
        (SessionModel { source, query: fresh_query(self.target, source), ..self }).collects(
            first_query_step(self.target, source),
            source_chosen(source) + finding(source, self.target),
        )
    }

    /// Goes on collecting commits, or goes on with those collected.
    pub open spec fn collects(self, step: QueryStepModel, lines: Seq<LineModel>) -> Move {
        match step {
            QueryStepModel::Run(command) => self.awaits(
                Phase::Collect,
                lines,
                AskModel::Git(command),
            ),
            QueryStepModel::Done(Err(error)) => self.awaits(
                Phase::Ended,
                lines,
                AskModel::End(Err(FailureModel::Git(error))),
            ),
            QueryStepModel::Done(Ok(commits)) => if commits.len() == 0 {
                (SessionModel { commits, ..self }).ends(lines + no_commits())
            } else {
                (SessionModel { commits, ..self }).awaits(
                    Phase::Commits,
                    lines + found_commits(commits.len() as usize) + listing(
                        self.source,
                        self.target,
                        commits,
                    ),
                    AskModel::MultiSelect {
                        prompt:
                            "Select commits to include (space: toggle, ↑/↓: navigate, enter: confirm)"@,
                        items: commit_items(commits),
                        checked: false,
                    },
                )
            },
        }
    }

    /// A command of collecting commits has ended.
    pub open spec fn on_collect(self, reply: ReplyModel) -> Move {
        let (query, step) = self.query.resumed(reply);
        (SessionModel { query, ..self }).collects(step, Seq::empty())
    }

    /// The user has picked commits.
    pub open spec fn on_commits(self, picked: Seq<usize>) -> Move {
        let lines = selected_commits(picked.len() as usize, self.commits.len() as usize);
        let next = SessionModel { selected: picked, ..self };
        if self.diff {
            next.visits_from_start(true, lines + blank())
        } else if picked.len() > 0 {
            next.awaits(
                Phase::Diffs,
                lines,
                AskModel::Confirm {
                    question: question("Show diff preview for selected commits?"@),
                    preset: false,
                },
            )
        } else {
            next.visits_from_start(false, lines)
        }
    }

    /// The user wants to see diffs, or not.
    pub open spec fn on_diffs(self, answer: bool) -> Move {
        self.visits_from_start(
            answer,
            if answer {
                blank()
            } else {
                Seq::empty()
            },
        )
    }

    /// Begins to ask for the files of the selected commits.
    pub open spec fn visits_from_start(self, show_diff: bool, lines: Seq<LineModel>) -> Move {
        (SessionModel { show_diff, restrictions: Map::empty(), ..self }).visits(0, lines)
    }

    /// Asks for the files of the next selected commit that has any, from position
    /// `from` of the selection on.
    pub open spec fn visits(self, from: nat, lines: Seq<LineModel>) -> Move {
        let cursor = next_with_files(self.commits, self.selected, from);
        let next = SessionModel { cursor, ..self };
        if cursor >= self.selected.len() {
            next.summarizes(lines)
        } else {
            let commit = next.current();
            let lines = lines + commit_head(commit.short_hash(), commit.subject);
            if self.show_diff {
                next.awaits(Phase::Preview, lines, AskModel::Git(show_model(commit.hash)))
            } else {
                next.asks_files(lines)
            }
        }
    }

    /// Asks for the files of the current commit.
    pub open spec fn asks_files(self, lines: Seq<LineModel>) -> Move {
        self.awaits(
            Phase::Files,
            lines,
            AskModel::MultiSelect {
                prompt: "Select files (space: toggle, enter: confirm — deselect to exclude)"@,
                items: self.current().files,
                checked: true,
            },
        )
    }

    /// The diff of the current commit has come; without one, nothing is shown.
    pub open spec fn on_preview(self, reply: ReplyModel) -> Move {
        self.asks_files(
            match git_result(show_model(self.current().hash).args, reply) {
                Ok(diff) => preview(diff),
                Err(_) => Seq::empty(),
            },
        )
    }

    /// The user has picked files of the current commit.
    pub open spec fn on_files(self, picked: Seq<usize>) -> Move {
        let files = self.current().files;
        let lines = if picked.len() == 0 {
            no_files()
        } else if picked.len() < files.len() {
            some_files(picked.len() as usize, files.len() as usize)
        } else {
            all_files()
        };
        let next = match restriction(files, picked) {
            Some(chosen) => SessionModel {
                restrictions: self.restrictions.insert(
                    self.selected[self.cursor as int],
                    chosen,
                ),
                ..self
            },
            None => self,
        };
        next.visits(self.cursor + 1, lines)
    }

    /// Settles what becomes of each commit.
    pub open spec fn summarizes(self, lines: Seq<LineModel>) -> Move {
        let selections = selections_of(self.commits.len(), self.selected, self.restrictions);
        let next = SessionModel { selections, ..self };
        let lines = lines + summary(
            self.target,
            self.source,
            whole_count(selections) as usize,
            partial_count(selections) as usize,
            skipped_count(selections) as usize,
        );
        if next.total() == 0 {
            next.ends(lines + nothing_to_do())
        } else {
            next.awaits(
                Phase::Name,
                lines,
                AskModel::Input {
                    prompt: "Name for the new PR branch"@,
                    offered: Some(suggested(self.source)),
                },
            )
        }
    }

    /// The name of the new branch is known.
    pub open spec fn on_name(self, branch: Text) -> Move {
        (SessionModel { branch, ..self }).awaits(
            Phase::Create,
            blank(),
            AskModel::Confirm {
                question: create_question(branch, self.total() as usize),
                preset: true,
            },
        )
    }

    /// The user wants the branch created, or not.
    pub open spec fn on_create(self, answer: bool) -> Move {
        if answer {
            self.awaits(
                Phase::Branch,
                blank() + creating(self.target),
                AskModel::Git(create_model(self.branch, self.target)),
            )
        } else {
            self.ends(aborted())
        }
    }

    /// The branch was created, or not.
    pub open spec fn on_branch(self, reply: ReplyModel) -> Move {
        match git_result(create_model(self.branch, self.target).args, reply) {
            Err(error) => self.fails(FailureModel::Create(error)),
            Ok(_) => (SessionModel { applied: 0, ..self }).applies(
                0,
                created(self.branch, self.target),
            ),
        }
    }

    /// Begins to apply the next commit that is not left out, from `from` on.
    pub open spec fn applies(self, from: nat, lines: Seq<LineModel>) -> Move {
        let position = next_active(self.selections, from);
        if position >= self.selections.len() {
            (SessionModel { position, ..self }).awaits(
                Phase::Push,
                lines + all_applied(self.total() as usize),
                AskModel::Confirm { question: push_question(self.branch), preset: true },
            )
        } else {
            let commit = self.commits[position as int];
            let applied = self.applied + 1;
            let next = SessionModel { position, applied, ..self };
            match self.selections[position as int] {
                SelectionModel::Files(files) => (SessionModel {
                    job: files_start(commit, files),
                    ..next
                }).awaits(
                    Phase::Apply,
                    lines + taking_files(
                        applied as usize,
                        self.total() as usize,
                        commit.short_hash(),
                        commit.subject,
                    ),
                    AskModel::Git(parent_model(commit.hash)),
                ),
                _ => (SessionModel { job: whole_start(commit), ..next }).awaits(
                    Phase::Apply,
                    lines + picking(
                        applied as usize,
                        self.total() as usize,
                        commit.short_hash(),
                        commit.subject,
                    ),
                    AskModel::Git(pick_model(commit.hash)),
                ),
            }
        }
    }

    /// A command of applying a commit has ended.
    pub open spec fn on_apply(self, reply: ReplyModel) -> Move {
        let (job, step) = self.job.resumed(reply);
        let next = SessionModel { job, ..self };
        match step {
            ApplyStepModel::Run { command, merge_found: merge } => next.awaits(
                Phase::Apply,
                if merge {
                    merge_found()
                } else {
                    Seq::empty()
                },
                AskModel::Git(command),
            ),
            ApplyStepModel::Done(Ok(_)) => next.applies(self.position + 1, applied()),
            ApplyStepModel::Done(Err(error)) => next.ends(self.apply_failed(error)),
        }
    }

    /// What is said of a commit that could not be applied.
    pub open spec fn apply_failed(self, error: ApplyErrorModel) -> Seq<LineModel> {
        if self.selections[self.position as int] is Whole {
            failed(error.message()) + conflicts() + interrupted(self.branch)
        } else {
            failed(error.message()) + interrupted(self.branch)
        }
    }

    /// The user wants the branch pushed, or not.
    pub open spec fn on_push(self, answer: bool) -> Move {
        if answer {
            self.awaits(Phase::Pushing, pushing(), AskModel::Git(push_model(self.branch)))
        } else {
            self.ends(push_skipped(self.branch) + ready(self.branch, self.target))
        }
    }

    /// The push has ended, one way or the other.
    pub open spec fn on_pushing(self, reply: ReplyModel) -> Move {
        match git_result(push_model(self.branch).args, reply) {
            Ok(_) => self.ends(pushed(self.branch) + ready(self.branch, self.target)),
            Err(error) => self.ends(
                push_failed(error.message()) + ready(self.branch, self.target),
            ),
        }
    }

    /// Whether the reply leaves commits that can be shown in a list.
    pub open spec fn can_list(self, reply: ReplyModel) -> bool {
        match self.query.resumed(reply).1 {
            QueryStepModel::Done(Ok(commits)) => {
                commits.len() <= usize::MAX && all_presentable(commits)
            },
            _ => true,
        }
    }

    /// Whether the event answers what the session waits for: a reply to a command,
    /// an answer to a prompt, with positions that exist.
    pub open spec fn accepts(self, event: EventModel) -> bool {
        match self.phase {
            Phase::Root | Phase::Status | Phase::Local | Phase::Remote | Phase::Preview
            | Phase::Branch | Phase::Apply | Phase::Pushing => event is Ran,
            Phase::Collect => event matches EventModel::Ran(reply) && self.can_list(reply),
            Phase::Dirty | Phase::Diffs | Phase::Create | Phase::Push => event is Answered
                || event is Failed,
            Phase::Target | Phase::Source => event is Failed || (event matches EventModel::Picked(
                index,
            ) && index < self.branches.len()),
            Phase::TargetName | Phase::SourceName | Phase::Name => event is Entered
                || event is Failed,
            Phase::Commits => event is Failed || (event matches EventModel::PickedMany(picked)
                && all_below(picked, self.commits.len())),
            Phase::Files => event is Failed || (event matches EventModel::PickedMany(picked)
                && all_below(picked, self.current().files.len())),
            Phase::Ended => false,
        }
    }

    /// The outcome of an event.
    pub open spec fn next(self, event: EventModel) -> Move {
        match (self.phase, event) {
            (Phase::Root, EventModel::Ran(reply)) => self.on_root(reply),
            (Phase::Status, EventModel::Ran(reply)) => self.on_status(reply),
            (Phase::Dirty, EventModel::Answered(answer)) => self.on_dirty(answer),
            (Phase::Local, EventModel::Ran(reply)) => self.on_local(reply),
            (Phase::Remote, EventModel::Ran(reply)) => self.on_remote(reply),
            (Phase::Target, EventModel::Picked(index)) => self.on_target(
                self.branches[index as int],
            ),
            (Phase::Target, EventModel::Failed { message, .. }) => self.on_target_failed(message),
            (Phase::TargetName, EventModel::Entered(name)) => self.on_target(name),
            (Phase::Source, EventModel::Picked(index)) => self.on_source(
                self.branches[index as int],
            ),
            (Phase::Source, EventModel::Failed { message, .. }) => self.on_source_failed(message),
            (Phase::SourceName, EventModel::Entered(name)) => self.on_source(name),
            (Phase::Collect, EventModel::Ran(reply)) => self.on_collect(reply),
            (Phase::Commits, EventModel::PickedMany(picked)) => self.on_commits(picked),
            (Phase::Commits, EventModel::Failed { message, causes }) => self.fails(
                FailureModel::CommitPrompt { message, causes },
            ),
            (Phase::Diffs, EventModel::Answered(answer)) => self.on_diffs(answer),
            (Phase::Preview, EventModel::Ran(reply)) => self.on_preview(reply),
            (Phase::Files, EventModel::PickedMany(picked)) => self.on_files(picked),
            (Phase::Files, EventModel::Failed { message, causes }) => self.fails(
                FailureModel::FilePrompt { message, causes },
            ),
            (Phase::Name, EventModel::Entered(name)) => self.on_name(name),
            (Phase::Create, EventModel::Answered(answer)) => self.on_create(answer),
            (Phase::Branch, EventModel::Ran(reply)) => self.on_branch(reply),
            (Phase::Apply, EventModel::Ran(reply)) => self.on_apply(reply),
            (Phase::Push, EventModel::Answered(answer)) => self.on_push(answer),
            (Phase::Pushing, EventModel::Ran(reply)) => self.on_pushing(reply),
            (_, EventModel::Failed { message, causes }) => self.fails(
                FailureModel::Prompt { message, causes },
            ),
            _ => self.ends(Seq::empty()),
        }
    }
}

impl SessionModel {
    /// What becomes of each commit has been settled by what the user picked.
    pub open spec fn is_settled(self) -> bool {
        self.selections == selections_of(self.commits.len(), self.selected, self.restrictions)
    }

    /// The job under way applies the commit at `position`, in the way settled for
    /// it, and the commits begun are those not left out up to there.
    pub open spec fn has_job(self) -> bool {
        &&& self.position < self.commits.len()
        &&& self.applied == active_count(self.selections.take(self.position as int + 1))
        &&& self.job.hash == self.commits[self.position as int].hash
        &&& self.job.subject == self.commits[self.position as int].subject
        &&& match self.selections[self.position as int] {
            SelectionModel::Skip => false,
            SelectionModel::Whole => self.job.files.len() == 0 && self.job.stage.is_of_whole(),
            SelectionModel::Files(files) => self.job.files == files && files.len() > 0
                && !self.job.stage.is_of_whole(),
        }
    }

    /// What holds of a session whenever it waits.
    pub open spec fn wf(self) -> bool {
        &&& self.commits.len() <= usize::MAX
        &&& all_presentable(self.commits)
        &&& match self.phase {
            Phase::Collect => self.query.is_waiting(),
            Phase::Diffs => all_below(self.selected, self.commits.len()),
            Phase::Preview | Phase::Files => all_below(self.selected, self.commits.len())
                && self.cursor < self.selected.len(),
            Phase::Name | Phase::Create | Phase::Branch | Phase::Push | Phase::Pushing => {
                self.is_settled()
            },
            Phase::Apply => self.is_settled() && self.has_job(),
            _ => true,
        }
    }
}

pub proof fn lemma_next_with_files(commits: Seq<CommitModel>, selected: Seq<usize>, from: nat)
    ensures
        next_with_files(commits, selected, from) <= selected.len(),
        from <= selected.len() ==> from <= next_with_files(commits, selected, from),
        next_with_files(commits, selected, from) < selected.len() ==> commits[selected[next_with_files(
            commits,
            selected,
            from,
        ) as int] as int].files.len() > 0,
    decreases selected.len() - from,
{
    if from < selected.len() && commits[selected[from as int] as int].files.len() == 0 {
        lemma_next_with_files(commits, selected, from + 1);
    }
}

pub proof fn lemma_next_active(selections: Seq<SelectionModel>, from: nat)
    requires
        from <= selections.len(),
    ensures
        from <= next_active(selections, from) <= selections.len(),
        active_count(selections.take(next_active(selections, from) as int)) == active_count(
            selections.take(from as int),
        ),
        next_active(selections, from) < selections.len() ==> {
            let n = next_active(selections, from) as int;
            &&& !(selections[n] is Skip)
            &&& active_count(selections.take(n + 1)) == active_count(selections.take(n)) + 1
        },
    decreases selections.len() - from,
{
    if from < selections.len() {
        let s = selections[from as int];
        lemma_active_push(selections.take(from as int), s);
        assert(selections.take(from as int + 1) =~= selections.take(from as int).push(s));
        if s is Skip {
            lemma_next_active(selections, from + 1);
        }
    }
}

proof fn lemma_visits(s: SessionModel, from: nat, lines: Seq<LineModel>)
    requires
        all_presentable(s.commits),
        s.commits.len() <= usize::MAX,
        all_below(s.selected, s.commits.len()),
    ensures
        s.visits(from, lines).0.wf(),
{
    lemma_next_with_files(s.commits, s.selected, from);
}

proof fn lemma_applies(s: SessionModel, from: nat, lines: Seq<LineModel>)
    requires
        s.commits.len() <= usize::MAX,
        all_presentable(s.commits),
        s.is_settled(),
        from <= s.commits.len(),
        s.applied == active_count(s.selections.take(from as int)),
    ensures
        s.applies(from, lines).0.wf(),
{
    lemma_next_active(s.selections, from);
}

/// Whatever an awaited event brings, the session is in order afterwards.
pub proof fn law_sessions_stay_well_formed(s: SessionModel, event: EventModel)
    requires
        s.wf(),
        s.accepts(event),
    ensures
        s.next(event).0.wf(),
{
    match (s.phase, event) {
        (Phase::Commits, EventModel::PickedMany(picked)) => {
            let next = SessionModel {
                selected: picked,
                show_diff: s.diff,
                restrictions: Map::empty(),
                ..s
            };
            let lines = selected_commits(picked.len() as usize, s.commits.len() as usize);
            lemma_visits(next, 0, lines);
            lemma_visits(next, 0, lines + blank());
        },
        (Phase::Diffs, EventModel::Answered(answer)) => {
            let next = SessionModel { show_diff: answer, restrictions: Map::empty(), ..s };
            lemma_visits(next, 0, blank());
            lemma_visits(next, 0, Seq::empty());
        },
        (Phase::Files, EventModel::PickedMany(picked)) => {
            let chosen = restriction(s.current().files, picked);
            let next = match chosen {
                Some(files) => SessionModel {
                    restrictions: s.restrictions.insert(
                        s.selected[s.cursor as int],
                        files,
                    ),
                    ..s
                },
                None => s,
            };
            lemma_visits(next, s.cursor + 1, no_files());
            lemma_visits(next, s.cursor + 1, all_files());
            lemma_visits(
                next,
                s.cursor + 1,
                some_files(picked.len() as usize, s.current().files.len() as usize),
            );
        },
        (Phase::Branch, EventModel::Ran(reply)) => {
            assert(active_count(s.selections.take(0)) == 0) by {
                reveal(Seq::filter);
            }
            lemma_applies(
                SessionModel { applied: 0, ..s },
                0,
                created(s.branch, s.target),
            );
        },
        (Phase::Apply, EventModel::Ran(reply)) => {
            let next = SessionModel { job: s.job.resumed(reply).0, ..s };
            lemma_applies(next, s.position + 1, applied());
        },
        _ => {},
    }
}

} // verus!
