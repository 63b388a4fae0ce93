//! A session: from the repository to the finished branch, one event at a time.

use vstd::prelude::*;
use crate::apply::{apply_file_selection, apply_whole_commit, Apply, ApplyError, ApplyStep, Stage};
use crate::branches::{get_branches, local_query, preselect, remote_query, select_branch, suggest_name};
use crate::commits::{get_commits_between, CommitInfo, CommitModel, CommitQuery, QueryStep};
use crate::dialogue::{Ask, Event, Failure, Step};
use crate::flow::{
    commit_items, create_model, first_step, fresh_session, law_sessions_stay_well_formed,
    lemma_next_active, next_active, next_with_files, push_model, show_model, Phase,
    SessionModel,
};
use crate::git::{
    check_git_repo, has_uncommitted_changes, root_query, run_git, status_query, Command, Reply,
};
use crate::lists::{copy_strings, no_items, put, put_all};
use crate::messages::{
    all_presentable, ask, ask_create, ask_push, say_aborted, say_all_applied, say_all_files,
    say_applied, say_banner, say_blank, say_commit_head, say_conflicts, say_created, say_creating,
    say_exiting, say_failed, say_fetching, say_finding, say_found_branches, say_found_commits,
    say_interrupted, say_listing, say_merge_found, say_no_commits, say_no_files,
    say_nothing_to_do, say_picking, say_preview, say_push_failed, say_push_skipped, say_pushed,
    say_pushing, say_ready, say_repository, say_selected_commits, say_selection_failed,
    say_some_files, say_source_chosen, say_summary, say_taking_files, say_target_chosen,
    say_uncommitted, Line,
};
use crate::selection::{
    add_restriction, all_below, are_below, build_selections, count_selections, no_restrictions,
    law_counts_cover_all, restrict, restrictions_model, CommitSelection, Counts, Restrictions,
};
use crate::text::Text;

verus! {

/// A session. It is told what came back of what it asked for, and says what it
/// needs next.
#[derive(Debug)]
pub struct Session {
    phase: Phase,
    diff: bool,
    local: String,
    branches: Vec<String>,
    target: String,
    source: String,
    query: CommitQuery,
    commits: Vec<CommitInfo>,
    selected: Vec<usize>,
    show_diff: bool,
    cursor: usize,
    restrictions: Restrictions,
    selections: Vec<CommitSelection>,
    branch: String,
    job: Apply,
    position: usize,
    applied: usize,
}

impl DeepView for Session {
    type V = SessionModel;

    closed spec fn deep_view(&self) -> SessionModel {
        SessionModel {
            phase: self.phase,
            diff: self.diff,
            local: self.local@,
            branches: self.branches.deep_view(),
            target: self.target@,
            source: self.source@,
            query: self.query.deep_view(),
            commits: self.commits.deep_view(),
            selected: self.selected@,
            show_diff: self.show_diff,
            cursor: self.cursor as nat,
            restrictions: restrictions_model(self.restrictions@),
            selections: self.selections.deep_view(),
            branch: self.branch@,
            job: self.job.deep_view(),
            position: self.position as nat,
            applied: self.applied as nat,
        }
    }
}

/// Whether every commit can be shown in a list.
fn are_presentable(commits: &Vec<CommitInfo>) -> (r: bool)
    ensures
        r == all_presentable(commits.deep_view()),
{
    let mut i: usize = 0;
    while i < commits.len()
        invariant
            i <= commits@.len(),
            forall|j: int|
                0 <= j < i ==> (#[trigger] commits.deep_view()[j]).is_presentable(),
        decreases commits@.len() - i,
    {
        if !commits[i].is_presentable() {
            assert(!commits.deep_view()[i as int].is_presentable());
            return false;
        }
        i = i + 1;
    }
    true
}

/// The entries of the list of commits to choose from.
fn items_of(commits: &Vec<CommitInfo>) -> (r: Vec<String>)
    requires
        all_presentable(commits.deep_view()),
    ensures
        r.deep_view() == commit_items(commits.deep_view()),
{
    let ghost whole = commit_items(commits.deep_view());
    let mut r: Vec<String> = no_items();
    let mut i: usize = 0;
    assert(whole.take(0) =~= Seq::<Text>::empty());
    while i < commits.len()
        invariant
            i <= commits@.len(),
            whole == commit_items(commits.deep_view()),
            all_presentable(commits.deep_view()),
            r.deep_view() == whole.take(i as int),
        decreases commits@.len() - i,
    {
        assert(commits.deep_view()[i as int].is_presentable());
        put(&mut r, commits[i].item());
        assert(whole.take(i + 1) =~= whole.take(i as int).push(whole[i as int]));
        i = i + 1;
    }
    assert(whole.take(i as int) =~= whole);
    r
}

impl Session {
    /// Starts a session; `diff` tells to show diffs without asking.
    pub fn start(diff: bool) -> (r: (Session, Step))
        ensures
            r.0.deep_view() == fresh_session(diff),
            r.1.deep_view() == first_step(),
    {
        let session: Session = Session {
            phase: Phase::Root,
            diff,
            local: String::new(),
            branches: no_items(),
            target: String::new(),
            source: String::new(),
            query: CommitQuery {
                base: String::new(),
                head: String::new(),
                logged: false,
                listed: no_items(),
                found: no_items(),
            },
            commits: no_items(),
            selected: Vec::new(),
            show_diff: false,
            cursor: 0,
            restrictions: no_restrictions(),
            selections: no_items(),
            branch: String::new(),
            job: Apply {
                hash: String::new(),
                subject: String::new(),
                files: no_items(),
                stage: Stage::Pick,
            },
            position: 0,
            applied: 0,
        };
        (session, Step { lines: say_banner(), ask: Ask::Git(root_query()) })
    }

    /// The session waits in `phase` for the answer to `ask`.
    fn awaits(&mut self, phase: Phase, lines: Vec<Line>, ask: Ask) -> (r: Step)
        ensures
            (final(self).deep_view(), r.deep_view()) == old(self).deep_view().awaits(
                phase,
                lines.deep_view(),
                ask.deep_view(),
            ),
    {
        self.phase = phase;
        Step { lines, ask }
    }

    /// The session is over.
    fn ends(&mut self, lines: Vec<Line>) -> (r: Step)
        ensures
            (final(self).deep_view(), r.deep_view()) == old(self).deep_view().ends(
                lines.deep_view(),
            ),
    {
        self.awaits(Phase::Ended, lines, Ask::End(Ok(())))
    }

    /// The session has failed.
    fn fails(&mut self, failure: Failure) -> (r: Step)
        ensures
            (final(self).deep_view(), r.deep_view()) == old(self).deep_view().fails(
                failure.deep_view(),
            ),
    {
        self.awaits(Phase::Ended, no_items(), Ask::End(Err(failure)))
    }

    /// The repository was found, or not.
    fn on_root(&mut self, reply: &Reply) -> (r: Step)
        ensures
            (final(self).deep_view(), r.deep_view()) == old(self).deep_view().on_root(
                reply.deep_view(),
            ),
    {
        match check_git_repo(reply) {
            Err(error) => self.fails(Failure::Git(error)),
            Ok(root) => self.awaits(
                Phase::Status,
                say_repository(root.as_str()),
                Ask::Git(status_query()),
            ),
        }
    }

    /// It is known whether there are uncommitted changes.
    fn on_status(&mut self, reply: &Reply) -> (r: Step)
        ensures
            (final(self).deep_view(), r.deep_view()) == old(self).deep_view().on_status(
                reply.deep_view(),
            ),
    {
        match has_uncommitted_changes(reply) {
            Err(error) => self.fails(Failure::Git(error)),
            Ok(true) => self.awaits(
                Phase::Dirty,
                say_uncommitted(),
                Ask::Confirm { question: ask("Continue anyway?"), preset: false },
            ),
            Ok(false) => self.lists_branches(no_items()),
        }
    }

    /// Begins to list the branches.
    fn lists_branches(&mut self, lines: Vec<Line>) -> (r: Step)
        ensures
            (final(self).deep_view(), r.deep_view()) == old(self).deep_view().lists_branches(
                lines.deep_view(),
            ),
    {
        let mut lines: Vec<Line> = lines;
        put_all(&mut lines, say_fetching());
        self.awaits(Phase::Local, lines, Ask::Git(local_query()))
    }

    /// The user goes on in spite of uncommitted changes, or not.
    fn on_dirty(&mut self, answer: bool) -> (r: Step)
        ensures
            (final(self).deep_view(), r.deep_view()) == old(self).deep_view().on_dirty(answer),
    {
        if answer {
            self.lists_branches(say_blank())
        } else {
            self.ends(say_exiting())
        }
    }

    /// The local branches are listed.
    fn on_local(&mut self, reply: &Reply) -> (r: Step)
        ensures
            (final(self).deep_view(), r.deep_view()) == old(self).deep_view().on_local(
                reply.deep_view(),
            ),
    {
        match run_git(&local_query().args, reply) {
            Err(error) => self.fails(Failure::Git(error)),
            Ok(local) => {
                self.local = local;
                self.awaits(Phase::Remote, no_items(), Ask::Git(remote_query()))
            },
        }
    }

    /// The remote branches are listed.
    fn on_remote(&mut self, reply: &Reply) -> (r: Step)
        ensures
            (final(self).deep_view(), r.deep_view()) == old(self).deep_view().on_remote(
                reply.deep_view(),
            ),
    {
        match run_git(&remote_query().args, reply) {
            Err(error) => self.fails(Failure::Git(error)),
            Ok(remote) => {
                self.branches = get_branches(self.local.as_str(), remote.as_str());
                if self.branches.len() == 0 {
                    self.fails(Failure::NoBranches)
                } else {
                    let question: Ask = Ask::Select {
                        prompt: "Which branch do you want to PR into (target)?".to_string(),
                        items: copy_strings(&self.branches),
                        initial: preselect(&self.branches, "main"),
                    };
                    let count: usize = self.branches.len();
                    self.awaits(Phase::Target, say_found_branches(count), question)
                }
            },
        }
    }

    /// The target branch could not be picked from the list.
    fn on_target_failed(&mut self, cause: &str) -> (r: Step)
        ensures
            (final(self).deep_view(), r.deep_view()) == old(self).deep_view().on_target_failed(
                cause@,
            ),
    {
        self.awaits(
            Phase::TargetName,
            say_selection_failed(cause),
            Ask::Input { prompt: "Enter target branch name".to_string(), offered: None },
        )
    }

    /// The target branch is known.
    fn on_target(&mut self, target: String) -> (r: Step)
        ensures
            (final(self).deep_view(), r.deep_view()) == old(self).deep_view().on_target(target@),
    {
        let lines: Vec<Line> = say_target_chosen(target.as_str());
        self.target = target;
        let question: Ask = Ask::Select {
            prompt: "Which branch contains the changes (source)?".to_string(),
            items: copy_strings(&self.branches),
            initial: preselect(&self.branches, "develop"),
        };
        self.awaits(Phase::Source, lines, question)
    }

    /// The source branch could not be picked from the list.
    fn on_source_failed(&mut self, cause: &str) -> (r: Step)
        ensures
            (final(self).deep_view(), r.deep_view()) == old(self).deep_view().on_source_failed(
                cause@,
            ),
    {
        self.awaits(
            Phase::SourceName,
            say_selection_failed(cause),
            Ask::Input { prompt: "Enter source branch name".to_string(), offered: None },
        )
    }

    /// The source branch is known.
    fn on_source(&mut self, source: String) -> (r: Step)
        ensures
            (final(self).deep_view(), r.deep_view()) == old(self).deep_view().on_source(source@),
    {
        let mut lines: Vec<Line> = say_source_chosen(source.as_str());
        put_all(&mut lines, say_finding(source.as_str(), self.target.as_str()));
        let (query, step) = get_commits_between(self.target.as_str(), source.as_str());
        self.query = query;
        self.source = source;
        assert(all_presentable(Seq::<CommitModel>::empty()));
        self.collects(step, lines)
    }

    /// Goes on collecting commits, or goes on with those collected.
    fn collects(&mut self, step: QueryStep, lines: Vec<Line>) -> (r: Step)
        requires
            step matches QueryStep::Done(Ok(commits)) ==> all_presentable(commits.deep_view()),
        ensures
            (final(self).deep_view(), r.deep_view()) == old(self).deep_view().collects(
                step.deep_view(),
                lines.deep_view(),
            ),
    {
        let mut lines: Vec<Line> = lines;
        match step {
            QueryStep::Run(command) => self.awaits(Phase::Collect, lines, Ask::Git(command)),
            QueryStep::Done(Err(error)) => self.awaits(
                Phase::Ended,
                lines,
                Ask::End(Err(Failure::Git(error))),
            ),
            QueryStep::Done(Ok(commits)) => {
                if commits.len() == 0 {
                    put_all(&mut lines, say_no_commits());
                    self.commits = commits;
                    return self.ends(lines);
                }
                put_all(&mut lines, say_found_commits(commits.len()));
                put_all(
                    &mut lines,
                    say_listing(self.source.as_str(), self.target.as_str(), &commits),
                );
                let question: Ask = Ask::MultiSelect {
                    prompt:
                        "Select commits to include (space: toggle, ↑/↓: navigate, enter: confirm)".to_string(),
                    items: items_of(&commits),
                    checked: false,
                };
                self.commits = commits;
                self.awaits(Phase::Commits, lines, question)
            },
        }
    }

    /// A command of collecting commits has ended.
    fn on_collect(&mut self, reply: &Reply) -> (r: Step)
        requires
            old(self).deep_view().query.is_waiting(),
            old(self).deep_view().can_list(reply.deep_view()),
        ensures
            (final(self).deep_view(), r.deep_view()) == old(self).deep_view().on_collect(
                reply.deep_view(),
            ),
    {
        let step: QueryStep = self.query.resume(reply);
        self.collects(step, no_items())
    }

    /// The user has picked commits.
    fn on_commits(&mut self, picked: Vec<usize>) -> (r: Step)
        requires
            all_presentable(old(self).deep_view().commits),
            all_below(picked@, old(self).deep_view().commits.len()),
        ensures
            (final(self).deep_view(), r.deep_view()) == old(self).deep_view().on_commits(picked@),
    {
        let mut lines: Vec<Line> = say_selected_commits(picked.len(), self.commits.len());
        let none: bool = picked.len() == 0;
        self.selected = picked;
        if self.diff {
            put_all(&mut lines, say_blank());
            self.visits_from_start(true, lines)
        } else if !none {
            self.awaits(
                Phase::Diffs,
                lines,
                Ask::Confirm {
                    question: ask("Show diff preview for selected commits?"),
                    preset: false,
                },
            )
        } else {
            self.visits_from_start(false, lines)
        }
    }

    /// The user wants to see diffs, or not.
    fn on_diffs(&mut self, answer: bool) -> (r: Step)
        requires
            all_presentable(old(self).deep_view().commits),
            all_below(old(self).deep_view().selected, old(self).deep_view().commits.len()),
        ensures
            (final(self).deep_view(), r.deep_view()) == old(self).deep_view().on_diffs(answer),
    {
        let lines: Vec<Line> = if answer {
            say_blank()
        } else {
            no_items()
        };
        self.visits_from_start(answer, lines)
    }

    /// Begins to ask for the files of the selected commits.
    fn visits_from_start(&mut self, show_diff: bool, lines: Vec<Line>) -> (r: Step)
        requires
            all_presentable(old(self).deep_view().commits),
            all_below(old(self).deep_view().selected, old(self).deep_view().commits.len()),
        ensures
            (final(self).deep_view(), r.deep_view()) == old(self).deep_view().visits_from_start(
                show_diff,
                lines.deep_view(),
            ),
    {
        self.show_diff = show_diff;
        self.restrictions = no_restrictions();
        self.visits(0, lines)
    }

    /// The commit whose files are asked for.
    fn current(&self) -> (r: &CommitInfo)
        requires
            self.deep_view().cursor < self.deep_view().selected.len(),
            all_below(self.deep_view().selected, self.deep_view().commits.len()),
        ensures
            r.deep_view() == self.deep_view().current(),
    {
        assert(self.selected@[self.cursor as int] < self.commits@.len());
        &self.commits[self.selected[self.cursor]]
    }

    /// The first position from `from` on, in the selection, of a commit with files.
    fn find_with_files(&self, from: usize) -> (r: usize)
        requires
            all_below(self.deep_view().selected, self.deep_view().commits.len()),
        ensures
            r == next_with_files(self.deep_view().commits, self.deep_view().selected, from as nat),
            r <= self.deep_view().selected.len(),
    {
        let ghost commits = self.commits.deep_view();
        let mut i: usize = from;
        while i < self.selected.len()
            invariant
                commits == self.commits.deep_view(),
                all_below(self.selected@, self.commits@.len()),
                next_with_files(commits, self.selected@, from as nat) == next_with_files(
                    commits,
                    self.selected@,
                    i as nat,
                ),
            decreases self.selected@.len() - i,
        {
            assert(self.selected@[i as int] < self.commits@.len());
            if self.commits[self.selected[i]].files.len() > 0 {
                return i;
            }
            i = i + 1;
        }
        self.selected.len()
    }

    /// Asks for the files of the next selected commit that has any.
    fn visits(&mut self, from: usize, lines: Vec<Line>) -> (r: Step)
        requires
            all_presentable(old(self).deep_view().commits),
            all_below(old(self).deep_view().selected, old(self).deep_view().commits.len()),
        ensures
            (final(self).deep_view(), r.deep_view()) == old(self).deep_view().visits(
                from as nat,
                lines.deep_view(),
            ),
    {
        self.cursor = self.find_with_files(from);
        if self.cursor >= self.selected.len() {
            return self.summarizes(lines);
        }
        let mut lines: Vec<Line> = lines;
        let commit: &CommitInfo = self.current();
        proof {
            let index = self.selected@[self.cursor as int];
            assert(index < self.commits@.len());
            assert(self.commits.deep_view()[index as int].is_presentable());
        }
        put_all(
            &mut lines,
            say_commit_head(commit.short_hash().as_str(), commit.subject.as_str()),
        );
        if self.show_diff {
            let command: Command = show_command(commit.hash.as_str());
            self.awaits(Phase::Preview, lines, Ask::Git(command))
        } else {
            self.asks_files(lines)
        }
    }

    /// Asks for the files of the current commit.
    fn asks_files(&mut self, lines: Vec<Line>) -> (r: Step)
        requires
            old(self).deep_view().cursor < old(self).deep_view().selected.len(),
            all_below(old(self).deep_view().selected, old(self).deep_view().commits.len()),
        ensures
            (final(self).deep_view(), r.deep_view()) == old(self).deep_view().asks_files(
                lines.deep_view(),
            ),
    {
        let question: Ask = Ask::MultiSelect {
            prompt:
                "Select files (space: toggle, enter: confirm — deselect to exclude)".to_string(),
            items: copy_strings(&self.current().files),
            checked: true,
        };
        self.awaits(Phase::Files, lines, question)
    }

    /// The diff of the current commit has come; without one, nothing is shown.
    fn on_preview(&mut self, reply: &Reply) -> (r: Step)
        requires
            old(self).deep_view().cursor < old(self).deep_view().selected.len(),
            all_below(old(self).deep_view().selected, old(self).deep_view().commits.len()),
        ensures
            (final(self).deep_view(), r.deep_view()) == old(self).deep_view().on_preview(
                reply.deep_view(),
            ),
    {
        let command: Command = show_command(self.current().hash.as_str());
        let lines: Vec<Line> = match run_git(&command.args, reply) {
            Ok(diff) => say_preview(diff.as_str()),
            Err(_) => no_items(),
        };
        self.asks_files(lines)
    }

    /// The user has picked files of the current commit.
    fn on_files(&mut self, picked: Vec<usize>) -> (r: Step)
        requires
            all_presentable(old(self).deep_view().commits),
            old(self).deep_view().cursor < old(self).deep_view().selected.len(),
            all_below(old(self).deep_view().selected, old(self).deep_view().commits.len()),
            all_below(picked@, old(self).deep_view().current().files.len()),
        ensures
            (final(self).deep_view(), r.deep_view()) == old(self).deep_view().on_files(picked@),
    {
        let files: &Vec<String> = &self.current().files;
        let lines: Vec<Line> = if picked.len() == 0 {
            say_no_files()
        } else if picked.len() < files.len() {
            say_some_files(picked.len(), files.len())
        } else {
            say_all_files()
        };
        let index: usize = self.selected[self.cursor];
        let total: usize = self.selected.len();
        assert(self.cursor < total);
        let next: usize = self.cursor + 1;
        match restrict(files, &picked) {
            Some(chosen) => add_restriction(&mut self.restrictions, index, chosen),
            None => {},
        }
        self.visits(next, lines)
    }

    /// Settles what becomes of each commit.
    fn summarizes(&mut self, lines: Vec<Line>) -> (r: Step)
        ensures
            (final(self).deep_view(), r.deep_view()) == old(self).deep_view().summarizes(
                lines.deep_view(),
            ),
    {
        let mut lines: Vec<Line> = lines;
        self.selections = build_selections(
            self.commits.len(),
            &self.selected,
            &self.restrictions,
        );
        let counts: Counts = count_selections(&self.selections);
        put_all(
            &mut lines,
            say_summary(
                self.target.as_str(),
                self.source.as_str(),
                counts.whole,
                counts.partial,
                counts.skipped,
            ),
        );
        if counts.whole == 0 && counts.partial == 0 {
            put_all(&mut lines, say_nothing_to_do());
            self.ends(lines)
        } else {
            let question: Ask = Ask::Input {
                prompt: "Name for the new PR branch".to_string(),
                offered: Some(suggest_name(self.source.as_str())),
            };
            self.awaits(Phase::Name, lines, question)
        }
    }

    /// The number of commits to apply.
    fn total(&self) -> (r: usize)
        ensures
            r == self.deep_view().total(),
    {
        let counts: Counts = count_selections(&self.selections);
        let all: usize = self.selections.len();
        assert(counts.whole + counts.partial <= all);
        counts.whole + counts.partial
    }

    /// The name of the new branch is known.
    fn on_name(&mut self, branch: String) -> (r: Step)
        ensures
            (final(self).deep_view(), r.deep_view()) == old(self).deep_view().on_name(branch@),
    {
        let question: Ask = Ask::Confirm {
            question: ask_create(branch.as_str(), self.total()),
            preset: true,
        };
        self.branch = branch;
        self.awaits(Phase::Create, say_blank(), question)
    }

    /// The user wants the branch created, or not.
    fn on_create(&mut self, answer: bool) -> (r: Step)
        ensures
            (final(self).deep_view(), r.deep_view()) == old(self).deep_view().on_create(answer),
    {
        if answer {
            let mut lines: Vec<Line> = say_blank();
            put_all(&mut lines, say_creating(self.target.as_str()));
            let command: Command = create_command(self.branch.as_str(), self.target.as_str());
            self.awaits(Phase::Branch, lines, Ask::Git(command))
        } else {
            self.ends(say_aborted())
        }
    }

    /// The branch was created, or not.
    fn on_branch(&mut self, reply: &Reply) -> (r: Step)
        requires
            all_presentable(old(self).deep_view().commits),
            old(self).deep_view().is_settled(),
        ensures
            (final(self).deep_view(), r.deep_view()) == old(self).deep_view().on_branch(
                reply.deep_view(),
            ),
    {
        let command: Command = create_command(self.branch.as_str(), self.target.as_str());
        match run_git(&command.args, reply) {
            Err(error) => self.fails(Failure::Create(error)),
            Ok(_) => {
                self.applied = 0;
                let lines: Vec<Line> = say_created(self.branch.as_str(), self.target.as_str());
                self.applies(0, lines)
            },
        }
    }

    /// The first position from `from` on of a commit that is not left out.
    fn find_active(&self, from: usize) -> (r: usize)
        ensures
            r == next_active(self.deep_view().selections, from as nat),
            r <= self.deep_view().selections.len(),
    {
        let ghost selections = self.selections.deep_view();
        let mut i: usize = from;
        while i < self.selections.len()
            invariant
                selections == self.selections.deep_view(),
                next_active(selections, from as nat) == next_active(selections, i as nat),
            decreases self.selections@.len() - i,
        {
            assert(selections[i as int] == self.selections@[i as int].deep_view());
            match &self.selections[i] {
                CommitSelection::Skip => {},
                _ => { return i; },
            }
            i = i + 1;
        }
        self.selections.len()
    }

    /// Begins to apply the next commit that is not left out.
    fn applies(&mut self, from: usize, lines: Vec<Line>) -> (r: Step)
        requires
            all_presentable(old(self).deep_view().commits),
            old(self).deep_view().is_settled(),
            old(self).deep_view().applied <= from <= old(self).deep_view().selections.len(),
        ensures
            (final(self).deep_view(), r.deep_view()) == old(self).deep_view().applies(
                from as nat,
                lines.deep_view(),
            ),
    {
        let mut lines: Vec<Line> = lines;
        let total: usize = self.total();
        let position: usize = self.find_active(from);
        proof {
            lemma_next_active(self.selections.deep_view(), from as nat);
        }
        self.position = position;
        if position >= self.selections.len() {
            put_all(&mut lines, say_all_applied(total));
            let question: Ask = Ask::Confirm {
                question: ask_push(self.branch.as_str()),
                preset: true,
            };
            return self.awaits(Phase::Push, lines, question);
        }
        self.applied = self.applied + 1;
        let commit: &CommitInfo = &self.commits[position];
        let ghost selection = self.selections.deep_view()[position as int];
        proof {
            assert(self.commits.deep_view()[position as int].is_presentable());
            assert(selection == self.selections@[position as int].deep_view());
        }
        let short: String = commit.short_hash();
        let (job, step) = match &self.selections[position] {
            CommitSelection::Files(files) => {
                put_all(
                    &mut lines,
                    say_taking_files(
                        self.applied,
                        total,
                        short.as_str(),
                        commit.subject.as_str(),
                    ),
                );
                apply_file_selection(commit, files)
            },
            _ => {
                put_all(
                    &mut lines,
                    say_picking(self.applied, total, short.as_str(), commit.subject.as_str()),
                );
                apply_whole_commit(commit)
            },
        };
        self.job = job;
        match step {
            ApplyStep::Run { command, .. } => self.awaits(Phase::Apply, lines, Ask::Git(command)),
            // A selection of files holds at least one, so there is a command to run.
            ApplyStep::Done(_) => {
                assert(false);
                self.ends(lines)
            },
        }
    }

    /// A command of applying a commit has ended.
    fn on_apply(&mut self, reply: &Reply) -> (r: Step)
        requires
            all_presentable(old(self).deep_view().commits),
            old(self).deep_view().is_settled(),
            old(self).deep_view().has_job(),
        ensures
            (final(self).deep_view(), r.deep_view()) == old(self).deep_view().on_apply(
                reply.deep_view(),
            ),
    {
        let ghost before = self.deep_view();
        proof {
            assert(before.commits[before.position as int].is_presentable());
        }
        let step: ApplyStep = self.job.resume(reply);
        match step {
            ApplyStep::Run { command, merge_found } => {
                let lines: Vec<Line> = if merge_found {
                    say_merge_found()
                } else {
                    no_items()
                };
                self.awaits(Phase::Apply, lines, Ask::Git(command))
            },
            ApplyStep::Done(Ok(_)) => {
                let count: usize = self.commits.len();
                assert(self.position < count);
                let next: usize = self.position + 1;
                proof {
                    law_counts_cover_all(before.selections.take(next as int));
                }
                self.applies(next, say_applied())
            },
            ApplyStep::Done(Err(error)) => {
                let lines: Vec<Line> = self.apply_failed(&error);
                self.ends(lines)
            },
        }
    }

    /// What is said of a commit that could not be applied.
    fn apply_failed(&self, error: &ApplyError) -> (r: Vec<Line>)
        requires
            error.deep_view().is_presentable(),
            self.deep_view().position < self.deep_view().selections.len(),
        ensures
            r.deep_view() == self.deep_view().apply_failed(error.deep_view()),
    {
        let mut lines: Vec<Line> = say_failed(error.message().as_str());
        assert(self.selections.deep_view()[self.position as int]
            == self.selections@[self.position as int].deep_view());
        match &self.selections[self.position] {
            CommitSelection::Whole => put_all(&mut lines, say_conflicts()),
            _ => {},
        }
        put_all(&mut lines, say_interrupted(self.branch.as_str()));
        lines
    }

    /// The user wants the branch pushed, or not.
    fn on_push(&mut self, answer: bool) -> (r: Step)
        ensures
            (final(self).deep_view(), r.deep_view()) == old(self).deep_view().on_push(answer),
    {
        if answer {
            let command: Command = push_command(self.branch.as_str());
            self.awaits(Phase::Pushing, say_pushing(), Ask::Git(command))
        } else {
            let mut lines: Vec<Line> = say_push_skipped(self.branch.as_str());
            put_all(&mut lines, say_ready(self.branch.as_str(), self.target.as_str()));
            self.ends(lines)
        }
    }

    /// The push has ended, one way or the other.
    fn on_pushing(&mut self, reply: &Reply) -> (r: Step)
        ensures
            (final(self).deep_view(), r.deep_view()) == old(self).deep_view().on_pushing(
                reply.deep_view(),
            ),
    {
        let mut lines: Vec<Line> = match run_git(
            &push_command(self.branch.as_str()).args,
            reply,
        ) {
            Ok(_) => say_pushed(self.branch.as_str()),
            Err(error) => say_push_failed(error.message().as_str()),
        };
        put_all(&mut lines, say_ready(self.branch.as_str(), self.target.as_str()));
        self.ends(lines)
    }

    /// Whether the reply leaves commits that can be shown in a list.
    fn can_list(&self, reply: &Reply) -> (r: bool)
        requires
            self.deep_view().query.is_waiting(),
        ensures
            r == self.deep_view().can_list(reply.deep_view()),
    {
        if self.query.logged && self.query.listed.len() - self.query.found.len() > 1 {
            return true;
        }
        let mut query: CommitQuery = self.query.clone();
        match query.resume(reply) {
            QueryStep::Done(Ok(commits)) => are_presentable(&commits),
            _ => true,
        }
    }

    /// Whether the event answers what the session waits for.
    pub fn accepts(&self, event: &Event) -> (r: bool)
        requires
            self.deep_view().wf(),
        ensures
            r == self.deep_view().accepts(event.deep_view()),
    {
        match self.phase {
            Phase::Root | Phase::Status | Phase::Local | Phase::Remote | Phase::Preview
            | Phase::Branch | Phase::Apply | Phase::Pushing => match event {
                Event::Ran(_) => true,
                _ => false,
            },
            Phase::Collect => match event {
                Event::Ran(reply) => self.can_list(reply),
                _ => false,
            },
            Phase::Dirty | Phase::Diffs | Phase::Create | Phase::Push => match event {
                Event::Answered(_) => true,
                Event::Failed { .. } => true,
                _ => false,
            },
            Phase::Target | Phase::Source => match event {
                Event::Picked(index) => *index < self.branches.len(),
                Event::Failed { .. } => true,
                _ => false,
            },
            Phase::TargetName | Phase::SourceName | Phase::Name => match event {
                Event::Entered(_) => true,
                Event::Failed { .. } => true,
                _ => false,
            },
            Phase::Commits => match event {
                Event::PickedMany(picked) => are_below(picked, self.commits.len()),
                Event::Failed { .. } => true,
                _ => false,
            },
            Phase::Files => match event {
                Event::PickedMany(picked) => are_below(picked, self.current().files.len()),
                Event::Failed { .. } => true,
                _ => false,
            },
            Phase::Ended => false,
        }
    }

    /// Takes an event into account and says what to do next.
    pub fn step(&mut self, event: Event) -> (r: Step)
        requires
            old(self).deep_view().wf(),
            old(self).deep_view().accepts(event.deep_view()),
        ensures
            (final(self).deep_view(), r.deep_view()) == old(self).deep_view().next(
                event.deep_view(),
            ),
            final(self).deep_view().wf(),
    {
        proof {
            law_sessions_stay_well_formed(self.deep_view(), event.deep_view());
        }
        match (self.phase, event) {
            (Phase::Root, Event::Ran(reply)) => self.on_root(&reply),
            (Phase::Status, Event::Ran(reply)) => self.on_status(&reply),
            (Phase::Dirty, Event::Answered(answer)) => self.on_dirty(answer),
            (Phase::Local, Event::Ran(reply)) => self.on_local(&reply),
            (Phase::Remote, Event::Ran(reply)) => self.on_remote(&reply),
            (Phase::Target, Event::Picked(index)) => {
                let target: String = select_branch(&self.branches, index);
                self.on_target(target)
            },
            (Phase::Target, Event::Failed { message, .. }) => {
                self.on_target_failed(message.as_str())
            },
            (Phase::TargetName, Event::Entered(name)) => self.on_target(name),
            (Phase::Source, Event::Picked(index)) => {
                let source: String = select_branch(&self.branches, index);
                self.on_source(source)
            },
            (Phase::Source, Event::Failed { message, .. }) => {
                self.on_source_failed(message.as_str())
            },
            (Phase::SourceName, Event::Entered(name)) => self.on_source(name),
            (Phase::Collect, Event::Ran(reply)) => self.on_collect(&reply),
            (Phase::Commits, Event::PickedMany(picked)) => self.on_commits(picked),
            (Phase::Commits, Event::Failed { message, causes }) => self.fails(
                Failure::CommitPrompt { message, causes },
            ),
            (Phase::Diffs, Event::Answered(answer)) => self.on_diffs(answer),
            (Phase::Preview, Event::Ran(reply)) => self.on_preview(&reply),
            (Phase::Files, Event::PickedMany(picked)) => self.on_files(picked),
            (Phase::Files, Event::Failed { message, causes }) => self.fails(
                Failure::FilePrompt { message, causes },
            ),
            (Phase::Name, Event::Entered(name)) => self.on_name(name),
            (Phase::Create, Event::Answered(answer)) => self.on_create(answer),
            (Phase::Branch, Event::Ran(reply)) => self.on_branch(&reply),
            (Phase::Apply, Event::Ran(reply)) => self.on_apply(&reply),
            (Phase::Push, Event::Answered(answer)) => self.on_push(answer),
            (Phase::Pushing, Event::Ran(reply)) => self.on_pushing(&reply),
            (_, Event::Failed { message, causes }) => self.fails(
                Failure::Prompt { message, causes },
            ),
            _ => self.ends(no_items()),
        }
    }
}

/// Creates the branch `branch` at `target`.
fn create_command(branch: &str, target: &str) -> (r: Command)
    ensures
        r.deep_view() == create_model(branch@, target@),
{
    Command::git("checkout").arg("-b").arg(branch).arg(target)
}

/// Pushes the branch.
fn push_command(branch: &str) -> (r: Command)
    ensures
        r.deep_view() == push_model(branch@),
{
    Command::git("push").arg("origin").arg(branch)
}

/// Shows the diff of a commit, in colour.
fn show_command(hash: &str) -> (r: Command)
    ensures
        r.deep_view() == show_model(hash@),
{
    Command::git("show").arg("--color=always").arg("--format=").arg(hash)
}

} // verus!
