//! What holds of every session, whatever git and the user reply.

use vstd::prelude::*;
use crate::apply::{
    apply_run, running, succeeded, ApplyErrorModel, ApplyStepModel, StageModel,
};
use crate::branches::{local_query_model, remote_query_model};
use crate::commits::log_query_model;
use crate::dialogue::{AskModel, EventModel};
use crate::flow::{
    create_model, first_step, fresh_session, law_sessions_stay_well_formed, lemma_next_active,
    lemma_next_with_files, next_active, push_model, show_model, Phase, SessionModel,
};
use crate::git::{
    files_query_model, git_result, root_query_model, status_query_model, CommandModel, ReplyModel,
};
use crate::selection::{active_count, lemma_active_push, SelectionModel};
use crate::text::Text;

verus! {

/// The session after one event.
#[verifier::opaque]
pub open spec fn after(s: SessionModel, event: EventModel) -> SessionModel {
    s.next(event).0
}

/// What the session asks for after one event.
#[verifier::opaque]
pub open spec fn ask_after(s: SessionModel, event: EventModel) -> AskModel {
    s.next(event).1.ask
}

/// The session after the events.
pub open spec fn reached(diff: bool, events: Seq<EventModel>) -> SessionModel
    decreases events.len(),
{
    if events.len() == 0 {
        fresh_session(diff)
    } else {
        after(reached(diff, events.drop_last()), events.last())
    }
}

/// What the session asks for after the events.
pub open spec fn asked(diff: bool, events: Seq<EventModel>) -> AskModel {
    if events.len() == 0 {
        first_step().ask
    } else {
        ask_after(reached(diff, events.drop_last()), events.last())
    }
}

/// Whether the events are what the session waited for, one after the other.
pub open spec fn is_run(diff: bool, events: Seq<EventModel>) -> bool
    decreases events.len(),
{
    events.len() == 0 || {
        &&& is_run(diff, events.drop_last())
        &&& reached(diff, events.drop_last()).accepts(events.last())
    }
}

/// A session is in order at every point of every run.
pub proof fn law_runs_stay_well_formed(diff: bool, events: Seq<EventModel>)
    requires
        is_run(diff, events),
    ensures
        reached(diff, events).wf(),
    decreases events.len(),
{
    if events.len() > 0 {
        law_runs_stay_well_formed(diff, events.drop_last());
        law_sessions_stay_well_formed(reached(diff, events.drop_last()), events.last());
        reveal(after);
    }
}

/// What one event can and cannot change.
proof fn lemma_frame(s: SessionModel, event: EventModel)
    requires
        s.wf(),
        s.accepts(event),
    ensures
        ({
            let n = after(s, event);
            &&& n.diff == s.diff
            &&& is_agreed(n.phase) && !is_agreed(s.phase) ==> s.phase == Phase::Create && event
                == EventModel::Answered(true) && n.phase == Phase::Branch
            &&& is_agreed(s.phase) ==> n.selections == s.selections && (is_agreed(n.phase)
                || n.phase == Phase::Ended)
            &&& is_agreed(s.phase) ==> n.branch == s.branch && n.target == s.target
            &&& n.show_diff && !s.show_diff ==> (s.phase == Phase::Commits && s.diff) || (s.phase
                == Phase::Diffs && event == EventModel::Answered(true))
            &&& n.phase == Phase::Preview ==> n.show_diff
            &&& n.phase == Phase::Files && n.show_diff ==> s.phase == Phase::Preview
            &&& n.phase == Phase::Preview || n.phase == Phase::Files ==> s.phase == Phase::Commits
                || s.phase == Phase::Diffs || s.phase == Phase::Preview || s.phase == Phase::Files
            &&& s.phase == Phase::Commits && s.diff && n.phase == Phase::Files ==> n.show_diff
            &&& s.phase == Phase::Preview || s.phase == Phase::Files ==> n.show_diff == s.show_diff
            &&& n.phase == Phase::Diffs ==> !s.diff
        }),
{
    reveal(after);
    if phase_rank(s.phase) > 10 {
        lemma_frame_of_branches(s, event);
    }
}

proof fn lemma_frame_of_branches(s: SessionModel, event: EventModel)
    requires
        s.wf(),
        s.accepts(event),
        phase_rank(s.phase) > 10,
    ensures
        ({
            let n = after(s, event);
            &&& n.diff == s.diff
            &&& n.show_diff == s.show_diff
            &&& n.phase == Phase::Ended || phase_rank(n.phase) > 9
        }),
{
    reveal(after);
}

/// The event at `i` is the user's yes to the question that `phase` waits for.
pub open spec fn said_yes(diff: bool, events: Seq<EventModel>, phase: Phase, i: int) -> bool {
    &&& 0 <= i < events.len()
    &&& reached(diff, events.take(i)).phase == phase
    &&& events[i] == EventModel::Answered(true)
}

/// The phases that come after the user has agreed to create the branch.
pub open spec fn is_agreed(phase: Phase) -> bool {
    phase == Phase::Branch || phase == Phase::Apply || phase == Phase::Push || phase
        == Phase::Pushing
}

/// The commands that leave the repository as it is.
pub open spec fn only_reads(command: CommandModel) -> bool {
    ||| command == root_query_model()
    ||| command == status_query_model()
    ||| command == local_query_model()
    ||| command == remote_query_model()
    ||| exists|base: Text, head: Text| command == #[trigger] log_query_model(base, head)
    ||| exists|hash: Text| command == #[trigger] files_query_model(hash)
    ||| exists|hash: Text| command == #[trigger] show_model(hash)
}

proof fn lemma_earlier_yes(diff: bool, events: Seq<EventModel>, phase: Phase, i: int)
    requires
        events.len() > 0,
        said_yes(diff, events.drop_last(), phase, i),
    ensures
        said_yes(diff, events, phase, i),
{
    assert(events.drop_last().take(i) =~= events.take(i));
}

proof fn lemma_agreed(diff: bool, events: Seq<EventModel>)
    requires
        is_run(diff, events),
        is_agreed(reached(diff, events).phase),
    ensures
        exists|i: int| said_yes(diff, events, Phase::Create, i),
    decreases events.len(),
{
    assert(events.len() > 0);
    let before = events.drop_last();
    let s = reached(diff, before);
    law_runs_stay_well_formed(diff, before);
    lemma_frame(s, events.last());
    if is_agreed(s.phase) {
        lemma_agreed(diff, before);
        let i = choose|i: int| said_yes(diff, before, Phase::Create, i);
        lemma_earlier_yes(diff, events, Phase::Create, i);
    } else {
        assert(s.phase == Phase::Create && events.last() == EventModel::Answered(true));
        assert(events.take(events.len() - 1) =~= before);
        assert(said_yes(diff, events, Phase::Create, events.len() - 1));
    }
}

/// Before the user has agreed to create the branch, every git command only reads.
pub proof fn law_nothing_changes_before_consent(diff: bool, events: Seq<EventModel>)
    requires
        is_run(diff, events),
        asked(diff, events) matches AskModel::Git(command) && !only_reads(command),
    ensures
        exists|i: int| said_yes(diff, events, Phase::Create, i),
{
    if events.len() > 0 {
        let before = events.drop_last();
        let s = reached(diff, before);
        law_runs_stay_well_formed(diff, before);
        if !is_agreed(reached(diff, events).phase) {
            reveal(after);
            reveal(ask_after);
            lemma_reading_phases(s, events.last());
        } else {
            lemma_agreed(diff, events);
        }
    }
}

proof fn lemma_reading_phases(s: SessionModel, event: EventModel)
    requires
        s.wf(),
        s.accepts(event),
        !is_agreed(s.next(event).0.phase),
        s.next(event).1.ask is Git,
    ensures
        only_reads(s.next(event).1.ask->Git_0),
{
    let command = s.next(event).1.ask->Git_0;
    match (s.phase, event) {
        (Phase::Source, EventModel::Picked(index)) => {
            assert(command == log_query_model(s.target, s.branches[index as int]));
        },
        (Phase::SourceName, EventModel::Entered(name)) => {
            assert(command == log_query_model(s.target, name));
        },
        (Phase::Collect, EventModel::Ran(reply)) => {
            let (query, step) = s.query.resumed(reply);
            assert(command == files_query_model(query.listed[query.found.len() as int].hash));
        },
        (Phase::Commits, EventModel::PickedMany(picked)) => {
            assert(command == show_model(s.next(event).0.current().hash));
        },
        (Phase::Diffs, EventModel::Answered(answer)) => {
            assert(command == show_model(s.next(event).0.current().hash));
        },
        (Phase::Files, EventModel::PickedMany(picked)) => {
            assert(command == show_model(s.next(event).0.current().hash));
        },
        _ => {},
    }
}

proof fn lemma_push_phase(s: SessionModel, event: EventModel, branch: Text)
    requires
        s.wf(),
        s.accepts(event),
        s.next(event).1.ask == AskModel::Git(push_model(branch)),
    ensures
        s.phase == Phase::Push,
        event == EventModel::Answered(true),
{
    reveal_strlit("push");
    reveal_strlit("rev-parse");
    reveal_strlit("status");
    reveal_strlit("branch");
    reveal_strlit("log");
    reveal_strlit("show");
    reveal_strlit("checkout");
    reveal_strlit("cherry-pick");
    reveal_strlit("diff");
    reveal_strlit("apply");
    reveal_strlit("commit");
    let name = push_model(branch).args[0];
    assert(name.len() == 4 && name[0] == 'p');
    if s.phase == Phase::Apply && event is Ran {
        let step = s.job.resumed(event->Ran_0).1;
        if step is Run {
            assert(step->command.args[0] != name);
        }
    }
}

/// The branch is pushed only after the user has agreed to that.
pub proof fn law_no_push_without_consent(diff: bool, events: Seq<EventModel>, branch: Text)
    requires
        is_run(diff, events),
        asked(diff, events) == AskModel::Git(push_model(branch)),
    ensures
        exists|i: int| said_yes(diff, events, Phase::Push, i),
{
    if events.len() == 0 {
        reveal_strlit("push");
        reveal_strlit("rev-parse");
        assert(push_model(branch).args[0].len() == 4);
        assert(root_query_model().args[0].len() == 9);
    } else {
        let before = events.drop_last();
        law_runs_stay_well_formed(diff, before);
        reveal(ask_after);
        lemma_push_phase(reached(diff, before), events.last(), branch);
        assert(events.take(events.len() - 1) =~= before);
        assert(said_yes(diff, events, Phase::Push, events.len() - 1));
    }
}

/// The event at `i` is git's report that `branch` was created at `target`.
pub open spec fn created_branch(
    diff: bool,
    events: Seq<EventModel>,
    i: int,
    branch: Text,
    target: Text,
) -> bool {
    let s = reached(diff, events.take(i));
    &&& 0 <= i < events.len()
    &&& s.phase == Phase::Branch
    &&& s.branch == branch
    &&& s.target == target
    &&& events[i] matches EventModel::Ran(reply) && git_result(
        create_model(branch, target).args,
        reply,
    ) is Ok
}

/// Nothing is applied or pushed unless git has created the branch of the session
/// at its target.
pub proof fn law_applying_follows_creation(diff: bool, events: Seq<EventModel>)
    requires
        is_run(diff, events),
        is_agreed(reached(diff, events).phase),
        reached(diff, events).phase != Phase::Branch,
    ensures
        exists|i: int|
            created_branch(
                diff,
                events,
                i,
                reached(diff, events).branch,
                reached(diff, events).target,
            ),
    decreases events.len(),
{
    assert(events.len() > 0);
    let before = events.drop_last();
    let s = reached(diff, before);
    let n = reached(diff, events);
    law_runs_stay_well_formed(diff, before);
    lemma_frame(s, events.last());
    if s.phase == Phase::Branch {
        reveal(after);
        assert(events.take(events.len() - 1) =~= before);
        assert(created_branch(diff, events, events.len() - 1, n.branch, n.target));
    } else {
        law_applying_follows_creation(diff, before);
        let i = choose|i: int| created_branch(diff, before, i, s.branch, s.target);
        assert(before.take(i) =~= events.take(i));
        assert(created_branch(diff, events, i, n.branch, n.target));
    }
}

/// The positions below `n` of the commits that are not left out, in order.
pub open spec fn active_positions(selections: Seq<SelectionModel>, n: nat) -> Seq<nat>
    decreases n,
{
    if n == 0 {
        Seq::empty()
    } else {
        let before = active_positions(selections, (n - 1) as nat);
        if selections[n - 1] is Skip {
            before
        } else {
            before.push((n - 1) as nat)
        }
    }
}

/// The positions of the commits that have been applied to the end, in the order
/// in which that happened.
pub open spec fn finished(diff: bool, events: Seq<EventModel>) -> Seq<nat>
    decreases events.len(),
{
    if events.len() == 0 {
        Seq::empty()
    } else {
        let s = reached(diff, events.drop_last());
        let before = finished(diff, events.drop_last());
        match (s.phase, events.last()) {
            (Phase::Apply, EventModel::Ran(reply)) => if s.job.resumed(reply).1
                == ApplyStepModel::Done(Ok(())) {
                before.push(s.position)
            } else {
                before
            },
            _ => before,
        }
    }
}

proof fn lemma_skipped_positions(selections: Seq<SelectionModel>, from: nat)
    requires
        from <= selections.len(),
    ensures
        active_positions(selections, next_active(selections, from)) == active_positions(
            selections,
            from,
        ),
    decreases selections.len() - from,
{
    if from < selections.len() && selections[from as int] is Skip {
        lemma_skipped_positions(selections, from + 1);
    }
}

/// Commits are applied in the order of the list, and exactly those that are not
/// left out: while one is applied, those before it are finished, and by the time
/// that the user is asked whether to push, all are.
pub proof fn law_selected_commits_are_applied_in_order(diff: bool, events: Seq<EventModel>)
    requires
        is_run(diff, events),
    ensures
        ({
            let s = reached(diff, events);
            match s.phase {
                Phase::Apply => finished(diff, events) == active_positions(
                    s.selections,
                    s.position,
                ),
                Phase::Push | Phase::Pushing => finished(diff, events) == active_positions(
                    s.selections,
                    s.selections.len(),
                ),
                Phase::Ended => true,
                _ => finished(diff, events) == Seq::<nat>::empty(),
            }
        }),
    decreases events.len(),
{
    if events.len() > 0 {
        let before = events.drop_last();
        let s = reached(diff, before);
        law_runs_stay_well_formed(diff, before);
        law_selected_commits_are_applied_in_order(diff, before);
        lemma_frame(s, events.last());
        if is_agreed(s.phase) {
            lemma_applying(s, events.last());
        }
    }
}

proof fn lemma_applying(s: SessionModel, event: EventModel)
    requires
        s.wf(),
        s.accepts(event),
        is_agreed(s.phase),
    ensures
        ({
            let n = after(s, event);
            let done = event matches EventModel::Ran(reply) && s.job.resumed(reply).1
                == ApplyStepModel::Done(Ok::<(), ApplyErrorModel>(()));
            let from = if s.phase == Phase::Branch {
                0
            } else {
                s.position + 1
            };
            &&& s.phase == Phase::Push || s.phase == Phase::Pushing ==> n.phase != Phase::Apply
                && n.phase != Phase::Branch
            &&& n.phase != Phase::Branch
            &&& s.phase == Phase::Apply && !done && n.phase != Phase::Ended ==> n.phase
                == Phase::Apply && n.position == s.position
            &&& s.phase == Phase::Branch || (s.phase == Phase::Apply && done) ==> {
                &&& n.phase == Phase::Apply ==> active_positions(s.selections, n.position)
                    == active_positions(s.selections, from)
                &&& n.phase == Phase::Push ==> active_positions(
                    s.selections,
                    s.selections.len(),
                ) == active_positions(s.selections, from)
                &&& n.phase != Phase::Pushing
            }
            &&& s.phase == Phase::Apply && done ==> active_positions(s.selections, from)
                == active_positions(s.selections, s.position).push(s.position)
        }),
{
    reveal(after);
    if s.phase == Phase::Branch {
        lemma_skipped_positions(s.selections, 0);
        lemma_next_active(s.selections, 0);
    } else if s.phase == Phase::Apply {
        lemma_skipped_positions(s.selections, s.position + 1);
        lemma_next_active(s.selections, s.position + 1);
    }
}

/// What is being applied is always a commit that the user selected, and of it the
/// files that the user picked.
pub proof fn law_only_picked_changes_are_applied(diff: bool, events: Seq<EventModel>)
    requires
        is_run(diff, events),
        reached(diff, events).phase == Phase::Apply,
    ensures
        ({
            let s = reached(diff, events);
            let index = s.position as usize;
            &&& s.position < s.commits.len()
            &&& s.selected.contains(index)
            &&& s.job.hash == s.commits[s.position as int].hash
            &&& s.job.stage.is_of_whole() <==> !s.restrictions.contains_key(index)
            &&& s.restrictions.contains_key(index) ==> s.job.files == s.restrictions[index]
                && s.job.files.len() > 0
        }),
{
    law_runs_stay_well_formed(diff, events);
}

proof fn lemma_active_below(selections: Seq<SelectionModel>, n: int)
    requires
        0 <= n <= selections.len(),
    ensures
        active_count(selections.take(n)) <= active_count(selections),
    decreases selections.len() - n,
{
    if n == selections.len() {
        assert(selections.take(n) =~= selections);
    } else {
        lemma_active_push(selections.take(n), selections[n]);
        assert(selections.take(n + 1) =~= selections.take(n).push(selections[n]));
        lemma_active_below(selections, n + 1);
    }
}

/// The commands of a session that has asked for `command` and gets `replies`, as
/// long as it applies the same commit.
pub open spec fn job_commands(
    s: SessionModel,
    command: CommandModel,
    replies: Seq<ReplyModel>,
) -> Seq<CommandModel>
    decreases replies.len(),
{
    if replies.len() == 0 {
        seq![command]
    } else {
        let (n, step) = s.next(EventModel::Ran(replies[0]));
        match step.ask {
            AskModel::Git(next) => if n.phase == Phase::Apply && n.position == s.position {
                seq![command] + job_commands(n, next, replies.skip(1))
            } else {
                seq![command]
            },
            _ => seq![command],
        }
    }
}

/// A session that applies a commit runs the commands of that job, and no others.
pub proof fn law_sessions_run_the_commands_of_the_job(
    s: SessionModel,
    command: CommandModel,
    replies: Seq<ReplyModel>,
)
    requires
        s.wf(),
        s.phase == Phase::Apply,
    ensures
        job_commands(s, command, replies) == apply_run(s.job, running(command), replies).0,
    decreases replies.len(),
{
    if replies.len() > 0 {
        let event = EventModel::Ran(replies[0]);
        let (n, step) = s.next(event);
        let (job, job_step) = s.job.resumed(replies[0]);
        law_sessions_stay_well_formed(s, event);
        let rest = apply_run(job, job_step, replies.skip(1)).0;
        assert(apply_run(s.job, running(command), replies).0 == seq![command] + rest);
        match job_step {
            ApplyStepModel::Run { command: next, .. } => {
                assert(n.phase == Phase::Apply && n.position == s.position && n.job == job);
                assert(step.ask == AskModel::Git(next));
                law_sessions_run_the_commands_of_the_job(n, next, replies.skip(1));
                assert(apply_run(job, job_step, replies.skip(1)).0 == apply_run(
                    job,
                    running(next),
                    replies.skip(1),
                ).0);
            },
            ApplyStepModel::Done(_) => {
                lemma_next_active(s.selections, s.position + 1);
                assert(!(n.phase == Phase::Apply && n.position == s.position));
                assert(seq![command] + rest =~= seq![command]);
            },
        }
    }
}

/// The progress shown runs from one to the number of commits to apply.
pub proof fn law_progress_stays_within_total(diff: bool, events: Seq<EventModel>)
    requires
        is_run(diff, events),
        reached(diff, events).phase == Phase::Apply,
    ensures
        1 <= reached(diff, events).applied <= reached(diff, events).total(),
{
    law_runs_stay_well_formed(diff, events);
    let s = reached(diff, events);
    let n = s.position as int;
    lemma_active_below(s.selections, n + 1);
    lemma_active_push(s.selections.take(n), s.selections[n]);
    assert(s.selections.take(n + 1) =~= s.selections.take(n).push(s.selections[n]));
}

/// A commit that cannot be applied ends the session: none after it is applied,
/// and nothing is pushed.
pub proof fn law_failing_commit_ends_the_session(s: SessionModel, event: EventModel)
    requires
        s.wf(),
        s.phase == Phase::Apply,
        event matches EventModel::Ran(reply) && s.job.resumed(reply).1 matches ApplyStepModel::Done(
            Err(_),
        ),
    ensures
        s.next(event).0.phase == Phase::Ended,
        s.next(event).1.ask == AskModel::End(Ok(())),
{
}

/// While every command succeeds, with output where a diff is asked for, applying
/// goes on to the next command, to the next commit, or to the question whether to
/// push. Only a cherry-pick that has failed already still ends in failure.
pub proof fn law_success_goes_on(s: SessionModel, reply: ReplyModel)
    requires
        s.wf(),
        s.phase == Phase::Branch || (s.phase == Phase::Apply && !(s.job.stage is AbortThenFail)),
        succeeded(reply),
        reply->bytes.len() > 0,
    ensures
        ({
            let n = s.next(EventModel::Ran(reply)).0;
            n.phase == Phase::Apply || n.phase == Phase::Push
        }),
{
}

/// A no to going on with uncommitted changes, to creating the branch or to
/// pushing it ends the session, and without failure.
pub proof fn law_no_ends_the_session(s: SessionModel)
    requires
        s.phase == Phase::Dirty || s.phase == Phase::Create || s.phase == Phase::Push,
    ensures
        s.next(EventModel::Answered(false)).0.phase == Phase::Ended,
        s.next(EventModel::Answered(false)).1.ask == AskModel::End(Ok(())),
{
}

/// With diffs asked for on the command line, the user is never asked whether to
/// show them, and they are shown before every question for files.
pub proof fn law_diff_option_skips_the_question(events: Seq<EventModel>)
    requires
        is_run(true, events),
    ensures
        reached(true, events).phase != Phase::Diffs,
        reached(true, events).phase == Phase::Files ==> reached(true, events.drop_last()).phase
            == Phase::Preview,
{
    lemma_diff_option(events);
}

proof fn lemma_diff_option(events: Seq<EventModel>)
    requires
        is_run(true, events),
    ensures
        reached(true, events).diff,
        reached(true, events).phase != Phase::Diffs,
        reached(true, events).phase == Phase::Files || reached(true, events).phase
            == Phase::Preview ==> reached(true, events).show_diff,
        reached(true, events).phase == Phase::Files ==> reached(true, events.drop_last()).phase
            == Phase::Preview,
    decreases events.len(),
{
    if events.len() > 0 {
        lemma_diff_option(events.drop_last());
        law_runs_stay_well_formed(true, events.drop_last());
        lemma_frame(reached(true, events.drop_last()), events.last());
    }
}

/// A diff is shown only if the command line asks for diffs or the user agreed.
pub proof fn law_no_preview_without_consent(diff: bool, events: Seq<EventModel>)
    requires
        is_run(diff, events),
        reached(diff, events).phase == Phase::Preview,
    ensures
        diff || exists|i: int| said_yes(diff, events, Phase::Diffs, i),
{
    lemma_preview(diff, events);
}

proof fn lemma_preview(diff: bool, events: Seq<EventModel>)
    requires
        is_run(diff, events),
    ensures
        reached(diff, events).diff == diff,
        reached(diff, events).show_diff ==> diff || exists|i: int|
            said_yes(diff, events, Phase::Diffs, i),
        reached(diff, events).phase == Phase::Preview ==> reached(diff, events).show_diff,
    decreases events.len(),
{
    if events.len() > 0 {
        let before = events.drop_last();
        let s = reached(diff, before);
        lemma_preview(diff, before);
        law_runs_stay_well_formed(diff, before);
        lemma_frame(s, events.last());
        if s.phase == Phase::Diffs && events.last() == EventModel::Answered(true) {
            assert(events.take(events.len() - 1) =~= before);
            assert(said_yes(diff, events, Phase::Diffs, events.len() - 1));
        } else if s.show_diff && !diff {
            let i = choose|i: int| said_yes(diff, before, Phase::Diffs, i);
            lemma_earlier_yes(diff, events, Phase::Diffs, i);
        }
    }
}

/// How far a phase is from the end.
pub open spec fn phase_rank(phase: Phase) -> nat {
    match phase {
        Phase::Root => 19,
        Phase::Status => 18,
        Phase::Dirty => 17,
        Phase::Local => 16,
        Phase::Remote => 15,
        Phase::Target => 14,
        Phase::TargetName => 13,
        Phase::Source => 12,
        Phase::SourceName => 11,
        Phase::Collect => 10,
        Phase::Commits => 9,
        Phase::Diffs => 8,
        Phase::Preview => 7,
        Phase::Files => 7,
        Phase::Name => 6,
        Phase::Create => 5,
        Phase::Branch => 4,
        Phase::Apply => 3,
        Phase::Push => 2,
        Phase::Pushing => 1,
        Phase::Ended => 0,
    }
}

/// The most commands that can still follow the one under way in applying a commit.
pub open spec fn stage_rank(stage: StageModel) -> nat {
    match stage {
        StageModel::Pick => 4,
        StageModel::AbortThenRetry => 3,
        StageModel::Retry => 2,
        StageModel::AbortThenFail(_) => 1,
        StageModel::Parent => 4,
        StageModel::Diff => 3,
        StageModel::Checkout => 2,
        StageModel::Patch => 2,
        StageModel::Record => 1,
    }
}

/// How far a session is from its end: first by phase, then by the commits left in
/// that phase, then by what is left of the current one.
pub open spec fn distance(s: SessionModel) -> (nat, int, nat) {
    match s.phase {
        Phase::Collect => (
            phase_rank(s.phase),
            if s.query.logged {
                0
            } else {
                1
            },
            if s.query.logged {
                (s.query.listed.len() - s.query.found.len()) as nat
            } else {
                0
            },
        ),
        Phase::Preview => (phase_rank(s.phase), s.selected.len() - s.cursor, 1),
        Phase::Files => (phase_rank(s.phase), s.selected.len() - s.cursor, 0),
        Phase::Apply => (
            phase_rank(s.phase),
            s.commits.len() - s.position,
            stage_rank(s.job.stage),
        ),
        _ => (phase_rank(s.phase), 0, 0),
    }
}

/// Whether the first distance is smaller; neither may count below zero.
pub open spec fn is_nearer(a: (nat, int, nat), b: (nat, int, nat)) -> bool {
    &&& 0 <= a.1
    &&& 0 <= b.1
    &&& a.0 < b.0 || (a.0 == b.0 && (a.1 < b.1 || (a.1 == b.1 && a.2 < b.2)))
}

/// Every event brings a session nearer to its end, so every session ends.
pub proof fn law_every_event_brings_the_end_nearer(s: SessionModel, event: EventModel)
    requires
        s.wf(),
        s.accepts(event),
    ensures
        is_nearer(distance(s.next(event).0), distance(s)),
{
    if phase_rank(s.phase) > 10 {
        lemma_nearer_among_branches(s, event);
    } else if phase_rank(s.phase) > 6 {
        lemma_nearer_among_commits(s, event);
    } else {
        lemma_nearer_among_changes(s, event);
    }
}

proof fn lemma_nearer_among_branches(s: SessionModel, event: EventModel)
    requires
        s.accepts(event),
        phase_rank(s.phase) > 10,
    ensures
        is_nearer(distance(s.next(event).0), distance(s)),
{
}

proof fn lemma_nearer_among_commits(s: SessionModel, event: EventModel)
    requires
        s.wf(),
        s.accepts(event),
        6 < phase_rank(s.phase) <= 10,
    ensures
        is_nearer(distance(s.next(event).0), distance(s)),
{
    match (s.phase, event) {
        (Phase::Commits, EventModel::PickedMany(picked)) => {
            lemma_next_with_files(s.commits, picked, 0);
        },
        (Phase::Diffs, EventModel::Answered(answer)) => {
            lemma_next_with_files(s.commits, s.selected, 0);
        },
        (Phase::Files, EventModel::PickedMany(picked)) => {
            lemma_next_with_files(s.commits, s.selected, s.cursor + 1);
        },
        _ => {},
    }
}

proof fn lemma_nearer_among_changes(s: SessionModel, event: EventModel)
    requires
        s.wf(),
        s.accepts(event),
        phase_rank(s.phase) <= 6,
    ensures
        is_nearer(distance(s.next(event).0), distance(s)),
{
    match (s.phase, event) {
        (Phase::Branch, EventModel::Ran(reply)) => {
            lemma_next_active(s.selections, 0);
        },
        (Phase::Apply, EventModel::Ran(reply)) => {
            lemma_next_active(s.selections, s.position + 1);
        },
        _ => {},
    }
}

} // verus!
