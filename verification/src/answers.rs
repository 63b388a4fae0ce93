//! Where that which a session acts on comes from: what git listed, and what the
//! user picked and entered.

use vstd::prelude::*;
use crate::branches::{local_query_model, merged, remote_query_model};
use crate::commits::{
    first_query_step, fresh_query, log_query_model, query_run, CommitModel, QueryModel,
    QueryStepModel,
};
use crate::dialogue::EventModel;
use crate::flow::{next_with_files, Phase, SessionModel};
use crate::git::{git_result, GitErrorModel, ReplyModel};
use crate::laws::{
    after, is_run, law_only_picked_changes_are_applied, law_runs_stay_well_formed, phase_rank,
    reached,
};
use crate::selection::restriction;
use crate::text::Text;

verus! {

/// The event at `i` is git's listing of the local branches.
pub open spec fn local_listed(diff: bool, events: Seq<EventModel>, i: int, local: Text) -> bool {
    let s = reached(diff, events.take(i));
    &&& 0 <= i < events.len()
    &&& s.phase == Phase::Local
    &&& events[i] matches EventModel::Ran(reply) && git_result(local_query_model().args, reply)
        == Ok::<Text, GitErrorModel>(local)
}

/// The event at `i` is git's listing of the remote branches, which makes
/// `branches` the branches to choose from.
pub open spec fn branches_listed(
    diff: bool,
    events: Seq<EventModel>,
    i: int,
    local: Text,
    branches: Seq<Text>,
) -> bool {
    let s = reached(diff, events.take(i));
    &&& 0 <= i < events.len()
    &&& s.phase == Phase::Remote
    &&& events[i] matches EventModel::Ran(reply) && git_result(remote_query_model().args, reply)
        matches Ok(remote) && branches == merged(local, remote)
}

/// The event at `i` is the user's choice of `target` as the target branch, out of
/// `branches` or by its name.
pub open spec fn target_told(
    diff: bool,
    events: Seq<EventModel>,
    i: int,
    branches: Seq<Text>,
    target: Text,
) -> bool {
    let s = reached(diff, events.take(i));
    &&& 0 <= i < events.len()
    &&& match events[i] {
        EventModel::Picked(index) => s.phase == Phase::Target && index < branches.len() && target
            == branches[index as int],
        EventModel::Entered(name) => s.phase == Phase::TargetName && target == name,
        _ => false,
    }
}

/// The event at `i` is the user's choice of `source` as the source branch, out of
/// `branches` or by its name.
pub open spec fn source_told(
    diff: bool,
    events: Seq<EventModel>,
    i: int,
    branches: Seq<Text>,
    source: Text,
) -> bool {
    let s = reached(diff, events.take(i));
    &&& 0 <= i < events.len()
    &&& match events[i] {
        EventModel::Picked(index) => s.phase == Phase::Source && index < branches.len() && source
            == branches[index as int],
        EventModel::Entered(name) => s.phase == Phase::SourceName && source == name,
        _ => false,
    }
}

/// The event at `i` is the user's choice of the commits at the positions
/// `selected`, out of `commits`.
pub open spec fn commits_picked(
    diff: bool,
    events: Seq<EventModel>,
    i: int,
    commits: Seq<CommitModel>,
    selected: Seq<usize>,
) -> bool {
    let s = reached(diff, events.take(i));
    &&& 0 <= i < events.len()
    &&& s.phase == Phase::Commits
    &&& s.commits == commits
    &&& events[i] == EventModel::PickedMany(selected)
}

/// The event at `i` is the user's choice of the files at the positions `picked`,
/// out of those of the commit at position `p` of the selection.
pub open spec fn files_picked(
    diff: bool,
    events: Seq<EventModel>,
    i: int,
    p: int,
    picked: Seq<usize>,
) -> bool {
    let s = reached(diff, events.take(i));
    &&& 0 <= i < events.len()
    &&& s.phase == Phase::Files
    &&& s.cursor == p
    &&& events[i] == EventModel::PickedMany(picked)
}

/// The event at `i` is the name that the user entered for the new branch.
pub open spec fn branch_named(diff: bool, events: Seq<EventModel>, i: int, branch: Text) -> bool {
    &&& 0 <= i < events.len()
    &&& reached(diff, events.take(i)).phase == Phase::Name
    &&& events[i] == EventModel::Entered(branch)
}

/// Whether `phase` comes after `earlier`, and is not the end.
pub open spec fn is_past(phase: Phase, earlier: Phase) -> bool {
    phase != Phase::Ended && phase_rank(phase) < phase_rank(earlier)
}

/// The number of selected commits, from the first on, whose files have been asked
/// for or are not asked for.
pub open spec fn visited(s: SessionModel) -> nat {
    if s.phase == Phase::Preview || s.phase == Phase::Files {
        s.cursor
    } else {
        s.selected.len()
    }
}

/// What one event leaves as it is.
proof fn lemma_kept(s: SessionModel, event: EventModel)
    requires
        s.wf(),
        s.accepts(event),
    ensures
        ({
            let n = after(s, event);
            let rank = phase_rank(s.phase);
            &&& rank < 16 ==> n.local == s.local
            &&& rank < 15 ==> n.branches == s.branches
            &&& rank < 13 ==> n.target == s.target
            &&& rank < 11 ==> n.source == s.source
            &&& rank < 10 ==> n.commits == s.commits
            &&& rank < 9 ==> n.selected == s.selected
            &&& rank < 7 || s.phase == Phase::Preview ==> n.restrictions == s.restrictions
            &&& rank < 6 ==> n.branch == s.branch
            &&& rank > 7 && s.restrictions == Map::<usize, Seq<Text>>::empty() ==> n.restrictions
                == Map::<usize, Seq<Text>>::empty()
        }),
{
    reveal(after);
    if phase_rank(s.phase) > 10 {
        lemma_kept_among_branches(s, event);
    }
}

proof fn lemma_kept_among_branches(s: SessionModel, event: EventModel)
    requires
        s.wf(),
        s.accepts(event),
        phase_rank(s.phase) > 10,
    ensures
        ({
            let n = after(s, event);
            let rank = phase_rank(s.phase);
            &&& rank < 16 ==> n.local == s.local
            &&& rank < 15 ==> n.branches == s.branches
            &&& rank < 13 ==> n.target == s.target
            &&& n.restrictions == s.restrictions
        }),
{
    reveal(after);
}

/// What one event brings.
proof fn lemma_brought(s: SessionModel, event: EventModel)
    requires
        s.wf(),
        s.accepts(event),
    ensures
        ({
            let n = after(s, event);
            let rank = phase_rank(s.phase);
            &&& rank >= 9 && is_past(n.phase, Phase::Commits) ==> s.phase == Phase::Commits && event
                == EventModel::PickedMany(n.selected)
            &&& rank >= 6 && is_past(n.phase, Phase::Name) ==> s.phase == Phase::Name && event
                == EventModel::Entered(n.branch)
            &&& s.phase == Phase::Preview && n.phase != Phase::Ended ==> n.phase == Phase::Files
                && n.cursor == s.cursor
            &&& (s.phase == Phase::Commits || s.phase == Phase::Diffs) && is_past(n.phase, Phase::Diffs)
                ==> visited(n) == next_with_files(n.commits, n.selected, 0)
            &&& s.phase == Phase::Files && n.phase != Phase::Ended ==> {
                &&& visited(n) == next_with_files(n.commits, n.selected, s.cursor + 1)
                &&& event matches EventModel::PickedMany(picked) && n.restrictions == match restriction(
                    s.current().files,
                    picked,
                ) {
                    Some(files) => s.restrictions.insert(s.selected[s.cursor as int], files),
                    None => s.restrictions,
                }
            }
            &&& s.phase != Phase::Preview && s.phase != Phase::Files && rank < 8 ==> n.phase
                != Phase::Preview && n.phase != Phase::Files
            &&& rank < 8 ==> phase_rank(n.phase) < 8
        }),
{
    reveal(after);
    if phase_rank(s.phase) > 10 {
        lemma_brought_among_branches(s, event);
    } else {
        lemma_files_from(s.commits, s.selected, 0);
        lemma_files_from(s.commits, s.selected, s.cursor + 1);
        if let EventModel::PickedMany(picked) = event {
            lemma_files_from(s.commits, picked, 0);
        }
    }
}

proof fn lemma_brought_among_branches(s: SessionModel, event: EventModel)
    requires
        s.wf(),
        s.accepts(event),
        phase_rank(s.phase) > 10,
    ensures
        ({
            let n = after(s, event);
            let rank = phase_rank(s.phase);
            &&& n.phase == Phase::Ended || phase_rank(n.phase) >= 9
            &&& rank >= 16 && is_past(n.phase, Phase::Local) ==> s.phase == Phase::Local && (event
                matches EventModel::Ran(reply) && git_result(local_query_model().args, reply)
                == Ok::<Text, GitErrorModel>(n.local))
            &&& rank >= 15 && is_past(n.phase, Phase::Remote) ==> s.phase == Phase::Remote && (event
                matches EventModel::Ran(reply) && git_result(remote_query_model().args, reply)
                matches Ok(remote) && n.branches == merged(n.local, remote))
            &&& rank >= 13 && is_past(n.phase, Phase::TargetName) ==> match event {
                EventModel::Picked(index) => s.phase == Phase::Target && index
                    < n.branches.len() && n.target == n.branches[index as int],
                EventModel::Entered(name) => s.phase == Phase::TargetName && n.target == name,
                _ => false,
            }
            &&& rank >= 11 && is_past(n.phase, Phase::SourceName) ==> match event {
                EventModel::Picked(index) => s.phase == Phase::Source && index
                    < n.branches.len() && n.source == n.branches[index as int],
                EventModel::Entered(name) => s.phase == Phase::SourceName && n.source == name,
                _ => false,
            }
        }),
{
    reveal(after);
}

/// The selected commits that are passed over have no files.
proof fn lemma_files_from(commits: Seq<CommitModel>, selected: Seq<usize>, from: nat)
    ensures
        next_with_files(commits, selected, from) <= selected.len(),
        from <= selected.len() ==> from <= next_with_files(commits, selected, from),
        forall|p: int|
            from <= p < next_with_files(commits, selected, from) ==> commits[#[trigger] selected[p] as int].files.len()
                == 0,
    decreases selected.len() - from,
{
    if from < selected.len() && commits[selected[from as int] as int].files.len() == 0 {
        lemma_files_from(commits, selected, from + 1);
    }
}

proof fn lemma_same_beginning(events: Seq<EventModel>, i: int)
    requires
        0 <= i < events.len(),
    ensures
        events.drop_last().take(i) == events.take(i),
        events.take(events.len() - 1) == events.drop_last(),
{
    assert(events.drop_last().take(i) =~= events.take(i));
    assert(events.take(events.len() - 1) =~= events.drop_last());
}

/// The branches that a session offers are those that git listed for it.
pub proof fn law_offered_branches_were_listed(diff: bool, events: Seq<EventModel>)
    requires
        is_run(diff, events),
        is_past(reached(diff, events).phase, Phase::Local),
    ensures
        exists|i: int| local_listed(diff, events, i, reached(diff, events).local),
        is_past(reached(diff, events).phase, Phase::Remote) ==> exists|i: int|
            branches_listed(
                diff,
                events,
                i,
                reached(diff, events).local,
                reached(diff, events).branches,
            ),
    decreases events.len(),
{
    assert(events.len() > 0);
    let before = events.drop_last();
    let last = events.len() - 1;
    let s = reached(diff, before);
    let n = reached(diff, events);
    law_runs_stay_well_formed(diff, before);
    lemma_kept(s, events.last());
    lemma_same_beginning(events, last);
    if phase_rank(s.phase) > 10 {
        lemma_brought_among_branches(s, events.last());
    }
    if phase_rank(s.phase) < 16 {
        law_offered_branches_were_listed(diff, before);
        let i = choose|i: int| local_listed(diff, before, i, s.local);
        lemma_same_beginning(events, i);
        assert(local_listed(diff, events, i, n.local));
    } else {
        assert(local_listed(diff, events, last, n.local));
    }
    if is_past(n.phase, Phase::Remote) {
        if phase_rank(s.phase) < 15 {
            let i = choose|i: int| branches_listed(diff, before, i, s.local, s.branches);
            lemma_same_beginning(events, i);
            assert(branches_listed(diff, events, i, n.local, n.branches));
        } else {
            assert(branches_listed(diff, events, last, n.local, n.branches));
        }
    }
}

/// The target branch is the one that the user picked or entered.
pub proof fn law_target_was_told(diff: bool, events: Seq<EventModel>)
    requires
        is_run(diff, events),
        is_past(reached(diff, events).phase, Phase::TargetName),
    ensures
        exists|i: int|
            target_told(
                diff,
                events,
                i,
                reached(diff, events).branches,
                reached(diff, events).target,
            ),
    decreases events.len(),
{
    assert(events.len() > 0);
    let before = events.drop_last();
    let last = events.len() - 1;
    let s = reached(diff, before);
    let n = reached(diff, events);
    law_runs_stay_well_formed(diff, before);
    lemma_kept(s, events.last());
    lemma_same_beginning(events, last);
    if phase_rank(s.phase) < 13 {
        law_target_was_told(diff, before);
        let i = choose|i: int| target_told(diff, before, i, s.branches, s.target);
        lemma_same_beginning(events, i);
        assert(target_told(diff, events, i, n.branches, n.target));
    } else {
        lemma_brought_among_branches(s, events.last());
        assert(target_told(diff, events, last, n.branches, n.target));
    }
}

/// The source branch is the one that the user picked or entered.
pub proof fn law_source_was_told(diff: bool, events: Seq<EventModel>)
    requires
        is_run(diff, events),
        is_past(reached(diff, events).phase, Phase::SourceName),
    ensures
        exists|i: int|
            source_told(
                diff,
                events,
                i,
                reached(diff, events).branches,
                reached(diff, events).source,
            ),
    decreases events.len(),
{
    assert(events.len() > 0);
    let before = events.drop_last();
    let last = events.len() - 1;
    let s = reached(diff, before);
    let n = reached(diff, events);
    law_runs_stay_well_formed(diff, before);
    lemma_kept(s, events.last());
    lemma_same_beginning(events, last);
    if phase_rank(s.phase) < 11 {
        law_source_was_told(diff, before);
        let i = choose|i: int| source_told(diff, before, i, s.branches, s.source);
        lemma_same_beginning(events, i);
        assert(source_told(diff, events, i, n.branches, n.source));
    } else {
        lemma_brought_among_branches(s, events.last());
        assert(source_told(diff, events, last, n.branches, n.source));
    }
}

/// Past the question for commits, the selected commits are those that the user
/// picked from the list shown.
pub proof fn law_selected_commits_were_picked(diff: bool, events: Seq<EventModel>)
    requires
        is_run(diff, events),
        is_past(reached(diff, events).phase, Phase::Commits),
    ensures
        exists|i: int|
            commits_picked(
                diff,
                events,
                i,
                reached(diff, events).commits,
                reached(diff, events).selected,
            ),
    decreases events.len(),
{
    assert(events.len() > 0);
    let before = events.drop_last();
    let last = events.len() - 1;
    let s = reached(diff, before);
    let n = reached(diff, events);
    law_runs_stay_well_formed(diff, before);
    lemma_kept(s, events.last());
    lemma_brought(s, events.last());
    lemma_same_beginning(events, last);
    if phase_rank(s.phase) < 9 {
        law_selected_commits_were_picked(diff, before);
        let i = choose|i: int| commits_picked(diff, before, i, s.commits, s.selected);
        lemma_same_beginning(events, i);
        assert(commits_picked(diff, events, i, n.commits, n.selected));
    } else {
        assert(commits_picked(diff, events, last, n.commits, n.selected));
    }
}

/// The new branch has the name that the user entered.
pub proof fn law_branch_was_named(diff: bool, events: Seq<EventModel>)
    requires
        is_run(diff, events),
        is_past(reached(diff, events).phase, Phase::Name),
    ensures
        exists|i: int| branch_named(diff, events, i, reached(diff, events).branch),
    decreases events.len(),
{
    assert(events.len() > 0);
    let before = events.drop_last();
    let last = events.len() - 1;
    let s = reached(diff, before);
    let n = reached(diff, events);
    law_runs_stay_well_formed(diff, before);
    lemma_kept(s, events.last());
    lemma_brought(s, events.last());
    lemma_same_beginning(events, last);
    if phase_rank(s.phase) < 6 {
        law_branch_was_named(diff, before);
        let i = choose|i: int| branch_named(diff, before, i, s.branch);
        lemma_same_beginning(events, i);
        assert(branch_named(diff, events, i, n.branch));
    } else {
        assert(branch_named(diff, events, last, n.branch));
    }
}

/// The user was asked for the files of the commit at position `p` of the
/// selection.
pub open spec fn was_asked(diff: bool, events: Seq<EventModel>, p: int) -> bool {
    exists|i: int, picked: Seq<usize>| files_picked(diff, events, i, p, picked)
}

/// The event at `i` restricts the commit at `index` to `files`: it is the user's
/// choice out of the files of that commit, and that choice is not all of them.
pub open spec fn restricts(
    diff: bool,
    events: Seq<EventModel>,
    i: int,
    p: int,
    picked: Seq<usize>,
    index: usize,
    files: Seq<Text>,
) -> bool {
    let s = reached(diff, events);
    &&& files_picked(diff, events, i, p, picked)
    &&& 0 <= p < s.selected.len()
    &&& s.selected[p] == index
    &&& restriction(s.commits[index as int].files, picked) == Some(files)
}

/// The user's choices of files, up to the events given, are what the restrictions
/// of the session are made of.
spec fn files_accounted(diff: bool, events: Seq<EventModel>) -> bool {
    let s = reached(diff, events);
    &&& phase_rank(s.phase) >= 8 ==> {
        &&& s.restrictions == Map::<usize, Seq<Text>>::empty()
        &&& forall|i: int, p: int, picked: Seq<usize>| !files_picked(diff, events, i, p, picked)
    }
    &&& is_past(s.phase, Phase::Diffs) ==> {
        &&& forall|i: int, p: int, picked: Seq<usize>|
            files_picked(diff, events, i, p, picked) ==> {
                &&& 0 <= p < visited(s)
                &&& p < s.selected.len()
                &&& restriction(s.commits[s.selected[p] as int].files, picked) is Some
                    ==> s.restrictions.contains_key(s.selected[p])
            }
        &&& forall|index: usize| #[trigger]
            s.restrictions.contains_key(index) ==> exists|i: int, p: int, picked: Seq<usize>|
                restricts(diff, events, i, p, picked, index, s.restrictions[index])
        &&& forall|p: int|
            0 <= p < visited(s) && s.commits[s.selected[p] as int].files.len() > 0
                ==> #[trigger] was_asked(diff, events, p)
    }
}

proof fn lemma_files_picked(diff: bool, events: Seq<EventModel>)
    requires
        events.len() > 0,
    ensures
        forall|i: int, p: int, picked: Seq<usize>|
            files_picked(diff, events.drop_last(), i, p, picked) ==> #[trigger] files_picked(
                diff,
                events,
                i,
                p,
                picked,
            ),
        forall|i: int, p: int, picked: Seq<usize>| #[trigger]
            files_picked(diff, events, i, p, picked) && i < events.len() - 1 ==> files_picked(
                diff,
                events.drop_last(),
                i,
                p,
                picked,
            ),
{
    assert forall|i: int| 0 <= i < events.len() - 1 implies #[trigger] events.take(i)
        == events.drop_last().take(i) by {
        lemma_same_beginning(events, i);
    }
}

proof fn lemma_files_accounted(diff: bool, events: Seq<EventModel>)
    requires
        is_run(diff, events),
    ensures
        files_accounted(diff, events),
    decreases events.len(),
{
    if events.len() > 0 {
        let before = events.drop_last();
        let last = events.len() - 1;
        let s = reached(diff, before);
        let n = reached(diff, events);
        lemma_files_accounted(diff, before);
        law_runs_stay_well_formed(diff, before);
        lemma_kept(s, events.last());
        lemma_brought(s, events.last());
        lemma_same_beginning(events, last);
        lemma_files_picked(diff, events);
        if is_past(n.phase, Phase::Diffs) {
            lemma_restrictions_picked(diff, events);
            lemma_all_asked(diff, events);
            lemma_files_from(n.commits, n.selected, s.cursor + 1);
            assert forall|i: int, p: int, picked: Seq<usize>|
                files_picked(diff, events, i, p, picked) implies {
                &&& 0 <= p < visited(n)
                &&& p < n.selected.len()
                &&& restriction(n.commits[n.selected[p] as int].files, picked) is Some
                    ==> n.restrictions.contains_key(n.selected[p])
            } by {
                if i < last {
                    assert(files_picked(diff, before, i, p, picked));
                } else {
                    assert(s.phase == Phase::Files && p == s.cursor);
                }
            }
        } else if phase_rank(n.phase) >= 8 {
            assert forall|i: int, p: int, picked: Seq<usize>|
                !files_picked(diff, events, i, p, picked) by {
                if files_picked(diff, events, i, p, picked) && i < last {
                    assert(files_picked(diff, before, i, p, picked));
                }
            }
        }
    }
}

proof fn lemma_restrictions_picked(diff: bool, events: Seq<EventModel>)
    requires
        events.len() > 0,
        is_run(diff, events),
        files_accounted(diff, events.drop_last()),
        is_past(reached(diff, events).phase, Phase::Diffs),
    ensures
        forall|index: usize| #[trigger]
            reached(diff, events).restrictions.contains_key(index) ==> exists|
                i: int,
                p: int,
                picked: Seq<usize>,
            |
                restricts(
                    diff,
                    events,
                    i,
                    p,
                    picked,
                    index,
                    reached(diff, events).restrictions[index],
                ),
{
    let before = events.drop_last();
    let last = events.len() - 1;
    let s = reached(diff, before);
    let n = reached(diff, events);
    law_runs_stay_well_formed(diff, before);
    lemma_kept(s, events.last());
    lemma_brought(s, events.last());
    lemma_same_beginning(events, last);
    lemma_files_picked(diff, events);
    assert forall|index: usize| #[trigger] n.restrictions.contains_key(index) implies exists|
        i: int,
        p: int,
        picked: Seq<usize>,
    | restricts(diff, events, i, p, picked, index, n.restrictions[index]) by {
        let here = s.selected[s.cursor as int];
        if s.phase == Phase::Files && here == index && restriction(
            s.current().files,
            events.last()->PickedMany_0,
        ) is Some {
            let picked = events.last()->PickedMany_0;
            assert(files_picked(diff, events, last, s.cursor as int, picked));
            assert(restricts(
                diff,
                events,
                last,
                s.cursor as int,
                picked,
                index,
                n.restrictions[index],
            ));
        } else {
            assert(s.restrictions.contains_key(index));
            assert(s.restrictions[index] == n.restrictions[index]);
            let (i, p, picked) = choose|i: int, p: int, picked: Seq<usize>|
                restricts(diff, before, i, p, picked, index, s.restrictions[index]);
            assert(files_picked(diff, events, i, p, picked));
            assert(restricts(diff, events, i, p, picked, index, n.restrictions[index]));
        }
    }
}

proof fn lemma_all_asked(diff: bool, events: Seq<EventModel>)
    requires
        events.len() > 0,
        is_run(diff, events),
        files_accounted(diff, events.drop_last()),
        is_past(reached(diff, events).phase, Phase::Diffs),
    ensures
        forall|p: int|
            0 <= p < visited(reached(diff, events)) && reached(diff, events).commits[reached(
                diff,
                events,
            ).selected[p] as int].files.len() > 0 ==> #[trigger] was_asked(diff, events, p),
{
    let before = events.drop_last();
    let last = events.len() - 1;
    let s = reached(diff, before);
    let n = reached(diff, events);
    law_runs_stay_well_formed(diff, before);
    lemma_kept(s, events.last());
    lemma_brought(s, events.last());
    lemma_same_beginning(events, last);
    lemma_files_picked(diff, events);
    lemma_files_from(n.commits, n.selected, 0);
    lemma_files_from(n.commits, n.selected, s.cursor + 1);
    assert forall|p: int|
        0 <= p < visited(n) && n.commits[n.selected[p] as int].files.len()
            > 0 implies #[trigger] was_asked(diff, events, p) by {
        let at = n.selected[p];
        if s.phase == Phase::Files && p == s.cursor {
            let picked = events.last()->PickedMany_0;
            assert(files_picked(diff, events, last, p, picked));
        } else {
            assert(was_asked(diff, before, p));
            let (i, picked) = choose|i: int, picked: Seq<usize>|
                files_picked(diff, before, i, p, picked);
            assert(files_picked(diff, events, i, p, picked));
        }
    }
}

proof fn lemma_beginning_of_run(diff: bool, events: Seq<EventModel>, n: int)
    requires
        is_run(diff, events),
        0 <= n <= events.len(),
    ensures
        is_run(diff, events.take(n)),
    decreases events.len(),
{
    if n == events.len() {
        assert(events.take(n) =~= events);
    } else {
        lemma_beginning_of_run(diff, events.drop_last(), n);
        assert(events.drop_last().take(n) =~= events.take(n));
    }
}

/// The files of the selected commits are asked for in the order of the selection,
/// and those of each position at most once.
pub proof fn law_files_are_asked_for_in_order(
    diff: bool,
    events: Seq<EventModel>,
    i: int,
    p: int,
    picked: Seq<usize>,
    j: int,
    q: int,
    picked_later: Seq<usize>,
)
    requires
        is_run(diff, events),
        files_picked(diff, events, i, p, picked),
        files_picked(diff, events, j, q, picked_later),
        i < j,
    ensures
        p < q,
{
    let before = events.take(j);
    lemma_beginning_of_run(diff, events, j);
    lemma_files_accounted(diff, before);
    assert(before.take(i) =~= events.take(i));
    assert(files_picked(diff, before, i, p, picked));
}

/// By the time that the new branch is named, the user has been asked for the
/// files of every selected commit that has any.
pub proof fn law_files_of_every_selected_commit_are_asked_for(
    diff: bool,
    events: Seq<EventModel>,
    p: int,
)
    requires
        is_run(diff, events),
        is_past(reached(diff, events).phase, Phase::Files),
        0 <= p < reached(diff, events).selected.len(),
        reached(diff, events).commits[reached(diff, events).selected[p] as int].files.len() > 0,
    ensures
        was_asked(diff, events, p),
{
    lemma_files_accounted(diff, events);
}

/// Every restriction of a commit is the user's choice out of the files of that
/// commit.
pub proof fn law_restrictions_were_picked(diff: bool, events: Seq<EventModel>, index: usize)
    requires
        is_run(diff, events),
        is_past(reached(diff, events).phase, Phase::Diffs),
        reached(diff, events).restrictions.contains_key(index),
    ensures
        exists|i: int, p: int, picked: Seq<usize>|
            restricts(
                diff,
                events,
                i,
                p,
                picked,
                index,
                reached(diff, events).restrictions[index],
            ),
{
    lemma_files_accounted(diff, events);
}

/// Every choice of files counts: what it restricts its commit to is what the
/// commit is restricted to, and where it is no restriction there is none. This
/// holds of a selection that names no commit twice.
pub proof fn law_choices_of_files_count(
    diff: bool,
    events: Seq<EventModel>,
    i: int,
    p: int,
    picked: Seq<usize>,
)
    requires
        is_run(diff, events),
        is_past(reached(diff, events).phase, Phase::Diffs),
        reached(diff, events).selected.no_duplicates(),
        files_picked(diff, events, i, p, picked),
    ensures
        ({
            let s = reached(diff, events);
            let index = s.selected[p];
            &&& 0 <= p < s.selected.len()
            &&& match restriction(s.commits[index as int].files, picked) {
                Some(files) => s.restrictions.contains_key(index) && s.restrictions[index]
                    == files,
                None => !s.restrictions.contains_key(index),
            }
        }),
{
    lemma_files_accounted(diff, events);
    let s = reached(diff, events);
    let index = s.selected[p];
    if s.restrictions.contains_key(index) {
        let (j, q, other) = choose|j: int, q: int, other: Seq<usize>|
            restricts(diff, events, j, q, other, index, s.restrictions[index]);
        assert(p == q);
        if i < j {
            law_files_are_asked_for_in_order(diff, events, i, p, picked, j, q, other);
        } else if j < i {
            law_files_are_asked_for_in_order(diff, events, j, q, other, i, p, picked);
        }
        assert(picked == other);
    }
}

/// What is being applied is what the user picked: the commit is one of those
/// picked from the list; where some of its files are applied, they are the choice
/// made out of the files of that commit; and where it is applied as a whole, it
/// has no files, or the choice was all of them.
pub proof fn law_applied_changes_were_picked(diff: bool, events: Seq<EventModel>)
    requires
        is_run(diff, events),
        reached(diff, events).phase == Phase::Apply,
    ensures
        ({
            let s = reached(diff, events);
            let index = s.position as usize;
            let commit = s.commits[s.position as int];
            &&& s.position < s.commits.len()
            &&& s.job.hash == commit.hash
            &&& s.selected.contains(index)
            &&& exists|c: int| commits_picked(diff, events, c, s.commits, s.selected)
            &&& !s.job.stage.is_of_whole() ==> exists|i: int, p: int, picked: Seq<usize>|
                restricts(diff, events, i, p, picked, index, s.job.files)
            &&& s.job.stage.is_of_whole() && commit.files.len() > 0 ==> exists|
                i: int,
                p: int,
                picked: Seq<usize>,
            | #[trigger]
                files_picked(diff, events, i, p, picked) && 0 <= p < s.selected.len()
                    && s.selected[p] == index && restriction(commit.files, picked) is None
        }),
{
    let s = reached(diff, events);
    let index = s.position as usize;
    law_runs_stay_well_formed(diff, events);
    law_only_picked_changes_are_applied(diff, events);
    law_selected_commits_were_picked(diff, events);
    lemma_files_accounted(diff, events);
    if s.job.stage.is_of_whole() && s.commits[s.position as int].files.len() > 0 {
        let p = choose|p: int| 0 <= p < s.selected.len() && s.selected[p] == index;
        law_files_of_every_selected_commit_are_asked_for(diff, events, p);
        let (i, picked) = choose|i: int, picked: Seq<usize>|
            files_picked(diff, events, i, p, picked);
        assert(files_picked(diff, events, i, p, picked));
    }
}

/// The replies of git that the events report.
pub open spec fn replies_in(events: Seq<EventModel>) -> Seq<ReplyModel> {
    Seq::new(events.len(), |k: int| events[k]->Ran_0)
}

/// The event at `i` is the choice of the source of `s`, those after it up to the
/// one at `j` are git's replies, and with these replies, collecting the commits on
/// the source of `s` that are not on its target comes to the commits of `s`.
pub open spec fn commits_collected(
    diff: bool,
    events: Seq<EventModel>,
    i: int,
    j: int,
    s: SessionModel,
) -> bool {
    &&& i < j < events.len()
    &&& source_told(diff, events, i, s.branches, s.source)
    &&& forall|k: int| i < k <= j ==> #[trigger] events[k] is Ran
    &&& query_run(
        fresh_query(s.target, s.source),
        first_query_step(s.target, s.source),
        replies_in(events.subrange(i + 1, j + 1)),
    ).1 == Some(Ok::<Seq<CommitModel>, GitErrorModel>(s.commits))
}

/// What collecting comes to that goes on from `query` with these replies.
spec fn outcome(query: QueryModel, replies: Seq<ReplyModel>) -> Option<
    Result<Seq<CommitModel>, GitErrorModel>,
> {
    query_run(query, QueryStepModel::Run(log_query_model(query.base, query.head)), replies).1
}

proof fn lemma_outcome(query: QueryModel, reply: ReplyModel, rest: Seq<ReplyModel>)
    ensures
        outcome(query, seq![reply] + rest) == match query.resumed(reply).1 {
            QueryStepModel::Run(_) => outcome(query.resumed(reply).0, rest),
            QueryStepModel::Done(result) => Some(result),
        },
{
    reveal_with_fuel(query_run, 2);
    assert((seq![reply] + rest)[0] == reply);
    assert((seq![reply] + rest).skip(1) =~= rest);
}

/// What one event does while commits are collected.
proof fn lemma_collecting(s: SessionModel, event: EventModel)
    requires
        s.wf(),
        s.accepts(event),
    ensures
        ({
            let n = after(s, event);
            &&& phase_rank(s.phase) > 10 && is_past(n.phase, Phase::SourceName) ==> {
                &&& n.phase == Phase::Collect
                &&& n.query == fresh_query(n.target, n.source)
                &&& n.target != n.source
            }
            &&& s.phase == Phase::Collect && n.phase != Phase::Ended
                ==> event is Ran && match s.query.resumed(event->Ran_0).1 {
                QueryStepModel::Run(_) => n.phase == Phase::Collect && n.query
                    == s.query.resumed(event->Ran_0).0,
                QueryStepModel::Done(Ok(commits)) => n.phase == Phase::Commits && n.commits
                    == commits,
                QueryStepModel::Done(Err(_)) => false,
            }
            &&& phase_rank(s.phase) < 10 ==> n.phase != Phase::Collect
        }),
{
    reveal(after);
    if phase_rank(s.phase) > 10 {
        lemma_brought_among_branches(s, event);
    }
}

/// The event at `i` is the choice of the source, and those after it are git's
/// replies, after which collecting goes on from where the session is.
spec fn collecting(diff: bool, events: Seq<EventModel>, i: int) -> bool {
    let s = reached(diff, events);
    &&& source_told(diff, events, i, s.branches, s.source)
    &&& s.target != s.source
    &&& forall|k: int| i < k < events.len() ==> #[trigger] events[k] is Ran
    &&& forall|rest: Seq<ReplyModel>| #[trigger]
        outcome(
            fresh_query(s.target, s.source),
            replies_in(events.skip(i + 1)) + rest,
        ) == outcome(s.query, rest)
}

proof fn lemma_collecting_since(diff: bool, events: Seq<EventModel>)
    requires
        is_run(diff, events),
        reached(diff, events).phase == Phase::Collect,
    ensures
        exists|i: int| collecting(diff, events, i),
    decreases events.len(),
{
    assert(events.len() > 0);
    let before = events.drop_last();
    let last = events.len() - 1;
    let s = reached(diff, before);
    let n = reached(diff, events);
    law_runs_stay_well_formed(diff, before);
    lemma_kept(s, events.last());
    lemma_collecting(s, events.last());
    lemma_same_beginning(events, last);
    let fresh = fresh_query(n.target, n.source);
    if s.phase == Phase::Collect {
        lemma_collecting_since(diff, before);
        let i = choose|i: int| collecting(diff, before, i);
        lemma_same_beginning(events, i);
        let reply = events.last()->Ran_0;
        assert forall|rest: Seq<ReplyModel>| #[trigger]
            outcome(fresh, replies_in(events.skip(i + 1)) + rest) == outcome(n.query, rest) by {
            assert(replies_in(events.skip(i + 1)) + rest =~= replies_in(before.skip(i + 1)) + (
            seq![reply] + rest));
            lemma_outcome(s.query, reply, rest);
        }
        assert forall|k: int| i < k < events.len() implies #[trigger] events[k] is Ran by {
            if k < last {
                assert(before[k] is Ran);
            }
        }
        assert(source_told(diff, events, i, n.branches, n.source));
        assert(collecting(diff, events, i));
    } else {
        lemma_brought_among_branches(s, events.last());
        assert(source_told(diff, events, last, n.branches, n.source));
        assert forall|rest: Seq<ReplyModel>| #[trigger]
            outcome(fresh, replies_in(events.skip(last + 1)) + rest) == outcome(n.query, rest) by {
            assert(replies_in(events.skip(last + 1)) + rest =~= rest);
        }
        assert(collecting(diff, events, last));
    }
}

/// The commits to choose from are what collecting those on the source that are not
/// on the target came to.
pub proof fn law_offered_commits_were_collected(diff: bool, events: Seq<EventModel>)
    requires
        is_run(diff, events),
        is_past(reached(diff, events).phase, Phase::Collect),
    ensures
        exists|i: int, j: int| commits_collected(diff, events, i, j, reached(diff, events)),
    decreases events.len(),
{
    assert(events.len() > 0);
    let before = events.drop_last();
    let last = events.len() - 1;
    let s = reached(diff, before);
    let n = reached(diff, events);
    law_runs_stay_well_formed(diff, before);
    lemma_kept(s, events.last());
    lemma_collecting(s, events.last());
    lemma_same_beginning(events, last);
    if phase_rank(s.phase) < 10 {
        law_offered_commits_were_collected(diff, before);
        let (i, j) = choose|i: int, j: int| commits_collected(diff, before, i, j, s);
        lemma_same_beginning(events, i);
        assert(before.subrange(i + 1, j + 1) =~= events.subrange(i + 1, j + 1));
        assert forall|k: int| i < k <= j implies #[trigger] events[k] is Ran by {
            assert(before[k] is Ran);
        }
        assert(source_told(diff, events, i, n.branches, n.source));
        assert(commits_collected(diff, events, i, j, n));
    } else {
        lemma_collecting_since(diff, before);
        let i = choose|i: int| collecting(diff, before, i);
        let reply = events.last()->Ran_0;
        let none = Seq::<ReplyModel>::empty();
        lemma_same_beginning(events, i);
        lemma_outcome(s.query, reply, none);
        assert(replies_in(events.subrange(i + 1, last + 1)) =~= replies_in(before.skip(i + 1)) + (
        seq![reply] + none));
        assert(outcome(
            fresh_query(s.target, s.source),
            replies_in(before.skip(i + 1)) + (seq![reply] + none),
        ) == outcome(s.query, seq![reply] + none));
        assert forall|k: int| i < k <= last implies #[trigger] events[k] is Ran by {
            if k < last {
                assert(before[k] is Ran);
            }
        }
        assert(source_told(diff, events, i, n.branches, n.source));
        assert(commits_collected(diff, events, i, last, n));
    }
}

} // verus!
