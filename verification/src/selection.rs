//! Selections: which commits, and which of their files, go onto the new branch.

use vstd::prelude::*;
use std::collections::HashMap;
use vstd::set_lib::{lemma_int_range, lemma_len_subset, lemma_subset_equality, set_int_range};
use crate::lists::{copy_strings, has_index, no_items, put};
use crate::text::Text;

verus! {

broadcast use vstd::std_specs::hash::group_hash_axioms;

/// What becomes of a commit.
#[derive(Debug, PartialEq, Eq)]
pub enum CommitSelection {
    /// It is left out.
    Skip,
    /// All of it is applied.
    Whole,
    /// These files of it are applied.
    Files(Vec<String>),
}

/// The model of a [`CommitSelection`].
pub enum SelectionModel {
    Skip,
    Whole,
    Files(Seq<Text>),
}

impl DeepView for CommitSelection {
    type V = SelectionModel;

    open spec fn deep_view(&self) -> SelectionModel {
        match self {
            CommitSelection::Skip => SelectionModel::Skip,
            CommitSelection::Whole => SelectionModel::Whole,
            CommitSelection::Files(files) => SelectionModel::Files(files.deep_view()),
        }
    }
}

impl Clone for CommitSelection {
    fn clone(&self) -> (r: CommitSelection)
        ensures
            r.deep_view() == self.deep_view(),
    {
        match self {
            CommitSelection::Skip => CommitSelection::Skip,
            CommitSelection::Whole => CommitSelection::Whole,
            CommitSelection::Files(files) => CommitSelection::Files(copy_strings(files)),
        }
    }
}

/// The files at the given positions.
pub open spec fn files_at(files: Seq<Text>, picked: Seq<usize>) -> Seq<Text> {
    Seq::new(picked.len(), |i: int| files[picked[i] as int])
}

/// The files that a choice restricts a commit to, if it restricts it at all: not
/// if at least as many positions were picked as there are files.
pub open spec fn restriction(files: Seq<Text>, picked: Seq<usize>) -> Option<Seq<Text>> {
    if picked.len() == 0 {
        Some(Seq::empty())
    } else if picked.len() < files.len() {
        Some(files_at(files, picked))
    } else {
        None
    }
}

/// Every picked position is one of a file.
pub open spec fn all_below(picked: Seq<usize>, count: nat) -> bool {
    forall|i: int| 0 <= i < picked.len() ==> #[trigger] picked[i] < count
}

/// Whether every picked position is one of `count` items.
pub fn are_below(picked: &Vec<usize>, count: usize) -> (r: bool)
    ensures
        r == all_below(picked@, count as nat),
{
    let mut i: usize = 0;
    while i < picked.len()
        invariant
            i <= picked@.len(),
            forall|j: int| 0 <= j < i ==> #[trigger] picked@[j] < count,
        decreases picked@.len() - i,
    {
        if picked[i] >= count {
            return false;
        }
        i = i + 1;
    }
    true
}

/// The files that a choice restricts a commit to, if it restricts it at all.
pub fn restrict(files: &Vec<String>, picked: &Vec<usize>) -> (r: Option<Vec<String>>)
    requires
        all_below(picked@, files@.len()),
    ensures
        r.deep_view() == restriction(files.deep_view(), picked@),
{
    if picked.len() > 0 && picked.len() >= files.len() {
        return None;
    }
    let mut r: Vec<String> = no_items();
    let mut i: usize = 0;
    while i < picked.len()
        invariant
            i <= picked@.len(),
            all_below(picked@, files@.len()),
            r.deep_view() == files_at(files.deep_view(), picked@).take(i as int),
        decreases picked@.len() - i,
    {
        proof {
            let whole = files_at(files.deep_view(), picked@);
            assert(picked@[i as int] < files@.len());
            assert(whole.take(i + 1) =~= whole.take(i as int).push(whole[i as int]));
            assert(whole[i as int] == files@[picked@[i as int] as int]@);
        }
        put(&mut r, files[picked[i]].clone());
        i = i + 1;
    }
    proof {
        let whole = files_at(files.deep_view(), picked@);
        assert(whole.take(i as int) =~= whole);
        assert(picked@.len() == 0 ==> whole =~= Seq::<Text>::empty());
    }
    Some(r)
}

/// The restrictions of commits to some of their files, by the commits' positions.
pub type Restrictions = HashMap<usize, Vec<String>>;

/// The model of [`Restrictions`].
pub open spec fn restrictions_model(m: Map<usize, Vec<String>>) -> Map<usize, Seq<Text>> {
    m.map_values(|files: Vec<String>| files.deep_view())
}

/// No restrictions.
pub fn no_restrictions() -> (r: Restrictions)
    ensures
        restrictions_model(r@) == Map::<usize, Seq<Text>>::empty(),
{
    let r: Restrictions = HashMap::new();
    assert(restrictions_model(r@) =~= Map::<usize, Seq<Text>>::empty());
    r
}

/// Restricts the commit at `index` to `files`.
pub fn add_restriction(m: &mut Restrictions, index: usize, files: Vec<String>)
    ensures
        restrictions_model(final(m)@) == restrictions_model(old(m)@).insert(
            index,
            files.deep_view(),
        ),
{
    let ghost before = m@;
    m.insert(index, files);
    assert(restrictions_model(m@) =~= restrictions_model(before).insert(index, files.deep_view()));
}

/// What becomes of the commit at `index`: it is left out if it was not selected
/// or is restricted to no files; it is applied in part if it is restricted; and
/// as a whole otherwise.
pub open spec fn selection_of(
    index: usize,
    selected: Seq<usize>,
    restrictions: Map<usize, Seq<Text>>,
) -> SelectionModel {
    if !selected.contains(index) {
        SelectionModel::Skip
    } else if !restrictions.contains_key(index) {
        SelectionModel::Whole
    } else if restrictions[index].len() == 0 {
        SelectionModel::Skip
    } else {
        SelectionModel::Files(restrictions[index])
    }
}

/// What becomes of each of `count` commits.
pub open spec fn selections_of(
    count: nat,
    selected: Seq<usize>,
    restrictions: Map<usize, Seq<Text>>,
) -> Seq<SelectionModel> {
    Seq::new(count, |i: int| selection_of(i as usize, selected, restrictions))
}

/// What becomes of each of `count` commits.
pub fn build_selections(count: usize, selected: &Vec<usize>, restrictions: &Restrictions) -> (r:
    Vec<CommitSelection>)
    ensures
        r.deep_view() == selections_of(
            count as nat,
            selected@,
            restrictions_model(restrictions@),
        ),
{
    let ghost whole = selections_of(count as nat, selected@, restrictions_model(restrictions@));
    let mut r: Vec<CommitSelection> = no_items();
    let mut i: usize = 0;
    assert(whole.take(0) =~= Seq::<SelectionModel>::empty());
    while i < count
        invariant
            i <= count,
            whole == selections_of(count as nat, selected@, restrictions_model(restrictions@)),
            r.deep_view() == whole.take(i as int),
        decreases count - i,
    {
        let selection: CommitSelection = if !has_index(selected, i) {
            CommitSelection::Skip
        } else {
            match restrictions.get(&i) {
                None => CommitSelection::Whole,
                Some(files) => if files.is_empty() {
                    CommitSelection::Skip
                } else {
                    CommitSelection::Files(copy_strings(files))
                },
            }
        };
        assert(selection.deep_view() == whole[i as int]);
        put(&mut r, selection);
        assert(whole.take(i + 1) =~= whole.take(i as int).push(whole[i as int]));
        i = i + 1;
    }
    assert(whole.take(i as int) =~= whole);
    r
}

/// How many commits are applied as a whole, applied in part, and left out.
#[derive(Clone, Copy, Debug, PartialEq, Eq, Structural)]
pub struct Counts {
    pub whole: usize,
    pub partial: usize,
    pub skipped: usize,
}

/// The number of commits applied as a whole.
pub open spec fn whole_count(selections: Seq<SelectionModel>) -> nat {
    selections.filter(|s: SelectionModel| s is Whole).len()
}

/// The number of commits applied in part.
pub open spec fn partial_count(selections: Seq<SelectionModel>) -> nat {
    selections.filter(|s: SelectionModel| s is Files).len()
}

/// The number of commits left out.
pub open spec fn skipped_count(selections: Seq<SelectionModel>) -> nat {
    selections.filter(|s: SelectionModel| s is Skip).len()
}

/// The number of commits applied, as a whole or in part.
pub open spec fn active_count(selections: Seq<SelectionModel>) -> nat {
    whole_count(selections) + partial_count(selections)
}

proof fn lemma_counts_push(selections: Seq<SelectionModel>, s: SelectionModel)
    ensures
        whole_count(selections.push(s)) == whole_count(selections) + if s is Whole {
            1nat
        } else {
            0nat
        },
        partial_count(selections.push(s)) == partial_count(selections) + if s is Files {
            1nat
        } else {
            0nat
        },
        skipped_count(selections.push(s)) == skipped_count(selections) + if s is Skip {
            1nat
        } else {
            0nat
        },
{
    reveal(Seq::filter);
    assert(selections.push(s).drop_last() =~= selections);
}

/// One more commit adds to those applied unless it is left out.
pub proof fn lemma_active_push(selections: Seq<SelectionModel>, s: SelectionModel)
    ensures
        active_count(selections.push(s)) == active_count(selections) + if s is Skip {
            0nat
        } else {
            1nat
        },
{
    lemma_counts_push(selections, s);
}

/// Counts the commits applied as a whole, applied in part, and left out.
pub fn count_selections(selections: &Vec<CommitSelection>) -> (r: Counts)
    ensures
        r.whole == whole_count(selections.deep_view()),
        r.partial == partial_count(selections.deep_view()),
        r.skipped == skipped_count(selections.deep_view()),
        r.whole + r.partial + r.skipped == selections@.len(),
{
    let ghost model = selections.deep_view();
    let mut r: Counts = Counts { whole: 0, partial: 0, skipped: 0 };
    let total: usize = selections.len();
    let mut i: usize = 0;
    proof {
        reveal(Seq::filter);
        assert(model.take(0) =~= Seq::<SelectionModel>::empty());
    }
    while i < total
        invariant
            i <= total,
            total == selections@.len(),
            model == selections.deep_view(),
            r.whole == whole_count(model.take(i as int)),
            r.partial == partial_count(model.take(i as int)),
            r.skipped == skipped_count(model.take(i as int)),
            r.whole + r.partial + r.skipped == i,
        decreases total - i,
    {
        proof {
            lemma_counts_push(model.take(i as int), model[i as int]);
            assert(model.take(i + 1) =~= model.take(i as int).push(model[i as int]));
            assert(model[i as int] == selections@[i as int].deep_view());
        }
        match &selections[i] {
            CommitSelection::Skip => { r.skipped = r.skipped + 1; },
            CommitSelection::Whole => { r.whole = r.whole + 1; },
            CommitSelection::Files(_) => { r.partial = r.partial + 1; },
        }
        i = i + 1;
    }
    assert(model.take(i as int) =~= model);
    r
}

/// Every commit is applied as a whole, applied in part, or left out.
pub proof fn law_counts_cover_all(selections: Seq<SelectionModel>)
    ensures
        active_count(selections) + skipped_count(selections) == selections.len(),
    decreases selections.len(),
{
    if selections.len() == 0 {
        reveal(Seq::filter);
    } else {
        law_counts_cover_all(selections.drop_last());
        lemma_counts_push(selections.drop_last(), selections.last());
        assert(selections.drop_last().push(selections.last()) =~= selections);
    }
}

/// Nothing is applied exactly if every commit is left out.
pub proof fn law_nothing_active_means_all_skipped(selections: Seq<SelectionModel>)
    ensures
        active_count(selections) == 0 <==> forall|i: int|
            0 <= i < selections.len() ==> #[trigger] selections[i] is Skip,
    decreases selections.len(),
{
    if selections.len() == 0 {
        reveal(Seq::filter);
    } else {
        let before = selections.drop_last();
        law_nothing_active_means_all_skipped(before);
        lemma_counts_push(before, selections.last());
        assert(before.push(selections.last()) =~= selections);
        if active_count(selections) == 0 {
            assert forall|i: int| 0 <= i < selections.len() implies #[trigger] selections[i] is Skip by {
                if i < before.len() {
                    assert(before[i] is Skip);
                }
            }
        } else if active_count(before) > 0 {
            let i = choose|i: int| 0 <= i < before.len() && !(#[trigger] before[i] is Skip);
            assert(!(selections[i] is Skip));
        }
    }
}

/// A commit that was not selected is left out, and one that was selected is
/// applied unless no file of it was picked.
pub proof fn law_only_selected_commits_are_applied(
    count: nat,
    selected: Seq<usize>,
    restrictions: Map<usize, Seq<Text>>,
    i: usize,
)
    requires
        i < count,
    ensures
        !(selections_of(count, selected, restrictions)[i as int] is Skip) <==> selected.contains(i)
            && !(restrictions.contains_key(i) && restrictions[i].len() == 0),
{
}

/// A restriction keeps only files of the commit, in the order in which they were
/// picked.
pub proof fn law_restriction_keeps_picked_files(files: Seq<Text>, picked: Seq<usize>, i: int)
    requires
        all_below(picked, files.len()),
        restriction(files, picked) is Some,
        0 <= i < restriction(files, picked)->Some_0.len(),
    ensures
        restriction(files, picked)->Some_0.len() == picked.len(),
        restriction(files, picked)->Some_0[i] == files[picked[i] as int],
        files.contains(restriction(files, picked)->Some_0[i]),
{
    assert(picked[i] < files.len());
}

/// Picking every file once is no restriction.
pub proof fn law_picking_all_files_is_no_restriction(files: Seq<Text>, picked: Seq<usize>)
    requires
        picked.len() == files.len(),
        files.len() > 0,
    ensures
        restriction(files, picked) is None,
{
}

/// A choice that names no file twice leaves the commit unrestricted exactly if it
/// is a choice of every file, and there are files. Otherwise the commit is
/// restricted to the files picked, each where it was picked: there are as many of
/// them as positions picked, and no others.
pub proof fn law_unrestricted_means_every_file_picked(files: Seq<Text>, picked: Seq<usize>)
    requires
        picked.no_duplicates(),
        forall|i: int| 0 <= i < picked.len() ==> #[trigger] picked[i] < files.len(),
        files.len() <= usize::MAX,
    ensures
        restriction(files, picked) is None <==> files.len() > 0 && forall|p: int|
            0 <= p < files.len() ==> picked.contains(#[trigger] (p as usize)),
        restriction(files, picked) matches Some(chosen) ==> {
            &&& chosen.len() == picked.len()
            &&& forall|i: int|
                0 <= i < picked.len() ==> #[trigger] chosen[i] == files[picked[i] as int]
        },
{
    let n = files.len() as int;
    let seen = picked.map_values(|p: usize| p as int);
    assert(seen.no_duplicates());
    seen.unique_seq_to_set();
    let all = set_int_range(0, n);
    lemma_int_range(0, n);
    assert(seen.to_set().subset_of(all)) by {
        assert forall|x: int| seen.to_set().contains(x) implies all.contains(x) by {
            let i = choose|i: int| 0 <= i < seen.len() && seen[i] == x;
            assert(picked[i] < files.len());
        }
    }
    lemma_len_subset(seen.to_set(), all);
    if picked.len() >= n {
        lemma_subset_equality(seen.to_set(), all);
        assert forall|p: int| 0 <= p < n implies picked.contains(#[trigger] (p as usize)) by {
            assert(all.contains(p));
            assert(seen.contains(p));
            let i = choose|i: int| 0 <= i < seen.len() && seen[i] == p;
            assert(picked[i] == p as usize);
        }
    } else if forall|p: int| 0 <= p < n ==> picked.contains(#[trigger] (p as usize)) {
        assert forall|x: int| all.contains(x) implies seen.to_set().contains(x) by {
            assert(picked.contains(x as usize));
            let i = choose|i: int| 0 <= i < picked.len() && picked[i] == x as usize;
            assert(seen[i] == x);
        }
        lemma_len_subset(all, seen.to_set());
        assert(false);
    }
}

/// A file that was not picked is never applied along: with it, the commit is
/// restricted, and not to that position.
pub proof fn law_files_not_picked_stay_out(files: Seq<Text>, picked: Seq<usize>, left: int)
    requires
        picked.no_duplicates(),
        forall|i: int| 0 <= i < picked.len() ==> #[trigger] picked[i] < files.len(),
        files.len() <= usize::MAX,
        0 <= left < files.len(),
        !picked.contains(left as usize),
    ensures
        restriction(files, picked) is Some,
        restriction(files, picked)->Some_0.contains(files[left]) ==> exists|i: int|
            0 <= i < picked.len() && #[trigger] picked[i] != left && files[picked[i] as int]
                == files[left],
{
    law_unrestricted_means_every_file_picked(files, picked);
    let chosen = restriction(files, picked)->Some_0;
    if chosen.contains(files[left]) {
        let i = choose|i: int| 0 <= i < chosen.len() && chosen[i] == files[left];
        assert(picked.contains(picked[i]));
    }
}

/// Whatever is picked, a commit is restricted exactly if fewer positions were
/// picked than it has files, or none; and then to the files at those positions, one
/// for one.
pub proof fn law_fewer_than_all_restrict(files: Seq<Text>, picked: Seq<usize>)
    ensures
        restriction(files, picked) is Some <==> picked.len() == 0 || picked.len() < files.len(),
        restriction(files, picked) matches Some(chosen) ==> {
            &&& chosen.len() == picked.len()
            &&& forall|i: int|
                0 <= i < picked.len() ==> #[trigger] chosen[i] == files[picked[i] as int]
        },
{
}

/// What becomes of each commit: one that was not selected, or is restricted to no
/// files, is left out; one that was selected and not restricted is applied as a
/// whole; and of one that is restricted, those files are applied.
pub proof fn law_what_becomes_of_each_commit(
    count: nat,
    selected: Seq<usize>,
    restrictions: Map<usize, Seq<Text>>,
    i: usize,
)
    requires
        i < count,
    ensures
        selections_of(count, selected, restrictions).len() == count,
        !selected.contains(i) ==> selections_of(count, selected, restrictions)[i as int]
            == SelectionModel::Skip,
        selected.contains(i) && !restrictions.dom().contains(i) ==> selections_of(
            count,
            selected,
            restrictions,
        )[i as int] == SelectionModel::Whole,
        selected.contains(i) && restrictions.dom().contains(i) ==> selections_of(
            count,
            selected,
            restrictions,
        )[i as int] == if restrictions[i].len() == 0 {
            SelectionModel::Skip
        } else {
            SelectionModel::Files(restrictions[i])
        },
{
}

/// Each commit is counted once, under what becomes of it.
pub proof fn law_each_commit_is_counted_once(selections: Seq<SelectionModel>, s: SelectionModel)
    ensures
        whole_count(Seq::empty()) == 0,
        partial_count(Seq::empty()) == 0,
        skipped_count(Seq::empty()) == 0,
        active_count(selections) == whole_count(selections) + partial_count(selections),
        match s {
            SelectionModel::Skip => {
                &&& skipped_count(selections.push(s)) == skipped_count(selections) + 1
                &&& whole_count(selections.push(s)) == whole_count(selections)
                &&& partial_count(selections.push(s)) == partial_count(selections)
            },
            SelectionModel::Whole => {
                &&& skipped_count(selections.push(s)) == skipped_count(selections)
                &&& whole_count(selections.push(s)) == whole_count(selections) + 1
                &&& partial_count(selections.push(s)) == partial_count(selections)
            },
            SelectionModel::Files(_) => {
                &&& skipped_count(selections.push(s)) == skipped_count(selections)
                &&& whole_count(selections.push(s)) == whole_count(selections)
                &&& partial_count(selections.push(s)) == partial_count(selections) + 1
            },
        },
{
    reveal(Seq::filter);
    lemma_counts_push(selections, s);
}

/// The models of selections and restrictions hold all there is.
pub proof fn law_models_hold_every_selection(
    selection: CommitSelection,
    m: Map<usize, Vec<String>>,
    index: usize,
)
    ensures
        selection is Skip <==> selection.deep_view() is Skip,
        selection is Whole <==> selection.deep_view() is Whole,
        selection matches CommitSelection::Files(files) ==> selection.deep_view()
            == SelectionModel::Files(files.deep_view()),
        restrictions_model(m).dom().contains(index) <==> m.dom().contains(index),
        m.dom().contains(index) ==> restrictions_model(m)[index] == m[index].deep_view(),
{
}

} // verus!
