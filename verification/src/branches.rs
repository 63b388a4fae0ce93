//! Branches: listing them, preselecting one, and naming a new one.

use vstd::prelude::*;
use crate::git::{git, Command, CommandModel};
use crate::lists::{
    distinct, drop_repeats, first_place, lemma_distinct_no_repetition, lemma_distinct_order,
    lemma_distinct_prefix, lemma_distinct_same_items, lemma_first_place_parts, put_all,
};
use crate::text::{
    entries, entries_of, is_trimmed, lemma_tidy_items, lines, same, strip_all, strip_prefixes, Text,
};

verus! {

/// The command that lists local branches.
pub open spec fn local_query_model() -> CommandModel {
    git("branch"@).arg("--format=%(refname:short)"@)
}

/// The command that lists local branches.
pub fn local_query() -> (r: Command)
    ensures
        r.deep_view() == local_query_model(),
{
    Command::git("branch").arg("--format=%(refname:short)")
}

/// The command that lists remote branches.
pub open spec fn remote_query_model() -> CommandModel {
    git("branch"@).arg("-r"@).arg("--format=%(refname:short)"@)
}

/// The command that lists remote branches.
pub fn remote_query() -> (r: Command)
    ensures
        r.deep_view() == remote_query_model(),
{
    Command::git("branch").arg("-r").arg("--format=%(refname:short)")
}

/// The branches of the two listings: local ones first, none twice.
pub open spec fn merged(local: Text, remote: Text) -> Seq<Text> {
    distinct(entries(local) + entries(remote))
}

/// The branches of the two listings: local ones first, none twice.
pub fn get_branches(local: &str, remote: &str) -> (r: Vec<String>)
    ensures
        r.deep_view() == merged(local@, remote@),
{
    let mut all: Vec<String> = entries_of(local);
    put_all(&mut all, entries_of(remote));
    drop_repeats(&all)
}

/// A branch is offered exactly if one of the listings has it, and only once.
pub proof fn law_branches_are_those_listed(local: Text, remote: Text, branch: Text)
    ensures
        merged(local, remote).no_duplicates(),
        merged(local, remote).contains(branch) <==> entries(local).contains(branch) || entries(
            remote,
        ).contains(branch),
{
    let a = entries(local);
    let b = entries(remote);
    lemma_distinct_no_repetition(a + b);
    lemma_distinct_same_items(a + b, branch);
    if a.contains(branch) {
        let i = choose|i: int| 0 <= i < a.len() && a[i] == branch;
        assert((a + b)[i] == branch);
    }
    if b.contains(branch) {
        let i = choose|i: int| 0 <= i < b.len() && b[i] == branch;
        assert((a + b)[a.len() + i] == branch);
    }
    if (a + b).contains(branch) {
        let i = choose|i: int| 0 <= i < (a + b).len() && (a + b)[i] == branch;
        assert(i < a.len() ==> a[i] == branch);
        assert(i >= a.len() ==> b[i - a.len()] == branch);
    }
}

/// The branches offered start with the local ones.
pub proof fn law_local_branches_come_first(local: Text, remote: Text)
    ensures
        distinct(entries(local)).is_prefix_of(merged(local, remote)),
{
    let all = entries(local) + entries(remote);
    lemma_distinct_prefix(all, entries(local).len() as int);
    assert(all.take(entries(local).len() as int) =~= entries(local));
}

/// The branches offered stand in the order of their first places in the listings,
/// the local one followed by the remote one.
pub proof fn law_branches_keep_the_order_of_the_listings(
    local: Text,
    remote: Text,
    i: int,
    j: int,
)
    requires
        0 <= i < j < merged(local, remote).len(),
    ensures
        ({
            let listed = entries(local) + entries(remote);
            first_place(listed, merged(local, remote)[i]) < first_place(
                listed,
                merged(local, remote)[j],
            ) < listed.len()
        }),
{
    lemma_distinct_order(entries(local) + entries(remote), i, j);
}

/// No branch offered is empty or has white space around it.
pub proof fn law_branches_are_tidy(local: Text, remote: Text, i: int)
    requires
        0 <= i < merged(local, remote).len(),
    ensures
        merged(local, remote)[i].len() > 0,
        is_trimmed(merged(local, remote)[i]),
{
    let branch = merged(local, remote)[i];
    law_branches_are_those_listed(local, remote, branch);
    assert(merged(local, remote).contains(branch));
    if entries(local).contains(branch) {
        let j = choose|j: int| 0 <= j < entries(local).len() && entries(local)[j] == branch;
        lemma_tidy_items(lines(local), j);
    } else {
        let j = choose|j: int| 0 <= j < entries(remote).len() && entries(remote)[j] == branch;
        lemma_tidy_items(lines(remote), j);
    }
}

/// Whether `branch` is `preferred`, here or on `origin`.
pub open spec fn is_preferred(branch: Text, preferred: Text) -> bool {
    branch == preferred || branch == "origin/"@ + preferred
}

/// The position of the first preferred branch, or the number of branches.
pub open spec fn find_preferred(branches: Seq<Text>, preferred: Text) -> int
    decreases branches.len(),
{
    if branches.len() == 0 || is_preferred(branches[0], preferred) {
        0
    } else {
        1 + find_preferred(branches.skip(1), preferred)
    }
}

/// The position of the branch to preselect: that of the first preferred one, or
/// else the first of all.
pub open spec fn default_index(branches: Seq<Text>, preferred: Text) -> int {
    let n = find_preferred(branches, preferred);
    if n < branches.len() {
        n
    } else {
        0
    }
}

proof fn lemma_find_preferred(branches: Seq<Text>, preferred: Text, n: int)
    requires
        0 <= n <= branches.len(),
        forall|i: int| 0 <= i < n ==> !is_preferred(#[trigger] branches[i], preferred),
        n < branches.len() ==> is_preferred(branches[n], preferred),
    ensures
        find_preferred(branches, preferred) == n,
    decreases n,
{
    if n > 0 {
        assert(!is_preferred(branches[0], preferred));
        assert forall|i: int| 0 <= i < n - 1 implies !is_preferred(
            #[trigger] branches.skip(1)[i],
            preferred,
        ) by {
            assert(branches.skip(1)[i] == branches[i + 1]);
        }
        lemma_find_preferred(branches.skip(1), preferred, n - 1);
    }
}

/// A preferred branch is preselected wherever there is one, the earliest if
/// there are several; and the preselection is always one of the branches.
pub proof fn law_preferred_branch_is_preselected(branches: Seq<Text>, preferred: Text, i: int)
    requires
        0 <= i < branches.len(),
    ensures
        0 <= default_index(branches, preferred) < branches.len(),
        is_preferred(branches[i], preferred) ==> default_index(branches, preferred) <= i
            && is_preferred(branches[default_index(branches, preferred)], preferred),
{
    lemma_find_preferred_parts(branches, preferred);
    if is_preferred(branches[i], preferred) {
        lemma_find_preferred_hit(branches, preferred, i);
    }
}

proof fn lemma_find_preferred_parts(branches: Seq<Text>, preferred: Text)
    ensures
        0 <= find_preferred(branches, preferred) <= branches.len(),
        find_preferred(branches, preferred) < branches.len() ==> is_preferred(
            branches[find_preferred(branches, preferred)],
            preferred,
        ),
    decreases branches.len(),
{
    if branches.len() > 0 && !is_preferred(branches[0], preferred) {
        lemma_find_preferred_parts(branches.skip(1), preferred);
    }
}

proof fn lemma_find_preferred_hit(branches: Seq<Text>, preferred: Text, i: int)
    requires
        0 <= i < branches.len(),
        is_preferred(branches[i], preferred),
    ensures
        find_preferred(branches, preferred) <= i,
    decreases branches.len(),
{
    if !is_preferred(branches[0], preferred) {
        assert(branches.skip(1)[i - 1] == branches[i]);
        lemma_find_preferred_hit(branches.skip(1), preferred, i - 1);
    }
}

/// The position of the branch to preselect: the first that is `preferred` or
/// `origin/preferred`, or else the first of all.
pub fn preselect(branches: &Vec<String>, preferred: &str) -> (r: usize)
    ensures
        r == default_index(branches.deep_view(), preferred@),
        branches@.len() > 0 ==> r < branches@.len(),
{
    let remote: String = "origin/".to_string().concat(preferred);
    let ghost model = branches.deep_view();
    let mut i: usize = 0;
    while i < branches.len()
        invariant
            i <= branches@.len(),
            model == branches.deep_view(),
            remote@ == "origin/"@ + preferred@,
            forall|j: int| 0 <= j < i ==> !is_preferred(#[trigger] model[j], preferred@),
        decreases branches@.len() - i,
    {
        assert(model[i as int] == branches@[i as int]@);
        if same(branches[i].as_str(), preferred) || same(branches[i].as_str(), remote.as_str()) {
            proof {
                lemma_find_preferred(model, preferred@, i as int);
            }
            return i;
        }
        i = i + 1;
    }
    proof {
        lemma_find_preferred(model, preferred@, i as int);
    }
    0
}

/// The branch at `index`.
pub fn select_branch(branches: &Vec<String>, index: usize) -> (r: String)
    requires
        index < branches@.len(),
    ensures
        r@ == branches.deep_view()[index as int],
{
    branches[index].clone()
}

/// The name suggested for the new branch.
pub open spec fn suggested(source: Text) -> Text {
    "pr/"@ + strip_all(strip_all(source, "origin/"@), "remotes/origin/"@)
}

/// The name suggested for the new branch: `pr/` and the name of the source
/// branch without the remote that it is on.
pub fn suggest_name(source: &str) -> (r: String)
    ensures
        r@ == suggested(source@),
{
    let a: String = strip_prefixes(source, "origin/");
    let b: String = strip_prefixes(a.as_str(), "remotes/origin/");
    "pr/".to_string().concat(b.as_str())
}

/// A branch and its counterpart on `origin` get the same suggestion.
pub proof fn law_suggestion_ignores_origin(branch: Text)
    ensures
        suggested("origin/"@ + branch) == suggested(branch),
{
    reveal_strlit("origin/");
    let prefix = "origin/"@;
    assert(prefix.is_prefix_of(prefix + branch));
    assert((prefix + branch).skip(prefix.len() as int) =~= branch);
}

/// A branch name that no remote prefix starts is suggested as it is, after `pr/`.
pub proof fn law_suggestion_keeps_plain_names(branch: Text)
    requires
        !"origin/"@.is_prefix_of(branch),
        !"remotes/origin/"@.is_prefix_of(branch),
    ensures
        suggested(branch) == "pr/"@ + branch,
{
}

/// The listings asked for, word by word: that of the remote branches is asked for
/// with `-r`, and that is the difference.
pub proof fn law_listings_word_by_word()
    ensures
        local_query_model().args == seq!["branch"@, "--format=%(refname:short)"@],
        local_query_model().input is None,
        remote_query_model().args == seq!["branch"@, "-r"@, "--format=%(refname:short)"@],
        remote_query_model().input is None,
        remote_query_model() != local_query_model(),
{
    assert(local_query_model().args =~= seq!["branch"@, "--format=%(refname:short)"@]);
    assert(remote_query_model().args =~= seq!["branch"@, "-r"@, "--format=%(refname:short)"@]);
    assert(remote_query_model().args.len() != local_query_model().args.len());
}

/// Every branch offered stands somewhere in the listings, the local one followed by
/// the remote one, before every place of a branch offered later.
pub proof fn law_branches_offered_earlier_were_listed_earlier(
    local: Text,
    remote: Text,
    i: int,
    j: int,
)
    requires
        0 <= i < j < merged(local, remote).len(),
    ensures
        ({
            let listed = entries(local) + entries(remote);
            exists|p: int|
                0 <= p < listed.len() && #[trigger] listed[p] == merged(local, remote)[i] && forall|
                    q: int,
                |
                    0 <= q < listed.len() && #[trigger] listed[q] == merged(local, remote)[j]
                        ==> p < q
        }),
{
    let listed = entries(local) + entries(remote);
    let x = merged(local, remote)[i];
    let y = merged(local, remote)[j];
    law_branches_keep_the_order_of_the_listings(local, remote, i, j);
    lemma_first_place_parts(listed, x);
    lemma_first_place_parts(listed, y);
    let p = first_place(listed, x);
    assert(listed[p] == x);
}

/// The branch preselected is the first that is the preferred one, or the preferred
/// one on `origin`; without either it is the first of all.
pub proof fn law_preselected_is_the_first_preferred(branches: Seq<Text>, preferred: Text, n: int)
    requires
        0 <= n < branches.len(),
        forall|i: int|
            0 <= i < n ==> #[trigger] branches[i] != preferred && branches[i] != "origin/"@
                + preferred,
    ensures
        branches[n] == preferred || branches[n] == "origin/"@ + preferred ==> default_index(
            branches,
            preferred,
        ) == n,
        n == branches.len() - 1 && branches[n] != preferred && branches[n] != "origin/"@
            + preferred ==> default_index(branches, preferred) == 0,
{
    if is_preferred(branches[n], preferred) {
        lemma_find_preferred(branches, preferred, n);
    } else if n == branches.len() - 1 {
        lemma_find_preferred(branches, preferred, n + 1);
    }
}

/// Without branches, the first position is preselected.
pub proof fn law_preselected_without_branches(preferred: Text)
    ensures
        default_index(Seq::empty(), preferred) == 0,
{
}

/// `prefix`, `n` times, and then `text`.
pub open spec fn after_prefixes(prefix: Text, n: nat, text: Text) -> Text
    decreases n,
{
    if n == 0 {
        text
    } else {
        prefix + after_prefixes(prefix, (n - 1) as nat, text)
    }
}

proof fn lemma_prefixes_stripped(text: Text, prefix: Text) -> (n: nat)
    requires
        prefix.len() > 0,
    ensures
        text == after_prefixes(prefix, n, strip_all(text, prefix)),
        !prefix.is_prefix_of(strip_all(text, prefix)),
    decreases text.len(),
{
    if prefix.is_prefix_of(text) {
        let rest = text.skip(prefix.len() as int);
        let n = lemma_prefixes_stripped(rest, prefix);
        assert(text =~= prefix + rest);
        n + 1
    } else {
        0
    }
}

/// The name suggested is `pr/` and the source without what stands before its name:
/// first any number of `origin/`, then any number of `remotes/origin/`, and all of
/// them.
pub proof fn law_suggestion_leaves_out_the_remote(source: Text)
    ensures
        exists|n: nat, m: nat, name: Text|
            {
                &&& source == #[trigger] after_prefixes(
                    "origin/"@,
                    n,
                    after_prefixes("remotes/origin/"@, m, name),
                )
                &&& suggested(source) == "pr/"@ + name
                &&& !"remotes/origin/"@.is_prefix_of(name)
                &&& !"origin/"@.is_prefix_of(after_prefixes("remotes/origin/"@, m, name))
            },
{
    reveal_strlit("origin/");
    reveal_strlit("remotes/origin/");
    let inner = strip_all(source, "origin/"@);
    let name = strip_all(inner, "remotes/origin/"@);
    let n = lemma_prefixes_stripped(source, "origin/"@);
    let m = lemma_prefixes_stripped(inner, "remotes/origin/"@);
    assert(source == after_prefixes("origin/"@, n, after_prefixes("remotes/origin/"@, m, name)));
}

} // verus!
