//! The wording of everything that is said, piece by piece, and where it goes.

use vstd::prelude::*;
use crate::commits::CommitModel;
use crate::messages::{
    aborted, all_applied, all_files, applied, banner, blank, commit_head, commit_lines, conflicts,
    create_question, created, creating, described, exiting, failed, fetching, finding,
    found_branches, found_commits, interrupted, listing, listing_head, merge_found, no_commits,
    no_files, nothing_to_do, noun, picking, preview, push_failed, push_question, push_skipped,
    pushed, pushing, question, ready, repository, selected_commits, selection_failed, some_files,
    source_chosen, summary, taking_files, target_chosen, uncommitted, LineModel, Stream,
};
use crate::style::{SpanModel, Tone};
use crate::text::{
    decimal, joined, law_lines_put_together_are_the_text, lines, padded, repeated,
    without_last_feed, without_returns, Text,
};
use crate::truncate::shortened;

verus! {

/// The spans are these pieces of text, in these tones.
pub open spec fn is_worded(spans: Seq<SpanModel>, pieces: Seq<(Tone, Text)>) -> bool {
    &&& spans.len() == pieces.len()
    &&& forall|i: int|
        0 <= i < pieces.len() ==> (#[trigger] spans[i]).tone == pieces[i].0 && spans[i].text
            == pieces[i].1
}

/// The line goes to `stream` and is made of these pieces of text, in these tones.
pub open spec fn says(line: LineModel, stream: Stream, pieces: Seq<(Tone, Text)>) -> bool {
    line.stream == stream && is_worded(line.spans, pieces)
}

/// What is said at the start, and of the repository.
pub proof fn law_opening_is_worded(
    root: Text,
)
    ensures
        banner().len() == 6,
        says(banner()[0], Stream::Output, Seq::empty()),
        says(
            banner()[1],
            Stream::Output,
            seq![
                (Tone::BrightGreen, "╔═══════════════════════════════════════════╗"@),
            ],
        ),
        says(
            banner()[2],
            Stream::Output,
            seq![
                (Tone::BoldBrightGreen, "║           PR Prep - Cherry Pick           ║"@),
            ],
        ),
        says(
            banner()[3],
            Stream::Output,
            seq![
                (Tone::BrightGreen, "║    Prepare hand-selected branches for PRs ║"@),
            ],
        ),
        says(
            banner()[4],
            Stream::Output,
            seq![
                (Tone::BrightGreen, "╚═══════════════════════════════════════════╝"@),
            ],
        ),
        says(banner()[5], Stream::Output, Seq::empty()),
        blank().len() == 1,
        says(blank()[0], Stream::Output, Seq::empty()),
        repository(root).len() == 1,
        says(
            repository(root)[0],
            Stream::Output,
            seq![
                (Tone::Plain, "  "@),
                (Tone::Green, "✓"@),
                (Tone::Plain, " Repository: "@),
                (Tone::Yellow, root),
                (Tone::Plain, "\n"@),
            ],
        ),
        uncommitted().len() == 2,
        says(
            uncommitted()[0],
            Stream::Output,
            seq![
                (Tone::Plain, "  "@),
                (Tone::Yellow, "⚠"@),
                (Tone::Plain, " Warning: You have uncommitted changes."@),
            ],
        ),
        says(
            uncommitted()[1],
            Stream::Output,
            seq![
                (Tone::Plain, "           It's recommended to stash or commit them first.\n"@),
            ],
        ),
        exiting().len() == 1,
        says(
            exiting()[0],
            Stream::Output,
            seq![
                (Tone::Plain, "  Exiting. Please commit or stash your changes first."@),
            ],
        ),
{
}

/// What is said of the branches and the choice among them.
pub proof fn law_branches_are_worded(
    count: usize,
    cause: Text,
    target: Text,
    source: Text,
)
    ensures
        fetching().len() == 1,
        says(
            fetching()[0],
            Stream::Output,
            seq![
                (Tone::Plain, "  "@),
                (Tone::Blue, "⟳"@),
                (Tone::Plain, " Fetching branches..."@),
            ],
        ),
        found_branches(count).len() == 1,
        says(
            found_branches(count)[0],
            Stream::Output,
            seq![
                (Tone::Plain, "  "@),
                (Tone::Green, "✓"@),
                (Tone::Plain, " Found "@),
                (Tone::Yellow, decimal(count as nat)),
                (Tone::Plain, " branches\n"@),
            ],
        ),
        selection_failed(cause).len() == 1,
        says(
            selection_failed(cause)[0],
            Stream::Errors,
            seq![
                (Tone::Plain, "  "@),
                (Tone::Yellow, "⚠"@),
                (Tone::Plain, " Selection failed: "@),
                (Tone::Plain, cause),
            ],
        ),
        target_chosen(target).len() == 2,
        says(
            target_chosen(target)[0],
            Stream::Output,
            seq![
                (Tone::Plain, "  "@),
                (Tone::Green, "✓"@),
                (Tone::Plain, " Target branch: "@),
                (Tone::Cyan, target),
            ],
        ),
        says(target_chosen(target)[1], Stream::Output, Seq::empty()),
        source_chosen(source).len() == 2,
        says(
            source_chosen(source)[0],
            Stream::Output,
            seq![
                (Tone::Plain, "  "@),
                (Tone::Green, "✓"@),
                (Tone::Plain, " Source branch: "@),
                (Tone::Cyan, source),
            ],
        ),
        says(source_chosen(source)[1], Stream::Output, Seq::empty()),
{
}

/// What is said of the commits and the choice among them.
pub proof fn law_commits_are_worded(
    source: Text,
    target: Text,
    count: usize,
    picked: usize,
)
    ensures
        finding(source, target).len() == 1,
        says(
            finding(source, target)[0],
            Stream::Output,
            seq![
                (Tone::Plain, "  "@),
                (Tone::Blue, "⟳"@),
                (Tone::Plain, " Finding commits on "@),
                (Tone::Cyan, source),
                (Tone::Plain, " not on "@),
                (Tone::Cyan, target),
                (Tone::Plain, "..."@),
            ],
        ),
        no_commits().len() == 2,
        says(
            no_commits()[0],
            Stream::Output,
            seq![
                (Tone::Plain, "  "@),
                (Tone::Blue, "ℹ"@),
                (Tone::Plain, " No new commits found."@),
            ],
        ),
        says(
            no_commits()[1],
            Stream::Output,
            seq![
                (Tone::Plain, "  The source branch is already up to date with the target."@),
            ],
        ),
        found_commits(count).len() == 1,
        says(
            found_commits(count)[0],
            Stream::Output,
            seq![
                (Tone::Plain, "  "@),
                (Tone::Green, "✓"@),
                (Tone::Plain, " Found "@),
                (Tone::Yellow, decimal(count as nat)),
                (Tone::Plain, " commit(s)\n"@),
            ],
        ),
        listing_head(source, target).len() == 3,
        says(
            listing_head(source, target)[0],
            Stream::Output,
            seq![
                (Tone::Dimmed, repeated('─', 64)),
            ],
        ),
        says(
            listing_head(source, target)[1],
            Stream::Output,
            seq![
                (Tone::Plain, "  "@),
                (Tone::Bold, "📋"@),
                (Tone::Plain, " Commits on "@),
                (Tone::Cyan, source),
                (Tone::Plain, " not on "@),
                (Tone::Cyan, target),
                (Tone::Plain, ":"@),
            ],
        ),
        says(listing_head(source, target)[2], Stream::Output, Seq::empty()),
        selected_commits(picked, count).len() == 2,
        says(selected_commits(picked, count)[0], Stream::Output, Seq::empty()),
        says(
            selected_commits(picked, count)[1],
            Stream::Output,
            seq![
                (Tone::Plain, "  "@),
                (Tone::Green, "✓"@),
                (Tone::Plain, " Selected "@),
                (Tone::Yellow, decimal(picked as nat)),
                (Tone::Plain, " of "@),
                (Tone::Yellow, decimal(count as nat)),
                (Tone::Plain, " commit(s)\n"@),
            ],
        ),
{
}

/// What is said of the files of a commit and the choice among them.
pub proof fn law_files_are_worded(
    short: Text,
    subject: Text,
    picked: usize,
    count: usize,
)
    ensures
        commit_head(short, subject).len() == 3,
        says(
            commit_head(short, subject)[0],
            Stream::Output,
            seq![
                (Tone::Dimmed, repeated('─', 64)),
            ],
        ),
        says(
            commit_head(short, subject)[1],
            Stream::Output,
            seq![
                (Tone::Plain, "  "@),
                (Tone::Blue, "📄"@),
                (Tone::Plain, " "@),
                (Tone::BrightGreen, short),
                (Tone::Plain, "  "@),
                (Tone::Bold, subject),
            ],
        ),
        says(commit_head(short, subject)[2], Stream::Output, Seq::empty()),
        some_files(picked, count).len() == 1,
        says(
            some_files(picked, count)[0],
            Stream::Output,
            seq![
                (Tone::Plain, "  "@),
                (Tone::Green, "✓"@),
                (Tone::Plain, " Selected "@),
                (Tone::Yellow, decimal(picked as nat)),
                (Tone::Plain, " of "@),
                (Tone::Yellow, decimal(count as nat)),
                (Tone::Plain, " file(s)\n"@),
            ],
        ),
        no_files().len() == 1,
        says(
            no_files()[0],
            Stream::Output,
            seq![
                (Tone::Plain, "  "@),
                (Tone::Dimmed, "→"@),
                (Tone::Plain, " No files selected, skipping commit.\n"@),
            ],
        ),
        all_files().len() == 1,
        says(
            all_files()[0],
            Stream::Output,
            seq![
                (Tone::Plain, "  "@),
                (Tone::Green, "✓"@),
                (Tone::Plain, " Including all files\n"@),
            ],
        ),
{
}

/// What is said of what is about to be applied, and of the new branch.
pub proof fn law_summary_is_worded(
    target: Text,
    source: Text,
    whole: usize,
    partial: usize,
    skipped: usize,
    branch: Text,
)
    ensures
        summary(target, source, whole, partial, skipped).len() == 7,
        says(
            summary(target, source, whole, partial, skipped)[0],
            Stream::Output,
            seq![
                (Tone::BrightGreen, repeated('═', 64)),
            ],
        ),
        says(
            summary(target, source, whole, partial, skipped)[1],
            Stream::Output,
            seq![
                (Tone::Plain, "  "@),
                (Tone::Bold, "📋"@),
                (Tone::Plain, " Summary"@),
            ],
        ),
        says(
            summary(target, source, whole, partial, skipped)[2],
            Stream::Output,
            seq![
                (Tone::BrightGreen, repeated('═', 64)),
            ],
        ),
        says(
            summary(target, source, whole, partial, skipped)[3],
            Stream::Output,
            seq![
                (Tone::Plain, "  "@),
                (Tone::White, "◉"@),
                (Tone::Plain, "  Target: "@),
                (Tone::Cyan, target),
            ],
        ),
        says(
            summary(target, source, whole, partial, skipped)[4],
            Stream::Output,
            seq![
                (Tone::Plain, "  "@),
                (Tone::White, "◉"@),
                (Tone::Plain, "  Source: "@),
                (Tone::Cyan, source),
            ],
        ),
        says(
            summary(target, source, whole, partial, skipped)[5],
            Stream::Output,
            seq![
                (Tone::Plain, "  "@),
                (Tone::White, "▶"@),
                (Tone::Plain, " "@),
                (Tone::Yellow, decimal(whole as nat)),
                (Tone::Plain, " whole "@),
                (Tone::Plain, noun(whole as nat)),
                (Tone::Plain, ", "@),
                (Tone::Yellow, decimal(partial as nat)),
                (Tone::Plain, " partial "@),
                (Tone::Plain, noun(partial as nat)),
                (Tone::Plain, ", "@),
                (Tone::Dimmed, decimal(skipped as nat)),
                (Tone::Plain, " skipped"@),
            ],
        ),
        says(summary(target, source, whole, partial, skipped)[6], Stream::Output, Seq::empty()),
        nothing_to_do().len() == 1,
        says(
            nothing_to_do()[0],
            Stream::Output,
            seq![
                (Tone::Plain, "  "@),
                (Tone::Blue, "ℹ"@),
                (Tone::Plain, " No commits selected. Nothing to do."@),
            ],
        ),
        aborted().len() == 1,
        says(
            aborted()[0],
            Stream::Output,
            seq![
                (Tone::Plain, "  Aborted."@),
            ],
        ),
        creating(target).len() == 1,
        says(
            creating(target)[0],
            Stream::Output,
            seq![
                (Tone::Plain, "  "@),
                (Tone::Blue, "▶"@),
                (Tone::Plain, " Creating branch from "@),
                (Tone::Cyan, target),
                (Tone::Plain, "..."@),
            ],
        ),
        created(branch, target).len() == 1,
        says(
            created(branch, target)[0],
            Stream::Output,
            seq![
                (Tone::Plain, "  "@),
                (Tone::Green, "✓"@),
                (Tone::Plain, " Branch '"@),
                (Tone::Yellow, branch),
                (Tone::Plain, "' created from "@),
                (Tone::Cyan, target),
                (Tone::Plain, "\n"@),
            ],
        ),
{
}

/// What is said while commits are applied.
pub proof fn law_applying_is_worded(
    position: usize,
    total: usize,
    short: Text,
    subject: Text,
    cause: Text,
    branch: Text,
)
    ensures
        picking(position, total, short, subject).len() == 1,
        says(
            picking(position, total, short, subject)[0],
            Stream::Output,
            seq![
                (Tone::Plain, "  ["@),
                (Tone::Yellow, decimal(position as nat)),
                (Tone::Plain, "/"@),
                (Tone::Yellow, decimal(total as nat)),
                (Tone::Plain, "] Cherry-picking "@),
                (Tone::BrightGreen, short),
                (Tone::Plain, " "@),
                (Tone::Plain, shortened(subject, 50)),
                (Tone::Plain, "..."@),
            ],
        ),
        taking_files(position, total, short, subject).len() == 1,
        says(
            taking_files(position, total, short, subject)[0],
            Stream::Output,
            seq![
                (Tone::Plain, "  ["@),
                (Tone::Yellow, decimal(position as nat)),
                (Tone::Plain, "/"@),
                (Tone::Yellow, decimal(total as nat)),
                (Tone::Plain, "] Applying files from "@),
                (Tone::BrightGreen, short),
                (Tone::Plain, " "@),
                (Tone::Plain, shortened(subject, 50)),
                (Tone::Plain, "..."@),
            ],
        ),
        merge_found().len() == 1,
        says(
            merge_found()[0],
            Stream::Errors,
            seq![
                (Tone::Plain, "  "@),
                (Tone::Blue, "ℹ"@),
                (Tone::Plain, " Merge commit detected, retrying with -m 1"@),
            ],
        ),
        applied().len() == 1,
        says(
            applied()[0],
            Stream::Output,
            seq![
                (Tone::Plain, "  "@),
                (Tone::Green, "✓"@),
                (Tone::Plain, " Applied\n"@),
            ],
        ),
        failed(cause).len() == 1,
        says(
            failed(cause)[0],
            Stream::Errors,
            seq![
                (Tone::Plain, "  "@),
                (Tone::Red, "✗"@),
                (Tone::Plain, " Failed: "@),
                (Tone::Plain, cause),
            ],
        ),
        conflicts().len() == 1,
        says(
            conflicts()[0],
            Stream::Errors,
            seq![
                (Tone::Plain, "  "@),
                (Tone::Blue, "ℹ"@),
                (Tone::Plain, " You may need to resolve conflicts manually."@),
            ],
        ),
        interrupted(branch).len() == 2,
        says(
            interrupted(branch)[0],
            Stream::Errors,
            seq![
                (Tone::Plain, "  "@),
                (Tone::Blue, "ℹ"@),
                (Tone::Plain, " The branch '"@),
                (Tone::Yellow, branch),
                (Tone::Plain, "' has been created but the operation was interrupted."@),
            ],
        ),
        says(
            interrupted(branch)[1],
            Stream::Errors,
            seq![
                (Tone::Plain, "  "@),
                (Tone::Blue, "ℹ"@),
                (Tone::Plain, " Run 'git status' to see the current state."@),
            ],
        ),
        all_applied(total).len() == 2,
        says(
            all_applied(total)[0],
            Stream::Output,
            seq![
                (Tone::Plain, "  "@),
                (Tone::BrightGreen, "✓"@),
                (Tone::Plain, " All "@),
                (Tone::Yellow, decimal(total as nat)),
                (Tone::Plain, " selection(s) applied successfully!"@),
            ],
        ),
        says(all_applied(total)[1], Stream::Output, Seq::empty()),
{
}

/// What is said of the push, and at the end.
pub proof fn law_pushing_is_worded(
    branch: Text,
    cause: Text,
    target: Text,
)
    ensures
        pushing().len() == 1,
        says(
            pushing()[0],
            Stream::Output,
            seq![
                (Tone::Plain, "  "@),
                (Tone::Blue, "▶"@),
                (Tone::Plain, " Pushing to origin..."@),
            ],
        ),
        pushed(branch).len() == 1,
        says(
            pushed(branch)[0],
            Stream::Output,
            seq![
                (Tone::Plain, "  "@),
                (Tone::Green, "✓"@),
                (Tone::Plain, " Branch '"@),
                (Tone::Yellow, branch),
                (Tone::Plain, "' pushed to origin"@),
            ],
        ),
        push_failed(cause).len() == 2,
        says(
            push_failed(cause)[0],
            Stream::Errors,
            seq![
                (Tone::Plain, "  "@),
                (Tone::Red, "✗"@),
                (Tone::Plain, " Push failed: "@),
                (Tone::Plain, cause),
            ],
        ),
        says(
            push_failed(cause)[1],
            Stream::Errors,
            seq![
                (Tone::Plain, "  "@),
                (Tone::Blue, "ℹ"@),
                (Tone::Plain, " You can push manually later."@),
            ],
        ),
        push_skipped(branch).len() == 2,
        says(
            push_skipped(branch)[0],
            Stream::Output,
            seq![
                (Tone::Plain, "  "@),
                (Tone::Dimmed, "→"@),
                (Tone::Plain, " Skipped push. You can push manually:"@),
            ],
        ),
        says(
            push_skipped(branch)[1],
            Stream::Output,
            seq![
                (Tone::Plain, "    git push origin "@),
                (Tone::Yellow, branch),
            ],
        ),
        ready(branch, target).len() == 4,
        says(ready(branch, target)[0], Stream::Output, Seq::empty()),
        says(
            ready(branch, target)[1],
            Stream::Output,
            seq![
                (Tone::Plain, "  "@),
                (Tone::BrightGreen, "🎉"@),
                (Tone::Plain, " Branch '"@),
                (Tone::BrightGreen, branch),
                (Tone::Plain, "' is ready for a PR into "@),
                (Tone::Cyan, target),
                (Tone::Plain, "!"@),
            ],
        ),
        says(
            ready(branch, target)[2],
            Stream::Output,
            seq![
                (Tone::Plain, "  "@),
                (Tone::Dimmed, "Happy coding! 🚀"@),
            ],
        ),
        says(ready(branch, target)[3], Stream::Output, Seq::empty()),
{
}

/// The nouns for numbers of commits.
pub proof fn law_one_commit_is_singular(count: nat)
    ensures
        noun(1) == "commit"@,
        count != 1 ==> noun(count) == "commits"@,
{
}

/// The questions that are asked with tones.
pub proof fn law_questions_are_worded(branch: Text, total: usize, text: Text)
    ensures
        is_worded(
            create_question(branch, total),
            seq![
                (Tone::Plain, "Create branch '"@),
                (Tone::Cyan, branch),
                (Tone::Plain, "' and apply "@),
                (Tone::Yellow, decimal(total as nat)),
                (Tone::Plain, " selection(s)?"@),
            ],
        ),
        is_worded(
            push_question(branch),
            seq![
                (Tone::Plain, "Push '"@),
                (Tone::Cyan, branch),
                (Tone::Plain, "' to origin?"@),
            ],
        ),
        is_worded(question(text), seq![(Tone::Plain, text)]),
{
}

/// A commit is described by its place in the list, counted from one, its hash, its
/// subject and the number of its files; by who wrote it; and by its day.
pub proof fn law_commits_are_described(index: nat, commit: CommitModel)
    ensures
        commit_lines(index, commit).len() == 3,
        says(
            commit_lines(index, commit)[0],
            Stream::Output,
            seq![
                (Tone::Plain, "  "@),
                (Tone::Yellow, padded(decimal(index + 1), 2)),
                (Tone::Plain, ".  "@),
                (Tone::BrightGreen, commit.short_hash()),
                (Tone::Plain, "  "@),
                (Tone::Bold, commit.subject),
                (Tone::Plain, "  "@),
                (Tone::Dimmed, decimal(commit.files.len())),
                (Tone::Plain, " files:"@),
            ] + if commit.files.len() == 0 {
                seq![(Tone::Dimmed, " (no files)"@)]
            } else {
                Seq::empty()
            },
        ),
        says(
            commit_lines(index, commit)[1],
            Stream::Output,
            seq![
                (Tone::Plain, "      "@),
                (Tone::Dimmed, "Author:"@),
                (Tone::Plain, " "@),
                (Tone::Plain, commit.author),
                (Tone::Plain, " <"@),
                (Tone::Dimmed, commit.email),
                (Tone::Plain, ">"@),
            ],
        ),
        says(
            commit_lines(index, commit)[2],
            Stream::Output,
            seq![
                (Tone::Plain, "      "@),
                (Tone::Dimmed, "Date:"@),
                (Tone::Plain, " "@),
                (Tone::Dimmed, commit.day()),
            ],
        ),
{
}

/// The list describes every commit, in three lines each, under its place; before
/// that stands the heading, and behind it an empty line.
pub proof fn law_every_commit_is_listed(
    source: Text,
    target: Text,
    commits: Seq<CommitModel>,
    i: int,
    k: int,
)
    requires
        0 <= i < commits.len(),
        0 <= k < 3,
    ensures
        listing(source, target, commits).len() == 3 + 3 * commits.len() + 1,
        listing(source, target, commits).take(3) == listing_head(source, target),
        listing(source, target, commits)[3 + 3 * i + k] == commit_lines(i as nat, commits[i])[k],
        says(
            listing(source, target, commits)[3 + 3 * (commits.len() as int)],
            Stream::Output,
            Seq::empty(),
        ),
{
    lemma_described(commits, i, k);
    assert(listing(source, target, commits).take(3) =~= listing_head(source, target));
}

proof fn lemma_described(commits: Seq<CommitModel>, i: int, k: int)
    requires
        0 <= i < commits.len(),
        0 <= k < 3,
    ensures
        described(commits).len() == 3 * commits.len(),
        described(commits)[3 * i + k] == commit_lines(i as nat, commits[i])[k],
    decreases commits.len(),
{
    let before = commits.drop_last();
    if before.len() == 0 {
        assert(described(before).len() == 0);
    } else {
        lemma_described(before, if i < before.len() { i } else { 0 }, k);
    }
}

/// The preview of a diff shows every line of it, unchanged, behind a mark, and then
/// an empty line; put together again, what stands behind the marks is the diff, up
/// to carriage returns and a line feed at its end. Of an empty diff nothing is shown.
pub proof fn law_preview_shows_the_diff_line_by_line(diff: Text, i: int)
    ensures
        diff.len() == 0 ==> preview(diff).len() == 0,
        diff.len() > 0 ==> {
            let shown = preview(diff);
            let n = shown.len() - 1;
            let behind = Seq::new(n as nat, |j: int| shown[j].spans[1].text);
            &&& n == lines(diff).len()
            &&& 0 <= i < n ==> says(
                shown[i],
                Stream::Output,
                seq![(Tone::Plain, "  │ "@), (Tone::Plain, lines(diff)[i])],
            )
            &&& says(shown[n], Stream::Output, Seq::empty())
            &&& without_returns(joined(behind, seq!['\n'])) == without_returns(
                without_last_feed(diff),
            )
            &&& !diff.contains('\r') ==> joined(behind, seq!['\n']) == without_last_feed(diff)
        },
{
    if diff.len() > 0 {
        let shown = preview(diff);
        let behind = Seq::new((shown.len() - 1) as nat, |j: int| shown[j].spans[1].text);
        law_lines_put_together_are_the_text(diff);
        assert(behind =~= lines(diff));
    }
}

} // verus!
