//! Everything the tool says, as lines of toned text.

use vstd::prelude::*;
use crate::commits::{CommitInfo, CommitModel};
use crate::lists::{no_items, put, put_all};
use crate::style::{Span, SpanModel, Tone};
use crate::text::{decimal, lines, lines_of, number, pad, padded, repeat, repeated, Text};
use crate::truncate::{shortened, Truncate};

verus! {

/// The width of a ruled line.
pub const RULE: usize = 64;

/// The number of characters of a subject shown while its commit is applied.
pub const SUBJECT_WIDTH: usize = 50;

/// Where a line goes.
#[derive(Clone, Copy, Debug, PartialEq, Eq, Structural)]
pub enum Stream {
    Output,
    Errors,
}

/// A line of output; a line feed follows it.
#[derive(Debug, PartialEq, Eq)]
pub struct Line {
    pub stream: Stream,
    pub spans: Vec<Span>,
}

/// The model of a [`Line`].
pub struct LineModel {
    pub stream: Stream,
    pub spans: Seq<SpanModel>,
}

impl DeepView for Line {
    type V = LineModel;

    open spec fn deep_view(&self) -> LineModel {
        LineModel { stream: self.stream, spans: self.spans.deep_view() }
    }
}

impl LineModel {
    /// The line with one more span.
    pub open spec fn with(self, tone: Tone, text: Text) -> LineModel {
        LineModel { spans: self.spans.push(SpanModel { tone, text }), ..self }
    }
}

/// An empty line on standard output.
pub open spec fn out_line() -> LineModel {
    LineModel { stream: Stream::Output, spans: Seq::empty() }
}

/// An empty line on standard error.
pub open spec fn err_line() -> LineModel {
    LineModel { stream: Stream::Errors, spans: Seq::empty() }
}

impl Line {
    /// An empty line on standard output.
    pub fn out() -> (r: Line)
        ensures
            r.deep_view() == out_line(),
    {
        Line { stream: Stream::Output, spans: no_items() }
    }

    /// An empty line on standard error.
    pub fn err() -> (r: Line)
        ensures
            r.deep_view() == err_line(),
    {
        Line { stream: Stream::Errors, spans: no_items() }
    }

    /// The line with one more span.
    pub fn with(self, tone: Tone, text: &str) -> (r: Line)
        ensures
            r.deep_view() == self.deep_view().with(tone, text@),
    {
        let mut spans: Vec<Span> = self.spans;
        put(&mut spans, Span { tone, text: text.to_string() });
        Line { stream: self.stream, spans }
    }
}

/// The noun for a number of commits.
pub open spec fn noun(count: nat) -> Text {
    if count == 1 {
        "commit"@
    } else {
        "commits"@
    }
}

/// The noun for a number of commits.
pub fn noun_for(count: usize) -> (r: &'static str)
    ensures
        r@ == noun(count as nat),
{
    if count == 1 {
        "commit"
    } else {
        "commits"
    }
}

/// The banner shown at the start.
pub open spec fn banner() -> Seq<LineModel> {
    Seq::empty()
        .push(out_line())
        .push(out_line()
            .with(Tone::BrightGreen, "╔═══════════════════════════════════════════╗"@)
        )
        .push(out_line()
            .with(Tone::BoldBrightGreen, "║           PR Prep - Cherry Pick           ║"@)
        )
        .push(out_line()
            .with(Tone::BrightGreen, "║    Prepare hand-selected branches for PRs ║"@)
        )
        .push(out_line()
            .with(Tone::BrightGreen, "╚═══════════════════════════════════════════╝"@)
        )
        .push(out_line())
}

/// The banner shown at the start.
pub fn say_banner() -> (r: Vec<Line>)
    ensures
        r.deep_view() == banner(),
{
    let mut r: Vec<Line> = no_items();
    put(&mut r, Line::out());
    put(
        &mut r,
        Line::out()
            .with(Tone::BrightGreen, "╔═══════════════════════════════════════════╗"),
    );
    put(
        &mut r,
        Line::out()
            .with(Tone::BoldBrightGreen, "║           PR Prep - Cherry Pick           ║"),
    );
    put(
        &mut r,
        Line::out()
            .with(Tone::BrightGreen, "║    Prepare hand-selected branches for PRs ║"),
    );
    put(
        &mut r,
        Line::out()
            .with(Tone::BrightGreen, "╚═══════════════════════════════════════════╝"),
    );
    put(&mut r, Line::out());
    r
}

/// An empty line.
pub open spec fn blank() -> Seq<LineModel> {
    Seq::empty()
        .push(out_line())
}

/// An empty line.
pub fn say_blank() -> (r: Vec<Line>)
    ensures
        r.deep_view() == blank(),
{
    let mut r: Vec<Line> = no_items();
    put(&mut r, Line::out());
    r
}

/// Where the repository is.
pub open spec fn repository(root: Text) -> Seq<LineModel> {
    Seq::empty()
        .push(out_line()
            .with(Tone::Plain, "  "@)
            .with(Tone::Green, "✓"@)
            .with(Tone::Plain, " Repository: "@)
            .with(Tone::Yellow, root)
            .with(Tone::Plain, "\n"@)
        )
}

/// Where the repository is.
pub fn say_repository(root: &str) -> (r: Vec<Line>)
    ensures
        r.deep_view() == repository(root@),
{
    let mut r: Vec<Line> = no_items();
    put(
        &mut r,
        Line::out()
            .with(Tone::Plain, "  ")
            .with(Tone::Green, "✓")
            .with(Tone::Plain, " Repository: ")
            .with(Tone::Yellow, root)
            .with(Tone::Plain, "\n"),
    );
    r
}

/// The warning that changes are not committed.
pub open spec fn uncommitted() -> Seq<LineModel> {
    Seq::empty()
        .push(out_line()
            .with(Tone::Plain, "  "@)
            .with(Tone::Yellow, "⚠"@)
            .with(Tone::Plain, " Warning: You have uncommitted changes."@)
        )
        .push(out_line()
            .with(Tone::Plain, "           It's recommended to stash or commit them first.\n"@)
        )
}

/// The warning that changes are not committed.
pub fn say_uncommitted() -> (r: Vec<Line>)
    ensures
        r.deep_view() == uncommitted(),
{
    let mut r: Vec<Line> = no_items();
    put(
        &mut r,
        Line::out()
            .with(Tone::Plain, "  ")
            .with(Tone::Yellow, "⚠")
            .with(Tone::Plain, " Warning: You have uncommitted changes."),
    );
    put(
        &mut r,
        Line::out()
            .with(Tone::Plain, "           It's recommended to stash or commit them first.\n"),
    );
    r
}

/// The farewell of a user who does not go on with uncommitted changes.
pub open spec fn exiting() -> Seq<LineModel> {
    Seq::empty()
        .push(out_line()
            .with(Tone::Plain, "  Exiting. Please commit or stash your changes first."@)
        )
}

/// The farewell of a user who does not go on with uncommitted changes.
pub fn say_exiting() -> (r: Vec<Line>)
    ensures
        r.deep_view() == exiting(),
{
    let mut r: Vec<Line> = no_items();
    put(
        &mut r,
        Line::out()
            .with(Tone::Plain, "  Exiting. Please commit or stash your changes first."),
    );
    r
}

/// The branches are being listed.
pub open spec fn fetching() -> Seq<LineModel> {
    Seq::empty()
        .push(out_line()
            .with(Tone::Plain, "  "@)
            .with(Tone::Blue, "⟳"@)
            .with(Tone::Plain, " Fetching branches..."@)
        )
}

/// The branches are being listed.
pub fn say_fetching() -> (r: Vec<Line>)
    ensures
        r.deep_view() == fetching(),
{
    let mut r: Vec<Line> = no_items();
    put(
        &mut r,
        Line::out()
            .with(Tone::Plain, "  ")
            .with(Tone::Blue, "⟳")
            .with(Tone::Plain, " Fetching branches..."),
    );
    r
}

/// How many branches there are.
pub open spec fn found_branches(count: usize) -> Seq<LineModel> {
    Seq::empty()
        .push(out_line()
            .with(Tone::Plain, "  "@)
            .with(Tone::Green, "✓"@)
            .with(Tone::Plain, " Found "@)
            .with(Tone::Yellow, decimal(count as nat))
            .with(Tone::Plain, " branches\n"@)
        )
}

/// How many branches there are.
pub fn say_found_branches(count: usize) -> (r: Vec<Line>)
    ensures
        r.deep_view() == found_branches(count),
{
    let mut r: Vec<Line> = no_items();
    put(
        &mut r,
        Line::out()
            .with(Tone::Plain, "  ")
            .with(Tone::Green, "✓")
            .with(Tone::Plain, " Found ")
            .with(Tone::Yellow, number(count).as_str())
            .with(Tone::Plain, " branches\n"),
    );
    r
}

/// The branch could not be selected from the list.
pub open spec fn selection_failed(cause: Text) -> Seq<LineModel> {
    Seq::empty()
        .push(err_line()
            .with(Tone::Plain, "  "@)
            .with(Tone::Yellow, "⚠"@)
            .with(Tone::Plain, " Selection failed: "@)
            .with(Tone::Plain, cause)
        )
}

/// The branch could not be selected from the list.
pub fn say_selection_failed(cause: &str) -> (r: Vec<Line>)
    ensures
        r.deep_view() == selection_failed(cause@),
{
    let mut r: Vec<Line> = no_items();
    put(
        &mut r,
        Line::err()
            .with(Tone::Plain, "  ")
            .with(Tone::Yellow, "⚠")
            .with(Tone::Plain, " Selection failed: ")
            .with(Tone::Plain, cause),
    );
    r
}

/// The target branch is known.
pub open spec fn target_chosen(target: Text) -> Seq<LineModel> {
    Seq::empty()
        .push(out_line()
            .with(Tone::Plain, "  "@)
            .with(Tone::Green, "✓"@)
            .with(Tone::Plain, " Target branch: "@)
            .with(Tone::Cyan, target)
        )
        .push(out_line())
}

/// The target branch is known.
pub fn say_target_chosen(target: &str) -> (r: Vec<Line>)
    ensures
        r.deep_view() == target_chosen(target@),
{
    let mut r: Vec<Line> = no_items();
    put(
        &mut r,
        Line::out()
            .with(Tone::Plain, "  ")
            .with(Tone::Green, "✓")
            .with(Tone::Plain, " Target branch: ")
            .with(Tone::Cyan, target),
    );
    put(&mut r, Line::out());
    r
}

/// The source branch is known.
pub open spec fn source_chosen(source: Text) -> Seq<LineModel> {
    Seq::empty()
        .push(out_line()
            .with(Tone::Plain, "  "@)
            .with(Tone::Green, "✓"@)
            .with(Tone::Plain, " Source branch: "@)
            .with(Tone::Cyan, source)
        )
        .push(out_line())
}

/// The source branch is known.
pub fn say_source_chosen(source: &str) -> (r: Vec<Line>)
    ensures
        r.deep_view() == source_chosen(source@),
{
    let mut r: Vec<Line> = no_items();
    put(
        &mut r,
        Line::out()
            .with(Tone::Plain, "  ")
            .with(Tone::Green, "✓")
            .with(Tone::Plain, " Source branch: ")
            .with(Tone::Cyan, source),
    );
    put(&mut r, Line::out());
    r
}

/// The commits are being collected.
pub open spec fn finding(source: Text, target: Text) -> Seq<LineModel> {
    Seq::empty()
        .push(out_line()
            .with(Tone::Plain, "  "@)
            .with(Tone::Blue, "⟳"@)
            .with(Tone::Plain, " Finding commits on "@)
            .with(Tone::Cyan, source)
            .with(Tone::Plain, " not on "@)
            .with(Tone::Cyan, target)
            .with(Tone::Plain, "..."@)
        )
}

/// The commits are being collected.
pub fn say_finding(source: &str, target: &str) -> (r: Vec<Line>)
    ensures
        r.deep_view() == finding(source@, target@),
{
    let mut r: Vec<Line> = no_items();
    put(
        &mut r,
        Line::out()
            .with(Tone::Plain, "  ")
            .with(Tone::Blue, "⟳")
            .with(Tone::Plain, " Finding commits on ")
            .with(Tone::Cyan, source)
            .with(Tone::Plain, " not on ")
            .with(Tone::Cyan, target)
            .with(Tone::Plain, "..."),
    );
    r
}

/// There are no commits to bring over.
pub open spec fn no_commits() -> Seq<LineModel> {
    Seq::empty()
        .push(out_line()
            .with(Tone::Plain, "  "@)
            .with(Tone::Blue, "ℹ"@)
            .with(Tone::Plain, " No new commits found."@)
        )
        .push(out_line()
            .with(Tone::Plain, "  The source branch is already up to date with the target."@)
        )
}

/// There are no commits to bring over.
pub fn say_no_commits() -> (r: Vec<Line>)
    ensures
        r.deep_view() == no_commits(),
{
    let mut r: Vec<Line> = no_items();
    put(
        &mut r,
        Line::out()
            .with(Tone::Plain, "  ")
            .with(Tone::Blue, "ℹ")
            .with(Tone::Plain, " No new commits found."),
    );
    put(
        &mut r,
        Line::out()
            .with(Tone::Plain, "  The source branch is already up to date with the target."),
    );
    r
}

/// How many commits there are.
pub open spec fn found_commits(count: usize) -> Seq<LineModel> {
    Seq::empty()
        .push(out_line()
            .with(Tone::Plain, "  "@)
            .with(Tone::Green, "✓"@)
            .with(Tone::Plain, " Found "@)
            .with(Tone::Yellow, decimal(count as nat))
            .with(Tone::Plain, " commit(s)\n"@)
        )
}

/// How many commits there are.
pub fn say_found_commits(count: usize) -> (r: Vec<Line>)
    ensures
        r.deep_view() == found_commits(count),
{
    let mut r: Vec<Line> = no_items();
    put(
        &mut r,
        Line::out()
            .with(Tone::Plain, "  ")
            .with(Tone::Green, "✓")
            .with(Tone::Plain, " Found ")
            .with(Tone::Yellow, number(count).as_str())
            .with(Tone::Plain, " commit(s)\n"),
    );
    r
}

/// The heading of the list of commits.
pub open spec fn listing_head(source: Text, target: Text) -> Seq<LineModel> {
    Seq::empty()
        .push(out_line()
            .with(Tone::Dimmed, repeated('─', RULE as nat))
        )
        .push(out_line()
            .with(Tone::Plain, "  "@)
            .with(Tone::Bold, "📋"@)
            .with(Tone::Plain, " Commits on "@)
            .with(Tone::Cyan, source)
            .with(Tone::Plain, " not on "@)
            .with(Tone::Cyan, target)
            .with(Tone::Plain, ":"@)
        )
        .push(out_line())
}

/// The heading of the list of commits.
pub fn say_listing_head(source: &str, target: &str) -> (r: Vec<Line>)
    ensures
        r.deep_view() == listing_head(source@, target@),
{
    let mut r: Vec<Line> = no_items();
    put(
        &mut r,
        Line::out()
            .with(Tone::Dimmed, repeat('─', RULE).as_str()),
    );
    put(
        &mut r,
        Line::out()
            .with(Tone::Plain, "  ")
            .with(Tone::Bold, "📋")
            .with(Tone::Plain, " Commits on ")
            .with(Tone::Cyan, source)
            .with(Tone::Plain, " not on ")
            .with(Tone::Cyan, target)
            .with(Tone::Plain, ":"),
    );
    put(&mut r, Line::out());
    r
}

/// How many commits were selected.
pub open spec fn selected_commits(picked: usize, count: usize) -> Seq<LineModel> {
    Seq::empty()
        .push(out_line())
        .push(out_line()
            .with(Tone::Plain, "  "@)
            .with(Tone::Green, "✓"@)
            .with(Tone::Plain, " Selected "@)
            .with(Tone::Yellow, decimal(picked as nat))
            .with(Tone::Plain, " of "@)
            .with(Tone::Yellow, decimal(count as nat))
            .with(Tone::Plain, " commit(s)\n"@)
        )
}

/// How many commits were selected.
pub fn say_selected_commits(picked: usize, count: usize) -> (r: Vec<Line>)
    ensures
        r.deep_view() == selected_commits(picked, count),
{
    let mut r: Vec<Line> = no_items();
    put(&mut r, Line::out());
    put(
        &mut r,
        Line::out()
            .with(Tone::Plain, "  ")
            .with(Tone::Green, "✓")
            .with(Tone::Plain, " Selected ")
            .with(Tone::Yellow, number(picked).as_str())
            .with(Tone::Plain, " of ")
            .with(Tone::Yellow, number(count).as_str())
            .with(Tone::Plain, " commit(s)\n"),
    );
    r
}

/// The heading above the files of a commit.
pub open spec fn commit_head(short: Text, subject: Text) -> Seq<LineModel> {
    Seq::empty()
        .push(out_line()
            .with(Tone::Dimmed, repeated('─', RULE as nat))
        )
        .push(out_line()
            .with(Tone::Plain, "  "@)
            .with(Tone::Blue, "📄"@)
            .with(Tone::Plain, " "@)
            .with(Tone::BrightGreen, short)
            .with(Tone::Plain, "  "@)
            .with(Tone::Bold, subject)
        )
        .push(out_line())
}

/// The heading above the files of a commit.
pub fn say_commit_head(short: &str, subject: &str) -> (r: Vec<Line>)
    ensures
        r.deep_view() == commit_head(short@, subject@),
{
    let mut r: Vec<Line> = no_items();
    put(
        &mut r,
        Line::out()
            .with(Tone::Dimmed, repeat('─', RULE).as_str()),
    );
    put(
        &mut r,
        Line::out()
            .with(Tone::Plain, "  ")
            .with(Tone::Blue, "📄")
            .with(Tone::Plain, " ")
            .with(Tone::BrightGreen, short)
            .with(Tone::Plain, "  ")
            .with(Tone::Bold, subject),
    );
    put(&mut r, Line::out());
    r
}

/// How many files of a commit were selected.
pub open spec fn some_files(picked: usize, count: usize) -> Seq<LineModel> {
    Seq::empty()
        .push(out_line()
            .with(Tone::Plain, "  "@)
            .with(Tone::Green, "✓"@)
            .with(Tone::Plain, " Selected "@)
            .with(Tone::Yellow, decimal(picked as nat))
            .with(Tone::Plain, " of "@)
            .with(Tone::Yellow, decimal(count as nat))
            .with(Tone::Plain, " file(s)\n"@)
        )
}

/// How many files of a commit were selected.
pub fn say_some_files(picked: usize, count: usize) -> (r: Vec<Line>)
    ensures
        r.deep_view() == some_files(picked, count),
{
    let mut r: Vec<Line> = no_items();
    put(
        &mut r,
        Line::out()
            .with(Tone::Plain, "  ")
            .with(Tone::Green, "✓")
            .with(Tone::Plain, " Selected ")
            .with(Tone::Yellow, number(picked).as_str())
            .with(Tone::Plain, " of ")
            .with(Tone::Yellow, number(count).as_str())
            .with(Tone::Plain, " file(s)\n"),
    );
    r
}

/// No file of a commit was selected.
pub open spec fn no_files() -> Seq<LineModel> {
    Seq::empty()
        .push(out_line()
            .with(Tone::Plain, "  "@)
            .with(Tone::Dimmed, "→"@)
            .with(Tone::Plain, " No files selected, skipping commit.\n"@)
        )
}

/// No file of a commit was selected.
pub fn say_no_files() -> (r: Vec<Line>)
    ensures
        r.deep_view() == no_files(),
{
    let mut r: Vec<Line> = no_items();
    put(
        &mut r,
        Line::out()
            .with(Tone::Plain, "  ")
            .with(Tone::Dimmed, "→")
            .with(Tone::Plain, " No files selected, skipping commit.\n"),
    );
    r
}

/// All files of a commit were selected.
pub open spec fn all_files() -> Seq<LineModel> {
    Seq::empty()
        .push(out_line()
            .with(Tone::Plain, "  "@)
            .with(Tone::Green, "✓"@)
            .with(Tone::Plain, " Including all files\n"@)
        )
}

/// All files of a commit were selected.
pub fn say_all_files() -> (r: Vec<Line>)
    ensures
        r.deep_view() == all_files(),
{
    let mut r: Vec<Line> = no_items();
    put(
        &mut r,
        Line::out()
            .with(Tone::Plain, "  ")
            .with(Tone::Green, "✓")
            .with(Tone::Plain, " Including all files\n"),
    );
    r
}

/// What is about to be applied.
pub open spec fn summary(target: Text, source: Text, whole: usize, partial: usize, skipped: usize) -> Seq<LineModel> {
    Seq::empty()
        .push(out_line()
            .with(Tone::BrightGreen, repeated('═', RULE as nat))
        )
        .push(out_line()
            .with(Tone::Plain, "  "@)
            .with(Tone::Bold, "📋"@)
            .with(Tone::Plain, " Summary"@)
        )
        .push(out_line()
            .with(Tone::BrightGreen, repeated('═', RULE as nat))
        )
        .push(out_line()
            .with(Tone::Plain, "  "@)
            .with(Tone::White, "◉"@)
            .with(Tone::Plain, "  Target: "@)
            .with(Tone::Cyan, target)
        )
        .push(out_line()
            .with(Tone::Plain, "  "@)
            .with(Tone::White, "◉"@)
            .with(Tone::Plain, "  Source: "@)
            .with(Tone::Cyan, source)
        )
        .push(out_line()
            .with(Tone::Plain, "  "@)
            .with(Tone::White, "▶"@)
            .with(Tone::Plain, " "@)
            .with(Tone::Yellow, decimal(whole as nat))
            .with(Tone::Plain, " whole "@)
            .with(Tone::Plain, noun(whole as nat))
            .with(Tone::Plain, ", "@)
            .with(Tone::Yellow, decimal(partial as nat))
            .with(Tone::Plain, " partial "@)
            .with(Tone::Plain, noun(partial as nat))
            .with(Tone::Plain, ", "@)
            .with(Tone::Dimmed, decimal(skipped as nat))
            .with(Tone::Plain, " skipped"@)
        )
        .push(out_line())
}

/// What is about to be applied.
pub fn say_summary(target: &str, source: &str, whole: usize, partial: usize, skipped: usize) -> (r: Vec<Line>)
    ensures
        r.deep_view() == summary(target@, source@, whole, partial, skipped),
{
    let mut r: Vec<Line> = no_items();
    put(
        &mut r,
        Line::out()
            .with(Tone::BrightGreen, repeat('═', RULE).as_str()),
    );
    put(
        &mut r,
        Line::out()
            .with(Tone::Plain, "  ")
            .with(Tone::Bold, "📋")
            .with(Tone::Plain, " Summary"),
    );
    put(
        &mut r,
        Line::out()
            .with(Tone::BrightGreen, repeat('═', RULE).as_str()),
    );
    put(
        &mut r,
        Line::out()
            .with(Tone::Plain, "  ")
            .with(Tone::White, "◉")
            .with(Tone::Plain, "  Target: ")
            .with(Tone::Cyan, target),
    );
    put(
        &mut r,
        Line::out()
            .with(Tone::Plain, "  ")
            .with(Tone::White, "◉")
            .with(Tone::Plain, "  Source: ")
            .with(Tone::Cyan, source),
    );
    put(
        &mut r,
        Line::out()
            .with(Tone::Plain, "  ")
            .with(Tone::White, "▶")
            .with(Tone::Plain, " ")
            .with(Tone::Yellow, number(whole).as_str())
            .with(Tone::Plain, " whole ")
            .with(Tone::Plain, noun_for(whole))
            .with(Tone::Plain, ", ")
            .with(Tone::Yellow, number(partial).as_str())
            .with(Tone::Plain, " partial ")
            .with(Tone::Plain, noun_for(partial))
            .with(Tone::Plain, ", ")
            .with(Tone::Dimmed, number(skipped).as_str())
            .with(Tone::Plain, " skipped"),
    );
    put(&mut r, Line::out());
    r
}

/// No commit is to be applied.
pub open spec fn nothing_to_do() -> Seq<LineModel> {
    Seq::empty()
        .push(out_line()
            .with(Tone::Plain, "  "@)
            .with(Tone::Blue, "ℹ"@)
            .with(Tone::Plain, " No commits selected. Nothing to do."@)
        )
}

/// No commit is to be applied.
pub fn say_nothing_to_do() -> (r: Vec<Line>)
    ensures
        r.deep_view() == nothing_to_do(),
{
    let mut r: Vec<Line> = no_items();
    put(
        &mut r,
        Line::out()
            .with(Tone::Plain, "  ")
            .with(Tone::Blue, "ℹ")
            .with(Tone::Plain, " No commits selected. Nothing to do."),
    );
    r
}

/// The user does not want the branch.
pub open spec fn aborted() -> Seq<LineModel> {
    Seq::empty()
        .push(out_line()
            .with(Tone::Plain, "  Aborted."@)
        )
}

/// The user does not want the branch.
pub fn say_aborted() -> (r: Vec<Line>)
    ensures
        r.deep_view() == aborted(),
{
    let mut r: Vec<Line> = no_items();
    put(
        &mut r,
        Line::out()
            .with(Tone::Plain, "  Aborted."),
    );
    r
}

/// The branch is being created.
pub open spec fn creating(target: Text) -> Seq<LineModel> {
    Seq::empty()
        .push(out_line()
            .with(Tone::Plain, "  "@)
            .with(Tone::Blue, "▶"@)
            .with(Tone::Plain, " Creating branch from "@)
            .with(Tone::Cyan, target)
            .with(Tone::Plain, "..."@)
        )
}

/// The branch is being created.
pub fn say_creating(target: &str) -> (r: Vec<Line>)
    ensures
        r.deep_view() == creating(target@),
{
    let mut r: Vec<Line> = no_items();
    put(
        &mut r,
        Line::out()
            .with(Tone::Plain, "  ")
            .with(Tone::Blue, "▶")
            .with(Tone::Plain, " Creating branch from ")
            .with(Tone::Cyan, target)
            .with(Tone::Plain, "..."),
    );
    r
}

/// The branch has been created.
pub open spec fn created(branch: Text, target: Text) -> Seq<LineModel> {
    Seq::empty()
        .push(out_line()
            .with(Tone::Plain, "  "@)
            .with(Tone::Green, "✓"@)
            .with(Tone::Plain, " Branch '"@)
            .with(Tone::Yellow, branch)
            .with(Tone::Plain, "' created from "@)
            .with(Tone::Cyan, target)
            .with(Tone::Plain, "\n"@)
        )
}

/// The branch has been created.
pub fn say_created(branch: &str, target: &str) -> (r: Vec<Line>)
    ensures
        r.deep_view() == created(branch@, target@),
{
    let mut r: Vec<Line> = no_items();
    put(
        &mut r,
        Line::out()
            .with(Tone::Plain, "  ")
            .with(Tone::Green, "✓")
            .with(Tone::Plain, " Branch '")
            .with(Tone::Yellow, branch)
            .with(Tone::Plain, "' created from ")
            .with(Tone::Cyan, target)
            .with(Tone::Plain, "\n"),
    );
    r
}

/// A whole commit is being applied.
pub open spec fn picking(position: usize, total: usize, short: Text, subject: Text) -> Seq<LineModel> {
    Seq::empty()
        .push(out_line()
            .with(Tone::Plain, "  ["@)
            .with(Tone::Yellow, decimal(position as nat))
            .with(Tone::Plain, "/"@)
            .with(Tone::Yellow, decimal(total as nat))
            .with(Tone::Plain, "] Cherry-picking "@)
            .with(Tone::BrightGreen, short)
            .with(Tone::Plain, " "@)
            .with(Tone::Plain, shortened(subject, SUBJECT_WIDTH as nat))
            .with(Tone::Plain, "..."@)
        )
}

/// A whole commit is being applied.
pub fn say_picking(position: usize, total: usize, short: &str, subject: &str) -> (r: Vec<Line>)
    ensures
        r.deep_view() == picking(position, total, short@, subject@),
{
    let mut r: Vec<Line> = no_items();
    put(
        &mut r,
        Line::out()
            .with(Tone::Plain, "  [")
            .with(Tone::Yellow, number(position).as_str())
            .with(Tone::Plain, "/")
            .with(Tone::Yellow, number(total).as_str())
            .with(Tone::Plain, "] Cherry-picking ")
            .with(Tone::BrightGreen, short)
            .with(Tone::Plain, " ")
            .with(Tone::Plain, subject.truncated(SUBJECT_WIDTH).as_str())
            .with(Tone::Plain, "..."),
    );
    r
}

/// Files of a commit are being applied.
pub open spec fn taking_files(position: usize, total: usize, short: Text, subject: Text) -> Seq<LineModel> {
    Seq::empty()
        .push(out_line()
            .with(Tone::Plain, "  ["@)
            .with(Tone::Yellow, decimal(position as nat))
            .with(Tone::Plain, "/"@)
            .with(Tone::Yellow, decimal(total as nat))
            .with(Tone::Plain, "] Applying files from "@)
            .with(Tone::BrightGreen, short)
            .with(Tone::Plain, " "@)
            .with(Tone::Plain, shortened(subject, SUBJECT_WIDTH as nat))
            .with(Tone::Plain, "..."@)
        )
}

/// Files of a commit are being applied.
pub fn say_taking_files(position: usize, total: usize, short: &str, subject: &str) -> (r: Vec<Line>)
    ensures
        r.deep_view() == taking_files(position, total, short@, subject@),
{
    let mut r: Vec<Line> = no_items();
    put(
        &mut r,
        Line::out()
            .with(Tone::Plain, "  [")
            .with(Tone::Yellow, number(position).as_str())
            .with(Tone::Plain, "/")
            .with(Tone::Yellow, number(total).as_str())
            .with(Tone::Plain, "] Applying files from ")
            .with(Tone::BrightGreen, short)
            .with(Tone::Plain, " ")
            .with(Tone::Plain, subject.truncated(SUBJECT_WIDTH).as_str())
            .with(Tone::Plain, "..."),
    );
    r
}

/// The commit is a merge.
pub open spec fn merge_found() -> Seq<LineModel> {
    Seq::empty()
        .push(err_line()
            .with(Tone::Plain, "  "@)
            .with(Tone::Blue, "ℹ"@)
            .with(Tone::Plain, " Merge commit detected, retrying with -m 1"@)
        )
}

/// The commit is a merge.
pub fn say_merge_found() -> (r: Vec<Line>)
    ensures
        r.deep_view() == merge_found(),
{
    let mut r: Vec<Line> = no_items();
    put(
        &mut r,
        Line::err()
            .with(Tone::Plain, "  ")
            .with(Tone::Blue, "ℹ")
            .with(Tone::Plain, " Merge commit detected, retrying with -m 1"),
    );
    r
}

/// The commit has been applied.
pub open spec fn applied() -> Seq<LineModel> {
    Seq::empty()
        .push(out_line()
            .with(Tone::Plain, "  "@)
            .with(Tone::Green, "✓"@)
            .with(Tone::Plain, " Applied\n"@)
        )
}

/// The commit has been applied.
pub fn say_applied() -> (r: Vec<Line>)
    ensures
        r.deep_view() == applied(),
{
    let mut r: Vec<Line> = no_items();
    put(
        &mut r,
        Line::out()
            .with(Tone::Plain, "  ")
            .with(Tone::Green, "✓")
            .with(Tone::Plain, " Applied\n"),
    );
    r
}

/// Applying failed.
pub open spec fn failed(cause: Text) -> Seq<LineModel> {
    Seq::empty()
        .push(err_line()
            .with(Tone::Plain, "  "@)
            .with(Tone::Red, "✗"@)
            .with(Tone::Plain, " Failed: "@)
            .with(Tone::Plain, cause)
        )
}

/// Applying failed.
pub fn say_failed(cause: &str) -> (r: Vec<Line>)
    ensures
        r.deep_view() == failed(cause@),
{
    let mut r: Vec<Line> = no_items();
    put(
        &mut r,
        Line::err()
            .with(Tone::Plain, "  ")
            .with(Tone::Red, "✗")
            .with(Tone::Plain, " Failed: ")
            .with(Tone::Plain, cause),
    );
    r
}

/// There may be conflicts to resolve.
pub open spec fn conflicts() -> Seq<LineModel> {
    Seq::empty()
        .push(err_line()
            .with(Tone::Plain, "  "@)
            .with(Tone::Blue, "ℹ"@)
            .with(Tone::Plain, " You may need to resolve conflicts manually."@)
        )
}

/// There may be conflicts to resolve.
pub fn say_conflicts() -> (r: Vec<Line>)
    ensures
        r.deep_view() == conflicts(),
{
    let mut r: Vec<Line> = no_items();
    put(
        &mut r,
        Line::err()
            .with(Tone::Plain, "  ")
            .with(Tone::Blue, "ℹ")
            .with(Tone::Plain, " You may need to resolve conflicts manually."),
    );
    r
}

/// The branch was left as it is after a failure.
pub open spec fn interrupted(branch: Text) -> Seq<LineModel> {
    Seq::empty()
        .push(err_line()
            .with(Tone::Plain, "  "@)
            .with(Tone::Blue, "ℹ"@)
            .with(Tone::Plain, " The branch '"@)
            .with(Tone::Yellow, branch)
            .with(Tone::Plain, "' has been created but the operation was interrupted."@)
        )
        .push(err_line()
            .with(Tone::Plain, "  "@)
            .with(Tone::Blue, "ℹ"@)
            .with(Tone::Plain, " Run 'git status' to see the current state."@)
        )
}

/// The branch was left as it is after a failure.
pub fn say_interrupted(branch: &str) -> (r: Vec<Line>)
    ensures
        r.deep_view() == interrupted(branch@),
{
    let mut r: Vec<Line> = no_items();
    put(
        &mut r,
        Line::err()
            .with(Tone::Plain, "  ")
            .with(Tone::Blue, "ℹ")
            .with(Tone::Plain, " The branch '")
            .with(Tone::Yellow, branch)
            .with(Tone::Plain, "' has been created but the operation was interrupted."),
    );
    put(
        &mut r,
        Line::err()
            .with(Tone::Plain, "  ")
            .with(Tone::Blue, "ℹ")
            .with(Tone::Plain, " Run 'git status' to see the current state."),
    );
    r
}

/// Everything selected has been applied.
pub open spec fn all_applied(total: usize) -> Seq<LineModel> {
    Seq::empty()
        .push(out_line()
            .with(Tone::Plain, "  "@)
            .with(Tone::BrightGreen, "✓"@)
            .with(Tone::Plain, " All "@)
            .with(Tone::Yellow, decimal(total as nat))
            .with(Tone::Plain, " selection(s) applied successfully!"@)
        )
        .push(out_line())
}

/// Everything selected has been applied.
pub fn say_all_applied(total: usize) -> (r: Vec<Line>)
    ensures
        r.deep_view() == all_applied(total),
{
    let mut r: Vec<Line> = no_items();
    put(
        &mut r,
        Line::out()
            .with(Tone::Plain, "  ")
            .with(Tone::BrightGreen, "✓")
            .with(Tone::Plain, " All ")
            .with(Tone::Yellow, number(total).as_str())
            .with(Tone::Plain, " selection(s) applied successfully!"),
    );
    put(&mut r, Line::out());
    r
}

/// The branch is being pushed.
pub open spec fn pushing() -> Seq<LineModel> {
    Seq::empty()
        .push(out_line()
            .with(Tone::Plain, "  "@)
            .with(Tone::Blue, "▶"@)
            .with(Tone::Plain, " Pushing to origin..."@)
        )
}

/// The branch is being pushed.
pub fn say_pushing() -> (r: Vec<Line>)
    ensures
        r.deep_view() == pushing(),
{
    let mut r: Vec<Line> = no_items();
    put(
        &mut r,
        Line::out()
            .with(Tone::Plain, "  ")
            .with(Tone::Blue, "▶")
            .with(Tone::Plain, " Pushing to origin..."),
    );
    r
}

/// The branch has been pushed.
pub open spec fn pushed(branch: Text) -> Seq<LineModel> {
    Seq::empty()
        .push(out_line()
            .with(Tone::Plain, "  "@)
            .with(Tone::Green, "✓"@)
            .with(Tone::Plain, " Branch '"@)
            .with(Tone::Yellow, branch)
            .with(Tone::Plain, "' pushed to origin"@)
        )
}

/// The branch has been pushed.
pub fn say_pushed(branch: &str) -> (r: Vec<Line>)
    ensures
        r.deep_view() == pushed(branch@),
{
    let mut r: Vec<Line> = no_items();
    put(
        &mut r,
        Line::out()
            .with(Tone::Plain, "  ")
            .with(Tone::Green, "✓")
            .with(Tone::Plain, " Branch '")
            .with(Tone::Yellow, branch)
            .with(Tone::Plain, "' pushed to origin"),
    );
    r
}

/// The branch could not be pushed.
pub open spec fn push_failed(cause: Text) -> Seq<LineModel> {
    Seq::empty()
        .push(err_line()
            .with(Tone::Plain, "  "@)
            .with(Tone::Red, "✗"@)
            .with(Tone::Plain, " Push failed: "@)
            .with(Tone::Plain, cause)
        )
        .push(err_line()
            .with(Tone::Plain, "  "@)
            .with(Tone::Blue, "ℹ"@)
            .with(Tone::Plain, " You can push manually later."@)
        )
}

/// The branch could not be pushed.
pub fn say_push_failed(cause: &str) -> (r: Vec<Line>)
    ensures
        r.deep_view() == push_failed(cause@),
{
    let mut r: Vec<Line> = no_items();
    put(
        &mut r,
        Line::err()
            .with(Tone::Plain, "  ")
            .with(Tone::Red, "✗")
            .with(Tone::Plain, " Push failed: ")
            .with(Tone::Plain, cause),
    );
    put(
        &mut r,
        Line::err()
            .with(Tone::Plain, "  ")
            .with(Tone::Blue, "ℹ")
            .with(Tone::Plain, " You can push manually later."),
    );
    r
}

/// The user does not want the branch pushed.
pub open spec fn push_skipped(branch: Text) -> Seq<LineModel> {
    Seq::empty()
        .push(out_line()
            .with(Tone::Plain, "  "@)
            .with(Tone::Dimmed, "→"@)
            .with(Tone::Plain, " Skipped push. You can push manually:"@)
        )
        .push(out_line()
            .with(Tone::Plain, "    git push origin "@)
            .with(Tone::Yellow, branch)
        )
}

/// The user does not want the branch pushed.
pub fn say_push_skipped(branch: &str) -> (r: Vec<Line>)
    ensures
        r.deep_view() == push_skipped(branch@),
{
    let mut r: Vec<Line> = no_items();
    put(
        &mut r,
        Line::out()
            .with(Tone::Plain, "  ")
            .with(Tone::Dimmed, "→")
            .with(Tone::Plain, " Skipped push. You can push manually:"),
    );
    put(
        &mut r,
        Line::out()
            .with(Tone::Plain, "    git push origin ")
            .with(Tone::Yellow, branch),
    );
    r
}

/// The branch is ready.
pub open spec fn ready(branch: Text, target: Text) -> Seq<LineModel> {
    Seq::empty()
        .push(out_line())
        .push(out_line()
            .with(Tone::Plain, "  "@)
            .with(Tone::BrightGreen, "🎉"@)
            .with(Tone::Plain, " Branch '"@)
            .with(Tone::BrightGreen, branch)
            .with(Tone::Plain, "' is ready for a PR into "@)
            .with(Tone::Cyan, target)
            .with(Tone::Plain, "!"@)
        )
        .push(out_line()
            .with(Tone::Plain, "  "@)
            .with(Tone::Dimmed, "Happy coding! 🚀"@)
        )
        .push(out_line())
}

/// The branch is ready.
pub fn say_ready(branch: &str, target: &str) -> (r: Vec<Line>)
    ensures
        r.deep_view() == ready(branch@, target@),
{
    let mut r: Vec<Line> = no_items();
    put(&mut r, Line::out());
    put(
        &mut r,
        Line::out()
            .with(Tone::Plain, "  ")
            .with(Tone::BrightGreen, "🎉")
            .with(Tone::Plain, " Branch '")
            .with(Tone::BrightGreen, branch)
            .with(Tone::Plain, "' is ready for a PR into ")
            .with(Tone::Cyan, target)
            .with(Tone::Plain, "!"),
    );
    put(
        &mut r,
        Line::out()
            .with(Tone::Plain, "  ")
            .with(Tone::Dimmed, "Happy coding! 🚀"),
    );
    put(&mut r, Line::out());
    r
}

/// The three lines that describe the commit at `index` of the list.
pub open spec fn commit_lines(index: nat, commit: CommitModel) -> Seq<LineModel> {
    let first = out_line()
        .with(Tone::Plain, "  "@)
        .with(Tone::Yellow, padded(decimal(index + 1), 2))
        .with(Tone::Plain, ".  "@)
        .with(Tone::BrightGreen, commit.short_hash())
        .with(Tone::Plain, "  "@)
        .with(Tone::Bold, commit.subject)
        .with(Tone::Plain, "  "@)
        .with(Tone::Dimmed, decimal(commit.files.len()))
        .with(Tone::Plain, " files:"@);
    Seq::empty()
        .push(
            if commit.files.len() == 0 {
                first.with(Tone::Dimmed, " (no files)"@)
            } else {
                first
            },
        )
        .push(out_line()
            .with(Tone::Plain, "      "@)
            .with(Tone::Dimmed, "Author:"@)
            .with(Tone::Plain, " "@)
            .with(Tone::Plain, commit.author)
            .with(Tone::Plain, " <"@)
            .with(Tone::Dimmed, commit.email)
            .with(Tone::Plain, ">"@)
        )
        .push(out_line()
            .with(Tone::Plain, "      "@)
            .with(Tone::Dimmed, "Date:"@)
            .with(Tone::Plain, " "@)
            .with(Tone::Dimmed, commit.day())
        )
}

/// The three lines that describe the commit at `index` of the list.
pub fn say_commit(index: usize, commit: &CommitInfo) -> (r: Vec<Line>)
    requires
        index < usize::MAX,
        commit.deep_view().is_presentable(),
    ensures
        r.deep_view() == commit_lines(index as nat, commit.deep_view()),
{
    let position: String = pad(number(index + 1).as_str(), 2);
    let first: Line = Line::out()
        .with(Tone::Plain, "  ")
        .with(Tone::Yellow, position.as_str())
        .with(Tone::Plain, ".  ")
        .with(Tone::BrightGreen, commit.short_hash().as_str())
        .with(Tone::Plain, "  ")
        .with(Tone::Bold, commit.subject.as_str())
        .with(Tone::Plain, "  ")
        .with(Tone::Dimmed, number(commit.files.len()).as_str())
        .with(Tone::Plain, " files:");
    let mut r: Vec<Line> = no_items();
    if commit.files.len() == 0 {
        put(&mut r, first.with(Tone::Dimmed, " (no files)"));
    } else {
        put(&mut r, first);
    }
    put(
        &mut r,
        Line::out()
            .with(Tone::Plain, "      ")
            .with(Tone::Dimmed, "Author:")
            .with(Tone::Plain, " ")
            .with(Tone::Plain, commit.author.as_str())
            .with(Tone::Plain, " <")
            .with(Tone::Dimmed, commit.email.as_str())
            .with(Tone::Plain, ">"),
    );
    put(
        &mut r,
        Line::out()
            .with(Tone::Plain, "      ")
            .with(Tone::Dimmed, "Date:")
            .with(Tone::Plain, " ")
            .with(Tone::Dimmed, commit.day().as_str()),
    );
    r
}

/// Whether every commit can be shown in a list.
pub open spec fn all_presentable(commits: Seq<CommitModel>) -> bool {
    forall|i: int| 0 <= i < commits.len() ==> (#[trigger] commits[i]).is_presentable()
}

/// The descriptions of the commits, one after the other.
pub open spec fn described(commits: Seq<CommitModel>) -> Seq<LineModel>
    decreases commits.len(),
{
    if commits.len() == 0 {
        Seq::empty()
    } else {
        described(commits.drop_last()) + commit_lines((commits.len() - 1) as nat, commits.last())
    }
}

/// The list of commits with its heading.
pub open spec fn listing(source: Text, target: Text, commits: Seq<CommitModel>) -> Seq<LineModel> {
    listing_head(source, target) + described(commits) + blank()
}

/// The list of commits with its heading.
pub fn say_listing(source: &str, target: &str, commits: &Vec<CommitInfo>) -> (r: Vec<Line>)
    requires
        all_presentable(commits.deep_view()),
    ensures
        r.deep_view() == listing(source@, target@, commits.deep_view()),
{
    let ghost model = commits.deep_view();
    let ghost heading = listing_head(source@, target@);
    let mut r: Vec<Line> = say_listing_head(source, target);
    let mut i: usize = 0;
    proof {
        assert(model.take(0) =~= Seq::<CommitModel>::empty());
        assert(heading + Seq::<LineModel>::empty() =~= heading);
    }
    while i < commits.len()
        invariant
            i <= commits@.len(),
            model == commits.deep_view(),
            all_presentable(model),
            r.deep_view() == heading + described(model.take(i as int)),
        decreases commits@.len() - i,
    {
        proof {
            assert(model[i as int].is_presentable());
            assert(model.take(i + 1).drop_last() =~= model.take(i as int));
        }
        put_all(&mut r, say_commit(i, &commits[i]));
        assert(r.deep_view() =~= heading + described(model.take(i + 1)));
        i = i + 1;
    }
    assert(model.take(i as int) =~= model);
    put_all(&mut r, say_blank());
    r
}

/// The lines of a diff, set off, and an empty line.
pub open spec fn preview_lines(lines: Seq<Text>) -> Seq<LineModel> {
    Seq::new(
        lines.len(),
        |i: int| out_line().with(Tone::Plain, "  │ "@).with(Tone::Plain, lines[i]),
    ) + blank()
}

/// The preview of a diff: nothing if it is empty.
pub open spec fn preview(diff: Text) -> Seq<LineModel> {
    if diff.len() == 0 {
        Seq::empty()
    } else {
        preview_lines(lines(diff))
    }
}

/// The preview of a diff: nothing if it is empty.
pub fn say_preview(diff: &str) -> (r: Vec<Line>)
    ensures
        r.deep_view() == preview(diff@),
{
    let mut r: Vec<Line> = no_items();
    if diff.is_empty() {
        return r;
    }
    let all: Vec<String> = lines_of(diff);
    let ghost model = all.deep_view();
    let ghost whole = Seq::new(
        model.len(),
        |i: int| out_line().with(Tone::Plain, "  │ "@).with(Tone::Plain, model[i]),
    );
    let mut i: usize = 0;
    while i < all.len()
        invariant
            i <= all@.len(),
            model == all.deep_view(),
            whole == Seq::new(
                model.len(),
                |i: int| out_line().with(Tone::Plain, "  │ "@).with(Tone::Plain, model[i]),
            ),
            r.deep_view() == whole.take(i as int),
        decreases all@.len() - i,
    {
        put(&mut r, Line::out().with(Tone::Plain, "  │ ").with(Tone::Plain, all[i].as_str()));
        assert(whole.take(i + 1) =~= whole.take(i as int).push(whole[i as int]));
        i = i + 1;
    }
    assert(whole.take(i as int) =~= whole);
    put_all(&mut r, say_blank());
    r
}

/// The question whether to create the branch.
pub open spec fn create_question(branch: Text, total: usize) -> Seq<SpanModel> {
    out_line()
        .with(Tone::Plain, "Create branch '"@)
        .with(Tone::Cyan, branch)
        .with(Tone::Plain, "' and apply "@)
        .with(Tone::Yellow, decimal(total as nat))
        .with(Tone::Plain, " selection(s)?"@)
        .spans
}

/// The question whether to create the branch.
pub fn ask_create(branch: &str, total: usize) -> (r: Vec<Span>)
    ensures
        r.deep_view() == create_question(branch@, total),
{
    Line::out()
        .with(Tone::Plain, "Create branch '")
        .with(Tone::Cyan, branch)
        .with(Tone::Plain, "' and apply ")
        .with(Tone::Yellow, number(total).as_str())
        .with(Tone::Plain, " selection(s)?")
        .spans
}

/// The question whether to push the branch.
pub open spec fn push_question(branch: Text) -> Seq<SpanModel> {
    out_line()
        .with(Tone::Plain, "Push '"@)
        .with(Tone::Cyan, branch)
        .with(Tone::Plain, "' to origin?"@)
        .spans
}

/// The question whether to push the branch.
pub fn ask_push(branch: &str) -> (r: Vec<Span>)
    ensures
        r.deep_view() == push_question(branch@),
{
    Line::out()
        .with(Tone::Plain, "Push '")
        .with(Tone::Cyan, branch)
        .with(Tone::Plain, "' to origin?")
        .spans
}

/// A question without tones.
pub open spec fn question(text: Text) -> Seq<SpanModel> {
    out_line().with(Tone::Plain, text).spans
}

/// A question without tones.
pub fn ask(text: &str) -> (r: Vec<Span>)
    ensures
        r.deep_view() == question(text@),
{
    Line::out().with(Tone::Plain, text).spans
}

} // verus!
