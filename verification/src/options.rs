//! The command line.

use vstd::prelude::*;
use crate::lists::has_string;
use crate::text::Text;

verus! {

/// What the command line asks for.
#[derive(Clone, Copy, Debug, PartialEq, Eq, Structural)]
pub struct Options {
    /// Only the version is to be printed.
    pub version: bool,
    /// Diffs are to be shown without asking.
    pub diff: bool,
}

/// Whether the arguments ask for the version.
pub open spec fn asks_version(args: Seq<Text>) -> bool {
    args.contains("--version"@) || args.contains("-V"@)
}

/// Whether the arguments ask for diffs.
pub open spec fn asks_diff(args: Seq<Text>) -> bool {
    args.contains("--diff"@)
}

/// What the arguments ask for; those not known are ignored.
pub fn parse_args(args: &Vec<String>) -> (r: Options)
    ensures
        r.version == asks_version(args.deep_view()),
        r.diff == asks_diff(args.deep_view()),
{
    Options {
        version: has_string(args, "--version") || has_string(args, "-V"),
        diff: has_string(args, "--diff"),
    }
}

/// The version is asked for by either of its two flags, diffs by theirs, wherever
/// among the arguments; and nothing else asks for them.
pub proof fn law_flags_are_found_anywhere(before: Seq<Text>, arg: Text, after: Seq<Text>)
    ensures
        asks_version(before + seq![arg] + after) <==> arg == "--version"@ || arg == "-V"@
            || asks_version(before) || asks_version(after),
        asks_diff(before + seq![arg] + after) <==> arg == "--diff"@ || asks_diff(before)
            || asks_diff(after),
        !asks_version(Seq::empty()),
        !asks_diff(Seq::empty()),
{
    lemma_contained(before, arg, after, "--version"@);
    lemma_contained(before, arg, after, "-V"@);
    lemma_contained(before, arg, after, "--diff"@);
}

proof fn lemma_contained(before: Seq<Text>, arg: Text, after: Seq<Text>, wanted: Text)
    ensures
        (before + seq![arg] + after).contains(wanted) <==> arg == wanted || before.contains(wanted)
            || after.contains(wanted),
{
    let all = before + seq![arg] + after;
    let n = before.len() as int;
    assert(all[n] == arg);
    if before.contains(wanted) {
        let i = choose|i: int| 0 <= i < before.len() && before[i] == wanted;
        assert(all[i] == wanted);
    }
    if after.contains(wanted) {
        let i = choose|i: int| 0 <= i < after.len() && after[i] == wanted;
        assert(all[n + 1 + i] == wanted);
    }
    if all.contains(wanted) {
        let i = choose|i: int| 0 <= i < all.len() && all[i] == wanted;
        if i < n {
            assert(before[i] == wanted);
        } else if i > n {
            assert(after[i - n - 1] == wanted);
        }
    }
}

} // verus!
