//! Bringing one commit, or some of its files, onto the current branch.

use vstd::prelude::*;
use vstd::utf8::*;
use crate::commits::{CommitInfo, CommitModel, SHORT_HASH};
use crate::git::{
    git, git_result, run_git, Command, CommandModel, Fault, GitError, GitErrorModel, Reply,
    ReplyModel,
};
use crate::lists::{copy_bytes, copy_strings, no_items};
use crate::text::{
    can_split, contains, first_bytes, head, holds, law_first_bytes_of_ascii,
    law_holding_is_standing_between, splits_at, trim, trimmed, Text,
};

verus! {

/// Why a commit could not be applied.
#[derive(Debug, PartialEq, Eq)]
pub enum ApplyError {
    /// A git command gave no result.
    Git(GitError),
    /// The cherry-pick could not be run.
    PickNotRun,
    /// The cherry-pick along the first parent could not be run.
    RetryNotRun,
    /// The cherry-pick failed, with this message.
    PickFailed(String),
    /// The diff could not be run.
    DiffNotRun,
    /// The diff failed, with this message.
    DiffFailed(String),
    /// The diff of the commit with this hash is empty.
    NoDiff(String),
    /// Applying the patch could not be started.
    PatchNotStarted,
    /// Applying the patch offered no standard input.
    PatchNoStdin,
    /// The patch could not be handed over.
    PatchNotWritten,
    /// Applying the patch could not be waited for; the system's error message.
    PatchNotAwaited(String),
    /// The patch did not apply, with this message.
    PatchFailed(String),
}

/// The model of an [`ApplyError`].
pub enum ApplyErrorModel {
    Git(GitErrorModel),
    PickNotRun,
    RetryNotRun,
    PickFailed(Text),
    DiffNotRun,
    DiffFailed(Text),
    NoDiff(Text),
    PatchNotStarted,
    PatchNoStdin,
    PatchNotWritten,
    PatchNotAwaited(Text),
    PatchFailed(Text),
}

impl DeepView for ApplyError {
    type V = ApplyErrorModel;

    open spec fn deep_view(&self) -> ApplyErrorModel {
        match self {
            ApplyError::Git(error) => ApplyErrorModel::Git(error.deep_view()),
            ApplyError::PickNotRun => ApplyErrorModel::PickNotRun,
            ApplyError::RetryNotRun => ApplyErrorModel::RetryNotRun,
            ApplyError::PickFailed(text) => ApplyErrorModel::PickFailed(text@),
            ApplyError::DiffNotRun => ApplyErrorModel::DiffNotRun,
            ApplyError::DiffFailed(text) => ApplyErrorModel::DiffFailed(text@),
            ApplyError::NoDiff(hash) => ApplyErrorModel::NoDiff(hash@),
            ApplyError::PatchNotStarted => ApplyErrorModel::PatchNotStarted,
            ApplyError::PatchNoStdin => ApplyErrorModel::PatchNoStdin,
            ApplyError::PatchNotWritten => ApplyErrorModel::PatchNotWritten,
            ApplyError::PatchNotAwaited(cause) => ApplyErrorModel::PatchNotAwaited(cause@),
            ApplyError::PatchFailed(text) => ApplyErrorModel::PatchFailed(text@),
        }
    }
}

impl ApplyErrorModel {
    /// Whether the message can be made: it may need an abbreviated hash.
    pub open spec fn is_presentable(self) -> bool {
        self matches ApplyErrorModel::NoDiff(hash) ==> splits_at(hash, SHORT_HASH as int)
    }

    /// The message shown for the error.
    pub open spec fn message(self) -> Text {
        match self {
            ApplyErrorModel::Git(error) => error.message(),
            ApplyErrorModel::PickNotRun => "Failed to run git cherry-pick"@,
            ApplyErrorModel::RetryNotRun => "Failed to run git cherry-pick with -m 1"@,
            ApplyErrorModel::PickFailed(text) => "Cherry-pick failed: "@ + text,
            ApplyErrorModel::DiffNotRun => "Failed to run git diff"@,
            ApplyErrorModel::DiffFailed(text) => "git diff failed: "@ + text,
            ApplyErrorModel::NoDiff(hash) => "No diff output for selected files in commit "@
                + first_bytes(hash, SHORT_HASH as int)
                + ". They may be binary or permissions-only changes."@,
            ApplyErrorModel::PatchNotStarted => "Failed to spawn git apply"@,
            ApplyErrorModel::PatchNoStdin => "Failed to capture git apply stdin"@,
            ApplyErrorModel::PatchNotWritten => "Failed to write diff to git apply"@,
            ApplyErrorModel::PatchNotAwaited(cause) => cause,
            ApplyErrorModel::PatchFailed(text) => "Failed to apply patch: "@ + text,
        }
    }
}

impl ApplyError {
    /// Whether the message can be made.
    pub fn is_presentable(&self) -> (r: bool)
        ensures
            r == self.deep_view().is_presentable(),
    {
        match self {
            ApplyError::NoDiff(hash) => can_split(hash.as_str(), SHORT_HASH),
            _ => true,
        }
    }

    /// The message shown for the error.
    pub fn message(&self) -> (r: String)
        requires
            self.deep_view().is_presentable(),
        ensures
            r@ == self.deep_view().message(),
    {
        match self {
            ApplyError::Git(error) => error.message(),
            ApplyError::PickNotRun => "Failed to run git cherry-pick".to_string(),
            ApplyError::RetryNotRun => "Failed to run git cherry-pick with -m 1".to_string(),
            ApplyError::PickFailed(text) => "Cherry-pick failed: ".to_string().concat(
                text.as_str(),
            ),
            ApplyError::DiffNotRun => "Failed to run git diff".to_string(),
            ApplyError::DiffFailed(text) => "git diff failed: ".to_string().concat(text.as_str()),
            ApplyError::NoDiff(hash) => {
                let short: String = head(hash.as_str(), SHORT_HASH);
                "No diff output for selected files in commit ".to_string().concat(
                    short.as_str(),
                ).concat(". They may be binary or permissions-only changes.")
            },
            ApplyError::PatchNotStarted => "Failed to spawn git apply".to_string(),
            ApplyError::PatchNoStdin => "Failed to capture git apply stdin".to_string(),
            ApplyError::PatchNotWritten => "Failed to write diff to git apply".to_string(),
            ApplyError::PatchNotAwaited(cause) => cause.clone(),
            ApplyError::PatchFailed(text) => "Failed to apply patch: ".to_string().concat(
                text.as_str(),
            ),
        }
    }
}

/// Picks a commit.
pub open spec fn pick_model(hash: Text) -> CommandModel {
    git("cherry-pick"@).arg(hash)
}

/// Picks a merge commit along its first parent.
pub open spec fn pick_merge_model(hash: Text) -> CommandModel {
    git("cherry-pick"@).arg("-m"@).arg("1"@).arg(hash)
}

/// Gives up a cherry-pick under way.
pub open spec fn abort_model() -> CommandModel {
    git("cherry-pick"@).arg("--abort"@)
}

/// Asks whether a commit has a parent.
pub open spec fn parent_model(hash: Text) -> CommandModel {
    git("rev-parse"@).arg("--verify"@).arg(hash + "^"@)
}

/// Takes files as they are in a commit.
pub open spec fn checkout_model(hash: Text, files: Seq<Text>) -> CommandModel {
    git("checkout"@).arg(hash).arg("--"@).all_args(files)
}

/// Shows what a commit changed in files.
pub open spec fn diff_model(hash: Text, files: Seq<Text>) -> CommandModel {
    git("diff"@).arg("--binary"@).arg(hash + "^"@).arg(hash).arg("--"@).all_args(files)
}

/// Applies a patch to the work tree and the index.
pub open spec fn patch_model(diff: Seq<u8>) -> CommandModel {
    git("apply"@).arg("--3way"@).arg("--index"@).reading(diff)
}

/// The message of the commit that holds selected files of another.
pub open spec fn record_message(subject: Text, hash: Text) -> Text {
    subject + " (cherry-picked from "@ + hash + ")"@
}

/// Commits what the index holds.
pub open spec fn record_model(subject: Text, hash: Text) -> CommandModel {
    git("commit"@).arg("-m"@).arg(record_message(subject, hash)).arg("--no-verify"@)
}

/// The command under way.
#[derive(Debug, PartialEq, Eq)]
pub enum Stage {
    /// Picking the whole commit.
    Pick,
    /// Giving up the pick of a merge commit, to try again.
    AbortThenRetry,
    /// Picking a merge commit along its first parent.
    Retry,
    /// Giving up a pick that failed with this message.
    AbortThenFail(String),
    /// Asking whether the commit has a parent.
    Parent,
    /// Taking the files of a commit without a parent.
    Checkout,
    /// Finding out what the commit changed in the files.
    Diff,
    /// Applying those changes.
    Patch,
    /// Committing the files.
    Record,
}

/// The model of a [`Stage`].
pub enum StageModel {
    Pick,
    AbortThenRetry,
    Retry,
    AbortThenFail(Text),
    Parent,
    Checkout,
    Diff,
    Patch,
    Record,
}

impl DeepView for Stage {
    type V = StageModel;

    open spec fn deep_view(&self) -> StageModel {
        match self {
            Stage::Pick => StageModel::Pick,
            Stage::AbortThenRetry => StageModel::AbortThenRetry,
            Stage::Retry => StageModel::Retry,
            Stage::AbortThenFail(text) => StageModel::AbortThenFail(text@),
            Stage::Parent => StageModel::Parent,
            Stage::Checkout => StageModel::Checkout,
            Stage::Diff => StageModel::Diff,
            Stage::Patch => StageModel::Patch,
            Stage::Record => StageModel::Record,
        }
    }
}

impl StageModel {
    /// Whether the command belongs to applying a whole commit.
    pub open spec fn is_of_whole(self) -> bool {
        self is Pick || self is AbortThenRetry || self is Retry || self is AbortThenFail
    }
}

/// The applying of a commit, or of some of its files.
#[derive(Debug, PartialEq, Eq)]
pub struct Apply {
    pub hash: String,
    pub subject: String,
    pub files: Vec<String>,
    pub stage: Stage,
}

/// The model of an [`Apply`].
pub struct ApplyModel {
    pub hash: Text,
    pub subject: Text,
    pub files: Seq<Text>,
    pub stage: StageModel,
}

impl DeepView for Apply {
    type V = ApplyModel;

    open spec fn deep_view(&self) -> ApplyModel {
        ApplyModel {
            hash: self.hash@,
            subject: self.subject@,
            files: self.files.deep_view(),
            stage: self.stage.deep_view(),
        }
    }
}

/// What applying needs next, or what it came to.
#[derive(Debug, PartialEq, Eq)]
pub enum ApplyStep {
    /// A command to run; `merge_found` tells that the commit has just turned out
    /// to be a merge.
    Run { command: Command, merge_found: bool },
    Done(Result<(), ApplyError>),
}

/// The model of an [`ApplyStep`].
pub enum ApplyStepModel {
    Run { command: CommandModel, merge_found: bool },
    Done(Result<(), ApplyErrorModel>),
}

impl DeepView for ApplyStep {
    type V = ApplyStepModel;

    open spec fn deep_view(&self) -> ApplyStepModel {
        match self {
            ApplyStep::Run { command, merge_found } => ApplyStepModel::Run {
                command: command.deep_view(),
                merge_found: *merge_found,
            },
            ApplyStep::Done(Ok(_)) => ApplyStepModel::Done(Ok(())),
            ApplyStep::Done(Err(error)) => ApplyStepModel::Done(Err(error.deep_view())),
        }
    }
}

/// Running `command`, with nothing to report.
pub open spec fn running(command: CommandModel) -> ApplyStepModel {
    ApplyStepModel::Run { command, merge_found: false }
}

/// Failing with `error`.
pub open spec fn failing(error: ApplyErrorModel) -> ApplyStepModel {
    ApplyStepModel::Done(Err(error))
}

impl ApplyModel {
    /// The applying, with another command under way.
    pub open spec fn at(self, stage: StageModel) -> ApplyModel {
        ApplyModel { stage, ..self }
    }

    /// Starts committing the files.
    pub open spec fn recording(self) -> (ApplyModel, ApplyStepModel) {
        (self.at(StageModel::Record), running(record_model(self.subject, self.hash)))
    }

    /// Takes the reply to a cherry-pick into account. A failed one is given up;
    /// the first one is tried again if the commit turned out to be a merge.
    pub open spec fn picked(self, first: bool, reply: ReplyModel) -> (ApplyModel, ApplyStepModel) {
        match reply {
            ReplyModel::NotRun { .. } => (
                self,
                failing(
                    if first {
                        ApplyErrorModel::PickNotRun
                    } else {
                        ApplyErrorModel::RetryNotRun
                    },
                ),
            ),
            ReplyModel::Ran { success, err, .. } => if success {
                (self, ApplyStepModel::Done(Ok(())))
            } else if first && holds(err, "is a merge"@) {
                (
                    self.at(StageModel::AbortThenRetry),
                    ApplyStepModel::Run { command: abort_model(), merge_found: true },
                )
            } else {
                (self.at(StageModel::AbortThenFail(trimmed(err))), running(abort_model()))
            },
        }
    }

    /// Takes the reply to the question for a parent into account.
    pub open spec fn parent_known(self, reply: ReplyModel) -> (ApplyModel, ApplyStepModel) {
        if reply matches ReplyModel::Ran { success, .. } && success {
            (self.at(StageModel::Diff), running(diff_model(self.hash, self.files)))
        } else {
            (self.at(StageModel::Checkout), running(checkout_model(self.hash, self.files)))
        }
    }

    /// Takes the diff into account.
    pub open spec fn diffed(self, reply: ReplyModel) -> (ApplyModel, ApplyStepModel) {
        match reply {
            ReplyModel::NotRun { .. } => (self, failing(ApplyErrorModel::DiffNotRun)),
            ReplyModel::Ran { success, bytes, err, .. } => if !success {
                (self, failing(ApplyErrorModel::DiffFailed(trimmed(err))))
            } else if bytes.len() == 0 {
                (self, failing(ApplyErrorModel::NoDiff(self.hash)))
            } else {
                (self.at(StageModel::Patch), running(patch_model(bytes)))
            },
        }
    }

    /// Takes the outcome of applying the patch into account.
    pub open spec fn patched(self, reply: ReplyModel) -> (ApplyModel, ApplyStepModel) {
        match reply {
            ReplyModel::NotRun { fault, cause } => (
                self,
                failing(
                    match fault {
                        Fault::Start => ApplyErrorModel::PatchNotStarted,
                        Fault::Stdin => ApplyErrorModel::PatchNoStdin,
                        Fault::Write => ApplyErrorModel::PatchNotWritten,
                        Fault::Wait => ApplyErrorModel::PatchNotAwaited(cause),
                    },
                ),
            ),
            ReplyModel::Ran { success, err, .. } => if success {
                self.recording()
            } else {
                (self, failing(ApplyErrorModel::PatchFailed(trimmed(err))))
            },
        }
    }

    /// Takes the reply to the command under way into account.
    pub open spec fn resumed(self, reply: ReplyModel) -> (ApplyModel, ApplyStepModel) {
        match self.stage {
            StageModel::Pick => self.picked(true, reply),
            StageModel::AbortThenRetry => (
                self.at(StageModel::Retry),
                running(pick_merge_model(self.hash)),
            ),
            StageModel::Retry => self.picked(false, reply),
            StageModel::AbortThenFail(text) => (
                self,
                failing(ApplyErrorModel::PickFailed(text)),
            ),
            StageModel::Parent => self.parent_known(reply),
            StageModel::Checkout => match git_result(
                checkout_model(self.hash, self.files).args,
                reply,
            ) {
                Ok(_) => self.recording(),
                Err(error) => (self, failing(ApplyErrorModel::Git(error))),
            },
            StageModel::Diff => self.diffed(reply),
            StageModel::Patch => self.patched(reply),
            StageModel::Record => match git_result(
                record_model(self.subject, self.hash).args,
                reply,
            ) {
                Ok(_) => (self, ApplyStepModel::Done(Ok(()))),
                Err(error) => (self, failing(ApplyErrorModel::Git(error))),
            },
        }
    }
}

/// Applying a whole commit, before the first reply.
pub open spec fn whole_start(commit: CommitModel) -> ApplyModel {
    ApplyModel {
        hash: commit.hash,
        subject: commit.subject,
        files: Seq::empty(),
        stage: StageModel::Pick,
    }
}

/// Applying files of a commit, before the first reply.
pub open spec fn files_start(commit: CommitModel, files: Seq<Text>) -> ApplyModel {
    ApplyModel {
        hash: commit.hash,
        subject: commit.subject,
        files,
        stage: StageModel::Parent,
    }
}

/// The first step of applying files of a commit: without files there is nothing
/// to do.
pub open spec fn first_files_step(commit: CommitModel, files: Seq<Text>) -> ApplyStepModel {
    if files.len() == 0 {
        ApplyStepModel::Done(Ok(()))
    } else {
        running(parent_model(commit.hash))
    }
}

/// Starts applying a whole commit.
pub fn apply_whole_commit(commit: &CommitInfo) -> (r: (Apply, ApplyStep))
    ensures
        r.0.deep_view() == whole_start(commit.deep_view()),
        r.1.deep_view() == running(pick_model(commit.hash@)),
{
    let apply: Apply = Apply {
        hash: commit.hash.clone(),
        subject: commit.subject.clone(),
        files: no_items(),
        stage: Stage::Pick,
    };
    let command: Command = Command::git("cherry-pick").arg(commit.hash.as_str());
    (apply, ApplyStep::Run { command, merge_found: false })
}

/// Starts applying files of a commit.
pub fn apply_file_selection(commit: &CommitInfo, files: &Vec<String>) -> (r: (Apply, ApplyStep))
    ensures
        r.0.deep_view() == files_start(commit.deep_view(), files.deep_view()),
        r.1.deep_view() == first_files_step(commit.deep_view(), files.deep_view()),
{
    let apply: Apply = Apply {
        hash: commit.hash.clone(),
        subject: commit.subject.clone(),
        files: copy_strings(files),
        stage: Stage::Parent,
    };
    if files.is_empty() {
        (apply, ApplyStep::Done(Ok(())))
    } else {
        let parent: String = commit.hash.clone().concat("^");
        let command: Command = Command::git("rev-parse").arg("--verify").arg(parent.as_str());
        (apply, ApplyStep::Run { command, merge_found: false })
    }
}

impl Apply {
    /// Starts committing the files.
    fn record(&mut self) -> (r: ApplyStep)
        ensures
            (final(self).deep_view(), r.deep_view()) == old(self).deep_view().recording(),
    {
        let command: Command = self.record_command();
        self.stage = Stage::Record;
        ApplyStep::Run { command, merge_found: false }
    }

    /// Commits what the index holds.
    fn record_command(&self) -> (r: Command)
        ensures
            r.deep_view() == record_model(self.subject@, self.hash@),
    {
        let message: String = self.subject.clone().concat(" (cherry-picked from ").concat(
            self.hash.as_str(),
        ).concat(")");
        Command::git("commit").arg("-m").arg(message.as_str()).arg("--no-verify")
    }

    /// Takes files as they are in the commit.
    fn checkout_command(&self) -> (r: Command)
        ensures
            r.deep_view() == checkout_model(self.hash@, self.files.deep_view()),
    {
        Command::git("checkout").arg(self.hash.as_str()).arg("--").all_args(&self.files)
    }

    /// Shows what the commit changed in the files.
    fn diff_command(&self) -> (r: Command)
        ensures
            r.deep_view() == diff_model(self.hash@, self.files.deep_view()),
    {
        let parent: String = self.hash.clone().concat("^");
        Command::git("diff").arg("--binary").arg(parent.as_str()).arg(self.hash.as_str()).arg(
            "--",
        ).all_args(&self.files)
    }

    /// Takes the reply to a cherry-pick into account.
    fn picked(&mut self, first: bool, reply: &Reply) -> (r: ApplyStep)
        ensures
            (final(self).deep_view(), r.deep_view()) == old(self).deep_view().picked(
                first,
                reply.deep_view(),
            ),
    {
        match reply {
            Reply::NotRun { .. } => if first {
                ApplyStep::Done(Err(ApplyError::PickNotRun))
            } else {
                ApplyStep::Done(Err(ApplyError::RetryNotRun))
            },
            Reply::Ran { success, err, .. } => {
                if *success {
                    return ApplyStep::Done(Ok(()));
                }
                let command: Command = Command::git("cherry-pick").arg("--abort");
                if first && contains(err.as_str(), "is a merge") {
                    self.stage = Stage::AbortThenRetry;
                    ApplyStep::Run { command, merge_found: true }
                } else {
                    self.stage = Stage::AbortThenFail(trim(err.as_str()));
                    ApplyStep::Run { command, merge_found: false }
                }
            },
        }
    }

    /// Takes the reply to the question for a parent into account.
    fn parent_known(&mut self, reply: &Reply) -> (r: ApplyStep)
        ensures
            (final(self).deep_view(), r.deep_view()) == old(self).deep_view().parent_known(
                reply.deep_view(),
            ),
    {
        let has_parent: bool = match reply {
            Reply::Ran { success, .. } => *success,
            Reply::NotRun { .. } => false,
        };
        if has_parent {
            self.stage = Stage::Diff;
            ApplyStep::Run { command: self.diff_command(), merge_found: false }
        } else {
            self.stage = Stage::Checkout;
            ApplyStep::Run { command: self.checkout_command(), merge_found: false }
        }
    }

    /// Takes the diff into account.
    fn diffed(&mut self, reply: &Reply) -> (r: ApplyStep)
        ensures
            (final(self).deep_view(), r.deep_view()) == old(self).deep_view().diffed(
                reply.deep_view(),
            ),
    {
        match reply {
            Reply::NotRun { .. } => ApplyStep::Done(Err(ApplyError::DiffNotRun)),
            Reply::Ran { success, bytes, err, .. } => if !*success {
                ApplyStep::Done(Err(ApplyError::DiffFailed(trim(err.as_str()))))
            } else if bytes.is_empty() {
                ApplyStep::Done(Err(ApplyError::NoDiff(self.hash.clone())))
            } else {
                self.stage = Stage::Patch;
                let command: Command = Command::git("apply").arg("--3way").arg("--index").reading(
                    copy_bytes(bytes),
                );
                ApplyStep::Run { command, merge_found: false }
            },
        }
    }

    /// Takes the outcome of applying the patch into account.
    fn patched(&mut self, reply: &Reply) -> (r: ApplyStep)
        ensures
            (final(self).deep_view(), r.deep_view()) == old(self).deep_view().patched(
                reply.deep_view(),
            ),
    {
        match reply {
            Reply::NotRun { fault, cause } => {
                let error: ApplyError = match fault {
                    Fault::Start => ApplyError::PatchNotStarted,
                    Fault::Stdin => ApplyError::PatchNoStdin,
                    Fault::Write => ApplyError::PatchNotWritten,
                    Fault::Wait => ApplyError::PatchNotAwaited(cause.clone()),
                };
                ApplyStep::Done(Err(error))
            },
            Reply::Ran { success, err, .. } => if *success {
                self.record()
            } else {
                ApplyStep::Done(Err(ApplyError::PatchFailed(trim(err.as_str()))))
            },
        }
    }

    /// Takes the reply to the command under way into account.
    pub fn resume(&mut self, reply: &Reply) -> (r: ApplyStep)
        ensures
            (final(self).deep_view(), r.deep_view()) == old(self).deep_view().resumed(
                reply.deep_view(),
            ),
    {
        match &self.stage {
            Stage::Pick => self.picked(true, reply),
            Stage::AbortThenRetry => {
                self.stage = Stage::Retry;
                let command: Command = Command::git("cherry-pick").arg("-m").arg("1").arg(
                    self.hash.as_str(),
                );
                ApplyStep::Run { command, merge_found: false }
            },
            Stage::Retry => self.picked(false, reply),
            Stage::AbortThenFail(text) => ApplyStep::Done(Err(ApplyError::PickFailed(text.clone()))),
            Stage::Parent => self.parent_known(reply),
            Stage::Checkout => match run_git(&self.checkout_command().args, reply) {
                Ok(_) => self.record(),
                Err(error) => ApplyStep::Done(Err(ApplyError::Git(error))),
            },
            Stage::Diff => self.diffed(reply),
            Stage::Patch => self.patched(reply),
            Stage::Record => match run_git(&self.record_command().args, reply) {
                Ok(_) => ApplyStep::Done(Ok(())),
                Err(error) => ApplyStep::Done(Err(ApplyError::Git(error))),
            },
        }
    }
}

/// The commands of an applying that gets `replies`, and what it comes to if the
/// replies suffice.
pub open spec fn apply_run(
    apply: ApplyModel,
    step: ApplyStepModel,
    replies: Seq<ReplyModel>,
) -> (Seq<CommandModel>, Option<Result<(), ApplyErrorModel>>)
    decreases replies.len(),
{
    match step {
        ApplyStepModel::Done(result) => (Seq::empty(), Some(result)),
        ApplyStepModel::Run { command, .. } => if replies.len() == 0 {
            (seq![command], None)
        } else {
            let (apply, step) = apply.resumed(replies[0]);
            let (commands, result) = apply_run(apply, step, replies.skip(1));
            (seq![command] + commands, result)
        },
    }
}

/// Whether git ran and reported success.
pub open spec fn succeeded(reply: ReplyModel) -> bool {
    reply matches ReplyModel::Ran { success, .. } && success
}

/// Whether git ran and reported failure.
pub open spec fn failed(reply: ReplyModel) -> bool {
    reply matches ReplyModel::Ran { success, .. } && !success
}

/// Whether git failed because the commit is a merge.
pub open spec fn found_merge(reply: ReplyModel) -> bool {
    failed(reply) && holds(reply->err, "is a merge"@)
}

/// A whole commit is applied exactly if its cherry-pick succeeds, or if it turns
/// out to be a merge and the cherry-pick along its first parent succeeds. Every
/// cherry-pick that fails is given up before anything else happens, and nothing
/// but cherry-picks of this commit and their giving up is ever run.
pub proof fn law_whole_commit(commit: CommitModel, replies: Seq<ReplyModel>)
    requires
        replies.len() >= 4,
    ensures
        ({
            let (commands, outcome) = apply_run(
                whole_start(commit),
                running(pick_model(commit.hash)),
                replies,
            );
            let pick = pick_model(commit.hash);
            let retry = pick_merge_model(commit.hash);
            let abort = abort_model();
            &&& outcome is Some
            &&& outcome->Some_0 is Ok <==> succeeded(replies[0]) || (found_merge(replies[0])
                && succeeded(replies[2]))
            &&& !failed(replies[0]) ==> commands == seq![pick]
            &&& failed(replies[0]) && !found_merge(replies[0]) ==> commands == seq![pick, abort]
                && outcome->Some_0 == Err::<(), _>(
                ApplyErrorModel::PickFailed(trimmed(replies[0]->err)),
            )
            &&& found_merge(replies[0]) && !failed(replies[2]) ==> commands == seq![
                pick,
                abort,
                retry,
            ]
            &&& found_merge(replies[0]) && failed(replies[2]) ==> commands == seq![
                pick,
                abort,
                retry,
                abort,
            ] && outcome->Some_0 == Err::<(), _>(
                ApplyErrorModel::PickFailed(trimmed(replies[2]->err)),
            )
        }),
{
    reveal_with_fuel(apply_run, 5);
    let r1 = replies.skip(1);
    let r2 = r1.skip(1);
    let r3 = r2.skip(1);
    assert(r1[0] == replies[1] && r2[0] == replies[2] && r3[0] == replies[3]);
    let (commands, outcome) = apply_run(
        whole_start(commit),
        running(pick_model(commit.hash)),
        replies,
    );
    let pick = pick_model(commit.hash);
    let retry = pick_merge_model(commit.hash);
    let abort = abort_model();
    if !failed(replies[0]) {
        assert(commands =~= seq![pick]);
    } else if !found_merge(replies[0]) {
        assert(commands =~= seq![pick, abort]);
    } else if !failed(replies[2]) {
        assert(commands =~= seq![pick, abort, retry]);
    } else {
        assert(commands =~= seq![pick, abort, retry, abort]);
    }
}

/// Selected files are applied exactly if each step succeeds: for a commit with a
/// parent the diff, which must not be empty, the patch and the commit; for one
/// without, the checkout and the commit. The patch is the diff of those files,
/// byte for byte, and nothing is committed unless the files were brought over.
pub proof fn law_selected_files(commit: CommitModel, files: Seq<Text>, replies: Seq<ReplyModel>)
    requires
        files.len() > 0,
        replies.len() >= 4,
    ensures
        ({
            let (commands, outcome) = apply_run(
                files_start(commit, files),
                first_files_step(commit, files),
                replies,
            );
            let parent = parent_model(commit.hash);
            let checkout = checkout_model(commit.hash, files);
            let diff = diff_model(commit.hash, files);
            let record = record_model(commit.subject, commit.hash);
            let has_diff = succeeded(replies[1]) && replies[1]->bytes.len() > 0;
            let patch = patch_model(replies[1]->bytes);
            &&& outcome is Some
            &&& succeeded(replies[0]) ==> (outcome->Some_0 is Ok <==> has_diff && succeeded(
                replies[2],
            ) && succeeded(replies[3]))
            &&& !succeeded(replies[0]) ==> (outcome->Some_0 is Ok <==> succeeded(replies[1])
                && succeeded(replies[2]))
            &&& succeeded(replies[0]) && !has_diff ==> commands == seq![parent, diff]
            &&& succeeded(replies[0]) && has_diff && !succeeded(replies[2]) ==> commands == seq![
                parent,
                diff,
                patch,
            ]
            &&& succeeded(replies[0]) && has_diff && succeeded(replies[2]) ==> commands == seq![
                parent,
                diff,
                patch,
                record,
            ]
            &&& !succeeded(replies[0]) && !succeeded(replies[1]) ==> commands == seq![
                parent,
                checkout,
            ]
            &&& !succeeded(replies[0]) && succeeded(replies[1]) ==> commands == seq![
                parent,
                checkout,
                record,
            ]
        }),
{
    reveal_with_fuel(apply_run, 5);
    let r1 = replies.skip(1);
    let r2 = r1.skip(1);
    let r3 = r2.skip(1);
    assert(r1[0] == replies[1] && r2[0] == replies[2] && r3[0] == replies[3]);
    let (commands, outcome) = apply_run(
        files_start(commit, files),
        first_files_step(commit, files),
        replies,
    );
    let parent = parent_model(commit.hash);
    let checkout = checkout_model(commit.hash, files);
    let diff = diff_model(commit.hash, files);
    let record = record_model(commit.subject, commit.hash);
    let patch = patch_model(replies[1]->bytes);
    if succeeded(replies[0]) {
        if !(succeeded(replies[1]) && replies[1]->bytes.len() > 0) {
            assert(commands =~= seq![parent, diff]);
        } else if !succeeded(replies[2]) {
            assert(commands =~= seq![parent, diff, patch]);
        } else {
            assert(commands =~= seq![parent, diff, patch, record]);
        }
    } else if !succeeded(replies[1]) {
        assert(commands =~= seq![parent, checkout]);
    } else {
        assert(commands =~= seq![parent, checkout, record]);
    }
}

/// Applying no files of a commit succeeds without running anything.
pub proof fn law_no_files_nothing_to_do(commit: CommitModel, replies: Seq<ReplyModel>)
    ensures
        apply_run(
            files_start(commit, Seq::empty()),
            first_files_step(commit, Seq::empty()),
            replies,
        ) == (Seq::<CommandModel>::empty(), Some(Ok::<(), ApplyErrorModel>(()))),
{
}

/// The commands that bring changes over, word by word.
pub proof fn law_changes_word_by_word(
    hash: Text,
    subject: Text,
    files: Seq<Text>,
    diff: Seq<u8>,
)
    ensures
        pick_model(hash).args == seq!["cherry-pick"@, hash],
        pick_model(hash).input is None,
        pick_merge_model(hash).args == seq!["cherry-pick"@, "-m"@, "1"@, hash],
        pick_merge_model(hash).input is None,
        abort_model().args == seq!["cherry-pick"@, "--abort"@],
        abort_model().input is None,
        parent_model(hash).args == seq!["rev-parse"@, "--verify"@, hash + "^"@],
        parent_model(hash).input is None,
        checkout_model(hash, files).args == seq!["checkout"@, hash, "--"@] + files,
        checkout_model(hash, files).input is None,
        diff_model(hash, files).args == seq!["diff"@, "--binary"@, hash + "^"@, hash, "--"@]
            + files,
        diff_model(hash, files).input is None,
        patch_model(diff).args == seq!["apply"@, "--3way"@, "--index"@],
        patch_model(diff).input == Some(diff),
        record_model(subject, hash).args == seq![
            "commit"@,
            "-m"@,
            subject + " (cherry-picked from "@ + hash + ")"@,
            "--no-verify"@,
        ],
        record_model(subject, hash).input is None,
{
    assert(pick_model(hash).args =~= seq!["cherry-pick"@, hash]);
    assert(pick_merge_model(hash).args =~= seq!["cherry-pick"@, "-m"@, "1"@, hash]);
    assert(abort_model().args =~= seq!["cherry-pick"@, "--abort"@]);
    assert(parent_model(hash).args =~= seq!["rev-parse"@, "--verify"@, hash + "^"@]);
    assert(checkout_model(hash, files).args =~= seq!["checkout"@, hash, "--"@] + files);
    assert(diff_model(hash, files).args =~= seq![
        "diff"@,
        "--binary"@,
        hash + "^"@,
        hash,
        "--"@,
    ] + files);
    assert(patch_model(diff).args =~= seq!["apply"@, "--3way"@, "--index"@]);
    assert(record_model(subject, hash).args =~= seq![
        "commit"@,
        "-m"@,
        subject + " (cherry-picked from "@ + hash + ")"@,
        "--no-verify"@,
    ]);
}

/// Whether the step is to run git with these arguments and nothing to read.
pub open spec fn runs(step: ApplyStepModel, args: Seq<Text>) -> bool {
    step matches ApplyStepModel::Run { command, .. } && command.args == args && command.input is None
}

/// Whether the step is the failure of a command with these arguments, given how it
/// went.
pub open spec fn fails_with(
    step: ApplyStepModel,
    args: Seq<Text>,
    reply: ReplyModel,
) -> bool {
    match reply {
        ReplyModel::NotRun { fault, cause } => step == ApplyStepModel::Done(
            Err(ApplyErrorModel::Git(GitErrorModel::NotRun { args, cause })),
        ),
        ReplyModel::Ran { success, bytes, out, err } => step == ApplyStepModel::Done(
            Err(ApplyErrorModel::Git(GitErrorModel::Failed(trimmed(err)))),
        ),
    }
}

/// Once the diff of selected files is known, git is to apply it: it reads exactly
/// the bytes that the diff printed. A diff that failed, or printed nothing, is an
/// error, and nothing is applied.
pub proof fn law_patch_is_the_diff_byte_for_byte(job: ApplyModel, reply: ReplyModel)
    requires
        job.stage is Diff,
    ensures
        ({
            let (next, step) = job.resumed(reply);
            &&& next.hash == job.hash && next.subject == job.subject && next.files == job.files
            &&& match reply {
                ReplyModel::NotRun { fault, cause } => step == ApplyStepModel::Done(
                    Err(ApplyErrorModel::DiffNotRun),
                ),
                ReplyModel::Ran { success, bytes, out, err } => {
                    &&& !success ==> step == ApplyStepModel::Done(
                        Err(ApplyErrorModel::DiffFailed(trimmed(err))),
                    )
                    &&& success && bytes.len() == 0 ==> step == ApplyStepModel::Done(
                        Err(ApplyErrorModel::NoDiff(job.hash)),
                    )
                    &&& success && bytes.len() > 0 ==> {
                        &&& next.stage is Patch
                        &&& step is Run
                        &&& step->command.args == seq!["apply"@, "--3way"@, "--index"@]
                        &&& step->command.input == Some(bytes)
                        &&& !step->merge_found
                    }
                },
            }
        }),
{
    if let ReplyModel::Ran { bytes, .. } = reply {
        law_changes_word_by_word(job.hash, job.subject, job.files, bytes);
    }
}

/// A commit is recorded under its subject and hash once the patch has been applied;
/// a patch that was not applied is an error, and nothing is recorded.
pub proof fn law_recording_follows_the_patch(job: ApplyModel, reply: ReplyModel)
    requires
        job.stage is Patch,
    ensures
        ({
            let (next, step) = job.resumed(reply);
            &&& next.hash == job.hash && next.subject == job.subject && next.files == job.files
            &&& match reply {
                ReplyModel::NotRun { fault, cause } => step == ApplyStepModel::Done(
                    Err(
                        match fault {
                            Fault::Start => ApplyErrorModel::PatchNotStarted,
                            Fault::Stdin => ApplyErrorModel::PatchNoStdin,
                            Fault::Write => ApplyErrorModel::PatchNotWritten,
                            Fault::Wait => ApplyErrorModel::PatchNotAwaited(cause),
                        },
                    ),
                ),
                ReplyModel::Ran { success, bytes, out, err } => {
                    &&& !success ==> step == ApplyStepModel::Done(
                        Err(ApplyErrorModel::PatchFailed(trimmed(err))),
                    )
                    &&& success ==> next.stage is Record && !step->merge_found && runs(
                        step,
                        seq![
                            "commit"@,
                            "-m"@,
                            job.subject + " (cherry-picked from "@ + job.hash + ")"@,
                            "--no-verify"@,
                        ],
                    )
                },
            }
        }),
{
    law_changes_word_by_word(job.hash, job.subject, job.files, Seq::empty());
}

/// Of a commit with a parent the diff of the selected files is asked for; of one
/// without, the files are checked out, and a commit is recorded once they are. With
/// the commit recorded the job is done.
pub proof fn law_selected_files_step_by_step(job: ApplyModel, reply: ReplyModel)
    ensures
        ({
            let (next, step) = job.resumed(reply);
            let ran = reply matches ReplyModel::Ran { success, .. } && success;
            let diff = seq!["diff"@, "--binary"@, job.hash + "^"@, job.hash, "--"@] + job.files;
            let checkout = seq!["checkout"@, job.hash, "--"@] + job.files;
            let record = seq![
                "commit"@,
                "-m"@,
                job.subject + " (cherry-picked from "@ + job.hash + ")"@,
                "--no-verify"@,
            ];
            &&& next.hash == job.hash && next.subject == job.subject && next.files == job.files
            &&& job.stage is Parent && ran ==> next.stage is Diff && !step->merge_found && runs(
                step,
                diff,
            )
            &&& job.stage is Parent && !ran ==> next.stage is Checkout && !step->merge_found
                && runs(step, checkout)
            &&& job.stage is Checkout && ran ==> next.stage is Record && !step->merge_found && runs(
                step,
                record,
            )
            &&& job.stage is Checkout && !ran ==> fails_with(step, checkout, reply)
            &&& job.stage is Record && ran ==> step == ApplyStepModel::Done(Ok(()))
            &&& job.stage is Record && !ran ==> fails_with(step, record, reply)
        }),
{
    law_changes_word_by_word(job.hash, job.subject, job.files, Seq::empty());
}

/// A cherry-pick that succeeds is the end of it. One that fails is given up; then
/// it is tried again along the first parent if it was the first try and git spoke of
/// a merge, and otherwise git's complaint is the error.
pub proof fn law_whole_commit_step_by_step(job: ApplyModel, reply: ReplyModel)
    ensures
        ({
            let (next, step) = job.resumed(reply);
            let abort = seq!["cherry-pick"@, "--abort"@];
            let trying = job.stage is Pick || job.stage is Retry;
            &&& trying ==> match reply {
                ReplyModel::NotRun { fault, cause } => step == ApplyStepModel::Done(
                    Err(
                        if job.stage is Pick {
                            ApplyErrorModel::PickNotRun
                        } else {
                            ApplyErrorModel::RetryNotRun
                        },
                    ),
                ),
                ReplyModel::Ran { success, bytes, out, err } => {
                    let merge = job.stage is Pick && exists|a: Text, b: Text|
                        err == #[trigger] (a + "is a merge"@ + b);
                    &&& success ==> step == ApplyStepModel::Done(Ok(()))
                    &&& !success && merge ==> next.stage is AbortThenRetry && step->merge_found
                        && runs(step, abort)
                    &&& !success && !merge ==> next.stage == StageModel::AbortThenFail(
                        trimmed(err),
                    ) && !step->merge_found && runs(step, abort)
                },
            }
            &&& job.stage is AbortThenRetry ==> next.stage is Retry && !step->merge_found && runs(
                step,
                seq!["cherry-pick"@, "-m"@, "1"@, job.hash],
            )
            &&& job.stage matches StageModel::AbortThenFail(text) ==> step == ApplyStepModel::Done(
                Err(ApplyErrorModel::PickFailed(text)),
            )
        }),
{
    law_changes_word_by_word(job.hash, job.subject, job.files, Seq::empty());
    if let ReplyModel::Ran { err, .. } = reply {
        law_holding_is_standing_between(err, "is a merge"@);
    }
}

/// Applying begins with a cherry-pick of the commit, or with the question for its
/// parent where only files of it are applied; without files there is nothing to do.
pub proof fn law_applying_begins(commit: CommitModel, files: Seq<Text>)
    ensures
        whole_start(commit).hash == commit.hash,
        whole_start(commit).subject == commit.subject,
        whole_start(commit).stage is Pick,
        files_start(commit, files).hash == commit.hash,
        files_start(commit, files).subject == commit.subject,
        files_start(commit, files).files == files,
        files_start(commit, files).stage is Parent,
        files.len() == 0 ==> first_files_step(commit, files) == ApplyStepModel::Done(Ok(())),
        files.len() > 0 ==> !first_files_step(commit, files)->merge_found && runs(
            first_files_step(commit, files),
            seq!["rev-parse"@, "--verify"@, commit.hash + "^"@],
        ),
        !running(pick_model(commit.hash))->merge_found,
        runs(running(pick_model(commit.hash)), seq!["cherry-pick"@, commit.hash]),
{
    law_changes_word_by_word(commit.hash, commit.subject, files, Seq::empty());
}

/// What is said of a commit that could not be applied.
pub proof fn law_apply_errors_say_what_happened(text: Text, error: GitErrorModel)
    ensures
        ApplyErrorModel::Git(error).message() == error.message(),
        ApplyErrorModel::PickNotRun.message() == "Failed to run git cherry-pick"@,
        ApplyErrorModel::RetryNotRun.message() == "Failed to run git cherry-pick with -m 1"@,
        ApplyErrorModel::PickFailed(text).message() == "Cherry-pick failed: "@ + text,
        ApplyErrorModel::DiffNotRun.message() == "Failed to run git diff"@,
        ApplyErrorModel::DiffFailed(text).message() == "git diff failed: "@ + text,
        ApplyErrorModel::PatchNotStarted.message() == "Failed to spawn git apply"@,
        ApplyErrorModel::PatchNoStdin.message() == "Failed to capture git apply stdin"@,
        ApplyErrorModel::PatchNotWritten.message() == "Failed to write diff to git apply"@,
        ApplyErrorModel::PatchNotAwaited(text).message() == text,
        ApplyErrorModel::PatchFailed(text).message() == "Failed to apply patch: "@ + text,
        is_ascii_chars(text) && text.len() >= 8 ==> ApplyErrorModel::NoDiff(text).message()
            == "No diff output for selected files in commit "@ + text.take(8)
            + ". They may be binary or permissions-only changes."@,
{
    if is_ascii_chars(text) && text.len() >= 8 {
        law_first_bytes_of_ascii(text, 8);
    }
}

/// The models of jobs, their steps and their errors hold all of their parts.
pub proof fn law_models_hold_every_job(job: Apply, step: ApplyStep)
    ensures
        job.deep_view().hash == job.hash@,
        job.deep_view().subject == job.subject@,
        job.deep_view().files == job.files.deep_view(),
        job.stage is Pick <==> job.deep_view().stage is Pick,
        job.stage is AbortThenRetry <==> job.deep_view().stage is AbortThenRetry,
        job.stage is Retry <==> job.deep_view().stage is Retry,
        job.stage is Parent <==> job.deep_view().stage is Parent,
        job.stage is Checkout <==> job.deep_view().stage is Checkout,
        job.stage is Diff <==> job.deep_view().stage is Diff,
        job.stage is Patch <==> job.deep_view().stage is Patch,
        job.stage is Record <==> job.deep_view().stage is Record,
        job.stage matches Stage::AbortThenFail(text) ==> job.deep_view().stage
            == StageModel::AbortThenFail(text@),
        step matches ApplyStep::Run { command, merge_found } ==> step.deep_view() == (
        ApplyStepModel::Run { command: command.deep_view(), merge_found }),
        step matches ApplyStep::Done(Ok(_)) ==> step.deep_view() == ApplyStepModel::Done(Ok(())),
        step matches ApplyStep::Done(Err(error)) ==> step.deep_view() == ApplyStepModel::Done(
            Err(error.deep_view()),
        ),
{
}

/// The models of errors hold all of their parts.
pub proof fn law_models_hold_every_error(error: ApplyError)
    ensures
        error matches ApplyError::Git(inner) ==> error.deep_view() == ApplyErrorModel::Git(
            inner.deep_view(),
        ),
        error is PickNotRun <==> error.deep_view() is PickNotRun,
        error is RetryNotRun <==> error.deep_view() is RetryNotRun,
        error matches ApplyError::PickFailed(text) ==> error.deep_view()
            == ApplyErrorModel::PickFailed(text@),
        error is DiffNotRun <==> error.deep_view() is DiffNotRun,
        error matches ApplyError::DiffFailed(text) ==> error.deep_view()
            == ApplyErrorModel::DiffFailed(text@),
        error matches ApplyError::NoDiff(hash) ==> error.deep_view() == ApplyErrorModel::NoDiff(
            hash@,
        ),
        error is PatchNotStarted <==> error.deep_view() is PatchNotStarted,
        error is PatchNoStdin <==> error.deep_view() is PatchNoStdin,
        error is PatchNotWritten <==> error.deep_view() is PatchNotWritten,
        error matches ApplyError::PatchNotAwaited(cause) ==> error.deep_view()
            == ApplyErrorModel::PatchNotAwaited(cause@),
        error matches ApplyError::PatchFailed(text) ==> error.deep_view()
            == ApplyErrorModel::PatchFailed(text@),
{
}

} // verus!
