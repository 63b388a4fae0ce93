//! Git commands, how they went, and the questions that one command answers.

use vstd::prelude::*;
use vstd::utf8::*;
use crate::lists::{copy_strings, no_items, one, put, put_all};
use crate::text::{
    entries, entries_of, is_white, join, joined, law_trimmed_is_empty_for_white_space_only,
    law_trimmed_is_what_stands_between, trim, trimmed, Text,
};

verus! {

/// A git command: its arguments, and what it reads on its standard input.
#[derive(Debug, PartialEq, Eq)]
pub struct Command {
    pub args: Vec<String>,
    pub input: Option<Vec<u8>>,
}

/// The model of a [`Command`].
pub struct CommandModel {
    pub args: Seq<Text>,
    pub input: Option<Seq<u8>>,
}

impl DeepView for Command {
    type V = CommandModel;

    open spec fn deep_view(&self) -> CommandModel {
        CommandModel {
            args: self.args.deep_view(),
            input: match self.input {
                Some(bytes) => Some(bytes@),
                None => None,
            },
        }
    }
}

impl CommandModel {
    /// The command with one more argument.
    pub open spec fn arg(self, text: Text) -> CommandModel {
        CommandModel { args: self.args.push(text), ..self }
    }

    /// The command with more arguments.
    pub open spec fn all_args(self, texts: Seq<Text>) -> CommandModel {
        CommandModel { args: self.args + texts, ..self }
    }

    /// The command with `bytes` on its standard input.
    pub open spec fn reading(self, bytes: Seq<u8>) -> CommandModel {
        CommandModel { input: Some(bytes), ..self }
    }
}

/// The git command `name`, without further arguments or input.
pub open spec fn git(name: Text) -> CommandModel {
    CommandModel { args: Seq::<Text>::empty().push(name), input: None }
}

impl Command {
    /// The git command `name`, without further arguments or input.
    pub fn git(name: &str) -> (r: Command)
        ensures
            r.deep_view() == git(name@),
    {
        let mut args: Vec<String> = no_items();
        put(&mut args, name.to_string());
        Command { args, input: None }
    }

    /// The command with one more argument.
    pub fn arg(self, text: &str) -> (r: Command)
        ensures
            r.deep_view() == self.deep_view().arg(text@),
    {
        let mut args: Vec<String> = self.args;
        put(&mut args, text.to_string());
        Command { args, input: self.input }
    }

    /// The command with more arguments.
    pub fn all_args(self, texts: &Vec<String>) -> (r: Command)
        ensures
            r.deep_view() == self.deep_view().all_args(texts.deep_view()),
    {
        let mut args: Vec<String> = self.args;
        put_all(&mut args, copy_strings(texts));
        Command { args, input: self.input }
    }

    /// The command with `bytes` on its standard input.
    pub fn reading(self, bytes: Vec<u8>) -> (r: Command)
        ensures
            r.deep_view() == self.deep_view().reading(bytes@),
    {
        Command { args: self.args, input: Some(bytes) }
    }
}

/// Where running a command broke down before git could finish.
#[derive(Clone, Copy, Debug, PartialEq, Eq, Structural)]
pub enum Fault {
    /// The process could not be started.
    Start,
    /// The process has no standard input to write to.
    Stdin,
    /// The input could not be written.
    Write,
    /// The process could not be waited for.
    Wait,
}

/// How running a command went.
#[derive(Debug, PartialEq, Eq)]
pub enum Reply {
    /// Git did not finish; `cause` is the system's error message.
    NotRun { fault: Fault, cause: String },
    /// Git finished. `out` and `err` are its two outputs as text, and `bytes`
    /// is its standard output as it came.
    Ran { success: bool, bytes: Vec<u8>, out: String, err: String },
}

/// The model of a [`Reply`].
pub enum ReplyModel {
    NotRun { fault: Fault, cause: Text },
    Ran { success: bool, bytes: Seq<u8>, out: Text, err: Text },
}

impl DeepView for Reply {
    type V = ReplyModel;

    open spec fn deep_view(&self) -> ReplyModel {
        match self {
            Reply::NotRun { fault, cause } => ReplyModel::NotRun { fault: *fault, cause: cause@ },
            Reply::Ran { success, bytes, out, err } => ReplyModel::Ran {
                success: *success,
                bytes: bytes@,
                out: out@,
                err: err@,
            },
        }
    }
}

/// The text that `String::from_utf8_lossy` makes of `bytes`.
pub uninterp spec fn lossy_text(bytes: Seq<u8>) -> Text;

/// `String::from_utf8_lossy`: a text that depends on the bytes alone, and, where
/// the bytes are valid UTF-8, the text that they encode. How invalid bytes are
/// replaced is left unsaid.
#[verifier::external_body]
fn decode_lossy(bytes: &Vec<u8>) -> (r: String)
    ensures
        r@ == lossy_text(bytes@),
        valid_utf8(bytes@) ==> r@ == decode_utf8(bytes@),
{
    String::from_utf8_lossy(bytes).into_owned()
}

/// The reply of a process that finished with the given outputs.
pub fn read_reply(success: bool, stdout: Vec<u8>, stderr: Vec<u8>) -> (r: Reply)
    ensures
        r.deep_view() == (ReplyModel::Ran {
            success,
            bytes: stdout@,
            out: lossy_text(stdout@),
            err: lossy_text(stderr@),
        }),
        valid_utf8(stdout@) ==> r.deep_view()->out == decode_utf8(stdout@),
        valid_utf8(stderr@) ==> r.deep_view()->err == decode_utf8(stderr@),
{
    let out: String = decode_lossy(&stdout);
    let err: String = decode_lossy(&stderr);
    Reply::Ran { success, bytes: stdout, out, err }
}

/// Why a git command gave no output to work with.
#[derive(Debug, PartialEq, Eq)]
pub enum GitError {
    /// The command, given by its arguments, could not be run; `cause` is the
    /// system's error message.
    NotRun { args: Vec<String>, cause: String },
    /// Git reported failure, with this message.
    Failed(String),
}

/// The model of a [`GitError`].
pub enum GitErrorModel {
    NotRun { args: Seq<Text>, cause: Text },
    Failed(Text),
}

impl DeepView for GitError {
    type V = GitErrorModel;

    open spec fn deep_view(&self) -> GitErrorModel {
        match self {
            GitError::NotRun { args, cause } => GitErrorModel::NotRun {
                args: args.deep_view(),
                cause: cause@,
            },
            GitError::Failed(message) => GitErrorModel::Failed(message@),
        }
    }
}

impl GitErrorModel {
    /// The message shown for the error.
    pub open spec fn message(self) -> Text {
        match self {
            GitErrorModel::NotRun { args, .. } => "Failed to run git "@ + joined(args, " "@),
            GitErrorModel::Failed(message) => "Git error: "@ + message,
        }
    }

    /// The messages of what the error goes back to.
    pub open spec fn causes(self) -> Seq<Text> {
        match self {
            GitErrorModel::NotRun { cause, .. } => seq![cause],
            GitErrorModel::Failed(_) => Seq::empty(),
        }
    }
}

impl GitError {
    /// The message shown for the error.
    pub fn message(&self) -> (r: String)
        ensures
            r@ == self.deep_view().message(),
    {
        match self {
            GitError::NotRun { args, .. } => {
                let text: String = join(args, " ");
                "Failed to run git ".to_string().concat(text.as_str())
            },
            GitError::Failed(message) => "Git error: ".to_string().concat(message.as_str()),
        }
    }

    /// The messages of what the error goes back to.
    pub fn causes(&self) -> (r: Vec<String>)
        ensures
            r.deep_view() == self.deep_view().causes(),
    {
        match self {
            GitError::NotRun { cause, .. } => one(cause.clone()),
            GitError::Failed(_) => no_items(),
        }
    }
}

/// The model of a result whose success is modelled as it is.
pub open spec fn result_model<T: DeepView>(r: Result<T, GitError>) -> Result<T::V, GitErrorModel> {
    match r {
        Ok(value) => Ok(value.deep_view()),
        Err(error) => Err(error.deep_view()),
    }
}

/// What running git with `args` comes to: its trimmed output, or the reason why
/// there is none.
pub open spec fn git_result(args: Seq<Text>, reply: ReplyModel) -> Result<Text, GitErrorModel> {
    match reply {
        ReplyModel::NotRun { cause, .. } => Err(GitErrorModel::NotRun { args, cause }),
        ReplyModel::Ran { success, out, err, .. } => if success {
            Ok(trimmed(out))
        } else {
            Err(GitErrorModel::Failed(trimmed(err)))
        },
    }
}

/// What running git with `args` comes to, given how it went.
pub fn run_git(args: &Vec<String>, reply: &Reply) -> (r: Result<String, GitError>)
    ensures
        result_model(r) == git_result(args.deep_view(), reply.deep_view()),
{
    match reply {
        Reply::NotRun { cause, .. } => Err(
            GitError::NotRun { args: copy_strings(args), cause: cause.clone() },
        ),
        Reply::Ran { success, out, err, .. } => if *success {
            Ok(trim(out.as_str()))
        } else {
            Err(GitError::Failed(trim(err.as_str())))
        },
    }
}

/// The command that asks for the root of the repository.
pub open spec fn root_query_model() -> CommandModel {
    git("rev-parse"@).arg("--show-toplevel"@)
}

/// The command that asks for the root of the repository.
pub fn root_query() -> (r: Command)
    ensures
        r.deep_view() == root_query_model(),
{
    Command::git("rev-parse").arg("--show-toplevel")
}

/// The root of the repository, or why there is none.
pub fn check_git_repo(reply: &Reply) -> (r: Result<String, GitError>)
    ensures
        result_model(r) == git_result(root_query_model().args, reply.deep_view()),
{
    run_git(&root_query().args, reply)
}

/// The command that lists uncommitted changes.
pub open spec fn status_query_model() -> CommandModel {
    git("status"@).arg("--porcelain"@)
}

/// The command that lists uncommitted changes.
pub fn status_query() -> (r: Command)
    ensures
        r.deep_view() == status_query_model(),
{
    Command::git("status").arg("--porcelain")
}

/// Whether the work tree holds changes that are not committed: it does if
/// listing them gives any output.
pub open spec fn uncommitted(reply: ReplyModel) -> Result<bool, GitErrorModel> {
    match git_result(status_query_model().args, reply) {
        Ok(listing) => Ok(listing.len() > 0),
        Err(error) => Err(error),
    }
}

/// Whether the work tree holds changes that are not committed.
pub fn has_uncommitted_changes(reply: &Reply) -> (r: Result<bool, GitError>)
    ensures
        result_model(r) == uncommitted(reply.deep_view()),
{
    match run_git(&status_query().args, reply) {
        Ok(listing) => Ok(!listing.as_str().is_empty()),
        Err(error) => Err(error),
    }
}

/// The command that lists the files of a commit.
pub open spec fn files_query_model(hash: Text) -> CommandModel {
    git("log"@).arg("-1"@).arg("--name-only"@).arg("--format="@).arg(hash)
}

/// The command that lists the files of a commit.
pub fn files_query(hash: &str) -> (r: Command)
    ensures
        r.deep_view() == files_query_model(hash@),
{
    Command::git("log").arg("-1").arg("--name-only").arg("--format=").arg(hash)
}

/// The files of the commit `hash`: the non-blank lines of the listing.
pub open spec fn commit_files(hash: Text, reply: ReplyModel) -> Result<Seq<Text>, GitErrorModel> {
    match git_result(files_query_model(hash).args, reply) {
        Ok(listing) => Ok(entries(listing)),
        Err(error) => Err(error),
    }
}

/// The files of the commit `hash`, given how listing them went.
pub fn get_commit_files(hash: &str, reply: &Reply) -> (r: Result<Vec<String>, GitError>)
    ensures
        result_model(r) == commit_files(hash@, reply.deep_view()),
{
    match run_git(&files_query(hash).args, reply) {
        Ok(listing) => Ok(entries_of(listing.as_str())),
        Err(error) => Err(error),
    }
}

/// A command is built up argument by argument, in order; its input is what it was
/// last given, and nothing at first.
pub proof fn law_commands_are_built_in_order(
    name: Text,
    command: CommandModel,
    text: Text,
    texts: Seq<Text>,
    bytes: Seq<u8>,
)
    ensures
        git(name).args == seq![name],
        git(name).input is None,
        command.arg(text).args == command.args + seq![text],
        command.arg(text).input == command.input,
        command.all_args(texts).args == command.args + texts,
        command.all_args(texts).input == command.input,
        command.reading(bytes).args == command.args,
        command.reading(bytes).input == Some(bytes),
{
    assert(git(name).args =~= seq![name]);
    assert(command.arg(text).args =~= command.args + seq![text]);
}

/// The questions to git, word by word.
pub proof fn law_questions_word_by_word(hash: Text)
    ensures
        root_query_model().args == seq!["rev-parse"@, "--show-toplevel"@],
        root_query_model().input is None,
        status_query_model().args == seq!["status"@, "--porcelain"@],
        status_query_model().input is None,
        files_query_model(hash).args == seq!["log"@, "-1"@, "--name-only"@, "--format="@, hash],
        files_query_model(hash).input is None,
{
    assert(root_query_model().args =~= seq!["rev-parse"@, "--show-toplevel"@]);
    assert(status_query_model().args =~= seq!["status"@, "--porcelain"@]);
    assert(files_query_model(hash).args =~= seq![
        "log"@,
        "-1"@,
        "--name-only"@,
        "--format="@,
        hash,
    ]);
}

/// Running git comes to what it printed, without the white space around it, where
/// it succeeded; to its complaint, likewise, where it failed; and to the words of
/// the command and the system's complaint where it was not run.
pub proof fn law_git_gives_what_it_printed(
    args: Seq<Text>,
    reply: ReplyModel,
    before: Text,
    inner: Text,
    after: Text,
)
    requires
        forall|i: int| 0 <= i < before.len() ==> is_white(#[trigger] before[i]),
        forall|i: int| 0 <= i < after.len() ==> is_white(#[trigger] after[i]),
        inner.len() > 0 ==> !is_white(inner[0]) && !is_white(inner[inner.len() - 1]),
    ensures
        match reply {
            ReplyModel::NotRun { fault, cause } => git_result(args, reply) == Err::<Text, _>(
                GitErrorModel::NotRun { args, cause },
            ),
            ReplyModel::Ran { success, bytes, out, err } => {
                &&& success && out == before + inner + after ==> git_result(args, reply) == Ok::<
                    _,
                    GitErrorModel,
                >(inner)
                &&& !success && err == before + inner + after ==> git_result(args, reply) == Err::<
                    Text,
                    _,
                >(GitErrorModel::Failed(inner))
            },
        },
{
    law_trimmed_is_what_stands_between(before, inner, after);
}

/// There are uncommitted changes exactly if listing them prints anything but white
/// space. Where they cannot be listed, that is the error.
pub proof fn law_any_output_means_uncommitted(reply: ReplyModel)
    ensures
        match reply {
            ReplyModel::NotRun { fault, cause } => uncommitted(reply) == Err::<bool, _>(
                GitErrorModel::NotRun { args: seq!["status"@, "--porcelain"@], cause },
            ),
            ReplyModel::Ran { success, bytes, out, err } => if success {
                uncommitted(reply) == Ok::<_, GitErrorModel>(
                    exists|i: int| 0 <= i < out.len() && !is_white(#[trigger] out[i]),
                )
            } else {
                uncommitted(reply) == Err::<bool, _>(GitErrorModel::Failed(trimmed(err)))
            },
        },
{
    law_questions_word_by_word(Seq::empty());
    if let ReplyModel::Ran { out, .. } = reply {
        law_trimmed_is_empty_for_white_space_only(out);
    }
}

/// The files of a commit are the entries of what git printed. Where they cannot be
/// listed, that is the error.
pub proof fn law_files_are_the_entries_printed(hash: Text, reply: ReplyModel)
    ensures
        match reply {
            ReplyModel::NotRun { fault, cause } => commit_files(hash, reply) == Err::<Seq<Text>, _>(
                GitErrorModel::NotRun {
                    args: seq!["log"@, "-1"@, "--name-only"@, "--format="@, hash],
                    cause,
                },
            ),
            ReplyModel::Ran { success, bytes, out, err } => commit_files(hash, reply) == if success {
                Ok::<_, GitErrorModel>(entries(trimmed(out)))
            } else {
                Err(GitErrorModel::Failed(trimmed(err)))
            },
        },
{
    law_questions_word_by_word(hash);
}

/// What is said of an error, and what it goes back to.
pub proof fn law_git_errors_say_what_happened(args: Seq<Text>, cause: Text, message: Text)
    ensures
        (GitErrorModel::NotRun { args, cause }).message() == "Failed to run git "@ + joined(
            args,
            " "@,
        ),
        (GitErrorModel::NotRun { args, cause }).causes() == seq![cause],
        GitErrorModel::Failed(message).message() == "Git error: "@ + message,
        GitErrorModel::Failed(message).causes() == Seq::<Text>::empty(),
{
}

/// The models of commands, replies and errors hold all of their fields.
pub proof fn law_models_hold_every_field(command: Command, reply: Reply, error: GitError)
    ensures
        command.deep_view().args.len() == command.args@.len(),
        forall|i: int|
            0 <= i < command.args@.len() ==> #[trigger] command.deep_view().args[i]
                == command.args@[i]@,
        command.input is Some <==> command.deep_view().input is Some,
        command.input matches Some(bytes) ==> command.deep_view().input == Some(bytes@),
        reply matches Reply::Ran { success, bytes, out, err } ==> reply.deep_view() == (
        ReplyModel::Ran { success, bytes: bytes@, out: out@, err: err@ }),
        reply matches Reply::NotRun { fault, cause } ==> reply.deep_view() == (ReplyModel::NotRun {
            fault,
            cause: cause@,
        }),
        error matches GitError::Failed(message) ==> error.deep_view() == GitErrorModel::Failed(
            message@,
        ),
        error matches GitError::NotRun { args, cause } ==> error.deep_view() == (
        GitErrorModel::NotRun { args: args.deep_view(), cause: cause@ }),
{
}

} // verus!
