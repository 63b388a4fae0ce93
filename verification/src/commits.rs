//! Commits: what is known of one, and collecting those between two branches.

use vstd::prelude::*;
use vstd::utf8::*;
use crate::git::{
    commit_files, files_query, files_query_model, get_commit_files, git, git_result,
    law_files_are_the_entries_printed, law_questions_word_by_word, result_model, run_git, Command,
    CommandModel, GitError, GitErrorModel, Reply, ReplyModel,
};
use crate::lists::{copy_strings, no_items, put};
use crate::text::{
    can_split, count_of, cut, cut_at, entries, first_bytes, head,
    law_first_bytes_are_bytes_of_the_text, law_first_bytes_of_ascii, lemma_cut_joined,
    lemma_cut_parts, lines, lines_of, same, splits_at, trimmed, Text,
};

verus! {

/// A commit and the files that it touches.
#[derive(Debug, PartialEq, Eq)]
pub struct CommitInfo {
    pub hash: String,
    pub author: String,
    pub email: String,
    pub date: String,
    pub subject: String,
    pub files: Vec<String>,
}

/// The model of a [`CommitInfo`].
#[verifier::ext_equal]
pub struct CommitModel {
    pub hash: Text,
    pub author: Text,
    pub email: Text,
    pub date: Text,
    pub subject: Text,
    pub files: Seq<Text>,
}

impl DeepView for CommitInfo {
    type V = CommitModel;

    open spec fn deep_view(&self) -> CommitModel {
        CommitModel {
            hash: self.hash@,
            author: self.author@,
            email: self.email@,
            date: self.date@,
            subject: self.subject@,
            files: self.files.deep_view(),
        }
    }
}

/// The number of bytes of a hash that are shown.
pub const SHORT_HASH: usize = 8;

/// The number of bytes of a date that are shown: year, month and day.
pub const SHORT_DATE: usize = 10;

impl CommitModel {
    /// The abbreviated hash.
    pub open spec fn short_hash(self) -> Text {
        first_bytes(self.hash, SHORT_HASH as int)
    }

    /// The day of the commit.
    pub open spec fn day(self) -> Text {
        first_bytes(self.date, SHORT_DATE as int)
    }

    /// Whether the hash and the date can be abbreviated.
    pub open spec fn is_presentable(self) -> bool {
        splits_at(self.hash, SHORT_HASH as int) && splits_at(self.date, SHORT_DATE as int)
    }

    /// The entry for the commit in the list to choose from.
    pub open spec fn item(self) -> Text {
        self.short_hash() + "  "@ + self.subject
    }
}

impl CommitInfo {
    /// Whether the hash and the date can be abbreviated.
    pub fn is_presentable(&self) -> (r: bool)
        ensures
            r == self.deep_view().is_presentable(),
    {
        can_split(self.hash.as_str(), SHORT_HASH) && can_split(self.date.as_str(), SHORT_DATE)
    }

    /// The abbreviated hash.
    pub fn short_hash(&self) -> (r: String)
        requires
            splits_at(self.hash@, SHORT_HASH as int),
        ensures
            r@ == self.deep_view().short_hash(),
    {
        head(self.hash.as_str(), SHORT_HASH)
    }

    /// The day of the commit.
    pub fn day(&self) -> (r: String)
        requires
            splits_at(self.date@, SHORT_DATE as int),
        ensures
            r@ == self.deep_view().day(),
    {
        head(self.date.as_str(), SHORT_DATE)
    }

    /// The entry for the commit in the list to choose from.
    pub fn item(&self) -> (r: String)
        requires
            splits_at(self.hash@, SHORT_HASH as int),
        ensures
            r@ == self.deep_view().item(),
    {
        self.short_hash().concat("  ").concat(self.subject.as_str())
    }

    /// The commit with `files` as its files.
    pub fn with_files(&self, files: Vec<String>) -> (r: CommitInfo)
        ensures
            r.deep_view() == (CommitModel { files: files.deep_view(), ..self.deep_view() }),
    {
        CommitInfo {
            hash: self.hash.clone(),
            author: self.author.clone(),
            email: self.email.clone(),
            date: self.date.clone(),
            subject: self.subject.clone(),
            files,
        }
    }
}

impl Clone for CommitInfo {
    fn clone(&self) -> (r: CommitInfo)
        ensures
            r.deep_view() == self.deep_view(),
    {
        self.with_files(copy_strings(&self.files))
    }
}

/// The commit that a line of the log describes: hash, author, email, date and
/// subject with bars between them. A bar in the subject belongs to it; a line
/// with fewer bars describes no commit.
pub open spec fn parsed_line(line: Text) -> Option<CommitModel> {
    match cut(line, '|') {
        None => None,
        Some((hash, rest)) => match cut(rest, '|') {
            None => None,
            Some((author, rest)) => match cut(rest, '|') {
                None => None,
                Some((email, rest)) => match cut(rest, '|') {
                    None => None,
                    Some((date, subject)) => Some(
                        CommitModel { hash, author, email, date, subject, files: Seq::empty() },
                    ),
                },
            },
        },
    }
}

/// The commit that a line of the log describes, its files not known yet.
pub fn parse_line(line: &str) -> (r: Option<CommitInfo>)
    ensures
        r.deep_view() == parsed_line(line@),
{
    let (hash, rest) = match cut_at(line, '|') {
        None => { return None; },
        Some(parts) => parts,
    };
    let (author, rest) = match cut_at(rest.as_str(), '|') {
        None => { return None; },
        Some(parts) => parts,
    };
    let (email, rest) = match cut_at(rest.as_str(), '|') {
        None => { return None; },
        Some(parts) => parts,
    };
    let (date, subject) = match cut_at(rest.as_str(), '|') {
        None => { return None; },
        Some(parts) => parts,
    };
    Some(CommitInfo { hash, author, email, date, subject, files: no_items() })
}

/// The line of the log that describes a commit.
pub open spec fn log_line(commit: CommitModel) -> Text {
    commit.hash.push('|') + (commit.author.push('|') + (commit.email.push('|') + (commit.date.push(
        '|',
    ) + commit.subject)))
}

/// A commit is read back from its log line as it was, provided that no bar
/// stands in a field before the subject.
pub proof fn law_log_line_reads_back(commit: CommitModel)
    requires
        !commit.hash.contains('|'),
        !commit.author.contains('|'),
        !commit.email.contains('|'),
        !commit.date.contains('|'),
    ensures
        parsed_line(log_line(commit)) == Some(CommitModel { files: Seq::empty(), ..commit }),
{
    let d = commit.date.push('|') + commit.subject;
    let e = commit.email.push('|') + d;
    let a = commit.author.push('|') + e;
    lemma_cut_joined(commit.date, '|', commit.subject);
    lemma_cut_joined(commit.email, '|', d);
    lemma_cut_joined(commit.author, '|', e);
    lemma_cut_joined(commit.hash, '|', a);
}

/// A line describes a commit exactly if at least four bars stand in it. It is then
/// the log line of that commit, and no bar stands in a field before the subject.
pub proof fn law_log_lines_have_four_bars(line: Text)
    ensures
        parsed_line(line) is Some <==> count_of(line, '|') >= 4,
        parsed_line(line) matches Some(commit) ==> {
            &&& log_line(commit) == line
            &&& !commit.hash.contains('|')
            &&& !commit.author.contains('|')
            &&& !commit.email.contains('|')
            &&& !commit.date.contains('|')
            &&& commit.files.len() == 0
        },
{
    lemma_cut_parts(line, '|');
    if let Some((_, a)) = cut(line, '|') {
        lemma_cut_parts(a, '|');
        if let Some((_, e)) = cut(a, '|') {
            lemma_cut_parts(e, '|');
            if let Some((_, d)) = cut(e, '|') {
                lemma_cut_parts(d, '|');
            }
        }
    }
}

/// The commits that the lines of a log describe, in order.
pub open spec fn parsed_lines(lines: Seq<Text>) -> Seq<CommitModel>
    decreases lines.len(),
{
    if lines.len() == 0 {
        Seq::empty()
    } else {
        let before = parsed_lines(lines.drop_last());
        match parsed_line(lines.last()) {
            Some(commit) => before.push(commit),
            None => before,
        }
    }
}

/// The commits that a log describes, in order.
pub open spec fn parsed_log(log: Text) -> Seq<CommitModel> {
    parsed_lines(lines(log))
}

/// The commits that a log describes, in order, their files not known yet.
pub fn parse_log(log: &str) -> (r: Vec<CommitInfo>)
    ensures
        r.deep_view() == parsed_log(log@),
{
    let all: Vec<String> = lines_of(log);
    let ghost model = all.deep_view();
    let mut r: Vec<CommitInfo> = no_items();
    let mut i: usize = 0;
    assert(model.take(0) =~= Seq::<Text>::empty());
    while i < all.len()
        invariant
            i <= all@.len(),
            model == all.deep_view(),
            r.deep_view() == parsed_lines(model.take(i as int)),
        decreases all@.len() - i,
    {
        proof {
            assert(model.take(i + 1).drop_last() =~= model.take(i as int));
            assert(model.take(i + 1).last() == all@[i as int]@);
        }
        match parse_line(all[i].as_str()) {
            Some(commit) => put(&mut r, commit),
            None => {},
        }
        i = i + 1;
    }
    assert(model.take(i as int) =~= model);
    r
}

/// The command that logs the commits on `head` that are not on `base`.
pub open spec fn log_query_model(base: Text, head: Text) -> CommandModel {
    git("log"@).arg("--format=%H|%an|%ae|%ai|%s"@).arg(base + ".."@ + head)
}

/// The command that logs the commits on `head` that are not on `base`.
pub fn log_query(base: &str, head: &str) -> (r: Command)
    ensures
        r.deep_view() == log_query_model(base@, head@),
{
    let range: String = base.to_string().concat("..").concat(head);
    Command::git("log").arg("--format=%H|%an|%ae|%ai|%s").arg(range.as_str())
}

/// What collecting commits needs next, or what it came to.
#[derive(Debug, PartialEq, Eq)]
pub enum QueryStep {
    Run(Command),
    Done(Result<Vec<CommitInfo>, GitError>),
}

/// The model of a [`QueryStep`].
pub enum QueryStepModel {
    Run(CommandModel),
    Done(Result<Seq<CommitModel>, GitErrorModel>),
}

impl DeepView for QueryStep {
    type V = QueryStepModel;

    open spec fn deep_view(&self) -> QueryStepModel {
        match self {
            QueryStep::Run(command) => QueryStepModel::Run(command.deep_view()),
            QueryStep::Done(result) => QueryStepModel::Done(result_model(*result)),
        }
    }
}

/// The collecting of the commits on `head` that are not on `base`. First the log
/// is read, then the files of each commit in it.
#[derive(Debug, PartialEq, Eq)]
pub struct CommitQuery {
    pub base: String,
    pub head: String,
    /// Whether the log has been read.
    pub logged: bool,
    /// The commits in the log.
    pub listed: Vec<CommitInfo>,
    /// The commits whose files have been read: the first ones of `listed`.
    pub found: Vec<CommitInfo>,
}

/// The model of a [`CommitQuery`].
pub struct QueryModel {
    pub base: Text,
    pub head: Text,
    pub logged: bool,
    pub listed: Seq<CommitModel>,
    pub found: Seq<CommitModel>,
}

impl DeepView for CommitQuery {
    type V = QueryModel;

    open spec fn deep_view(&self) -> QueryModel {
        QueryModel {
            base: self.base@,
            head: self.head@,
            logged: self.logged,
            listed: self.listed.deep_view(),
            found: self.found.deep_view(),
        }
    }
}

/// Collecting, before anything has been read.
pub open spec fn fresh_query(base: Text, head: Text) -> QueryModel {
    QueryModel { base, head, logged: false, listed: Seq::empty(), found: Seq::empty() }
}

/// The first step of collecting: there is nothing to collect between a branch
/// and itself.
pub open spec fn first_query_step(base: Text, head: Text) -> QueryStepModel {
    if base == head {
        QueryStepModel::Done(Ok(Seq::empty()))
    } else {
        QueryStepModel::Run(log_query_model(base, head))
    }
}

impl QueryModel {
    /// Whether a command is under way.
    pub open spec fn is_waiting(self) -> bool {
        !self.logged || self.found.len() < self.listed.len()
    }

    /// What comes next once the log has been read.
    pub open spec fn after_log(self) -> QueryStepModel {
        if self.found.len() < self.listed.len() {
            QueryStepModel::Run(files_query_model(self.listed[self.found.len() as int].hash))
        } else {
            QueryStepModel::Done(Ok(self.found))
        }
    }

    /// The reply to the command under way, taken into account.
    pub open spec fn resumed(self, reply: ReplyModel) -> (QueryModel, QueryStepModel) {
        if !self.logged {
            match git_result(log_query_model(self.base, self.head).args, reply) {
                Err(error) => (self, QueryStepModel::Done(Err(error))),
                Ok(log) => {
                    let next = QueryModel {
                        logged: true,
                        listed: parsed_log(log),
                        found: Seq::empty(),
                        ..self
                    };
                    (next, next.after_log())
                },
            }
        } else {
            let commit = self.listed[self.found.len() as int];
            match commit_files(commit.hash, reply) {
                Err(error) => (self, QueryStepModel::Done(Err(error))),
                Ok(files) => {
                    let next = QueryModel {
                        found: self.found.push(CommitModel { files, ..commit }),
                        ..self
                    };
                    (next, next.after_log())
                },
            }
        }
    }
}

impl Clone for CommitQuery {
    fn clone(&self) -> (r: CommitQuery)
        ensures
            r.deep_view() == self.deep_view(),
    {
        CommitQuery {
            base: self.base.clone(),
            head: self.head.clone(),
            logged: self.logged,
            listed: copy_commits(&self.listed),
            found: copy_commits(&self.found),
        }
    }
}

/// Starts collecting the commits on `head` that are not on `base`.
pub fn get_commits_between(base: &str, head: &str) -> (r: (CommitQuery, QueryStep))
    ensures
        r.0.deep_view() == fresh_query(base@, head@),
        r.1.deep_view() == first_query_step(base@, head@),
{
    let query: CommitQuery = CommitQuery {
        base: base.to_string(),
        head: head.to_string(),
        logged: false,
        listed: no_items(),
        found: no_items(),
    };
    if same(base, head) {
        (query, QueryStep::Done(Ok(no_items())))
    } else {
        (query, QueryStep::Run(log_query(base, head)))
    }
}

/// A copy of a list of commits.
pub fn copy_commits(list: &Vec<CommitInfo>) -> (r: Vec<CommitInfo>)
    ensures
        r.deep_view() == list.deep_view(),
{
    let mut r: Vec<CommitInfo> = no_items();
    let mut i: usize = 0;
    while i < list.len()
        invariant
            i <= list@.len(),
            r.deep_view() == list.deep_view().take(i as int),
        decreases list@.len() - i,
    {
        put(&mut r, list[i].clone());
        i = i + 1;
        assert(list.deep_view().take(i as int) =~= list.deep_view().take(i - 1).push(
            list@[i - 1].deep_view(),
        ));
    }
    assert(list.deep_view().take(i as int) =~= list.deep_view());
    r
}

impl CommitQuery {
    /// What comes next once the log has been read.
    fn after_log(&self) -> (r: QueryStep)
        ensures
            r.deep_view() == self.deep_view().after_log(),
    {
        if self.found.len() < self.listed.len() {
            let i: usize = self.found.len();
            assert(self.listed.deep_view()[i as int] == self.listed@[i as int].deep_view());
            QueryStep::Run(files_query(self.listed[i].hash.as_str()))
        } else {
            QueryStep::Done(Ok(copy_commits(&self.found)))
        }
    }

    /// Takes the reply to the command under way into account.
    pub fn resume(&mut self, reply: &Reply) -> (r: QueryStep)
        requires
            old(self).deep_view().is_waiting(),
        ensures
            (final(self).deep_view(), r.deep_view()) == old(self).deep_view().resumed(
                reply.deep_view(),
            ),
    {
        if !self.logged {
            let command: Command = log_query(self.base.as_str(), self.head.as_str());
            match run_git(&command.args, reply) {
                Err(error) => QueryStep::Done(Err(error)),
                Ok(log) => {
                    self.logged = true;
                    self.listed = parse_log(log.as_str());
                    self.found = no_items();
                    self.after_log()
                },
            }
        } else {
            let i: usize = self.found.len();
            assert(self.listed.deep_view()[i as int] == self.listed@[i as int].deep_view());
            match get_commit_files(self.listed[i].hash.as_str(), reply) {
                Err(error) => QueryStep::Done(Err(error)),
                Ok(files) => {
                    let commit: CommitInfo = self.listed[i].with_files(files);
                    put(&mut self.found, commit);
                    self.after_log()
                },
            }
        }
    }
}

/// The commands of a collecting that gets `replies`, and what it comes to if
/// the replies suffice.
pub open spec fn query_run(
    query: QueryModel,
    step: QueryStepModel,
    replies: Seq<ReplyModel>,
) -> (Seq<CommandModel>, Option<Result<Seq<CommitModel>, GitErrorModel>>)
    decreases replies.len(),
{
    match step {
        QueryStepModel::Done(result) => (Seq::empty(), Some(result)),
        QueryStepModel::Run(command) => if replies.len() == 0 {
            (seq![command], None)
        } else {
            let (query, step) = query.resumed(replies[0]);
            let (commands, result) = query_run(query, step, replies.skip(1));
            (seq![command] + commands, result)
        },
    }
}

/// The listed commits, each with the files that the reply in its place lists.
pub open spec fn with_all_files(
    listed: Seq<CommitModel>,
    replies: Seq<ReplyModel>,
) -> Seq<CommitModel> {
    Seq::new(
        listed.len(),
        |i: int|
            CommitModel {
                files: commit_files(listed[i].hash, replies[i])->Ok_0,
                ..listed[i]
            },
    )
}

/// The commands that list the files of commits, one each.
pub open spec fn files_queries(listed: Seq<CommitModel>) -> Seq<CommandModel> {
    Seq::new(listed.len(), |i: int| files_query_model(listed[i].hash))
}

proof fn lemma_files_run(query: QueryModel, all: Seq<ReplyModel>)
    requires
        query.logged,
        query.found.len() <= query.listed.len(),
        all.len() == query.listed.len(),
        query.found == with_all_files(query.listed, all).take(query.found.len() as int),
        forall|i: int|
            0 <= i < all.len() ==> commit_files(query.listed[i].hash, #[trigger] all[i]) is Ok,
    ensures
        query_run(query, query.after_log(), all.skip(query.found.len() as int)) == (
            files_queries(query.listed).skip(query.found.len() as int),
            Some(Ok::<Seq<CommitModel>, GitErrorModel>(with_all_files(query.listed, all))),
        ),
    decreases query.listed.len() - query.found.len(),
{
    let n = query.found.len() as int;
    let whole = with_all_files(query.listed, all);
    let queries = files_queries(query.listed);
    if n == query.listed.len() {
        assert(whole.take(n) =~= whole);
        assert(queries.skip(n) =~= Seq::<CommandModel>::empty());
    } else {
        let rest = all.skip(n);
        assert(rest[0] == all[n]);
        let (next, step) = query.resumed(rest[0]);
        assert(next.found =~= whole.take(n + 1));
        lemma_files_run(next, all);
        assert(rest.skip(1) =~= all.skip(n + 1));
        assert(queries.skip(n) =~= seq![queries[n]] + queries.skip(n + 1));
    }
}

/// Where every command succeeds, collecting reads the log once and then the
/// files of each commit in it, in its order, and gives exactly those commits
/// with those files.
pub proof fn law_collecting_gives_the_logged_commits(
    base: Text,
    head: Text,
    log: ReplyModel,
    files: Seq<ReplyModel>,
)
    requires
        base != head,
        git_result(log_query_model(base, head).args, log) is Ok,
        files.len() == parsed_log(
            git_result(log_query_model(base, head).args, log)->Ok_0,
        ).len(),
        forall|i: int|
            0 <= i < files.len() ==> commit_files(
                parsed_log(git_result(log_query_model(base, head).args, log)->Ok_0)[i].hash,
                #[trigger] files[i],
            ) is Ok,
    ensures
        ({
            let listed = parsed_log(git_result(log_query_model(base, head).args, log)->Ok_0);
            query_run(fresh_query(base, head), first_query_step(base, head), seq![log] + files) == (
                seq![log_query_model(base, head)] + files_queries(listed),
                Some(Ok::<Seq<CommitModel>, GitErrorModel>(with_all_files(listed, files))),
            )
        }),
{
    let replies = seq![log] + files;
    let (next, step) = fresh_query(base, head).resumed(log);
    assert(replies[0] == log);
    assert(replies.skip(1) =~= files);
    assert(next.found =~= with_all_files(next.listed, files).take(0));
    lemma_files_run(next, files);
    assert(files.skip(0) =~= files);
    assert(files_queries(next.listed).skip(0) =~= files_queries(next.listed));
}

proof fn lemma_files_run_until(query: QueryModel, all: Seq<ReplyModel>, k: int)
    requires
        query.logged,
        query.found.len() <= k < query.listed.len(),
        k < all.len(),
        forall|i: int|
            0 <= i < k ==> commit_files(query.listed[i].hash, #[trigger] all[i]) is Ok,
        commit_files(query.listed[k].hash, all[k]) is Err,
    ensures
        query_run(query, query.after_log(), all.skip(query.found.len() as int)) == (
            files_queries(query.listed).subrange(query.found.len() as int, k + 1),
            Some(
                Err::<Seq<CommitModel>, GitErrorModel>(
                    commit_files(query.listed[k].hash, all[k])->Err_0,
                ),
            ),
        ),
    decreases k - query.found.len(),
{
    let n = query.found.len() as int;
    let queries = files_queries(query.listed);
    let rest = all.skip(n);
    assert(rest[0] == all[n]);
    let (next, step) = query.resumed(rest[0]);
    if n < k {
        assert(commit_files(query.listed[n].hash, all[n]) is Ok);
        lemma_files_run_until(next, all, k);
        assert(rest.skip(1) =~= all.skip(n + 1));
        assert(queries.subrange(n, k + 1) =~= seq![queries[n]] + queries.subrange(n + 1, k + 1));
    } else {
        assert(query_run(next, step, rest.skip(1)).0 =~= Seq::<CommandModel>::empty());
        assert(queries.subrange(n, k + 1) =~= seq![queries[n]] + Seq::<CommandModel>::empty());
    }
}

/// Where the log cannot be read, its error is what collecting comes to, and no
/// further command is run.
pub proof fn law_failing_log_decides(
    base: Text,
    head: Text,
    log: ReplyModel,
    more: Seq<ReplyModel>,
)
    requires
        base != head,
        git_result(log_query_model(base, head).args, log) is Err,
    ensures
        query_run(fresh_query(base, head), first_query_step(base, head), seq![log] + more) == (
            seq![log_query_model(base, head)],
            Some(
                Err::<Seq<CommitModel>, GitErrorModel>(
                    git_result(log_query_model(base, head).args, log)->Err_0,
                ),
            ),
        ),
{
    let replies = seq![log] + more;
    let command = log_query_model(base, head);
    let (next, step) = fresh_query(base, head).resumed(log);
    assert(replies[0] == log);
    assert(query_run(next, step, replies.skip(1)).0 =~= Seq::<CommandModel>::empty());
    assert(seq![command] + Seq::<CommandModel>::empty() =~= seq![command]);
}

/// Where the files of a commit cannot be read, and those of the commits before it
/// could, its error is what collecting comes to: there is no partial list, and no
/// further command is run.
pub proof fn law_first_failing_files_decide(
    base: Text,
    head: Text,
    log: ReplyModel,
    files: Seq<ReplyModel>,
    k: int,
)
    requires
        base != head,
        git_result(log_query_model(base, head).args, log) is Ok,
        ({
            let listed = parsed_log(git_result(log_query_model(base, head).args, log)->Ok_0);
            &&& 0 <= k < listed.len()
            &&& k < files.len()
            &&& forall|i: int|
                0 <= i < k ==> commit_files(listed[i].hash, #[trigger] files[i]) is Ok
            &&& commit_files(listed[k].hash, files[k]) is Err
        }),
    ensures
        ({
            let listed = parsed_log(git_result(log_query_model(base, head).args, log)->Ok_0);
            query_run(fresh_query(base, head), first_query_step(base, head), seq![log] + files) == (
                seq![log_query_model(base, head)] + files_queries(listed).take(k + 1),
                Some(
                    Err::<Seq<CommitModel>, GitErrorModel>(
                        commit_files(listed[k].hash, files[k])->Err_0,
                    ),
                ),
            )
        }),
{
    let replies = seq![log] + files;
    let (next, step) = fresh_query(base, head).resumed(log);
    assert(replies[0] == log);
    assert(replies.skip(1) =~= files);
    lemma_files_run_until(next, files, k);
    assert(files.skip(0) =~= files);
    assert(files_queries(next.listed).subrange(0, k + 1) =~= files_queries(next.listed).take(
        k + 1,
    ));
}

/// Between a branch and itself there are no commits, and git is not asked.
pub proof fn law_no_commits_between_a_branch_and_itself(branch: Text, replies: Seq<ReplyModel>)
    ensures
        query_run(fresh_query(branch, branch), first_query_step(branch, branch), replies) == (
            Seq::<CommandModel>::empty(),
            Some(Ok::<Seq<CommitModel>, GitErrorModel>(Seq::empty())),
        ),
{
}

/// A line of five fields with bars between them describes the commit with these
/// fields; only the subject may hold bars itself.
pub proof fn law_five_fields_make_a_commit(
    hash: Text,
    author: Text,
    email: Text,
    date: Text,
    subject: Text,
)
    requires
        !hash.contains('|'),
        !author.contains('|'),
        !email.contains('|'),
        !date.contains('|'),
    ensures
        ({
            let bar = seq!['|'];
            parsed_line(hash + bar + author + bar + email + bar + date + bar + subject) == Some(
                CommitModel { hash, author, email, date, subject, files: Seq::empty() },
            )
        }),
{
    let bar = seq!['|'];
    let commit = CommitModel { hash, author, email, date, subject, files: Seq::empty() };
    law_log_line_reads_back(commit);
    assert(log_line(commit) =~= hash + bar + author + bar + email + bar + date + bar + subject);
}

/// The lines that hold at least four bars.
pub open spec fn with_four_bars(lines: Seq<Text>) -> Seq<Text> {
    lines.filter(|line: Text| count_of(line, '|') >= 4)
}

/// The commits read from lines are, one for one and in order, those of the lines
/// with at least four bars.
pub proof fn law_every_line_with_four_bars_is_a_commit(lines: Seq<Text>)
    ensures
        parsed_lines(lines).len() == with_four_bars(lines).len(),
        forall|k: int|
            0 <= k < with_four_bars(lines).len() ==> ({
                let commit = #[trigger] parsed_lines(lines)[k];
                let bar = seq!['|'];
                &&& commit.hash + bar + commit.author + bar + commit.email + bar + commit.date + bar
                    + commit.subject == with_four_bars(lines)[k]
                &&& !commit.hash.contains('|')
                &&& !commit.author.contains('|')
                &&& !commit.email.contains('|')
                &&& !commit.date.contains('|')
                &&& commit.files.len() == 0
            }),
    decreases lines.len(),
{
    reveal(Seq::filter);
    if lines.len() > 0 {
        let before = lines.drop_last();
        let line = lines.last();
        law_every_line_with_four_bars_is_a_commit(before);
        law_log_lines_have_four_bars(line);
        assert forall|k: int| 0 <= k < with_four_bars(lines).len() implies ({
            let commit = #[trigger] parsed_lines(lines)[k];
            let bar = seq!['|'];
            &&& commit.hash + bar + commit.author + bar + commit.email + bar + commit.date + bar
                + commit.subject == with_four_bars(lines)[k]
            &&& !commit.hash.contains('|')
            &&& !commit.author.contains('|')
            &&& !commit.email.contains('|')
            &&& !commit.date.contains('|')
            &&& commit.files.len() == 0
        }) by {
            if k < with_four_bars(before).len() {
                assert(parsed_lines(lines)[k] == parsed_lines(before)[k]);
            } else {
                let commit = parsed_lines(lines)[k];
                let bar = seq!['|'];
                assert(log_line(commit) =~= commit.hash + bar + commit.author + bar + commit.email
                    + bar + commit.date + bar + commit.subject);
            }
        }
    }
}

/// The commits read from a log are, one for one and in order, those of its lines
/// with at least four bars: none is left out, and none is made up.
pub proof fn law_every_commit_of_the_log_is_read(log: Text)
    ensures
        parsed_log(log).len() == with_four_bars(lines(log)).len(),
        forall|k: int|
            0 <= k < with_four_bars(lines(log)).len() ==> ({
                let commit = #[trigger] parsed_log(log)[k];
                let bar = seq!['|'];
                &&& commit.hash + bar + commit.author + bar + commit.email + bar + commit.date + bar
                    + commit.subject == with_four_bars(lines(log))[k]
                &&& !commit.hash.contains('|')
                &&& !commit.author.contains('|')
                &&& !commit.email.contains('|')
                &&& !commit.date.contains('|')
            }),
{
    law_every_line_with_four_bars_is_a_commit(lines(log));
}

/// Reading logs line by line or together comes to the same.
pub proof fn law_logs_are_read_piece_by_piece(a: Seq<Text>, b: Seq<Text>)
    ensures
        parsed_lines(a + b) == parsed_lines(a) + parsed_lines(b),
    decreases b.len(),
{
    if b.len() == 0 {
        assert(a + b =~= a);
        assert(parsed_lines(a) + parsed_lines(b) =~= parsed_lines(a));
    } else {
        assert((a + b).drop_last() =~= a + b.drop_last());
        law_logs_are_read_piece_by_piece(a, b.drop_last());
        assert(parsed_lines(a + b) =~= parsed_lines(a) + parsed_lines(b));
    }
}

/// The log asked for, word by word: one line per commit, of those on `head` that
/// are not on `base`.
pub proof fn law_log_word_by_word(base: Text, head: Text)
    ensures
        log_query_model(base, head).args == seq![
            "log"@,
            "--format=%H|%an|%ae|%ai|%s"@,
            base + ".."@ + head,
        ],
        log_query_model(base, head).input is None,
{
    assert(log_query_model(base, head).args =~= seq![
        "log"@,
        "--format=%H|%an|%ae|%ai|%s"@,
        base + ".."@ + head,
    ]);
}

/// A commit is offered by the first eight characters of its hash and its subject,
/// and shown with the first ten of its date, both being ASCII.
pub proof fn law_commits_are_shown_abbreviated(commit: CommitModel)
    requires
        is_ascii_chars(commit.hash),
        is_ascii_chars(commit.date),
        commit.hash.len() >= 8,
        commit.date.len() >= 10,
    ensures
        commit.is_presentable(),
        commit.short_hash() == commit.hash.take(8),
        commit.day() == commit.date.take(10),
        commit.item() == commit.hash.take(8) + "  "@ + commit.subject,
{
    law_first_bytes_of_ascii(commit.hash, 8);
    law_first_bytes_of_ascii(commit.date, 10);
}

/// A commit can be shown exactly if the first eight bytes of its hash and the first
/// ten of its date are characters.
pub proof fn law_presentable_commits_split(commit: CommitModel)
    ensures
        commit.is_presentable() <==> is_char_boundary(encode_utf8(commit.hash), 8)
            && is_char_boundary(encode_utf8(commit.date), 10),
        commit.item() == commit.short_hash() + "  "@ + commit.subject,
        commit.is_presentable() && encode_utf8(commit.hash).len() >= 8 ==> encode_utf8(
            commit.short_hash(),
        ) == encode_utf8(commit.hash).subrange(0, 8),
        commit.is_presentable() && encode_utf8(commit.date).len() >= 10 ==> encode_utf8(
            commit.day(),
        ) == encode_utf8(commit.date).subrange(0, 10),
{
    if commit.is_presentable() && encode_utf8(commit.hash).len() >= 8 {
        law_first_bytes_are_bytes_of_the_text(commit.hash, 8);
    }
    if commit.is_presentable() && encode_utf8(commit.date).len() >= 10 {
        law_first_bytes_are_bytes_of_the_text(commit.date, 10);
    }
}

/// Where every command succeeds, collecting asks for the log and then for the files
/// of each commit in it, and the commits it comes to are those of the log, in its
/// order, each with the files printed for it.
pub proof fn law_collected_commits_have_their_files(
    base: Text,
    head: Text,
    log: ReplyModel,
    files: Seq<ReplyModel>,
    i: int,
)
    requires
        base != head,
        log matches ReplyModel::Ran { success, .. } && success,
        files.len() == parsed_log(trimmed(log->out)).len(),
        forall|k: int|
            0 <= k < files.len() ==> ((#[trigger] files[k]) matches ReplyModel::Ran { success, .. }
                && success),
        0 <= i < files.len(),
    ensures
        ({
            let listed = parsed_log(trimmed(log->out));
            let (commands, outcome) = query_run(
                fresh_query(base, head),
                first_query_step(base, head),
                seq![log] + files,
            );
            let commits = outcome->Some_0->Ok_0;
            &&& commands.len() == files.len() + 1
            &&& commands[0].args == seq![
                "log"@,
                "--format=%H|%an|%ae|%ai|%s"@,
                base + ".."@ + head,
            ]
            &&& commands[i + 1].args == seq![
                "log"@,
                "-1"@,
                "--name-only"@,
                "--format="@,
                listed[i].hash,
            ]
            &&& outcome matches Some(Ok(_))
            &&& commits.len() == files.len()
            &&& commits[i].hash == listed[i].hash
            &&& commits[i].author == listed[i].author
            &&& commits[i].email == listed[i].email
            &&& commits[i].date == listed[i].date
            &&& commits[i].subject == listed[i].subject
            &&& commits[i].files == entries(trimmed(files[i]->out))
        }),
{
    let listed = parsed_log(trimmed(log->out));
    assert(git_result(log_query_model(base, head).args, log)->Ok_0 == trimmed(log->out));
    assert forall|k: int| 0 <= k < files.len() implies commit_files(
        listed[k].hash,
        #[trigger] files[k],
    ) is Ok by {
        law_files_are_the_entries_printed(listed[k].hash, files[k]);
    }
    law_files_are_the_entries_printed(listed[i].hash, files[i]);
    law_collecting_gives_the_logged_commits(base, head, log, files);
    law_log_word_by_word(base, head);
    law_questions_word_by_word(listed[i].hash);
}

/// One reply at a time: the log gives the commits whose files are asked for next;
/// the files of one commit are added to it; and an error is what collecting comes
/// to at once. Nothing is asked for between a branch and itself.
pub proof fn law_collecting_goes_reply_by_reply(query: QueryModel, reply: ReplyModel)
    requires
        query.is_waiting(),
    ensures
        ({
            let (next, step) = query.resumed(reply);
            let n = query.found.len() as int;
            let error = match reply {
                ReplyModel::NotRun { fault, cause } => GitErrorModel::NotRun {
                    args: if query.logged {
                        seq![
                            "log"@,
                            "-1"@,
                            "--name-only"@,
                            "--format="@,
                            query.listed[n].hash,
                        ]
                    } else {
                        seq![
                            "log"@,
                            "--format=%H|%an|%ae|%ai|%s"@,
                            query.base + ".."@ + query.head,
                        ]
                    },
                    cause,
                },
                ReplyModel::Ran { success, bytes, out, err } => GitErrorModel::Failed(
                    trimmed(err),
                ),
            };
            &&& next.base == query.base && next.head == query.head
            &&& if reply matches ReplyModel::Ran { success, .. } && success {
                &&& next.logged
                &&& !query.logged ==> next.listed == parsed_log(trimmed(reply->out))
                    && next.found.len() == 0
                &&& query.logged ==> {
                    &&& next.listed == query.listed
                    &&& next.found.len() == n + 1
                    &&& next.found.take(n) == query.found
                    &&& next.found[n].hash == query.listed[n].hash
                    &&& next.found[n].author == query.listed[n].author
                    &&& next.found[n].email == query.listed[n].email
                    &&& next.found[n].date == query.listed[n].date
                    &&& next.found[n].subject == query.listed[n].subject
                    &&& next.found[n].files == entries(trimmed(reply->out))
                }
                &&& if next.found.len() < next.listed.len() {
                    step matches QueryStepModel::Run(command) && command.input is None
                        && command.args == seq![
                        "log"@,
                        "-1"@,
                        "--name-only"@,
                        "--format="@,
                        next.listed[next.found.len() as int].hash,
                    ]
                } else {
                    step == QueryStepModel::Done(Ok(next.found))
                }
            } else {
                step == QueryStepModel::Done(Err(error))
            }
        }),
{
    let n = query.found.len() as int;
    let (next, step) = query.resumed(reply);
    law_log_word_by_word(query.base, query.head);
    law_questions_word_by_word(query.listed[n].hash);
    law_questions_word_by_word(next.listed[next.found.len() as int].hash);
    law_files_are_the_entries_printed(query.listed[n].hash, reply);
    if query.logged && next.found.len() == n + 1 {
        assert(next.found.take(n) =~= query.found);
    }
}

/// Collecting starts with the log, unless both branches are the same.
pub proof fn law_collecting_starts_with_the_log(base: Text, head: Text)
    ensures
        base == head ==> (first_query_step(base, head) matches QueryStepModel::Done(Ok(commits))
            && commits.len() == 0),
        base != head ==> (first_query_step(base, head) matches QueryStepModel::Run(command)
            && command.input is None && command.args == seq![
            "log"@,
            "--format=%H|%an|%ae|%ai|%s"@,
            base + ".."@ + head,
        ]),
        fresh_query(base, head).base == base,
        fresh_query(base, head).head == head,
        !fresh_query(base, head).logged,
{
    law_log_word_by_word(base, head);
}

/// The models of commits and of collecting hold all of their fields.
pub proof fn law_models_hold_every_part(commit: CommitInfo, query: CommitQuery)
    ensures
        commit.deep_view().hash == commit.hash@,
        commit.deep_view().author == commit.author@,
        commit.deep_view().email == commit.email@,
        commit.deep_view().date == commit.date@,
        commit.deep_view().subject == commit.subject@,
        commit.deep_view().files.len() == commit.files@.len(),
        forall|i: int|
            0 <= i < commit.files@.len() ==> #[trigger] commit.deep_view().files[i]
                == commit.files@[i]@,
        query.deep_view().base == query.base@,
        query.deep_view().head == query.head@,
        query.deep_view().logged == query.logged,
        query.deep_view().listed == query.listed.deep_view(),
        query.deep_view().found == query.found.deep_view(),
{
}

} // verus!
