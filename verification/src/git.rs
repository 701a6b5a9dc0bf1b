//! The Git repository that a fork's source is.
use vstd::prelude::*;

use crate::command::{self, output_of, success_of, CommandRead, CommandView};
use crate::number::{self, parse_count};
use crate::text::{self, cat2, cat4, debug_of, fail, push_line, strip, Error, Text};

verus! {

// ---- The state of a repository

#[derive(Debug, Clone)]
pub struct RepoState {
    pub base_commit: String,
    pub base_commit_present: bool,
    pub head_commit: String,
    pub commits_on_top: Option<u64>,
    pub dirty: bool,
}

pub struct RepoView {
    pub base_commit: Text,
    pub base_commit_present: bool,
    pub head_commit: Text,
    pub commits_on_top: Option<u64>,
    pub dirty: bool,
}

impl DeepView for RepoState {
    type V = RepoView;

    open spec fn deep_view(&self) -> RepoView {
        RepoView {
            base_commit: self.base_commit@,
            base_commit_present: self.base_commit_present,
            head_commit: self.head_commit@,
            commits_on_top: self.commits_on_top,
            dirty: self.dirty,
        }
    }
}

/// What git answered about a repository: to the commands that `repo_commands` gives.
#[derive(Debug, Clone)]
pub struct RepoReads {
    pub head: CommandRead,
    pub status: CommandRead,
    pub base: CommandRead,
    pub count: CommandRead,
}

/// The arguments of the git commands that tell the state of a repository.
#[derive(Debug, Clone)]
pub struct RepoCommands {
    pub head: Vec<String>,
    pub status: Vec<String>,
    pub base: Vec<String>,
    pub count: Vec<String>,
}

/// A git command in a repository.
pub open spec fn git_arguments(source: Text, arguments: Seq<Text>) -> Seq<Text> {
    seq!["-C"@, source] + arguments
}

fn arguments_of(source: &str) -> (r: Vec<String>)
    ensures
        r.deep_view() == seq!["-C"@, source@],
{
    let mut r: Vec<String> = Vec::new();
    push_line(&mut r, "-C".to_owned());
    push_line(&mut r, source.to_owned());
    assert(r.deep_view() =~= seq!["-C"@, source@]);
    r
}

pub open spec fn head_arguments(source: Text) -> Seq<Text> {
    git_arguments(source, seq!["rev-parse"@, "HEAD"@])
}

fn head_command(source: &str) -> (r: Vec<String>)
    ensures
        r.deep_view() == head_arguments(source@),
{
    let mut r = arguments_of(source);
    push_line(&mut r, "rev-parse".to_owned());
    push_line(&mut r, "HEAD".to_owned());
    assert(r.deep_view() =~= head_arguments(source@));
    r
}

pub open spec fn status_arguments(source: Text) -> Seq<Text> {
    git_arguments(source, seq!["status"@, "--porcelain"@])
}

fn status_command(source: &str) -> (r: Vec<String>)
    ensures
        r.deep_view() == status_arguments(source@),
{
    let mut r = arguments_of(source);
    push_line(&mut r, "status".to_owned());
    push_line(&mut r, "--porcelain".to_owned());
    assert(r.deep_view() =~= status_arguments(source@));
    r
}

/// Asks for a base commit.
pub open spec fn base_arguments(source: Text, base_commit: Text) -> Seq<Text> {
    git_arguments(source, seq!["rev-parse"@, "--verify"@, base_commit + "^{commit}"@])
}

/// Counts the commits on top of a base commit.
pub open spec fn count_arguments(source: Text, base_commit: Text) -> Seq<Text> {
    git_arguments(source, seq!["rev-list"@, "--count"@, base_commit + "..HEAD"@])
}

/// The commands that tell where a repository stands as to its base commit.
pub fn repo_commands(source: &str, base_commit: &str) -> (r: RepoCommands)
    ensures
        r.head.deep_view() == head_arguments(source@),
        r.status.deep_view() == status_arguments(source@),
        r.base.deep_view() == base_arguments(source@, base_commit@),
        r.count.deep_view() == count_arguments(source@, base_commit@),
{
    let mut base = arguments_of(source);
    push_line(&mut base, "rev-parse".to_owned());
    push_line(&mut base, "--verify".to_owned());
    push_line(&mut base, cat2(base_commit, "^{commit}"));
    assert(base.deep_view() =~= git_arguments(
        source@,
        seq!["rev-parse"@, "--verify"@, base_commit@ + "^{commit}"@],
    ));
    let mut count = arguments_of(source);
    push_line(&mut count, "rev-list".to_owned());
    push_line(&mut count, "--count".to_owned());
    push_line(&mut count, cat2(base_commit, "..HEAD"));
    assert(count.deep_view() =~= git_arguments(
        source@,
        seq!["rev-list"@, "--count"@, base_commit@ + "..HEAD"@],
    ));
    RepoCommands { head: head_command(source), status: status_command(source), base, count }
}

/// The number that `git rev-list --count` printed.
pub open spec fn count_in(printed: Text) -> Result<u64, Text> {
    match number::read_count(text::stripped(printed)) {
        Ok(count) => Ok(count as u64),
        Err(cause) => Err(
            "git rev-list returned invalid count: "@ + text::debug_text(printed) + ": "@ + cause,
        ),
    }
}

/// The number of commits on top of the base, where the base is there.
pub open spec fn commits_in(present: bool, count: CommandView) -> Result<Option<u64>, Text> {
    if !present {
        Ok(None)
    } else {
        match command::printed("git"@, count) {
            Err(problem) => Err(problem),
            Ok(printed) => match count_in(printed) {
                Err(problem) => Err(problem),
                Ok(count) => Ok(Some(count)),
            },
        }
    }
}

/// The state of a repository as git tells it, or the first command that failed.
pub open spec fn repo_of(base_commit: Text, reads: RepoReads) -> Result<RepoView, Text> {
    match command::printed("git"@, reads.head.deep_view()) {
        Err(problem) => Err(problem),
        Ok(head) => match command::printed("git"@, reads.status.deep_view()) {
            Err(problem) => Err(problem),
            Ok(status) => match command::succeeded("git"@, reads.base.deep_view()) {
                Err(problem) => Err(problem),
                Ok(present) => match commits_in(present, reads.count.deep_view()) {
                    Err(problem) => Err(problem),
                    Ok(commits_on_top) => Ok(
                        RepoView {
                            base_commit,
                            base_commit_present: present,
                            head_commit: text::stripped(head),
                            commits_on_top,
                            dirty: text::stripped(status).len() > 0,
                        },
                    ),
                },
            },
        },
    }
}

fn read_commits(present: bool, count: &CommandRead) -> (r: Result<Option<u64>, Error>)
    ensures
        text::outcome(r) == commits_in(present, count.deep_view()),
{
    if !present {
        return Ok(None);
    }
    let printed = match output_of("git", count) {
        Ok(printed) => printed,
        Err(error) => {
            return Err(error);
        },
    };
    match parse_count(strip(printed.as_str()).as_str()) {
        Ok(count) => Ok(Some(count)),
        Err(error) => Err(
            fail(
                cat4(
                    "git rev-list returned invalid count: ",
                    debug_of(printed.as_str()).as_str(),
                    ": ",
                    error.message.as_str(),
                ),
            ),
        ),
    }
}

/// Reads the state of a repository.
pub fn repo_state(base_commit: &str, reads: &RepoReads) -> (r: Result<RepoState, Error>)
    ensures
        text::outcome(r) == repo_of(base_commit@, *reads),
{
    let head = match output_of("git", &reads.head) {
        Ok(head) => head,
        Err(error) => {
            return Err(error);
        },
    };
    let status = match output_of("git", &reads.status) {
        Ok(status) => status,
        Err(error) => {
            return Err(error);
        },
    };
    let base_commit_present = match success_of("git", &reads.base) {
        Ok(present) => present,
        Err(error) => {
            return Err(error);
        },
    };
    let commits_on_top = match read_commits(base_commit_present, &reads.count) {
        Ok(commits) => commits,
        Err(error) => {
            return Err(error);
        },
    };
    Ok(
        RepoState {
            base_commit: base_commit.to_owned(),
            base_commit_present,
            head_commit: strip(head.as_str()),
            commits_on_top,
            dirty: !strip(status.as_str()).as_str().is_empty(),
        },
    )
}

// ---- The base commit

/// What making a base commit does next.
#[derive(Debug, Clone)]
pub enum InitStep {
    /// Runs git with these arguments.
    Run { arguments: Vec<String> },
    Done { commit: String },
}

pub enum InitView {
    Run { arguments: Seq<Text> },
    Done { commit: Text },
}

impl DeepView for InitStep {
    type V = InitView;

    open spec fn deep_view(&self) -> InitView {
        match self {
            InitStep::Run { arguments } => InitView::Run { arguments: arguments.deep_view() },
            InitStep::Done { commit } => InitView::Done { commit: commit@ },
        }
    }
}

pub open spec fn commit_arguments(source: Text, message: Text) -> Seq<Text> {
    git_arguments(
        source,
        seq![
            "-c"@,
            "user.name=forkpkg"@,
            "-c"@,
            "user.email=forkpkg@example.invalid"@,
            "-c"@,
            "commit.gpgsign=false"@,
            "commit"@,
            "--no-gpg-sign"@,
            "-m"@,
            message,
        ],
    )
}

fn commit_command(source: &str, message: &str) -> (r: Vec<String>)
    ensures
        r.deep_view() == commit_arguments(source@, message@),
{
    let mut r = arguments_of(source);
    push_line(&mut r, "-c".to_owned());
    push_line(&mut r, "user.name=forkpkg".to_owned());
    push_line(&mut r, "-c".to_owned());
    push_line(&mut r, "user.email=forkpkg@example.invalid".to_owned());
    push_line(&mut r, "-c".to_owned());
    push_line(&mut r, "commit.gpgsign=false".to_owned());
    push_line(&mut r, "commit".to_owned());
    push_line(&mut r, "--no-gpg-sign".to_owned());
    push_line(&mut r, "-m".to_owned());
    push_line(&mut r, message.to_owned());
    assert(r.deep_view() =~= commit_arguments(source@, message@));
    r
}

/// Why a command that was only to be run failed, if it did.
pub open spec fn run_refusal(label: Text, read: CommandView) -> Option<Text> {
    match read {
        CommandView::NotExecuted { cause } => Some("failed to execute "@ + label + ": "@ + cause),
        CommandView::Exited { status, stderr } => Some(
            command::exit_message(label, status, stderr),
        ),
        _ => None,
    }
}

fn check_run(label: &str, read: &CommandRead) -> (r: Result<(), Error>)
    ensures
        text::refusal(r) == run_refusal(label@, read.deep_view()),
{
    match read {
        CommandRead::NotExecuted { cause } => Err(
            fail(cat4("failed to execute ", label, ": ", cause.as_str())),
        ),
        CommandRead::Exited { status, stderr } => Err(
            fail(command::exit_error(label, status.as_str(), stderr.as_str())),
        ),
        _ => Ok(()),
    }
}

/// What the last answer is worth: the commands that only prepare have to succeed, there
/// has to be something to commit, and the last command tells the commit.
pub open spec fn init_refusal(answers: Seq<CommandView>) -> Option<Text> {
    if answers.len() == 0 {
        None
    } else if answers.len() <= 3 {
        run_refusal("git"@, answers.last())
    } else if answers.len() == 4 {
        match command::printed("git"@, answers.last()) {
            Err(problem) => Some(problem),
            Ok(status) => if text::stripped(status).len() == 0 {
                Some("source tree is empty; refusing to create an empty base commit"@)
            } else {
                None
            },
        }
    } else if answers.len() == 5 {
        run_refusal("git commit"@, answers.last())
    } else {
        match command::printed("git"@, answers.last()) {
            Err(problem) => Some(problem),
            Ok(_) => None,
        }
    }
}

pub open spec fn init_action(source: Text, message: Text, answers: Seq<CommandView>) -> InitView {
    if answers.len() == 0 {
        InitView::Run { arguments: git_arguments(source, seq!["init"@]) }
    } else if answers.len() == 1 {
        InitView::Run { arguments: git_arguments(source, seq!["branch"@, "-M"@, "main"@]) }
    } else if answers.len() == 2 {
        InitView::Run { arguments: git_arguments(source, seq!["add"@, "-A"@]) }
    } else if answers.len() == 3 {
        InitView::Run { arguments: status_arguments(source) }
    } else if answers.len() == 4 {
        InitView::Run { arguments: commit_arguments(source, message) }
    } else if answers.len() == 5 {
        InitView::Run { arguments: head_arguments(source) }
    } else {
        InitView::Done {
            commit: text::stripped(command::printed("git"@, answers.last())->Ok_0),
        }
    }
}

/// What making a base commit does next, given the answers so far.
pub open spec fn init_next(source: Text, message: Text, answers: Seq<CommandView>) -> Result<
    InitView,
    Text,
> {
    match init_refusal(answers) {
        Some(problem) => Err(problem),
        None => Ok(init_action(source, message, answers)),
    }
}

fn check_init(answers: &Vec<CommandRead>) -> (r: Result<String, Error>)
    ensures
        match r {
            Ok(commit) => {
                &&& init_refusal(answers.deep_view()) is None
                &&& answers@.len() > 5 ==> commit@ == text::stripped(
                    command::printed("git"@, answers.deep_view().last())->Ok_0,
                )
            },
            Err(error) => init_refusal(answers.deep_view()) == Some(error@),
        },
{
    let count = answers.len();
    if count == 0 {
        return Ok(String::new());
    }
    let last = &answers[count - 1];
    assert(answers.deep_view().last() == last.deep_view());
    if count <= 3 {
        return match check_run("git", last) {
            Ok(()) => Ok(String::new()),
            Err(error) => Err(error),
        };
    }
    if count == 5 {
        return match check_run("git commit", last) {
            Ok(()) => Ok(String::new()),
            Err(error) => Err(error),
        };
    }
    let printed = match output_of("git", last) {
        Ok(printed) => strip(printed.as_str()),
        Err(error) => {
            return Err(error);
        },
    };
    if count == 4 && printed.as_str().is_empty() {
        return Err(
            fail("source tree is empty; refusing to create an empty base commit".to_owned()),
        );
    }
    Ok(printed)
}

/// Makes a repository of a source tree, with everything in one commit: says what to do
/// next after the answers so far.
pub fn init_base_commit(source: &str, message: &str, answers: &Vec<CommandRead>) -> (r: Result<
    InitStep,
    Error,
>)
    ensures
        text::outcome(r) == init_next(source@, message@, answers.deep_view()),
{
    let commit = match check_init(answers) {
        Ok(commit) => commit,
        Err(error) => {
            return Err(error);
        },
    };
    let count = answers.len();
    let mut arguments = arguments_of(source);
    if count == 0 {
        push_line(&mut arguments, "init".to_owned());
        assert(arguments.deep_view() =~= git_arguments(source@, seq!["init"@]));
    } else if count == 1 {
        push_line(&mut arguments, "branch".to_owned());
        push_line(&mut arguments, "-M".to_owned());
        push_line(&mut arguments, "main".to_owned());
        assert(arguments.deep_view() =~= git_arguments(source@, seq!["branch"@, "-M"@, "main"@]));
    } else if count == 2 {
        push_line(&mut arguments, "add".to_owned());
        push_line(&mut arguments, "-A".to_owned());
        assert(arguments.deep_view() =~= git_arguments(source@, seq!["add"@, "-A"@]));
    } else if count == 3 {
        arguments = status_command(source);
    } else if count == 4 {
        arguments = commit_command(source, message);
    } else if count == 5 {
        arguments = head_command(source);
    } else {
        return Ok(InitStep::Done { commit });
    }
    Ok(InitStep::Run { arguments })
}

} // verus!
