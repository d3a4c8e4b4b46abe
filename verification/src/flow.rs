//! Conversations with git.
//!
//! Nothing in this library starts a process. What has to be asked of git is written as a
//! function of the replies that came so far: it answers with the next command to run, or with the
//! result. The caller runs the command, appends the reply to the list and calls again.
use crate::clock::Stamp;
use crate::text;
use crate::text::{blank, trim_end};
use vstd::prelude::*;

verus! {

/// What a finished git process left behind.
#[derive(Debug, Clone, PartialEq, Eq)]
pub struct GitResult {
    pub stdout: String,
    pub stderr: String,
    pub code: i32,
}

impl GitResult {
    /// Whether git reported success.
    pub open spec fn succeeded(&self) -> bool {
        self.code == 0
    }

    /// Both outputs as one text, without trailing white space; standard error is left out where
    /// it is blank.
    pub open spec fn output(&self) -> Seq<char> {
        if text::is_blank(self.stderr@) {
            text::trimmed_end(self.stdout@)
        } else {
            text::trimmed_end(self.stdout@) + "\n"@ + text::trimmed_end(self.stderr@)
        }
    }

    /// Whether git reported success.
    pub fn ok(&self) -> (r: bool)
        ensures
            r == self.succeeded(),
    {
        self.code == 0
    }

    /// Both outputs as one text, without trailing white space; standard error is left out where
    /// it is blank.
    pub fn combined(&self) -> (r: String)
        ensures
            r@ == self.output(),
    {
        if !blank(&self.stderr) {
            let mut r = trim_end(&self.stdout).to_owned();
            r.append("\n");
            r.append(trim_end(&self.stderr));
            r
        } else {
            trim_end(&self.stdout).to_owned()
        }
    }
}

/// A command line for git, with the variables to add to its environment and the number of
/// seconds that it is given.
#[derive(Debug, PartialEq, Eq)]
pub struct GitCommand {
    pub args: Vec<String>,
    pub env: Vec<(String, String)>,
    pub timeout_secs: Option<u64>,
}

/// The model of a [`GitCommand`].
#[verifier::ext_equal]
pub struct Command {
    pub args: Seq<Seq<char>>,
    pub env: Seq<(Seq<char>, Seq<char>)>,
    pub timeout_secs: Option<u64>,
}

/// The views of a list of environment variables.
pub open spec fn env_views(env: Seq<(String, String)>) -> Seq<(Seq<char>, Seq<char>)> {
    env.map_values(|v: (String, String)| (v.0@, v.1@))
}

impl View for GitCommand {
    type V = Command;

    open spec fn view(&self) -> Command {
        Command {
            args: text::views(self.args@),
            env: env_views(self.env@),
            timeout_secs: self.timeout_secs,
        }
    }
}

/// The number of seconds that a command is given, where it does not ask for more.
pub const DEFAULT_TIMEOUT_SECS: u64 = 30;

/// A command that adds nothing to the environment.
pub open spec fn plain(args: Seq<Seq<char>>) -> Command {
    Command { args, env: Seq::empty(), timeout_secs: Some(DEFAULT_TIMEOUT_SECS) }
}

/// A command that may take a minute, as one that talks to a remote.
pub open spec fn patient(args: Seq<Seq<char>>) -> Command {
    Command { args, env: Seq::empty(), timeout_secs: Some(60) }
}

/// A command with variables added to its environment.
pub open spec fn with_env(args: Seq<Seq<char>>, env: Seq<(Seq<char>, Seq<char>)>) -> Command {
    Command { args, env, timeout_secs: Some(DEFAULT_TIMEOUT_SECS) }
}

/// One argument.
pub fn args1(a: &str) -> (list: Vec<String>)
    ensures
        text::views(list@) == seq![a@],
{
    let list = vec![a.to_owned()];
    proof {
        assert(text::views(list@) =~= seq![a@]);
    }
    list
}

/// Two arguments.
pub fn args2(a: &str, b: &str) -> (list: Vec<String>)
    ensures
        text::views(list@) == seq![a@, b@],
{
    let list = vec![a.to_owned(), b.to_owned()];
    proof {
        assert(text::views(list@) =~= seq![a@, b@]);
    }
    list
}

/// Three arguments.
pub fn args3(a: &str, b: &str, c: &str) -> (list: Vec<String>)
    ensures
        text::views(list@) == seq![a@, b@, c@],
{
    let list = vec![a.to_owned(), b.to_owned(), c.to_owned()];
    proof {
        assert(text::views(list@) =~= seq![a@, b@, c@]);
    }
    list
}

/// Four arguments.
pub fn args4(a: &str, b: &str, c: &str, d: &str) -> (list: Vec<String>)
    ensures
        text::views(list@) == seq![a@, b@, c@, d@],
{
    let list = vec![a.to_owned(), b.to_owned(), c.to_owned(), d.to_owned()];
    proof {
        assert(text::views(list@) =~= seq![a@, b@, c@, d@]);
    }
    list
}

/// Six arguments.
pub fn args6(a: &str, b: &str, c: &str, d: &str, e: &str, f: &str) -> (list: Vec<String>)
    ensures
        text::views(list@) == seq![a@, b@, c@, d@, e@, f@],
{
    let list = vec![a.to_owned(), b.to_owned(), c.to_owned(), d.to_owned(), e.to_owned(), f.to_owned()];
    proof {
        assert(text::views(list@) =~= seq![a@, b@, c@, d@, e@, f@]);
    }
    list
}

/// A command that adds nothing to the environment.
pub fn git(args: Vec<String>) -> (c: GitCommand)
    ensures
        c@ == plain(text::views(args@)),
{
    GitCommand { args, env: Vec::new(), timeout_secs: Some(DEFAULT_TIMEOUT_SECS) }
}

/// A command that may take a minute.
pub fn git_patient(args: Vec<String>) -> (c: GitCommand)
    ensures
        c@ == patient(text::views(args@)),
{
    GitCommand { args, env: Vec::new(), timeout_secs: Some(60) }
}

/// Copies a list of environment variables.
pub fn copy_env(env: &Vec<(String, String)>) -> (r: Vec<(String, String)>)
    ensures
        env_views(r@) == env_views(env@),
{
    let mut r: Vec<(String, String)> = Vec::new();
    let mut i: usize = 0;
    while i < env.len()
        invariant
            i <= env.len(),
            r.len() == i,
            forall|k: int| 0 <= k < i ==> r@[k].0@ == env@[k].0@ && r@[k].1@ == env@[k].1@,
        decreases env.len() - i,
    {
        r.push((env[i].0.clone(), env[i].1.clone()));
        i = i + 1;
    }
    proof {
        assert(env_views(r@) =~= env_views(env@));
    }
    r
}

/// A command with variables added to its environment.
pub fn git_with_env(args: Vec<String>, env: &Vec<(String, String)>) -> (c: GitCommand)
    ensures
        c@ == with_env(text::views(args@), env_views(env@)),
{
    GitCommand { args, env: copy_env(env), timeout_secs: Some(DEFAULT_TIMEOUT_SECS) }
}

/// What came of a command: what git left behind, or why it could not be started; and when.
#[derive(Debug, PartialEq, Eq)]
pub struct GitReply {
    pub outcome: Result<GitResult, String>,
    pub at: Stamp,
}

/// Where a conversation stands: the command to run next, or the result together with the number
/// of replies that were used up to there.
#[derive(Debug, PartialEq, Eq)]
pub enum Step<T> {
    Run(GitCommand),
    Done(Result<T, String>, usize),
}

/// The model of a [`Step`].
pub enum Flow<T> {
    Run(Command),
    Done(Result<T, Seq<char>>, int),
}

impl<T: DeepView> View for Step<T> {
    type V = Flow<T::V>;

    open spec fn view(&self) -> Flow<T::V> {
        match self {
            Step::Run(c) => Flow::Run(c@),
            Step::Done(Ok(value), n) => Flow::Done(Ok(value.deep_view()), *n as int),
            Step::Done(Err(why), n) => Flow::Done(Err(why@), *n as int),
        }
    }
}

/// Runs `c` as the command number `i` of a conversation and goes on with what git left behind.
/// A command that could not be started ends the conversation.
pub open spec fn ask<T>(
    replies: Seq<GitReply>,
    i: int,
    c: Command,
    go_on: spec_fn(GitResult) -> Flow<T>,
) -> Flow<T> {
    if i >= replies.len() {
        Flow::Run(c)
    } else {
        match replies[i].outcome {
            Ok(result) => go_on(result),
            Err(why) => Flow::Done(Err(why@), i + 1),
        }
    }
}

/// Holds one conversation as a part of another, which goes on with its result and with the
/// number of replies used so far. An error of the part is one of the whole.
pub open spec fn chain<A, B>(part: Flow<A>, go_on: spec_fn(A, int) -> Flow<B>) -> Flow<B> {
    match part {
        Flow::Run(c) => Flow::Run(c),
        Flow::Done(Ok(value), n) => go_on(value, n),
        Flow::Done(Err(why), n) => Flow::Done(Err(why), n),
    }
}

/// Like [`chain`], but with `fallback` as the result of a part that ended in an error.
pub open spec fn chain_or<A, B>(
    part: Flow<A>,
    fallback: A,
    go_on: spec_fn(A, int) -> Flow<B>,
) -> Flow<B> {
    match part {
        Flow::Run(c) => Flow::Run(c),
        Flow::Done(Ok(value), n) => go_on(value, n),
        Flow::Done(Err(_), n) => go_on(fallback, n),
    }
}

} // verus!
