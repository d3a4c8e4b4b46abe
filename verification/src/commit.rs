//! Commands that record work: the author's identity, commits and new branches.
use crate::flow;
use crate::flow::{args2, args3, args4, git, git_with_env};
use crate::flow::{Flow, GitReply, GitResult, Step};
use crate::text;
use crate::text::or_text;
use crate::{AGENT_AUTHOR_EMAIL, AGENT_AUTHOR_NAME};
use vstd::prelude::*;

verus! {

/// The variables of the caller's environment that override the identity of commits, where they
/// are set.
#[derive(Debug, PartialEq, Eq)]
pub struct AuthorVars {
    pub author_name: Option<String>,
    pub author_email: Option<String>,
    pub committer_name: Option<String>,
    pub committer_email: Option<String>,
}

/// The environment that gives a commit its author.
pub open spec fn author_env(vars: AuthorVars) -> Seq<(Seq<char>, Seq<char>)> {
    seq![
        ("GIT_AUTHOR_NAME"@, text::text_or(vars.author_name.deep_view(), AGENT_AUTHOR_NAME@)),
        ("GIT_AUTHOR_EMAIL"@, text::text_or(vars.author_email.deep_view(), AGENT_AUTHOR_EMAIL@)),
        ("GIT_COMMITTER_NAME"@, text::text_or(vars.committer_name.deep_view(), AGENT_AUTHOR_NAME@)),
        ("GIT_COMMITTER_EMAIL"@, text::text_or(vars.committer_email.deep_view(), AGENT_AUTHOR_EMAIL@)),
    ]
}

/// The environment that gives a commit its author: the identity of the engine, except for the
/// variables that the caller has set.
pub fn ensure_clean_author_env(vars: &AuthorVars) -> (env: Vec<(String, String)>)
    ensures
        flow::env_views(env@) == author_env(*vars),
{
    let env = vec![
        ("GIT_AUTHOR_NAME".to_owned(), or_text(&vars.author_name, AGENT_AUTHOR_NAME).to_owned()),
        ("GIT_AUTHOR_EMAIL".to_owned(), or_text(&vars.author_email, AGENT_AUTHOR_EMAIL).to_owned()),
        ("GIT_COMMITTER_NAME".to_owned(), or_text(&vars.committer_name, AGENT_AUTHOR_NAME).to_owned()),
        ("GIT_COMMITTER_EMAIL".to_owned(), or_text(&vars.committer_email, AGENT_AUTHOR_EMAIL).to_owned()),
    ];
    proof {
        assert(flow::env_views(env@) =~= author_env(*vars));
    }
    env
}

/// The command that commits what is staged.
pub open spec fn commit_command(
    message: Seq<char>,
    env: Seq<(Seq<char>, Seq<char>)>,
) -> flow::Command {
    flow::with_env(seq!["commit"@, "-m"@, message, "--no-verify"@], env)
}

/// Stages everything and commits it; tells whether a commit was made. Nothing is committed where
/// nothing differs from the last commit.
pub open spec fn commit_all_flow(
    message: Seq<char>,
    env: Seq<(Seq<char>, Seq<char>)>,
    replies: Seq<GitReply>,
    i: int,
) -> Flow<bool> {
    flow::ask(
        replies,
        i,
        flow::plain(seq!["add"@, "-A"@]),
        |add: GitResult|
            if !add.succeeded() {
                Flow::Done(Ok(false), i + 1)
            } else {
                flow::ask(
                    replies,
                    i + 1,
                    flow::plain(seq!["diff"@, "--cached"@, "--quiet"@]),
                    |diff: GitResult|
                        if diff.succeeded() {
                            Flow::Done(Ok(false), i + 2)
                        } else {
                            flow::ask(
                                replies,
                                i + 2,
                                commit_command(message, env),
                                |commit: GitResult| Flow::Done(Ok(commit.succeeded()), i + 3),
                            )
                        },
                )
            },
    )
}

/// Stages everything and commits it; tells whether a commit was made.
pub fn commit_all(
    message: &str,
    env: &Vec<(String, String)>,
    replies: &[GitReply],
    from: usize,
) -> (step: Step<bool>)
    ensures
        step@ == commit_all_flow(message@, flow::env_views(env@), replies@, from as int),
        step matches Step::Done(_, n) ==> from < n <= replies.len(),
{
    if from >= replies.len() {
        return Step::Run(git(args2("add", "-A")));
    }
    match &replies[from].outcome {
        Ok(add) => {
            if !add.ok() {
                return Step::Done(Ok(false), from + 1);
            }
        },
        Err(why) => {
            return Step::Done(Err(why.clone()), from + 1);
        },
    }
    if from + 1 >= replies.len() {
        return Step::Run(git(args3("diff", "--cached", "--quiet")));
    }
    match &replies[from + 1].outcome {
        Ok(diff) => {
            if diff.ok() {
                return Step::Done(Ok(false), from + 2);
            }
        },
        Err(why) => {
            return Step::Done(Err(why.clone()), from + 2);
        },
    }
    if from + 2 >= replies.len() {
        return Step::Run(git_with_env(args4("commit", "-m", message, "--no-verify"), env));
    }
    match &replies[from + 2].outcome {
        Ok(commit) => Step::Done(Ok(commit.ok()), from + 3),
        Err(why) => Step::Done(Err(why.clone()), from + 3),
    }
}

/// The command that makes a branch at the head, without switching to it.
pub open spec fn branch_command(name: Seq<char>) -> flow::Command {
    flow::plain(seq!["branch"@, name, "HEAD"@])
}

/// The command that makes a branch at the head, without switching to it.
pub fn branch_at_head(name: &str) -> (c: flow::GitCommand)
    ensures
        c@ == branch_command(name@),
{
    git(args3("branch", name, "HEAD"))
}

/// Makes a branch at the head, without switching to it. A failing command is an error.
pub open spec fn create_branch_at_head_flow(
    name: Seq<char>,
    replies: Seq<GitReply>,
    i: int,
) -> Flow<()> {
    flow::ask(
        replies,
        i,
        branch_command(name),
        |r: GitResult|
            if r.succeeded() {
                Flow::Done(Ok(()), i + 1)
            } else {
                Flow::Done(Err("could not create branch "@ + name + ": "@ + r.output()), i + 1)
            },
    )
}

/// Makes a branch at the head, without switching to it. A failing command is an error.
pub fn create_branch_at_head(name: &str, replies: &[GitReply], from: usize) -> (step: Step<()>)
    ensures
        step@ == create_branch_at_head_flow(name@, replies@, from as int),
        step matches Step::Done(_, n) ==> from < n <= replies.len(),
{
    if from >= replies.len() {
        return Step::Run(branch_at_head(name));
    }
    match &replies[from].outcome {
        Ok(r) => {
            if r.ok() {
                Step::Done(Ok(()), from + 1)
            } else {
                let why = "could not create branch ".to_owned().concat(name).concat(": ").concat(
                    &r.combined(),
                );
                Step::Done(Err(why), from + 1)
            }
        },
        Err(why) => Step::Done(Err(why.clone()), from + 1),
    }
}

} // verus!
