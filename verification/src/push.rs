//! Pushing, by fast-forward only.
use crate::commit;
use crate::commit::branch_at_head;
use crate::flow;
use crate::flow::{args4, git_patient};
use crate::flow::{Flow, GitReply, GitResult, Step};
use vstd::prelude::*;

verus! {

/// The command that pushes a branch by fast-forward.
pub open spec fn ff_only_command(branch: Seq<char>) -> flow::Command {
    flow::patient(seq!["push"@, "--ff-only"@, "origin"@, branch])
}

/// The command that pushes a new branch and makes the remote one its upstream.
pub open spec fn upstream_command(branch: Seq<char>) -> flow::Command {
    flow::patient(seq!["push"@, "--set-upstream"@, "origin"@, branch])
}

/// Pushes `branch` by fast-forward: whether git did so, and what it printed.
pub open spec fn push_branch_ff_only_flow(
    branch: Seq<char>,
    replies: Seq<GitReply>,
    i: int,
) -> Flow<(bool, Seq<char>)> {
    flow::ask(
        replies,
        i,
        ff_only_command(branch),
        |r: GitResult| Flow::Done(Ok((r.succeeded(), r.output())), i + 1),
    )
}

/// Pushes `branch` by fast-forward: whether git did so, and what it printed. A push that
/// fails is no error: the caller decides what to do about it.
pub fn push_branch_ff_only(branch: &str, replies: &[GitReply], from: usize) -> (step: Step<
    (bool, String),
>)
    ensures
        step@ == push_branch_ff_only_flow(branch@, replies@, from as int),
        step matches Step::Done(_, n) ==> from < n <= replies.len(),
{
    if from >= replies.len() {
        return Step::Run(git_patient(args4("push", "--ff-only", "origin", branch)));
    }
    match &replies[from].outcome {
        Ok(r) => Step::Done(Ok((r.ok(), r.combined())), from + 1),
        Err(why) => Step::Done(Err(why.clone()), from + 1),
    }
}

/// Pushes a new branch: whether git did so, and what it printed.
pub open spec fn push_branch_with_upstream_flow(
    branch: Seq<char>,
    replies: Seq<GitReply>,
    i: int,
) -> Flow<(bool, Seq<char>)> {
    flow::ask(
        replies,
        i,
        upstream_command(branch),
        |r: GitResult| Flow::Done(Ok((r.succeeded(), r.output())), i + 1),
    )
}

/// Pushes a new branch and makes the remote one its upstream: whether git did so, and what it
/// printed.
pub fn push_branch_with_upstream(branch: &str, replies: &[GitReply], from: usize) -> (step: Step<
    (bool, String),
>)
    ensures
        step@ == push_branch_with_upstream_flow(branch@, replies@, from as int),
        step matches Step::Done(_, n) ==> from < n <= replies.len(),
{
    if from >= replies.len() {
        return Step::Run(git_patient(args4("push", "--set-upstream", "origin", branch)));
    }
    match &replies[from].outcome {
        Ok(r) => Step::Done(Ok((r.ok(), r.combined())), from + 1),
        Err(why) => Step::Done(Err(why.clone()), from + 1),
    }
}

/// The branch that keeps work which could not be pushed.
pub open spec fn backup_name(tag: Seq<char>, id: Seq<char>) -> Seq<char> {
    "wip/"@ + tag + "-"@ + id
}

/// Pushes `branch` by fast-forward. Where that fails, for whatever reason, the head is kept as a new
/// branch, named after `tag` and the moment of the failure, and that is pushed. The result tells
/// whether one of the pushes went through, and what happened.
pub open spec fn try_push_or_snapshot_flow(
    branch: Seq<char>,
    tag: Seq<char>,
    replies: Seq<GitReply>,
    i: int,
) -> Flow<(bool, Seq<char>)> {
    flow::chain(
        push_branch_ff_only_flow(branch, replies, i),
        |push: (bool, Seq<char>), n: int|
            if push.0 {
                Flow::Done(Ok((true, "pushed "@ + branch)), n)
            } else {
                keep_as_backup_flow(branch, backup_name(tag, replies[n - 1].at.id@), replies, n)
            },
    )
}

/// Keeps the head as the new branch `backup` and pushes that.
pub open spec fn keep_as_backup_flow(
    branch: Seq<char>,
    backup: Seq<char>,
    replies: Seq<GitReply>,
    i: int,
) -> Flow<(bool, Seq<char>)> {
    flow::ask(
        replies,
        i,
        commit::branch_command(backup),
        |made: GitResult|
            if !made.succeeded() {
                Flow::Done(
                    Ok(
                        (
                            false,
                            "failed to create backup branch "@ + backup + ": "@ + made.output(),
                        ),
                    ),
                    i + 1,
                )
            } else {
                flow::chain(
                    push_branch_with_upstream_flow(backup, replies, i + 1),
                    |push: (bool, Seq<char>), n: int|
                        if push.0 {
                            Flow::Done(
                                Ok(
                                    (
                                        true,
                                        "push rejected for "@ + branch + "; backup at "@ + backup
                                            + " pushed"@,
                                    ),
                                ),
                                n,
                            )
                        } else {
                            Flow::Done(
                                Ok(
                                    (
                                        false,
                                        "backup branch push also failed for "@ + backup + ": "@
                                            + push.1,
                                    ),
                                ),
                                n,
                            )
                        },
                )
            },
    )
}

fn keep_as_backup(branch: &str, backup: &str, replies: &[GitReply], from: usize) -> (step: Step<
    (bool, String),
>)
    ensures
        step@ == keep_as_backup_flow(branch@, backup@, replies@, from as int),
        step matches Step::Done(_, n) ==> from < n <= replies.len(),
{
    if from >= replies.len() {
        return Step::Run(branch_at_head(backup));
    }
    match &replies[from].outcome {
        Ok(made) => {
            if !made.ok() {
                let text = "failed to create backup branch ".to_owned().concat(backup).concat(
                    ": ",
                ).concat(&made.combined());
                return Step::Done(Ok((false, text)), from + 1);
            }
        },
        Err(why) => {
            return Step::Done(Err(why.clone()), from + 1);
        },
    }
    match push_branch_with_upstream(backup, replies, from + 1) {
        Step::Run(c) => Step::Run(c),
        Step::Done(Err(why), n) => Step::Done(Err(why), n),
        Step::Done(Ok((ok, output)), n) => {
            if ok {
                let text = "push rejected for ".to_owned().concat(branch).concat(
                    "; backup at ",
                ).concat(backup).concat(" pushed");
                Step::Done(Ok((true, text)), n)
            } else {
                let text = "backup branch push also failed for ".to_owned().concat(backup).concat(
                    ": ",
                ).concat(&output);
                Step::Done(Ok((false, text)), n)
            }
        },
    }
}

/// Pushes `branch` by fast-forward. Where that fails, for whatever reason, the head is kept as a
/// new branch `wip/<tag>-<id>`, and that is pushed: a new branch is always a fast-forward. The
/// result tells whether one of the pushes went through, and what happened.
pub fn try_push_or_snapshot(
    branch: &str,
    tag: &str,
    replies: &[GitReply],
    from: usize,
) -> (step: Step<(bool, String)>)
    ensures
        step@ == try_push_or_snapshot_flow(branch@, tag@, replies@, from as int),
        step matches Step::Done(_, n) ==> from < n <= replies.len(),
{
    match push_branch_ff_only(branch, replies, from) {
        Step::Run(c) => Step::Run(c),
        Step::Done(Err(why), n) => Step::Done(Err(why), n),
        Step::Done(Ok((ok, _)), n) => {
            if ok {
                return Step::Done(Ok((true, "pushed ".to_owned().concat(branch))), n);
            }
            let backup = "wip/".to_owned().concat(tag).concat("-").concat(&replies[n - 1].at.id);
            keep_as_backup(branch, &backup, replies, n)
        },
    }
}

/// Work is not lost over a failed push. Whatever the reason of the failure, the next command keeps
/// the head as a new branch; once that is made, the next command pushes that branch; and once that
/// went through, the push is reported as done.
pub proof fn law_failed_push_is_kept(
    branch: Seq<char>,
    tag: Seq<char>,
    replies: Seq<GitReply>,
    i: int,
)
    requires
        0 <= i < replies.len(),
        replies[i].outcome matches Ok(r) && !r.succeeded(),
    ensures
        ({
            let backup = backup_name(tag, replies[i].at.id@);
            let next = try_push_or_snapshot_flow(branch, tag, replies, i);
            let made = i + 1 < replies.len() && (replies[i + 1].outcome matches Ok(r)
                && r.succeeded());
            let pushed = i + 2 < replies.len() && (replies[i + 2].outcome matches Ok(r)
                && r.succeeded());
            &&& replies.len() == i + 1 ==> next == Flow::<(bool, Seq<char>)>::Run(
                commit::branch_command(backup),
            )
            &&& replies.len() == i + 2 && made ==> next == Flow::<(bool, Seq<char>)>::Run(
                upstream_command(backup),
            )
            &&& made && pushed ==> (next matches Flow::Done(Ok((done, _)), _) && done)
        }),
{
}

} // verus!
