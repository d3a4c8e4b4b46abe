//! Bringing a stash to safety.
use crate::commit;
use crate::commit::{branch_at_head, commit_all};
use crate::flow;
use crate::flow::{args3, args4, git};
use crate::flow::{Flow, GitReply, GitResult, Step};
use crate::push;
use crate::push::push_branch_with_upstream;
use crate::text;
use crate::text::{lines, show};
use vstd::prelude::*;

verus! {

/// What became of a stash: whether its work was pushed, what happened, and, once the stash was
/// applied, the name that is meant for its branch, whether the branch was made or not.
pub type Recovery = (bool, String, Option<String>);

/// The model of a [`Recovery`].
pub type RecoveryView = (bool, Seq<char>, Option<Seq<char>>);

/// The command that prints the changes in a stash.
pub open spec fn show_command(stash: Seq<char>) -> flow::Command {
    flow::plain(seq!["stash"@, "show"@, "-p"@, stash])
}

/// The command that applies a stash and keeps it.
pub open spec fn apply_command(stash: Seq<char>) -> flow::Command {
    flow::plain(seq!["stash"@, "apply"@, stash])
}

/// The command that drops a stash.
pub open spec fn drop_command(stash: Seq<char>) -> flow::Command {
    flow::plain(seq!["stash"@, "drop"@, stash])
}

/// The branch that keeps the work of a stash.
pub open spec fn stash_branch(tag: Seq<char>, id: Seq<char>) -> Seq<char> {
    "wip/"@ + tag + "-stash-"@ + id
}

/// The message of the commit that holds the work of a stash, which is `changes` as a patch.
pub open spec fn stash_message(
    stash: Seq<char>,
    tag: Seq<char>,
    changes: Seq<char>,
) -> Seq<char> {
    "wip: applied stash "@ + stash + " ("@ + tag + ")\n\n"@ + text::decimal(
        text::lines_of(changes).len() as int,
    ) + " lines"@
}

/// Applies a stash, commits, makes a branch at that commit, pushes the branch, and drops the stash
/// if and only if the push went through.
pub open spec fn recover_one_stash_flow(
    stash: Seq<char>,
    tag: Seq<char>,
    env: Seq<(Seq<char>, Seq<char>)>,
    replies: Seq<GitReply>,
    i: int,
) -> Flow<RecoveryView> {
    flow::ask(
        replies,
        i,
        show_command(stash),
        |shown: GitResult|
            if !shown.succeeded() {
                Flow::Done(Ok((false, "cannot read "@ + stash, None)), i + 1)
            } else {
                flow::ask(
                    replies,
                    i + 1,
                    apply_command(stash),
                    |applied: GitResult|
                        if !applied.succeeded() {
                            Flow::Done(
                                Ok((false, "stash apply failed: "@ + applied.output(), None)),
                                i + 2,
                            )
                        } else {
                            keep_applied_flow(
                                stash,
                                stash_branch(tag, replies[i + 1].at.id@),
                                stash_message(stash, tag, shown.stdout@),
                                env,
                                replies,
                                i + 2,
                            )
                        },
                )
            },
    )
}

/// Commits an applied stash and keeps that commit on `branch`.
pub open spec fn keep_applied_flow(
    stash: Seq<char>,
    branch: Seq<char>,
    message: Seq<char>,
    env: Seq<(Seq<char>, Seq<char>)>,
    replies: Seq<GitReply>,
    i: int,
) -> Flow<RecoveryView> {
    flow::chain(
        commit::commit_all_flow(message, env, replies, i),
        |committed: bool, n: int|
            if !committed {
                Flow::Done(Ok((false, "could not commit applied stash"@, Some(branch))), n)
            } else {
                keep_committed_flow(stash, branch, replies, n)
            },
    )
}

/// Makes `branch` at the head, which holds the work of the stash, and pushes it.
pub open spec fn keep_committed_flow(
    stash: Seq<char>,
    branch: Seq<char>,
    replies: Seq<GitReply>,
    i: int,
) -> Flow<RecoveryView> {
    flow::ask(
        replies,
        i,
        commit::branch_command(branch),
        |made: GitResult|
            if !made.succeeded() {
                Flow::Done(
                    Ok(
                        (
                            false,
                            "could not create wip branch from applied stash"@,
                            Some(branch),
                        ),
                    ),
                    i + 1,
                )
            } else {
                push_then_drop_flow(stash, branch, replies, i + 1)
            },
    )
}

/// Pushes `branch`, and drops the stash where that went through.
pub open spec fn push_then_drop_flow(
    stash: Seq<char>,
    branch: Seq<char>,
    replies: Seq<GitReply>,
    i: int,
) -> Flow<RecoveryView> {
    flow::chain(
        push::push_branch_with_upstream_flow(branch, replies, i),
        |pushed: (bool, Seq<char>), n: int|
            if !pushed.0 {
                Flow::Done(
                    Ok(
                        (
                            false,
                            "applied+committed to local "@ + branch + " (not pushed): "@
                                + pushed.1,
                            Some(branch),
                        ),
                    ),
                    n,
                )
            } else {
                flow::ask(
                    replies,
                    n,
                    drop_command(stash),
                    |dropped: GitResult|
                        if !dropped.succeeded() {
                            Flow::Done(
                                Ok(
                                    (
                                        true,
                                        "pushed "@ + branch + " but stash drop refused: "@
                                            + dropped.output(),
                                        Some(branch),
                                    ),
                                ),
                                n + 1,
                            )
                        } else {
                            Flow::Done(
                                Ok(
                                    (
                                        true,
                                        "pushed "@ + branch + " and dropped "@ + stash,
                                        Some(branch),
                                    ),
                                ),
                                n + 1,
                            )
                        },
                )
            },
    )
}

fn push_then_drop(stash: &str, branch: &str, replies: &[GitReply], from: usize) -> (step: Step<
    Recovery,
>)
    ensures
        step@ == push_then_drop_flow(stash@, branch@, replies@, from as int),
        step matches Step::Done(_, n) ==> from < n <= replies.len(),
{
    let at: usize = match push_branch_with_upstream(branch, replies, from) {
        Step::Run(c) => {
            return Step::Run(c);
        },
        Step::Done(Err(why), n) => {
            return Step::Done(Err(why), n);
        },
        Step::Done(Ok((ok, output)), n) => {
            if !ok {
                let text = "applied+committed to local ".to_owned().concat(branch).concat(
                    " (not pushed): ",
                ).concat(&output);
                return Step::Done(Ok((false, text, Some(branch.to_owned()))), n);
            }
            n
        },
    };
    if at >= replies.len() {
        return Step::Run(git(args3("stash", "drop", stash)));
    }
    match &replies[at].outcome {
        Ok(dropped) => {
            let text = if !dropped.ok() {
                "pushed ".to_owned().concat(branch).concat(" but stash drop refused: ").concat(
                    &dropped.combined(),
                )
            } else {
                "pushed ".to_owned().concat(branch).concat(" and dropped ").concat(stash)
            };
            Step::Done(Ok((true, text, Some(branch.to_owned()))), at + 1)
        },
        Err(why) => Step::Done(Err(why.clone()), at + 1),
    }
}

fn keep_committed(stash: &str, branch: &str, replies: &[GitReply], from: usize) -> (step: Step<
    Recovery,
>)
    ensures
        step@ == keep_committed_flow(stash@, branch@, replies@, from as int),
        step matches Step::Done(_, n) ==> from < n <= replies.len(),
{
    if from >= replies.len() {
        return Step::Run(branch_at_head(branch));
    }
    match &replies[from].outcome {
        Ok(made) => {
            if !made.ok() {
                let text = "could not create wip branch from applied stash".to_owned();
                return Step::Done(Ok((false, text, Some(branch.to_owned()))), from + 1);
            }
        },
        Err(why) => {
            return Step::Done(Err(why.clone()), from + 1);
        },
    }
    push_then_drop(stash, branch, replies, from + 1)
}

fn keep_applied(
    stash: &str,
    branch: &str,
    message: &str,
    env: &Vec<(String, String)>,
    replies: &[GitReply],
    from: usize,
) -> (step: Step<Recovery>)
    ensures
        step@ == keep_applied_flow(
            stash@,
            branch@,
            message@,
            flow::env_views(env@),
            replies@,
            from as int,
        ),
        step matches Step::Done(_, n) ==> from < n <= replies.len(),
{
    match commit_all(message, env, replies, from) {
        Step::Run(c) => Step::Run(c),
        Step::Done(Err(why), n) => Step::Done(Err(why), n),
        Step::Done(Ok(committed), n) => {
            if !committed {
                let text = "could not commit applied stash".to_owned();
                Step::Done(Ok((false, text, Some(branch.to_owned()))), n)
            } else {
                keep_committed(stash, branch, replies, n)
            }
        },
    }
}

/// Applies a stash, commits, makes the branch `wip/<tag>-stash-<id>` at that commit, pushes the
/// branch, and drops the stash only after the push went through.
pub fn recover_one_stash(
    stash: &str,
    tag: &str,
    env: &Vec<(String, String)>,
    replies: &[GitReply],
    from: usize,
) -> (step: Step<Recovery>)
    ensures
        step@ == recover_one_stash_flow(
            stash@,
            tag@,
            flow::env_views(env@),
            replies@,
            from as int,
        ),
        step matches Step::Done(_, n) ==> from < n <= replies.len(),
{
    if from >= replies.len() {
        return Step::Run(git(args4("stash", "show", "-p", stash)));
    }
    let count: usize = match &replies[from].outcome {
        Ok(shown) => {
            if !shown.ok() {
                let text = "cannot read ".to_owned().concat(stash);
                return Step::Done(Ok((false, text, None)), from + 1);
            }
            let list = lines(&shown.stdout);
            proof {
                assert(text::views(list@).len() == list@.len());
            }
            list.len()
        },
        Err(why) => {
            return Step::Done(Err(why.clone()), from + 1);
        },
    };
    if from + 1 >= replies.len() {
        return Step::Run(git(args3("stash", "apply", stash)));
    }
    match &replies[from + 1].outcome {
        Ok(applied) => {
            if !applied.ok() {
                let text = "stash apply failed: ".to_owned().concat(&applied.combined());
                return Step::Done(Ok((false, text, None)), from + 2);
            }
        },
        Err(why) => {
            return Step::Done(Err(why.clone()), from + 2);
        },
    }
    let branch = "wip/".to_owned().concat(tag).concat("-stash-").concat(&replies[from + 1].at.id);
    let message = "wip: applied stash ".to_owned().concat(stash).concat(" (").concat(tag).concat(
        ")\n\n",
    ).concat(&show(count as u64)).concat(" lines");
    keep_applied(stash, &branch, &message, env, replies, from + 2)
}

} // verus!
