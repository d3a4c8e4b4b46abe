//! What the engine asks of git, and what it makes of the replies.
//!
//! - A branch is pushed by fast-forward only; no command forces a push, and none passes push
//!   options.
//! - Where a push fails, the work is kept as a new branch `wip/<date>-<id>`, and a new branch
//!   on the remote is by its nature a fast-forward.
//! - A stash is dropped only after the branch that keeps its work was pushed.
pub use crate::commit::{commit_all, create_branch_at_head, ensure_clean_author_env};
use crate::flow;
pub use crate::flow::GitResult;
use crate::flow::{args2, args3, args4, git};
use crate::flow::{Flow, GitReply, Step};
pub use crate::push::{push_branch_ff_only, push_branch_with_upstream, try_push_or_snapshot};
pub use crate::stash::recover_one_stash;
pub use crate::status::{snapshot_repo, RepoSnapshot};
use crate::text;
use crate::text::{
    blank, count_filled_lines, last_segment, parse_count, same, trim, words,
};
use vstd::prelude::*;

verus! {

/// The root of the work tree that git runs in, if it runs in one.
pub open spec fn safe_repo_root_flow(replies: Seq<GitReply>, i: int) -> Flow<Option<Seq<char>>> {
    flow::ask(
        replies,
        i,
        flow::plain(seq!["rev-parse"@, "--show-toplevel"@]),
        |r: GitResult|
            Flow::Done(
                Ok(
                    if r.succeeded() && !text::is_blank(r.stdout@) {
                        Some(text::trimmed(r.stdout@))
                    } else {
                        None
                    },
                ),
                i + 1,
            ),
    )
}

/// The root of the work tree that git runs in, if it runs in one.
pub fn safe_repo_root(replies: &[GitReply], from: usize) -> (step: Step<Option<String>>)
    ensures
        step@ == safe_repo_root_flow(replies@, from as int),
        step matches Step::Done(_, n) ==> from < n <= replies.len(),
{
    if from >= replies.len() {
        return Step::Run(git(args2("rev-parse", "--show-toplevel")));
    }
    match &replies[from].outcome {
        Ok(r) => {
            let root = if r.ok() && !blank(&r.stdout) {
                Some(trim(&r.stdout).to_owned())
            } else {
                None
            };
            Step::Done(Ok(root), from + 1)
        },
        Err(why) => Step::Done(Err(why.clone()), from + 1),
    }
}

/// Whether git runs inside a work tree.
pub open spec fn is_inside_work_tree_flow(replies: Seq<GitReply>, i: int) -> Flow<bool> {
    flow::ask(
        replies,
        i,
        flow::plain(seq!["rev-parse"@, "--is-inside-work-tree"@]),
        |r: GitResult|
            Flow::Done(Ok(r.succeeded() && text::trimmed(r.stdout@) == "true"@), i + 1),
    )
}

/// Whether git runs inside a work tree.
pub fn is_inside_work_tree(replies: &[GitReply], from: usize) -> (step: Step<bool>)
    ensures
        step@ == is_inside_work_tree_flow(replies@, from as int),
        step matches Step::Done(_, n) ==> from < n <= replies.len(),
{
    if from >= replies.len() {
        return Step::Run(git(args2("rev-parse", "--is-inside-work-tree")));
    }
    match &replies[from].outcome {
        Ok(r) => Step::Done(Ok(r.ok() && same(trim(&r.stdout), "true")), from + 1),
        Err(why) => Step::Done(Err(why.clone()), from + 1),
    }
}

/// Whether a remote named `origin` is set up.
pub open spec fn has_origin_remote_flow(replies: Seq<GitReply>, i: int) -> Flow<bool> {
    flow::ask(
        replies,
        i,
        flow::plain(seq!["remote"@, "get-url"@, "origin"@]),
        |r: GitResult| Flow::Done(Ok(r.succeeded() && !text::is_blank(r.stdout@)), i + 1),
    )
}

/// Whether a remote named `origin` is set up.
pub fn has_origin_remote(replies: &[GitReply], from: usize) -> (step: Step<bool>)
    ensures
        step@ == has_origin_remote_flow(replies@, from as int),
        step matches Step::Done(_, n) ==> from < n <= replies.len(),
{
    if from >= replies.len() {
        return Step::Run(git(args3("remote", "get-url", "origin")));
    }
    match &replies[from].outcome {
        Ok(r) => Step::Done(Ok(r.ok() && !blank(&r.stdout)), from + 1),
        Err(why) => Step::Done(Err(why.clone()), from + 1),
    }
}

/// The URL of the remote named `origin`, if there is one.
pub open spec fn get_remote_url_flow(replies: Seq<GitReply>, i: int) -> Flow<Option<Seq<char>>> {
    flow::ask(
        replies,
        i,
        flow::plain(seq!["remote"@, "get-url"@, "origin"@]),
        |r: GitResult|
            Flow::Done(
                Ok(
                    if r.succeeded() {
                        Some(text::trimmed(r.stdout@))
                    } else {
                        None
                    },
                ),
                i + 1,
            ),
    )
}

/// The URL of the remote named `origin`, if there is one.
pub fn get_remote_url(replies: &[GitReply], from: usize) -> (step: Step<Option<String>>)
    ensures
        step@ == get_remote_url_flow(replies@, from as int),
        step matches Step::Done(_, n) ==> from < n <= replies.len(),
{
    if from >= replies.len() {
        return Step::Run(git(args3("remote", "get-url", "origin")));
    }
    match &replies[from].outcome {
        Ok(r) => {
            let url = if r.ok() {
                Some(trim(&r.stdout).to_owned())
            } else {
                None
            };
            Step::Done(Ok(url), from + 1)
        },
        Err(why) => Step::Done(Err(why.clone()), from + 1),
    }
}

/// The branch that `git rev-parse --abbrev-ref HEAD` names; none on a detached head.
pub open spec fn branch_named(r: GitResult) -> Option<Seq<char>> {
    let name = text::trimmed(r.stdout@);
    if !r.succeeded() || name.len() == 0 || name == "HEAD"@ {
        None
    } else {
        Some(name)
    }
}

/// The branch that is checked out; none on a detached head.
pub open spec fn current_branch_flow(replies: Seq<GitReply>, i: int) -> Flow<Option<Seq<char>>> {
    flow::ask(
        replies,
        i,
        flow::plain(seq!["rev-parse"@, "--abbrev-ref"@, "HEAD"@]),
        |r: GitResult| Flow::Done(Ok(branch_named(r)), i + 1),
    )
}

/// The branch that is checked out; none on a detached head.
pub fn current_branch(replies: &[GitReply], from: usize) -> (step: Step<Option<String>>)
    ensures
        step@ == current_branch_flow(replies@, from as int),
        step matches Step::Done(_, n) ==> from < n <= replies.len(),
{
    if from >= replies.len() {
        return Step::Run(git(args3("rev-parse", "--abbrev-ref", "HEAD")));
    }
    match &replies[from].outcome {
        Ok(r) => {
            let name = trim(&r.stdout);
            let branch = if !r.ok() || name.is_empty() || same(name, "HEAD") {
                None
            } else {
                Some(name.to_owned())
            };
            Step::Done(Ok(branch), from + 1)
        },
        Err(why) => Step::Done(Err(why.clone()), from + 1),
    }
}

/// The names that are tried for the primary branch, in order.
pub open spec fn primary_candidates() -> Seq<Seq<char>> {
    seq!["main"@, "master"@, "trunk"@, "develop"@]
}

/// Tries the candidates from number `k` on: the first that is a local branch, else `main`.
pub open spec fn primary_among_flow(k: int, replies: Seq<GitReply>, i: int) -> Flow<Seq<char>>
    decreases 4 - k,
{
    if k < 0 || k >= 4 {
        Flow::Done(Ok("main"@), i)
    } else {
        let name = primary_candidates()[k];
        flow::ask(
            replies,
            i,
            flow::plain(seq!["show-ref"@, "--verify"@, "--quiet"@, "refs/heads/"@ + name]),
            |r: GitResult|
                if r.succeeded() {
                    Flow::Done(Ok(name), i + 1)
                } else {
                    primary_among_flow(k + 1, replies, i + 1)
                },
        )
    }
}

/// The primary branch, as well as it can be told: the last part of what the head of `origin`
/// points at, else the first of the usual names that is a local branch, else `main`.
pub open spec fn primary_branch_flow(replies: Seq<GitReply>, i: int) -> Flow<Seq<char>> {
    flow::ask(
        replies,
        i,
        flow::plain(seq!["symbolic-ref"@, "--short"@, "refs/remotes/origin/HEAD"@]),
        |r: GitResult|
            if r.succeeded() && !text::is_blank(r.stdout@) {
                Flow::Done(Ok(text::after_last(text::trimmed(r.stdout@), '/')), i + 1)
            } else {
                primary_among_flow(0, replies, i + 1)
            },
    )
}

fn candidate(k: usize) -> (name: &'static str)
    requires
        k < 4,
    ensures
        name@ == primary_candidates()[k as int],
{
    if k == 0 {
        "main"
    } else if k == 1 {
        "master"
    } else if k == 2 {
        "trunk"
    } else {
        "develop"
    }
}

/// The primary branch, as well as it can be told: the last part of what the head of `origin`
/// points at, else the first of the usual names that is a local branch, else `main`.
pub fn primary_branch(replies: &[GitReply], from: usize) -> (step: Step<String>)
    ensures
        step@ == primary_branch_flow(replies@, from as int),
        step matches Step::Done(_, n) ==> from < n <= replies.len(),
{
    if from >= replies.len() {
        return Step::Run(git(args3("symbolic-ref", "--short", "refs/remotes/origin/HEAD")));
    }
    match &replies[from].outcome {
        Ok(r) => {
            if r.ok() && !blank(&r.stdout) {
                return Step::Done(Ok(last_segment(trim(&r.stdout))), from + 1);
            }
        },
        Err(why) => {
            return Step::Done(Err(why.clone()), from + 1);
        },
    }
    let mut k: usize = 0;
    let mut pos: usize = from + 1;
    while k < 4
        invariant
            k <= 4,
            from < pos <= replies.len(),
            primary_branch_flow(replies@, from as int) == primary_among_flow(
                k as int,
                replies@,
                pos as int,
            ),
        decreases 4 - k,
    {
        let name = candidate(k);
        if pos >= replies.len() {
            let full = "refs/heads/".to_owned().concat(name);
            return Step::Run(git(args4("show-ref", "--verify", "--quiet", &full)));
        }
        match &replies[pos].outcome {
            Ok(r) => {
                if r.ok() {
                    return Step::Done(Ok(name.to_owned()), pos + 1);
                }
            },
            Err(why) => {
                return Step::Done(Err(why.clone()), pos + 1);
            },
        }
        k = k + 1;
        pos = pos + 1;
    }
    Step::Done(Ok("main".to_owned()), pos)
}

/// Counts the lines of `git status --porcelain`; a failing command counts as none.
pub open spec fn dirty_count_flow(replies: Seq<GitReply>, i: int) -> Flow<usize> {
    flow::ask(
        replies,
        i,
        flow::plain(seq!["status"@, "--porcelain"@]),
        |r: GitResult| Flow::Done(Ok(lines_reported(r)), i + 1),
    )
}

/// How many lines with more than white space a command printed; a failing one counts as none.
pub open spec fn lines_reported(r: GitResult) -> usize {
    if r.succeeded() {
        text::filled_lines(r.stdout@).len() as usize
    } else {
        0
    }
}

fn reported(r: &GitResult) -> (n: usize)
    ensures
        n == lines_reported(*r),
{
    if r.ok() {
        count_filled_lines(&r.stdout)
    } else {
        0
    }
}

/// Counts the lines of `git status --porcelain`; a failing command counts as none.
pub fn dirty_count(replies: &[GitReply], from: usize) -> (step: Step<usize>)
    ensures
        step@ == dirty_count_flow(replies@, from as int),
        step matches Step::Done(_, n) ==> from < n <= replies.len(),
{
    if from >= replies.len() {
        return Step::Run(git(args2("status", "--porcelain")));
    }
    match &replies[from].outcome {
        Ok(r) => Step::Done(Ok(reported(r)), from + 1),
        Err(why) => Step::Done(Err(why.clone()), from + 1),
    }
}

/// The count that stands as word number `k` of an output; zero where there is none.
pub open spec fn count_at(out: Seq<char>, k: int) -> usize {
    let list = text::words_of(out);
    if k < list.len() {
        match text::parsed(list[k]) {
            Some(n) if n <= usize::MAX => n as usize,
            _ => 0,
        }
    } else {
        0
    }
}

/// The two counts that `git rev-list --left-right --count` printed.
pub open spec fn counts_printed(r: GitResult) -> (usize, usize) {
    if r.succeeded() {
        (count_at(r.stdout@, 0), count_at(r.stdout@, 1))
    } else {
        (0, 0)
    }
}

/// How many commits `branch` is ahead of `origin/<branch>`, and how many behind. Git counts the
/// left side of the range first, so `branch` stands on the left. A failing command counts as
/// none and none.
pub open spec fn ahead_behind_flow(
    branch: Seq<char>,
    replies: Seq<GitReply>,
    i: int,
) -> Flow<(usize, usize)> {
    flow::ask(
        replies,
        i,
        flow::plain(
            seq!["rev-list"@, "--left-right"@, "--count"@, branch + "...origin/"@ + branch],
        ),
        |r: GitResult| Flow::Done(Ok(counts_printed(r)), i + 1),
    )
}

fn count_in(list: &Vec<String>, k: usize) -> (n: usize)
    ensures
        n == if k < list.len() {
            match text::parsed(list@[k as int]@) {
                Some(m) if m <= usize::MAX => m as usize,
                _ => 0,
            }
        } else {
            0
        },
{
    if k < list.len() {
        match parse_count(&list[k]) {
            Some(n) => n,
            None => 0,
        }
    } else {
        0
    }
}

/// How many commits `branch` is ahead of `origin/<branch>`, and how many behind.
pub fn ahead_behind(branch: &str, replies: &[GitReply], from: usize) -> (step: Step<(usize, usize)>)
    ensures
        step@ == ahead_behind_flow(branch@, replies@, from as int),
        step matches Step::Done(_, n) ==> from < n <= replies.len(),
{
    if from >= replies.len() {
        let range = branch.to_owned().concat("...origin/").concat(branch);
        return Step::Run(git(args4("rev-list", "--left-right", "--count", &range)));
    }
    match &replies[from].outcome {
        Ok(r) => {
            if !r.ok() {
                return Step::Done(Ok((0, 0)), from + 1);
            }
            let list = words(&r.stdout);
            proof {
                assert(text::views(list@).len() == list@.len());
                assert(forall|k: int| 0 <= k < list@.len() ==> text::views(list@)[k] == list@[k]@);
            }
            Step::Done(Ok((count_in(&list, 0), count_in(&list, 1))), from + 1)
        },
        Err(why) => Step::Done(Err(why.clone()), from + 1),
    }
}

/// Counts the stashes; a failing command counts as none.
pub open spec fn stash_count_flow(replies: Seq<GitReply>, i: int) -> Flow<usize> {
    flow::ask(
        replies,
        i,
        flow::plain(seq!["stash"@, "list"@]),
        |r: GitResult| Flow::Done(Ok(lines_reported(r)), i + 1),
    )
}

/// Counts the stashes; a failing command counts as none.
pub fn stash_count(replies: &[GitReply], from: usize) -> (step: Step<usize>)
    ensures
        step@ == stash_count_flow(replies@, from as int),
        step matches Step::Done(_, n) ==> from < n <= replies.len(),
{
    if from >= replies.len() {
        return Step::Run(git(args2("stash", "list")));
    }
    match &replies[from].outcome {
        Ok(r) => Step::Done(Ok(reported(r)), from + 1),
        Err(why) => Step::Done(Err(why.clone()), from + 1),
    }
}

/// The short hash and subject of the last commit.
pub open spec fn last_commit_flow(replies: Seq<GitReply>, i: int) -> Flow<Seq<char>> {
    flow::ask(
        replies,
        i,
        flow::plain(seq!["log"@, "-1"@, "--pretty=%h %s"@, "--no-color"@]),
        |r: GitResult|
            Flow::Done(
                Ok(
                    if r.succeeded() {
                        text::trimmed(r.stdout@)
                    } else {
                        "(no commits)"@
                    },
                ),
                i + 1,
            ),
    )
}

/// The short hash and subject of the last commit.
pub fn last_commit(replies: &[GitReply], from: usize) -> (step: Step<String>)
    ensures
        step@ == last_commit_flow(replies@, from as int),
        step matches Step::Done(_, n) ==> from < n <= replies.len(),
{
    if from >= replies.len() {
        return Step::Run(git(args4("log", "-1", "--pretty=%h %s", "--no-color")));
    }
    match &replies[from].outcome {
        Ok(r) => {
            let line = if r.ok() {
                trim(&r.stdout).to_owned()
            } else {
                "(no commits)".to_owned()
            };
            Step::Done(Ok(line), from + 1)
        },
        Err(why) => Step::Done(Err(why.clone()), from + 1),
    }
}

} // verus!
