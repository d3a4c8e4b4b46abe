//! The status of one work tree.
use crate::flow;
use crate::flow::{Flow, GitReply, Step};
use crate::git_ops;
use crate::git_ops::{
    ahead_behind, current_branch, dirty_count, last_commit, primary_branch, stash_count,
};
use crate::registry;
use crate::registry::RepoEntry;
use crate::text;
use crate::text::{or_if_empty, or_text, same, show};
use vstd::prelude::*;

verus! {

/// The state of one work tree at one moment, with what the registry knows of it.
#[derive(Debug, Clone, PartialEq, Eq)]
pub struct RepoSnapshot {
    pub path: String,
    pub branch: String,
    pub primary: String,
    pub ahead: usize,
    pub behind: usize,
    pub dirty: usize,
    pub stashes: usize,
    pub last_commit: String,
    pub meta: RepoEntry,
}

/// The model of a [`RepoSnapshot`].
pub struct SnapshotView {
    pub path: Seq<char>,
    pub branch: Seq<char>,
    pub primary: Seq<char>,
    pub ahead: usize,
    pub behind: usize,
    pub dirty: usize,
    pub stashes: usize,
    pub last_commit: Seq<char>,
    pub meta: registry::EntryView,
}

impl View for RepoSnapshot {
    type V = SnapshotView;

    open spec fn view(&self) -> SnapshotView {
        SnapshotView {
            path: self.path@,
            branch: self.branch@,
            primary: self.primary@,
            ahead: self.ahead,
            behind: self.behind,
            dirty: self.dirty,
            stashes: self.stashes,
            last_commit: self.last_commit@,
            meta: self.meta@,
        }
    }
}

impl DeepView for RepoSnapshot {
    type V = SnapshotView;

    open spec fn deep_view(&self) -> SnapshotView {
        self@
    }
}

/// What stands in the place of a branch on a detached head.
pub open spec fn detached() -> Seq<char> {
    "(detached)"@
}

/// How far `branch` is ahead and behind; none and none on a detached head, and where git could
/// not be asked.
pub open spec fn counts_flow(
    branch: Seq<char>,
    replies: Seq<GitReply>,
    i: int,
) -> Flow<(usize, usize)> {
    if branch == detached() {
        Flow::Done(Ok((0usize, 0usize)), i)
    } else {
        flow::chain_or(
            git_ops::ahead_behind_flow(branch, replies, i),
            (0usize, 0usize),
            |counts: (usize, usize), n: int| Flow::Done(Ok(counts), n),
        )
    }
}

fn counts(branch: &str, replies: &[GitReply], from: usize) -> (step: Step<(usize, usize)>)
    requires
        from <= replies.len(),
    ensures
        step@ == counts_flow(branch@, replies@, from as int),
        step matches Step::Done(_, n) ==> from <= n <= replies.len(),
{
    if same(branch, "(detached)") {
        return Step::Done(Ok((0, 0)), from);
    }
    match ahead_behind(branch, replies, from) {
        Step::Run(c) => Step::Run(c),
        Step::Done(Ok(counts), n) => Step::Done(Ok(counts), n),
        Step::Done(Err(_), n) => Step::Done(Ok((0, 0)), n),
    }
}

/// Asks for everything that a snapshot shows.
pub open spec fn snapshot_repo_flow(
    path: Seq<char>,
    meta: registry::EntryView,
    replies: Seq<GitReply>,
    i: int,
) -> Flow<SnapshotView> {
    flow::chain(
        git_ops::current_branch_flow(replies, i),
        |named: Option<Seq<char>>, n1: int|
            flow::chain(
                git_ops::primary_branch_flow(replies, n1),
                |primary: Seq<char>, n2: int|
                    flow::chain(
                        git_ops::dirty_count_flow(replies, n2),
                        |dirty: usize, n3: int|
                            flow::chain(
                                counts_flow(text::text_or(named, detached()), replies, n3),
                                |counts: (usize, usize), n4: int|
                                    flow::chain(
                                        git_ops::stash_count_flow(replies, n4),
                                        |stashes: usize, n5: int|
                                            flow::chain(
                                                git_ops::last_commit_flow(replies, n5),
                                                |last_commit: Seq<char>, n6: int|
                                                    Flow::Done(
                                                        Ok(
                                                            SnapshotView {
                                                                path,
                                                                branch: text::text_or(
                                                                    named,
                                                                    detached(),
                                                                ),
                                                                primary,
                                                                ahead: counts.0,
                                                                behind: counts.1,
                                                                dirty,
                                                                stashes,
                                                                last_commit,
                                                                meta,
                                                            },
                                                        ),
                                                        n6,
                                                    ),
                                            ),
                                    ),
                            ),
                    ),
            ),
    )
}

/// Asks for everything that a snapshot shows. Nothing is changed.
pub fn snapshot_repo(path: &str, meta: &RepoEntry, replies: &[GitReply], from: usize) -> (step: Step<
    RepoSnapshot,
>)
    ensures
        step@ == snapshot_repo_flow(path@, meta@, replies@, from as int),
        step matches Step::Done(_, n) ==> from < n <= replies.len(),
{
    let (named, n1) = match current_branch(replies, from) {
        Step::Run(c) => {
            return Step::Run(c);
        },
        Step::Done(Err(why), n) => {
            return Step::Done(Err(why), n);
        },
        Step::Done(Ok(named), n) => (named, n),
    };
    let branch = or_text(&named, "(detached)").to_owned();
    let (primary, n2) = match primary_branch(replies, n1) {
        Step::Run(c) => {
            return Step::Run(c);
        },
        Step::Done(Err(why), n) => {
            return Step::Done(Err(why), n);
        },
        Step::Done(Ok(primary), n) => (primary, n),
    };
    let (dirty, n3) = match dirty_count(replies, n2) {
        Step::Run(c) => {
            return Step::Run(c);
        },
        Step::Done(Err(why), n) => {
            return Step::Done(Err(why), n);
        },
        Step::Done(Ok(dirty), n) => (dirty, n),
    };
    let ((ahead, behind), n4) = match counts(&branch, replies, n3) {
        Step::Run(c) => {
            return Step::Run(c);
        },
        Step::Done(Err(why), n) => {
            return Step::Done(Err(why), n);
        },
        Step::Done(Ok(counts), n) => (counts, n),
    };
    let (stashes, n5) = match stash_count(replies, n4) {
        Step::Run(c) => {
            return Step::Run(c);
        },
        Step::Done(Err(why), n) => {
            return Step::Done(Err(why), n);
        },
        Step::Done(Ok(stashes), n) => (stashes, n),
    };
    match last_commit(replies, n5) {
        Step::Run(c) => Step::Run(c),
        Step::Done(Err(why), n) => Step::Done(Err(why), n),
        Step::Done(Ok(last_commit), n) => Step::Done(
            Ok(
                RepoSnapshot {
                    path: path.to_owned(),
                    branch,
                    primary,
                    ahead,
                    behind,
                    dirty,
                    stashes,
                    last_commit,
                    meta: meta.clone(),
                },
            ),
            n,
        ),
    }
}

impl SnapshotView {
    /// The one-screen status of a work tree.
    pub open spec fn rendered(self) -> Seq<char> {
        "[STATUS] "@ + self.path + "\n  branch          : "@ + self.branch + " (primary="@
            + self.primary + ")\n  ahead/behind    : "@ + text::decimal(self.ahead as int) + "/"@
            + text::decimal(self.behind as int) + "\n  dirty files     : "@ + text::decimal(
            self.dirty as int,
        ) + "\n  stashes         : "@ + text::decimal(self.stashes as int)
            + "\n  last commit     : "@ + self.last_commit + "\n  last auto-commit: "@
            + text::text_or(self.meta.last_auto_commit, "never"@) + "\n  last push       : "@
            + text::text_or(self.meta.last_push_time, "never"@) + "\n  remote          : "@
            + text::filled_or(self.meta.remote_url, "(none)"@) + "\n"@
    }
}

impl RepoSnapshot {
    /// The one-screen status of a work tree.
    pub fn render(&self) -> (out: String)
        ensures
            out@ == self@.rendered(),
    {
        let mut out = "[STATUS] ".to_owned();
        out.append(&self.path);
        out.append("\n  branch          : ");
        out.append(&self.branch);
        out.append(" (primary=");
        out.append(&self.primary);
        out.append(")\n  ahead/behind    : ");
        out.append(&show(self.ahead as u64));
        out.append("/");
        out.append(&show(self.behind as u64));
        out.append("\n  dirty files     : ");
        out.append(&show(self.dirty as u64));
        out.append("\n  stashes         : ");
        out.append(&show(self.stashes as u64));
        out.append("\n  last commit     : ");
        out.append(&self.last_commit);
        out.append("\n  last auto-commit: ");
        out.append(or_text(&self.meta.last_auto_commit, "never"));
        out.append("\n  last push       : ");
        out.append(or_text(&self.meta.last_push_time, "never"));
        out.append("\n  remote          : ");
        out.append(or_if_empty(&self.meta.remote_url, "(none)"));
        out.append("\n");
        out
    }
}

} // verus!
