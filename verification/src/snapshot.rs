//! Snapshot commits, made in an index of their own.
//!
//! The index and the work tree of the user are left alone: a snapshot is a recovery point for
//! exactly the changes that were there when it was made.
use crate::flow;
use crate::flow::{args1, args2, args3, args4, args6, copy_env};
use crate::flow::{git, git_patient, git_with_env};
use crate::flow::{Flow, GitReply, GitResult, Step};
use crate::text;
use crate::text::{same, trim, words};
use vstd::prelude::*;

verus! {

/// A snapshot: the branch that holds it, the head it was made on, and its commit.
#[derive(Debug, Clone, PartialEq, Eq)]
pub struct SnapshotCommit {
    pub branch: String,
    pub head: String,
    pub commit: String,
}

/// The model of a [`SnapshotCommit`].
pub struct SnapshotCommitView {
    pub branch: Seq<char>,
    pub head: Seq<char>,
    pub commit: Seq<char>,
}

impl View for SnapshotCommit {
    type V = SnapshotCommitView;

    open spec fn view(&self) -> SnapshotCommitView {
        SnapshotCommitView { branch: self.branch@, head: self.head@, commit: self.commit@ }
    }
}

impl DeepView for SnapshotCommit {
    type V = SnapshotCommitView;

    open spec fn deep_view(&self) -> SnapshotCommitView {
        self@
    }
}

/// Runs a command that has to succeed. `action` tells in an error what it was for.
pub open spec fn run_snapshot_git_flow(
    c: flow::Command,
    action: Seq<char>,
    replies: Seq<GitReply>,
    i: int,
) -> Flow<()> {
    flow::ask(
        replies,
        i,
        c,
        |r: GitResult|
            if r.succeeded() {
                Flow::Done(Ok(()), i + 1)
            } else {
                Flow::Done(Err(action + ": "@ + r.output()), i + 1)
            },
    )
}

/// Runs a command that has to succeed. `action` tells in an error what it was for.
pub fn run_snapshot_git(c: flow::GitCommand, action: &str, replies: &[GitReply], from: usize) -> (step:
    Step<()>)
    ensures
        step@ == run_snapshot_git_flow(c@, action@, replies@, from as int),
        step matches Step::Done(_, n) ==> from < n <= replies.len(),
{
    if from >= replies.len() {
        return Step::Run(c);
    }
    match &replies[from].outcome {
        Ok(r) => {
            if r.ok() {
                Step::Done(Ok(()), from + 1)
            } else {
                let why = action.to_owned().concat(": ").concat(&r.combined());
                Step::Done(Err(why), from + 1)
            }
        },
        Err(why) => Step::Done(Err(why.clone()), from + 1),
    }
}

/// Runs a command that has to print something, and gives that without the white space round it.
pub open spec fn git_value_with_env_flow(
    c: flow::Command,
    action: Seq<char>,
    replies: Seq<GitReply>,
    i: int,
) -> Flow<Seq<char>> {
    flow::ask(
        replies,
        i,
        c,
        |r: GitResult|
            if !r.succeeded() {
                Flow::Done(Err(action + ": "@ + r.output()), i + 1)
            } else if text::is_blank(r.stdout@) {
                Flow::Done(Err(action + ": git returned no value"@), i + 1)
            } else {
                Flow::Done(Ok(text::trimmed(r.stdout@)), i + 1)
            },
    )
}

/// Runs a command that has to print something, and gives that without the white space round it.
/// `action` tells in an error what the command was for.
pub fn git_value_with_env(
    c: flow::GitCommand,
    action: &str,
    replies: &[GitReply],
    from: usize,
) -> (step: Step<String>)
    ensures
        step@ == git_value_with_env_flow(c@, action@, replies@, from as int),
        step matches Step::Done(_, n) ==> from < n <= replies.len(),
{
    if from >= replies.len() {
        return Step::Run(c);
    }
    match &replies[from].outcome {
        Ok(r) => {
            if !r.ok() {
                let why = action.to_owned().concat(": ").concat(&r.combined());
                return Step::Done(Err(why), from + 1);
            }
            let value = trim(&r.stdout);
            if value.is_empty() {
                let why = action.to_owned().concat(": git returned no value");
                Step::Done(Err(why), from + 1)
            } else {
                Step::Done(Ok(value.to_owned()), from + 1)
            }
        },
        Err(why) => Step::Done(Err(why.clone()), from + 1),
    }
}

/// Runs a plain command that has to print something.
pub open spec fn git_value_flow(
    args: Seq<Seq<char>>,
    replies: Seq<GitReply>,
    i: int,
) -> Flow<Seq<char>> {
    git_value_with_env_flow(flow::plain(args), "read git value"@, replies, i)
}

/// Runs a plain command that has to print something.
pub fn git_value(args: Vec<String>, replies: &[GitReply], from: usize) -> (step: Step<String>)
    ensures
        step@ == git_value_flow(text::views(args@), replies@, from as int),
        step matches Step::Done(_, n) ==> from < n <= replies.len(),
{
    git_value_with_env(git(args), "read git value", replies, from)
}

/// The environment that makes git use the index file `index`.
pub open spec fn index_env(index: Seq<char>) -> Seq<(Seq<char>, Seq<char>)> {
    seq![("GIT_INDEX_FILE"@, index)]
}

fn own_index(index: &str) -> (env: Vec<(String, String)>)
    ensures
        flow::env_views(env@) == index_env(index@),
{
    let env = vec![("GIT_INDEX_FILE".to_owned(), index.to_owned())];
    proof {
        assert(flow::env_views(env@) =~= index_env(index@));
    }
    env
}

/// The full name of a branch.
pub open spec fn ref_name(branch: Seq<char>) -> Seq<char> {
    "refs/heads/"@ + branch
}

/// The object name that stands for nothing. An update that gives it as the old value makes a new
/// ref and fails on one that is there.
pub open spec fn no_object() -> Seq<char> {
    "0000000000000000000000000000000000000000"@
}

/// The command that makes a ref which was not there before.
pub open spec fn new_ref_command(branch: Seq<char>, commit: Seq<char>) -> flow::Command {
    flow::plain(seq!["update-ref"@, ref_name(branch), commit, no_object()])
}

/// The command that makes a commit of `tree` on top of `head`.
pub open spec fn commit_tree_command(
    tree: Seq<char>,
    head: Seq<char>,
    message: Seq<char>,
    env: Seq<(Seq<char>, Seq<char>)>,
) -> flow::Command {
    flow::with_env(seq!["commit-tree"@, tree, "-p"@, head, "-m"@, message], env)
}

/// The message of a snapshot: what was asked for, or one that names the branch.
pub open spec fn snapshot_message(requested: Option<Seq<char>>, branch: Seq<char>) -> Seq<char> {
    match requested {
        Some(message) => message,
        None => "wip: airlock snapshot "@ + branch,
    }
}

/// Writes the work tree, as it would be committed with everything staged, by way of the index
/// file `index`: the head, the tree of the work tree, and the tree of the head.
pub open spec fn write_work_tree_flow(
    index: Seq<char>,
    replies: Seq<GitReply>,
    i: int,
) -> Flow<(Seq<char>, Seq<char>, Seq<char>)> {
    flow::chain(
        git_value_flow(seq!["rev-parse"@, "--verify"@, "HEAD"@], replies, i),
        |head: Seq<char>, n1: int|
            flow::chain(
                run_snapshot_git_flow(
                    flow::with_env(seq!["read-tree"@, "HEAD"@], index_env(index)),
                    "initialize snapshot index"@,
                    replies,
                    n1,
                ),
                |done: (), n2: int|
                    flow::chain(
                        run_snapshot_git_flow(
                            flow::with_env(seq!["add"@, "-A"@], index_env(index)),
                            "stage working tree in snapshot index"@,
                            replies,
                            n2,
                        ),
                        |done: (), n3: int|
                            flow::chain(
                                git_value_with_env_flow(
                                    flow::with_env(seq!["write-tree"@], index_env(index)),
                                    "write snapshot tree"@,
                                    replies,
                                    n3,
                                ),
                                |tree: Seq<char>, n4: int|
                                    flow::chain(
                                        git_value_flow(
                                            seq!["rev-parse"@, "HEAD^{tree}"@],
                                            replies,
                                            n4,
                                        ),
                                        |head_tree: Seq<char>, n5: int|
                                            Flow::Done(Ok((head, tree, head_tree)), n5),
                                    ),
                            ),
                    ),
            ),
    )
}

/// Makes `branch` for a commit that was just made on top of `head`, and checks that it holds
/// that commit and that the commit has that parent.
pub open spec fn publish_commit_flow(
    branch: Seq<char>,
    head: Seq<char>,
    commit: Seq<char>,
    replies: Seq<GitReply>,
    i: int,
) -> Flow<SnapshotCommitView> {
    flow::chain(
        run_snapshot_git_flow(
            new_ref_command(branch, commit),
            "create new local snapshot ref"@,
            replies,
            i,
        ),
        |done: (), n1: int|
            flow::chain(
                git_value_flow(seq!["rev-parse"@, "--verify"@, ref_name(branch)], replies, n1),
                |actual: Seq<char>, n2: int|
                    if actual != commit {
                        Flow::Done(
                            Err(
                                "snapshot ref "@ + ref_name(branch)
                                    + " does not point at the generated commit"@,
                            ),
                            n2,
                        )
                    } else {
                        flow::chain(
                            git_value_flow(
                                seq!["rev-parse"@, "--verify"@, commit + "^"@],
                                replies,
                                n2,
                            ),
                            |parent: Seq<char>, n3: int|
                                if parent != head {
                                    Flow::Done(
                                        Err(
                                            "snapshot commit "@ + commit
                                                + " is not parented to HEAD "@ + head,
                                        ),
                                        n3,
                                    )
                                } else {
                                    Flow::Done(
                                        Ok(SnapshotCommitView { branch, head, commit }),
                                        n3,
                                    )
                                },
                        )
                    },
            ),
    )
}

/// Makes a commit of everything in the work tree that is not ignored, without touching the index
/// of the user, on the new branch `branch`. Where the work tree does not differ from the head,
/// there is no snapshot.
pub open spec fn create_snapshot_commit_flow(
    branch: Seq<char>,
    requested: Option<Seq<char>>,
    index: Seq<char>,
    author: Seq<(Seq<char>, Seq<char>)>,
    replies: Seq<GitReply>,
    i: int,
) -> Flow<Option<SnapshotCommitView>> {
    flow::chain(
        write_work_tree_flow(index, replies, i),
        |w: (Seq<char>, Seq<char>, Seq<char>), n1: int|
            if w.1 == w.2 {
                Flow::Done(Ok(None), n1)
            } else {
                flow::chain(
                    git_value_with_env_flow(
                        commit_tree_command(
                            w.1,
                            w.0,
                            snapshot_message(requested, branch),
                            index_env(index) + author,
                        ),
                        "create snapshot commit"@,
                        replies,
                        n1,
                    ),
                    |commit: Seq<char>, n2: int|
                        flow::chain(
                            publish_commit_flow(branch, w.0, commit, replies, n2),
                            |made: SnapshotCommitView, n3: int| Flow::Done(Ok(Some(made)), n3),
                        ),
                )
            },
    )
}

fn write_work_tree(index: &str, replies: &[GitReply], from: usize) -> (step: Step<
    (String, String, String),
>)
    ensures
        step@ == write_work_tree_flow(index@, replies@, from as int),
        step matches Step::Done(_, n) ==> from < n <= replies.len(),
{
    let env = own_index(index);
    let (head, n1) = match git_value(args3("rev-parse", "--verify", "HEAD"), replies, from) {
        Step::Run(c) => {
            return Step::Run(c);
        },
        Step::Done(Err(why), n) => {
            return Step::Done(Err(why), n);
        },
        Step::Done(Ok(head), n) => (head, n),
    };
    let n2: usize = match run_snapshot_git(
        git_with_env(args2("read-tree", "HEAD"), &env),
        "initialize snapshot index",
        replies,
        n1,
    ) {
        Step::Run(c) => {
            return Step::Run(c);
        },
        Step::Done(Err(why), n) => {
            return Step::Done(Err(why), n);
        },
        Step::Done(Ok(_), n) => n,
    };
    let n3: usize = match run_snapshot_git(
        git_with_env(args2("add", "-A"), &env),
        "stage working tree in snapshot index",
        replies,
        n2,
    ) {
        Step::Run(c) => {
            return Step::Run(c);
        },
        Step::Done(Err(why), n) => {
            return Step::Done(Err(why), n);
        },
        Step::Done(Ok(_), n) => n,
    };
    let (tree, n4) = match git_value_with_env(
        git_with_env(args1("write-tree"), &env),
        "write snapshot tree",
        replies,
        n3,
    ) {
        Step::Run(c) => {
            return Step::Run(c);
        },
        Step::Done(Err(why), n) => {
            return Step::Done(Err(why), n);
        },
        Step::Done(Ok(tree), n) => (tree, n),
    };
    match git_value(args2("rev-parse", "HEAD^{tree}"), replies, n4) {
        Step::Run(c) => Step::Run(c),
        Step::Done(Err(why), n) => Step::Done(Err(why), n),
        Step::Done(Ok(head_tree), n) => Step::Done(Ok((head, tree, head_tree)), n),
    }
}

fn publish_commit(
    branch: &str,
    head: &str,
    commit: &str,
    replies: &[GitReply],
    from: usize,
) -> (step: Step<SnapshotCommit>)
    ensures
        step@ == publish_commit_flow(branch@, head@, commit@, replies@, from as int),
        step matches Step::Done(_, n) ==> from < n <= replies.len(),
{
    let name = "refs/heads/".to_owned().concat(branch);
    let n1: usize = match run_snapshot_git(
        git(
            args4("update-ref", &name, commit, "0000000000000000000000000000000000000000"),
        ),
        "create new local snapshot ref",
        replies,
        from,
    ) {
        Step::Run(c) => {
            return Step::Run(c);
        },
        Step::Done(Err(why), n) => {
            return Step::Done(Err(why), n);
        },
        Step::Done(Ok(_), n) => n,
    };
    let n2: usize = match git_value(args3("rev-parse", "--verify", &name), replies, n1) {
        Step::Run(c) => {
            return Step::Run(c);
        },
        Step::Done(Err(why), n) => {
            return Step::Done(Err(why), n);
        },
        Step::Done(Ok(actual), n) => {
            if !same(&actual, commit) {
                let why = "snapshot ref ".to_owned().concat(&name).concat(
                    " does not point at the generated commit",
                );
                return Step::Done(Err(why), n);
            }
            n
        },
    };
    let parent_of = commit.to_owned().concat("^");
    match git_value(args3("rev-parse", "--verify", &parent_of), replies, n2) {
        Step::Run(c) => Step::Run(c),
        Step::Done(Err(why), n) => Step::Done(Err(why), n),
        Step::Done(Ok(parent), n) => {
            if !same(&parent, head) {
                let why = "snapshot commit ".to_owned().concat(commit).concat(
                    " is not parented to HEAD ",
                ).concat(head);
                return Step::Done(Err(why), n);
            }
            Step::Done(
                Ok(
                    SnapshotCommit {
                        branch: branch.to_owned(),
                        head: head.to_owned(),
                        commit: commit.to_owned(),
                    },
                ),
                n,
            )
        },
    }
}

/// Makes a commit of everything in the work tree that is not ignored, without touching the index
/// of the user, on the new branch `branch`. Where the work tree does not differ from the head,
/// there is no snapshot. `index` is the path of an index file to use and throw away.
pub fn create_snapshot_commit(
    branch: &str,
    requested: Option<&str>,
    index: &str,
    author: &Vec<(String, String)>,
    replies: &[GitReply],
    from: usize,
) -> (step: Step<Option<SnapshotCommit>>)
    ensures
        step@ == create_snapshot_commit_flow(
            branch@,
            match requested {
                Some(message) => Some(message@),
                None => None,
            },
            index@,
            flow::env_views(author@),
            replies@,
            from as int,
        ),
        step matches Step::Done(_, n) ==> from < n <= replies.len(),
{
    let (head, tree, n1) = match write_work_tree(index, replies, from) {
        Step::Run(c) => {
            return Step::Run(c);
        },
        Step::Done(Err(why), n) => {
            return Step::Done(Err(why), n);
        },
        Step::Done(Ok((head, tree, head_tree)), n) => {
            if same(&tree, &head_tree) {
                return Step::Done(Ok(None), n);
            }
            (head, tree, n)
        },
    };
    let message = match requested {
        Some(message) => message.to_owned(),
        None => "wip: airlock snapshot ".to_owned().concat(branch),
    };
    let mut env = own_index(index);
    let mut rest = copy_env(author);
    let ghost first = env@;
    let ghost second = rest@;
    env.append(&mut rest);
    proof {
        assert(flow::env_views(env@) =~= flow::env_views(first) + flow::env_views(second));
    }
    let (commit, n2) = match git_value_with_env(
        git_with_env(args6("commit-tree", &tree, "-p", &head, "-m", &message), &env),
        "create snapshot commit",
        replies,
        n1,
    ) {
        Step::Run(c) => {
            return Step::Run(c);
        },
        Step::Done(Err(why), n) => {
            return Step::Done(Err(why), n);
        },
        Step::Done(Ok(commit), n) => (commit, n),
    };
    match publish_commit(branch, &head, &commit, replies, n2) {
        Step::Run(c) => Step::Run(c),
        Step::Done(Err(why), n) => Step::Done(Err(why), n),
        Step::Done(Ok(made), n) => Step::Done(Ok(Some(made)), n),
    }
}

/// The command that asks the remote what it holds under a branch.
pub open spec fn ask_remote_command(branch: Seq<char>) -> flow::Command {
    flow::patient(seq!["ls-remote"@, "--heads"@, "origin"@, ref_name(branch)])
}

/// The command that compares two commits.
pub open spec fn compare_command(head: Seq<char>, commit: Seq<char>) -> flow::Command {
    flow::plain(seq!["diff"@, "--quiet"@, head, commit])
}

/// Checks that the remote holds exactly the commit of a snapshot, and that this differs from the
/// head it was made on.
pub open spec fn verify_pushed_snapshot_flow(
    s: SnapshotCommitView,
    replies: Seq<GitReply>,
    i: int,
) -> Flow<()> {
    flow::ask(
        replies,
        i,
        ask_remote_command(s.branch),
        |remote: GitResult|
            if !remote.succeeded() {
                Flow::Done(
                    Err("verify pushed snapshot "@ + s.branch + ": "@ + remote.output()),
                    i + 1,
                )
            } else if text::words_of(remote.stdout@).len() == 0 {
                Flow::Done(Err("remote did not advertise the pushed snapshot ref"@), i + 1)
            } else if text::words_of(remote.stdout@)[0] != s.commit {
                Flow::Done(
                    Err(
                        "remote snapshot ref "@ + ref_name(s.branch) + " points at "@
                            + text::words_of(remote.stdout@)[0] + ", expected "@ + s.commit,
                    ),
                    i + 1,
                )
            } else {
                flow::ask(
                    replies,
                    i + 1,
                    compare_command(s.head, s.commit),
                    |diff: GitResult|
                        if diff.code == 1 {
                            Flow::Done(Ok(()), i + 2)
                        } else if diff.code == 0 {
                            Flow::Done(
                                Err("snapshot "@ + s.branch + " has no dirty delta from HEAD"@),
                                i + 2,
                            )
                        } else {
                            Flow::Done(
                                Err("could not verify snapshot delta: "@ + diff.output()),
                                i + 2,
                            )
                        },
                )
            },
    )
}

/// Checks that the remote holds exactly the commit of a snapshot, and that this differs from the
/// head it was made on, so that a report of success rests on more than a push.
pub fn verify_pushed_snapshot(snapshot: &SnapshotCommit, replies: &[GitReply], from: usize) -> (step:
    Step<()>)
    ensures
        step@ == verify_pushed_snapshot_flow(snapshot@, replies@, from as int),
        step matches Step::Done(_, n) ==> from < n <= replies.len(),
{
    let name = "refs/heads/".to_owned().concat(&snapshot.branch);
    if from >= replies.len() {
        return Step::Run(git_patient(args4("ls-remote", "--heads", "origin", &name)));
    }
    match &replies[from].outcome {
        Ok(remote) => {
            if !remote.ok() {
                let why = "verify pushed snapshot ".to_owned().concat(&snapshot.branch).concat(
                    ": ",
                ).concat(&remote.combined());
                return Step::Done(Err(why), from + 1);
            }
            let list = words(&remote.stdout);
            proof {
                assert(text::views(list@).len() == list@.len());
            }
            if list.len() == 0 {
                let why = "remote did not advertise the pushed snapshot ref".to_owned();
                return Step::Done(Err(why), from + 1);
            }
            proof {
                assert(text::views(list@)[0] == list@[0]@);
            }
            if !same(&list[0], &snapshot.commit) {
                let why = "remote snapshot ref ".to_owned().concat(&name).concat(
                    " points at ",
                ).concat(&list[0]).concat(", expected ").concat(&snapshot.commit);
                return Step::Done(Err(why), from + 1);
            }
        },
        Err(why) => {
            return Step::Done(Err(why.clone()), from + 1);
        },
    }
    if from + 1 >= replies.len() {
        return Step::Run(git(args4("diff", "--quiet", &snapshot.head, &snapshot.commit)));
    }
    match &replies[from + 1].outcome {
        Ok(diff) => {
            if diff.code == 1 {
                Step::Done(Ok(()), from + 2)
            } else if diff.code == 0 {
                let why = "snapshot ".to_owned().concat(&snapshot.branch).concat(
                    " has no dirty delta from HEAD",
                );
                Step::Done(Err(why), from + 2)
            } else {
                let why = "could not verify snapshot delta: ".to_owned().concat(&diff.combined());
                Step::Done(Err(why), from + 2)
            }
        },
        Err(why) => Step::Done(Err(why.clone()), from + 2),
    }
}

} // verus!
