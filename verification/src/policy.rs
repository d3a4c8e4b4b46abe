//! What the engine may ask of git at all.
//!
//! Every command that it ever asks for is one of those listed here. Among them there is no push
//! but by fast-forward or of a new branch, and nothing that rewrites a commit.
use crate::autocommit;
use crate::cleanup;
use crate::cli;
use crate::cli::{Commands, Inputs, NextView};
use crate::commit;
use crate::flow;
use crate::flow::{Flow, GitReply};
use crate::git_ops;
use crate::pass::{PassFlow, Progress};
use crate::push;
use crate::registry;
use crate::snapshot;
use crate::snapshot::SnapshotCommitView;
use crate::stash;
use crate::status;
use vstd::prelude::*;

verus! {

/// The commands that look at the state of a work tree and change nothing.
pub open spec fn looks(c: flow::Command) -> bool {
    ||| c == flow::plain(seq!["rev-parse"@, "--show-toplevel"@])
    ||| c == flow::plain(seq!["rev-parse"@, "--is-inside-work-tree"@])
    ||| c == flow::plain(seq!["rev-parse"@, "--abbrev-ref"@, "HEAD"@])
    ||| c == flow::plain(seq!["remote"@, "get-url"@, "origin"@])
    ||| c == flow::plain(seq!["symbolic-ref"@, "--short"@, "refs/remotes/origin/HEAD"@])
    ||| c == flow::plain(seq!["show-ref"@, "--verify"@, "--quiet"@, c.args[3]])
    ||| c == flow::plain(seq!["status"@, "--porcelain"@])
    ||| c == flow::plain(seq!["rev-list"@, "--left-right"@, "--count"@, c.args[3]])
    ||| c == flow::plain(seq!["stash"@, "list"@])
    ||| c == cleanup::stash_names_command()
    ||| c == flow::plain(seq!["log"@, "-1"@, "--pretty=%h %s"@, "--no-color"@])
}

/// The two forms of a push: by fast-forward, and of a new branch.
pub open spec fn pushes(c: flow::Command) -> bool {
    ||| c == push::ff_only_command(c.args[3])
    ||| c == push::upstream_command(c.args[3])
}

/// The commands that keep work: by a push, or by a new branch at the head.
pub open spec fn secures(c: flow::Command) -> bool {
    ||| pushes(c)
    ||| c == commit::branch_command(c.args[1])
}

/// The commands that commit everything in a work tree.
pub open spec fn commits(c: flow::Command) -> bool {
    ||| c == flow::plain(seq!["add"@, "-A"@])
    ||| c == flow::plain(seq!["diff"@, "--cached"@, "--quiet"@])
    ||| c == commit::commit_command(c.args[2], c.env)
}

/// The commands that commit everything in a work tree and keep it.
pub open spec fn records(c: flow::Command) -> bool {
    ||| secures(c)
    ||| commits(c)
}

/// The commands that bring a stash to safety.
pub open spec fn rescues(c: flow::Command) -> bool {
    ||| c == stash::show_command(c.args[3])
    ||| c == stash::apply_command(c.args[2])
    ||| c == stash::drop_command(c.args[2])
    ||| records(c)
}

/// Whether a command drops a stash.
pub open spec fn drops(c: flow::Command) -> bool {
    c.args.len() == 3 && c.args[0] == "stash"@ && c.args[1] == "drop"@
}

/// The commands of a snapshot that work on an index. The index is the given one, not that of the
/// user.
pub open spec fn uses_index(c: flow::Command, index: Seq<char>) -> bool {
    &&& c.env.len() > 0 && c.env[0] == ("GIT_INDEX_FILE"@, index)
    &&& {
        ||| c.args == seq!["read-tree"@, "HEAD"@]
        ||| c.args == seq!["add"@, "-A"@]
        ||| c.args == seq!["write-tree"@]
        ||| c.args == seq!["commit-tree"@, c.args[1], "-p"@, c.args[3], "-m"@, c.args[5]]
    }
}

/// The commands of a snapshot that work on refs and commits alone.
pub open spec fn uses_refs(c: flow::Command) -> bool {
    ||| c == flow::plain(seq!["rev-parse"@, "--verify"@, c.args[2]])
    ||| c == flow::plain(seq!["rev-parse"@, "HEAD^{tree}"@])
    ||| c == flow::plain(seq!["update-ref"@, c.args[1], c.args[2], snapshot::no_object()])
    ||| c == flow::patient(seq!["ls-remote"@, "--heads"@, "origin"@, c.args[3]])
    ||| c == snapshot::compare_command(c.args[2], c.args[3])
}

/// Every command that the engine may ask for.
pub open spec fn allowed(c: flow::Command) -> bool {
    ||| looks(c)
    ||| rescues(c)
    ||| exists|index: Seq<char>| #[trigger] uses_index(c, index)
    ||| uses_refs(c)
}

proof fn lemma_primary_among_looks(k: int, replies: Seq<GitReply>, i: int)
    ensures
        git_ops::primary_among_flow(k, replies, i) matches Flow::Run(c) ==> looks(c),
    decreases 4 - k,
{
    if 0 <= k < 4 {
        lemma_primary_among_looks(k + 1, replies, i + 1);
    }
}

proof fn lemma_questions_look(branch: Seq<char>, replies: Seq<GitReply>, i: int)
    ensures
        git_ops::safe_repo_root_flow(replies, i) matches Flow::Run(c) ==> looks(c),
        git_ops::is_inside_work_tree_flow(replies, i) matches Flow::Run(c) ==> looks(c),
        git_ops::has_origin_remote_flow(replies, i) matches Flow::Run(c) ==> looks(c),
        git_ops::get_remote_url_flow(replies, i) matches Flow::Run(c) ==> looks(c),
        git_ops::current_branch_flow(replies, i) matches Flow::Run(c) ==> looks(c),
        git_ops::primary_branch_flow(replies, i) matches Flow::Run(c) ==> looks(c),
        git_ops::dirty_count_flow(replies, i) matches Flow::Run(c) ==> looks(c),
        git_ops::ahead_behind_flow(branch, replies, i) matches Flow::Run(c) ==> looks(c),
        git_ops::stash_count_flow(replies, i) matches Flow::Run(c) ==> looks(c),
        git_ops::last_commit_flow(replies, i) matches Flow::Run(c) ==> looks(c),
{
    lemma_primary_among_looks(0, replies, i + 1);
}

pub(crate) proof fn lemma_try_push_secures(
    branch: Seq<char>,
    tag: Seq<char>,
    replies: Seq<GitReply>,
    i: int,
)
    ensures
        push::try_push_or_snapshot_flow(branch, tag, replies, i) matches Flow::Run(c)
            ==> secures(c),
{
}

proof fn lemma_commit_all_commits(
    message: Seq<char>,
    env: Seq<(Seq<char>, Seq<char>)>,
    replies: Seq<GitReply>,
    i: int,
)
    ensures
        commit::commit_all_flow(message, env, replies, i) matches Flow::Run(c) ==> commits(c),
{
}

proof fn lemma_recovery_rescues(
    stash: Seq<char>,
    tag: Seq<char>,
    env: Seq<(Seq<char>, Seq<char>)>,
    replies: Seq<GitReply>,
    i: int,
)
    ensures
        stash::recover_one_stash_flow(stash, tag, env, replies, i) matches Flow::Run(c)
            ==> rescues(c),
{
    lemma_commit_all_commits(
        stash::stash_message(stash, tag, replies[i].outcome->Ok_0.stdout@),
        env,
        replies,
        i + 2,
    );
}

/// A snapshot leaves the index of the user alone: each of its commands works on the index file
/// that was set aside for it, or on refs and commits alone.
pub proof fn law_snapshot_leaves_index_alone(
    branch: Seq<char>,
    requested: Option<Seq<char>>,
    index: Seq<char>,
    author: Seq<(Seq<char>, Seq<char>)>,
    replies: Seq<GitReply>,
    i: int,
)
    ensures
        snapshot::create_snapshot_commit_flow(
            branch,
            requested,
            index,
            author,
            replies,
            i,
        ) matches Flow::Run(c) ==> uses_index(c, index) || uses_refs(c),
{
    let env = snapshot::index_env(index);
    assert(env[0] == ("GIT_INDEX_FILE"@, index));
    assert((env + author)[0] == env[0]);
    lemma_work_tree_commands(index, replies, i);
    match snapshot::write_work_tree_flow(index, replies, i) {
        Flow::Done(Ok(w), n1) => {
            let c = snapshot::commit_tree_command(
                w.1,
                w.0,
                snapshot::snapshot_message(requested, branch),
                env + author,
            );
            assert(uses_index(c, index));
            match snapshot::git_value_with_env_flow(c, "create snapshot commit"@, replies, n1) {
                Flow::Done(Ok(commit), n2) => {
                    lemma_publish_commands(branch, w.0, commit, replies, n2);
                },
                _ => {},
            }
        },
        _ => {},
    }
}

proof fn lemma_work_tree_commands(index: Seq<char>, replies: Seq<GitReply>, i: int)
    ensures
        snapshot::write_work_tree_flow(index, replies, i) matches Flow::Run(c) ==> uses_index(
            c,
            index,
        ) || uses_refs(c),
{
}

proof fn lemma_publish_commands(
    branch: Seq<char>,
    head: Seq<char>,
    commit: Seq<char>,
    replies: Seq<GitReply>,
    i: int,
)
    ensures
        snapshot::publish_commit_flow(branch, head, commit, replies, i) matches Flow::Run(c)
            ==> uses_refs(c),
{
}

proof fn lemma_verify_commands(s: SnapshotCommitView, replies: Seq<GitReply>, i: int)
    ensures
        snapshot::verify_pushed_snapshot_flow(s, replies, i) matches Flow::Run(c)
            ==> uses_refs(c),
{
}

proof fn lemma_status_looks(
    path: Seq<char>,
    meta: registry::EntryView,
    replies: Seq<GitReply>,
    i: int,
)
    ensures
        status::snapshot_repo_flow(path, meta, replies, i) matches Flow::Run(c) ==> looks(c),
{
    assert forall|branch: Seq<char>, k: int|
        #![trigger git_ops::ahead_behind_flow(branch, replies, k)]
        git_ops::ahead_behind_flow(branch, replies, k) matches Flow::Run(c) ==> looks(c) by {
        lemma_questions_look(branch, replies, k);
    }
    assert forall|k: int|
        #![trigger git_ops::current_branch_flow(replies, k)]
        #![trigger git_ops::primary_branch_flow(replies, k)]
        #![trigger git_ops::dirty_count_flow(replies, k)]
        #![trigger git_ops::stash_count_flow(replies, k)]
        #![trigger git_ops::last_commit_flow(replies, k)]
        (git_ops::current_branch_flow(replies, k) matches Flow::Run(c) ==> looks(c)) && (
        git_ops::primary_branch_flow(replies, k) matches Flow::Run(c) ==> looks(c)) && (
        git_ops::dirty_count_flow(replies, k) matches Flow::Run(c) ==> looks(c)) && (
        git_ops::stash_count_flow(replies, k) matches Flow::Run(c) ==> looks(c)) && (
        git_ops::last_commit_flow(replies, k) matches Flow::Run(c) ==> looks(c)) by {
        lemma_questions_look(Seq::empty(), replies, k);
    }
}

/// What a visit of an autocommit pass asks for, and that a rehearsal only looks: it changes
/// nothing, notes nothing and logs nothing.
proof fn lemma_autocommit_visit(
    root: Seq<char>,
    path: Seq<char>,
    meta: registry::EntryView,
    dry_run: bool,
    known: Map<Seq<char>, registry::EntryView>,
    env: Seq<(Seq<char>, Seq<char>)>,
    replies: Seq<GitReply>,
    i: int,
)
    ensures
        match autocommit::run_one_flow(root, path, meta, dry_run, known, env, replies, i) {
            Flow::Run(c) => looks(c) || !dry_run && records(c),
            Flow::Done(Ok(visit), _) => dry_run ==> visit.known == known && visit.log.len() == 0,
            _ => true,
        },
{
    lemma_questions_look(Seq::empty(), replies, i);
    lemma_questions_look(Seq::empty(), replies, i + 1);
    lemma_questions_look(Seq::empty(), replies, i + 2);
    let message = autocommit::auto_message(replies[i + 2].at.iso@);
    lemma_commit_all_commits(message, env, replies, i + 3);
    match commit::commit_all_flow(message, env, replies, i + 3) {
        Flow::Done(_, n) => {
            assert forall|branch: Seq<char>, tag: Seq<char>|
                #![trigger push::try_push_or_snapshot_flow(branch, tag, replies, n)]
                push::try_push_or_snapshot_flow(branch, tag, replies, n) matches Flow::Run(c)
                    ==> secures(c) by {
                lemma_try_push_secures(branch, tag, replies, n);
            }
        },
        _ => {},
    }
}

proof fn lemma_autocommit_pass(
    root: Seq<char>,
    list: Seq<(Seq<char>, registry::EntryView)>,
    k: int,
    dry_run: bool,
    env: Seq<(Seq<char>, Seq<char>)>,
    so_far: Progress<autocommit::AutocommitView>,
    replies: Seq<GitReply>,
    i: int,
)
    requires
        dry_run ==> so_far.log.len() == 0,
    ensures
        match autocommit::run_from_flow(root, list, k, dry_run, env, so_far, replies, i) {
            PassFlow::Git { log, command, .. } => (looks(command) || !dry_run && records(command))
                && (dry_run ==> log.len() == 0),
            PassFlow::Done { log, save, .. } => dry_run ==> log.len() == 0 && save is None,
        },
    decreases list.len() - k,
{
    if k < list.len() {
        lemma_autocommit_visit(
            root,
            list[k].0,
            list[k].1,
            dry_run,
            so_far.known,
            env,
            replies,
            i,
        );
        match autocommit::run_one_flow(
            root,
            list[k].0,
            list[k].1,
            dry_run,
            so_far.known,
            env,
            replies,
            i,
        ) {
            Flow::Run(_) => {},
            Flow::Done(Ok(visit), n) => {
                lemma_autocommit_pass(
                    root,
                    list,
                    k + 1,
                    dry_run,
                    env,
                    so_far.visited(list[k].0, visit),
                    replies,
                    n,
                );
            },
            Flow::Done(Err(why), n) => {
                lemma_autocommit_pass(
                    root,
                    list,
                    k + 1,
                    dry_run,
                    env,
                    so_far.visited(
                        list[k].0,
                        autocommit::untouched(
                            autocommit::failed_record(why, dry_run),
                            so_far.known,
                        ),
                    ),
                    replies,
                    n,
                );
            },
        }
    }
}

pub(crate) proof fn lemma_rescue_commands(
    root: Seq<char>,
    path: Seq<char>,
    names: Seq<Seq<char>>,
    k: int,
    dry_run: bool,
    env: Seq<(Seq<char>, Seq<char>)>,
    so_far: cleanup::Rescue,
    replies: Seq<GitReply>,
    i: int,
)
    ensures
        match cleanup::rescue_flow(root, path, names, k, dry_run, env, so_far, replies, i) {
            Flow::Run(c) => !dry_run && rescues(c),
            Flow::Done(Ok(r), _) => dry_run ==> r.log == so_far.log,
            Flow::Done(Err(_), _) => false,
        },
    decreases k,
{
    if k > 0 {
        if dry_run {
            lemma_rescue_commands(
                root,
                path,
                names,
                k - 1,
                dry_run,
                env,
                cleanup::Rescue { recovered: so_far.recovered + 1, ..so_far },
                replies,
                i,
            );
        } else {
            let tag = replies[i - 1].at.tag@;
            lemma_recovery_rescues(names[k - 1], tag, env, replies, i);
            match stash::recover_one_stash_flow(names[k - 1], tag, env, replies, i) {
                Flow::Run(_) => {},
                Flow::Done(Ok(r), n) => {
                    lemma_rescue_commands(
                        root,
                        path,
                        names,
                        k - 1,
                        dry_run,
                        env,
                        so_far.tried(root, path, names[k - 1], r.0, r.1),
                        replies,
                        n,
                    );
                },
                Flow::Done(Err(why), n) => {
                    lemma_rescue_commands(
                        root,
                        path,
                        names,
                        k - 1,
                        dry_run,
                        env,
                        so_far.gave_up(names[k - 1], why),
                        replies,
                        n,
                    );
                },
            }
        }
    }
}

proof fn lemma_push_ahead_commands(
    root: Seq<char>,
    path: Seq<char>,
    branch: Seq<char>,
    record: cleanup::CleanupView,
    dry_run: bool,
    known: Map<Seq<char>, registry::EntryView>,
    log: Seq<crate::state::FileOp>,
    replies: Seq<GitReply>,
    i: int,
)
    ensures
        match cleanup::push_ahead_flow(
            root,
            path,
            branch,
            record,
            dry_run,
            known,
            log,
            replies,
            i,
        ) {
            Flow::Run(c) => looks(c) || !dry_run && rescues(c),
            Flow::Done(Ok(visit), _) => dry_run ==> visit.known == known && visit.log == log,
            Flow::Done(Err(_), _) => false,
        },
{
    lemma_questions_look(branch, replies, i);
    lemma_try_push_secures(branch, replies[i].at.tag@, replies, i + 1);
}

/// What a visit of a cleanup pass asks for, that it never ends in an error, and that a rehearsal
/// only looks: it changes nothing, notes nothing and logs nothing.
proof fn lemma_cleanup_visit(
    root: Seq<char>,
    path: Seq<char>,
    dry_run: bool,
    known: Map<Seq<char>, registry::EntryView>,
    env: Seq<(Seq<char>, Seq<char>)>,
    replies: Seq<GitReply>,
    i: int,
)
    ensures
        match cleanup::run_one_flow(root, path, dry_run, known, env, replies, i) {
            Flow::Run(c) => looks(c) || !dry_run && rescues(c),
            Flow::Done(Ok(visit), _) => dry_run ==> visit.known == known && visit.log.len() == 0,
            Flow::Done(Err(_), _) => false,
        },
{
    lemma_questions_look(Seq::empty(), replies, i);
    lemma_questions_look(Seq::empty(), replies, i + 1);
    match git_ops::current_branch_flow(replies, i + 1) {
        Flow::Done(Ok(Some(branch)), _) => {
            lemma_cleanup_work(root, path, branch, dry_run, known, env, replies, i + 2);
        },
        _ => {},
    }
}

proof fn lemma_cleanup_work(
    root: Seq<char>,
    path: Seq<char>,
    branch: Seq<char>,
    dry_run: bool,
    known: Map<Seq<char>, registry::EntryView>,
    env: Seq<(Seq<char>, Seq<char>)>,
    replies: Seq<GitReply>,
    i: int,
)
    ensures
        match cleanup::work_flow(root, path, branch, dry_run, known, env, replies, i) {
            Flow::Run(c) => looks(c) || !dry_run && rescues(c),
            Flow::Done(Ok(visit), _) => dry_run ==> visit.known == known && visit.log.len() == 0,
            Flow::Done(Err(_), _) => false,
        },
{
    lemma_questions_look(branch, replies, i);
    let seen = match git_ops::stash_count_flow(replies, i) {
        Flow::Done(Ok(seen), _) => seen,
        _ => 0usize,
    };
    match cleanup::stash_names_flow(seen, replies, i + 1) {
        Flow::Done(Ok(names), n) => {
            let nothing = cleanup::Rescue::nothing();
            lemma_rescue_commands(
                root,
                path,
                names,
                names.len() as int,
                dry_run,
                env,
                nothing,
                replies,
                n,
            );
            match cleanup::rescue_flow(
                root,
                path,
                names,
                names.len() as int,
                dry_run,
                env,
                nothing,
                replies,
                n,
            ) {
                Flow::Done(Ok(r), m) => {
                    lemma_push_ahead_commands(
                        root,
                        path,
                        branch,
                        cleanup::rescued_record(seen, r),
                        dry_run,
                        known,
                        r.log,
                        replies,
                        m,
                    );
                },
                _ => {},
            }
        },
        _ => {},
    }
}

proof fn lemma_cleanup_pass(
    root: Seq<char>,
    list: Seq<(Seq<char>, registry::EntryView)>,
    k: int,
    dry_run: bool,
    env: Seq<(Seq<char>, Seq<char>)>,
    so_far: Progress<cleanup::CleanupView>,
    replies: Seq<GitReply>,
    i: int,
)
    requires
        dry_run ==> so_far.log.len() == 0,
    ensures
        match cleanup::run_from_flow(root, list, k, dry_run, env, so_far, replies, i) {
            PassFlow::Git { log, command, .. } => (looks(command) || !dry_run && rescues(command))
                && (dry_run ==> log.len() == 0),
            PassFlow::Done { log, save, .. } => dry_run ==> log.len() == 0 && save is None,
        },
    decreases list.len() - k,
{
    if k < list.len() {
        lemma_cleanup_visit(root, list[k].0, dry_run, so_far.known, env, replies, i);
        match cleanup::run_one_flow(root, list[k].0, dry_run, so_far.known, env, replies, i) {
            Flow::Run(_) => {},
            Flow::Done(visit, n) => {
                lemma_cleanup_pass(
                    root,
                    list,
                    k + 1,
                    dry_run,
                    env,
                    so_far.visited(list[k].0, visit->Ok_0),
                    replies,
                    n,
                );
            },
        }
    }
}

/// A rehearsal of an autocommit pass changes nothing: it only runs commands that look, logs
/// nothing and saves nothing.
pub proof fn law_autocommit_rehearsal_changes_nothing(
    root: Seq<char>,
    list: Seq<(Seq<char>, registry::EntryView)>,
    known: Map<Seq<char>, registry::EntryView>,
    env: Seq<(Seq<char>, Seq<char>)>,
    replies: Seq<GitReply>,
)
    ensures
        match autocommit::run_flow(root, list, known, true, env, replies) {
            PassFlow::Git { log, command, .. } => looks(command) && log.len() == 0,
            PassFlow::Done { log, save, .. } => log.len() == 0 && save is None,
        },
{
    lemma_autocommit_pass(
        root,
        list,
        0,
        true,
        env,
        Progress { records: Seq::empty(), known, log: Seq::empty() },
        replies,
        0,
    );
}

/// A rehearsal of a cleanup pass changes nothing: it only runs commands that look, logs nothing
/// and saves nothing.
pub proof fn law_cleanup_rehearsal_changes_nothing(
    root: Seq<char>,
    list: Seq<(Seq<char>, registry::EntryView)>,
    known: Map<Seq<char>, registry::EntryView>,
    env: Seq<(Seq<char>, Seq<char>)>,
    replies: Seq<GitReply>,
)
    ensures
        match cleanup::run_flow(root, list, known, true, env, replies) {
            PassFlow::Git { log, command, .. } => looks(command) && log.len() == 0,
            PassFlow::Done { log, save, .. } => log.len() == 0 && save is None,
        },
{
    lemma_cleanup_pass(
        root,
        list,
        0,
        true,
        env,
        Progress { records: Seq::empty(), known, log: Seq::empty() },
        replies,
        0,
    );
}

proof fn lemma_quickstatus_looks(
    list: Seq<(Seq<char>, registry::EntryView)>,
    k: int,
    dirty: nat,
    unpushed: nat,
    replies: Seq<GitReply>,
    i: int,
)
    ensures
        match cli::quickstatus_from_flow(list, k, dirty, unpushed, replies, i) {
            NextView::Git { command, .. } => looks(command),
            NextView::Done(Ok(outcome)) => outcome.save is None,
            NextView::Done(Err(_)) => true,
            _ => false,
        },
    decreases list.len() - k,
{
    if k < list.len() {
        lemma_status_looks(list[k].0, list[k].1, replies, i);
        match status::snapshot_repo_flow(list[k].0, list[k].1, replies, i) {
            Flow::Done(Ok(s), n) => {
                lemma_quickstatus_looks(
                    list,
                    k + 1,
                    if s.dirty > 0 {
                        dirty + 1
                    } else {
                        dirty
                    },
                    if s.ahead > 0 {
                        unpushed + 1
                    } else {
                        unpushed
                    },
                    replies,
                    n,
                );
            },
            _ => {},
        }
    }
}

proof fn lemma_snapshot_command_kinds(
    inputs: Inputs,
    given: Seq<char>,
    message: Option<Seq<char>>,
)
    ensures
        cli::snapshot_flow(inputs, given, message) matches NextView::Git { command: c, .. } ==> {
            ||| c == flow::plain(seq!["rev-parse"@, "--is-inside-work-tree"@])
            ||| pushes(c)
            ||| exists|index: Seq<char>| #[trigger] uses_index(c, index)
            ||| uses_refs(c)
        },
{
    let replies = inputs.replies@;
    lemma_questions_look(Seq::empty(), replies, 0);
    if let Some(Ok(index)) = inputs.index {
        let at = replies[0].at;
        let branch = push::backup_name(at.tag@, at.id@);
        let env = commit::author_env(inputs.author);
        law_snapshot_leaves_index_alone(branch, message, index@, env, replies, 1);
        match snapshot::create_snapshot_commit_flow(branch, message, index@, env, replies, 1) {
            Flow::Run(c) => {
                assert(uses_index(c, index@) || uses_refs(c));
            },
            Flow::Done(Ok(Some(made)), n) => {
                lemma_verify_commands(made, replies, n + 1);
            },
            _ => {},
        }
    } else {
        assert(snapshot::git_value_flow(
            seq!["rev-parse"@, "--verify"@, "HEAD"@],
            replies,
            1,
        ) matches Flow::Run(c) ==> uses_refs(c));
    }
}

/// Whatever the command line asks for, every command that is run is one of those that the engine
/// may ask for.
pub proof fn law_only_allowed_commands(root: Seq<char>, command: Commands, inputs: Inputs)
    ensures
        cli::command_flow(root, command, inputs).1 matches NextView::Git { command: c, .. }
            ==> allowed(c),
{
    match command {
        Commands::Register { repo_path } => {
            lemma_register_looks(inputs, repo_path@);
        },
        Commands::Snapshot { repo_path, message } => {
            lemma_snapshot_command_kinds(inputs, repo_path@, message.deep_view());
        },
        Commands::Autocommit { dry_run } => {
            lemma_autocommit_records(root, inputs, dry_run);
        },
        Commands::Cleanup { dry_run } => {
            if let Some(Ok(registry)) = inputs.registry {
                lemma_cleanup_pass(
                    root,
                    registry.listing(),
                    0,
                    dry_run,
                    commit::author_env(inputs.author),
                    Progress { records: Seq::empty(), known: registry@, log: Seq::empty() },
                    inputs.replies@,
                    0,
                );
            }
        },
        Commands::Restore { repo_path, branch } => {
            lemma_restore_secures(inputs, repo_path@, branch@);
        },
        Commands::Unregister { .. } => {},
        _ => {
            law_showing_changes_nothing(root, command, inputs);
        },
    }
}

/// The commands that only show something: they run no command but one that looks, log nothing and
/// save nothing.
pub proof fn law_showing_changes_nothing(root: Seq<char>, command: Commands, inputs: Inputs)
    requires
        command is List || command is Audit || command is Status || command is Quickstatus
            || command is Daemon,
    ensures
        cli::command_flow(root, command, inputs).0.len() == 0,
        match cli::command_flow(root, command, inputs).1 {
            NextView::Git { command: c, .. } => looks(c),
            NextView::Done(Ok(outcome)) => outcome.save is None,
            _ => true,
        },
{
    let replies = inputs.replies@;
    match command {
        Commands::Status { repo_path } => {
            if let Some(Ok(registry)) = inputs.registry {
                assert forall|path: Seq<char>|
                    #![trigger cli::known_of(registry@, path)]
                    status::snapshot_repo_flow(
                        path,
                        cli::known_of(registry@, path),
                        replies,
                        0,
                    ) matches Flow::Run(c) ==> looks(c) by {
                    lemma_status_looks(path, cli::known_of(registry@, path), replies, 0);
                }
            }
        },
        Commands::Quickstatus => {
            if let Some(Ok(registry)) = inputs.registry {
                lemma_quickstatus_looks(registry.listing(), 0, 0, 0, replies, 0);
            }
        },
        _ => {},
    }
}

/// The subcommands of git that the engine may use.
pub open spec fn subcommands() -> Set<Seq<char>> {
    set![
        "rev-parse"@,
        "remote"@,
        "symbolic-ref"@,
        "show-ref"@,
        "status"@,
        "rev-list"@,
        "stash"@,
        "log"@,
        "push"@,
        "branch"@,
        "add"@,
        "diff"@,
        "commit"@,
        "read-tree"@,
        "write-tree"@,
        "commit-tree"@,
        "update-ref"@,
        "ls-remote"@,
    ]
}

/// No subcommand is used but the listed ones: none that moves a branch to another commit, resets
/// the work tree, rewrites commits or deletes refs is among them.
pub proof fn law_only_known_subcommands(c: flow::Command)
    requires
        allowed(c),
    ensures
        c.args.len() > 0,
        subcommands().contains(c.args[0]),
{
    if exists|index: Seq<char>| #[trigger] uses_index(c, index) {
        let index = choose|index: Seq<char>| #[trigger] uses_index(c, index);
        assert(uses_index(c, index));
    }
}

pub(crate) proof fn lemma_subcommands_differ()
    ensures
        "rev-parse"@.len() == 9 && "rev-parse"@[0] == 'r',
        "remote"@.len() == 6 && "remote"@[0] == 'r',
        "symbolic-ref"@.len() == 12 && "symbolic-ref"@[0] == 's',
        "show-ref"@.len() == 8 && "show-ref"@[0] == 's',
        "status"@.len() == 6 && "status"@[0] == 's',
        "rev-list"@.len() == 8 && "rev-list"@[0] == 'r',
        "stash"@.len() == 5 && "stash"@[0] == 's',
        "log"@.len() == 3 && "log"@[0] == 'l',
        "push"@.len() == 4 && "push"@[0] == 'p',
        "branch"@.len() == 6 && "branch"@[0] == 'b',
        "add"@.len() == 3 && "add"@[0] == 'a',
        "diff"@.len() == 4 && "diff"@[0] == 'd',
        "commit"@.len() == 6 && "commit"@[0] == 'c',
        "read-tree"@.len() == 9 && "read-tree"@[0] == 'r',
        "write-tree"@.len() == 10 && "write-tree"@[0] == 'w',
        "commit-tree"@.len() == 11 && "commit-tree"@[0] == 'c',
        "update-ref"@.len() == 10 && "update-ref"@[0] == 'u',
        "ls-remote"@.len() == 9 && "ls-remote"@[0] == 'l',
{
    reveal_strlit("rev-parse");
    reveal_strlit("remote");
    reveal_strlit("symbolic-ref");
    reveal_strlit("show-ref");
    reveal_strlit("status");
    reveal_strlit("rev-list");
    reveal_strlit("stash");
    reveal_strlit("log");
    reveal_strlit("push");
    reveal_strlit("branch");
    reveal_strlit("add");
    reveal_strlit("diff");
    reveal_strlit("commit");
    reveal_strlit("read-tree");
    reveal_strlit("write-tree");
    reveal_strlit("commit-tree");
    reveal_strlit("update-ref");
    reveal_strlit("ls-remote");
}

/// Every push names `origin` and a branch, and has one option, by which it is a fast-forward or
/// makes a new branch. So no push is forced, and none carries push options.
pub proof fn law_no_forced_push(c: flow::Command)
    requires
        allowed(c),
        c.args[0] == "push"@,
    ensures
        pushes(c),
        c.args.len() == 4,
        c.args[1] == "--ff-only"@ || c.args[1] == "--set-upstream"@,
        c.args[2] == "origin"@,
{
    lemma_subcommands_differ();
    if exists|index: Seq<char>| #[trigger] uses_index(c, index) {
        let index = choose|index: Seq<char>| #[trigger] uses_index(c, index);
        assert(uses_index(c, index));
    }
}

/// Every commit is a new one: `git commit` is only used with a message and without hooks, never
/// to amend.
pub proof fn law_commits_are_new(c: flow::Command)
    requires
        allowed(c),
        c.args[0] == "commit"@,
    ensures
        c == commit::commit_command(c.args[2], c.env),
        c.args.len() == 4,
        c.args[1] == "-m"@,
        c.args[3] == "--no-verify"@,
{
    lemma_subcommands_differ();
    if exists|index: Seq<char>| #[trigger] uses_index(c, index) {
        let index = choose|index: Seq<char>| #[trigger] uses_index(c, index);
        assert(uses_index(c, index));
        assert(c.args[0] == "read-tree"@ || c.args[0] == "add"@ || c.args[0] == "write-tree"@
            || c.args[0] == "commit-tree"@);
    }
}

/// Every ref that is written by `git update-ref` is a new one: the command gives the object name
/// that stands for nothing as the old value, so that it fails on a ref that is there.
pub proof fn law_refs_are_new(c: flow::Command)
    requires
        allowed(c),
        c.args[0] == "update-ref"@,
    ensures
        c == flow::plain(seq!["update-ref"@, c.args[1], c.args[2], snapshot::no_object()]),
{
    lemma_subcommands_differ();
    if exists|index: Seq<char>| #[trigger] uses_index(c, index) {
        let index = choose|index: Seq<char>| #[trigger] uses_index(c, index);
        assert(uses_index(c, index));
    }
}

/// The reply by which a command went well.
pub open spec fn went_well(reply: GitReply) -> bool {
    reply.outcome matches Ok(r) && r.succeeded()
}

/// A push is reported as done only where the last command was one of the two pushes, and went
/// well: that of the branch, or that of the branch which keeps its work.
pub proof fn law_push_reported_only_if_done(
    branch: Seq<char>,
    tag: Seq<char>,
    replies: Seq<GitReply>,
    i: int,
)
    requires
        0 <= i,
    ensures
        push::try_push_or_snapshot_flow(branch, tag, replies, i) matches Flow::Done(
            Ok((true, _)),
            n,
        ) ==> i < n <= replies.len() && went_well(replies[n - 1]) && {
            let before = push::try_push_or_snapshot_flow(branch, tag, replies.take(n - 1), i);
            ||| before == Flow::<(bool, Seq<char>)>::Run(push::ff_only_command(branch))
            ||| before == Flow::<(bool, Seq<char>)>::Run(
                push::upstream_command(push::backup_name(tag, replies[i].at.id@)),
            )
        },
{
    match push::try_push_or_snapshot_flow(branch, tag, replies, i) {
        Flow::Done(_, n) => {
            let before = replies.take(n - 1);
            assert(forall|k: int| 0 <= k < before.len() ==> before[k] == replies[k]);
        },
        _ => {},
    }
}

/// A snapshot is reported as safe only where the remote named its commit under its branch, and git
/// found a difference between that commit and the head it was made on.
pub proof fn law_snapshot_is_checked(s: SnapshotCommitView, replies: Seq<GitReply>, i: int)
    requires
        0 <= i,
    ensures
        snapshot::verify_pushed_snapshot_flow(s, replies, i) matches Flow::Done(Ok(_), _) <==> {
            &&& i + 2 <= replies.len()
            &&& went_well(replies[i])
            &&& crate::text::words_of(replies[i].outcome->Ok_0.stdout@).len() > 0
            &&& crate::text::words_of(replies[i].outcome->Ok_0.stdout@)[0] == s.commit
            &&& replies[i + 1].outcome matches Ok(diff) && diff.code == 1
        },
{
}

proof fn lemma_only_rescues_drop(c: flow::Command)
    requires
        looks(c) || records(c),
    ensures
        !drops(c),
{
    lemma_subcommands_differ();
    reveal_strlit("list");
    reveal_strlit("drop");
    assert("list"@[0] == 'l' && "drop"@[0] == 'd');
}

proof fn lemma_register_looks(inputs: Inputs, given: Seq<char>)
    ensures
        cli::register_flow(inputs, given) matches NextView::Git { command, .. } ==> looks(command),
{
    let replies = inputs.replies@;
    lemma_questions_look(Seq::empty(), replies, 0);
    lemma_questions_look(Seq::empty(), replies, 1);
    lemma_questions_look(Seq::empty(), replies, 2);
    match git_ops::primary_branch_flow(replies, 2) {
        Flow::Done(_, n) => {
            lemma_questions_look(Seq::empty(), replies, n);
        },
        _ => {},
    }
}

proof fn lemma_restore_secures(inputs: Inputs, given: Seq<char>, branch: Seq<char>)
    ensures
        cli::restore_flow(inputs, given, branch) matches NextView::Git { command, .. } ==> secures(
            command,
        ),
{
    lemma_try_push_secures(branch, inputs.started.tag@, inputs.replies@, 0);
}

proof fn lemma_autocommit_records(root: Seq<char>, inputs: Inputs, dry_run: bool)
    ensures
        cli::autocommit_flow(root, inputs, dry_run).1 matches NextView::Git { command, .. }
            ==> looks(command) || records(command),
{
    if let Some(Ok(registry)) = inputs.registry {
        lemma_autocommit_pass(
            root,
            registry.listing(),
            0,
            dry_run,
            commit::author_env(inputs.author),
            Progress { records: Seq::empty(), known: registry@, log: Seq::empty() },
            inputs.replies@,
            0,
        );
    }
}

proof fn lemma_cleanup_rehearsal_looks(root: Seq<char>, inputs: Inputs)
    ensures
        cli::cleanup_flow(root, inputs, true).1 matches NextView::Git { command, .. } ==> looks(
            command,
        ),
{
    if let Some(Ok(registry)) = inputs.registry {
        law_cleanup_rehearsal_changes_nothing(
            root,
            registry.listing(),
            registry@,
            commit::author_env(inputs.author),
            inputs.replies@,
        );
    }
}

/// Nothing but a cleanup pass that is no rehearsal ever drops a stash.
pub proof fn law_only_cleanup_drops(root: Seq<char>, command: Commands, inputs: Inputs)
    requires
        cli::command_flow(root, command, inputs).1 matches NextView::Git { command: c, .. }
            && drops(c),
    ensures
        command matches Commands::Cleanup { dry_run } && !dry_run,
{
    let c = cli::command_flow(root, command, inputs).1->command;
    match command {
        Commands::Register { repo_path } => {
            lemma_register_looks(inputs, repo_path@);
            lemma_only_rescues_drop(c);
        },
        Commands::Unregister { repo_path } => {},
        Commands::Snapshot { repo_path, message } => {
            lemma_snapshot_command_drops_nothing(inputs, repo_path@, message.deep_view());
        },
        Commands::Autocommit { dry_run } => {
            lemma_autocommit_records(root, inputs, dry_run);
            lemma_only_rescues_drop(c);
        },
        Commands::Cleanup { dry_run } => {
            if dry_run {
                lemma_cleanup_rehearsal_looks(root, inputs);
                lemma_only_rescues_drop(c);
            }
        },
        Commands::Restore { repo_path, branch } => {
            lemma_restore_secures(inputs, repo_path@, branch@);
            lemma_only_rescues_drop(c);
        },
        _ => {
            law_showing_changes_nothing(root, command, inputs);
            lemma_only_rescues_drop(c);
        },
    }
}

proof fn lemma_snapshot_command_drops_nothing(
    inputs: Inputs,
    given: Seq<char>,
    message: Option<Seq<char>>,
)
    ensures
        cli::snapshot_flow(inputs, given, message) matches NextView::Git { command, .. }
            ==> !drops(command),
{
    lemma_subcommands_differ();
    lemma_snapshot_command_kinds(inputs, given, message);
    match cli::snapshot_flow(inputs, given, message) {
        NextView::Git { command: c, .. } => {
            if exists|index: Seq<char>| #[trigger] uses_index(c, index) {
                let index = choose|index: Seq<char>| #[trigger] uses_index(c, index);
                assert(uses_index(c, index));
                assert(c.args[0] == "read-tree"@ || c.args[0] == "add"@ || c.args[0]
                    == "write-tree"@ || c.args[0] == "commit-tree"@);
            }
        },
        _ => {},
    }
}

} // verus!
