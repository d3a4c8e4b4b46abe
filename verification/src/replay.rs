//! Later replies do not change what earlier ones have settled.
//!
//! A conversation is called again and again with a growing list of replies. For that to make
//! sense it has to come to the same conclusions each time, as far as it had come before.
use crate::autocommit;
use crate::cleanup;
use crate::cli;
use crate::cli::{Commands, Inputs};
use crate::commit;
use crate::flow::{Flow, GitReply};
use crate::git_ops;
use crate::pass::{PassFlow, Progress};
use crate::push;
use crate::registry;
use crate::snapshot;
use crate::stash;
use crate::state::FileOp;
use crate::status;
use vstd::prelude::*;

verus! {

/// Whether a conversation comes to the same end with `replies` and with more of them, as soon as
/// the end is within `replies`. `early` is the conversation with `replies`, `late` the one with
/// more. It cannot end before reply number `i`.
pub open spec fn settled<T>(early: Flow<T>, late: Flow<T>, replies: Seq<GitReply>, i: int) -> bool {
    &&& early matches Flow::Done(_, n) ==> i <= n <= replies.len() && late == early
    &&& late matches Flow::Done(_, n) ==> i <= n && (n <= replies.len() ==> early == late)
}

proof fn lemma_primary_among_moves_on(k: int, replies: Seq<GitReply>, i: int)
    ensures
        git_ops::primary_among_flow(k, replies, i) matches Flow::Done(_, n) ==> i <= n,
    decreases 4 - k,
{
    if 0 <= k < 4 {
        lemma_primary_among_moves_on(k + 1, replies, i + 1);
    }
}

proof fn lemma_primary_among_settled(
    k: int,
    replies: Seq<GitReply>,
    next: GitReply,
    i: int,
)
    requires
        0 <= i <= replies.len(),
    ensures
        settled(
            git_ops::primary_among_flow(k, replies, i),
            git_ops::primary_among_flow(k, replies.push(next), i),
            replies,
            i,
        ),
    decreases 4 - k,
{
    if 0 <= k < 4 && i < replies.len() {
        lemma_primary_among_settled(k + 1, replies, next, i + 1);
    } else {
        lemma_primary_among_moves_on(k + 1, replies.push(next), i + 1);
    }
}

proof fn lemma_questions_settled(
    branch: Seq<char>,
    replies: Seq<GitReply>,
    next: GitReply,
    i: int,
)
    requires
        0 <= i <= replies.len(),
    ensures
        ({
            let more = replies.push(next);
            &&& settled(
                git_ops::is_inside_work_tree_flow(replies, i),
                git_ops::is_inside_work_tree_flow(more, i),
                replies,
                i + 1,
            )
            &&& settled(
                git_ops::current_branch_flow(replies, i),
                git_ops::current_branch_flow(more, i),
                replies,
                i + 1,
            )
            &&& settled(
                git_ops::primary_branch_flow(replies, i),
                git_ops::primary_branch_flow(more, i),
                replies,
                i + 1,
            )
            &&& settled(
                git_ops::dirty_count_flow(replies, i),
                git_ops::dirty_count_flow(more, i),
                replies,
                i + 1,
            )
            &&& settled(
                git_ops::ahead_behind_flow(branch, replies, i),
                git_ops::ahead_behind_flow(branch, more, i),
                replies,
                i + 1,
            )
            &&& settled(
                git_ops::stash_count_flow(replies, i),
                git_ops::stash_count_flow(more, i),
                replies,
                i + 1,
            )
            &&& settled(
                git_ops::last_commit_flow(replies, i),
                git_ops::last_commit_flow(more, i),
                replies,
                i + 1,
            )
        }),
{
    if i < replies.len() {
        lemma_primary_among_settled(0, replies, next, i + 1);
    } else {
        lemma_primary_among_moves_on(0, replies.push(next), i + 1);
    }
}

proof fn lemma_commit_all_settled(
    message: Seq<char>,
    env: Seq<(Seq<char>, Seq<char>)>,
    replies: Seq<GitReply>,
    next: GitReply,
    i: int,
)
    requires
        0 <= i <= replies.len(),
    ensures
        settled(
            commit::commit_all_flow(message, env, replies, i),
            commit::commit_all_flow(message, env, replies.push(next), i),
            replies,
            i + 1,
        ),
{
}

proof fn lemma_try_push_settled(
    branch: Seq<char>,
    tag: Seq<char>,
    replies: Seq<GitReply>,
    next: GitReply,
    i: int,
)
    requires
        0 <= i <= replies.len(),
    ensures
        settled(
            push::try_push_or_snapshot_flow(branch, tag, replies, i),
            push::try_push_or_snapshot_flow(branch, tag, replies.push(next), i),
            replies,
            i + 1,
        ),
{
}

pub(crate) proof fn lemma_recovery_settled(
    stash: Seq<char>,
    tag: Seq<char>,
    env: Seq<(Seq<char>, Seq<char>)>,
    replies: Seq<GitReply>,
    next: GitReply,
    i: int,
)
    requires
        0 <= i <= replies.len(),
    ensures
        settled(
            stash::recover_one_stash_flow(stash, tag, env, replies, i),
            stash::recover_one_stash_flow(stash, tag, env, replies.push(next), i),
            replies,
            i + 1,
        ),
{
    if i + 1 < replies.len() {
        let message = stash::stash_message(stash, tag, replies[i].outcome->Ok_0.stdout@);
        lemma_commit_all_settled(message, env, replies, next, i + 2);
    }
}

proof fn lemma_autocommit_visit_settled(
    root: Seq<char>,
    path: Seq<char>,
    meta: registry::EntryView,
    dry_run: bool,
    known: Map<Seq<char>, registry::EntryView>,
    env: Seq<(Seq<char>, Seq<char>)>,
    replies: Seq<GitReply>,
    next: GitReply,
    i: int,
)
    requires
        0 <= i <= replies.len(),
    ensures
        settled(
            autocommit::run_one_flow(root, path, meta, dry_run, known, env, replies, i),
            autocommit::run_one_flow(
                root,
                path,
                meta,
                dry_run,
                known,
                env,
                replies.push(next),
                i,
            ),
            replies,
            i + 1,
        ),
{
    if i + 2 < replies.len() {
        let message = autocommit::auto_message(replies[i + 2].at.iso@);
        lemma_commit_all_settled(message, env, replies, next, i + 3);
        match commit::commit_all_flow(message, env, replies, i + 3) {
            Flow::Done(_, n) => {
                let branch = git_ops::branch_named(replies[i + 1].outcome->Ok_0)->Some_0;
                lemma_try_push_settled(branch, replies[n - 1].at.tag@, replies, next, n);
            },
            _ => {},
        }
    }
}

/// What was logged before a work tree was reached is the beginning of what is logged in the end.
proof fn lemma_autocommit_log_goes_on(
    root: Seq<char>,
    list: Seq<(Seq<char>, registry::EntryView)>,
    k: int,
    dry_run: bool,
    env: Seq<(Seq<char>, Seq<char>)>,
    so_far: Progress<autocommit::AutocommitView>,
    replies: Seq<GitReply>,
    i: int,
)
    ensures
        so_far.log.is_prefix_of(
            autocommit::run_from_flow(
                root,
                list,
                k,
                dry_run,
                env,
                so_far,
                replies,
                i,
            ).logged(),
        ),
    decreases list.len() - k,
{
    if k < list.len() {
        match autocommit::run_one_flow(
            root,
            list[k].0,
            list[k].1,
            dry_run,
            so_far.known,
            env,
            replies,
            i,
        ) {
            Flow::Run(_) => {},
            Flow::Done(Ok(visit), n) => {
                lemma_autocommit_log_goes_on(
                    root,
                    list,
                    k + 1,
                    dry_run,
                    env,
                    so_far.visited(list[k].0, visit),
                    replies,
                    n,
                );
            },
            Flow::Done(Err(why), n) => {
                lemma_autocommit_log_goes_on(
                    root,
                    list,
                    k + 1,
                    dry_run,
                    env,
                    so_far.visited(
                        list[k].0,
                        autocommit::untouched(
                            autocommit::failed_record(why, dry_run),
                            so_far.known,
                        ),
                    ),
                    replies,
                    n,
                );
            },
        }
    }
}

proof fn lemma_autocommit_pass_settled(
    root: Seq<char>,
    list: Seq<(Seq<char>, registry::EntryView)>,
    k: int,
    dry_run: bool,
    env: Seq<(Seq<char>, Seq<char>)>,
    so_far: Progress<autocommit::AutocommitView>,
    replies: Seq<GitReply>,
    next: GitReply,
    i: int,
)
    requires
        0 <= i <= replies.len(),
    ensures
        ({
            let early = autocommit::run_from_flow(
                root,
                list,
                k,
                dry_run,
                env,
                so_far,
                replies,
                i,
            );
            let late = autocommit::run_from_flow(
                root,
                list,
                k,
                dry_run,
                env,
                so_far,
                replies.push(next),
                i,
            );
            &&& early is Done ==> late == early
            &&& early.logged().is_prefix_of(late.logged())
        }),
    decreases list.len() - k,
{
    let more = replies.push(next);
    if k < list.len() {
        lemma_autocommit_visit_settled(
            root,
            list[k].0,
            list[k].1,
            dry_run,
            so_far.known,
            env,
            replies,
            next,
            i,
        );
        match autocommit::run_one_flow(
            root,
            list[k].0,
            list[k].1,
            dry_run,
            so_far.known,
            env,
            replies,
            i,
        ) {
            Flow::Run(_) => {
                lemma_autocommit_log_goes_on(root, list, k, dry_run, env, so_far, more, i);
            },
            Flow::Done(Ok(visit), n) => {
                lemma_autocommit_pass_settled(
                    root,
                    list,
                    k + 1,
                    dry_run,
                    env,
                    so_far.visited(list[k].0, visit),
                    replies,
                    next,
                    n,
                );
            },
            Flow::Done(Err(why), n) => {
                lemma_autocommit_pass_settled(
                    root,
                    list,
                    k + 1,
                    dry_run,
                    env,
                    so_far.visited(
                        list[k].0,
                        autocommit::untouched(
                            autocommit::failed_record(why, dry_run),
                            so_far.known,
                        ),
                    ),
                    replies,
                    next,
                    n,
                );
            },
        }
    }
}

/// One more reply does not undo anything in an autocommit pass: what was logged stays the
/// beginning of what is logged, and a pass that is over stays as it is.
pub proof fn law_autocommit_pass_goes_on(
    root: Seq<char>,
    list: Seq<(Seq<char>, registry::EntryView)>,
    known: Map<Seq<char>, registry::EntryView>,
    dry_run: bool,
    env: Seq<(Seq<char>, Seq<char>)>,
    replies: Seq<GitReply>,
    next: GitReply,
)
    ensures
        ({
            let early = autocommit::run_flow(root, list, known, dry_run, env, replies);
            let late = autocommit::run_flow(root, list, known, dry_run, env, replies.push(next));
            &&& early is Done ==> late == early
            &&& early.logged().is_prefix_of(late.logged())
        }),
{
    lemma_autocommit_pass_settled(
        root,
        list,
        0,
        dry_run,
        env,
        Progress { records: Seq::empty(), known, log: Seq::empty() },
        replies,
        next,
        0,
    );
}

proof fn lemma_rescue_moves_on(
    root: Seq<char>,
    path: Seq<char>,
    names: Seq<Seq<char>>,
    k: int,
    dry_run: bool,
    env: Seq<(Seq<char>, Seq<char>)>,
    so_far: cleanup::Rescue,
    replies: Seq<GitReply>,
    i: int,
)
    ensures
        cleanup::rescue_flow(
            root,
            path,
            names,
            k,
            dry_run,
            env,
            so_far,
            replies,
            i,
        ) matches Flow::Done(_, n) ==> i <= n,
    decreases k,
{
    if k > 0 {
        if dry_run {
            lemma_rescue_moves_on(
                root,
                path,
                names,
                k - 1,
                dry_run,
                env,
                cleanup::Rescue { recovered: so_far.recovered + 1, ..so_far },
                replies,
                i,
            );
        } else {
            let tag = replies[i - 1].at.tag@;
            match stash::recover_one_stash_flow(names[k - 1], tag, env, replies, i) {
                Flow::Run(_) => {},
                Flow::Done(Ok(r), n) => {
                    lemma_rescue_moves_on(
                        root,
                        path,
                        names,
                        k - 1,
                        dry_run,
                        env,
                        so_far.tried(root, path, names[k - 1], r.0, r.1),
                        replies,
                        n,
                    );
                },
                Flow::Done(Err(why), n) => {
                    lemma_rescue_moves_on(
                        root,
                        path,
                        names,
                        k - 1,
                        dry_run,
                        env,
                        so_far.gave_up(names[k - 1], why),
                        replies,
                        n,
                    );
                },
            }
        }
    }
}

proof fn lemma_rescue_settled(
    root: Seq<char>,
    path: Seq<char>,
    names: Seq<Seq<char>>,
    k: int,
    dry_run: bool,
    env: Seq<(Seq<char>, Seq<char>)>,
    so_far: cleanup::Rescue,
    replies: Seq<GitReply>,
    next: GitReply,
    i: int,
)
    requires
        0 < i <= replies.len(),
    ensures
        settled(
            cleanup::rescue_flow(root, path, names, k, dry_run, env, so_far, replies, i),
            cleanup::rescue_flow(
                root,
                path,
                names,
                k,
                dry_run,
                env,
                so_far,
                replies.push(next),
                i,
            ),
            replies,
            i,
        ),
    decreases k,
{
    let more = replies.push(next);
    if k > 0 {
        if dry_run {
            lemma_rescue_settled(
                root,
                path,
                names,
                k - 1,
                dry_run,
                env,
                cleanup::Rescue { recovered: so_far.recovered + 1, ..so_far },
                replies,
                next,
                i,
            );
        } else {
            let tag = replies[i - 1].at.tag@;
            assert(more[i - 1] == replies[i - 1]);
            lemma_recovery_settled(names[k - 1], tag, env, replies, next, i);
            match stash::recover_one_stash_flow(names[k - 1], tag, env, replies, i) {
                Flow::Run(_) => {
                    match stash::recover_one_stash_flow(names[k - 1], tag, env, more, i) {
                        Flow::Run(_) => {},
                        Flow::Done(Ok(r), n) => {
                            lemma_rescue_moves_on(
                                root,
                                path,
                                names,
                                k - 1,
                                dry_run,
                                env,
                                so_far.tried(root, path, names[k - 1], r.0, r.1),
                                more,
                                n,
                            );
                        },
                        Flow::Done(Err(why), n) => {
                            lemma_rescue_moves_on(
                                root,
                                path,
                                names,
                                k - 1,
                                dry_run,
                                env,
                                so_far.gave_up(names[k - 1], why),
                                more,
                                n,
                            );
                        },
                    }
                },
                Flow::Done(Ok(r), n) => {
                    lemma_rescue_settled(
                        root,
                        path,
                        names,
                        k - 1,
                        dry_run,
                        env,
                        so_far.tried(root, path, names[k - 1], r.0, r.1),
                        replies,
                        next,
                        n,
                    );
                },
                Flow::Done(Err(why), n) => {
                    lemma_rescue_settled(
                        root,
                        path,
                        names,
                        k - 1,
                        dry_run,
                        env,
                        so_far.gave_up(names[k - 1], why),
                        replies,
                        next,
                        n,
                    );
                },
            }
        }
    }
}

proof fn lemma_push_ahead_settled(
    root: Seq<char>,
    path: Seq<char>,
    branch: Seq<char>,
    record: cleanup::CleanupView,
    dry_run: bool,
    known: Map<Seq<char>, registry::EntryView>,
    log: Seq<FileOp>,
    replies: Seq<GitReply>,
    next: GitReply,
    i: int,
)
    requires
        0 <= i <= replies.len(),
    ensures
        settled(
            cleanup::push_ahead_flow(
                root,
                path,
                branch,
                record,
                dry_run,
                known,
                log,
                replies,
                i,
            ),
            cleanup::push_ahead_flow(
                root,
                path,
                branch,
                record,
                dry_run,
                known,
                log,
                replies.push(next),
                i,
            ),
            replies,
            i + 1,
        ),
{
    lemma_questions_settled(branch, replies, next, i);
    if i < replies.len() {
        lemma_try_push_settled(branch, replies[i].at.tag@, replies, next, i + 1);
    }
}

proof fn lemma_push_ahead_moves_on(
    root: Seq<char>,
    path: Seq<char>,
    branch: Seq<char>,
    record: cleanup::CleanupView,
    dry_run: bool,
    known: Map<Seq<char>, registry::EntryView>,
    log: Seq<FileOp>,
    replies: Seq<GitReply>,
    i: int,
)
    ensures
        cleanup::push_ahead_flow(
            root,
            path,
            branch,
            record,
            dry_run,
            known,
            log,
            replies,
            i,
        ) matches Flow::Done(_, n) ==> i < n,
{
}

proof fn lemma_rescue_and_push_settled(
    root: Seq<char>,
    path: Seq<char>,
    branch: Seq<char>,
    seen: usize,
    names: Seq<Seq<char>>,
    dry_run: bool,
    known: Map<Seq<char>, registry::EntryView>,
    env: Seq<(Seq<char>, Seq<char>)>,
    replies: Seq<GitReply>,
    next: GitReply,
    i: int,
)
    requires
        0 < i <= replies.len(),
    ensures
        settled(
            cleanup::rescue_and_push_flow(
                root,
                path,
                branch,
                seen,
                names,
                dry_run,
                known,
                env,
                replies,
                i,
            ),
            cleanup::rescue_and_push_flow(
                root,
                path,
                branch,
                seen,
                names,
                dry_run,
                known,
                env,
                replies.push(next),
                i,
            ),
            replies,
            i + 1,
        ),
{
    let more = replies.push(next);
    let nothing = cleanup::Rescue::nothing();
    let k = names.len() as int;
    lemma_rescue_settled(root, path, names, k, dry_run, env, nothing, replies, next, i);
    let early = cleanup::rescue_flow(root, path, names, k, dry_run, env, nothing, replies, i);
    let late = cleanup::rescue_flow(root, path, names, k, dry_run, env, nothing, more, i);
    match late {
        Flow::Done(Ok(r), n) => {
            let record = cleanup::rescued_record(seen, r);
            if n <= replies.len() {
                assert(early == late);
                lemma_push_ahead_settled(
                    root,
                    path,
                    branch,
                    record,
                    dry_run,
                    known,
                    r.log,
                    replies,
                    next,
                    n,
                );
            } else {
                assert(early is Run);
                lemma_push_ahead_moves_on(
                    root,
                    path,
                    branch,
                    record,
                    dry_run,
                    known,
                    r.log,
                    more,
                    n,
                );
            }
        },
        Flow::Done(Err(_), _) => {
            cleanup::lemma_rescue_never_fails(
                root,
                path,
                names,
                names.len() as int,
                dry_run,
                env,
                nothing,
                more,
                i,
            );
        },
        Flow::Run(_) => {
            assert(early is Run);
        },
    }
}

proof fn lemma_rescue_and_push_moves_on(
    root: Seq<char>,
    path: Seq<char>,
    branch: Seq<char>,
    seen: usize,
    names: Seq<Seq<char>>,
    dry_run: bool,
    known: Map<Seq<char>, registry::EntryView>,
    env: Seq<(Seq<char>, Seq<char>)>,
    replies: Seq<GitReply>,
    i: int,
)
    ensures
        cleanup::rescue_and_push_flow(
            root,
            path,
            branch,
            seen,
            names,
            dry_run,
            known,
            env,
            replies,
            i,
        ) matches Flow::Done(_, n) ==> i <= n,
{
    let nothing = cleanup::Rescue::nothing();
    let k = names.len() as int;
    lemma_rescue_moves_on(root, path, names, k, dry_run, env, nothing, replies, i);
    match cleanup::rescue_flow(root, path, names, k, dry_run, env, nothing, replies, i) {
        Flow::Done(Ok(r), n) => {
            lemma_push_ahead_moves_on(
                root,
                path,
                branch,
                cleanup::rescued_record(seen, r),
                dry_run,
                known,
                r.log,
                replies,
                n,
            );
        },
        _ => {},
    }
}

proof fn lemma_stash_names_settled(
    seen: usize,
    replies: Seq<GitReply>,
    next: GitReply,
    i: int,
)
    requires
        0 <= i <= replies.len(),
    ensures
        settled(
            cleanup::stash_names_flow(seen, replies, i),
            cleanup::stash_names_flow(seen, replies.push(next), i),
            replies,
            i,
        ),
        !(cleanup::stash_names_flow(seen, replies.push(next), i) matches Flow::Done(Err(_), _)),
{
}

proof fn lemma_cleanup_work_settled(
    root: Seq<char>,
    path: Seq<char>,
    branch: Seq<char>,
    dry_run: bool,
    known: Map<Seq<char>, registry::EntryView>,
    env: Seq<(Seq<char>, Seq<char>)>,
    replies: Seq<GitReply>,
    next: GitReply,
    i: int,
)
    requires
        0 <= i <= replies.len(),
    ensures
        settled(
            cleanup::work_flow(root, path, branch, dry_run, known, env, replies, i),
            cleanup::work_flow(root, path, branch, dry_run, known, env, replies.push(next), i),
            replies,
            i + 1,
        ),
{
    let more = replies.push(next);
    let seen = match git_ops::stash_count_flow(more, i) {
        Flow::Done(Ok(seen), _) => seen,
        _ => 0usize,
    };
    if i < replies.len() {
        lemma_stash_names_settled(seen, replies, next, i + 1);
        match cleanup::stash_names_flow(seen, more, i + 1) {
            Flow::Done(Ok(names), n) => {
                if n <= replies.len() {
                    lemma_rescue_and_push_settled(
                        root,
                        path,
                        branch,
                        seen,
                        names,
                        dry_run,
                        known,
                        env,
                        replies,
                        next,
                        n,
                    );
                } else {
                    lemma_rescue_and_push_moves_on(
                        root,
                        path,
                        branch,
                        seen,
                        names,
                        dry_run,
                        known,
                        env,
                        more,
                        n,
                    );
                }
            },
            _ => {},
        }
    } else {
        match cleanup::stash_names_flow(seen, more, i + 1) {
            Flow::Done(Ok(names), n) => {
                lemma_rescue_and_push_moves_on(
                    root,
                    path,
                    branch,
                    seen,
                    names,
                    dry_run,
                    known,
                    env,
                    more,
                    n,
                );
            },
            _ => {},
        }
    }
}

pub(crate) proof fn lemma_cleanup_visit_settled(
    root: Seq<char>,
    path: Seq<char>,
    dry_run: bool,
    known: Map<Seq<char>, registry::EntryView>,
    env: Seq<(Seq<char>, Seq<char>)>,
    replies: Seq<GitReply>,
    next: GitReply,
    i: int,
)
    requires
        0 <= i <= replies.len(),
    ensures
        settled(
            cleanup::run_one_flow(root, path, dry_run, known, env, replies, i),
            cleanup::run_one_flow(root, path, dry_run, known, env, replies.push(next), i),
            replies,
            i + 1,
        ),
{
    if i + 1 < replies.len() {
        match git_ops::current_branch_flow(replies, i + 1) {
            Flow::Done(Ok(Some(branch)), _) => {
                lemma_cleanup_work_settled(
                    root,
                    path,
                    branch,
                    dry_run,
                    known,
                    env,
                    replies,
                    next,
                    i + 2,
                );
            },
            _ => {},
        }
    }
}

/// What was logged before a work tree was reached is the beginning of what is logged in the end.
proof fn lemma_cleanup_log_goes_on(
    root: Seq<char>,
    list: Seq<(Seq<char>, registry::EntryView)>,
    k: int,
    dry_run: bool,
    env: Seq<(Seq<char>, Seq<char>)>,
    so_far: Progress<cleanup::CleanupView>,
    replies: Seq<GitReply>,
    i: int,
)
    ensures
        so_far.log.is_prefix_of(
            cleanup::run_from_flow(
                root,
                list,
                k,
                dry_run,
                env,
                so_far,
                replies,
                i,
            ).logged(),
        ),
    decreases list.len() - k,
{
    if k < list.len() {
        match cleanup::run_one_flow(root, list[k].0, dry_run, so_far.known, env, replies, i) {
            Flow::Run(_) => {},
            Flow::Done(visit, n) => {
                lemma_cleanup_log_goes_on(
                    root,
                    list,
                    k + 1,
                    dry_run,
                    env,
                    so_far.visited(list[k].0, visit->Ok_0),
                    replies,
                    n,
                );
            },
        }
    }
}

proof fn lemma_cleanup_pass_settled(
    root: Seq<char>,
    list: Seq<(Seq<char>, registry::EntryView)>,
    k: int,
    dry_run: bool,
    env: Seq<(Seq<char>, Seq<char>)>,
    so_far: Progress<cleanup::CleanupView>,
    replies: Seq<GitReply>,
    next: GitReply,
    i: int,
)
    requires
        0 <= i <= replies.len(),
    ensures
        ({
            let early = cleanup::run_from_flow(
                root,
                list,
                k,
                dry_run,
                env,
                so_far,
                replies,
                i,
            );
            let late = cleanup::run_from_flow(
                root,
                list,
                k,
                dry_run,
                env,
                so_far,
                replies.push(next),
                i,
            );
            &&& early is Done ==> late == early
            &&& early.logged().is_prefix_of(late.logged())
        }),
    decreases list.len() - k,
{
    let more = replies.push(next);
    if k < list.len() {
        lemma_cleanup_visit_settled(
            root,
            list[k].0,
            dry_run,
            so_far.known,
            env,
            replies,
            next,
            i,
        );
        match cleanup::run_one_flow(root, list[k].0, dry_run, so_far.known, env, replies, i) {
            Flow::Run(_) => {
                lemma_cleanup_log_goes_on(root, list, k, dry_run, env, so_far, more, i);
            },
            Flow::Done(visit, n) => {
                lemma_cleanup_pass_settled(
                    root,
                    list,
                    k + 1,
                    dry_run,
                    env,
                    so_far.visited(list[k].0, visit->Ok_0),
                    replies,
                    next,
                    n,
                );
            },
        }
    }
}

/// One more reply does not undo anything in a cleanup pass: what was logged stays the beginning of
/// what is logged, and a pass that is over stays as it is.
pub proof fn law_cleanup_pass_goes_on(
    root: Seq<char>,
    list: Seq<(Seq<char>, registry::EntryView)>,
    known: Map<Seq<char>, registry::EntryView>,
    dry_run: bool,
    env: Seq<(Seq<char>, Seq<char>)>,
    replies: Seq<GitReply>,
    next: GitReply,
)
    ensures
        ({
            let early = cleanup::run_flow(root, list, known, dry_run, env, replies);
            let late = cleanup::run_flow(root, list, known, dry_run, env, replies.push(next));
            &&& early is Done ==> late == early
            &&& early.logged().is_prefix_of(late.logged())
        }),
{
    lemma_cleanup_pass_settled(
        root,
        list,
        0,
        dry_run,
        env,
        Progress { records: Seq::empty(), known, log: Seq::empty() },
        replies,
        next,
        0,
    );
}

/// Whether every work tree that `before` knew is still known, with the time of its registration.
pub open spec fn keeps_all(
    before: Map<Seq<char>, registry::EntryView>,
    after: Map<Seq<char>, registry::EntryView>,
) -> bool {
    forall|p: Seq<char>| #[trigger]
        before.contains_key(p) ==> after.contains_key(p) && (before[p].registered_at is Some
            ==> after[p].registered_at == before[p].registered_at)
}

proof fn lemma_keeps_all(
    first: Map<Seq<char>, registry::EntryView>,
    before: Map<Seq<char>, registry::EntryView>,
    after: Map<Seq<char>, registry::EntryView>,
    path: Seq<char>,
)
    requires
        keeps_all(first, before),
        registry::keeps(before, after, path),
    ensures
        keeps_all(first, after),
{
    assert forall|p: Seq<char>| #[trigger] first.contains_key(p) implies after.contains_key(p) && (
    first[p].registered_at is Some ==> after[p].registered_at == first[p].registered_at) by {
        assert(before.contains_key(p));
        if p != path {
            assert(before.remove(path).contains_key(p));
            assert(after.remove(path).contains_key(p));
            assert(before.remove(path)[p] == after.remove(path)[p]);
        }
    }
}

proof fn lemma_autocommit_pass_keeps(
    root: Seq<char>,
    list: Seq<(Seq<char>, registry::EntryView)>,
    k: int,
    dry_run: bool,
    env: Seq<(Seq<char>, Seq<char>)>,
    first: Map<Seq<char>, registry::EntryView>,
    so_far: Progress<autocommit::AutocommitView>,
    replies: Seq<GitReply>,
    i: int,
)
    requires
        keeps_all(first, so_far.known),
    ensures
        autocommit::run_from_flow(
            root,
            list,
            k,
            dry_run,
            env,
            so_far,
            replies,
            i,
        ) matches PassFlow::Done { save: Some(after), .. } ==> keeps_all(first, after),
    decreases list.len() - k,
{
    if k < list.len() {
        let path = list[k].0;
        autocommit::law_visit_keeps_registrations(
            root,
            path,
            list[k].1,
            dry_run,
            so_far.known,
            env,
            replies,
            i,
        );
        match autocommit::run_one_flow(
            root,
            path,
            list[k].1,
            dry_run,
            so_far.known,
            env,
            replies,
            i,
        ) {
            Flow::Run(_) => {},
            Flow::Done(Ok(visit), n) => {
                lemma_keeps_all(first, so_far.known, visit.known, path);
                lemma_autocommit_pass_keeps(
                    root,
                    list,
                    k + 1,
                    dry_run,
                    env,
                    first,
                    so_far.visited(path, visit),
                    replies,
                    n,
                );
            },
            Flow::Done(Err(why), n) => {
                lemma_autocommit_pass_keeps(
                    root,
                    list,
                    k + 1,
                    dry_run,
                    env,
                    first,
                    so_far.visited(
                        path,
                        autocommit::untouched(
                            autocommit::failed_record(why, dry_run),
                            so_far.known,
                        ),
                    ),
                    replies,
                    n,
                );
            },
        }
    }
}

proof fn lemma_cleanup_pass_keeps(
    root: Seq<char>,
    list: Seq<(Seq<char>, registry::EntryView)>,
    k: int,
    dry_run: bool,
    env: Seq<(Seq<char>, Seq<char>)>,
    first: Map<Seq<char>, registry::EntryView>,
    so_far: Progress<cleanup::CleanupView>,
    replies: Seq<GitReply>,
    i: int,
)
    requires
        keeps_all(first, so_far.known),
    ensures
        cleanup::run_from_flow(
            root,
            list,
            k,
            dry_run,
            env,
            so_far,
            replies,
            i,
        ) matches PassFlow::Done { save: Some(after), .. } ==> keeps_all(first, after),
    decreases list.len() - k,
{
    if k < list.len() {
        let path = list[k].0;
        cleanup::law_visit_keeps_registrations(
            root,
            path,
            dry_run,
            so_far.known,
            env,
            replies,
            i,
        );
        cleanup::law_visit_never_fails(root, path, dry_run, so_far.known, env, replies, i);
        match cleanup::run_one_flow(root, path, dry_run, so_far.known, env, replies, i) {
            Flow::Run(_) => {},
            Flow::Done(visit, n) => {
                lemma_keeps_all(first, so_far.known, visit->Ok_0.known, path);
                lemma_cleanup_pass_keeps(
                    root,
                    list,
                    k + 1,
                    dry_run,
                    env,
                    first,
                    so_far.visited(path, visit->Ok_0),
                    replies,
                    n,
                );
            },
        }
    }
}

/// A pass forgets no work tree: every one that was registered before is in the registry that is
/// saved, with the time of its registration.
pub proof fn law_passes_keep_registrations(
    root: Seq<char>,
    list: Seq<(Seq<char>, registry::EntryView)>,
    known: Map<Seq<char>, registry::EntryView>,
    dry_run: bool,
    env: Seq<(Seq<char>, Seq<char>)>,
    replies: Seq<GitReply>,
)
    ensures
        autocommit::run_flow(
            root,
            list,
            known,
            dry_run,
            env,
            replies,
        ) matches PassFlow::Done { save: Some(after), .. } ==> keeps_all(known, after),
        cleanup::run_flow(
            root,
            list,
            known,
            dry_run,
            env,
            replies,
        ) matches PassFlow::Done { save: Some(after), .. } ==> keeps_all(known, after),
{
    lemma_autocommit_pass_keeps(
        root,
        list,
        0,
        dry_run,
        env,
        known,
        Progress { records: Seq::empty(), known, log: Seq::empty() },
        replies,
        0,
    );
    lemma_cleanup_pass_keeps(
        root,
        list,
        0,
        dry_run,
        env,
        known,
        Progress { records: Seq::empty(), known, log: Seq::empty() },
        replies,
        0,
    );
}

proof fn lemma_status_settled(
    path: Seq<char>,
    meta: registry::EntryView,
    replies: Seq<GitReply>,
    next: GitReply,
    i: int,
)
    requires
        0 <= i <= replies.len(),
    ensures
        settled(
            status::snapshot_repo_flow(path, meta, replies, i),
            status::snapshot_repo_flow(path, meta, replies.push(next), i),
            replies,
            i + 1,
        ),
{
    let more = replies.push(next);
    lemma_questions_settled(Seq::empty(), replies, next, i);
    match git_ops::current_branch_flow(replies, i) {
        Flow::Done(Ok(named), n1) => {
            lemma_questions_settled(Seq::empty(), replies, next, n1);
            match git_ops::primary_branch_flow(replies, n1) {
                Flow::Done(Ok(_), n2) => {
                    lemma_questions_settled(Seq::empty(), replies, next, n2);
                    match git_ops::dirty_count_flow(replies, n2) {
                        Flow::Done(Ok(_), n3) => {
                            let branch = crate::text::text_or(named, status::detached());
                            lemma_questions_settled(branch, replies, next, n3);
                            match status::counts_flow(branch, replies, n3) {
                                Flow::Done(Ok(_), n4) => {
                                    lemma_questions_settled(branch, replies, next, n4);
                                    match git_ops::stash_count_flow(replies, n4) {
                                        Flow::Done(Ok(_), n5) => {
                                            lemma_questions_settled(branch, replies, next, n5);
                                        },
                                        _ => {},
                                    }
                                },
                                _ => {},
                            }
                        },
                        _ => {},
                    }
                },
                _ => {},
            }
        },
        _ => {},
    }
}

proof fn lemma_work_tree_settled(
    index: Seq<char>,
    replies: Seq<GitReply>,
    next: GitReply,
    i: int,
)
    requires
        0 <= i <= replies.len(),
    ensures
        settled(
            snapshot::write_work_tree_flow(index, replies, i),
            snapshot::write_work_tree_flow(index, replies.push(next), i),
            replies,
            i + 1,
        ),
{
}

proof fn lemma_publish_settled(
    branch: Seq<char>,
    head: Seq<char>,
    commit: Seq<char>,
    replies: Seq<GitReply>,
    next: GitReply,
    i: int,
)
    requires
        0 <= i <= replies.len(),
    ensures
        settled(
            snapshot::publish_commit_flow(branch, head, commit, replies, i),
            snapshot::publish_commit_flow(branch, head, commit, replies.push(next), i),
            replies,
            i + 1,
        ),
{
}

proof fn lemma_snapshot_settled(
    branch: Seq<char>,
    requested: Option<Seq<char>>,
    index: Seq<char>,
    author: Seq<(Seq<char>, Seq<char>)>,
    replies: Seq<GitReply>,
    next: GitReply,
    i: int,
)
    requires
        0 <= i <= replies.len(),
    ensures
        settled(
            snapshot::create_snapshot_commit_flow(branch, requested, index, author, replies, i),
            snapshot::create_snapshot_commit_flow(
                branch,
                requested,
                index,
                author,
                replies.push(next),
                i,
            ),
            replies,
            i + 1,
        ),
{
    lemma_work_tree_settled(index, replies, next, i);
    match snapshot::write_work_tree_flow(index, replies, i) {
        Flow::Done(Ok(w), n1) => {
            let c = snapshot::commit_tree_command(
                w.1,
                w.0,
                snapshot::snapshot_message(requested, branch),
                snapshot::index_env(index) + author,
            );
            match snapshot::git_value_with_env_flow(c, "create snapshot commit"@, replies, n1) {
                Flow::Done(Ok(commit), n2) => {
                    lemma_publish_settled(branch, w.0, commit, replies, next, n2);
                },
                _ => {},
            }
        },
        _ => {},
    }
}

proof fn lemma_take_snapshot_settled(
    path: Seq<char>,
    branch: Seq<char>,
    message: Option<Seq<char>>,
    index: Seq<char>,
    env: Seq<(Seq<char>, Seq<char>)>,
    replies: Seq<GitReply>,
    next: GitReply,
    i: int,
)
    requires
        0 <= i <= replies.len(),
    ensures
        ({
            let early = cli::take_snapshot_flow(path, branch, message, index, env, replies, i);
            let late = cli::take_snapshot_flow(
                path,
                branch,
                message,
                index,
                env,
                replies.push(next),
                i,
            );
            early is Done ==> late == early
        }),
{
    lemma_snapshot_settled(branch, message, index, env, replies, next, i);
}

proof fn lemma_quickstatus_settled(
    list: Seq<(Seq<char>, registry::EntryView)>,
    k: int,
    dirty: nat,
    unpushed: nat,
    replies: Seq<GitReply>,
    next: GitReply,
    i: int,
)
    requires
        0 <= i <= replies.len(),
    ensures
        ({
            let early = cli::quickstatus_from_flow(list, k, dirty, unpushed, replies, i);
            let late = cli::quickstatus_from_flow(
                list,
                k,
                dirty,
                unpushed,
                replies.push(next),
                i,
            );
            early is Done ==> late == early
        }),
    decreases list.len() - k,
{
    if k < list.len() {
        lemma_status_settled(list[k].0, list[k].1, replies, next, i);
        match status::snapshot_repo_flow(list[k].0, list[k].1, replies, i) {
            Flow::Done(Ok(s), n) => {
                lemma_quickstatus_settled(
                    list,
                    k + 1,
                    if s.dirty > 0 {
                        dirty + 1
                    } else {
                        dirty
                    },
                    if s.ahead > 0 {
                        unpushed + 1
                    } else {
                        unpushed
                    },
                    replies,
                    next,
                    n,
                );
            },
            _ => {},
        }
    }
}

/// Whether `late` is `early` with one more reply.
pub open spec fn one_more_reply(early: Inputs, late: Inputs) -> bool {
    &&& late.home == early.home
    &&& late.cwd == early.cwd
    &&& late.author == early.author
    &&& late.started == early.started
    &&& late.registry == early.registry
    &&& late.index == early.index
    &&& late.replies@.len() == early.replies@.len() + 1
    &&& late.replies@ == early.replies@.push(late.replies@.last())
}

/// One more reply does not undo anything in a command: what was logged stays the beginning of what
/// is logged, and a command that has come to its end stays as it is.
pub proof fn law_command_goes_on(
    root: Seq<char>,
    command: Commands,
    early: Inputs,
    late: Inputs,
)
    requires
        one_more_reply(early, late),
    ensures
        cli::command_flow(root, command, early).0.is_prefix_of(
            cli::command_flow(root, command, late).0,
        ),
        cli::command_flow(root, command, early).1 is Done ==> cli::command_flow(
            root,
            command,
            late,
        ) == cli::command_flow(root, command, early),
{
    let replies = early.replies@;
    let next = late.replies@.last();
    let env = commit::author_env(early.author);
    match command {
        Commands::Register { .. } => {
            if replies.len() > 0 {
                lemma_register_settled(early, late);
            }
        },
        Commands::Status { repo_path } => {
            if let Some(Ok(registry)) = early.registry {
                if let Ok(path) = cli::path_of(early, repo_path@) {
                    lemma_status_settled(
                        path,
                        cli::known_of(registry@, path),
                        replies,
                        next,
                        0,
                    );
                }
            }
        },
        Commands::Snapshot { repo_path, message } => {
            if replies.len() > 0 {
                if let Ok(path) = cli::path_of(early, repo_path@) {
                    if let Some(Ok(index)) = early.index {
                        let at = replies[0].at;
                        assert(late.replies@[0] == replies[0]);
                        lemma_take_snapshot_settled(
                            path,
                            push::backup_name(at.tag@, at.id@),
                            message.deep_view(),
                            index@,
                            env,
                            replies,
                            next,
                            1,
                        );
                    }
                }
            }
        },
        Commands::Autocommit { dry_run } => {
            if let Some(Ok(registry)) = early.registry {
                law_autocommit_pass_goes_on(
                    root,
                    registry.listing(),
                    registry@,
                    dry_run,
                    env,
                    replies,
                    next,
                );
            }
        },
        Commands::Cleanup { dry_run } => {
            if let Some(Ok(registry)) = early.registry {
                law_cleanup_pass_goes_on(
                    root,
                    registry.listing(),
                    registry@,
                    dry_run,
                    env,
                    replies,
                    next,
                );
            }
        },
        Commands::Restore { branch, .. } => {
            lemma_try_push_settled(branch@, early.started.tag@, replies, next, 0);
        },
        Commands::Quickstatus => {
            if let Some(Ok(registry)) = early.registry {
                lemma_quickstatus_settled(registry.listing(), 0, 0, 0, replies, next, 0);
            }
        },
        _ => {},
    }
}

proof fn lemma_register_settled(early: Inputs, late: Inputs)
    requires
        one_more_reply(early, late),
        early.replies@.len() > 0,
    ensures
        forall|known: Map<Seq<char>, registry::EntryView>, path: Seq<char>|
            #[trigger] cli::register_known_flow(early.replies@, known, path, 1) is Done
                ==> cli::register_known_flow(late.replies@, known, path, 1)
                == cli::register_known_flow(early.replies@, known, path, 1),
{
    let replies = early.replies@;
    let next = late.replies@.last();
    lemma_questions_settled(Seq::empty(), replies, next, 1);
    if replies.len() > 1 {
        lemma_questions_settled(Seq::empty(), replies, next, 2);
        match git_ops::primary_branch_flow(replies, 2) {
            Flow::Done(_, n) => {
                lemma_questions_settled(Seq::empty(), replies, next, n);
            },
            _ => {},
        }
    }
}

} // verus!
