//! No stash is lost: what holds of the recovery of stashes.
use crate::cleanup;
use crate::commit;
use crate::flow;
use crate::flow::{Flow, GitReply};
use crate::git_ops;
use crate::pass::{PassFlow, Progress};
use crate::policy;
use crate::push;
use crate::registry;
use crate::replay;
use crate::stash;
use crate::state::FileOp;
use vstd::prelude::*;

verus! {

/// The command that a conversation asks for, if it is not over.
pub open spec fn asked<T>(f: Flow<T>) -> Option<flow::Command> {
    match f {
        Flow::Run(c) => Some(c),
        Flow::Done(_, _) => None,
    }
}

/// Whether a command names a stash: to show it, to apply it or to drop it.
pub open spec fn asks_for(c: flow::Command, stash: Seq<char>) -> bool {
    ||| c == stash::show_command(stash)
    ||| c == stash::apply_command(stash)
    ||| c == stash::drop_command(stash)
}

/// Whether the last three commands have brought work to safety, and went well: a commit, a new
/// branch at that commit, and a push of that branch. They are the ones that were asked for without
/// the last three replies, without the last two, and without the last one.
pub open spec fn work_is_kept(
    three: Option<flow::Command>,
    two: Option<flow::Command>,
    one: Option<flow::Command>,
    replies: Seq<GitReply>,
) -> bool {
    let n = replies.len() as int;
    &&& n >= 3
    &&& policy::went_well(replies[n - 3])
    &&& policy::went_well(replies[n - 2])
    &&& policy::went_well(replies[n - 1])
    &&& three matches Some(c) && c == commit::commit_command(c.args[2], c.env)
    &&& one matches Some(p) && p == push::upstream_command(p.args[3]) && two == Some(
        commit::branch_command(p.args[3]),
    )
}

proof fn lemma_recovery_drops_after_push(
    stash: Seq<char>,
    tag: Seq<char>,
    env: Seq<(Seq<char>, Seq<char>)>,
    replies: Seq<GitReply>,
    i: int,
)
    requires
        0 <= i <= replies.len(),
        stash::recover_one_stash_flow(stash, tag, env, replies, i) matches Flow::Run(c)
            && policy::drops(c),
    ensures
        replies.len() == i + 7,
        stash::recover_one_stash_flow(stash, tag, env, replies, i) == Flow::<
            stash::RecoveryView,
        >::Run(stash::drop_command(stash)),
        policy::went_well(replies[i + 4]),
        policy::went_well(replies[i + 5]),
        policy::went_well(replies[i + 6]),
        ({
            let branch = stash::stash_branch(tag, replies[i + 1].at.id@);
            let message = stash::stash_message(stash, tag, replies[i].outcome->Ok_0.stdout@);
            &&& stash::recover_one_stash_flow(stash, tag, env, replies.take(i + 4), i) == Flow::<
                stash::RecoveryView,
            >::Run(commit::commit_command(message, env))
            &&& stash::recover_one_stash_flow(stash, tag, env, replies.take(i + 5), i) == Flow::<
                stash::RecoveryView,
            >::Run(commit::branch_command(branch))
            &&& stash::recover_one_stash_flow(stash, tag, env, replies.take(i + 6), i) == Flow::<
                stash::RecoveryView,
            >::Run(push::upstream_command(branch))
        }),
{
    reveal_strlit("stash");
    reveal_strlit("apply");
    reveal_strlit("drop");
    reveal_strlit("branch");
    reveal_strlit("diff");
    assert(stash::apply_command(stash).args[1].len() == 5);
    let branch = stash::stash_branch(tag, replies[i + 1].at.id@);
    assert(commit::branch_command(branch).args[0].len() == 6);
    assert(flow::plain(seq!["diff"@, "--cached"@, "--quiet"@]).args[0].len() == 4);
    assert(flow::plain(seq!["add"@, "-A"@]).args.len() == 2);
    assert(stash::show_command(stash).args.len() == 4);
    assert(push::upstream_command(branch).args.len() == 4);
    let message = stash::stash_message(stash, tag, replies[i].outcome->Ok_0.stdout@);
    assert(commit::commit_command(message, env).args.len() == 4);
    assert(replies.len() == i + 7);
}

/// In the recovery of one stash the stash is dropped only after its work was brought to safety.
/// Where the next command drops a stash, it drops this one; and the last three commands, which all
/// went well, have committed the applied stash, made the branch for it at that commit, and pushed
/// that branch.
pub proof fn law_stash_dropped_only_after_push(
    stash: Seq<char>,
    tag: Seq<char>,
    env: Seq<(Seq<char>, Seq<char>)>,
    replies: Seq<GitReply>,
    i: int,
)
    requires
        0 <= i <= replies.len(),
    ensures
        stash::recover_one_stash_flow(stash, tag, env, replies, i) matches Flow::Run(c)
            ==> policy::drops(c) ==> {
            let last = replies.len() - 1;
            let branch = stash::stash_branch(tag, replies[i + 1].at.id@);
            let message = stash::stash_message(stash, tag, replies[i].outcome->Ok_0.stdout@);
            &&& c == stash::drop_command(stash)
            &&& last - 2 > i
            &&& stash::recover_one_stash_flow(stash, tag, env, replies.take(last - 2), i) == Flow::<
                stash::RecoveryView,
            >::Run(commit::commit_command(message, env))
            &&& stash::recover_one_stash_flow(stash, tag, env, replies.take(last - 1), i) == Flow::<
                stash::RecoveryView,
            >::Run(commit::branch_command(branch))
            &&& stash::recover_one_stash_flow(stash, tag, env, replies.take(last), i) == Flow::<
                stash::RecoveryView,
            >::Run(push::upstream_command(branch))
            &&& policy::went_well(replies[last - 2])
            &&& policy::went_well(replies[last - 1])
            &&& policy::went_well(replies[last])
        },
{
    match stash::recover_one_stash_flow(stash, tag, env, replies, i) {
        Flow::Run(c) => {
            if policy::drops(c) {
                lemma_recovery_drops_after_push(stash, tag, env, replies, i);
            }
        },
        _ => {},
    }
}

/// The recovery of a stash with all replies, and with those up to number `m`.
proof fn lemma_recovery_cut(
    stash: Seq<char>,
    tag: Seq<char>,
    env: Seq<(Seq<char>, Seq<char>)>,
    replies: Seq<GitReply>,
    m: int,
    i: int,
)
    requires
        0 <= i <= m <= replies.len(),
    ensures
        replay::settled(
            stash::recover_one_stash_flow(stash, tag, env, replies.take(m), i),
            stash::recover_one_stash_flow(stash, tag, env, replies, i),
            replies.take(m),
            i + 1,
        ),
    decreases replies.len() - m,
{
    if m == replies.len() {
        assert(replies.take(m) =~= replies);
        replay::lemma_recovery_settled(stash, tag, env, replies, arbitrary(), i);
    } else {
        lemma_recovery_cut(stash, tag, env, replies, m + 1, i);
        replay::lemma_recovery_settled(stash, tag, env, replies.take(m), replies[m], i);
        assert(replies.take(m).push(replies[m]) =~= replies.take(m + 1));
    }
}

/// A visit with all replies, and with those up to number `m`.
#[verifier::spinoff_prover]
#[verifier::rlimit(50)]
proof fn lemma_visit_cut(
    root: Seq<char>,
    path: Seq<char>,
    dry_run: bool,
    known: Map<Seq<char>, registry::EntryView>,
    env: Seq<(Seq<char>, Seq<char>)>,
    replies: Seq<GitReply>,
    m: int,
    i: int,
)
    requires
        0 <= i <= m <= replies.len(),
    ensures
        replay::settled(
            cleanup::run_one_flow(root, path, dry_run, known, env, replies.take(m), i),
            cleanup::run_one_flow(root, path, dry_run, known, env, replies, i),
            replies.take(m),
            i + 1,
        ),
    decreases replies.len() - m,
{
    if m == replies.len() {
        assert(replies.take(m) =~= replies);
        replay::lemma_cleanup_visit_settled(
            root,
            path,
            dry_run,
            known,
            env,
            replies,
            arbitrary(),
            i,
        );
    } else {
        lemma_visit_cut(root, path, dry_run, known, env, replies, m + 1, i);
        replay::lemma_cleanup_visit_settled(
            root,
            path,
            dry_run,
            known,
            env,
            replies.take(m),
            replies[m],
            i,
        );
        assert(replies.take(m).push(replies[m]) =~= replies.take(m + 1));
    }
}

proof fn lemma_rescue_drops_after_push(
    root: Seq<char>,
    path: Seq<char>,
    names: Seq<Seq<char>>,
    k: int,
    dry_run: bool,
    env: Seq<(Seq<char>, Seq<char>)>,
    so_far: cleanup::Rescue,
    replies: Seq<GitReply>,
    i: int,
)
    requires
        0 < i <= replies.len(),
        cleanup::rescue_flow(
            root,
            path,
            names,
            k,
            dry_run,
            env,
            so_far,
            replies,
            i,
        ) matches Flow::Run(c) && policy::drops(c),
    ensures
        replies.len() >= i + 7,
        ({
            let n = replies.len() as int;
            let cut = |m: int|
                asked(
                    cleanup::rescue_flow(
                        root,
                        path,
                        names,
                        k,
                        dry_run,
                        env,
                        so_far,
                        replies.take(m),
                        i,
                    ),
                );
            work_is_kept(cut(n - 3), cut(n - 2), cut(n - 1), replies)
        }),
    decreases k,
{
    let n = replies.len() as int;
    if dry_run {
        policy::lemma_rescue_commands(root, path, names, k, dry_run, env, so_far, replies, i);
    } else {
        let tag = replies[i - 1].at.tag@;
        match stash::recover_one_stash_flow(names[k - 1], tag, env, replies, i) {
            Flow::Run(c) => {
                lemma_recovery_drops_after_push(names[k - 1], tag, env, replies, i);
                let branch = stash::stash_branch(tag, replies[i + 1].at.id@);
                let message = stash::stash_message(
                    names[k - 1],
                    tag,
                    replies[i].outcome->Ok_0.stdout@,
                );
                assert(push::upstream_command(branch).args[3] == branch);
                assert(commit::commit_command(message, env).args[2] == message);
                assert(replies.take(n - 3)[i - 1] == replies[i - 1]);
                assert(replies.take(n - 2)[i - 1] == replies[i - 1]);
                assert(replies.take(n - 1)[i - 1] == replies[i - 1]);
            },
            Flow::Done(outcome, m) => {
                let after = match outcome {
                    Ok(r) => so_far.tried(root, path, names[k - 1], r.0, r.1),
                    Err(why) => so_far.gave_up(names[k - 1], why),
                };
                lemma_recovery_cut(names[k - 1], tag, env, replies, n, i);
                assert(replies.take(n) =~= replies);
                lemma_rescue_drops_after_push(
                    root,
                    path,
                    names,
                    k - 1,
                    dry_run,
                    env,
                    after,
                    replies,
                    m,
                );
                lemma_recovery_cut(names[k - 1], tag, env, replies, n - 3, i);
                lemma_recovery_cut(names[k - 1], tag, env, replies, n - 2, i);
                lemma_recovery_cut(names[k - 1], tag, env, replies, n - 1, i);
                assert(replies.take(n - 3)[i - 1] == replies[i - 1]);
                assert(replies.take(n - 2)[i - 1] == replies[i - 1]);
                assert(replies.take(n - 1)[i - 1] == replies[i - 1]);
            },
        }
    }
}

proof fn lemma_push_ahead_names_no_stash(
    root: Seq<char>,
    path: Seq<char>,
    branch: Seq<char>,
    record: cleanup::CleanupView,
    dry_run: bool,
    known: Map<Seq<char>, registry::EntryView>,
    log: Seq<FileOp>,
    replies: Seq<GitReply>,
    i: int,
)
    ensures
        cleanup::push_ahead_flow(
            root,
            path,
            branch,
            record,
            dry_run,
            known,
            log,
            replies,
            i,
        ) matches Flow::Run(c) ==> c.args[0] != "stash"@,
{
    policy::lemma_subcommands_differ();
    policy::lemma_try_push_secures(branch, replies[i].at.tag@, replies, i + 1);
}

/// The stashes that a visit counts, and the names that it then lists, with the number of replies
/// used up to there.
pub open spec fn listed(replies: Seq<GitReply>, i: int) -> (usize, Flow<Seq<Seq<char>>>) {
    let seen = match git_ops::stash_count_flow(replies, i + 2) {
        Flow::Done(Ok(seen), _) => seen,
        _ => 0usize,
    };
    (seen, cleanup::stash_names_flow(seen, replies, i + 3))
}

/// The part of a visit that brings the listed stashes to safety.
pub open spec fn rescue_in_visit(
    root: Seq<char>,
    path: Seq<char>,
    dry_run: bool,
    env: Seq<(Seq<char>, Seq<char>)>,
    replies: Seq<GitReply>,
    names: Seq<Seq<char>>,
    n: int,
) -> Flow<cleanup::Rescue> {
    cleanup::rescue_flow(
        root,
        path,
        names,
        names.len() as int,
        dry_run,
        env,
        cleanup::Rescue::nothing(),
        replies,
        n,
    )
}

/// Where a visit asks for a command on a stash, other than to list them, it is bringing the listed
/// stashes to safety.
#[verifier::spinoff_prover]
#[verifier::rlimit(60)]
proof fn lemma_visit_is_rescuing(
    root: Seq<char>,
    path: Seq<char>,
    dry_run: bool,
    known: Map<Seq<char>, registry::EntryView>,
    env: Seq<(Seq<char>, Seq<char>)>,
    replies: Seq<GitReply>,
    i: int,
)
    requires
        0 <= i <= replies.len(),
        cleanup::run_one_flow(root, path, dry_run, known, env, replies, i) matches Flow::Run(c)
            && c.args.len() >= 3 && c.args[0] == "stash"@ && c.args[1] != "list"@,
    ensures
        i + 2 < replies.len(),
        cleanup::run_one_flow(root, path, dry_run, known, env, replies, i) matches Flow::Run(c)
            && listed(replies, i).1 matches Flow::Done(Ok(names), n) && i + 3 <= n
            <= replies.len() && (listed(replies, i).0 != 0 ==> n == i + 4) && rescue_in_visit(
            root,
            path,
            dry_run,
            env,
            replies,
            names,
            n,
        ) == Flow::<cleanup::Rescue>::Run(c),
{
    policy::lemma_subcommands_differ();
    let c = asked(cleanup::run_one_flow(root, path, dry_run, known, env, replies, i))->0;
    assert(flow::plain(seq!["stash"@, "list"@]).args.len() == 2);
    assert(cleanup::stash_names_command().args[1] == "list"@);
    assert(i + 2 < replies.len());
    let branch = git_ops::branch_named(replies[i + 1].outcome->Ok_0)->Some_0;
    let seen = listed(replies, i).0;
    match listed(replies, i).1 {
        Flow::Done(Ok(names), n) => {
            match rescue_in_visit(root, path, dry_run, env, replies, names, n) {
                Flow::Run(_) => {},
                Flow::Done(Ok(r), m) => {
                    lemma_push_ahead_names_no_stash(
                        root,
                        path,
                        branch,
                        cleanup::rescued_record(seen, r),
                        dry_run,
                        known,
                        r.log,
                        replies,
                        m,
                    );
                },
                _ => {},
            }
        },
        _ => {},
    }
}

/// A visit that is bringing the listed stashes to safety does so with fewer replies as well, as
/// long as the stashes were listed.
proof fn lemma_visit_cut_is_rescuing(
    root: Seq<char>,
    path: Seq<char>,
    dry_run: bool,
    known: Map<Seq<char>, registry::EntryView>,
    env: Seq<(Seq<char>, Seq<char>)>,
    replies: Seq<GitReply>,
    names: Seq<Seq<char>>,
    n: int,
    m: int,
    i: int,
)
    requires
        0 <= i,
        i + 3 <= n <= m <= replies.len(),
        listed(replies, i).1 == Flow::<Seq<Seq<char>>>::Done(Ok(names), n),
        listed(replies, i).0 != 0 ==> n == i + 4,
        git_ops::is_inside_work_tree_flow(replies, i) matches Flow::Done(Ok(true), _),
        git_ops::current_branch_flow(replies, i + 1) matches Flow::Done(Ok(Some(_)), _),
        rescue_in_visit(root, path, dry_run, env, replies.take(m), names, n) is Run,
    ensures
        asked(cleanup::run_one_flow(root, path, dry_run, known, env, replies.take(m), i)) == asked(
            rescue_in_visit(root, path, dry_run, env, replies.take(m), names, n),
        ),
{
    let cut = replies.take(m);
    assert(cut[i] == replies[i] && cut[i + 1] == replies[i + 1] && cut[i + 2] == replies[i + 2]);
    if listed(replies, i).0 != 0 {
        assert(cut[i + 3] == replies[i + 3]);
    }
    assert(listed(cut, i) == listed(replies, i));
}

proof fn lemma_visit_drops_after_push(
    root: Seq<char>,
    path: Seq<char>,
    dry_run: bool,
    known: Map<Seq<char>, registry::EntryView>,
    env: Seq<(Seq<char>, Seq<char>)>,
    replies: Seq<GitReply>,
    i: int,
)
    requires
        0 <= i <= replies.len(),
        cleanup::run_one_flow(root, path, dry_run, known, env, replies, i) matches Flow::Run(c)
            && policy::drops(c),
    ensures
        replies.len() >= i + 7,
        ({
            let n = replies.len() as int;
            let cut = |m: int|
                asked(
                    cleanup::run_one_flow(root, path, dry_run, known, env, replies.take(m), i),
                );
            work_is_kept(cut(n - 3), cut(n - 2), cut(n - 1), replies)
        }),
{
    reveal_strlit("list");
    reveal_strlit("drop");
    assert("list"@[0] == 'l' && "drop"@[0] == 'd');
    let len = replies.len() as int;
    lemma_visit_is_rescuing(root, path, dry_run, known, env, replies, i);
    match listed(replies, i).1 {
        Flow::Done(Ok(names), n) => {
            lemma_rescue_drops_after_push(
                root,
                path,
                names,
                names.len() as int,
                dry_run,
                env,
                cleanup::Rescue::nothing(),
                replies,
                n,
            );
            lemma_visit_cut_is_rescuing(
                root,
                path,
                dry_run,
                known,
                env,
                replies,
                names,
                n,
                len - 3,
                i,
            );
            lemma_visit_cut_is_rescuing(
                root,
                path,
                dry_run,
                known,
                env,
                replies,
                names,
                n,
                len - 2,
                i,
            );
            lemma_visit_cut_is_rescuing(
                root,
                path,
                dry_run,
                known,
                env,
                replies,
                names,
                n,
                len - 1,
                i,
            );
        },
        _ => {},
    }
}

/// The command that a pass asks for in the directory `repo`, if it asks for one there.
pub open spec fn asked_in<V>(f: PassFlow<V>, repo: Seq<char>) -> Option<flow::Command> {
    match f {
        PassFlow::Git { repo: there, command, .. } => if there == repo {
            Some(command)
        } else {
            None
        },
        PassFlow::Done { .. } => None,
    }
}

proof fn lemma_pass_drops_after_push(
    root: Seq<char>,
    list: Seq<(Seq<char>, registry::EntryView)>,
    k: int,
    dry_run: bool,
    env: Seq<(Seq<char>, Seq<char>)>,
    so_far: Progress<cleanup::CleanupView>,
    replies: Seq<GitReply>,
    i: int,
)
    requires
        0 <= i <= replies.len(),
        cleanup::run_from_flow(
            root,
            list,
            k,
            dry_run,
            env,
            so_far,
            replies,
            i,
        ) matches PassFlow::Git { command, .. } && policy::drops(command),
    ensures
        replies.len() >= i + 7,
        cleanup::run_from_flow(
            root,
            list,
            k,
            dry_run,
            env,
            so_far,
            replies,
            i,
        ) matches PassFlow::Git { repo, .. } && ({
            let n = replies.len() as int;
            let cut = |m: int|
                asked_in(
                    cleanup::run_from_flow(
                        root,
                        list,
                        k,
                        dry_run,
                        env,
                        so_far,
                        replies.take(m),
                        i,
                    ),
                    repo,
                );
            work_is_kept(cut(n - 3), cut(n - 2), cut(n - 1), replies)
        }),
    decreases list.len() - k,
{
    let len = replies.len() as int;
    let path = list[k].0;
    match cleanup::run_one_flow(root, path, dry_run, so_far.known, env, replies, i) {
        Flow::Run(_) => {
            lemma_visit_drops_after_push(root, path, dry_run, so_far.known, env, replies, i);
        },
        Flow::Done(visit, n) => {
            lemma_visit_cut(root, path, dry_run, so_far.known, env, replies, len, i);
            assert(replies.take(len) =~= replies);
            lemma_pass_drops_after_push(
                root,
                list,
                k + 1,
                dry_run,
                env,
                so_far.visited(path, visit->Ok_0),
                replies,
                n,
            );
            lemma_visit_cut(root, path, dry_run, so_far.known, env, replies, len - 3, i);
            lemma_visit_cut(root, path, dry_run, so_far.known, env, replies, len - 2, i);
            lemma_visit_cut(root, path, dry_run, so_far.known, env, replies, len - 1, i);
        },
    }
}

/// In a whole cleanup pass a stash is dropped only after its work was brought to safety: where the
/// next command drops a stash, the last three commands in the same work tree, which all went well,
/// were a commit, a new branch at that commit, and a push of that branch.
pub proof fn law_pass_drops_only_after_push(
    root: Seq<char>,
    list: Seq<(Seq<char>, registry::EntryView)>,
    known: Map<Seq<char>, registry::EntryView>,
    dry_run: bool,
    env: Seq<(Seq<char>, Seq<char>)>,
    replies: Seq<GitReply>,
)
    requires
        cleanup::run_flow(
            root,
            list,
            known,
            dry_run,
            env,
            replies,
        ) matches PassFlow::Git { command, .. } && policy::drops(command),
    ensures
        cleanup::run_flow(
            root,
            list,
            known,
            dry_run,
            env,
            replies,
        ) matches PassFlow::Git { repo, .. } && ({
            let n = replies.len() as int;
            let cut = |m: int|
                asked_in(
                    cleanup::run_flow(root, list, known, dry_run, env, replies.take(m)),
                    repo,
                );
            work_is_kept(cut(n - 3), cut(n - 2), cut(n - 1), replies)
        }),
{
    lemma_pass_drops_after_push(
        root,
        list,
        0,
        dry_run,
        env,
        Progress { records: Seq::empty(), known, log: Seq::empty() },
        replies,
        0,
    );
}

proof fn lemma_recovery_names_its_stash(
    stash: Seq<char>,
    tag: Seq<char>,
    env: Seq<(Seq<char>, Seq<char>)>,
    replies: Seq<GitReply>,
    i: int,
)
    requires
        0 <= i,
        stash::recover_one_stash_flow(stash, tag, env, replies, i) is Run,
    ensures
        replies.len() <= i + 7,
        stash::recover_one_stash_flow(stash, tag, env, replies, i) matches Flow::Run(c)
            && forall|s: Seq<char>| #[trigger] asks_for(c, s) ==> s == stash,
{
    policy::lemma_subcommands_differ();
    reveal_strlit("show");
    reveal_strlit("apply");
    reveal_strlit("drop");
    assert("show"@[0] == 's' && "drop"@[0] == 'd');
    let c = asked(stash::recover_one_stash_flow(stash, tag, env, replies, i))->0;
    let branch = stash::stash_branch(tag, replies[i + 1].at.id@);
    let message = stash::stash_message(stash, tag, replies[i].outcome->Ok_0.stdout@);
    assert(c == stash::show_command(stash) || c == stash::apply_command(stash) || c
        == stash::drop_command(stash) || c == flow::plain(seq!["add"@, "-A"@]) || c
        == flow::plain(seq!["diff"@, "--cached"@, "--quiet"@]) || c == commit::commit_command(
        message,
        env,
    ) || c == commit::branch_command(branch) || c == push::upstream_command(branch));
    assert forall|s: Seq<char>| #[trigger] asks_for(c, s) implies s == stash by {
        assert(stash::show_command(s).args[0] == "stash"@ && stash::show_command(s).args[3] == s);
        assert(stash::apply_command(s).args[0] == "stash"@ && stash::apply_command(s).args[1]
            == "apply"@ && stash::apply_command(s).args[2] == s);
        assert(stash::drop_command(s).args[0] == "stash"@ && stash::drop_command(s).args[1]
            == "drop"@ && stash::drop_command(s).args[2] == s);
        assert(stash::show_command(stash).args[3] == stash);
        assert(stash::apply_command(stash).args[1] == "apply"@
            && stash::apply_command(stash).args[2] == stash);
        assert(stash::drop_command(stash).args[1] == "drop"@ && stash::drop_command(
            stash,
        ).args[2] == stash);
        assert(c.args[0] == "stash"@);
    }
}

/// Whether `d` drops a stash that is listed after `stash`.
pub open spec fn drops_later(names: Seq<Seq<char>>, stash: Seq<char>, d: flow::Command) -> bool {
    exists|a: int, b: int|
        0 <= a < b < names.len() && #[trigger] names[a] == stash && d == stash::drop_command(
            #[trigger] names[b],
        )
}

proof fn lemma_rescue_goes_down(
    root: Seq<char>,
    path: Seq<char>,
    names: Seq<Seq<char>>,
    k: int,
    dry_run: bool,
    env: Seq<(Seq<char>, Seq<char>)>,
    so_far: cleanup::Rescue,
    replies: Seq<GitReply>,
    i: int,
    p: int,
    stash: Seq<char>,
) -> (at: (int, int))
    requires
        0 < i <= p < replies.len(),
        0 <= k <= names.len(),
        cleanup::rescue_flow(
            root,
            path,
            names,
            k,
            dry_run,
            env,
            so_far,
            replies,
            i,
        ) matches Flow::Run(c) && asks_for(c, stash),
        cleanup::rescue_flow(
            root,
            path,
            names,
            k,
            dry_run,
            env,
            so_far,
            replies.take(p),
            i,
        ) matches Flow::Run(d) && policy::drops(d),
    ensures
        0 <= at.0 < at.1 < k,
        names[at.0] == stash,
        asked(
            cleanup::rescue_flow(
                root,
                path,
                names,
                k,
                dry_run,
                env,
                so_far,
                replies.take(p),
                i,
            ),
        ) == Some(stash::drop_command(names[at.1])),
    decreases k,
{
    let cut = replies.take(p);
    if dry_run {
        policy::lemma_rescue_commands(root, path, names, k, dry_run, env, so_far, replies, i);
        (0, 0)
    } else {
        let name = names[k - 1];
        let tag = replies[i - 1].at.tag@;
        assert(cut[i - 1] == replies[i - 1]);
        lemma_recovery_cut(name, tag, env, replies, p, i);
        match stash::recover_one_stash_flow(name, tag, env, cut, i) {
            Flow::Run(_) => {
                lemma_recovery_drops_after_push(name, tag, env, cut, i);
                match stash::recover_one_stash_flow(name, tag, env, replies, i) {
                    Flow::Run(_) => {
                        lemma_recovery_names_its_stash(name, tag, env, replies, i);
                        assert(false);
                        (0, 0)
                    },
                    Flow::Done(outcome, n) => {
                        let after = match outcome {
                            Ok(r) => so_far.tried(root, path, name, r.0, r.1),
                            Err(why) => so_far.gave_up(name, why),
                        };
                        let a = lemma_rescue_asks_below(
                            root,
                            path,
                            names,
                            k - 1,
                            env,
                            after,
                            replies,
                            n,
                            stash,
                        );
                        (a, k - 1)
                    },
                }
            },
            Flow::Done(outcome, n) => {
                let after = match outcome {
                    Ok(r) => so_far.tried(root, path, name, r.0, r.1),
                    Err(why) => so_far.gave_up(name, why),
                };
                lemma_rescue_goes_down(
                    root,
                    path,
                    names,
                    k - 1,
                    dry_run,
                    env,
                    after,
                    replies,
                    n,
                    p,
                    stash,
                )
            },
        }
    }
}

/// A stash that is asked for is one of those still to do.
proof fn lemma_rescue_asks_below(
    root: Seq<char>,
    path: Seq<char>,
    names: Seq<Seq<char>>,
    k: int,
    env: Seq<(Seq<char>, Seq<char>)>,
    so_far: cleanup::Rescue,
    replies: Seq<GitReply>,
    i: int,
    stash: Seq<char>,
) -> (at: int)
    requires
        0 < i,
        0 <= k <= names.len(),
        cleanup::rescue_flow(
            root,
            path,
            names,
            k,
            false,
            env,
            so_far,
            replies,
            i,
        ) matches Flow::Run(c) && asks_for(c, stash),
    ensures
        0 <= at < k,
        names[at] == stash,
    decreases k,
{
    let name = names[k - 1];
    let tag = replies[i - 1].at.tag@;
    match stash::recover_one_stash_flow(name, tag, env, replies, i) {
        Flow::Run(_) => {
            lemma_recovery_names_its_stash(name, tag, env, replies, i);
            k - 1
        },
        Flow::Done(outcome, n) => {
            let after = match outcome {
                Ok(r) => so_far.tried(root, path, name, r.0, r.1),
                Err(why) => so_far.gave_up(name, why),
            };
            lemma_rescue_asks_below(root, path, names, k - 1, env, after, replies, n, stash)
        },
    }
}

proof fn lemma_listed_cut(replies: Seq<GitReply>, p: int, i: int)
    requires
        0 <= i,
        i + 2 < p <= replies.len(),
        listed(replies.take(p), i).1 is Done,
    ensures
        listed(replies.take(p), i) == listed(replies, i),
{
    let cut = replies.take(p);
    assert(cut[i + 2] == replies[i + 2]);
    if listed(cut, i).0 != 0 {
        assert(i + 3 < p);
        assert(cut[i + 3] == replies[i + 3]);
    }
}

proof fn lemma_visit_goes_down(
    root: Seq<char>,
    path: Seq<char>,
    dry_run: bool,
    known: Map<Seq<char>, registry::EntryView>,
    env: Seq<(Seq<char>, Seq<char>)>,
    replies: Seq<GitReply>,
    p: int,
    i: int,
    stash: Seq<char>,
) -> (at: (int, int))
    requires
        0 <= i <= p < replies.len(),
        cleanup::run_one_flow(root, path, dry_run, known, env, replies, i) matches Flow::Run(c)
            && asks_for(c, stash),
        asked(
            cleanup::run_one_flow(root, path, dry_run, known, env, replies.take(p), i),
        ) matches Some(d) && policy::drops(d),
    ensures
        listed(replies, i).1 matches Flow::Done(Ok(names), n) && n <= p && 0 <= at.0 < at.1
            < names.len() && names[at.0] == stash && asked(
            cleanup::run_one_flow(root, path, dry_run, known, env, replies.take(p), i),
        ) == Some(stash::drop_command(names[at.1])),
{
    lemma_asking_is_no_list(stash);
    reveal_strlit("list");
    reveal_strlit("drop");
    assert("list"@[0] == 'l' && "drop"@[0] == 'd');
    lemma_visit_is_rescuing(root, path, dry_run, known, env, replies, i);
    lemma_visit_is_rescuing(root, path, dry_run, known, env, replies.take(p), i);
    lemma_listed_cut(replies, p, i);
    let names = listed(replies, i).1->Done_0->Ok_0;
    let n = listed(replies, i).1->Done_1;
    lemma_rescue_goes_down(
        root,
        path,
        names,
        names.len() as int,
        dry_run,
        env,
        cleanup::Rescue::nothing(),
        replies,
        n,
        p,
        stash,
    )
}

proof fn lemma_asking_is_no_list(stash: Seq<char>)
    ensures
        forall|c: flow::Command| #[trigger]
            asks_for(c, stash) ==> c.args.len() >= 3 && c.args[0] == "stash"@ && c.args[1]
                != "list"@,
{
    reveal_strlit("list");
    reveal_strlit("show");
    reveal_strlit("apply");
    reveal_strlit("drop");
    assert("list"@[0] == 'l' && "show"@[0] == 's' && "apply"@[0] == 'a' && "drop"@[0] == 'd');
    assert(stash::show_command(stash).args[1] == "show"@);
    assert(stash::apply_command(stash).args[1] == "apply"@);
    assert(stash::drop_command(stash).args[1] == "drop"@);
}

/// In one visit no stash is asked for after the drop of one that is listed before it: where the
/// next command shows, applies or drops `stash`, each stash that an earlier command of the visit
/// was to drop is listed after `stash`.
pub proof fn law_no_stash_asked_for_after_a_lower_drop(
    root: Seq<char>,
    path: Seq<char>,
    dry_run: bool,
    known: Map<Seq<char>, registry::EntryView>,
    env: Seq<(Seq<char>, Seq<char>)>,
    replies: Seq<GitReply>,
    p: int,
    i: int,
    stash: Seq<char>,
)
    requires
        0 <= i <= p < replies.len(),
        cleanup::run_one_flow(root, path, dry_run, known, env, replies, i) matches Flow::Run(c)
            && asks_for(c, stash),
    ensures
        asked(
            cleanup::run_one_flow(root, path, dry_run, known, env, replies.take(p), i),
        ) matches Some(d) ==> policy::drops(d) ==> (listed(replies, i).1 matches Flow::Done(Ok(names), _)
            && drops_later(names, stash, d)),
{
    match cleanup::run_one_flow(root, path, dry_run, known, env, replies.take(p), i) {
        Flow::Run(d) => {
            if policy::drops(d) {
                let at = lemma_visit_goes_down(
                    root,
                    path,
                    dry_run,
                    known,
                    env,
                    replies,
                    p,
                    i,
                    stash,
                );
            }
        },
        _ => {},
    }
}

/// The place of the stash that a command drops, where `names` has the name of every place.
pub open spec fn dropped_place(names: Seq<Seq<char>>, c: Option<flow::Command>) -> Option<int> {
    if exists|b: int|
        0 <= b < names.len() && c == Some(stash::drop_command(#[trigger] names[b])) {
        Some(
            choose|b: int|
                0 <= b < names.len() && c == Some(stash::drop_command(#[trigger] names[b])),
        )
    } else {
        None
    }
}

/// The stashes that git holds after the replies number `from` to `m`. Git names a stash by its
/// place, and a drop that goes well closes the gap: whatever then stands at place `b` is named
/// `names[b]`. `stack` is what git held at first, and `commands(p)` is the command that was asked
/// for after `p` replies.
pub open spec fn stack_after<S>(
    stack: Seq<S>,
    names: Seq<Seq<char>>,
    commands: spec_fn(int) -> Option<flow::Command>,
    replies: Seq<GitReply>,
    from: int,
    m: int,
) -> Seq<S>
    decreases m - from,
{
    if m <= from {
        stack
    } else {
        let before = stack_after(stack, names, commands, replies, from, m - 1);
        match dropped_place(names, commands(m - 1)) {
            Some(b) => if b < before.len() && policy::went_well(replies[m - 1]) {
                before.remove(b)
            } else {
                before
            },
            None => before,
        }
    }
}

proof fn lemma_dropped_place(names: Seq<Seq<char>>, b: int)
    requires
        names.no_duplicates(),
        0 <= b < names.len(),
    ensures
        dropped_place(names, Some(stash::drop_command(names[b]))) == Some(b),
        policy::drops(stash::drop_command(names[b])),
{
    let c = Some(stash::drop_command(names[b]));
    let other = dropped_place(names, c)->0;
    assert(stash::drop_command(names[b]).args[2] == names[b]);
    assert(stash::drop_command(names[other]).args[2] == names[other]);
}

proof fn lemma_no_place(names: Seq<Seq<char>>, c: flow::Command)
    requires
        !policy::drops(c),
    ensures
        dropped_place(names, Some(c)) is None,
{
    if dropped_place(names, Some(c)) is Some {
        let b = dropped_place(names, Some(c))->0;
        assert(policy::drops(stash::drop_command(names[b])));
    }
}

/// A drop of later places leaves the earlier ones as they are.
proof fn lemma_lower_places_stay<S>(
    stack: Seq<S>,
    names: Seq<Seq<char>>,
    commands: spec_fn(int) -> Option<flow::Command>,
    replies: Seq<GitReply>,
    from: int,
    m: int,
    a: int,
)
    requires
        0 <= a < stack.len(),
        forall|p: int|
            from <= p < m ==> (dropped_place(names, #[trigger] commands(p)) matches Some(b) ==> b
                > a),
    ensures
        stack_after(stack, names, commands, replies, from, m).len() > a,
        stack_after(stack, names, commands, replies, from, m)[a] == stack[a],
    decreases m - from,
{
    if m > from {
        lemma_lower_places_stay(stack, names, commands, replies, from, m - 1, a);
        let c = commands(m - 1);
    }
}

/// The commands of a visit: what it asks for after the first `p` replies.
pub open spec fn commands_of_visit(
    root: Seq<char>,
    path: Seq<char>,
    dry_run: bool,
    known: Map<Seq<char>, registry::EntryView>,
    env: Seq<(Seq<char>, Seq<char>)>,
    replies: Seq<GitReply>,
    i: int,
) -> spec_fn(int) -> Option<flow::Command> {
    |p: int| asked(cleanup::run_one_flow(root, path, dry_run, known, env, replies.take(p), i))
}

/// What a visit has dropped before it asks for a stash stood at a later place.
proof fn lemma_dropped_before(
    root: Seq<char>,
    path: Seq<char>,
    dry_run: bool,
    known: Map<Seq<char>, registry::EntryView>,
    env: Seq<(Seq<char>, Seq<char>)>,
    replies: Seq<GitReply>,
    names: Seq<Seq<char>>,
    p: int,
    i: int,
    stash: Seq<char>,
    a: int,
)
    requires
        0 <= i <= p < replies.len(),
        cleanup::run_one_flow(root, path, dry_run, known, env, replies, i) matches Flow::Run(c)
            && asks_for(c, stash),
        listed(replies, i).1 matches Flow::Done(Ok(all), _) && all == names,
        names.no_duplicates(),
        0 <= a < names.len(),
        names[a] == stash,
    ensures
        dropped_place(
            names,
            commands_of_visit(root, path, dry_run, known, env, replies, i)(p),
        ) matches Some(b) ==> b > a,
{
    let c = commands_of_visit(root, path, dry_run, known, env, replies, i)(p);
    if let Some(b) = dropped_place(names, c) {
        assert(c == Some(stash::drop_command(names[b])));
        lemma_dropped_place(names, b);
        let at = lemma_visit_goes_down(root, path, dry_run, known, env, replies, p, i, stash);
        lemma_dropped_place(names, at.1);
    }
}

/// A stash that a visit asks for is still the one that had this name when the stashes were
/// listed, whatever was dropped in between. `stack` is what git held when it listed `names`.
#[verifier::rlimit(50)]
pub proof fn law_stash_keeps_its_name<S>(
    root: Seq<char>,
    path: Seq<char>,
    dry_run: bool,
    known: Map<Seq<char>, registry::EntryView>,
    env: Seq<(Seq<char>, Seq<char>)>,
    replies: Seq<GitReply>,
    i: int,
    stack: Seq<S>,
    stash: Seq<char>,
)
    requires
        0 <= i <= replies.len(),
        cleanup::run_one_flow(root, path, dry_run, known, env, replies, i) matches Flow::Run(c)
            && asks_for(c, stash),
        listed(replies, i).1 matches Flow::Done(Ok(names), _) ==> names.no_duplicates()
            && names.len() == stack.len(),
    ensures
        listed(replies, i).1 matches Flow::Done(Ok(names), n) && exists|a: int|
            {
                let now = stack_after(
                    stack,
                    names,
                    commands_of_visit(root, path, dry_run, known, env, replies, i),
                    replies,
                    n,
                    replies.len() as int,
                );
                0 <= a < names.len() && #[trigger] names[a] == stash && a < now.len() && now[a]
                    == stack[a]
            },
{
    lemma_asking_is_no_list(stash);
    lemma_visit_is_rescuing(root, path, dry_run, known, env, replies, i);
    let names = listed(replies, i).1->Done_0->Ok_0;
    let n = listed(replies, i).1->Done_1;
    if dry_run {
        policy::lemma_rescue_commands(
            root,
            path,
            names,
            names.len() as int,
            dry_run,
            env,
            cleanup::Rescue::nothing(),
            replies,
            n,
        );
    }
    let a = lemma_rescue_asks_below(
        root,
        path,
        names,
        names.len() as int,
        env,
        cleanup::Rescue::nothing(),
        replies,
        n,
        stash,
    );
    let commands = commands_of_visit(root, path, dry_run, known, env, replies, i);
    assert forall|p: int| n <= p < replies.len() implies (dropped_place(
        names,
        #[trigger] commands(p),
    ) matches Some(b) ==> b > a) by {
        lemma_dropped_before(root, path, dry_run, known, env, replies, names, p, i, stash, a);
    }
    lemma_lower_places_stay(
        stack,
        names,
        commands,
        replies,
        n,
        replies.len() as int,
        a,
    );
}

/// Whether eight replies are those of a stash that can be recovered: it is shown and applied,
/// staged, found to change something, committed, put on a branch, pushed and dropped.
pub open spec fn recovers(replies: Seq<GitReply>, i: int) -> bool {
    &&& i + 8 <= replies.len()
    &&& policy::went_well(replies[i])
    &&& policy::went_well(replies[i + 1])
    &&& policy::went_well(replies[i + 2])
    &&& replies[i + 3].outcome matches Ok(diff) && !diff.succeeded()
    &&& policy::went_well(replies[i + 4])
    &&& policy::went_well(replies[i + 5])
    &&& policy::went_well(replies[i + 6])
    &&& policy::went_well(replies[i + 7])
}

/// Whether the replies from number `i` on are those of `k` stashes that can be recovered.
pub open spec fn all_recover(replies: Seq<GitReply>, k: int, i: int) -> bool {
    forall|t: int| 0 <= t < k ==> #[trigger] recovers(replies, i + 8 * t)
}

proof fn lemma_recovery_block(
    stash: Seq<char>,
    tag: Seq<char>,
    env: Seq<(Seq<char>, Seq<char>)>,
    replies: Seq<GitReply>,
    m: int,
    i: int,
)
    requires
        0 <= i <= m <= replies.len(),
        recovers(replies, i),
    ensures
        ({
            let cut = stash::recover_one_stash_flow(stash, tag, env, replies.take(m), i);
            if m >= i + 8 {
                &&& cut == stash::recover_one_stash_flow(stash, tag, env, replies, i)
                &&& cut matches Flow::Done(Ok(r), n) && r.0 && n == i + 8
            } else {
                cut matches Flow::Run(c) && (if m == i + 7 {
                    c == stash::drop_command(stash)
                } else {
                    !policy::drops(c)
                })
            }
        }),
{
    policy::lemma_subcommands_differ();
    reveal_strlit("show");
    reveal_strlit("apply");
    reveal_strlit("drop");
    assert("show"@[0] == 's' && "apply"@[0] == 'a' && "drop"@[0] == 'd');
    let cut = replies.take(m);
    assert(forall|j: int| 0 <= j < m ==> cut[j] == replies[j]);
    assert(stash::show_command(stash).args.len() == 4);
    assert(stash::apply_command(stash).args[1] == "apply"@);
}

proof fn lemma_rescue_recovers_all(
    root: Seq<char>,
    path: Seq<char>,
    names: Seq<Seq<char>>,
    k: int,
    env: Seq<(Seq<char>, Seq<char>)>,
    so_far: cleanup::Rescue,
    replies: Seq<GitReply>,
    i: int,
)
    requires
        0 < i <= replies.len(),
        0 <= k <= names.len(),
        all_recover(replies, k, i),
    ensures
        cleanup::rescue_flow(
            root,
            path,
            names,
            k,
            false,
            env,
            so_far,
            replies,
            i,
        ) matches Flow::Done(Ok(r), n) && n == i + 8 * k && n <= replies.len() && r.recovered
            == so_far.recovered + k && r.failed == so_far.failed && r.errors == so_far.errors,
    decreases k,
{
    if k > 0 {
        assert(recovers(replies, i + 8 * 0));
        let tag = replies[i - 1].at.tag@;
        lemma_recovery_block(names[k - 1], tag, env, replies, replies.len() as int, i);
        let r = stash::recover_one_stash_flow(names[k - 1], tag, env, replies, i)->Done_0->Ok_0;
        assert forall|t: int| 0 <= t < k - 1 implies #[trigger] recovers(
            replies,
            i + 8 + 8 * t,
        ) by {
            assert(recovers(replies, i + 8 * (t + 1)));
        }
        lemma_rescue_recovers_all(
            root,
            path,
            names,
            k - 1,
            env,
            so_far.tried(root, path, names[k - 1], r.0, r.1),
            replies,
            i + 8,
        );
    }
}

/// What is asked for while stashes are recovered: each eighth command drops the next stash.
proof fn lemma_rescue_commands_in_order(
    root: Seq<char>,
    path: Seq<char>,
    names: Seq<Seq<char>>,
    k: int,
    env: Seq<(Seq<char>, Seq<char>)>,
    so_far: cleanup::Rescue,
    replies: Seq<GitReply>,
    i: int,
    t: int,
    m: int,
)
    requires
        0 < i,
        0 <= t < k <= names.len(),
        all_recover(replies, k, i),
        i + 8 * t <= m < i + 8 * t + 8,
    ensures
        m < replies.len(),
        cleanup::rescue_flow(
            root,
            path,
            names,
            k,
            false,
            env,
            so_far,
            replies.take(m),
            i,
        ) matches Flow::Run(c) && (if m == i + 8 * t + 7 {
            c == stash::drop_command(names[k - 1 - t])
        } else {
            !policy::drops(c)
        }),
    decreases k,
{
    assert(recovers(replies, i + 8 * t));
    assert(recovers(replies, i + 8 * 0));
    let cut = replies.take(m);
    let tag = replies[i - 1].at.tag@;
    assert(cut[i - 1] == replies[i - 1]);
    lemma_recovery_block(names[k - 1], tag, env, replies, m, i);
    if t > 0 {
        let r = stash::recover_one_stash_flow(names[k - 1], tag, env, cut, i)->Done_0->Ok_0;
        assert forall|u: int| 0 <= u < k - 1 implies #[trigger] recovers(
            replies,
            i + 8 + 8 * u,
        ) by {
            assert(recovers(replies, i + 8 * (u + 1)));
        }
        lemma_rescue_commands_in_order(
            root,
            path,
            names,
            k - 1,
            env,
            so_far.tried(root, path, names[k - 1], r.0, r.1),
            replies,
            i + 8,
            t - 1,
            m,
        );
    }
}

/// After `t` stashes were recovered the last `t` are gone, and the others are where they were.
proof fn lemma_stack_shrinks<S>(
    stack: Seq<S>,
    names: Seq<Seq<char>>,
    commands: spec_fn(int) -> Option<flow::Command>,
    replies: Seq<GitReply>,
    from: int,
    t: int,
    m: int,
)
    requires
        names.no_duplicates(),
        names.len() == stack.len(),
        all_recover(replies, names.len() as int, from),
        0 <= t < names.len(),
        from + 8 * t <= m <= from + 8 * t + 8,
        forall|u: int, p: int|
            0 <= u < names.len() && from + 8 * u <= p < from + 8 * u + 8 ==> #[trigger] drop_is_due(
                names,
                commands,
                from,
                u,
                p,
            ),
    ensures
        stack_after(stack, names, commands, replies, from, m) == stack.take(
            if m == from + 8 * t + 8 {
                names.len() - t - 1
            } else {
                names.len() - t
            },
        ),
    decreases m - from, t,
{
    if m == from {
        assert(stack.take(names.len() as int) =~= stack);
    } else if m == from + 8 * t {
        lemma_stack_shrinks(stack, names, commands, replies, from, t - 1, m);
    } else {
        lemma_stack_shrinks(stack, names, commands, replies, from, t, m - 1);
        assert(recovers(replies, from + 8 * t));
        assert(drop_is_due(names, commands, from, t, m - 1));
        let b = names.len() - t - 1;
        if m == from + 8 * t + 8 {
            lemma_dropped_place(names, b);
            assert(stack.take(b + 1).remove(b) =~= stack.take(b));
        } else {
            lemma_no_place(names, commands(m - 1)->0);
        }
    }
}

spec fn drop_is_due(
    names: Seq<Seq<char>>,
    commands: spec_fn(int) -> Option<flow::Command>,
    from: int,
    t: int,
    p: int,
) -> bool {
    commands(p) matches Some(c) && (if p == from + 8 * t + 7 {
        c == stash::drop_command(names[names.len() - 1 - t])
    } else {
        !policy::drops(c)
    })
}

/// Where every listed stash can be recovered, a visit recovers every one of them: none is counted
/// as failed, there is no error, and git holds no stash any more. `stack` is what git held when it
/// listed the names; the replies that follow the list are those of stashes that can be recovered.
pub proof fn law_all_stashes_are_recovered<S>(
    root: Seq<char>,
    path: Seq<char>,
    known: Map<Seq<char>, registry::EntryView>,
    env: Seq<(Seq<char>, Seq<char>)>,
    replies: Seq<GitReply>,
    i: int,
    stack: Seq<S>,
)
    requires
        0 <= i <= replies.len(),
        cleanup::run_one_flow(root, path, false, known, env, replies, i) matches Flow::Done(
            Ok(visit),
            _,
        ) && visit.record.skip is None,
        listed(replies, i).1 matches Flow::Done(Ok(names), n) && names.no_duplicates()
            && names.len() == stack.len() && listed(replies, i).0 == names.len() && all_recover(
            replies,
            names.len() as int,
            n,
        ),
    ensures
        cleanup::run_one_flow(root, path, false, known, env, replies, i) matches Flow::Done(
            Ok(visit),
            _,
        ) && visit.record.stashes_seen == stack.len() && visit.record.stashes_recovered
            == stack.len() && visit.record.stashes_failed == 0 && visit.record.stash_errors.len()
            == 0,
        listed(replies, i).1 matches Flow::Done(Ok(names), n) && stack_after(
            stack,
            names,
            commands_of_visit(root, path, false, known, env, replies, i),
            replies,
            n,
            n + 8 * names.len(),
        ).len() == 0,
{
    let names = listed(replies, i).1->Done_0->Ok_0;
    let n = listed(replies, i).1->Done_1;
    let len = names.len() as int;
    lemma_visit_got_through(root, path, false, known, env, replies, i);
    lemma_rescue_recovers_all(
        root,
        path,
        names,
        len,
        env,
        cleanup::Rescue::nothing(),
        replies,
        n,
    );
    let commands = commands_of_visit(root, path, false, known, env, replies, i);
    assert forall|u: int, p: int|
        0 <= u < names.len() && n + 8 * u <= p < n + 8 * u + 8 implies #[trigger] drop_is_due(
        names,
        commands,
        n,
        u,
        p,
    ) by {
        lemma_rescue_commands_in_order(
            root,
            path,
            names,
            len,
            env,
            cleanup::Rescue::nothing(),
            replies,
            n,
            u,
            p,
        );
        lemma_visit_cut_is_rescuing(
            root,
            path,
            false,
            known,
            env,
            replies,
            names,
            n,
            p,
            i,
        );
    }
    if len > 0 {
        lemma_stack_shrinks(stack, names, commands, replies, n, len - 1, n + 8 * len);
    }
}

/// A visit that was not skipped has counted and listed the stashes, and its record is what came of
/// them.
pub(crate) proof fn lemma_visit_got_through(
    root: Seq<char>,
    path: Seq<char>,
    dry_run: bool,
    known: Map<Seq<char>, registry::EntryView>,
    env: Seq<(Seq<char>, Seq<char>)>,
    replies: Seq<GitReply>,
    i: int,
)
    requires
        0 <= i <= replies.len(),
        cleanup::run_one_flow(root, path, dry_run, known, env, replies, i) matches Flow::Done(
            Ok(visit),
            _,
        ) && visit.record.skip is None,
    ensures
        git_ops::is_inside_work_tree_flow(replies, i) matches Flow::Done(Ok(true), _),
        git_ops::current_branch_flow(replies, i + 1) matches Flow::Done(Ok(Some(_)), _),
        listed(replies, i).1 matches Flow::Done(Ok(names), n) && i + 3 <= n <= replies.len() && (
        listed(replies, i).0 != 0 ==> n == i + 4) && (rescue_in_visit(
            root,
            path,
            dry_run,
            env,
            replies,
            names,
            n,
        ) matches Flow::Done(Ok(r), _) && ({
            let visit = cleanup::run_one_flow(
                root,
                path,
                dry_run,
                known,
                env,
                replies,
                i,
            )->Done_0->Ok_0;
            &&& visit.record.stashes_seen == listed(replies, i).0
            &&& visit.record.stashes_recovered == r.recovered
            &&& visit.record.stashes_failed == r.failed
            &&& visit.record.stash_errors == r.errors
        })),
{
    let names = listed(replies, i).1->Done_0->Ok_0;
    let n = listed(replies, i).1->Done_1;
    assert(listed(replies, i).1 is Done);
    cleanup::lemma_rescue_never_fails(
        root,
        path,
        names,
        names.len() as int,
        dry_run,
        env,
        cleanup::Rescue::nothing(),
        replies,
        n,
    );
}

/// What came of each of the first `k` of the stashes `names`, in the order of the list: item `a`
/// is what the recovery of `names[a]` ended with. The last stash is recovered first.
pub open spec fn outcomes_of(
    names: Seq<Seq<char>>,
    k: int,
    env: Seq<(Seq<char>, Seq<char>)>,
    replies: Seq<GitReply>,
    i: int,
) -> Seq<Result<stash::RecoveryView, Seq<char>>>
    decreases k,
{
    if k <= 0 {
        Seq::empty()
    } else {
        match stash::recover_one_stash_flow(
            names[k - 1],
            replies[i - 1].at.tag@,
            env,
            replies,
            i,
        ) {
            Flow::Run(_) => Seq::empty(),
            Flow::Done(outcome, n) => outcomes_of(names, k - 1, env, replies, n).push(outcome),
        }
    }
}

/// Why a stash was not recovered; none where it was.
pub open spec fn failure(outcome: Result<stash::RecoveryView, Seq<char>>) -> Option<Seq<char>> {
    match outcome {
        Ok(r) => if r.0 {
            None
        } else {
            Some(r.1)
        },
        Err(why) => Some(why),
    }
}

/// The stashes that were not recovered, each with the reason, in the order of the list.
pub open spec fn failures(
    names: Seq<Seq<char>>,
    outcomes: Seq<Result<stash::RecoveryView, Seq<char>>>,
) -> Seq<(Seq<char>, Seq<char>)>
    decreases outcomes.len(),
{
    if outcomes.len() == 0 {
        Seq::empty()
    } else {
        let earlier = failures(names, outcomes.drop_last());
        match failure(outcomes.last()) {
            Some(why) => earlier.push((names[outcomes.len() - 1], why)),
            None => earlier,
        }
    }
}

/// The stashes that were not recovered, in the order of the list.
pub open spec fn failed_refs(
    names: Seq<Seq<char>>,
    outcomes: Seq<Result<stash::RecoveryView, Seq<char>>>,
) -> Seq<Seq<char>>
    decreases outcomes.len(),
{
    if outcomes.len() == 0 {
        Seq::empty()
    } else {
        let earlier = failed_refs(names, outcomes.drop_last());
        if failure(outcomes.last()) is Some {
            earlier.push(names[outcomes.len() - 1])
        } else {
            earlier
        }
    }
}

/// The stashes that errors are about.
pub open spec fn refs_of(errors: Seq<(Seq<char>, Seq<char>)>) -> Seq<Seq<char>> {
    errors.map_values(|e: (Seq<char>, Seq<char>)| e.0)
}

proof fn lemma_failures_name_failed_refs(
    names: Seq<Seq<char>>,
    outcomes: Seq<Result<stash::RecoveryView, Seq<char>>>,
)
    ensures
        refs_of(failures(names, outcomes)) == failed_refs(names, outcomes),
    decreases outcomes.len(),
{
    if outcomes.len() > 0 {
        lemma_failures_name_failed_refs(names, outcomes.drop_last());
    }
    assert(refs_of(failures(names, outcomes)) =~= failed_refs(names, outcomes));
}

proof fn lemma_rescue_counts(
    root: Seq<char>,
    path: Seq<char>,
    names: Seq<Seq<char>>,
    k: int,
    dry_run: bool,
    env: Seq<(Seq<char>, Seq<char>)>,
    so_far: cleanup::Rescue,
    replies: Seq<GitReply>,
    i: int,
)
    requires
        0 <= k,
    ensures
        cleanup::rescue_flow(
            root,
            path,
            names,
            k,
            dry_run,
            env,
            so_far,
            replies,
            i,
        ) matches Flow::Done(Ok(r), _) ==> {
            let outcomes = outcomes_of(names, k, env, replies, i);
            &&& r.recovered + r.failed == so_far.recovered + so_far.failed + k
            &&& r.errors.len() - so_far.errors.len() == r.failed - so_far.failed
            &&& dry_run ==> r.errors == so_far.errors
            &&& !dry_run ==> outcomes.len() == k && r.errors == failures(names, outcomes)
                + so_far.errors
        },
    decreases k,
{
    if k <= 0 {
        assert(Seq::<(Seq<char>, Seq<char>)>::empty() + so_far.errors =~= so_far.errors);
    } else if dry_run {
        lemma_rescue_counts(
            root,
            path,
            names,
            k - 1,
            dry_run,
            env,
            cleanup::Rescue { recovered: so_far.recovered + 1, ..so_far },
            replies,
            i,
        );
    } else {
        match stash::recover_one_stash_flow(
            names[k - 1],
            replies[i - 1].at.tag@,
            env,
            replies,
            i,
        ) {
            Flow::Run(_) => {},
            Flow::Done(outcome, n) => {
                let after = match outcome {
                    Ok(r) => so_far.tried(root, path, names[k - 1], r.0, r.1),
                    Err(why) => so_far.gave_up(names[k - 1], why),
                };
                lemma_rescue_counts(root, path, names, k - 1, dry_run, env, after, replies, n);
                let earlier = outcomes_of(names, k - 1, env, replies, n);
                assert(earlier.push(outcome).drop_last() =~= earlier);
                if let Some(why) = failure(outcome) {
                    let error = (names[k - 1], why);
                    assert(failures(names, earlier) + (seq![error] + so_far.errors) =~= failures(
                        names,
                        earlier,
                    ).push(error) + so_far.errors);
                }
            },
        }
    }
}

/// Every listed stash is counted once, as recovered or as failed. The errors are those of exactly
/// the stashes that were not recovered, in the order in which they are listed. A rehearsal has
/// none.
pub proof fn law_every_stash_is_counted(
    root: Seq<char>,
    path: Seq<char>,
    dry_run: bool,
    known: Map<Seq<char>, registry::EntryView>,
    env: Seq<(Seq<char>, Seq<char>)>,
    replies: Seq<GitReply>,
    i: int,
)
    requires
        0 <= i <= replies.len(),
    ensures
        cleanup::run_one_flow(root, path, dry_run, known, env, replies, i) matches Flow::Done(
            Ok(visit),
            _,
        ) ==> visit.record.skip is None ==> (listed(replies, i).1 matches Flow::Done(Ok(names), n)
            && {
            let outcomes = outcomes_of(names, names.len() as int, env, replies, n);
            let errors = visit.record.stash_errors;
            &&& visit.record.stashes_recovered + visit.record.stashes_failed == names.len()
            &&& errors.len() == visit.record.stashes_failed
            &&& dry_run ==> errors.len() == 0
            &&& !dry_run ==> outcomes.len() == names.len() && errors == failures(names, outcomes)
                && refs_of(errors) == failed_refs(names, outcomes)
        }),
{
    match cleanup::run_one_flow(root, path, dry_run, known, env, replies, i) {
        Flow::Done(Ok(visit), _) => {
            if visit.record.skip is None {
                lemma_visit_got_through(root, path, dry_run, known, env, replies, i);
                let names = listed(replies, i).1->Done_0->Ok_0;
                let n = listed(replies, i).1->Done_1;
                let k = names.len() as int;
                let nothing = cleanup::Rescue::nothing();
                lemma_rescue_counts(root, path, names, k, dry_run, env, nothing, replies, n);
                let outcomes = outcomes_of(names, k, env, replies, n);
                lemma_failures_name_failed_refs(names, outcomes);
                assert(failures(names, outcomes) + nothing.errors =~= failures(names, outcomes));
            }
        },
        _ => {},
    }
}

} // verus!
