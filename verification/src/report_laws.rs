//! What each command of the command line does, and what it prints.
use crate::autocommit;
use crate::autocommit::{AutocommitTotals, AutocommitView};
use crate::cleanup;
use crate::cleanup::{CleanupTotals, CleanupView};
use crate::cli;
use crate::cli::{Commands, Inputs, NextView};
use crate::commit;
use crate::daemon;
use crate::daemon::{Daemon, Event, Mode, Task};
use crate::flow::{Command, Flow, GitReply};
use crate::git_ops;
use crate::pass::PassFlow;
use crate::push;
use crate::registry::EntryView;
use crate::snapshot;
use crate::state;
use crate::status;
use crate::status::SnapshotView;
use crate::talk_laws;
use crate::text;
use crate::text_laws;
use crate::visit_laws;
use vstd::prelude::*;

verus! {

/// How far a branch is ahead and behind, with the number of replies used; on a detached head git
/// is not asked, and where it cannot be run both are zero.
pub open spec fn both_counts(branch: Seq<char>, replies: Seq<GitReply>, i: int) -> (
    Option<Command>,
    usize,
    usize,
    int,
) {
    if branch == "(detached)"@ {
        (None, 0, 0, i)
    } else {
        match git_ops::ahead_behind_flow(branch, replies, i) {
            Flow::Run(c) => (Some(c), 0, 0, i),
            Flow::Done(Ok(counts), n) => (None, counts.0, counts.1, n),
            Flow::Done(Err(_), n) => (None, 0, 0, n),
        }
    }
}

/// The status of a work tree shows the branch, the primary branch, the changes, how far the branch
/// is ahead and behind, the stashes and the last commit, each as git was asked for it in this
/// order, and what the registry knows. On a detached head that is said in the place of the branch.
pub proof fn law_status_of_a_work_tree(
    path: Seq<char>,
    meta: EntryView,
    replies: Seq<GitReply>,
    i: int,
)
    ensures
        ({
            let f = status::snapshot_repo_flow(path, meta, replies, i);
            let stop = |c: Command| f == Flow::<SnapshotView>::Run(c);
            let fail = |why: Seq<char>, n: int| f == Flow::<SnapshotView>::Done(Err(why), n);
            match git_ops::current_branch_flow(replies, i) {
                Flow::Run(c) => stop(c),
                Flow::Done(Err(why), n) => fail(why, n),
                Flow::Done(Ok(named), n1) => match git_ops::primary_branch_flow(replies, n1) {
                    Flow::Run(c) => stop(c),
                    Flow::Done(Err(why), n) => fail(why, n),
                    Flow::Done(Ok(primary), n2) => match git_ops::dirty_count_flow(replies, n2) {
                        Flow::Run(c) => stop(c),
                        Flow::Done(Err(why), n) => fail(why, n),
                        Flow::Done(Ok(dirty), n3) => {
                            let branch = if named is Some {
                                named->0
                            } else {
                                "(detached)"@
                            };
                            let counts = both_counts(branch, replies, n3);
                            if counts.0 is Some {
                                stop(counts.0->0)
                            } else {
                                match git_ops::stash_count_flow(replies, counts.3) {
                                    Flow::Run(c) => stop(c),
                                    Flow::Done(Err(why), n) => fail(why, n),
                                    Flow::Done(Ok(stashes), n5) => match git_ops::last_commit_flow(
                                        replies,
                                        n5,
                                    ) {
                                        Flow::Run(c) => stop(c),
                                        Flow::Done(Err(why), n) => fail(why, n),
                                        Flow::Done(Ok(last), n6) => f matches Flow::Done(Ok(s), n)
                                            && n == n6 && s.path == path && s.branch == branch
                                            && s.primary == primary && s.dirty == dirty && s.ahead
                                            == counts.1 && s.behind == counts.2 && s.stashes
                                            == stashes && s.last_commit == last && s.meta == meta,
                                    },
                                }
                            }
                        },
                    },
                },
            }
        }),
{
}

/// A number as it is printed.
pub open spec fn num(n: int) -> Seq<char> {
    text::decimal(n)
}

/// The one-screen status: nine lines, each with its value.
pub proof fn law_status_is_shown(s: SnapshotView)
    ensures
        ({
            let auto = if s.meta.last_auto_commit is Some {
                s.meta.last_auto_commit->0
            } else {
                "never"@
            };
            let push = if s.meta.last_push_time is Some {
                s.meta.last_push_time->0
            } else {
                "never"@
            };
            let remote = if s.meta.remote_url matches Some(url) && url.len() > 0 {
                s.meta.remote_url->0
            } else {
                "(none)"@
            };
            s.rendered() == "[STATUS] "@ + s.path + "\n  branch          : "@ + s.branch
                + " (primary="@ + s.primary + ")\n  ahead/behind    : "@ + num(s.ahead as int)
                + "/"@ + num(s.behind as int) + "\n  dirty files     : "@ + num(s.dirty as int)
                + "\n  stashes         : "@ + num(s.stashes as int) + "\n  last commit     : "@
                + s.last_commit + "\n  last auto-commit: "@ + auto + "\n  last push       : "@
                + push + "\n  remote          : "@ + remote + "\n"@
        }),
{
}

/// The line of a work tree in the report of an autocommit pass, and the line at the end.
pub proof fn law_autocommit_report(
    records: Seq<(Seq<char>, AutocommitView)>,
    path: Seq<char>,
    r: AutocommitView,
    t: AutocommitTotals,
)
    ensures
        autocommit::rendered_records(Seq::empty()) == Seq::<char>::empty(),
        autocommit::rendered_records(records.push((path, r))) == autocommit::rendered_records(
            records,
        ) + autocommit::rendered_record(path, r),
        ({
            let mark = if r.error is Some {
                "ERR"@
            } else {
                "OK "@
            };
            let skip = if r.skip is Some {
                " skip="@ + r.skip->0
            } else {
                Seq::empty()
            };
            let error = if r.error is Some {
                " error="@ + r.error->0
            } else {
                Seq::empty()
            };
            autocommit::rendered_record(path, r) == "[daemon-autocommit] ["@ + mark + "] "@ + path
                + ": branch="@ + r.branch + " dirty_before="@ + num(r.dirty_before as int)
                + " since_last="@ + num(r.since_last_sec as int) + "s committed="@ + yes_no(
                r.committed,
            ) + " pushed="@ + yes_no(r.pushed) + skip + error + "\n"@
        }),
        t.rendered() == autocommit::rendered_records(t.records) + "[done] visited="@ + num(
            t.visited as int,
        ) + " dirty="@ + num(t.dirty_count_seen as int) + " committed="@ + num(t.committed as int)
            + " errors="@ + num(t.errors as int) + " dry_run="@ + yes_no(t.dry_run) + "\n"@,
{
    assert(records.push((path, r)).drop_last() =~= records);
}

/// A flag as it is printed.
pub open spec fn yes_no(b: bool) -> Seq<char> {
    if b {
        "true"@
    } else {
        "false"@
    }
}

/// The line of a work tree in the report of a cleanup pass, and the line at the end.
pub proof fn law_cleanup_report(
    records: Seq<(Seq<char>, CleanupView)>,
    path: Seq<char>,
    r: CleanupView,
    t: CleanupTotals,
)
    ensures
        cleanup::rendered_records(Seq::empty()) == Seq::<char>::empty(),
        cleanup::rendered_records(records.push((path, r))) == cleanup::rendered_records(records)
            + cleanup::rendered_record(path, r),
        ({
            let push = if r.push_ok is None {
                "None"@
            } else if r.push_ok == Some(true) {
                "Some(true)"@
            } else {
                "Some(false)"@
            };
            cleanup::rendered_record(path, r) == "[daemon-cleanup] [OK ] "@ + path
                + ": stashes_seen="@ + num(r.stashes_seen as int) + " recovered="@ + num(
                r.stashes_recovered as int,
            ) + " failed="@ + num(r.stashes_failed as int) + " ahead="@ + num(r.ahead as int)
                + " push_ok="@ + push + "\n"@
        }),
        t.rendered() == cleanup::rendered_records(t.records) + "[done] visited="@ + num(
            t.visited as int,
        ) + " stashes_recovered="@ + num(t.stashes_recovered as int) + " commits_pushed="@ + num(
            t.commits_pushed as int,
        ) + " errors="@ + num(t.errors as int) + " dry_run="@ + yes_no(t.dry_run) + "\n"@,
{
    assert(records.push((path, r)).drop_last() =~= records);
}

/// Where a path on the command line leads: an absolute one to itself, one with a leading `~` below
/// the home directory, and a relative one below the current directory. Where the home directory or
/// the current one is needed and not known, the command ends with the reason.
pub proof fn law_given_paths(inputs: Inputs, given: Seq<char>)
    ensures
        given.len() > 0 && given[0] == '/' ==> cli::path_of(inputs, given) == Ok::<
            Seq<char>,
            Seq<char>,
        >(given),
        state::expanded(given, inputs.home.deep_view()) is None ==> cli::path_of(inputs, given)
            == Err::<Seq<char>, Seq<char>>("HOME not set"@),
        state::expanded(given, inputs.home.deep_view()) matches Some(path) ==> {
            &&& path.len() > 0 && path[0] == '/' ==> cli::path_of(inputs, given) == Ok::<
                Seq<char>,
                Seq<char>,
            >(path)
            &&& !(path.len() > 0 && path[0] == '/') ==> match inputs.cwd {
                Ok(dir) => cli::path_of(inputs, given) == Ok::<Seq<char>, Seq<char>>(
                    state::joined(dir@, path),
                ),
                Err(why) => cli::path_of(inputs, given) == Err::<Seq<char>, Seq<char>>(why@),
            }
        },
{
    reveal_strlit("~");
    reveal_strlit("~/");
    if given.len() > 0 && given[0] == '/' {
        if text::begins(given, "~/"@) {
            assert(given.take(2)[0] == given[0]);
        }
    }
}

/// A command that ends well, has saved nothing and printed `out` alone.
pub open spec fn says(next: NextView, out: Seq<char>, code: i32) -> bool {
    next matches NextView::Done(Ok(o)) && o.save is None && o.out == out && o.err.len() == 0
        && o.code == code
}

/// A command that is to be run in the directory `repo`.
pub open spec fn runs(next: NextView, repo: Seq<char>, c: Command) -> bool {
    next == (NextView::Git { repo, command: c })
}

/// To register a work tree git is asked, in that directory, whether it is one; then the registry is
/// read; then git is asked for the remote, the primary branch and the changes. The entry has what
/// git said, the time, and what was known before; nothing else in the registry changes. What is no
/// work tree is skipped with code one.
pub proof fn law_register(root: Seq<char>, repo_path: String, inputs: Inputs, path: Seq<char>)
    requires
        cli::path_of(inputs, repo_path@) == Ok::<Seq<char>, Seq<char>>(path),
    ensures
        ({
            let next = cli::command_flow(root, Commands::Register { repo_path }, inputs).1;
            let replies = inputs.replies@;
            let here = replies.len() > 0 && visit_laws::inside(replies[0]);
            &&& cli::command_flow(root, Commands::Register { repo_path }, inputs).0.len() == 0
            &&& replies.len() == 0 ==> runs(
                next,
                path,
                talk_laws::cmd(seq!["rev-parse"@, "--is-inside-work-tree"@]),
            )
            &&& replies.len() > 0 && replies[0].outcome is Ok && !visit_laws::inside(replies[0])
                ==> says(next, "[SKIP] "@ + path + " is not inside a git work tree.\n"@, 1)
            &&& replies.len() > 0 ==> (replies[0].outcome matches Err(why) ==> next
                == NextView::Done(Err(why@)))
            &&& here && inputs.registry is None ==> next is LoadRegistry
            &&& here ==> (inputs.registry matches Some(Err(why)) ==> next == NextView::Done(
                Err(why@),
            ))
            &&& here ==> (inputs.registry matches Some(Ok(known)) ==> next
                == cli::register_known_flow(replies, known@, path, 1))
        }),
{
    talk_laws::law_inside_work_tree(inputs.replies@, 0);
}

/// What is asked about a work tree that is being registered, and what is noted of it.
pub proof fn law_registration(
    replies: Seq<GitReply>,
    known: Map<Seq<char>, EntryView>,
    path: Seq<char>,
)
    requires
        replies.len() > 0,
    ensures
        ({
            let next = cli::register_known_flow(replies, known, path, 1);
            match git_ops::get_remote_url_flow(replies, 1) {
                Flow::Run(c) => runs(next, path, c),
                Flow::Done(url, n1) => match git_ops::primary_branch_flow(replies, n1) {
                    Flow::Run(c) => runs(next, path, c),
                    Flow::Done(primary, n2) => match git_ops::dirty_count_flow(replies, n2) {
                        Flow::Run(c) => runs(next, path, c),
                        Flow::Done(dirty, _) => next matches NextView::Done(Ok(o)) && o.out
                            == "[OK] Registered "@ + path + "\n"@ && o.err.len() == 0 && o.code
                            == 0 && (o.save matches Some(saved) && visit_of_registration(
                            known,
                            saved,
                            path,
                            replies[n2 - 1].at.iso@,
                        ) && saved[path].remote_url == (if url matches Ok(Some(u)) && u.len() > 0 {
                            Some(url->Ok_0->0)
                        } else {
                            None
                        }) && saved[path].primary_branch == Some(
                            if primary is Ok {
                                primary->Ok_0
                            } else {
                                "main"@
                            },
                        ) && saved[path].last_dirty_count == Some(
                            if dirty is Ok {
                                dirty->Ok_0 as u64
                            } else {
                                0
                            },
                        )),
                    },
                },
            }
        }),
{
}

/// A registration touches the entry of `path` alone: it is checked at `now`, registered then where
/// it was not before, and keeps the times of the last commit and push.
pub open spec fn visit_of_registration(
    before: Map<Seq<char>, EntryView>,
    after: Map<Seq<char>, EntryView>,
    path: Seq<char>,
    now: Seq<char>,
) -> bool {
    let was = visit_laws::knew(before, path);
    &&& after.contains_key(path)
    &&& after.remove(path) =~= before.remove(path)
    &&& after[path].last_check == Some(now)
    &&& after[path].registered_at == (if was.registered_at is Some {
        was.registered_at
    } else {
        Some(now)
    })
    &&& after[path].last_auto_commit == was.last_auto_commit
    &&& after[path].last_push_time == was.last_push_time
}

/// To unregister a work tree takes its entry, and no other, out of the registry; one that is not in
/// it is left alone. Git is not asked.
pub proof fn law_unregister(root: Seq<char>, repo_path: String, inputs: Inputs, path: Seq<char>)
    requires
        cli::path_of(inputs, repo_path@) == Ok::<Seq<char>, Seq<char>>(path),
    ensures
        ({
            let next = cli::command_flow(root, Commands::Unregister { repo_path }, inputs).1;
            match inputs.registry {
                None => next is LoadRegistry,
                Some(Err(why)) => next == NextView::Done(Err(why@)),
                Some(Ok(known)) => if known@.contains_key(path) {
                    next matches NextView::Done(Ok(o)) && o.save == Some(known@.remove(path))
                        && o.out == "[OK] Unregistered "@ + path + "\n"@ && o.err.len() == 0
                        && o.code == 0
                } else {
                    says(next, "[INFO] "@ + path + " not in registry; nothing to do.\n"@, 0)
                },
            }
        }),
{
}

/// The commands that take a path end with the reason where there is none.
pub proof fn law_no_path(root: Seq<char>, repo_path: String, inputs: Inputs, branch: String)
    requires
        cli::path_of(inputs, repo_path@) is Err,
    ensures
        ({
            let why = NextView::Done(Err(cli::path_of(inputs, repo_path@)->Err_0));
            &&& cli::command_flow(root, Commands::Register { repo_path }, inputs).1 == why
            &&& cli::command_flow(root, Commands::Unregister { repo_path }, inputs).1 == why
            &&& cli::command_flow(root, Commands::Status { repo_path }, inputs).1 == why
            &&& cli::command_flow(
                root,
                Commands::Snapshot { repo_path, message: None },
                inputs,
            ).1 == why
            &&& cli::command_flow(root, Commands::Restore { repo_path, branch }, inputs).1 == why
        }),
{
}

/// One work tree in the two lists.
pub proof fn law_listed_work_trees(
    list: Seq<(Seq<char>, EntryView)>,
    path: Seq<char>,
    e: EntryView,
    verbose: bool,
)
    ensures
        ({
            let dirty = num(
                if e.last_dirty_count is Some {
                    e.last_dirty_count->0 as int
                } else {
                    0
                },
            );
            let remote = if e.remote_url matches Some(url) && url.len() > 0 {
                e.remote_url->0
            } else {
                "(no remote)"@
            };
            let or = |value: Option<Seq<char>>, default: Seq<char>|
                if value is Some {
                    value->0
                } else {
                    default
                };
            let short = "  - "@ + path + "\n      dirty="@ + dirty + "  remote="@ + remote;
            &&& cli::listing_text(Seq::empty(), verbose) == Seq::<char>::empty()
            &&& cli::listing_text(list.push((path, e)), false) == cli::listing_text(list, false) + (
            short + "\n"@)
            &&& cli::listing_text(list.push((path, e)), true) == cli::listing_text(list, true) + (
            short + "  registered_at="@ + or(e.registered_at, "?"@) + "\n      primary_branch="@
                + or(e.primary_branch, "?"@) + "  last_auto_commit="@ + or(
                e.last_auto_commit,
                "never"@,
            ) + "  last_push_time="@ + or(e.last_push_time, "never"@) + "\n"@)
        }),
{
    assert(list.push((path, e)).drop_last() =~= list);
}

/// The two commands that list the registered work trees, in the order of their paths.
pub proof fn law_lists(root: Seq<char>, inputs: Inputs)
    ensures
        ({
            let short = cli::command_flow(root, Commands::List, inputs).1;
            let long = cli::command_flow(root, Commands::Audit, inputs).1;
            match inputs.registry {
                None => short is LoadRegistry && long is LoadRegistry,
                Some(Err(why)) => short == NextView::Done(Err(why@)) && long == short,
                Some(Ok(known)) => {
                    let list = known.listing();
                    if list.len() == 0 {
                        says(short, "[INFO] No repos registered.\n"@, 0) && says(
                            long,
                            "[INFO] No repos registered.\n"@,
                            0,
                        )
                    } else {
                        &&& says(
                            short,
                            "[OK] "@ + num(list.len() as int) + " registered repo(s):\n"@
                                + cli::listing_text(list, false),
                            0,
                        )
                        &&& says(
                            long,
                            "[AUDIT] "@ + num(list.len() as int) + " registered repo(s):\n"@
                                + cli::listing_text(list, true),
                            0,
                        )
                    }
                },
            }
        }),
{
}

/// The status command shows the status of the given work tree, with what the registry knows of it,
/// be it registered or not.
pub proof fn law_status_command(root: Seq<char>, repo_path: String, inputs: Inputs, path: Seq<char>)
    requires
        cli::path_of(inputs, repo_path@) == Ok::<Seq<char>, Seq<char>>(path),
    ensures
        ({
            let next = cli::command_flow(root, Commands::Status { repo_path }, inputs).1;
            match inputs.registry {
                None => next is LoadRegistry,
                Some(Err(why)) => next == NextView::Done(Err(why@)),
                Some(Ok(known)) => match status::snapshot_repo_flow(
                    path,
                    visit_laws::knew(known@, path),
                    inputs.replies@,
                    0,
                ) {
                    Flow::Run(c) => runs(next, path, c),
                    Flow::Done(Err(why), _) => next == NextView::Done(Err(why)),
                    Flow::Done(Ok(s), _) => says(next, s.rendered(), 0),
                },
            }
        }),
{
}

/// The snapshot command asks first whether there is a work tree, then for the head, and then for a
/// place for an index file. The new branch is named after the day and minute, and the moment, of
/// the first reply.
pub proof fn law_snapshot_command(
    root: Seq<char>,
    repo_path: String,
    message: Option<String>,
    inputs: Inputs,
    path: Seq<char>,
)
    requires
        cli::path_of(inputs, repo_path@) == Ok::<Seq<char>, Seq<char>>(path),
    ensures
        ({
            let next = cli::command_flow(root, Commands::Snapshot { repo_path, message }, inputs).1;
            let replies = inputs.replies@;
            let here = replies.len() > 0 && visit_laws::inside(replies[0]);
            &&& replies.len() == 0 ==> runs(
                next,
                path,
                talk_laws::cmd(seq!["rev-parse"@, "--is-inside-work-tree"@]),
            )
            &&& replies.len() > 0 && replies[0].outcome is Ok && !visit_laws::inside(replies[0])
                ==> says(next, "[FAIL] "@ + path + " is not a git repo.\n"@, 1)
            &&& here && inputs.index is None && replies.len() == 1 ==> runs(
                next,
                path,
                talk_laws::cmd(seq!["rev-parse"@, "--verify"@, "HEAD"@]),
            )
            &&& here && inputs.index is None && replies.len() > 1 && talk_laws::printed_some(
                replies[1],
            ) ==> next is CreateIndex
            &&& here ==> (inputs.index matches Some(Err(why)) ==> next == NextView::Done(Err(why@)))
            &&& here ==> (inputs.index matches Some(Ok(index)) ==> next
                == cli::take_snapshot_flow(
                path,
                "wip/"@ + replies[0].at.tag@ + "-"@ + replies[0].at.id@,
                message.deep_view(),
                index@,
                commit::author_env(inputs.author),
                replies,
                1,
            ))
        }),
{
    talk_laws::law_inside_work_tree(inputs.replies@, 0);
    if inputs.replies@.len() > 1 {
        text_laws::law_blank(talk_laws::said(inputs.replies@[1]));
    }
}

/// A snapshot that was made is pushed, and reported only once the remote was found to have it.
/// Where the push fails, the local branch is pointed out, with code two.
pub proof fn law_snapshot_is_pushed_and_checked(
    path: Seq<char>,
    branch: Seq<char>,
    message: Option<Seq<char>>,
    index: Seq<char>,
    env: Seq<(Seq<char>, Seq<char>)>,
    replies: Seq<GitReply>,
    i: int,
)
    requires
        0 <= i,
    ensures
        ({
            let next = cli::take_snapshot_flow(path, branch, message, index, env, replies, i);
            match snapshot::create_snapshot_commit_flow(branch, message, index, env, replies, i) {
                Flow::Run(c) => runs(next, path, c),
                Flow::Done(Err(why), _) => next == NextView::Done(Err(why)),
                Flow::Done(Ok(None), _) => says(
                    next,
                    "[INFO] No non-ignored working-tree changes; no snapshot created.\n"@,
                    0,
                ),
                Flow::Done(Ok(Some(s)), n) => {
                    &&& n >= replies.len() ==> runs(
                        next,
                        path,
                        talk_laws::slow(seq!["push"@, "--set-upstream"@, "origin"@, branch]),
                    )
                    &&& 0 <= n < replies.len() && talk_laws::bad(replies[n]) ==> says(
                        next,
                        "[WARN] Push failed for "@ + branch + ": "@ + talk_laws::told(replies[n])
                            + "\n       Local branch "@ + branch + " at "@ + s.commit
                            + " is preserved.\n"@,
                        2,
                    )
                    &&& 0 <= n < replies.len() && talk_laws::fine(replies[n])
                        ==> match snapshot::verify_pushed_snapshot_flow(s, replies, n + 1) {
                        Flow::Run(c) => runs(next, path, c),
                        Flow::Done(Err(why), _) => next == NextView::Done(Err(why)),
                        Flow::Done(Ok(_), _) => says(
                            next,
                            "[OK] Snapshot created and pushed: "@ + branch + "\n     "@
                                + text::trimmed(talk_laws::told(replies[n])) + "\n     commit: "@
                                + s.commit + " (parent "@ + s.head + ")\n"@ + if message is Some {
                                "     note: "@ + message->0 + "\n"@
                            } else {
                                Seq::empty()
                            },
                            0,
                        ),
                    }
                },
            }
        }),
{
    if let Flow::Done(Ok(Some(s)), n) = snapshot::create_snapshot_commit_flow(
        branch,
        message,
        index,
        env,
        replies,
        i,
    ) {
        let text = "[OK] Snapshot created and pushed: "@ + branch + "\n     "@ + text::trimmed(
            talk_laws::told(replies[n]),
        ) + "\n     commit: "@ + s.commit + " (parent "@ + s.head + ")\n"@;
        if message is Some {
            let note = message->0;
            assert(text + ("     note: "@ + note + "\n"@) =~= text + "     note: "@ + note
                + "\n"@);
        } else {
            assert(text + Seq::<char>::empty() =~= text);
        }
    }
}

/// The two commands that run a pass over the registered work trees print its report. They end with
/// code zero if and only if nothing went wrong in it.
pub proof fn law_pass_commands(root: Seq<char>, dry_run: bool, inputs: Inputs)
    ensures
        ({
            let a = cli::command_flow(root, Commands::Autocommit { dry_run }, inputs);
            let c = cli::command_flow(root, Commands::Cleanup { dry_run }, inputs);
            let env = commit::author_env(inputs.author);
            match inputs.registry {
                None => a.1 is LoadRegistry && c.1 is LoadRegistry && a.0.len() == 0 && c.0.len()
                    == 0,
                Some(Err(why)) => a.1 == NextView::Done(Err(why@)) && c.1 == a.1,
                Some(Ok(known)) => {
                    &&& match autocommit::run_flow(
                        root,
                        known.listing(),
                        known@,
                        dry_run,
                        env,
                        inputs.replies@,
                    ) {
                        PassFlow::Git { log, repo, command } => a.0 == log && runs(
                            a.1,
                            repo,
                            command,
                        ),
                        PassFlow::Done { log, summary, save } => a.0 == log && ended(
                            a.1,
                            save,
                            summary.rendered(),
                            summary.errors,
                        ),
                    }
                    &&& match cleanup::run_flow(
                        root,
                        known.listing(),
                        known@,
                        dry_run,
                        env,
                        inputs.replies@,
                    ) {
                        PassFlow::Git { log, repo, command } => c.0 == log && runs(
                            c.1,
                            repo,
                            command,
                        ),
                        PassFlow::Done { log, summary, save } => c.0 == log && ended(
                            c.1,
                            save,
                            summary.rendered(),
                            summary.errors,
                        ),
                    }
                },
            }
        }),
{
}

/// A pass has ended: this is saved, this is printed, and the code is zero if nothing went wrong
/// and one else.
pub open spec fn ended(
    next: NextView,
    save: Option<Map<Seq<char>, EntryView>>,
    out: Seq<char>,
    errors: nat,
) -> bool {
    next matches NextView::Done(Ok(o)) && o.save == save && o.out == out && o.err.len() == 0 && (
    errors == 0 ==> o.code == 0) && (errors > 0 ==> o.code == 1)
}

/// The daemon command tells how to start the scheduler of a mode, and refuses any other word with
/// code two.
pub proof fn law_daemon_command(root: Seq<char>, mode: String, inputs: Inputs)
    ensures
        ({
            let next = cli::command_flow(root, Commands::Daemon { mode }, inputs).1;
            if mode@ == "autocommit"@ || mode@ == "cleanup"@ {
                says(
                    next,
                    "[daemon] mode="@ + mode@ + ": invoke `cargo run --example daemon -- "@ + mode@
                        + "` to run as a long-lived scheduler.\n"@,
                    0,
                )
            } else {
                next matches NextView::Done(Ok(o)) && o.save is None && o.out.len() == 0 && o.err
                    == "[FAIL] unknown daemon mode: "@ + mode@
                    + " (use 'autocommit' or 'cleanup')\n"@ && o.code == 2
            }
        }),
{
}

/// The restore command pushes the given branch of the given work tree, or keeps the head as a new
/// branch, and tells what came of it; the code is two where nothing was pushed.
pub proof fn law_restore_command(
    root: Seq<char>,
    repo_path: String,
    branch: String,
    inputs: Inputs,
    path: Seq<char>,
)
    requires
        cli::path_of(inputs, repo_path@) == Ok::<Seq<char>, Seq<char>>(path),
    ensures
        ({
            let next = cli::command_flow(root, Commands::Restore { repo_path, branch }, inputs).1;
            match push::try_push_or_snapshot_flow(
                branch@,
                inputs.started.tag@,
                inputs.replies@,
                0,
            ) {
                Flow::Run(c) => runs(next, path, c),
                Flow::Done(Err(why), _) => next == NextView::Done(Err(why)),
                Flow::Done(Ok((pushed, detail)), _) => says(
                    next,
                    "[restore] "@ + branch@ + ": "@ + detail + "\n"@,
                    if pushed {
                        0
                    } else {
                        2
                    },
                ),
            }
        }),
{
}

/// The quickstatus command asks for the status of each registered work tree in turn, counts those
/// with changes and those that are ahead of the remote, and prints the numbers at the end.
pub proof fn law_quickstatus(
    root: Seq<char>,
    inputs: Inputs,
    list: Seq<(Seq<char>, EntryView)>,
    k: int,
    dirty: nat,
    unpushed: nat,
    replies: Seq<GitReply>,
    i: int,
)
    requires
        0 <= k <= list.len(),
    ensures
        ({
            let next = cli::command_flow(root, Commands::Quickstatus, inputs).1;
            match inputs.registry {
                None => next is LoadRegistry,
                Some(Err(why)) => next == NextView::Done(Err(why@)),
                Some(Ok(known)) => next == cli::quickstatus_from_flow(
                    known.listing(),
                    0,
                    0,
                    0,
                    inputs.replies@,
                    0,
                ),
            }
        }),
        ({
            let next = cli::quickstatus_from_flow(list, k, dirty, unpushed, replies, i);
            if k == list.len() {
                says(
                    next,
                    "[quickstatus] repos="@ + num(list.len() as int) + " dirty="@ + num(
                        dirty as int,
                    ) + " unpushed="@ + num(unpushed as int) + "\n"@,
                    0,
                )
            } else {
                match status::snapshot_repo_flow(list[k].0, list[k].1, replies, i) {
                    Flow::Run(c) => runs(next, list[k].0, c),
                    Flow::Done(Err(why), _) => next == NextView::Done(Err(why)),
                    Flow::Done(Ok(s), n) => next == cli::quickstatus_from_flow(
                        list,
                        k + 1,
                        if s.dirty > 0 {
                            dirty + 1
                        } else {
                            dirty
                        },
                        if s.ahead > 0 {
                            unpushed + 1
                        } else {
                            unpushed
                        },
                        replies,
                        n,
                    ),
                }
            }
        }),
{
}

/// The two modes of the scheduler, with their names and rests, and what is said of other words.
pub proof fn law_modes(other: Seq<char>)
    ensures
        Mode::Autocommit.text() == "autocommit"@,
        Mode::Cleanup.text() == "cleanup"@,
        Mode::Autocommit.rest() == 900,
        Mode::Cleanup.rest() == 28800,
        daemon::usage_text(None) == "usage: daemon <autocommit|cleanup>\n"@,
        daemon::usage_text(Some(other)) == "usage: daemon <autocommit|cleanup>  (got: "@
            + daemon::debug_quoted(other) + ")\n"@,
{
}

/// What a scheduler says of itself, and of another one that is there already; and the state it is
/// in after an event: a pass begins a new count of seconds, a second of rest is counted, and a pass
/// that has ended leaves the number of passes as it is.
pub proof fn law_scheduler_keeps_count(
    d: Daemon,
    event: Event,
    pid: u32,
    root: Seq<char>,
)
    ensures
        d.after(event, Task::RunPass).mode == d.mode,
        d.after(event, Task::RunPass).slept == 0,
        d.cycles < u64::MAX ==> d.after(event, Task::RunPass).cycles == d.cycles + 1,
        d.after(event, Task::Sleep).mode == d.mode,
        d.after(event, Task::Sleep).cycles == d.cycles,
        event is PassEnded ==> d.after(event, Task::Sleep).slept == 0,
        event is Slept && d.slept < u64::MAX ==> d.after(event, Task::Sleep).slept == d.slept + 1,
        daemon::running_text(d.mode, pid) == "[daemon] "@ + d.mode.text()
            + " already running pid="@ + num(pid as int) + "\n"@,
        daemon::greeting_text(d.mode, pid, root) == "[daemon:"@ + d.mode.text()
            + "] running every "@ + num(d.mode.rest() as int) + "s pid="@ + num(pid as int)
            + " state_root="@ + root + "\n"@,
{
}

/// The process that a pid file names is the number in it, whatever white space stands round it.
pub proof fn law_pid_files(text: Seq<char>, pid: u32)
    ensures
        text_laws::framed(text, num(pid as int)) ==> daemon::pid_in(text) == Some(pid),
        text_laws::all_white(text) ==> daemon::pid_in(text) is None,
        text::parsed(text::trimmed(text)) is None ==> daemon::pid_in(text) is None,
        text::parsed(text::trimmed(text)) matches Some(n) ==> n > u32::MAX ==> daemon::pid_in(
            text,
        ) is None,
{
    text_laws::law_trim(text, num(pid as int));
    text_laws::law_counts_read_back(pid as nat);
    text_laws::law_blank(text);
    text_laws::law_counts_are_read(text::trimmed(text));
}

/// What a scheduler does after each event: it begins with a pass, rests after each, and counts the
/// seconds of the rest; and what it says then.
pub proof fn law_scheduler(d: Daemon, failure: Option<String>, pid_file: bool, stop: bool)
    ensures
        d.task_after(Event::Started, false) is RunPass,
        d.task_after(Event::Started, true) is Exit,
        d.task_after(Event::PassEnded(failure), false) is Sleep,
        d.task_after(Event::PassEnded(failure), true) is Exit,
        !pid_file || stop ==> d.task_after(Event::Slept { pid_file }, stop) is Exit,
        pid_file && !stop ==> (d.task_after(Event::Slept { pid_file }, stop) is RunPass
            <==> d.slept + 1 >= d.mode.rest()),
        pid_file && !stop ==> (d.task_after(Event::Slept { pid_file }, stop) is Sleep <==> d.slept
            + 1 < d.mode.rest()),
        d.slept < u64::MAX ==> daemon::one_more(d.slept) == d.slept + 1,
        daemon::one_more(u64::MAX) == u64::MAX,
        d.complaint_after(Event::Started) is None,
        d.complaint_after(Event::Slept { pid_file }) is None,
        failure is None ==> d.complaint_after(Event::PassEnded(failure)) is None,
        failure matches Some(why) ==> d.complaint_after(Event::PassEnded(failure)) == Some(
            "[daemon:"@ + d.mode.text() + "] tick #"@ + num(d.cycles as int) + " error: "@ + why@
                + "\n"@,
        ),
        d.said_after(Event::Started, Task::RunPass) is None,
        d.said_after(Event::Slept { pid_file }, Task::Sleep) is None,
        d.said_after(Event::Slept { pid_file }, Task::RunPass) is None,
        failure is Some ==> d.said_after(Event::PassEnded(failure), Task::Sleep) is None,
        d.said_after(Event::PassEnded(None), Task::Sleep) == Some(
            "[daemon:"@ + d.mode.text() + "] tick #"@ + num(d.cycles as int) + " done\n"@,
        ),
        d.said_after(Event::Slept { pid_file }, Task::Exit) == Some(
            Seq::empty() + "[daemon:"@ + d.mode.text() + "] exited gracefully after "@ + num(
                d.cycles as int,
            ) + " cycles\n"@,
        ),
        d.said_after(Event::Started, Task::Exit) == d.said_after(
            Event::Slept { pid_file },
            Task::Exit,
        ),
        failure is Some ==> d.said_after(Event::PassEnded(failure), Task::Exit) == d.said_after(
            Event::Slept { pid_file },
            Task::Exit,
        ),
        d.said_after(Event::PassEnded(None), Task::Exit) == Some(
            ("[daemon:"@ + d.mode.text() + "] tick #"@ + num(d.cycles as int) + " done\n"@)
                + "[daemon:"@ + d.mode.text() + "] exited gracefully after "@ + num(
                d.cycles as int,
            ) + " cycles\n"@,
        ),
{
}

} // verus!
