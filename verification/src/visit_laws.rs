//! What a visit to a work tree asks for, when, and what it leaves behind.
use crate::autocommit;
use crate::autocommit::{AutocommitTotals, AutocommitView};
use crate::cleanup;
use crate::cleanup::{CleanupTotals, CleanupView};
use crate::clock;
use crate::commit;
use crate::flow::{Flow, GitReply};
use crate::git_ops;
use crate::json;
use crate::json::Json;
use crate::pass::{PassFlow, Progress, Visit};
use crate::push;
use crate::registry::EntryView;
use crate::safety;
use crate::stash;
use crate::store;
use crate::talk_laws;
use crate::text;
use crate::text_laws;
use vstd::prelude::*;

verus! {

/// Whether the reply tells that git runs inside a work tree.
pub open spec fn inside(reply: GitReply) -> bool {
    talk_laws::fine(reply) && text_laws::framed(talk_laws::said(reply), "true"@)
}

/// Whether the reply names `branch` as the one that is checked out.
pub open spec fn on_branch(reply: GitReply, branch: Seq<char>) -> bool {
    talk_laws::fine(reply) && text_laws::framed(talk_laws::said(reply), branch) && branch.len() > 0 && branch != "HEAD"@
}

/// Whether the reply names no branch.
pub open spec fn on_no_branch(reply: GitReply) -> bool {
    reply.outcome is Ok && forall|branch: Seq<char>| !#[trigger] on_branch(reply, branch)
}

/// How many lines with more than white space git printed; none where it failed.
pub open spec fn counted(reply: GitReply) -> int {
    if talk_laws::fine(reply) {
        text::filled_lines(talk_laws::said(reply)).len() as int
    } else {
        0
    }
}

proof fn lemma_branch(replies: Seq<GitReply>, i: int, branch: Seq<char>)
    requires
        0 <= i < replies.len(),
        on_branch(replies[i], branch),
    ensures
        git_ops::current_branch_flow(replies, i) == Flow::<Option<Seq<char>>>::Done(
            Ok(Some(branch)),
            i + 1,
        ),
{
    talk_laws::law_current_branch(replies, i);
    assert(text_laws::framed(talk_laws::said(replies[i]), branch));
}

proof fn lemma_no_branch(replies: Seq<GitReply>, i: int)
    requires
        0 <= i < replies.len(),
        on_no_branch(replies[i]),
    ensures
        git_ops::current_branch_flow(replies, i) == Flow::<Option<Seq<char>>>::Done(
            Ok(None),
            i + 1,
        ),
{
    talk_laws::law_current_branch(replies, i);
    match git_ops::current_branch_flow(replies, i) {
        Flow::Done(Ok(Some(branch)), _) => {
            let named = Some(branch);
            assert(named == Some(branch));
            text_laws::law_trim(talk_laws::said(replies[i]), branch);
            assert(on_branch(replies[i], branch));
        },
        _ => {},
    }
}

/// How long ago a time is, at the second `now`: the difference, nothing where it lies in the
/// future, and for ever where there is none or it cannot be read.
pub proof fn law_time_since(last: Option<Seq<char>>, now: u64)
    ensures
        last is None ==> autocommit::since_last(last, now) == u64::MAX,
        last matches Some(stamp) ==> {
            &&& clock::rfc3339_seconds(stamp) is None ==> autocommit::since_last(last, now)
                == u64::MAX
            &&& clock::rfc3339_seconds(stamp) matches Some(then) ==> {
                &&& 0 <= then <= now ==> autocommit::since_last(last, now) + then == now
                &&& then > now ==> autocommit::since_last(last, now) == 0
                &&& then < 0 ==> autocommit::since_last(last, now) == now
            }
        },
{
}

/// What an autocommit visit looks at first: whether this is a work tree, which branch is checked
/// out, and what has changed. Where it is no work tree, or no branch is checked out, nothing is
/// done, and the record tells why.
pub proof fn law_autocommit_looks_first(
    root: Seq<char>,
    path: Seq<char>,
    meta: EntryView,
    dry_run: bool,
    known: Map<Seq<char>, EntryView>,
    env: Seq<(Seq<char>, Seq<char>)>,
    replies: Seq<GitReply>,
    i: int,
    branch: Seq<char>,
)
    requires
        0 <= i,
    ensures
        ({
            let f = autocommit::run_one_flow(root, path, meta, dry_run, known, env, replies, i);
            let here = i < replies.len() && inside(replies[i]);
            &&& talk_laws::asks_first(f, talk_laws::cmd(seq!["rev-parse"@, "--is-inside-work-tree"@]), replies, i)
            &&& i < replies.len() && replies[i].outcome is Ok && !inside(replies[i]) ==> (
            f matches Flow::Done(Ok(visit), n) && n == i + 1 && idle(visit, known)
                && visit.record.skip == Some("not-a-git-repo"@) && unseen(visit.record))
            &&& here ==> talk_laws::asks_first(
                f,
                talk_laws::cmd(seq!["rev-parse"@, "--abbrev-ref"@, "HEAD"@]),
                replies,
                i + 1,
            )
            &&& here && i + 1 < replies.len() && on_no_branch(replies[i + 1]) ==> (f matches Flow::Done(
                Ok(visit),
                n,
            ) && n == i + 2 && idle(visit, known) && visit.record.skip == Some("detached-head"@)
                && unseen(visit.record))
            &&& here && i + 1 < replies.len() && on_branch(replies[i + 1], branch) ==> talk_laws::asks_first(
                f,
                talk_laws::cmd(seq!["status"@, "--porcelain"@]),
                replies,
                i + 2,
            )
        }),
{
    talk_laws::law_inside_work_tree(replies, i);
    if i < replies.len() && inside(replies[i]) {
        talk_laws::law_current_branch(replies, i + 1);
        if i + 1 < replies.len() {
            if on_no_branch(replies[i + 1]) {
                lemma_no_branch(replies, i + 1);
            }
            if on_branch(replies[i + 1], branch) {
                lemma_branch(replies, i + 1, branch);
            }
        }
    }
}

/// Whether a record shows no branch and no changes.
pub open spec fn unseen(record: AutocommitView) -> bool {
    &&& record.branch.len() == 0
    &&& record.dirty_before == 0
    &&& record.since_last_sec == 0
    &&& !record.dry_run
}

/// Whether a visit has done nothing: no commit, no push, no error, nothing noted and nothing
/// logged.
pub open spec fn idle(visit: Visit<AutocommitView>, known: Map<Seq<char>, EntryView>) -> bool {
    &&& visit.known == known
    &&& visit.log.len() == 0
    &&& !visit.record.committed
    &&& !visit.record.pushed
    &&& visit.record.error is None
    &&& visit.record.commit_message is None
    &&& visit.record.push_detail is None
}

/// A work tree is committed to if and only if something has changed in it, the last automatic
/// commit is at least a quarter of an hour old or not known, and this is no rehearsal. It is clean
/// exactly where git printed nothing but white space, or failed.
pub proof fn law_autocommit_decides(
    root: Seq<char>,
    path: Seq<char>,
    meta: EntryView,
    dry_run: bool,
    known: Map<Seq<char>, EntryView>,
    env: Seq<(Seq<char>, Seq<char>)>,
    replies: Seq<GitReply>,
    i: int,
    branch: Seq<char>,
)
    requires
        0 <= i,
        i + 2 < replies.len(),
        inside(replies[i]),
        on_branch(replies[i + 1], branch),
        replies[i + 2].outcome is Ok,
        talk_laws::said(replies[i + 2]).len() <= usize::MAX,
    ensures
        ({
            let f = autocommit::run_one_flow(root, path, meta, dry_run, known, env, replies, i);
            let since = autocommit::since_last(meta.last_auto_commit, replies[i + 2].at.secs);
            let changed = talk_laws::fine(replies[i + 2]) && !text_laws::all_white(talk_laws::said(replies[i + 2]));
            &&& changed && since >= 900 && !dry_run ==> talk_laws::asks_first(
                f,
                talk_laws::cmd(seq!["add"@, "-A"@]),
                replies,
                i + 3,
            )
            &&& !(changed && since >= 900 && !dry_run) ==> (f matches Flow::Done(Ok(visit), n) && n
                == i + 3 && idle(visit, known) && visit.record.branch == branch
                && visit.record.dirty_before == counted(replies[i + 2])
                && visit.record.since_last_sec == since && visit.record.skip == (if !changed {
                Some("clean"@)
            } else if since < 900 {
                Some("throttled"@)
            } else {
                None
            }) && visit.record.dry_run == (changed && since >= 900))
        }),
{
    talk_laws::law_inside_work_tree(replies, i);
    lemma_branch(replies, i + 1, branch);
    talk_laws::law_changes_and_stashes(replies, i + 2);
}

/// The entry of `path` in `after` is the one it had in `before`, or a blank one, but for the given
/// times: it was checked at `now`, and registered then where it was not before. Nothing else has
/// changed in the registry.
pub open spec fn noted(
    before: Map<Seq<char>, EntryView>,
    after: Map<Seq<char>, EntryView>,
    path: Seq<char>,
    now: Seq<char>,
) -> bool {
    &&& after.contains_key(path)
    &&& after.remove(path) =~= before.remove(path)
    &&& after[path].last_check == Some(now)
    &&& if before.contains_key(path) {
        &&& after[path].registered_at == (if before[path].registered_at is Some {
            before[path].registered_at
        } else {
            Some(now)
        })
        &&& after[path].remote_url == before[path].remote_url
        &&& after[path].primary_branch == before[path].primary_branch
    } else {
        &&& after[path].registered_at == Some(now)
        &&& after[path].remote_url is None
        &&& after[path].primary_branch is None
    }
}

/// What the registry knew of `path`, or nothing.
pub open spec fn knew(known: Map<Seq<char>, EntryView>, path: Seq<char>) -> EntryView {
    if known.contains_key(path) {
        known[path]
    } else {
        EntryView {
            registered_at: None,
            last_check: None,
            last_dirty_count: None,
            remote_url: None,
            primary_branch: None,
            last_auto_commit: None,
            last_push_time: None,
        }
    }
}

/// A visit that commits does so with a message that names the time at which the changes were
/// counted, pushes the branch, and notes and logs what came of it. Where the commit fails, the work
/// tree only counts as checked.
pub proof fn law_autocommit_commits(
    root: Seq<char>,
    path: Seq<char>,
    meta: EntryView,
    known: Map<Seq<char>, EntryView>,
    env: Seq<(Seq<char>, Seq<char>)>,
    replies: Seq<GitReply>,
    i: int,
    branch: Seq<char>,
)
    requires
        0 <= i,
        i + 2 < replies.len(),
        inside(replies[i]),
        on_branch(replies[i + 1], branch),
        talk_laws::fine(replies[i + 2]),
        talk_laws::said(replies[i + 2]).len() <= usize::MAX,
        !text_laws::all_white(talk_laws::said(replies[i + 2])),
        autocommit::since_last(meta.last_auto_commit, replies[i + 2].at.secs) >= 900,
    ensures
        ({
            let f = autocommit::run_one_flow(root, path, meta, false, known, env, replies, i);
            let message = "wip: auto-commit daemon "@ + replies[i + 2].at.iso@;
            let c = commit::commit_all_flow(message, env, replies, i + 3);
            match c {
                Flow::Run(x) => f == Flow::<Visit<AutocommitView>>::Run(x),
                Flow::Done(Err(why), n) => f == Flow::<Visit<AutocommitView>>::Done(Err(why), n),
                Flow::Done(Ok(made), n) => {
                    let p = push::try_push_or_snapshot_flow(
                        branch,
                        replies[n - 1].at.tag@,
                        replies,
                        n,
                    );
                    if !made {
                        f matches Flow::Done(Ok(visit), m) && m == n && !visit.record.committed
                            && visit.record.error == Some("commit failed"@)
                            && !visit.record.pushed && !visit.record.dry_run
                            && visit.record.skip is None && visit.record.commit_message is None
                            && visit.record.push_detail is None && visit.record.branch == branch
                            && visit.record.dirty_before == counted(replies[i + 2])
                            && visit.record.since_last_sec == autocommit::since_last(
                            meta.last_auto_commit,
                            replies[i + 2].at.secs,
                        ) && visit.log.len() == 0
                            && noted(known, visit.known, path, replies[n - 1].at.iso@)
                            && visit.known[path].last_auto_commit == knew(
                            known,
                            path,
                        ).last_auto_commit && visit.known[path].last_dirty_count == knew(
                            known,
                            path,
                        ).last_dirty_count && visit.known[path].last_push_time == knew(
                            known,
                            path,
                        ).last_push_time
                    } else {
                        match p {
                            Flow::Run(x) => f == Flow::<Visit<AutocommitView>>::Run(x),
                            Flow::Done(Err(why), m) => f == Flow::<Visit<AutocommitView>>::Done(
                                Err(why),
                                m,
                            ),
                            Flow::Done(Ok((pushed, detail)), m) => f matches Flow::Done(
                                Ok(visit),
                                end,
                            ) && end == m && committed_well(
                                visit,
                                root,
                                path,
                                branch,
                                counted(replies[i + 2]),
                                message,
                                pushed,
                                detail,
                                known,
                                replies[m - 1].at.iso@,
                            ) && visit.record.since_last_sec == autocommit::since_last(
                                meta.last_auto_commit,
                                replies[i + 2].at.secs,
                            ),
                        }
                    }
                },
            }
        }),
{
    talk_laws::law_inside_work_tree(replies, i);
    lemma_branch(replies, i + 1, branch);
    talk_laws::law_changes_and_stashes(replies, i + 2);
    let message = "wip: auto-commit daemon "@ + replies[i + 2].at.iso@;
    let c = commit::commit_all_flow(message, env, replies, i + 3);
    if let Flow::Done(Ok(true), n) = c {
        let p = push::try_push_or_snapshot_flow(branch, replies[n - 1].at.tag@, replies, n);
        if let Flow::Done(Ok(pushed), m) = p {
            let since = autocommit::since_last(meta.last_auto_commit, replies[i + 2].at.secs);
            let record = autocommit::looked_at(branch, counted(replies[i + 2]) as usize, since);
            let visit = autocommit::committed_visit(
                root,
                path,
                record,
                message,
                pushed,
                replies[m - 1].at.iso@,
                known,
            );
            let event = autocommit::commit_event(path, visit.record, pushed.1, message);
            assert(tells_of_commit(event, path, visit.record, pushed.1, message));
        }
    }
}

/// What a visit has left behind in which a commit was made: the record tells of it, the registry
/// has the times and the number of changes, and the log has one line.
pub open spec fn committed_well(
    visit: Visit<AutocommitView>,
    root: Seq<char>,
    path: Seq<char>,
    branch: Seq<char>,
    dirty: int,
    message: Seq<char>,
    pushed: bool,
    detail: Seq<char>,
    known: Map<Seq<char>, EntryView>,
    now: Seq<char>,
) -> bool {
    let r = visit.record;
    let e = visit.known[path];
    &&& r.committed
    &&& r.pushed == pushed
    &&& r.branch == branch
    &&& r.dirty_before == dirty
    &&& r.skip is None
    &&& r.error is None
    &&& r.commit_message == Some(message)
    &&& r.push_detail == Some(detail)
    &&& !r.dry_run
    &&& noted(known, visit.known, path, now)
    &&& e.last_auto_commit == Some(now)
    &&& e.last_dirty_count == Some(r.dirty_before as u64)
    &&& e.last_push_time == (if pushed {
        Some(now)
    } else {
        knew(known, path).last_push_time
    })
    &&& exists|event: Json|
        visit.log == store::append_ops(root, "autocommit"@, #[trigger] json::json_line(event))
            && tells_of_commit(event, path, r, detail, message)
}

/// Whether a logged event tells of a commit: it has exactly these nine fields, by name.
pub open spec fn tells_of_commit(
    event: Json,
    path: Seq<char>,
    r: AutocommitView,
    detail: Seq<char>,
    message: Seq<char>,
) -> bool {
    event == Json::Object(
        seq![
            ("branch"@, Json::Text(r.branch)),
            ("commit_message"@, Json::Text(message)),
            ("committed"@, Json::Flag(true)),
            ("dirty_before"@, Json::Count(r.dirty_before as u64)),
            ("event"@, Json::Text("autocommit"@)),
            ("path"@, Json::Text(path)),
            ("push_detail"@, Json::Text(detail)),
            ("pushed"@, Json::Flag(r.pushed)),
            ("since_last_sec"@, Json::Count(r.since_last_sec)),
        ],
    )
}

/// A pass counts each record that a total is about, once.
pub proof fn law_autocommit_totals(
    records: Seq<(Seq<char>, AutocommitView)>,
    path: Seq<char>,
    r: AutocommitView,
    dry_run: bool,
)
    ensures
        ({
            let none = autocommit::totals(Seq::empty(), dry_run);
            let before = autocommit::totals(records, dry_run);
            let after = autocommit::totals(records.push((path, r)), dry_run);
            &&& none.visited == 0 && none.dirty_count_seen == 0 && none.committed == 0
                && none.errors == 0
            &&& after.records == records.push((path, r))
            &&& after.dry_run == dry_run
            &&& after.visited == before.visited + 1
            &&& after.dirty_count_seen == before.dirty_count_seen + if r.dirty_before > 0 {
                1int
            } else {
                0
            }
            &&& after.committed == before.committed + if r.committed {
                1int
            } else {
                0
            }
            &&& after.errors == before.errors + if r.error is Some {
                1int
            } else {
                0
            }
        }),
{
    assert(records.push((path, r)).drop_last() =~= records);
}

/// A pass visits the listed work trees one after the other, each with what the registry knows by
/// then, and goes on whatever comes of a visit. A work tree in which git could not be run is
/// recorded with the reason.
pub proof fn law_autocommit_pass_step(
    root: Seq<char>,
    list: Seq<(Seq<char>, EntryView)>,
    k: int,
    dry_run: bool,
    env: Seq<(Seq<char>, Seq<char>)>,
    so_far: Progress<AutocommitView>,
    replies: Seq<GitReply>,
    i: int,
)
    requires
        0 <= k < list.len(),
    ensures
        ({
            let f = autocommit::run_from_flow(root, list, k, dry_run, env, so_far, replies, i);
            let path = list[k].0;
            match autocommit::run_one_flow(
                root,
                path,
                list[k].1,
                dry_run,
                so_far.known,
                env,
                replies,
                i,
            ) {
                Flow::Run(command) => f == PassFlow::<AutocommitTotals>::Git {
                    log: so_far.log,
                    repo: path,
                    command,
                },
                Flow::Done(Ok(visit), n) => f == autocommit::run_from_flow(
                    root,
                    list,
                    k + 1,
                    dry_run,
                    env,
                    Progress {
                        records: so_far.records.push((path, visit.record)),
                        known: visit.known,
                        log: so_far.log + visit.log,
                    },
                    replies,
                    n,
                ),
                Flow::Done(Err(why), n) => exists|record: AutocommitView|
                    #![trigger so_far.records.push((path, record))]
                    f == autocommit::run_from_flow(
                        root,
                        list,
                        k + 1,
                        dry_run,
                        env,
                        Progress {
                            records: so_far.records.push((path, record)),
                            known: so_far.known,
                            log: so_far.log,
                        },
                        replies,
                        n,
                    ) && record.skip == Some("error"@) && record.error == Some(why)
                        && !record.committed && !record.pushed && record.dry_run == dry_run
                        && record.dirty_before == 0 && record.branch.len() == 0
                        && record.since_last_sec == 0 && record.commit_message is None
                        && record.push_detail is None,
            }
        }),
{
    match autocommit::run_one_flow(
        root,
        list[k].0,
        list[k].1,
        dry_run,
        so_far.known,
        env,
        replies,
        i,
    ) {
        Flow::Done(Err(why), n) => {
            let record = autocommit::failed_record(why, dry_run);
            let next = so_far.visited(list[k].0, autocommit::untouched(record, so_far.known));
            assert(next.records == so_far.records.push((list[k].0, record)));
            assert(next.log =~= so_far.log);
        },
        _ => {},
    }
}

/// At the end of the list a pass comes to what it has found so far, and the registry is saved as
/// it is by then, unless this was a rehearsal.
pub proof fn law_passes_end(
    root: Seq<char>,
    list: Seq<(Seq<char>, EntryView)>,
    dry_run: bool,
    env: Seq<(Seq<char>, Seq<char>)>,
    a: Progress<AutocommitView>,
    c: Progress<CleanupView>,
    replies: Seq<GitReply>,
    i: int,
)
    ensures
        autocommit::run_from_flow(root, list, list.len() as int, dry_run, env, a, replies, i)
            == (PassFlow::<AutocommitTotals>::Done {
            log: a.log,
            summary: autocommit::totals(a.records, dry_run),
            save: if dry_run {
                None
            } else {
                Some(a.known)
            },
        }),
        cleanup::run_from_flow(root, list, list.len() as int, dry_run, env, c, replies, i) == (
        PassFlow::<CleanupTotals>::Done {
            log: c.log,
            summary: cleanup::totals(c.records, dry_run),
            save: if dry_run {
                None
            } else {
                Some(c.known)
            },
        }),
{
}

proof fn lemma_autocommit_pass_ends(
    root: Seq<char>,
    list: Seq<(Seq<char>, EntryView)>,
    k: int,
    dry_run: bool,
    env: Seq<(Seq<char>, Seq<char>)>,
    so_far: Progress<AutocommitView>,
    replies: Seq<GitReply>,
    i: int,
)
    requires
        0 <= k <= list.len(),
        so_far.records.len() == k,
        forall|j: int| 0 <= j < k ==> (#[trigger] so_far.records[j]).0 == list[j].0,
    ensures
        autocommit::run_from_flow(
            root,
            list,
            k,
            dry_run,
            env,
            so_far,
            replies,
            i,
        ) matches PassFlow::Done { summary, save, .. } ==> {
            &&& (save is None <==> dry_run)
            &&& summary == autocommit::totals(summary.records, dry_run)
            &&& summary.records.len() == list.len()
            &&& forall|j: int| 0 <= j < list.len() ==> (#[trigger] summary.records[j]).0 == list[j].0
        },
    decreases list.len() - k,
{
    if k < list.len() {
        match autocommit::run_one_flow(
            root,
            list[k].0,
            list[k].1,
            dry_run,
            so_far.known,
            env,
            replies,
            i,
        ) {
            Flow::Run(_) => {},
            Flow::Done(Ok(visit), n) => {
                lemma_autocommit_pass_ends(
                    root,
                    list,
                    k + 1,
                    dry_run,
                    env,
                    so_far.visited(list[k].0, visit),
                    replies,
                    n,
                );
            },
            Flow::Done(Err(why), n) => {
                lemma_autocommit_pass_ends(
                    root,
                    list,
                    k + 1,
                    dry_run,
                    env,
                    so_far.visited(
                        list[k].0,
                        autocommit::untouched(
                            autocommit::failed_record(why, dry_run),
                            so_far.known,
                        ),
                    ),
                    replies,
                    n,
                );
            },
        }
    }
}

/// A pass begins with the first work tree, and ends only when every listed one has its record, in
/// the order of the list. The registry is saved if and only if this was no rehearsal.
pub proof fn law_autocommit_pass_visits_all(
    root: Seq<char>,
    list: Seq<(Seq<char>, EntryView)>,
    known: Map<Seq<char>, EntryView>,
    dry_run: bool,
    env: Seq<(Seq<char>, Seq<char>)>,
    replies: Seq<GitReply>,
)
    ensures
        autocommit::run_flow(root, list, known, dry_run, env, replies)
            == autocommit::run_from_flow(
            root,
            list,
            0,
            dry_run,
            env,
            Progress { records: Seq::empty(), known, log: Seq::empty() },
            replies,
            0,
        ),
        autocommit::run_flow(root, list, known, dry_run, env, replies) matches PassFlow::Done {
            summary,
            save,
            ..
        } ==> {
            &&& (save is None <==> dry_run)
            &&& summary == autocommit::totals(summary.records, dry_run)
            &&& summary.records.len() == list.len()
            &&& forall|j: int| 0 <= j < list.len() ==> (#[trigger] summary.records[j]).0 == list[j].0
        },
{
    lemma_autocommit_pass_ends(
        root,
        list,
        0,
        dry_run,
        env,
        Progress { records: Seq::empty(), known, log: Seq::empty() },
        replies,
        0,
    );
}

/// Whether a cleanup visit has done nothing, for the given reason.
pub open spec fn skipped(
    visit: Visit<CleanupView>,
    known: Map<Seq<char>, EntryView>,
    why: Seq<char>,
) -> bool {
    let r = visit.record;
    &&& visit.known == known
    &&& visit.log.len() == 0
    &&& r.skip == Some(why)
    &&& r.stashes_seen == 0 && r.stashes_recovered == 0 && r.stashes_failed == 0
    &&& r.stash_errors.len() == 0
    &&& r.ahead == 0
    &&& r.push_ok is None && r.push_detail is None
}

/// What a cleanup visit looks at first: whether this is a work tree, which branch is checked out,
/// how many stashes there are, and, where there are any, how they are named. Where git cannot be
/// run, this is no work tree, there is no branch, or there is no stash.
pub proof fn law_cleanup_looks_first(
    root: Seq<char>,
    path: Seq<char>,
    dry_run: bool,
    known: Map<Seq<char>, EntryView>,
    env: Seq<(Seq<char>, Seq<char>)>,
    replies: Seq<GitReply>,
    i: int,
    branch: Seq<char>,
)
    requires
        0 <= i,
        i + 2 < replies.len() && replies[i + 2].outcome is Ok ==> talk_laws::said(replies[i + 2]).len()
            <= usize::MAX,
    ensures
        ({
            let f = cleanup::run_one_flow(root, path, dry_run, known, env, replies, i);
            let run = |c: crate::flow::Command| Flow::<Visit<CleanupView>>::Run(c);
            let here = i < replies.len() && inside(replies[i]);
            let named = here && i + 1 < replies.len() && on_branch(replies[i + 1], branch);
            &&& i >= replies.len() ==> f == run(
                talk_laws::cmd(seq!["rev-parse"@, "--is-inside-work-tree"@]),
            )
            &&& i < replies.len() && !inside(replies[i]) ==> (f matches Flow::Done(Ok(visit), n) && n
                == i + 1 && skipped(visit, known, "not-a-git-repo"@))
            &&& here && i + 1 >= replies.len() ==> f == run(
                talk_laws::cmd(seq!["rev-parse"@, "--abbrev-ref"@, "HEAD"@]),
            )
            &&& here && i + 1 < replies.len() && (replies[i + 1].outcome is Err || on_no_branch(
                replies[i + 1],
            )) ==> (f matches Flow::Done(Ok(visit), n) && n == i + 2 && skipped(
                visit,
                known,
                "detached-head"@,
            ))
            &&& named && i + 2 >= replies.len() ==> f == run(talk_laws::cmd(seq!["stash"@, "list"@]))
            &&& named && i + 2 < replies.len() && counted(replies[i + 2]) > 0 && i + 3
                >= replies.len() ==> f == run(talk_laws::cmd(seq!["stash"@, "list"@, "--pretty=%gd"@]))
        }),
{
    talk_laws::law_inside_work_tree(replies, i);
    if i < replies.len() && inside(replies[i]) {
        talk_laws::law_current_branch(replies, i + 1);
        if i + 1 < replies.len() {
            if on_no_branch(replies[i + 1]) {
                lemma_no_branch(replies, i + 1);
            }
            if on_branch(replies[i + 1], branch) {
                lemma_branch(replies, i + 1, branch);
                talk_laws::law_changes_and_stashes(replies, i + 2);
            }
        }
    }
}

/// The stashes that a visit counts are the lines that git prints of them; their names are the
/// lines of the second list, each without the white space round it.
pub proof fn law_stashes_are_listed(replies: Seq<GitReply>, i: int)
    requires
        0 <= i,
        i + 2 < replies.len(),
        replies[i + 2].outcome is Ok ==> talk_laws::said(replies[i + 2]).len() <= usize::MAX,
    ensures
        safety::listed(replies, i).0 == counted(replies[i + 2]),
        counted(replies[i + 2]) == 0 ==> safety::listed(replies, i).1 == Flow::<
            Seq<Seq<char>>,
        >::Done(Ok(Seq::empty()), i + 3),
        counted(replies[i + 2]) > 0 && i + 3 < replies.len() ==> safety::listed(replies, i).1
            == Flow::<Seq<Seq<char>>>::Done(
            Ok(
                if replies[i + 3].outcome is Ok {
                    text::trimmed_lines(talk_laws::said(replies[i + 3]))
                } else {
                    Seq::empty()
                },
            ),
            i + 4,
        ),
{
    talk_laws::law_changes_and_stashes(replies, i + 2);
}

/// What one stash adds to the record and to the log of a visit. The stash with the last name is
/// tried first. It counts as recovered or as failed, with the reason; and one that was tried to the
/// end leaves a line in the log.
pub proof fn law_stash_is_recorded(
    root: Seq<char>,
    path: Seq<char>,
    names: Seq<Seq<char>>,
    k: int,
    env: Seq<(Seq<char>, Seq<char>)>,
    so_far: cleanup::Rescue,
    replies: Seq<GitReply>,
    i: int,
)
    requires
        0 < k <= names.len(),
        0 < i,
    ensures
        ({
            let f = cleanup::rescue_flow(root, path, names, k, false, env, so_far, replies, i);
            let name = names[k - 1];
            match stash::recover_one_stash_flow(name, replies[i - 1].at.tag@, env, replies, i) {
                Flow::Run(c) => f == Flow::<cleanup::Rescue>::Run(c),
                Flow::Done(Ok(r), n) => exists|event: Json, after: cleanup::Rescue|
                    #![trigger json::json_line(event), after.recovered]
                    {
                        &&& f == cleanup::rescue_flow(
                            root,
                            path,
                            names,
                            k - 1,
                            false,
                            env,
                            after,
                            replies,
                            n,
                        )
                        &&& after.log == so_far.log + store::append_ops(
                            root,
                            "cleanup"@,
                            json::json_line(event),
                        )
                        &&& tells_of_stash(event, path, name, r.0, r.1)
                        &&& after.recovered == so_far.recovered + if r.0 {
                            1int
                        } else {
                            0
                        }
                        &&& after.failed == so_far.failed + if r.0 {
                            0int
                        } else {
                            1
                        }
                        &&& after.errors == if r.0 {
                            so_far.errors
                        } else {
                            seq![(name, r.1)] + so_far.errors
                        }
                    },
                Flow::Done(Err(why), n) => f == cleanup::rescue_flow(
                    root,
                    path,
                    names,
                    k - 1,
                    false,
                    env,
                    cleanup::Rescue {
                        recovered: so_far.recovered,
                        failed: so_far.failed + 1,
                        errors: seq![(name, why)] + so_far.errors,
                        log: so_far.log,
                    },
                    replies,
                    n,
                ),
            }
        }),
{
    let name = names[k - 1];
    match stash::recover_one_stash_flow(name, replies[i - 1].at.tag@, env, replies, i) {
        Flow::Done(Ok(r), n) => {
            let event = cleanup::stash_event(path, name, r.0, r.1);
            let after = so_far.tried(root, path, name, r.0, r.1);
            assert(tells_of_stash(event, path, name, r.0, r.1));
            assert(after.log == so_far.log + store::append_ops(
                root,
                "cleanup"@,
                json::json_line(event),
            ));
            assert(after.recovered >= 0);
        },
        _ => {},
    }
}

/// Whether a logged event tells of a stash: it has exactly these five fields, by name.
pub open spec fn tells_of_stash(
    event: Json,
    path: Seq<char>,
    name: Seq<char>,
    ok: bool,
    msg: Seq<char>,
) -> bool {
    event == Json::Object(
        seq![
            ("event"@, Json::Text("stash-recover"@)),
            ("msg"@, Json::Text(msg)),
            ("ok"@, Json::Flag(ok)),
            ("path"@, Json::Text(path)),
            ("ref"@, Json::Text(name)),
        ],
    )
}

/// Before any stash was tried nothing is counted and nothing logged; and where none is left, what
/// came of the others is the result.
pub proof fn law_no_stash_left(
    root: Seq<char>,
    path: Seq<char>,
    names: Seq<Seq<char>>,
    dry_run: bool,
    env: Seq<(Seq<char>, Seq<char>)>,
    so_far: cleanup::Rescue,
    replies: Seq<GitReply>,
    i: int,
)
    ensures
        cleanup::rescue_flow(root, path, names, 0, dry_run, env, so_far, replies, i) == Flow::<
            cleanup::Rescue,
        >::Done(Ok(so_far), i),
        cleanup::Rescue::nothing().recovered == 0,
        cleanup::Rescue::nothing().failed == 0,
        cleanup::Rescue::nothing().errors.len() == 0,
        cleanup::Rescue::nothing().log.len() == 0,
{
}

/// A rehearsal counts every listed stash as recovered, and asks for nothing.
pub proof fn law_rehearsal_counts_stashes(
    root: Seq<char>,
    path: Seq<char>,
    names: Seq<Seq<char>>,
    k: int,
    env: Seq<(Seq<char>, Seq<char>)>,
    so_far: cleanup::Rescue,
    replies: Seq<GitReply>,
    i: int,
)
    requires
        0 <= k,
    ensures
        cleanup::rescue_flow(root, path, names, k, true, env, so_far, replies, i) == Flow::<
            cleanup::Rescue,
        >::Done(
            Ok(cleanup::Rescue { recovered: (so_far.recovered + k) as nat, ..so_far }),
            i,
        ),
    decreases k,
{
    if k > 0 {
        law_rehearsal_counts_stashes(
            root,
            path,
            names,
            k - 1,
            env,
            cleanup::Rescue { recovered: so_far.recovered + 1, ..so_far },
            replies,
            i,
        );
    }
}

/// Where a visit stands once the stashes are done: the branch, what came of the stashes, and the
/// number of replies used.
pub open spec fn stashes_done(
    root: Seq<char>,
    path: Seq<char>,
    dry_run: bool,
    env: Seq<(Seq<char>, Seq<char>)>,
    replies: Seq<GitReply>,
    i: int,
    branch: Seq<char>,
    r: cleanup::Rescue,
    n: int,
) -> bool {
    &&& 0 <= i && i + 2 < replies.len()
    &&& inside(replies[i])
    &&& on_branch(replies[i + 1], branch)
    &&& safety::listed(replies, i).1 matches Flow::Done(Ok(names), m) && safety::rescue_in_visit(
        root,
        path,
        dry_run,
        env,
        replies,
        names,
        m,
    ) == Flow::<cleanup::Rescue>::Done(Ok(r), n)
}

/// Once the stashes are done, the commits that the remote does not have are counted. Where there
/// is at least one, whatever the remote has on its side, and this is no rehearsal, the current
/// branch is pushed by fast-forward; else the visit is over. What came of the push is recorded,
/// noted and logged.
pub proof fn law_cleanup_pushes_what_is_ahead(
    root: Seq<char>,
    path: Seq<char>,
    dry_run: bool,
    known: Map<Seq<char>, EntryView>,
    env: Seq<(Seq<char>, Seq<char>)>,
    replies: Seq<GitReply>,
    i: int,
    branch: Seq<char>,
    r: cleanup::Rescue,
    n: int,
)
    requires
        stashes_done(root, path, dry_run, env, replies, i, branch, r, n),
        n >= 0,
    ensures
        ({
            let f = cleanup::run_one_flow(root, path, dry_run, known, env, replies, i);
            let seen = safety::listed(replies, i).0;
            let ahead: usize = match git_ops::ahead_behind_flow(branch, replies, n) {
                Flow::Done(Ok(counts), _) => counts.0,
                _ => 0,
            };
            &&& n >= replies.len() ==> f == Flow::<Visit<CleanupView>>::Run(
                talk_laws::cmd(
                    seq![
                        "rev-list"@,
                        "--left-right"@,
                        "--count"@,
                        branch + "...origin/"@ + branch,
                    ],
                ),
            )
            &&& n < replies.len() && (ahead == 0 || dry_run) ==> (f matches Flow::Done(Ok(visit), m)
                && m == n + 1 && of_stashes(visit.record, seen, r) && visit.record.ahead == ahead
                && visit.record.push_ok is None && visit.record.push_detail is None && visit.known
                == known && visit.log == r.log)
            &&& n < replies.len() && ahead > 0 && !dry_run && n + 1 >= replies.len() ==> f == Flow::<
                Visit<CleanupView>,
            >::Run(talk_laws::slow(seq!["push"@, "--ff-only"@, "origin"@, branch]))
            &&& n < replies.len() && ahead > 0 && !dry_run ==> match push::try_push_or_snapshot_flow(
                branch,
                replies[n].at.tag@,
                replies,
                n + 1,
            ) {
                Flow::Run(c) => f == Flow::<Visit<CleanupView>>::Run(c),
                Flow::Done(Err(why), m) => f matches Flow::Done(Ok(visit), end) && end == m
                    && of_stashes(visit.record, seen, r) && visit.record.ahead == ahead
                    && visit.record.push_ok == Some(false) && visit.record.push_detail == Some(why)
                    && visit.known == known && visit.log == r.log,
                Flow::Done(Ok((pushed, detail)), m) => f matches Flow::Done(Ok(visit), end) && end
                    == m && of_stashes(visit.record, seen, r) && visit.record.ahead == ahead
                    && visit.record.push_ok == Some(pushed) && visit.record.push_detail == Some(
                    detail,
                ) && push_noted(
                    visit,
                    root,
                    path,
                    branch,
                    ahead,
                    pushed,
                    detail,
                    known,
                    replies[m - 1].at.iso@,
                    r.log,
                ),
            }
        }),
{
    talk_laws::law_inside_work_tree(replies, i);
    lemma_branch(replies, i + 1, branch);
    let seen = safety::listed(replies, i).0;
    let ahead: usize = match git_ops::ahead_behind_flow(branch, replies, n) {
        Flow::Done(Ok(counts), _) => counts.0,
        _ => 0,
    };
    assert(cleanup::run_one_flow(root, path, dry_run, known, env, replies, i)
        == cleanup::push_ahead_flow(
        root,
        path,
        branch,
        cleanup::rescued_record(seen, r),
        dry_run,
        known,
        r.log,
        replies,
        n,
    ));
    if n < replies.len() && ahead > 0 && !dry_run {
        talk_laws::law_push_or_keep(branch, replies[n].at.tag@, replies, n + 1);
        if let Flow::Done(Ok(pushed), m) = push::try_push_or_snapshot_flow(
            branch,
            replies[n].at.tag@,
            replies,
            n + 1,
        ) {
            let event = cleanup::push_event(path, branch, ahead, pushed.0, pushed.1);
            assert(tells_of_push(event, path, branch, ahead, pushed.0, pushed.1));
        }
    }
}

/// Whether a record tells what came of the stashes, and that nothing was skipped.
pub open spec fn of_stashes(record: CleanupView, seen: usize, r: cleanup::Rescue) -> bool {
    &&& record.skip is None
    &&& record.stashes_seen == seen
    &&& record.stashes_recovered == r.recovered
    &&& record.stashes_failed == r.failed
    &&& record.stash_errors == r.errors
}

/// What a push leaves behind in the registry and in the log.
pub open spec fn push_noted(
    visit: Visit<CleanupView>,
    root: Seq<char>,
    path: Seq<char>,
    branch: Seq<char>,
    ahead: usize,
    pushed: bool,
    detail: Seq<char>,
    known: Map<Seq<char>, EntryView>,
    now: Seq<char>,
    log: Seq<crate::state::FileOp>,
) -> bool {
    let e = visit.known[path];
    &&& noted(known, visit.known, path, now)
    &&& e.last_auto_commit == knew(known, path).last_auto_commit
    &&& e.last_dirty_count == knew(known, path).last_dirty_count
    &&& e.last_push_time == (if pushed {
        Some(now)
    } else {
        knew(known, path).last_push_time
    })
    &&& exists|event: Json|
        visit.log == log + store::append_ops(root, "cleanup"@, #[trigger] json::json_line(event))
            && tells_of_push(event, path, branch, ahead, pushed, detail)
}

/// Whether a logged event tells of a push: it has exactly these six fields, by name.
pub open spec fn tells_of_push(
    event: Json,
    path: Seq<char>,
    branch: Seq<char>,
    ahead: usize,
    ok: bool,
    msg: Seq<char>,
) -> bool {
    event == Json::Object(
        seq![
            ("ahead"@, Json::Count(ahead as u64)),
            ("branch"@, Json::Text(branch)),
            ("event"@, Json::Text("branch-push"@)),
            ("msg"@, Json::Text(msg)),
            ("ok"@, Json::Flag(ok)),
            ("path"@, Json::Text(path)),
        ],
    )
}

/// In the record of a visit that was not skipped no push was tried if and only if nothing is
/// ahead of the remote or this was a rehearsal.
#[verifier::spinoff_prover]
#[verifier::rlimit(40)]
pub proof fn law_no_push_only_if_nothing_is_ahead(
    root: Seq<char>,
    path: Seq<char>,
    dry_run: bool,
    known: Map<Seq<char>, EntryView>,
    env: Seq<(Seq<char>, Seq<char>)>,
    replies: Seq<GitReply>,
    i: int,
)
    requires
        0 <= i <= replies.len(),
    ensures
        cleanup::run_one_flow(root, path, dry_run, known, env, replies, i) matches Flow::Done(
            Ok(visit),
            _,
        ) ==> visit.record.skip is None ==> (visit.record.push_ok is None <==> visit.record.ahead
            == 0 || dry_run),
{
    match cleanup::run_one_flow(root, path, dry_run, known, env, replies, i) {
        Flow::Done(Ok(visit), _) => {
            if visit.record.skip is None {
                safety::lemma_visit_got_through(root, path, dry_run, known, env, replies, i);
            }
        },
        _ => {},
    }
}

/// A pass counts each record that a total is about, once; the stashes add up, to at most the
/// largest number that fits.
pub proof fn law_cleanup_totals(
    records: Seq<(Seq<char>, CleanupView)>,
    path: Seq<char>,
    r: CleanupView,
    dry_run: bool,
)
    ensures
        ({
            let none = cleanup::totals(Seq::empty(), dry_run);
            let before = cleanup::totals(records, dry_run);
            let after = cleanup::totals(records.push((path, r)), dry_run);
            let sum = before.stashes_recovered + r.stashes_recovered;
            &&& none.visited == 0 && none.stashes_recovered == 0 && none.commits_pushed == 0
                && none.errors == 0
            &&& after.records == records.push((path, r))
            &&& after.dry_run == dry_run
            &&& after.visited == before.visited + 1
            &&& after.stashes_recovered == if sum <= usize::MAX {
                sum as int
            } else {
                usize::MAX as int
            }
            &&& after.commits_pushed == before.commits_pushed + if r.push_ok == Some(true) {
                1int
            } else {
                0
            }
            &&& after.errors == before.errors + if r.stashes_failed > 0 {
                1int
            } else {
                0
            }
        }),
{
    assert(records.push((path, r)).drop_last() =~= records);
}

/// A pass visits the listed work trees one after the other, each with what the registry knows by
/// then.
pub proof fn law_cleanup_pass_step(
    root: Seq<char>,
    list: Seq<(Seq<char>, EntryView)>,
    k: int,
    dry_run: bool,
    env: Seq<(Seq<char>, Seq<char>)>,
    so_far: Progress<CleanupView>,
    replies: Seq<GitReply>,
    i: int,
)
    requires
        0 <= k < list.len(),
    ensures
        ({
            let f = cleanup::run_from_flow(root, list, k, dry_run, env, so_far, replies, i);
            let path = list[k].0;
            match cleanup::run_one_flow(root, path, dry_run, so_far.known, env, replies, i) {
                Flow::Run(command) => f == PassFlow::<CleanupTotals>::Git {
                    log: so_far.log,
                    repo: path,
                    command,
                },
                Flow::Done(Ok(visit), n) => f == cleanup::run_from_flow(
                    root,
                    list,
                    k + 1,
                    dry_run,
                    env,
                    Progress {
                        records: so_far.records.push((path, visit.record)),
                        known: visit.known,
                        log: so_far.log + visit.log,
                    },
                    replies,
                    n,
                ),
                Flow::Done(Err(_), _) => true,
            }
        }),
{
}

proof fn lemma_cleanup_pass_ends(
    root: Seq<char>,
    list: Seq<(Seq<char>, EntryView)>,
    k: int,
    dry_run: bool,
    env: Seq<(Seq<char>, Seq<char>)>,
    so_far: Progress<CleanupView>,
    replies: Seq<GitReply>,
    i: int,
)
    requires
        0 <= k <= list.len(),
        so_far.records.len() == k,
        forall|j: int| 0 <= j < k ==> (#[trigger] so_far.records[j]).0 == list[j].0,
    ensures
        cleanup::run_from_flow(
            root,
            list,
            k,
            dry_run,
            env,
            so_far,
            replies,
            i,
        ) matches PassFlow::Done { summary, save, .. } ==> {
            &&& (save is None <==> dry_run)
            &&& summary == cleanup::totals(summary.records, dry_run)
            &&& summary.records.len() == list.len()
            &&& forall|j: int| 0 <= j < list.len() ==> (#[trigger] summary.records[j]).0 == list[j].0
        },
    decreases list.len() - k,
{
    if k < list.len() {
        match cleanup::run_one_flow(root, list[k].0, dry_run, so_far.known, env, replies, i) {
            Flow::Run(_) => {},
            Flow::Done(visit, n) => {
                lemma_cleanup_pass_ends(
                    root,
                    list,
                    k + 1,
                    dry_run,
                    env,
                    so_far.visited(list[k].0, visit->Ok_0),
                    replies,
                    n,
                );
            },
        }
    }
}

/// A pass begins with the first work tree, and ends only when every listed one has its record, in
/// the order of the list. The registry is saved if and only if this was no rehearsal.
pub proof fn law_cleanup_pass_visits_all(
    root: Seq<char>,
    list: Seq<(Seq<char>, EntryView)>,
    known: Map<Seq<char>, EntryView>,
    dry_run: bool,
    env: Seq<(Seq<char>, Seq<char>)>,
    replies: Seq<GitReply>,
)
    ensures
        cleanup::run_flow(root, list, known, dry_run, env, replies) == cleanup::run_from_flow(
            root,
            list,
            0,
            dry_run,
            env,
            Progress { records: Seq::empty(), known, log: Seq::empty() },
            replies,
            0,
        ),
        cleanup::run_flow(root, list, known, dry_run, env, replies) matches PassFlow::Done {
            summary,
            save,
            ..
        } ==> {
            &&& (save is None <==> dry_run)
            &&& summary == cleanup::totals(summary.records, dry_run)
            &&& summary.records.len() == list.len()
            &&& forall|j: int| 0 <= j < list.len() ==> (#[trigger] summary.records[j]).0 == list[j].0
        },
{
    lemma_cleanup_pass_ends(
        root,
        list,
        0,
        dry_run,
        env,
        Progress { records: Seq::empty(), known, log: Seq::empty() },
        replies,
        0,
    );
}

} // verus!
