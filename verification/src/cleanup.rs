//! The cleanup pass, which is due every eight hours.
//!
//! In every registered work tree the stashes are brought to safety, and commits of the current
//! branch that the remote does not have are pushed.
use crate::flow;
use crate::flow::{args3, git};
use crate::flow::{Flow, GitReply, GitResult, Step};
use crate::git_ops;
use crate::git_ops::{ahead_behind, current_branch, is_inside_work_tree, stash_count};
use crate::json;
use crate::json::{count_value, flag_value, object_value, text_value, Json};
use crate::pass;
use crate::pass::{log_more, PassFlow, PassStep, Progress, Visit};
use crate::push;
use crate::push::try_push_or_snapshot;
use crate::registry;
use crate::registry::{upsert_entry_at, Registry, RepoEntry};
use crate::stash;
use crate::stash::recover_one_stash;
use crate::state;
use crate::state::{FileAction, FileOp, StateRoot};
use crate::store;
use crate::store::append_event;
use crate::text;
use crate::text::{filled_trimmed_lines, flag, show};
use vstd::prelude::*;

verus! {

/// What was found in one work tree, and what was done about it.
#[derive(Debug, Clone, PartialEq, Eq)]
pub struct CleanupRecord {
    pub stashes_seen: usize,
    pub stashes_recovered: usize,
    pub stashes_failed: usize,
    pub stash_errors: Vec<(String, String)>,
    pub ahead: usize,
    pub push_ok: Option<bool>,
    pub push_detail: Option<String>,
    pub skip: Option<String>,
}

/// The model of a [`CleanupRecord`].
#[verifier::ext_equal]
pub struct CleanupView {
    pub stashes_seen: usize,
    pub stashes_recovered: nat,
    pub stashes_failed: nat,
    pub stash_errors: Seq<(Seq<char>, Seq<char>)>,
    pub ahead: usize,
    pub push_ok: Option<bool>,
    pub push_detail: Option<Seq<char>>,
    pub skip: Option<Seq<char>>,
}

impl View for CleanupRecord {
    type V = CleanupView;

    open spec fn view(&self) -> CleanupView {
        CleanupView {
            stashes_seen: self.stashes_seen,
            stashes_recovered: self.stashes_recovered as nat,
            stashes_failed: self.stashes_failed as nat,
            stash_errors: flow::env_views(self.stash_errors@),
            ahead: self.ahead,
            push_ok: self.push_ok,
            push_detail: self.push_detail.deep_view(),
            skip: self.skip.deep_view(),
        }
    }
}

/// A record in which nothing was found and nothing done.
pub open spec fn blank_record() -> CleanupView {
    CleanupView {
        stashes_seen: 0,
        stashes_recovered: 0,
        stashes_failed: 0,
        stash_errors: Seq::empty(),
        ahead: 0,
        push_ok: None,
        push_detail: None,
        skip: None,
    }
}

impl Default for CleanupRecord {
    fn default() -> (r: CleanupRecord)
        ensures
            r@ == blank_record(),
    {
        let r = CleanupRecord {
            stashes_seen: 0,
            stashes_recovered: 0,
            stashes_failed: 0,
            stash_errors: Vec::new(),
            ahead: 0,
            push_ok: None,
            push_detail: None,
            skip: None,
        };
        proof {
            assert(r@ =~= blank_record());
        }
        r
    }
}

/// The command that lists the names of the stashes.
pub open spec fn stash_names_command() -> flow::Command {
    flow::plain(seq!["stash"@, "list"@, "--pretty=%gd"@])
}

/// The names of the stashes, where there are any; none where git could not be asked.
pub open spec fn stash_names_flow(
    seen: usize,
    replies: Seq<GitReply>,
    i: int,
) -> Flow<Seq<Seq<char>>> {
    if seen == 0 {
        Flow::Done(Ok(Seq::empty()), i)
    } else {
        flow::chain_or(
            flow::ask(
                replies,
                i,
                stash_names_command(),
                |r: GitResult| Flow::Done(Ok(text::trimmed_lines(r.stdout@)), i + 1),
            ),
            Seq::empty(),
            |names: Seq<Seq<char>>, n: int| Flow::Done(Ok(names), n),
        )
    }
}

/// What came of the stashes so far, and what was logged. The errors are in the order in which the
/// stashes are listed: as the last stash is tried first, each new one goes in front.
#[verifier::ext_equal]
pub struct Rescue {
    pub recovered: nat,
    pub failed: nat,
    pub errors: Seq<(Seq<char>, Seq<char>)>,
    pub log: Seq<FileOp>,
}

/// The event that is logged for a stash.
pub open spec fn stash_event(
    path: Seq<char>,
    stash: Seq<char>,
    ok: bool,
    msg: Seq<char>,
) -> Json {
    Json::Object(
        seq![
            ("event"@, Json::Text("stash-recover"@)),
            ("msg"@, Json::Text(msg)),
            ("ok"@, Json::Flag(ok)),
            ("path"@, Json::Text(path)),
            ("ref"@, Json::Text(stash)),
        ],
    )
}

impl Rescue {
    /// No stash was looked at yet.
    pub open spec fn nothing() -> Rescue {
        Rescue { recovered: 0, failed: 0, errors: Seq::empty(), log: Seq::empty() }
    }

    /// After one more stash, which was brought to safety or not.
    pub open spec fn tried(
        self,
        root: Seq<char>,
        path: Seq<char>,
        stash: Seq<char>,
        ok: bool,
        msg: Seq<char>,
    ) -> Rescue {
        let log = self.log + store::append_ops(
            root,
            "cleanup"@,
            json::json_line(stash_event(path, stash, ok, msg)),
        );
        if ok {
            Rescue { recovered: self.recovered + 1, log, ..self }
        } else {
            Rescue {
                failed: self.failed + 1,
                errors: seq![(stash, msg)] + self.errors,
                log,
                ..self
            }
        }
    }

    /// After one more stash, for which a command could not be run.
    pub open spec fn gave_up(self, stash: Seq<char>, why: Seq<char>) -> Rescue {
        Rescue { failed: self.failed + 1, errors: seq![(stash, why)] + self.errors, ..self }
    }
}

/// Brings the first `k` of the stashes `names` to safety, the last of them first. A rehearsal only
/// counts them. Git lists stashes by their numbers, and to drop one renumbers those with a higher
/// number: so none is asked for by a name that an earlier drop has changed.
pub open spec fn rescue_flow(
    root: Seq<char>,
    path: Seq<char>,
    names: Seq<Seq<char>>,
    k: int,
    dry_run: bool,
    env: Seq<(Seq<char>, Seq<char>)>,
    so_far: Rescue,
    replies: Seq<GitReply>,
    i: int,
) -> Flow<Rescue>
    decreases k,
{
    if k <= 0 {
        Flow::Done(Ok(so_far), i)
    } else if dry_run {
        rescue_flow(
            root,
            path,
            names,
            k - 1,
            dry_run,
            env,
            Rescue { recovered: so_far.recovered + 1, ..so_far },
            replies,
            i,
        )
    } else {
        match stash::recover_one_stash_flow(
            names[k - 1],
            replies[i - 1].at.tag@,
            env,
            replies,
            i,
        ) {
            Flow::Run(c) => Flow::Run(c),
            Flow::Done(Ok(r), n) => rescue_flow(
                root,
                path,
                names,
                k - 1,
                dry_run,
                env,
                so_far.tried(root, path, names[k - 1], r.0, r.1),
                replies,
                n,
            ),
            Flow::Done(Err(why), n) => rescue_flow(
                root,
                path,
                names,
                k - 1,
                dry_run,
                env,
                so_far.gave_up(names[k - 1], why),
                replies,
                n,
            ),
        }
    }
}

/// The entry of a work tree after a push at the time `now`, which went through or not.
pub open spec fn pushed_entry(
    e: registry::EntryView,
    pushed: bool,
    now: Seq<char>,
) -> registry::EntryView {
    registry::EntryView {
        last_push_time: if pushed {
            Some(now)
        } else {
            e.last_push_time
        },
        ..e
    }
}

/// The event that is logged for a push.
pub open spec fn push_event(
    path: Seq<char>,
    branch: Seq<char>,
    ahead: usize,
    ok: bool,
    msg: Seq<char>,
) -> Json {
    Json::Object(
        seq![
            ("ahead"@, Json::Count(ahead as u64)),
            ("branch"@, Json::Text(branch)),
            ("event"@, Json::Text("branch-push"@)),
            ("msg"@, Json::Text(msg)),
            ("ok"@, Json::Flag(ok)),
            ("path"@, Json::Text(path)),
        ],
    )
}

/// What a visit comes to in which a push was tried, at the time `now`.
pub open spec fn pushed_visit(
    root: Seq<char>,
    path: Seq<char>,
    branch: Seq<char>,
    record: CleanupView,
    pushed: (bool, Seq<char>),
    now: Seq<char>,
    known: Map<Seq<char>, registry::EntryView>,
    log: Seq<FileOp>,
) -> Visit<CleanupView> {
    Visit {
        record: CleanupView {
            push_ok: Some(pushed.0),
            push_detail: Some(pushed.1),
            ..record
        },
        known: known.insert(
            path,
            pushed_entry(registry::touched(known, path, now), pushed.0, now),
        ),
        log: log + store::append_ops(
            root,
            "cleanup"@,
            json::json_line(push_event(path, branch, record.ahead, pushed.0, pushed.1)),
        ),
    }
}

/// Pushes the commits of `branch` that the remote does not have. A rehearsal only counts them.
pub open spec fn push_ahead_flow(
    root: Seq<char>,
    path: Seq<char>,
    branch: Seq<char>,
    record: CleanupView,
    dry_run: bool,
    known: Map<Seq<char>, registry::EntryView>,
    log: Seq<FileOp>,
    replies: Seq<GitReply>,
    i: int,
) -> Flow<Visit<CleanupView>> {
    flow::chain_or(
        git_ops::ahead_behind_flow(branch, replies, i),
        (0usize, 0usize),
        |counts: (usize, usize), n: int|
            {
                let counted = CleanupView { ahead: counts.0, ..record };
                if counts.0 == 0 || dry_run {
                    Flow::Done(Ok(Visit { record: counted, known, log }), n)
                } else {
                    match push::try_push_or_snapshot_flow(
                        branch,
                        replies[n - 1].at.tag@,
                        replies,
                        n,
                    ) {
                        Flow::Run(c) => Flow::Run(c),
                        Flow::Done(Ok(pushed), m) => Flow::Done(
                            Ok(
                                pushed_visit(
                                    root,
                                    path,
                                    branch,
                                    counted,
                                    pushed,
                                    replies[m - 1].at.iso@,
                                    known,
                                    log,
                                ),
                            ),
                            m,
                        ),
                        Flow::Done(Err(why), m) => Flow::Done(
                            Ok(
                                Visit {
                                    record: CleanupView {
                                        push_ok: Some(false),
                                        push_detail: Some(why),
                                        ..counted
                                    },
                                    known,
                                    log,
                                },
                            ),
                            m,
                        ),
                    }
                }
            },
    )
}

/// Looks at one work tree, brings its stashes to safety, and pushes what the remote does not
/// have. It never ends in an error.
pub open spec fn run_one_flow(
    root: Seq<char>,
    path: Seq<char>,
    dry_run: bool,
    known: Map<Seq<char>, registry::EntryView>,
    env: Seq<(Seq<char>, Seq<char>)>,
    replies: Seq<GitReply>,
    i: int,
) -> Flow<Visit<CleanupView>> {
    flow::chain_or(
        git_ops::is_inside_work_tree_flow(replies, i),
        false,
        |inside: bool, n1: int|
            if !inside {
                Flow::Done(Ok(skipped("not-a-git-repo"@, known)), n1)
            } else {
                flow::chain_or(
                    git_ops::current_branch_flow(replies, n1),
                    None,
                    |named: Option<Seq<char>>, n2: int|
                        match named {
                            None => Flow::Done(Ok(skipped("detached-head"@, known)), n2),
                            Some(branch) => work_flow(
                                root,
                                path,
                                branch,
                                dry_run,
                                known,
                                env,
                                replies,
                                n2,
                            ),
                        },
                )
            },
    )
}

/// A visit in which nothing was done, for the given reason.
pub open spec fn skipped(
    why: Seq<char>,
    known: Map<Seq<char>, registry::EntryView>,
) -> Visit<CleanupView> {
    Visit {
        record: CleanupView { skip: Some(why), ..blank_record() },
        known,
        log: Seq::empty(),
    }
}

/// Brings the stashes to safety, and pushes what the remote does not have of `branch`.
pub open spec fn work_flow(
    root: Seq<char>,
    path: Seq<char>,
    branch: Seq<char>,
    dry_run: bool,
    known: Map<Seq<char>, registry::EntryView>,
    env: Seq<(Seq<char>, Seq<char>)>,
    replies: Seq<GitReply>,
    i: int,
) -> Flow<Visit<CleanupView>> {
    flow::chain_or(
        git_ops::stash_count_flow(replies, i),
        0usize,
        |seen: usize, n1: int|
            flow::chain(
                stash_names_flow(seen, replies, n1),
                |names: Seq<Seq<char>>, n2: int|
                    rescue_and_push_flow(
                        root,
                        path,
                        branch,
                        seen,
                        names,
                        dry_run,
                        known,
                        env,
                        replies,
                        n2,
                    ),
            ),
    )
}

/// Brings the stashes `names` to safety, of which `seen` were counted, and pushes what the remote
/// does not have of `branch`.
pub open spec fn rescue_and_push_flow(
    root: Seq<char>,
    path: Seq<char>,
    branch: Seq<char>,
    seen: usize,
    names: Seq<Seq<char>>,
    dry_run: bool,
    known: Map<Seq<char>, registry::EntryView>,
    env: Seq<(Seq<char>, Seq<char>)>,
    replies: Seq<GitReply>,
    i: int,
) -> Flow<Visit<CleanupView>> {
    flow::chain(
        rescue_flow(
            root,
            path,
            names,
            names.len() as int,
            dry_run,
            env,
            Rescue::nothing(),
            replies,
            i,
        ),
        |rescue: Rescue, n: int|
            push_ahead_flow(
                root,
                path,
                branch,
                rescued_record(seen, rescue),
                dry_run,
                known,
                rescue.log,
                replies,
                n,
            ),
    )
}

/// The record of a work tree after its stashes were looked at.
pub open spec fn rescued_record(seen: usize, rescue: Rescue) -> CleanupView {
    CleanupView {
        stashes_seen: seen,
        stashes_recovered: rescue.recovered,
        stashes_failed: rescue.failed,
        stash_errors: rescue.errors,
        ..blank_record()
    }
}

fn stash_names(seen: usize, replies: &[GitReply], from: usize) -> (r: Result<
    (Vec<String>, usize),
    flow::GitCommand,
>)
    requires
        from <= replies.len(),
    ensures
        match r {
            Ok((names, n)) => from <= n <= replies.len() && stash_names_flow(
                seen,
                replies@,
                from as int,
            ) == Flow::Done(Ok(text::views(names@)), n as int),
            Err(c) => stash_names_flow(seen, replies@, from as int) == Flow::<
                Seq<Seq<char>>,
            >::Run(c@),
        },
{
    let none: Vec<String> = Vec::new();
    proof {
        assert(text::views(none@) =~= Seq::empty());
    }
    if seen == 0 {
        return Ok((none, from));
    }
    if from >= replies.len() {
        return Err(git(args3("stash", "list", "--pretty=%gd")));
    }
    match &replies[from].outcome {
        Ok(r) => Ok((filled_trimmed_lines(&r.stdout), from + 1)),
        Err(_) => Ok((none, from + 1)),
    }
}

proof fn lemma_stash_event_fields_differ(
    path: Seq<char>,
    stash: Seq<char>,
    ok: bool,
    msg: Seq<char>,
)
    ensures
        stash_event(path, stash, ok, msg) matches Json::Object(list) && json::distinct(list),
{
    reveal_strlit("event");
    reveal_strlit("msg");
    reveal_strlit("ok");
    reveal_strlit("path");
    reveal_strlit("ref");
    assert("msg"@[0] == 'm' && "ref"@[0] == 'r');
    let list = stash_event(path, stash, ok, msg)->Object_0;
    assert(list[0].0 == "event"@);
    assert(list[1].0 == "msg"@);
    assert(list[2].0 == "ok"@);
    assert(list[3].0 == "path"@);
    assert(list[4].0 == "ref"@);
    assert forall|i: int, j: int| 0 <= i < j < list.len() implies (#[trigger] list[i]).0 != (
    #[trigger] list[j]).0 by {
        assert(i == 0 || i == 1 || i == 2 || i == 3 || i == 4);
        assert(j == 0 || j == 1 || j == 2 || j == 3 || j == 4);
    }
}

fn log_stash(
    state_root: &StateRoot,
    path: &str,
    stash: &str,
    ok: bool,
    msg: &str,
) -> (list: Vec<FileAction>)
    ensures
        state::ops(list@) == store::append_ops(
            state_root@,
            "cleanup"@,
            json::json_line(stash_event(path@, stash@, ok, msg@)),
        ),
{
    let list = vec![
        ("event".to_owned(), text_value(Some("stash-recover".to_owned()))),
        ("msg".to_owned(), text_value(Some(msg.to_owned()))),
        ("ok".to_owned(), flag_value(ok)),
        ("path".to_owned(), text_value(Some(path.to_owned()))),
        ("ref".to_owned(), text_value(Some(stash.to_owned()))),
    ];
    proof {
        lemma_stash_event_fields_differ(path@, stash@, ok, msg@);
        let event = stash_event(path@, stash@, ok, msg@);
        assert(json::fields(list@) =~= event->Object_0);
    }
    let event = object_value(list);
    append_event(state_root, "cleanup", &event)
}

proof fn lemma_push_event_fields_differ(
    path: Seq<char>,
    branch: Seq<char>,
    ahead: usize,
    ok: bool,
    msg: Seq<char>,
)
    ensures
        push_event(path, branch, ahead, ok, msg) matches Json::Object(list) && json::distinct(list),
{
    reveal_strlit("ahead");
    reveal_strlit("branch");
    reveal_strlit("event");
    reveal_strlit("msg");
    reveal_strlit("ok");
    reveal_strlit("path");
    assert("ahead"@[0] == 'a' && "event"@[0] == 'e');
    let list = push_event(path, branch, ahead, ok, msg)->Object_0;
    assert(list[0].0 == "ahead"@);
    assert(list[1].0 == "branch"@);
    assert(list[2].0 == "event"@);
    assert(list[3].0 == "msg"@);
    assert(list[4].0 == "ok"@);
    assert(list[5].0 == "path"@);
    assert forall|i: int, j: int| 0 <= i < j < list.len() implies (#[trigger] list[i]).0 != (
    #[trigger] list[j]).0 by {
        assert(i == 0 || i == 1 || i == 2 || i == 3 || i == 4 || i == 5);
        assert(j == 0 || j == 1 || j == 2 || j == 3 || j == 4 || j == 5);
    }
}

fn log_push(
    state_root: &StateRoot,
    path: &str,
    branch: &str,
    ahead: usize,
    ok: bool,
    msg: &str,
) -> (list: Vec<FileAction>)
    ensures
        state::ops(list@) == store::append_ops(
            state_root@,
            "cleanup"@,
            json::json_line(push_event(path@, branch@, ahead, ok, msg@)),
        ),
{
    let list = vec![
        ("ahead".to_owned(), count_value(Some(ahead as u64))),
        ("branch".to_owned(), text_value(Some(branch.to_owned()))),
        ("event".to_owned(), text_value(Some("branch-push".to_owned()))),
        ("msg".to_owned(), text_value(Some(msg.to_owned()))),
        ("ok".to_owned(), flag_value(ok)),
        ("path".to_owned(), text_value(Some(path.to_owned()))),
    ];
    proof {
        lemma_push_event_fields_differ(path@, branch@, ahead, ok, msg@);
        let event = push_event(path@, branch@, ahead, ok, msg@);
        assert(json::fields(list@) =~= event->Object_0);
    }
    let event = object_value(list);
    append_event(state_root, "cleanup", &event)
}

fn note_push(registry: &mut Registry, path: &str, pushed: bool, now: &str)
    ensures
        final(registry)@ == old(registry)@.insert(
            path@,
            pushed_entry(registry::touched(old(registry)@, path@, now@), pushed, now@),
        ),
{
    let change = |e: RepoEntry| -> (r: RepoEntry)
        ensures
            r@ == pushed_entry(e@, pushed, now@),
    {
        let mut r = e;
        if pushed {
            r.last_push_time = Some(now.to_owned());
        }
        r
    };
    upsert_entry_at(registry, path, now, change);
}

/// What came of the stashes, as far as `record` and `log` tell.
pub open spec fn rescue_of(record: CleanupView, log: Seq<FileOp>) -> Rescue {
    Rescue {
        recovered: record.stashes_recovered,
        failed: record.stashes_failed,
        errors: record.stash_errors,
        log,
    }
}

/// Brings the stashes `names` to safety, the last of them first; gives the number of replies used,
/// or the next command.
fn rescue(
    state_root: &StateRoot,
    path: &str,
    names: &Vec<String>,
    dry_run: bool,
    env: &Vec<(String, String)>,
    record: &mut CleanupRecord,
    log: &mut Vec<FileAction>,
    replies: &[GitReply],
    from: usize,
) -> (r: Result<usize, flow::GitCommand>)
    requires
        0 < from <= replies.len(),
        old(record)@ == (CleanupView {
            stashes_seen: old(record)@.stashes_seen,
            ..blank_record()
        }),
        old(log)@.len() == 0,
    ensures
        match r {
            Ok(n) => from <= n <= replies.len() && rescue_flow(
                state_root@,
                path@,
                text::views(names@),
                names.len() as int,
                dry_run,
                flow::env_views(env@),
                Rescue::nothing(),
                replies@,
                from as int,
            ) == Flow::Done(
                Ok(rescue_of(final(record)@, state::ops(final(log)@))),
                n as int,
            ),
            Err(c) => rescue_flow(
                state_root@,
                path@,
                text::views(names@),
                names.len() as int,
                dry_run,
                flow::env_views(env@),
                Rescue::nothing(),
                replies@,
                from as int,
            ) == Flow::<Rescue>::Run(c@),
        },
        final(record)@ == (CleanupView {
            stashes_recovered: final(record)@.stashes_recovered,
            stashes_failed: final(record)@.stashes_failed,
            stash_errors: final(record)@.stash_errors,
            ..old(record)@
        }),
{
    let ghost list = text::views(names@);
    let ghost start = record@;
    let mut at: usize = from;
    let mut k: usize = names.len();
    proof {
        assert(rescue_of(record@, state::ops(log@)) =~= Rescue::nothing());
    }
    while k > 0
        invariant
            k <= names.len(),
            list == text::views(names@),
            0 < from <= at <= replies.len(),
            record.stashes_recovered + record.stashes_failed + k == names.len(),
            start == old(record)@,
            record@ == (CleanupView {
                stashes_recovered: record@.stashes_recovered,
                stashes_failed: record@.stashes_failed,
                stash_errors: record@.stash_errors,
                ..start
            }),
            rescue_flow(
                state_root@,
                path@,
                list,
                names.len() as int,
                dry_run,
                flow::env_views(env@),
                Rescue::nothing(),
                replies@,
                from as int,
            ) == rescue_flow(
                state_root@,
                path@,
                list,
                k as int,
                dry_run,
                flow::env_views(env@),
                rescue_of(record@, state::ops(log@)),
                replies@,
                at as int,
            ),
        decreases k,
    {
        let stash = &names[k - 1];
        let ghost errors = record@.stash_errors;
        proof {
            assert(list[k - 1] == stash@);
        }
        if dry_run {
            record.stashes_recovered = record.stashes_recovered + 1;
        } else {
            match recover_one_stash(stash, &replies[at - 1].at.tag, env, replies, at) {
                Step::Run(c) => {
                    return Err(c);
                },
                Step::Done(Ok((ok, msg, _)), n) => {
                    if ok {
                        record.stashes_recovered = record.stashes_recovered + 1;
                    } else {
                        record.stashes_failed = record.stashes_failed + 1;
                        record.stash_errors.insert(0, (stash.clone(), msg.clone()));
                        proof {
                            assert(record@.stash_errors =~= seq![(stash@, msg@)] + errors);
                        }
                    }
                    log_more(log, log_stash(state_root, path, stash, ok, &msg));
                    at = n;
                },
                Step::Done(Err(why), n) => {
                    record.stashes_failed = record.stashes_failed + 1;
                    let ghost reason = why@;
                    record.stash_errors.insert(0, (stash.clone(), why));
                    proof {
                        assert(record@.stash_errors =~= seq![(stash@, reason)] + errors);
                    }
                    at = n;
                },
            }
        }
        k = k - 1;
    }
    Ok(at)
}

/// What the outcome of a visit means, given the registry that it left behind.
pub open spec fn visit_of(
    step: Step<(CleanupRecord, Vec<FileAction>)>,
    known: Map<Seq<char>, registry::EntryView>,
) -> Flow<Visit<CleanupView>> {
    match step {
        Step::Run(c) => Flow::Run(c@),
        Step::Done(Ok((record, log)), n) => Flow::Done(
            Ok(Visit { record: record@, known, log: state::ops(log@) }),
            n as int,
        ),
        Step::Done(Err(why), n) => Flow::Done(Err(why@), n as int),
    }
}

fn push_ahead(
    state_root: &StateRoot,
    path: &str,
    branch: &str,
    record: CleanupRecord,
    dry_run: bool,
    registry: &mut Registry,
    log: Vec<FileAction>,
    replies: &[GitReply],
    from: usize,
) -> (step: Step<(CleanupRecord, Vec<FileAction>)>)
    ensures
        visit_of(step, final(registry)@) == push_ahead_flow(
            state_root@,
            path@,
            branch@,
            record@,
            dry_run,
            old(registry)@,
            state::ops(log@),
            replies@,
            from as int,
        ),
        step matches Step::Done(_, n) ==> from < n <= replies.len(),
        step is Run ==> final(registry)@ == old(registry)@,
        !(step matches Step::Done(Err(_), _)),
{
    let mut record = record;
    let mut log = log;
    let (ahead, n1) = match ahead_behind(branch, replies, from) {
        Step::Run(c) => {
            return Step::Run(c);
        },
        Step::Done(Ok((ahead, _)), n) => (ahead, n),
        Step::Done(Err(_), n) => (0, n),
    };
    record.ahead = ahead;
    if ahead == 0 || dry_run {
        return Step::Done(Ok((record, log)), n1);
    }
    match try_push_or_snapshot(branch, &replies[n1 - 1].at.tag, replies, n1) {
        Step::Run(c) => Step::Run(c),
        Step::Done(Ok((ok, msg)), n) => {
            note_push(registry, path, ok, &replies[n - 1].at.iso);
            log_more(&mut log, log_push(state_root, path, branch, ahead, ok, &msg));
            record.push_ok = Some(ok);
            record.push_detail = Some(msg);
            Step::Done(Ok((record, log)), n)
        },
        Step::Done(Err(why), n) => {
            record.push_ok = Some(false);
            record.push_detail = Some(why);
            Step::Done(Ok((record, log)), n)
        },
    }
}

fn nothing_done(why: &str, n: usize) -> (step: Step<(CleanupRecord, Vec<FileAction>)>)
    ensures
        forall|known: Map<Seq<char>, registry::EntryView>|
            #[trigger] visit_of(step, known) == Flow::Done(Ok(skipped(why@, known)), n as int),
        step matches Step::Done(Ok(_), m) && m == n,
{
    let mut record = CleanupRecord::default();
    record.skip = Some(why.to_owned());
    let log: Vec<FileAction> = Vec::new();
    proof {
        assert(state::ops(log@) =~= Seq::empty());
    }
    Step::Done(Ok((record, log)), n)
}

/// Looks at one work tree, brings its stashes to safety, and pushes what the remote does not
/// have. It never ends in an error: what went wrong stands in the record. The registry changes
/// with the result.
pub fn run_one(
    state_root: &StateRoot,
    path: &str,
    dry_run: bool,
    registry: &mut Registry,
    env: &Vec<(String, String)>,
    replies: &[GitReply],
    from: usize,
) -> (step: Step<(CleanupRecord, Vec<FileAction>)>)
    ensures
        visit_of(step, final(registry)@) == run_one_flow(
            state_root@,
            path@,
            dry_run,
            old(registry)@,
            flow::env_views(env@),
            replies@,
            from as int,
        ),
        step matches Step::Done(_, n) ==> from < n <= replies.len(),
        step is Run ==> final(registry)@ == old(registry)@,
        !(step matches Step::Done(Err(_), _)),
{
    let (inside, n1) = match is_inside_work_tree(replies, from) {
        Step::Run(c) => {
            return Step::Run(c);
        },
        Step::Done(Ok(inside), n) => (inside, n),
        Step::Done(Err(_), n) => (false, n),
    };
    if !inside {
        return nothing_done("not-a-git-repo", n1);
    }
    let (branch, n2) = match current_branch(replies, n1) {
        Step::Run(c) => {
            return Step::Run(c);
        },
        Step::Done(Ok(Some(branch)), n) => (branch, n),
        Step::Done(_, n) => {
            return nothing_done("detached-head", n);
        },
    };
    let (seen, n3) = match stash_count(replies, n2) {
        Step::Run(c) => {
            return Step::Run(c);
        },
        Step::Done(Ok(seen), n) => (seen, n),
        Step::Done(Err(_), n) => (0, n),
    };
    let (names, n4) = match stash_names(seen, replies, n3) {
        Ok(found) => found,
        Err(c) => {
            return Step::Run(c);
        },
    };
    let mut record = CleanupRecord::default();
    record.stashes_seen = seen;
    let mut log: Vec<FileAction> = Vec::new();
    match rescue(state_root, path, &names, dry_run, env, &mut record, &mut log, replies, n4) {
        Ok(n5) => push_ahead(
            state_root,
            path,
            &branch,
            record,
            dry_run,
            registry,
            log,
            replies,
            n5,
        ),
        Err(c) => Step::Run(c),
    }
}

/// What a pass comes to.
#[derive(Debug, Clone, PartialEq, Eq)]
pub struct CleanupSummary {
    pub visited: usize,
    /// The sum over all work trees. It stops at the largest number that fits.
    pub stashes_recovered: usize,
    pub commits_pushed: usize,
    pub errors: usize,
    pub dry_run: bool,
    pub records: Vec<(String, CleanupRecord)>,
}

/// The model of a [`CleanupSummary`].
pub struct CleanupTotals {
    pub visited: nat,
    pub stashes_recovered: nat,
    pub commits_pushed: nat,
    pub errors: nat,
    pub dry_run: bool,
    pub records: Seq<(Seq<char>, CleanupView)>,
}

/// The views of a list of records.
pub open spec fn record_views(list: Seq<(String, CleanupRecord)>) -> Seq<
    (Seq<char>, CleanupView),
> {
    list.map_values(|e: (String, CleanupRecord)| (e.0@, e.1@))
}

impl View for CleanupSummary {
    type V = CleanupTotals;

    open spec fn view(&self) -> CleanupTotals {
        CleanupTotals {
            visited: self.visited as nat,
            stashes_recovered: self.stashes_recovered as nat,
            commits_pushed: self.commits_pushed as nat,
            errors: self.errors as nat,
            dry_run: self.dry_run,
            records: record_views(self.records@),
        }
    }
}

impl DeepView for CleanupSummary {
    type V = CleanupTotals;

    open spec fn deep_view(&self) -> CleanupTotals {
        self@
    }
}

/// How many stashes were brought to safety, over all records.
pub open spec fn recovered_in(list: Seq<(Seq<char>, CleanupView)>) -> nat
    decreases list.len(),
{
    if list.len() == 0 {
        0
    } else {
        recovered_in(list.drop_last()) + list.last().1.stashes_recovered
    }
}

/// `n`, or the largest number that fits where `n` does not.
pub open spec fn capped(n: nat) -> nat {
    if n <= usize::MAX {
        n
    } else {
        usize::MAX as nat
    }
}

/// What a pass with the given records comes to: each total is about the records that it names.
pub open spec fn totals(
    records: Seq<(Seq<char>, CleanupView)>,
    dry_run: bool,
) -> CleanupTotals {
    CleanupTotals {
        visited: records.len(),
        stashes_recovered: capped(recovered_in(records)),
        commits_pushed: pass::how_many(records, |r: CleanupView| r.push_ok == Some(true)),
        errors: pass::how_many(records, |r: CleanupView| r.stashes_failed > 0),
        dry_run,
        records,
    }
}

/// Goes on with a pass at the work tree number `k` of a list. At the end the registry is saved,
/// unless this was only a rehearsal.
pub open spec fn run_from_flow(
    root: Seq<char>,
    list: Seq<(Seq<char>, registry::EntryView)>,
    k: int,
    dry_run: bool,
    env: Seq<(Seq<char>, Seq<char>)>,
    so_far: Progress<CleanupView>,
    replies: Seq<GitReply>,
    i: int,
) -> PassFlow<CleanupTotals>
    decreases list.len() - k,
{
    if k >= list.len() {
        PassFlow::Done {
            log: so_far.log,
            summary: totals(so_far.records, dry_run),
            save: if dry_run {
                None
            } else {
                Some(so_far.known)
            },
        }
    } else {
        match run_one_flow(root, list[k].0, dry_run, so_far.known, env, replies, i) {
            Flow::Run(command) => PassFlow::Git { log: so_far.log, repo: list[k].0, command },
            Flow::Done(visit, n) => run_from_flow(
                root,
                list,
                k + 1,
                dry_run,
                env,
                so_far.visited(list[k].0, visit->Ok_0),
                replies,
                n,
            ),
        }
    }
}

/// One cleanup pass over the work trees of `list`, which the registry `known` holds.
pub open spec fn run_flow(
    root: Seq<char>,
    list: Seq<(Seq<char>, registry::EntryView)>,
    known: Map<Seq<char>, registry::EntryView>,
    dry_run: bool,
    env: Seq<(Seq<char>, Seq<char>)>,
    replies: Seq<GitReply>,
) -> PassFlow<CleanupTotals> {
    run_from_flow(
        root,
        list,
        0,
        dry_run,
        env,
        Progress { records: Seq::empty(), known, log: Seq::empty() },
        replies,
        0,
    )
}

impl Default for CleanupSummary {
    /// A pass in which no work tree was visited.
    fn default() -> (r: CleanupSummary)
        ensures
            r@ == totals(Seq::empty(), false),
    {
        let records: Vec<(String, CleanupRecord)> = Vec::new();
        proof {
            assert(record_views(records@) =~= Seq::empty());
        }
        CleanupSummary {
            visited: 0,
            stashes_recovered: 0,
            commits_pushed: 0,
            errors: 0,
            dry_run: false,
            records,
        }
    }
}

/// Adds the record of one more work tree to what a pass comes to.
fn add_record(summary: &mut CleanupSummary, path: &str, record: CleanupRecord)
    requires
        old(summary)@ == totals(record_views(old(summary).records@), old(summary).dry_run),
        old(summary).records.len() < usize::MAX,
    ensures
        final(summary)@ == totals(
            record_views(old(summary).records@).push((path@, record@)),
            old(summary).dry_run,
        ),
{
    let ghost before = record_views(summary.records@);
    let ghost new = (path@, record@);
    proof {
        let now = before.push(new);
        assert(now.drop_last() =~= before);
        pass::lemma_how_many_at_most(before, |r: CleanupView| r.push_ok == Some(true));
        pass::lemma_how_many_at_most(before, |r: CleanupView| r.stashes_failed > 0);
    }
    if record.stashes_failed > 0 {
        summary.errors = summary.errors + 1;
    }
    if let Some(true) = record.push_ok {
        summary.commits_pushed = summary.commits_pushed + 1;
    }
    summary.stashes_recovered = if record.stashes_recovered <= usize::MAX
        - summary.stashes_recovered {
        summary.stashes_recovered + record.stashes_recovered
    } else {
        usize::MAX
    };
    summary.visited = summary.visited + 1;
    summary.records.push((path.to_owned(), record));
    proof {
        assert(record_views(summary.records@) =~= before.push(new));
    }
}

/// One cleanup pass over the registered work trees, in the order of their paths.
pub fn run(
    state_root: &StateRoot,
    registry: &Registry,
    dry_run: bool,
    env: &Vec<(String, String)>,
    replies: &[GitReply],
) -> (step: PassStep<CleanupSummary>)
    ensures
        step@ == run_flow(
            state_root@,
            registry.listing(),
            registry@,
            dry_run,
            flow::env_views(env@),
            replies@,
        ),
{
    let paths = registry.sorted_paths();
    let ghost list = registry.listing();
    let mut known = registry.clone();
    let mut log: Vec<FileAction> = Vec::new();
    let mut summary = CleanupSummary::default();
    summary.dry_run = dry_run;
    let mut at: usize = 0;
    let mut k: usize = 0;
    proof {
        assert(state::ops(log@) =~= Seq::empty());
        assert(text::views(paths@).len() == paths@.len());
    }
    while k < paths.len()
        invariant
            k <= paths.len(),
            paths.len() == list.len(),
            text::views(paths@) == list.map_values(|e: (Seq<char>, registry::EntryView)| e.0),
            list == registry.listing(),
            at <= replies.len(),
            summary@ == totals(record_views(summary.records@), dry_run),
            summary.records.len() == k,
            run_flow(
                state_root@,
                list,
                registry@,
                dry_run,
                flow::env_views(env@),
                replies@,
            ) == run_from_flow(
                state_root@,
                list,
                k as int,
                dry_run,
                flow::env_views(env@),
                Progress {
                    records: record_views(summary.records@),
                    known: known@,
                    log: state::ops(log@),
                },
                replies@,
                at as int,
            ),
        decreases paths.len() - k,
    {
        let path = &paths[k];
        proof {
            assert(text::views(paths@)[k as int] == path@);
            assert(list[k as int].0 == path@);
        }
        match run_one(state_root, path, dry_run, &mut known, env, replies, at) {
            Step::Run(command) => {
                return PassStep::Git { log, repo: path.clone(), command };
            },
            Step::Done(Ok((record, more)), n) => {
                log_more(&mut log, more);
                add_record(&mut summary, path, record);
                at = n;
            },
            Step::Done(Err(_), _) => {
                proof {
                    assert(false);
                }
            },
        }
        k = k + 1;
    }
    let save = if dry_run {
        None
    } else {
        Some(known)
    };
    PassStep::Done { log, summary, save }
}

/// How a push went, as it is printed; nothing was pushed where it is none.
pub open spec fn push_text(ok: Option<bool>) -> Seq<char> {
    match ok {
        Some(true) => "Some(true)"@,
        Some(false) => "Some(false)"@,
        None => "None"@,
    }
}

/// One line of the report of a pass.
pub open spec fn rendered_record(path: Seq<char>, r: CleanupView) -> Seq<char> {
    "[daemon-cleanup] [OK ] "@ + path + ": stashes_seen="@ + text::decimal(r.stashes_seen as int)
        + " recovered="@ + text::decimal(r.stashes_recovered as int) + " failed="@
        + text::decimal(r.stashes_failed as int) + " ahead="@ + text::decimal(r.ahead as int)
        + " push_ok="@ + push_text(r.push_ok) + "\n"@
}

/// The lines of the report of a pass.
pub open spec fn rendered_records(list: Seq<(Seq<char>, CleanupView)>) -> Seq<char>
    decreases list.len(),
{
    if list.len() == 0 {
        Seq::empty()
    } else {
        rendered_records(list.drop_last()) + rendered_record(list.last().0, list.last().1)
    }
}

impl CleanupTotals {
    /// The report of a pass: a line for each work tree, and the totals.
    pub open spec fn rendered(self) -> Seq<char> {
        rendered_records(self.records) + "[done] visited="@ + text::decimal(self.visited as int)
            + " stashes_recovered="@ + text::decimal(self.stashes_recovered as int)
            + " commits_pushed="@ + text::decimal(self.commits_pushed as int) + " errors="@
            + text::decimal(self.errors as int) + " dry_run="@ + text::flag_text(self.dry_run)
            + "\n"@
    }
}

fn render_record(path: &str, r: &CleanupRecord) -> (out: String)
    ensures
        out@ == rendered_record(path@, r@),
{
    let mut out = "[daemon-cleanup] [OK ] ".to_owned();
    out.append(path);
    out.append(": stashes_seen=");
    out.append(&show(r.stashes_seen as u64));
    out.append(" recovered=");
    out.append(&show(r.stashes_recovered as u64));
    out.append(" failed=");
    out.append(&show(r.stashes_failed as u64));
    out.append(" ahead=");
    out.append(&show(r.ahead as u64));
    out.append(" push_ok=");
    match r.push_ok {
        Some(true) => out.append("Some(true)"),
        Some(false) => out.append("Some(false)"),
        None => out.append("None"),
    }
    out.append("\n");
    out
}

impl CleanupSummary {
    /// The report of a pass: a line for each work tree, and the totals.
    pub fn render(&self) -> (out: String)
        ensures
            out@ == self@.rendered(),
    {
        let mut out = String::new();
        let mut k: usize = 0;
        proof {
            assert(self@.records.take(0) =~= Seq::empty());
            assert(out@ =~= Seq::empty());
        }
        while k < self.records.len()
            invariant
                k <= self.records.len(),
                out@ == rendered_records(self@.records.take(k as int)),
            decreases self.records.len() - k,
        {
            proof {
                let list = self@.records.take(k + 1);
                assert(list.drop_last() =~= self@.records.take(k as int));
                assert(list.last() == (self.records@[k as int].0@, self.records@[k as int].1@));
            }
            out.append(&render_record(&self.records[k].0, &self.records[k].1));
            k = k + 1;
        }
        proof {
            assert(self@.records.take(k as int) =~= self@.records);
        }
        out.append("[done] visited=");
        out.append(&show(self.visited as u64));
        out.append(" stashes_recovered=");
        out.append(&show(self.stashes_recovered as u64));
        out.append(" commits_pushed=");
        out.append(&show(self.commits_pushed as u64));
        out.append(" errors=");
        out.append(&show(self.errors as u64));
        out.append(" dry_run=");
        out.append(flag(self.dry_run));
        out.append("\n");
        out
    }
}

proof fn lemma_push_ahead_keeps(
    root: Seq<char>,
    path: Seq<char>,
    branch: Seq<char>,
    record: CleanupView,
    dry_run: bool,
    known: Map<Seq<char>, registry::EntryView>,
    log: Seq<FileOp>,
    replies: Seq<GitReply>,
    i: int,
)
    ensures
        push_ahead_flow(
            root,
            path,
            branch,
            record,
            dry_run,
            known,
            log,
            replies,
            i,
        ) matches Flow::Done(Ok(visit), n) ==> registry::keeps(known, visit.known, path),
{
}

/// A visit never forgets a work tree, never touches what is known of another one, and keeps the
/// time of an earlier registration.
pub proof fn law_visit_keeps_registrations(
    root: Seq<char>,
    path: Seq<char>,
    dry_run: bool,
    known: Map<Seq<char>, registry::EntryView>,
    env: Seq<(Seq<char>, Seq<char>)>,
    replies: Seq<GitReply>,
    i: int,
)
    ensures
        run_one_flow(root, path, dry_run, known, env, replies, i) matches Flow::Done(
            Ok(visit),
            n,
        ) ==> registry::keeps(known, visit.known, path),
{
    assert forall|branch: Seq<char>, record: CleanupView, log: Seq<FileOp>, n: int|
        #![trigger push_ahead_flow(root, path, branch, record, dry_run, known, log, replies, n)]
        push_ahead_flow(
            root,
            path,
            branch,
            record,
            dry_run,
            known,
            log,
            replies,
            n,
        ) matches Flow::Done(Ok(visit), _) ==> registry::keeps(known, visit.known, path) by {
        lemma_push_ahead_keeps(
            root,
            path,
            branch,
            record,
            dry_run,
            known,
            log,
            replies,
            n,
        );
    }
}

pub(crate) proof fn lemma_rescue_never_fails(
    root: Seq<char>,
    path: Seq<char>,
    names: Seq<Seq<char>>,
    k: int,
    dry_run: bool,
    env: Seq<(Seq<char>, Seq<char>)>,
    so_far: Rescue,
    replies: Seq<GitReply>,
    i: int,
)
    ensures
        !(rescue_flow(root, path, names, k, dry_run, env, so_far, replies, i) matches Flow::Done(
            Err(_),
            _,
        )),
    decreases k,
{
    if k > 0 {
        if dry_run {
            lemma_rescue_never_fails(
                root,
                path,
                names,
                k - 1,
                dry_run,
                env,
                Rescue { recovered: so_far.recovered + 1, ..so_far },
                replies,
                i,
            );
        } else {
            match stash::recover_one_stash_flow(
                names[k - 1],
                replies[i - 1].at.tag@,
                env,
                replies,
                i,
            ) {
                Flow::Run(_) => {},
                Flow::Done(Ok(r), n) => {
                    lemma_rescue_never_fails(
                        root,
                        path,
                        names,
                        k - 1,
                        dry_run,
                        env,
                        so_far.tried(root, path, names[k - 1], r.0, r.1),
                        replies,
                        n,
                    );
                },
                Flow::Done(Err(why), n) => {
                    lemma_rescue_never_fails(
                        root,
                        path,
                        names,
                        k - 1,
                        dry_run,
                        env,
                        so_far.gave_up(names[k - 1], why),
                        replies,
                        n,
                    );
                },
            }
        }
    }
}

/// A visit never ends in an error: what went wrong stands in its record.
pub proof fn law_visit_never_fails(
    root: Seq<char>,
    path: Seq<char>,
    dry_run: bool,
    known: Map<Seq<char>, registry::EntryView>,
    env: Seq<(Seq<char>, Seq<char>)>,
    replies: Seq<GitReply>,
    i: int,
)
    ensures
        !(run_one_flow(root, path, dry_run, known, env, replies, i) matches Flow::Done(Err(_), _)),
{
    assert forall|names: Seq<Seq<char>>, n: int|
        #![trigger rescue_flow(
            root,
            path,
            names,
            names.len() as int,
            dry_run,
            env,
            Rescue::nothing(),
            replies,
            n,
        )]
        !(rescue_flow(
            root,
            path,
            names,
            names.len() as int,
            dry_run,
            env,
            Rescue::nothing(),
            replies,
            n,
        ) matches Flow::Done(Err(_), _)) by {
        lemma_rescue_never_fails(
            root,
            path,
            names,
            names.len() as int,
            dry_run,
            env,
            Rescue::nothing(),
            replies,
            n,
        );
    }
}

} // verus!
