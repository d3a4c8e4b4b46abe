//! The autocommit pass, which is due every quarter of an hour.
//!
//! Every registered work tree is looked at. One with changes is committed and pushed, unless it
//! was committed to by an earlier pass less than [`AUTOCOMMIT_INTERVAL`] seconds ago.
use crate::clock;
use crate::clock::parse_iso;
use crate::commit;
use crate::commit::commit_all;
use crate::flow;
use crate::flow::{Flow, GitReply, Step};
use crate::git_ops;
use crate::git_ops::{current_branch, dirty_count, is_inside_work_tree};
use crate::json;
use crate::json::{count_value, flag_value, object_value, text_value, Json};
use crate::pass;
use crate::pass::{log_more, PassFlow, PassStep, Progress, Visit};
use crate::push;
use crate::push::try_push_or_snapshot;
use crate::registry;
use crate::registry::{upsert_entry_at, Registry, RepoEntry};
use crate::state;
use crate::state::{FileAction, StateRoot};
use crate::store;
use crate::store::append_event;
use crate::text;
use crate::text::{flag, show};
use crate::AUTOCOMMIT_INTERVAL;
use vstd::prelude::*;

verus! {

/// What was found in one work tree, and what was done about it.
#[derive(Debug, Clone, PartialEq, Eq)]
pub struct AutocommitRecord {
    pub branch: String,
    pub dirty_before: usize,
    /// Seconds since the last automatic commit; the largest number where there was none.
    pub since_last_sec: u64,
    pub committed: bool,
    pub pushed: bool,
    pub skip: Option<String>,
    pub error: Option<String>,
    pub commit_message: Option<String>,
    pub push_detail: Option<String>,
    pub dry_run: bool,
}

/// The model of an [`AutocommitRecord`].
pub struct AutocommitView {
    pub branch: Seq<char>,
    pub dirty_before: usize,
    pub since_last_sec: u64,
    pub committed: bool,
    pub pushed: bool,
    pub skip: Option<Seq<char>>,
    pub error: Option<Seq<char>>,
    pub commit_message: Option<Seq<char>>,
    pub push_detail: Option<Seq<char>>,
    pub dry_run: bool,
}

impl View for AutocommitRecord {
    type V = AutocommitView;

    open spec fn view(&self) -> AutocommitView {
        AutocommitView {
            branch: self.branch@,
            dirty_before: self.dirty_before,
            since_last_sec: self.since_last_sec,
            committed: self.committed,
            pushed: self.pushed,
            skip: self.skip.deep_view(),
            error: self.error.deep_view(),
            commit_message: self.commit_message.deep_view(),
            push_detail: self.push_detail.deep_view(),
            dry_run: self.dry_run,
        }
    }
}

/// A record in which nothing was found and nothing done.
pub open spec fn blank_record() -> AutocommitView {
    AutocommitView {
        branch: Seq::empty(),
        dirty_before: 0,
        since_last_sec: 0,
        committed: false,
        pushed: false,
        skip: None,
        error: None,
        commit_message: None,
        push_detail: None,
        dry_run: false,
    }
}

impl Default for AutocommitRecord {
    fn default() -> (r: AutocommitRecord)
        ensures
            r@ == blank_record(),
    {
        AutocommitRecord {
            branch: String::new(),
            dirty_before: 0,
            since_last_sec: 0,
            committed: false,
            pushed: false,
            skip: None,
            error: None,
            commit_message: None,
            push_detail: None,
            dry_run: false,
        }
    }
}

/// How long ago the last automatic commit was, at the second `now`; the largest number where
/// there was none, or none that can be read.
pub open spec fn since_last(last: Option<Seq<char>>, now: u64) -> u64 {
    match last {
        Some(stamp) => match clock::rfc3339_seconds(stamp) {
            Some(then) => {
                let past = now - if then < 0 {
                    0
                } else {
                    then
                };
                if past < 0 {
                    0
                } else {
                    past as u64
                }
            },
            None => u64::MAX,
        },
        None => u64::MAX,
    }
}

/// How long ago the last automatic commit was, at the second `now`.
fn seconds_since(last: &Option<String>, now: u64) -> (r: u64)
    ensures
        r == since_last(last.deep_view(), now),
{
    match last {
        Some(stamp) => match parse_iso(stamp) {
            Some(then) => {
                let then: u64 = if then < 0 {
                    0
                } else {
                    then as u64
                };
                if then < now {
                    now - then
                } else {
                    0
                }
            },
            None => u64::MAX,
        },
        None => u64::MAX,
    }
}

/// The record of a work tree that was looked at and found fit for a commit.
pub open spec fn looked_at(branch: Seq<char>, dirty: usize, since: u64) -> AutocommitView {
    AutocommitView { branch, dirty_before: dirty, since_last_sec: since, ..blank_record() }
}

/// A visit that changed nothing.
pub open spec fn untouched(
    record: AutocommitView,
    known: Map<Seq<char>, registry::EntryView>,
) -> Visit<AutocommitView> {
    Visit { record, known, log: Seq::empty() }
}

/// The message of an automatic commit at the time `now`.
pub open spec fn auto_message(now: Seq<char>) -> Seq<char> {
    "wip: auto-commit daemon "@ + now
}

/// The entry of a work tree that was committed to at the time `now`, after which a push went
/// through or not.
pub open spec fn committed_entry(
    e: registry::EntryView,
    dirty: usize,
    pushed: bool,
    now: Seq<char>,
) -> registry::EntryView {
    registry::EntryView {
        last_check: Some(now),
        last_dirty_count: Some(dirty as u64),
        last_auto_commit: Some(now),
        last_push_time: if pushed {
            Some(now)
        } else {
            e.last_push_time
        },
        ..e
    }
}

/// The event that is logged for a commit.
pub open spec fn commit_event(
    path: Seq<char>,
    record: AutocommitView,
    detail: Seq<char>,
    message: Seq<char>,
) -> Json {
    Json::Object(
        seq![
            ("branch"@, Json::Text(record.branch)),
            ("commit_message"@, Json::Text(message)),
            ("committed"@, Json::Flag(record.committed)),
            ("dirty_before"@, Json::Count(record.dirty_before as u64)),
            ("event"@, Json::Text("autocommit"@)),
            ("path"@, Json::Text(path)),
            ("push_detail"@, Json::Text(detail)),
            ("pushed"@, Json::Flag(record.pushed)),
            ("since_last_sec"@, Json::Count(record.since_last_sec)),
        ],
    )
}

/// Looks at one work tree, and commits and pushes what has changed in it, unless it is too early
/// for that or this is only a rehearsal.
pub open spec fn run_one_flow(
    root: Seq<char>,
    path: Seq<char>,
    meta: registry::EntryView,
    dry_run: bool,
    known: Map<Seq<char>, registry::EntryView>,
    env: Seq<(Seq<char>, Seq<char>)>,
    replies: Seq<GitReply>,
    i: int,
) -> Flow<Visit<AutocommitView>> {
    flow::chain(
        git_ops::is_inside_work_tree_flow(replies, i),
        |inside: bool, n1: int|
            if !inside {
                Flow::Done(
                    Ok(
                        untouched(
                            AutocommitView { skip: Some("not-a-git-repo"@), ..blank_record() },
                            known,
                        ),
                    ),
                    n1,
                )
            } else {
                flow::chain(
                    git_ops::current_branch_flow(replies, n1),
                    |named: Option<Seq<char>>, n2: int|
                        match named {
                            None => Flow::Done(
                                Ok(
                                    untouched(
                                        AutocommitView {
                                            skip: Some("detached-head"@),
                                            ..blank_record()
                                        },
                                        known,
                                    ),
                                ),
                                n2,
                            ),
                            Some(branch) => flow::chain(
                                git_ops::dirty_count_flow(replies, n2),
                                |dirty: usize, n3: int|
                                    decide_flow(
                                        root,
                                        path,
                                        looked_at(
                                            branch,
                                            dirty,
                                            since_last(
                                                meta.last_auto_commit,
                                                replies[n3 - 1].at.secs,
                                            ),
                                        ),
                                        dry_run,
                                        known,
                                        env,
                                        replies,
                                        n3,
                                    ),
                            ),
                        },
                )
            },
    )
}

/// Commits and pushes, where `record` shows changes and the last commit is old enough.
pub open spec fn decide_flow(
    root: Seq<char>,
    path: Seq<char>,
    record: AutocommitView,
    dry_run: bool,
    known: Map<Seq<char>, registry::EntryView>,
    env: Seq<(Seq<char>, Seq<char>)>,
    replies: Seq<GitReply>,
    i: int,
) -> Flow<Visit<AutocommitView>> {
    if record.dirty_before == 0 {
        Flow::Done(
            Ok(untouched(AutocommitView { skip: Some("clean"@), ..record }, known)),
            i,
        )
    } else if record.since_last_sec < AUTOCOMMIT_INTERVAL {
        Flow::Done(
            Ok(untouched(AutocommitView { skip: Some("throttled"@), ..record }, known)),
            i,
        )
    } else if dry_run {
        Flow::Done(Ok(untouched(AutocommitView { dry_run: true, ..record }, known)), i)
    } else {
        commit_and_push_flow(
            root,
            path,
            record,
            auto_message(replies[i - 1].at.iso@),
            known,
            env,
            replies,
            i,
        )
    }
}

/// Commits with the given message and pushes. Where the commit fails the work tree only counts as
/// checked; else the commit and the outcome of the push are noted and logged.
pub open spec fn commit_and_push_flow(
    root: Seq<char>,
    path: Seq<char>,
    record: AutocommitView,
    message: Seq<char>,
    known: Map<Seq<char>, registry::EntryView>,
    env: Seq<(Seq<char>, Seq<char>)>,
    replies: Seq<GitReply>,
    i: int,
) -> Flow<Visit<AutocommitView>> {
    flow::chain(
        commit::commit_all_flow(message, env, replies, i),
        |made: bool, n1: int|
            if !made {
                Flow::Done(
                    Ok(
                        Visit {
                            record: AutocommitView { error: Some("commit failed"@), ..record },
                            known: known.insert(
                                path,
                                registry::touched(known, path, replies[n1 - 1].at.iso@),
                            ),
                            log: Seq::empty(),
                        },
                    ),
                    n1,
                )
            } else {
                flow::chain(
                    push::try_push_or_snapshot_flow(
                        record.branch,
                        replies[n1 - 1].at.tag@,
                        replies,
                        n1,
                    ),
                    |pushed: (bool, Seq<char>), n2: int|
                        Flow::Done(
                            Ok(
                                committed_visit(
                                    root,
                                    path,
                                    record,
                                    message,
                                    pushed,
                                    replies[n2 - 1].at.iso@,
                                    known,
                                ),
                            ),
                            n2,
                        ),
                )
            },
    )
}

/// What a visit comes to in which a commit was made, with the outcome of the push, at the time
/// `now`.
pub open spec fn committed_visit(
    root: Seq<char>,
    path: Seq<char>,
    record: AutocommitView,
    message: Seq<char>,
    pushed: (bool, Seq<char>),
    now: Seq<char>,
    known: Map<Seq<char>, registry::EntryView>,
) -> Visit<AutocommitView> {
    let done = AutocommitView {
        committed: true,
        pushed: pushed.0,
        commit_message: Some(message),
        push_detail: Some(pushed.1),
        ..record
    };
    Visit {
        record: done,
        known: known.insert(
            path,
            committed_entry(
                registry::touched(known, path, now),
                record.dirty_before,
                pushed.0,
                now,
            ),
        ),
        log: store::append_ops(
            root,
            "autocommit"@,
            json::json_line(commit_event(path, done, pushed.1, message)),
        ),
    }
}

fn note_checked(registry: &mut Registry, path: &str, now: &str)
    ensures
        final(registry)@ == old(registry)@.insert(
            path@,
            registry::touched(old(registry)@, path@, now@),
        ),
{
    let keep = |e: RepoEntry| -> (r: RepoEntry)
        ensures
            r@ == e@,
    { e };
    upsert_entry_at(registry, path, now, keep);
}

fn note_commit(registry: &mut Registry, path: &str, dirty: usize, pushed: bool, now: &str)
    ensures
        final(registry)@ == old(registry)@.insert(
            path@,
            committed_entry(
                registry::touched(old(registry)@, path@, now@),
                dirty,
                pushed,
                now@,
            ),
        ),
{
    let change = |e: RepoEntry| -> (r: RepoEntry)
        ensures
            r@ == committed_entry(e@, dirty, pushed, now@),
    {
        let mut r = e;
        r.last_check = Some(now.to_owned());
        r.last_dirty_count = Some(dirty as u64);
        r.last_auto_commit = Some(now.to_owned());
        if pushed {
            r.last_push_time = Some(now.to_owned());
        }
        r
    };
    upsert_entry_at(registry, path, now, change);
}

proof fn lemma_event_fields_differ(
    path: Seq<char>,
    record: AutocommitView,
    detail: Seq<char>,
    message: Seq<char>,
)
    ensures
        commit_event(path, record, detail, message) matches Json::Object(list) && json::distinct(
            list,
        ),
{
    reveal_strlit("branch");
    reveal_strlit("commit_message");
    reveal_strlit("committed");
    reveal_strlit("dirty_before");
    reveal_strlit("event");
    reveal_strlit("path");
    reveal_strlit("push_detail");
    reveal_strlit("pushed");
    reveal_strlit("since_last_sec");
    assert("branch"@[0] == 'b' && "pushed"@[0] == 'p');
    assert("commit_message"@[0] == 'c' && "since_last_sec"@[0] == 's');
    let list = commit_event(path, record, detail, message)->Object_0;
    assert(list[0].0 == "branch"@);
    assert(list[1].0 == "commit_message"@);
    assert(list[2].0 == "committed"@);
    assert(list[3].0 == "dirty_before"@);
    assert(list[4].0 == "event"@);
    assert(list[5].0 == "path"@);
    assert(list[6].0 == "push_detail"@);
    assert(list[7].0 == "pushed"@);
    assert(list[8].0 == "since_last_sec"@);
    assert forall|i: int, j: int| 0 <= i < j < list.len() implies (#[trigger] list[i]).0 != (
    #[trigger] list[j]).0 by {
        assert(i == 0 || i == 1 || i == 2 || i == 3 || i == 4 || i == 5
            || i == 6 || i == 7 || i == 8);
        assert(j == 0 || j == 1 || j == 2 || j == 3 || j == 4 || j == 5
            || j == 6 || j == 7 || j == 8);
    }
}

fn event_of(path: &str, record: &AutocommitRecord, detail: &str, message: &str) -> (event:
    serde_json::Value)
    ensures
        json::json_of(event) == commit_event(path@, record@, detail@, message@),
{
    let list = vec![
        ("branch".to_owned(), text_value(Some(record.branch.clone()))),
        ("commit_message".to_owned(), text_value(Some(message.to_owned()))),
        ("committed".to_owned(), flag_value(record.committed)),
        ("dirty_before".to_owned(), count_value(Some(record.dirty_before as u64))),
        ("event".to_owned(), text_value(Some("autocommit".to_owned()))),
        ("path".to_owned(), text_value(Some(path.to_owned()))),
        ("push_detail".to_owned(), text_value(Some(detail.to_owned()))),
        ("pushed".to_owned(), flag_value(record.pushed)),
        ("since_last_sec".to_owned(), count_value(Some(record.since_last_sec))),
    ];
    proof {
        let event = commit_event(path@, record@, detail@, message@);
        lemma_event_fields_differ(path@, record@, detail@, message@);
        assert(json::fields(list@) =~= event->Object_0);
    }
    object_value(list)
}

/// What the outcome of a visit means, given the registry that it left behind.
pub open spec fn visit_of(
    step: Step<(AutocommitRecord, Vec<FileAction>)>,
    known: Map<Seq<char>, registry::EntryView>,
) -> Flow<Visit<AutocommitView>> {
    match step {
        Step::Run(c) => Flow::Run(c@),
        Step::Done(Ok((record, log)), n) => Flow::Done(
            Ok(Visit { record: record@, known, log: state::ops(log@) }),
            n as int,
        ),
        Step::Done(Err(why), n) => Flow::Done(Err(why@), n as int),
    }
}

fn commit_and_push(
    state_root: &StateRoot,
    path: &str,
    record: AutocommitRecord,
    message: String,
    registry: &mut Registry,
    env: &Vec<(String, String)>,
    replies: &[GitReply],
    from: usize,
) -> (step: Step<(AutocommitRecord, Vec<FileAction>)>)
    ensures
        visit_of(step, final(registry)@) == commit_and_push_flow(
            state_root@,
            path@,
            record@,
            message@,
            old(registry)@,
            flow::env_views(env@),
            replies@,
            from as int,
        ),
        step matches Step::Done(_, n) ==> from < n <= replies.len(),
        !(step matches Step::Done(Ok(_), _)) ==> final(registry)@ == old(registry)@,
{
    let mut record = record;
    let n1: usize = match commit_all(&message, env, replies, from) {
        Step::Run(c) => {
            return Step::Run(c);
        },
        Step::Done(Err(why), n) => {
            return Step::Done(Err(why), n);
        },
        Step::Done(Ok(made), n) => {
            if !made {
                record.error = Some("commit failed".to_owned());
                note_checked(registry, path, &replies[n - 1].at.iso);
                let log: Vec<FileAction> = Vec::new();
                proof {
                    assert(state::ops(log@) =~= Seq::empty());
                }
                return Step::Done(Ok((record, log)), n);
            }
            n
        },
    };
    match try_push_or_snapshot(&record.branch, &replies[n1 - 1].at.tag, replies, n1) {
        Step::Run(c) => Step::Run(c),
        Step::Done(Err(why), n) => Step::Done(Err(why), n),
        Step::Done(Ok((ok, detail)), n) => {
            record.committed = true;
            record.commit_message = Some(message.clone());
            record.pushed = ok;
            record.push_detail = Some(detail.clone());
            note_commit(registry, path, record.dirty_before, ok, &replies[n - 1].at.iso);
            let event = event_of(path, &record, &detail, &message);
            let log = append_event(state_root, "autocommit", &event);
            Step::Done(Ok((record, log)), n)
        },
    }
}

fn nothing_logged(record: AutocommitRecord, n: usize) -> (step: Step<
    (AutocommitRecord, Vec<FileAction>),
>)
    ensures
        forall|known: Map<Seq<char>, registry::EntryView>|
            #[trigger] visit_of(step, known) == Flow::Done(
                Ok(untouched(record@, known)),
                n as int,
            ),
        step matches Step::Done(Ok(_), m) && m == n,
{
    let log: Vec<FileAction> = Vec::new();
    proof {
        assert(state::ops(log@) =~= Seq::empty());
    }
    Step::Done(Ok((record, log)), n)
}

/// Looks at one work tree, and commits and pushes what has changed in it, unless it is too early
/// for that or this is only a rehearsal. The registry changes with the result.
pub fn run_one(
    state_root: &StateRoot,
    path: &str,
    meta: &RepoEntry,
    dry_run: bool,
    registry: &mut Registry,
    env: &Vec<(String, String)>,
    replies: &[GitReply],
    from: usize,
) -> (step: Step<(AutocommitRecord, Vec<FileAction>)>)
    ensures
        visit_of(step, final(registry)@) == run_one_flow(
            state_root@,
            path@,
            meta@,
            dry_run,
            old(registry)@,
            flow::env_views(env@),
            replies@,
            from as int,
        ),
        step matches Step::Done(_, n) ==> from < n <= replies.len(),
        !(step matches Step::Done(Ok(_), _)) ==> final(registry)@ == old(registry)@,
{
    let mut record = AutocommitRecord::default();
    let n1: usize = match is_inside_work_tree(replies, from) {
        Step::Run(c) => {
            return Step::Run(c);
        },
        Step::Done(Err(why), n) => {
            return Step::Done(Err(why), n);
        },
        Step::Done(Ok(inside), n) => {
            if !inside {
                record.skip = Some("not-a-git-repo".to_owned());
                return nothing_logged(record, n);
            }
            n
        },
    };
    let n2: usize = match current_branch(replies, n1) {
        Step::Run(c) => {
            return Step::Run(c);
        },
        Step::Done(Err(why), n) => {
            return Step::Done(Err(why), n);
        },
        Step::Done(Ok(None), n) => {
            record.skip = Some("detached-head".to_owned());
            return nothing_logged(record, n);
        },
        Step::Done(Ok(Some(branch)), n) => {
            record.branch = branch;
            n
        },
    };
    let n3: usize = match dirty_count(replies, n2) {
        Step::Run(c) => {
            return Step::Run(c);
        },
        Step::Done(Err(why), n) => {
            return Step::Done(Err(why), n);
        },
        Step::Done(Ok(dirty), n) => {
            record.dirty_before = dirty;
            n
        },
    };
    let at = &replies[n3 - 1].at;
    record.since_last_sec = seconds_since(&meta.last_auto_commit, at.secs);
    proof {
        assert(record@ == looked_at(
            record@.branch,
            record@.dirty_before,
            since_last(meta@.last_auto_commit, replies@[n3 - 1].at.secs),
        ));
    }
    if record.dirty_before == 0 {
        record.skip = Some("clean".to_owned());
        return nothing_logged(record, n3);
    }
    if record.since_last_sec < AUTOCOMMIT_INTERVAL {
        record.skip = Some("throttled".to_owned());
        return nothing_logged(record, n3);
    }
    if dry_run {
        record.dry_run = true;
        return nothing_logged(record, n3);
    }
    let message = "wip: auto-commit daemon ".to_owned().concat(&at.iso);
    commit_and_push(state_root, path, record, message, registry, env, replies, n3)
}

/// What a pass comes to.
#[derive(Debug, Clone, PartialEq, Eq)]
pub struct AutocommitSummary {
    pub visited: usize,
    pub dirty_count_seen: usize,
    pub committed: usize,
    pub errors: usize,
    pub dry_run: bool,
    pub records: Vec<(String, AutocommitRecord)>,
}

/// The model of an [`AutocommitSummary`].
pub struct AutocommitTotals {
    pub visited: nat,
    pub dirty_count_seen: nat,
    pub committed: nat,
    pub errors: nat,
    pub dry_run: bool,
    pub records: Seq<(Seq<char>, AutocommitView)>,
}

/// The views of a list of records.
pub open spec fn record_views(list: Seq<(String, AutocommitRecord)>) -> Seq<
    (Seq<char>, AutocommitView),
> {
    list.map_values(|e: (String, AutocommitRecord)| (e.0@, e.1@))
}

impl View for AutocommitSummary {
    type V = AutocommitTotals;

    open spec fn view(&self) -> AutocommitTotals {
        AutocommitTotals {
            visited: self.visited as nat,
            dirty_count_seen: self.dirty_count_seen as nat,
            committed: self.committed as nat,
            errors: self.errors as nat,
            dry_run: self.dry_run,
            records: record_views(self.records@),
        }
    }
}

impl DeepView for AutocommitSummary {
    type V = AutocommitTotals;

    open spec fn deep_view(&self) -> AutocommitTotals {
        self@
    }
}

/// What a pass with the given records comes to: each total counts the records that it is about.
pub open spec fn totals(
    records: Seq<(Seq<char>, AutocommitView)>,
    dry_run: bool,
) -> AutocommitTotals {
    AutocommitTotals {
        visited: records.len(),
        dirty_count_seen: pass::how_many(records, |r: AutocommitView| r.dirty_before > 0),
        committed: pass::how_many(records, |r: AutocommitView| r.committed),
        errors: pass::how_many(records, |r: AutocommitView| r.error is Some),
        dry_run,
        records,
    }
}

/// The record of a work tree in which a command could not be run.
pub open spec fn failed_record(why: Seq<char>, dry_run: bool) -> AutocommitView {
    AutocommitView { skip: Some("error"@), error: Some(why), dry_run, ..blank_record() }
}

/// Goes on with a pass at the work tree number `k` of a list. At the end the registry is saved,
/// unless this was only a rehearsal.
pub open spec fn run_from_flow(
    root: Seq<char>,
    list: Seq<(Seq<char>, registry::EntryView)>,
    k: int,
    dry_run: bool,
    env: Seq<(Seq<char>, Seq<char>)>,
    so_far: Progress<AutocommitView>,
    replies: Seq<GitReply>,
    i: int,
) -> PassFlow<AutocommitTotals>
    decreases list.len() - k,
{
    if k >= list.len() {
        PassFlow::Done {
            log: so_far.log,
            summary: totals(so_far.records, dry_run),
            save: if dry_run {
                None
            } else {
                Some(so_far.known)
            },
        }
    } else {
        match run_one_flow(root, list[k].0, list[k].1, dry_run, so_far.known, env, replies, i) {
            Flow::Run(command) => PassFlow::Git { log: so_far.log, repo: list[k].0, command },
            Flow::Done(Ok(visit), n) => run_from_flow(
                root,
                list,
                k + 1,
                dry_run,
                env,
                so_far.visited(list[k].0, visit),
                replies,
                n,
            ),
            Flow::Done(Err(why), n) => run_from_flow(
                root,
                list,
                k + 1,
                dry_run,
                env,
                so_far.visited(
                    list[k].0,
                    untouched(failed_record(why, dry_run), so_far.known),
                ),
                replies,
                n,
            ),
        }
    }
}

/// One autocommit pass over the work trees of `list`, which the registry `known` holds.
pub open spec fn run_flow(
    root: Seq<char>,
    list: Seq<(Seq<char>, registry::EntryView)>,
    known: Map<Seq<char>, registry::EntryView>,
    dry_run: bool,
    env: Seq<(Seq<char>, Seq<char>)>,
    replies: Seq<GitReply>,
) -> PassFlow<AutocommitTotals> {
    run_from_flow(
        root,
        list,
        0,
        dry_run,
        env,
        Progress { records: Seq::empty(), known, log: Seq::empty() },
        replies,
        0,
    )
}

impl Default for AutocommitSummary {
    /// A pass in which no work tree was visited.
    fn default() -> (r: AutocommitSummary)
        ensures
            r@ == totals(Seq::empty(), false),
    {
        let records: Vec<(String, AutocommitRecord)> = Vec::new();
        proof {
            assert(record_views(records@) =~= Seq::empty());
        }
        AutocommitSummary {
            visited: 0,
            dirty_count_seen: 0,
            committed: 0,
            errors: 0,
            dry_run: false,
            records,
        }
    }
}

/// Adds the record of one more work tree to what a pass comes to.
fn add_record(summary: &mut AutocommitSummary, path: &str, record: AutocommitRecord)
    requires
        old(summary)@ == totals(record_views(old(summary).records@), old(summary).dry_run),
        old(summary).records.len() < usize::MAX,
    ensures
        final(summary)@ == totals(
            record_views(old(summary).records@).push((path@, record@)),
            old(summary).dry_run,
        ),
{
    let ghost before = record_views(summary.records@);
    let ghost new = (path@, record@);
    proof {
        let now = before.push(new);
        assert(now.drop_last() =~= before);
        pass::lemma_how_many_at_most(before, |r: AutocommitView| r.dirty_before > 0);
        pass::lemma_how_many_at_most(before, |r: AutocommitView| r.committed);
        pass::lemma_how_many_at_most(before, |r: AutocommitView| r.error is Some);
    }
    if record.error.is_some() {
        summary.errors = summary.errors + 1;
    }
    if record.dirty_before > 0 {
        summary.dirty_count_seen = summary.dirty_count_seen + 1;
    }
    if record.committed {
        summary.committed = summary.committed + 1;
    }
    summary.visited = summary.visited + 1;
    summary.records.push((path.to_owned(), record));
    proof {
        assert(record_views(summary.records@) =~= before.push(new));
    }
}

/// One autocommit pass over the registered work trees, in the order of their paths.
pub fn run(
    state_root: &StateRoot,
    registry: &Registry,
    dry_run: bool,
    env: &Vec<(String, String)>,
    replies: &[GitReply],
) -> (step: PassStep<AutocommitSummary>)
    ensures
        step@ == run_flow(
            state_root@,
            registry.listing(),
            registry@,
            dry_run,
            flow::env_views(env@),
            replies@,
        ),
{
    let entries = registry.entries();
    let ghost list = registry.listing();
    let mut known = registry.clone();
    let mut log: Vec<FileAction> = Vec::new();
    let mut summary = AutocommitSummary::default();
    summary.dry_run = dry_run;
    let mut at: usize = 0;
    let mut k: usize = 0;
    proof {
        assert(state::ops(log@) =~= Seq::empty());
    }
    while k < entries.len()
        invariant
            k <= entries.len(),
            registry::pairs(entries@) == list,
            list == registry.listing(),
            at <= replies.len(),
            summary@ == totals(record_views(summary.records@), dry_run),
            summary.records.len() == k,
            run_flow(
                state_root@,
                list,
                registry@,
                dry_run,
                flow::env_views(env@),
                replies@,
            ) == run_from_flow(
                state_root@,
                list,
                k as int,
                dry_run,
                flow::env_views(env@),
                Progress {
                    records: record_views(summary.records@),
                    known: known@,
                    log: state::ops(log@),
                },
                replies@,
                at as int,
            ),
        decreases entries.len() - k,
    {
        let path = &entries[k].0;
        proof {
            assert(list[k as int] == (entries@[k as int].0@, entries@[k as int].1@));
        }
        let (record, n) = match run_one(
            state_root,
            path,
            &entries[k].1,
            dry_run,
            &mut known,
            env,
            replies,
            at,
        ) {
            Step::Run(command) => {
                return PassStep::Git { log, repo: path.clone(), command };
            },
            Step::Done(Ok((record, more)), n) => {
                log_more(&mut log, more);
                (record, n)
            },
            Step::Done(Err(why), n) => {
                let mut record = AutocommitRecord::default();
                record.skip = Some("error".to_owned());
                record.error = Some(why);
                record.dry_run = dry_run;
                (record, n)
            },
        };
        add_record(&mut summary, path, record);
        at = n;
        k = k + 1;
    }
    let save = if dry_run {
        None
    } else {
        Some(known)
    };
    PassStep::Done { log, summary, save }
}

/// One line of the report of a pass.
pub open spec fn rendered_record(path: Seq<char>, r: AutocommitView) -> Seq<char> {
    "[daemon-autocommit] ["@ + if r.error is Some {
        "ERR"@
    } else {
        "OK "@
    } + "] "@ + path + ": branch="@ + r.branch + " dirty_before="@ + text::decimal(
        r.dirty_before as int,
    ) + " since_last="@ + text::decimal(r.since_last_sec as int) + "s committed="@
        + text::flag_text(r.committed) + " pushed="@ + text::flag_text(r.pushed) + noted(
        " skip="@,
        r.skip,
    ) + noted(" error="@, r.error) + "\n"@
}

/// A labelled text, or nothing where it is missing.
pub open spec fn noted(label: Seq<char>, value: Option<Seq<char>>) -> Seq<char> {
    match value {
        Some(text) => label + text,
        None => Seq::empty(),
    }
}

fn note(out: &mut String, label: &str, value: &Option<String>)
    ensures
        final(out)@ == old(out)@ + noted(label@, value.deep_view()),
{
    match value {
        Some(text) => {
            out.append(label);
            out.append(text);
            proof {
                assert(old(out)@ + label@ + text@ =~= old(out)@ + (label@ + text@));
            }
        },
        None => {
            proof {
                assert(old(out)@ + Seq::empty() =~= old(out)@);
            }
        },
    }
}

/// The lines of the report of a pass.
pub open spec fn rendered_records(list: Seq<(Seq<char>, AutocommitView)>) -> Seq<char>
    decreases list.len(),
{
    if list.len() == 0 {
        Seq::empty()
    } else {
        rendered_records(list.drop_last()) + rendered_record(list.last().0, list.last().1)
    }
}

impl AutocommitTotals {
    /// The report of a pass: a line for each work tree, and the totals.
    pub open spec fn rendered(self) -> Seq<char> {
        rendered_records(self.records) + "[done] visited="@ + text::decimal(self.visited as int)
            + " dirty="@ + text::decimal(self.dirty_count_seen as int) + " committed="@
            + text::decimal(self.committed as int) + " errors="@ + text::decimal(
            self.errors as int,
        ) + " dry_run="@ + text::flag_text(self.dry_run) + "\n"@
    }
}

fn render_record(path: &str, r: &AutocommitRecord) -> (out: String)
    ensures
        out@ == rendered_record(path@, r@),
{
    let mut out = "[daemon-autocommit] [".to_owned();
    if r.error.is_some() {
        out.append("ERR");
    } else {
        out.append("OK ");
    }
    out.append("] ");
    out.append(path);
    out.append(": branch=");
    out.append(&r.branch);
    out.append(" dirty_before=");
    out.append(&show(r.dirty_before as u64));
    out.append(" since_last=");
    out.append(&show(r.since_last_sec));
    out.append("s committed=");
    out.append(flag(r.committed));
    out.append(" pushed=");
    out.append(flag(r.pushed));
    note(&mut out, " skip=", &r.skip);
    note(&mut out, " error=", &r.error);
    out.append("\n");
    out
}

impl AutocommitSummary {
    /// The report of a pass: a line for each work tree, and the totals.
    pub fn render(&self) -> (out: String)
        ensures
            out@ == self@.rendered(),
    {
        let mut out = String::new();
        let mut k: usize = 0;
        proof {
            assert(self@.records.take(0) =~= Seq::empty());
            assert(out@ =~= Seq::empty());
        }
        while k < self.records.len()
            invariant
                k <= self.records.len(),
                out@ == rendered_records(self@.records.take(k as int)),
            decreases self.records.len() - k,
        {
            proof {
                let list = self@.records.take(k + 1);
                assert(list.drop_last() =~= self@.records.take(k as int));
                assert(list.last() == (self.records@[k as int].0@, self.records@[k as int].1@));
            }
            out.append(&render_record(&self.records[k].0, &self.records[k].1));
            k = k + 1;
        }
        proof {
            assert(self@.records.take(k as int) =~= self@.records);
        }
        out.append("[done] visited=");
        out.append(&show(self.visited as u64));
        out.append(" dirty=");
        out.append(&show(self.dirty_count_seen as u64));
        out.append(" committed=");
        out.append(&show(self.committed as u64));
        out.append(" errors=");
        out.append(&show(self.errors as u64));
        out.append(" dry_run=");
        out.append(flag(self.dry_run));
        out.append("\n");
        out
    }
}

/// A work tree of which no automatic commit is known, or none whose time can be read, is never
/// throttled.
pub proof fn law_never_committed_is_not_throttled(last: Option<Seq<char>>, now: u64)
    requires
        last matches Some(stamp) ==> clock::rfc3339_seconds(stamp) is None,
    ensures
        since_last(last, now) == u64::MAX,
        since_last(last, now) >= AUTOCOMMIT_INTERVAL,
{
}

/// A visit in which a commit is made leaves a note of it in the registry, with the time of its
/// last command. Nothing else leaves such a note.
pub proof fn law_commit_is_noted(
    root: Seq<char>,
    path: Seq<char>,
    meta: registry::EntryView,
    dry_run: bool,
    known: Map<Seq<char>, registry::EntryView>,
    env: Seq<(Seq<char>, Seq<char>)>,
    replies: Seq<GitReply>,
    i: int,
)
    ensures
        run_one_flow(root, path, meta, dry_run, known, env, replies, i) matches Flow::Done(
            Ok(visit),
            n,
        ) ==> {
            if visit.record.committed {
                visit.known.contains_key(path) && visit.known[path].last_auto_commit == Some(
                    replies[n - 1].at.iso@,
                )
            } else {
                forall|p: Seq<char>| #[trigger]
                    known.contains_key(p) ==> visit.known.contains_key(p)
                        && visit.known[p].last_auto_commit == known[p].last_auto_commit
            }
        },
{
}

/// A work tree is committed to at most once in an interval. Where one visit has made a commit, and
/// a later one, which goes by what the registry then knew, makes another, the interval has passed
/// in between: from the last command of the first visit to the moment at which the second one
/// counted the changes. The clock is taken to give a time stamp that reads back as the second it
/// was written for, as it does until the end of the year 9999.
pub proof fn law_one_commit_per_interval(
    root: Seq<char>,
    path: Seq<char>,
    meta: registry::EntryView,
    known: Map<Seq<char>, registry::EntryView>,
    env: Seq<(Seq<char>, Seq<char>)>,
    first: Seq<GitReply>,
    i: int,
    later: Map<Seq<char>, registry::EntryView>,
    second: Seq<GitReply>,
    j: int,
)
    requires
        run_one_flow(root, path, meta, false, known, env, first, i) matches Flow::Done(
            Ok(visit),
            n,
        ) && visit.record.committed && first[n - 1].at.reads_back() && ({
            run_one_flow(
                root,
                path,
                visit.known[path],
                false,
                later,
                env,
                second,
                j,
            ) matches Flow::Done(Ok(again), _) && again.record.committed
        }),
    ensures
        run_one_flow(root, path, meta, false, known, env, first, i) matches Flow::Done(_, n)
            && second[j + 2].at.secs >= first[n - 1].at.secs + AUTOCOMMIT_INTERVAL,
{
    law_commit_is_noted(root, path, meta, false, known, env, first, i);
}

/// A visit never forgets a work tree, never touches what is known of another one, and keeps the
/// time of an earlier registration.
pub proof fn law_visit_keeps_registrations(
    root: Seq<char>,
    path: Seq<char>,
    meta: registry::EntryView,
    dry_run: bool,
    known: Map<Seq<char>, registry::EntryView>,
    env: Seq<(Seq<char>, Seq<char>)>,
    replies: Seq<GitReply>,
    i: int,
)
    ensures
        run_one_flow(root, path, meta, dry_run, known, env, replies, i) matches Flow::Done(
            Ok(visit),
            n,
        ) ==> registry::keeps(known, visit.known, path),
{
}

} // verus!
