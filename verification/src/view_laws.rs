//! The models leave nothing out: each shows every field of what it stands for, as it is.
use crate::autocommit;
use crate::autocommit::{AutocommitRecord, AutocommitSummary};
use crate::cleanup;
use crate::cleanup::{CleanupRecord, CleanupSummary};
use crate::cli::{CliStep, Next, NextView, Outcome};
use crate::flow;
use crate::flow::{Flow, GitCommand, Step};
use crate::pass::{PassFlow, PassStep};
use crate::registry;
use crate::registry::{EntryView, Registry, RepoEntry};
use crate::snapshot::SnapshotCommit;
use crate::state;
use crate::state::{FileAction, FileOp};
use crate::status::RepoSnapshot;
use crate::text;
use vstd::prelude::*;

verus! {

/// Lists are shown item by item.
pub proof fn law_lists_are_shown(
    texts: Seq<String>,
    pairs: Seq<(String, String)>,
    actions: Seq<FileAction>,
    entries: Seq<(String, RepoEntry)>,
)
    ensures
        text::views(texts).len() == texts.len(),
        forall|k: int| 0 <= k < texts.len() ==> #[trigger] text::views(texts)[k] == texts[k]@,
        flow::env_views(pairs).len() == pairs.len(),
        forall|k: int|
            0 <= k < pairs.len() ==> #[trigger] flow::env_views(pairs)[k] == (
                pairs[k].0@,
                pairs[k].1@,
            ),
        state::ops(actions).len() == actions.len(),
        forall|k: int| 0 <= k < actions.len() ==> #[trigger] state::ops(actions)[k] == actions[k]@,
        registry::pairs(entries).len() == entries.len(),
        forall|k: int|
            0 <= k < entries.len() ==> #[trigger] registry::pairs(entries)[k] == (
                entries[k].0@,
                entries[k].1@,
            ),
{
}

/// A text that may be missing is shown as it is.
pub open spec fn shown(value: Option<String>, model: Option<Seq<char>>) -> bool {
    &&& value is None <==> model is None
    &&& value matches Some(text) ==> model == Some(text@)
}

/// Commands and actions on files are shown as they are.
pub proof fn law_requests_are_shown(c: GitCommand, path: String, text: String, to: String)
    ensures
        c@.args == text::views(c.args@),
        c@.env == flow::env_views(c.env@),
        c@.timeout_secs == c.timeout_secs,
        FileAction::CreateDir(path)@ == FileOp::CreateDir(path@),
        (FileAction::Write { path, text })@ == (FileOp::Write { path: path@, text: text@ }),
        (FileAction::Append { path, text })@ == (FileOp::Append { path: path@, text: text@ }),
        (FileAction::Rename { from: path, to })@ == (FileOp::Rename { from: path@, to: to@ }),
{
}

/// Entries, records and snapshots are shown field by field.
pub proof fn law_records_are_shown(
    e: RepoEntry,
    a: AutocommitRecord,
    c: CleanupRecord,
    s: RepoSnapshot,
    p: SnapshotCommit,
)
    ensures
        shown(e.registered_at, e@.registered_at),
        shown(e.last_check, e@.last_check),
        e@.last_dirty_count == e.last_dirty_count,
        shown(e.remote_url, e@.remote_url),
        shown(e.primary_branch, e@.primary_branch),
        shown(e.last_auto_commit, e@.last_auto_commit),
        shown(e.last_push_time, e@.last_push_time),
        a@.branch == a.branch@,
        a@.dirty_before == a.dirty_before,
        a@.since_last_sec == a.since_last_sec,
        a@.committed == a.committed,
        a@.pushed == a.pushed,
        shown(a.skip, a@.skip),
        shown(a.error, a@.error),
        shown(a.commit_message, a@.commit_message),
        shown(a.push_detail, a@.push_detail),
        a@.dry_run == a.dry_run,
        c@.stashes_seen == c.stashes_seen,
        c@.stashes_recovered == c.stashes_recovered,
        c@.stashes_failed == c.stashes_failed,
        c@.stash_errors == flow::env_views(c.stash_errors@),
        c@.ahead == c.ahead,
        c@.push_ok == c.push_ok,
        shown(c.push_detail, c@.push_detail),
        shown(c.skip, c@.skip),
        s@.path == s.path@,
        s@.branch == s.branch@,
        s@.primary == s.primary@,
        s@.ahead == s.ahead,
        s@.behind == s.behind,
        s@.dirty == s.dirty,
        s@.stashes == s.stashes,
        s@.last_commit == s.last_commit@,
        s@.meta == s.meta@,
        s.deep_view() == s@,
        p@.branch == p.branch@,
        p@.head == p.head@,
        p@.commit == p.commit@,
        p.deep_view() == p@,
{
}

/// Summaries are shown with every total and every record.
pub proof fn law_summaries_are_shown(a: AutocommitSummary, c: CleanupSummary)
    ensures
        a@.visited == a.visited,
        a@.dirty_count_seen == a.dirty_count_seen,
        a@.committed == a.committed,
        a@.errors == a.errors,
        a@.dry_run == a.dry_run,
        a@.records.len() == a.records@.len(),
        forall|k: int|
            0 <= k < a.records@.len() ==> #[trigger] a@.records[k] == (
                a.records@[k].0@,
                a.records@[k].1@,
            ),
        a.deep_view() == a@,
        c@.visited == c.visited,
        c@.stashes_recovered == c.stashes_recovered,
        c@.commits_pushed == c.commits_pushed,
        c@.errors == c.errors,
        c@.dry_run == c.dry_run,
        c@.records.len() == c.records@.len(),
        forall|k: int|
            0 <= k < c.records@.len() ==> #[trigger] c@.records[k] == (
                c.records@[k].0@,
                c.records@[k].1@,
            ),
        c.deep_view() == c@,
{
}

/// The steps of a conversation, of a visit, of a pass and of a command are shown as they are.
pub proof fn law_steps_are_shown(
    c: GitCommand,
    text: String,
    n: usize,
    why: String,
    log: Vec<FileAction>,
    a: AutocommitRecord,
    r: CleanupRecord,
    known: Map<Seq<char>, EntryView>,
    save: Option<Registry>,
    summary: AutocommitSummary,
    report: CleanupSummary,
    outcome: Outcome,
    step: CliStep,
)
    ensures
        Step::<String>::Run(c)@ == Flow::<Seq<char>>::Run(c@),
        Step::<String>::Done(Ok(text), n)@ == Flow::<Seq<char>>::Done(Ok(text@), n as int),
        Step::<String>::Done(Err(why), n)@ == Flow::<Seq<char>>::Done(Err(why@), n as int),
        autocommit::visit_of(Step::Run(c), known) matches Flow::Run(x) && x == c@,
        autocommit::visit_of(Step::Done(Err(why), n), known) matches Flow::Done(Err(x), m) && x == why@
            && m == n,
        autocommit::visit_of(Step::Done(Ok((a, log)), n), known) matches Flow::Done(Ok(v), m) && m
            == n && v.record == a@ && v.known == known && v.log == state::ops(log@),
        cleanup::visit_of(Step::Run(c), known) matches Flow::Run(x) && x == c@,
        cleanup::visit_of(Step::Done(Err(why), n), known) matches Flow::Done(Err(x), m) && x == why@
            && m == n,
        cleanup::visit_of(Step::Done(Ok((r, log)), n), known) matches Flow::Done(Ok(v), m) && m == n
            && v.record == r@ && v.known == known && v.log == state::ops(log@),
        (PassStep::<AutocommitSummary>::Git { log, repo: text, command: c })@ matches PassFlow::Git {
            log: ops,
            repo,
            command,
        } && ops == state::ops(log@) && repo == text@ && command == c@,
        (PassStep::Done { log, summary, save })@ matches PassFlow::Done {
            log: ops,
            summary: totals,
            save: kept,
        } && ops == state::ops(log@) && totals == summary@ && (save is None <==> kept is None) && (
        save matches Some(registry) ==> kept == Some(registry@)),
        (PassStep::Done { log, summary: report, save })@ matches PassFlow::Done {
            log: ops,
            summary: totals,
            save: kept,
        } && ops == state::ops(log@) && totals == report@ && (save is None <==> kept is None) && (
        save matches Some(registry) ==> kept == Some(registry@)),
        outcome@.out == outcome.out@,
        outcome@.err == outcome.err@,
        outcome@.code == outcome.code,
        outcome.save is None <==> outcome@.save is None,
        outcome.save matches Some(registry) ==> outcome@.save == Some(registry@),
        Next::LoadRegistry@ == NextView::LoadRegistry,
        Next::CreateIndex@ == NextView::CreateIndex,
        (Next::Git { repo: text, command: c })@ == (NextView::Git { repo: text@, command: c@ }),
        Next::Done(Ok(outcome))@ == NextView::Done(Ok(outcome@)),
        Next::Done(Err(why))@ == NextView::Done(Err(why@)),
        step@.setup == state::ops(step.setup@),
        step@.log == state::ops(step.log@),
        step@.next == step.next@,
{
}

/// A registry holds exactly the work trees of its listing.
pub proof fn law_registry_is_its_listing(registry: Registry)
    ensures
        registry@ == registry::map_of(registry.listing()),
{
}

} // verus!
