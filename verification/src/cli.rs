//! The commands of the command line.
//!
//! Running a command is a conversation too. It is a function of what the caller has found out so
//! far, and tells what to find out next: what git says to a command, what the registry holds, or
//! where an index file may be put. In the end it tells what to save, what to print and which exit
//! code to use.
use crate::autocommit;
use crate::cleanup;
pub use crate::clock::short_id;
use crate::clock::Stamp;
use crate::commit;
use crate::commit::{ensure_clean_author_env, AuthorVars};
use crate::flow;
use crate::flow::args3;
use crate::flow::{Flow, GitCommand, GitReply, Step};
use crate::git_ops;
use crate::git_ops::{dirty_count, get_remote_url, is_inside_work_tree, primary_branch};
use crate::pass;
use crate::pass::{PassFlow, PassStep};
use crate::push;
use crate::push::{push_branch_with_upstream, try_push_or_snapshot};
use crate::registry;
use crate::registry::{upsert_entry_at, Registry, RepoEntry};
use crate::snapshot;
use crate::snapshot::{create_snapshot_commit, git_value, verify_pushed_snapshot};
use crate::snapshot::{SnapshotCommit, SnapshotCommitView};
use crate::state;
use crate::state::{expand_user, is_absolute, resolve_repo_path, FileAction, FileOp, StateRoot};
use crate::status;
use crate::status::snapshot_repo;
use crate::text;
use crate::text::{or_if_empty, or_text, same, show, trim};
use vstd::prelude::*;

verus! {

/// A command line.
#[derive(Debug, PartialEq, Eq)]
pub struct Cli {
    pub command: Commands,
}

/// The commands of the command line.
#[derive(Debug, PartialEq, Eq)]
pub enum Commands {
    /// Register a work tree.
    Register { repo_path: String },
    /// Remove a work tree from the registry.
    Unregister { repo_path: String },
    /// List every registered work tree.
    List,
    /// Show a one-screen status of a work tree.
    Status { repo_path: String },
    /// Make a snapshot branch of a work tree, and push it.
    Snapshot { repo_path: String, message: Option<String> },
    /// One autocommit pass.
    Autocommit { dry_run: bool },
    /// One cleanup pass.
    Cleanup { dry_run: bool },
    /// Tell how to run passes of one kind for ever.
    Daemon { mode: String },
    /// List every registered work tree with all that is known of it.
    Audit,
    /// Push a branch of a work tree, or keep it as a new branch.
    Restore { repo_path: String, branch: String },
    /// Count the registered work trees that need attention.
    Quickstatus,
}

/// What the caller has found out so far.
#[derive(Debug, PartialEq, Eq)]
pub struct Inputs {
    /// The home directory, where there is one.
    pub home: Option<String>,
    /// The current directory, or why it is not known.
    pub cwd: Result<String, String>,
    /// The variables that override the identity of commits.
    pub author: AuthorVars,
    /// When the command was given.
    pub started: Stamp,
    /// The registry, or why it could not be read; none until that was asked for.
    pub registry: Option<Result<Registry, String>>,
    /// The path of an index file to use and throw away, or why there is none; none until that was
    /// asked for.
    pub index: Option<Result<String, String>>,
    /// The replies to the commands that were asked for, in order.
    pub replies: Vec<GitReply>,
}

/// What a command comes to. The registry is saved, where there is one to save, before anything
/// is printed.
#[derive(Debug, PartialEq, Eq)]
pub struct Outcome {
    pub save: Option<Registry>,
    pub out: String,
    pub err: String,
    pub code: i32,
}

/// The model of an [`Outcome`].
pub struct OutcomeView {
    pub save: Option<Map<Seq<char>, registry::EntryView>>,
    pub out: Seq<char>,
    pub err: Seq<char>,
    pub code: i32,
}

impl View for Outcome {
    type V = OutcomeView;

    open spec fn view(&self) -> OutcomeView {
        OutcomeView {
            save: pass::saved(self.save),
            out: self.out@,
            err: self.err@,
            code: self.code,
        }
    }
}

/// What to do next.
#[derive(Debug, PartialEq, Eq)]
pub enum Next {
    /// Read the registry.
    LoadRegistry,
    /// Find a place for an index file.
    CreateIndex,
    /// Run a command in the directory `repo`.
    Git { repo: String, command: GitCommand },
    /// Nothing: this is what the command comes to.
    Done(Result<Outcome, String>),
}

/// The model of [`Next`].
pub enum NextView {
    LoadRegistry,
    CreateIndex,
    Git { repo: Seq<char>, command: flow::Command },
    Done(Result<OutcomeView, Seq<char>>),
}

impl View for Next {
    type V = NextView;

    open spec fn view(&self) -> NextView {
        match self {
            Next::LoadRegistry => NextView::LoadRegistry,
            Next::CreateIndex => NextView::CreateIndex,
            Next::Git { repo, command } => NextView::Git { repo: repo@, command: command@ },
            Next::Done(Ok(outcome)) => NextView::Done(Ok(outcome@)),
            Next::Done(Err(why)) => NextView::Done(Err(why@)),
        }
    }
}

/// Where a command stands.
#[derive(Debug, PartialEq, Eq)]
pub struct CliStep {
    /// What is done to the disk before anything else; a failure ends the command.
    pub setup: Vec<FileAction>,
    /// What was logged so far, in order. The caller writes what is new in it before going on, and
    /// does not stop where that fails.
    pub log: Vec<FileAction>,
    pub next: Next,
}

/// The model of a [`CliStep`].
pub struct CliFlow {
    pub setup: Seq<FileOp>,
    pub log: Seq<FileOp>,
    pub next: NextView,
}

impl View for CliStep {
    type V = CliFlow;

    open spec fn view(&self) -> CliFlow {
        CliFlow { setup: state::ops(self.setup@), log: state::ops(self.log@), next: self.next@ }
    }
}

/// A command that prints `out`, saves nothing and ends with `code`.
pub open spec fn printed(out: Seq<char>, code: i32) -> NextView {
    NextView::Done(Ok(OutcomeView { save: None, out, err: Seq::empty(), code }))
}

/// A command that saves `known`, prints `out` and ends well.
pub open spec fn stored(known: Map<Seq<char>, registry::EntryView>, out: Seq<char>) -> NextView {
    NextView::Done(Ok(OutcomeView { save: Some(known), out, err: Seq::empty(), code: 0 }))
}

fn print(out: String, code: i32) -> (next: Next)
    ensures
        next@ == printed(out@, code),
{
    Next::Done(Ok(Outcome { save: None, out, err: String::new(), code }))
}

fn store(registry: Registry, out: String) -> (next: Next)
    ensures
        next@ == stored(registry@, out@),
{
    Next::Done(Ok(Outcome { save: Some(registry), out, err: String::new(), code: 0 }))
}

/// The path that was given on the command line, with the home directory in the place of a leading
/// `~`; a relative path is one below the current directory.
pub open spec fn path_of(inputs: Inputs, given: Seq<char>) -> Result<Seq<char>, Seq<char>> {
    match state::expanded(given, inputs.home.deep_view()) {
        None => Err("HOME not set"@),
        Some(path) => if state::absolute(path) {
            Ok(path)
        } else {
            match inputs.cwd {
                Ok(dir) => Ok(state::joined(dir@, path)),
                Err(why) => Err(why@),
            }
        },
    }
}

/// Goes on with the path that was given on the command line.
pub open spec fn at_path(
    inputs: Inputs,
    given: Seq<char>,
    go_on: spec_fn(Seq<char>) -> NextView,
) -> NextView {
    match path_of(inputs, given) {
        Ok(path) => go_on(path),
        Err(why) => NextView::Done(Err(why)),
    }
}

/// Goes on with the registry, once it was read.
pub open spec fn with_registry(
    inputs: Inputs,
    go_on: spec_fn(Registry) -> NextView,
) -> NextView {
    match inputs.registry {
        None => NextView::LoadRegistry,
        Some(Err(why)) => NextView::Done(Err(why@)),
        Some(Ok(registry)) => go_on(registry),
    }
}

/// Holds a conversation with git in the directory `repo`, and goes on with its result.
pub open spec fn in_repo<A>(
    repo: Seq<char>,
    part: Flow<A>,
    go_on: spec_fn(A, int) -> NextView,
) -> NextView {
    match part {
        Flow::Run(command) => NextView::Git { repo, command },
        Flow::Done(Ok(value), n) => go_on(value, n),
        Flow::Done(Err(why), _) => NextView::Done(Err(why)),
    }
}

/// Like [`in_repo`], but with `fallback` as the result of a conversation that ended in an error.
pub open spec fn in_repo_or<A>(
    repo: Seq<char>,
    part: Flow<A>,
    fallback: A,
    go_on: spec_fn(A, int) -> NextView,
) -> NextView {
    match part {
        Flow::Run(command) => NextView::Git { repo, command },
        Flow::Done(Ok(value), n) => go_on(value, n),
        Flow::Done(Err(_), n) => go_on(fallback, n),
    }
}

fn resolve(inputs: &Inputs, given: &str) -> (r: Result<String, Next>)
    ensures
        match r {
            Ok(path) => path_of(*inputs, given@) == Ok::<Seq<char>, Seq<char>>(path@),
            Err(next) => path_of(*inputs, given@) matches Err(why) && next@ == NextView::Done(
                Err(why),
            ),
        },
{
    let home = match &inputs.home {
        Some(dir) => Some(dir.as_str()),
        None => None,
    };
    let found = match &inputs.cwd {
        Ok(cwd) => resolve_repo_path(given, home, cwd),
        Err(unknown) => match expand_user(given, home) {
            Ok(path) => {
                if is_absolute(&path) {
                    Ok(path)
                } else {
                    Err(unknown.clone())
                }
            },
            Err(why) => Err(why),
        },
    };
    match found {
        Ok(path) => Ok(path),
        Err(why) => Err(Next::Done(Err(why))),
    }
}

/// The entry of a work tree that was registered.
pub open spec fn registered_entry(
    e: registry::EntryView,
    remote: Option<Seq<char>>,
    primary: Seq<char>,
    dirty: usize,
) -> registry::EntryView {
    registry::EntryView {
        remote_url: match remote {
            Some(url) => if url.len() == 0 {
                None
            } else {
                Some(url)
            },
            None => None,
        },
        primary_branch: Some(primary),
        last_dirty_count: Some(dirty as u64),
        ..e
    }
}

/// Registers a work tree, with what git knows of it. A directory that is not in a work tree is
/// left alone.
pub open spec fn register_flow(inputs: Inputs, given: Seq<char>) -> NextView {
    at_path(
        inputs,
        given,
        |path: Seq<char>|
            in_repo(
                path,
                git_ops::is_inside_work_tree_flow(inputs.replies@, 0),
                |inside: bool, n1: int|
                    if !inside {
                        printed("[SKIP] "@ + path + " is not inside a git work tree.\n"@, 1)
                    } else {
                        with_registry(
                            inputs,
                            |registry: Registry|
                                register_known_flow(
                                    inputs.replies@,
                                    registry@,
                                    path,
                                    n1,
                                ),
                        )
                    },
            ),
    )
}

/// Registers the work tree at `path` in a registry that holds `known`.
pub open spec fn register_known_flow(
    replies: Seq<GitReply>,
    known: Map<Seq<char>, registry::EntryView>,
    path: Seq<char>,
    i: int,
) -> NextView {
    in_repo_or(
        path,
        git_ops::get_remote_url_flow(replies, i),
        None,
        |remote: Option<Seq<char>>, n1: int|
            in_repo_or(
                path,
                git_ops::primary_branch_flow(replies, n1),
                "main"@,
                |primary: Seq<char>, n2: int|
                    in_repo_or(
                        path,
                        git_ops::dirty_count_flow(replies, n2),
                        0usize,
                        |dirty: usize, n3: int|
                            stored(
                                known.insert(
                                    path,
                                    registered_entry(
                                        registry::touched(known, path, replies[n2 - 1].at.iso@),
                                        remote,
                                        primary,
                                        dirty,
                                    ),
                                ),
                                "[OK] Registered "@ + path + "\n"@,
                            ),
                    ),
            ),
    )
}

fn note_registered(
    registry: &mut Registry,
    path: &str,
    remote: Option<String>,
    primary: String,
    dirty: usize,
    now: &str,
)
    ensures
        final(registry)@ == old(registry)@.insert(
            path@,
            registered_entry(
                registry::touched(old(registry)@, path@, now@),
                remote.deep_view(),
                primary@,
                dirty,
            ),
        ),
{
    let url = match remote {
        Some(url) => if url.as_str().is_empty() {
            None
        } else {
            Some(url)
        },
        None => None,
    };
    let change = |e: RepoEntry| -> (r: RepoEntry)
        ensures
            r@ == registered_entry(e@, url.deep_view(), primary@, dirty),
    {
        let mut r = e;
        r.remote_url = url;
        r.primary_branch = Some(primary);
        r.last_dirty_count = Some(dirty as u64);
        r
    };
    upsert_entry_at(registry, path, now, change);
}

fn register_known(
    replies: &[GitReply],
    registry: &Registry,
    path: &str,
    from: usize,
) -> (next: Next)
    ensures
        next@ == register_known_flow(replies@, registry@, path@, from as int),
{
    let (remote, n1) = match get_remote_url(replies, from) {
        Step::Run(command) => {
            return Next::Git { repo: path.to_owned(), command };
        },
        Step::Done(Ok(remote), n) => (remote, n),
        Step::Done(Err(_), n) => (None, n),
    };
    let (primary, n2) = match primary_branch(replies, n1) {
        Step::Run(command) => {
            return Next::Git { repo: path.to_owned(), command };
        },
        Step::Done(Ok(primary), n) => (primary, n),
        Step::Done(Err(_), n) => ("main".to_owned(), n),
    };
    let dirty: usize = match dirty_count(replies, n2) {
        Step::Run(command) => {
            return Next::Git { repo: path.to_owned(), command };
        },
        Step::Done(Ok(dirty), _) => dirty,
        Step::Done(Err(_), _) => 0,
    };
    let mut known = registry.clone();
    note_registered(&mut known, path, remote, primary, dirty, &replies[n2 - 1].at.iso);
    store(known, "[OK] Registered ".to_owned().concat(path).concat("\n"))
}

fn cmd_register(inputs: &Inputs, repo_path: &str) -> (next: Next)
    ensures
        next@ == register_flow(*inputs, repo_path@),
{
    let path = match resolve(inputs, repo_path) {
        Ok(path) => path,
        Err(next) => {
            return next;
        },
    };
    match is_inside_work_tree(&inputs.replies, 0) {
        Step::Run(command) => Next::Git { repo: path, command },
        Step::Done(Err(why), _) => Next::Done(Err(why)),
        Step::Done(Ok(inside), n) => {
            if !inside {
                let out = "[SKIP] ".to_owned().concat(&path).concat(
                    " is not inside a git work tree.\n",
                );
                return print(out, 1);
            }
            match &inputs.registry {
                None => Next::LoadRegistry,
                Some(Err(why)) => Next::Done(Err(why.clone())),
                Some(Ok(registry)) => register_known(&inputs.replies, registry, &path, n),
            }
        },
    }
}

/// Removes a work tree from the registry. One that is not in it is left alone.
pub open spec fn unregister_flow(inputs: Inputs, given: Seq<char>) -> NextView {
    at_path(
        inputs,
        given,
        |path: Seq<char>|
            with_registry(
                inputs,
                |registry: Registry|
                    if !registry@.contains_key(path) {
                        printed("[INFO] "@ + path + " not in registry; nothing to do.\n"@, 0)
                    } else {
                        stored(registry@.remove(path), "[OK] Unregistered "@ + path + "\n"@)
                    },
            ),
    )
}

fn cmd_unregister(inputs: &Inputs, repo_path: &str) -> (next: Next)
    ensures
        next@ == unregister_flow(*inputs, repo_path@),
{
    let path = match resolve(inputs, repo_path) {
        Ok(path) => path,
        Err(next) => {
            return next;
        },
    };
    match &inputs.registry {
        None => Next::LoadRegistry,
        Some(Err(why)) => Next::Done(Err(why.clone())),
        Some(Ok(registry)) => {
            let mut known = registry.clone();
            if known.remove(&path).is_none() {
                let out = "[INFO] ".to_owned().concat(&path).concat(
                    " not in registry; nothing to do.\n",
                );
                return print(out, 0);
            }
            store(known, "[OK] Unregistered ".to_owned().concat(&path).concat("\n"))
        },
    }
}

/// How many changed files an entry tells of.
pub open spec fn dirty_known(e: registry::EntryView) -> u64 {
    match e.last_dirty_count {
        Some(n) => n,
        None => 0,
    }
}

fn known_dirty(e: &RepoEntry) -> (n: u64)
    ensures
        n == dirty_known(e@),
{
    match e.last_dirty_count {
        Some(n) => n,
        None => 0,
    }
}

/// One work tree in a list.
pub open spec fn listed(path: Seq<char>, e: registry::EntryView) -> Seq<char> {
    "  - "@ + path + "\n      dirty="@ + text::decimal(dirty_known(e) as int) + "  remote="@
        + text::filled_or(e.remote_url, "(no remote)"@) + "\n"@
}

/// One work tree in a list that tells all.
pub open spec fn audited(path: Seq<char>, e: registry::EntryView) -> Seq<char> {
    "  - "@ + path + "\n      dirty="@ + text::decimal(dirty_known(e) as int) + "  remote="@
        + text::filled_or(e.remote_url, "(no remote)"@) + "  registered_at="@ + text::text_or(
        e.registered_at,
        "?"@,
    ) + "\n      primary_branch="@ + text::text_or(e.primary_branch, "?"@)
        + "  last_auto_commit="@ + text::text_or(e.last_auto_commit, "never"@)
        + "  last_push_time="@ + text::text_or(e.last_push_time, "never"@) + "\n"@
}

/// The work trees of a list, one after the other; with all that is known of them, if `verbose`.
pub open spec fn listing_text(
    list: Seq<(Seq<char>, registry::EntryView)>,
    verbose: bool,
) -> Seq<char>
    decreases list.len(),
{
    if list.len() == 0 {
        Seq::empty()
    } else {
        listing_text(list.drop_last(), verbose) + if verbose {
            audited(list.last().0, list.last().1)
        } else {
            listed(list.last().0, list.last().1)
        }
    }
}

/// A list of the registered work trees, with all that is known of them, if `verbose`.
pub open spec fn registry_text(
    list: Seq<(Seq<char>, registry::EntryView)>,
    verbose: bool,
) -> Seq<char> {
    if list.len() == 0 {
        "[INFO] No repos registered.\n"@
    } else {
        let mark = if verbose {
            "[AUDIT] "@
        } else {
            "[OK] "@
        };
        mark + text::decimal(list.len() as int) + " registered repo(s):\n"@ + listing_text(
            list,
            verbose,
        )
    }
}

fn list_one(path: &str, e: &RepoEntry) -> (out: String)
    ensures
        out@ == listed(path@, e@),
{
    let mut out = "  - ".to_owned();
    out.append(path);
    out.append("\n      dirty=");
    out.append(&show(known_dirty(e)));
    out.append("  remote=");
    out.append(or_if_empty(&e.remote_url, "(no remote)"));
    out.append("\n");
    out
}

fn audit_one(path: &str, e: &RepoEntry) -> (out: String)
    ensures
        out@ == audited(path@, e@),
{
    let mut out = "  - ".to_owned();
    out.append(path);
    out.append("\n      dirty=");
    out.append(&show(known_dirty(e)));
    out.append("  remote=");
    out.append(or_if_empty(&e.remote_url, "(no remote)"));
    out.append("  registered_at=");
    out.append(or_text(&e.registered_at, "?"));
    out.append("\n      primary_branch=");
    out.append(or_text(&e.primary_branch, "?"));
    out.append("  last_auto_commit=");
    out.append(or_text(&e.last_auto_commit, "never"));
    out.append("  last_push_time=");
    out.append(or_text(&e.last_push_time, "never"));
    out.append("\n");
    out
}

/// A list of the registered work trees, with all that is known of them, if `verbose`.
pub fn print_registry(registry: &Registry, verbose: bool) -> (out: String)
    ensures
        out@ == registry_text(registry.listing(), verbose),
{
    let list = registry.entries();
    let ghost views = registry.listing();
    if list.len() == 0 {
        return "[INFO] No repos registered.\n".to_owned();
    }
    let mut out = if verbose {
        "[AUDIT] ".to_owned()
    } else {
        "[OK] ".to_owned()
    };
    out.append(&show(list.len() as u64));
    out.append(" registered repo(s):\n");
    let ghost head = out@;
    let mut k: usize = 0;
    proof {
        assert(out@ =~= head + listing_text(views.take(0), verbose));
    }
    while k < list.len()
        invariant
            k <= list.len(),
            registry::pairs(list@) == views,
            out@ == head + listing_text(views.take(k as int), verbose),
        decreases list.len() - k,
    {
        let ghost before = listing_text(views.take(k as int), verbose);
        let more = if verbose {
            audit_one(&list[k].0, &list[k].1)
        } else {
            list_one(&list[k].0, &list[k].1)
        };
        out.append(&more);
        proof {
            let now = views.take(k + 1);
            assert(now.drop_last() =~= views.take(k as int));
            assert(now.last() == (list@[k as int].0@, list@[k as int].1@));
            assert(head + before + more@ =~= head + (before + more@));
        }
        k = k + 1;
    }
    proof {
        assert(views.take(k as int) =~= views);
    }
    out
}

/// Lists the registered work trees, with all that is known of them, if `verbose`.
pub open spec fn list_flow(inputs: Inputs, verbose: bool) -> NextView {
    with_registry(
        inputs,
        |registry: Registry| printed(registry_text(registry.listing(), verbose), 0),
    )
}

fn cmd_list(inputs: &Inputs) -> (next: Next)
    ensures
        next@ == list_flow(*inputs, false),
{
    match &inputs.registry {
        None => Next::LoadRegistry,
        Some(Err(why)) => Next::Done(Err(why.clone())),
        Some(Ok(registry)) => print(print_registry(registry, false), 0),
    }
}

fn cmd_audit(inputs: &Inputs) -> (next: Next)
    ensures
        next@ == list_flow(*inputs, true),
{
    match &inputs.registry {
        None => Next::LoadRegistry,
        Some(Err(why)) => Next::Done(Err(why.clone())),
        Some(Ok(registry)) => print(print_registry(registry, true), 0),
    }
}

/// What a registry knows of a work tree.
pub open spec fn known_of(
    known: Map<Seq<char>, registry::EntryView>,
    path: Seq<char>,
) -> registry::EntryView {
    if known.contains_key(path) {
        known[path]
    } else {
        registry::blank_entry()
    }
}

/// Shows the status of one work tree, registered or not.
pub open spec fn status_flow(inputs: Inputs, given: Seq<char>) -> NextView {
    at_path(
        inputs,
        given,
        |path: Seq<char>|
            with_registry(
                inputs,
                |registry: Registry|
                    in_repo(
                        path,
                        status::snapshot_repo_flow(
                            path,
                            known_of(registry@, path),
                            inputs.replies@,
                            0,
                        ),
                        |snapshot: status::SnapshotView, n: int| printed(snapshot.rendered(), 0),
                    ),
            ),
    )
}

fn cmd_status(inputs: &Inputs, repo_path: &str) -> (next: Next)
    ensures
        next@ == status_flow(*inputs, repo_path@),
{
    let path = match resolve(inputs, repo_path) {
        Ok(path) => path,
        Err(next) => {
            return next;
        },
    };
    match &inputs.registry {
        None => Next::LoadRegistry,
        Some(Err(why)) => Next::Done(Err(why.clone())),
        Some(Ok(registry)) => {
            let meta = match registry.get(&path) {
                Some(entry) => entry.clone(),
                None => RepoEntry::default(),
            };
            match snapshot_repo(&path, &meta, &inputs.replies, 0) {
                Step::Run(command) => Next::Git { repo: path, command },
                Step::Done(Err(why), _) => Next::Done(Err(why)),
                Step::Done(Ok(snapshot), _) => print(snapshot.render(), 0),
            }
        },
    }
}

/// Makes a snapshot of a work tree on a new branch, pushes it and checks that the remote has it.
/// The index file is asked for once the head is known.
pub open spec fn snapshot_flow(
    inputs: Inputs,
    given: Seq<char>,
    message: Option<Seq<char>>,
) -> NextView {
    at_path(
        inputs,
        given,
        |path: Seq<char>|
            in_repo(
                path,
                git_ops::is_inside_work_tree_flow(inputs.replies@, 0),
                |inside: bool, n1: int|
                    if !inside {
                        printed("[FAIL] "@ + path + " is not a git repo.\n"@, 1)
                    } else {
                        match inputs.index {
                            None => in_repo(
                                path,
                                snapshot::git_value_flow(
                                    seq!["rev-parse"@, "--verify"@, "HEAD"@],
                                    inputs.replies@,
                                    n1,
                                ),
                                |head: Seq<char>, n2: int| NextView::CreateIndex,
                            ),
                            Some(Err(why)) => NextView::Done(Err(why@)),
                            Some(Ok(index)) => take_snapshot_flow(
                                path,
                                push::backup_name(
                                    inputs.replies@[n1 - 1].at.tag@,
                                    inputs.replies@[n1 - 1].at.id@,
                                ),
                                message,
                                index@,
                                commit::author_env(inputs.author),
                                inputs.replies@,
                                n1,
                            ),
                        }
                    },
            ),
    )
}

/// Makes a snapshot on the new branch `branch`, pushes it and checks that the remote has it.
pub open spec fn take_snapshot_flow(
    path: Seq<char>,
    branch: Seq<char>,
    message: Option<Seq<char>>,
    index: Seq<char>,
    env: Seq<(Seq<char>, Seq<char>)>,
    replies: Seq<GitReply>,
    i: int,
) -> NextView {
    in_repo(
        path,
        snapshot::create_snapshot_commit_flow(branch, message, index, env, replies, i),
        |made: Option<SnapshotCommitView>, n1: int|
            match made {
                None => printed(
                    "[INFO] No non-ignored working-tree changes; no snapshot created.\n"@,
                    0,
                ),
                Some(made) => in_repo(
                    path,
                    push::push_branch_with_upstream_flow(branch, replies, n1),
                    |pushed: (bool, Seq<char>), n2: int|
                        if !pushed.0 {
                            printed(unpushed_text(branch, pushed.1, made.commit), 2)
                        } else {
                            in_repo(
                                path,
                                snapshot::verify_pushed_snapshot_flow(made, replies, n2),
                                |done: (), n3: int|
                                    printed(
                                        snapshot_text(branch, pushed.1, made, message),
                                        0,
                                    ),
                            )
                        },
                ),
            },
    )
}

/// What is printed of a snapshot that could not be pushed.
pub open spec fn unpushed_text(
    branch: Seq<char>,
    output: Seq<char>,
    commit: Seq<char>,
) -> Seq<char> {
    "[WARN] Push failed for "@ + branch + ": "@ + output + "\n       Local branch "@ + branch
        + " at "@ + commit + " is preserved.\n"@
}

/// What is printed of a snapshot that the remote has.
pub open spec fn snapshot_text(
    branch: Seq<char>,
    output: Seq<char>,
    made: SnapshotCommitView,
    message: Option<Seq<char>>,
) -> Seq<char> {
    let text = "[OK] Snapshot created and pushed: "@ + branch + "\n     "@ + text::trimmed(output)
        + "\n     commit: "@ + made.commit + " (parent "@ + made.head + ")\n"@;
    match message {
        Some(note) => text + "     note: "@ + note + "\n"@,
        None => text,
    }
}

fn snapshot_report(
    branch: &str,
    output: &str,
    made: &SnapshotCommit,
    message: Option<&str>,
) -> (out: String)
    ensures
        out@ == snapshot_text(
            branch@,
            output@,
            made@,
            match message {
                Some(note) => Some(note@),
                None => None,
            },
        ),
{
    let mut out = "[OK] Snapshot created and pushed: ".to_owned();
    out.append(branch);
    out.append("\n     ");
    out.append(trim(output));
    out.append("\n     commit: ");
    out.append(&made.commit);
    out.append(" (parent ");
    out.append(&made.head);
    out.append(")\n");
    if let Some(note) = message {
        out.append("     note: ");
        out.append(note);
        out.append("\n");
    }
    out
}

fn take_snapshot(
    path: &str,
    branch: &str,
    message: Option<&str>,
    index: &str,
    env: &Vec<(String, String)>,
    replies: &[GitReply],
    from: usize,
) -> (next: Next)
    ensures
        next@ == take_snapshot_flow(
            path@,
            branch@,
            match message {
                Some(note) => Some(note@),
                None => None,
            },
            index@,
            flow::env_views(env@),
            replies@,
            from as int,
        ),
{
    let (made, n1) = match create_snapshot_commit(branch, message, index, env, replies, from) {
        Step::Run(command) => {
            return Next::Git { repo: path.to_owned(), command };
        },
        Step::Done(Err(why), _) => {
            return Next::Done(Err(why));
        },
        Step::Done(Ok(None), _) => {
            return print(
                "[INFO] No non-ignored working-tree changes; no snapshot created.\n".to_owned(),
                0,
            );
        },
        Step::Done(Ok(Some(made)), n) => (made, n),
    };
    let (output, n2) = match push_branch_with_upstream(branch, replies, n1) {
        Step::Run(command) => {
            return Next::Git { repo: path.to_owned(), command };
        },
        Step::Done(Err(why), _) => {
            return Next::Done(Err(why));
        },
        Step::Done(Ok((ok, output)), n) => {
            if !ok {
                let out = "[WARN] Push failed for ".to_owned().concat(branch).concat(": ").concat(
                    &output,
                ).concat("\n       Local branch ").concat(branch).concat(" at ").concat(
                    &made.commit,
                ).concat(" is preserved.\n");
                return print(out, 2);
            }
            (output, n)
        },
    };
    match verify_pushed_snapshot(&made, replies, n2) {
        Step::Run(command) => Next::Git { repo: path.to_owned(), command },
        Step::Done(Err(why), _) => Next::Done(Err(why)),
        Step::Done(Ok(_), _) => print(snapshot_report(branch, &output, &made, message), 0),
    }
}

fn cmd_snapshot(inputs: &Inputs, repo_path: &str, message: Option<&str>) -> (next: Next)
    ensures
        next@ == snapshot_flow(
            *inputs,
            repo_path@,
            match message {
                Some(note) => Some(note@),
                None => None,
            },
        ),
{
    let path = match resolve(inputs, repo_path) {
        Ok(path) => path,
        Err(next) => {
            return next;
        },
    };
    let n1: usize = match is_inside_work_tree(&inputs.replies, 0) {
        Step::Run(command) => {
            return Next::Git { repo: path, command };
        },
        Step::Done(Err(why), _) => {
            return Next::Done(Err(why));
        },
        Step::Done(Ok(inside), n) => {
            if !inside {
                return print(
                    "[FAIL] ".to_owned().concat(&path).concat(" is not a git repo.\n"),
                    1,
                );
            }
            n
        },
    };
    match &inputs.index {
        None => match git_value(args3("rev-parse", "--verify", "HEAD"), &inputs.replies, n1) {
            Step::Run(command) => Next::Git { repo: path, command },
            Step::Done(Err(why), _) => Next::Done(Err(why)),
            Step::Done(Ok(_), _) => Next::CreateIndex,
        },
        Some(Err(why)) => Next::Done(Err(why.clone())),
        Some(Ok(index)) => {
            let at = &inputs.replies[n1 - 1].at;
            let branch = "wip/".to_owned().concat(&at.tag).concat("-").concat(&at.id);
            let env = ensure_clean_author_env(&inputs.author);
            take_snapshot(&path, &branch, message, index, &env, &inputs.replies, n1)
        },
    }
}

/// The exit code of a pass: well, if nothing went wrong.
pub open spec fn pass_code(errors: nat) -> i32 {
    if errors == 0 {
        0
    } else {
        1
    }
}

/// One autocommit pass, which ends with its report.
pub open spec fn autocommit_flow(root: Seq<char>, inputs: Inputs, dry_run: bool) -> (
    Seq<FileOp>,
    NextView,
) {
    match inputs.registry {
        None => (Seq::empty(), NextView::LoadRegistry),
        Some(Err(why)) => (Seq::empty(), NextView::Done(Err(why@))),
        Some(Ok(registry)) => match autocommit::run_flow(
            root,
            registry.listing(),
            registry@,
            dry_run,
            commit::author_env(inputs.author),
            inputs.replies@,
        ) {
            PassFlow::Git { log, repo, command } => (log, NextView::Git { repo, command }),
            PassFlow::Done { log, summary, save } => (
                log,
                NextView::Done(
                    Ok(
                        OutcomeView {
                            save,
                            out: summary.rendered(),
                            err: Seq::empty(),
                            code: pass_code(summary.errors),
                        },
                    ),
                ),
            ),
        },
    }
}

/// One cleanup pass, which ends with its report.
pub open spec fn cleanup_flow(root: Seq<char>, inputs: Inputs, dry_run: bool) -> (
    Seq<FileOp>,
    NextView,
) {
    match inputs.registry {
        None => (Seq::empty(), NextView::LoadRegistry),
        Some(Err(why)) => (Seq::empty(), NextView::Done(Err(why@))),
        Some(Ok(registry)) => match cleanup::run_flow(
            root,
            registry.listing(),
            registry@,
            dry_run,
            commit::author_env(inputs.author),
            inputs.replies@,
        ) {
            PassFlow::Git { log, repo, command } => (log, NextView::Git { repo, command }),
            PassFlow::Done { log, summary, save } => (
                log,
                NextView::Done(
                    Ok(
                        OutcomeView {
                            save,
                            out: summary.rendered(),
                            err: Seq::empty(),
                            code: pass_code(summary.errors),
                        },
                    ),
                ),
            ),
        },
    }
}

fn nothing_logged(next: Next) -> (r: (Vec<FileAction>, Next))
    ensures
        state::ops(r.0@) == Seq::<FileOp>::empty(),
        r.1@ == next@,
{
    let log: Vec<FileAction> = Vec::new();
    proof {
        assert(state::ops(log@) =~= Seq::empty());
    }
    (log, next)
}

fn cmd_autocommit(state_root: &StateRoot, inputs: &Inputs, dry_run: bool) -> (r: (
    Vec<FileAction>,
    Next,
))
    ensures
        (state::ops(r.0@), r.1@) == autocommit_flow(state_root@, *inputs, dry_run),
{
    let registry = match &inputs.registry {
        None => {
            return nothing_logged(Next::LoadRegistry);
        },
        Some(Err(why)) => {
            return nothing_logged(Next::Done(Err(why.clone())));
        },
        Some(Ok(registry)) => registry,
    };
    let env = ensure_clean_author_env(&inputs.author);
    match autocommit::run(state_root, registry, dry_run, &env, &inputs.replies) {
        PassStep::Git { log, repo, command } => (log, Next::Git { repo, command }),
        PassStep::Done { log, summary, save } => {
            let code: i32 = if summary.errors == 0 {
                0
            } else {
                1
            };
            let outcome = Outcome { save, out: summary.render(), err: String::new(), code };
            (log, Next::Done(Ok(outcome)))
        },
    }
}

fn cmd_cleanup(state_root: &StateRoot, inputs: &Inputs, dry_run: bool) -> (r: (
    Vec<FileAction>,
    Next,
))
    ensures
        (state::ops(r.0@), r.1@) == cleanup_flow(state_root@, *inputs, dry_run),
{
    let registry = match &inputs.registry {
        None => {
            return nothing_logged(Next::LoadRegistry);
        },
        Some(Err(why)) => {
            return nothing_logged(Next::Done(Err(why.clone())));
        },
        Some(Ok(registry)) => registry,
    };
    let env = ensure_clean_author_env(&inputs.author);
    match cleanup::run(state_root, registry, dry_run, &env, &inputs.replies) {
        PassStep::Git { log, repo, command } => (log, Next::Git { repo, command }),
        PassStep::Done { log, summary, save } => {
            let code: i32 = if summary.errors == 0 {
                0
            } else {
                1
            };
            let outcome = Outcome { save, out: summary.render(), err: String::new(), code };
            (log, Next::Done(Ok(outcome)))
        },
    }
}

/// Tells how to run passes of one kind for ever; an unknown kind is refused.
pub open spec fn daemon_flow(mode: Seq<char>) -> NextView {
    if mode == "autocommit"@ || mode == "cleanup"@ {
        printed(
            "[daemon] mode="@ + mode + ": invoke `cargo run --example daemon -- "@ + mode
                + "` to run as a long-lived scheduler.\n"@,
            0,
        )
    } else {
        NextView::Done(
            Ok(
                OutcomeView {
                    save: None,
                    out: Seq::empty(),
                    err: "[FAIL] unknown daemon mode: "@ + mode
                        + " (use 'autocommit' or 'cleanup')\n"@,
                    code: 2,
                },
            ),
        )
    }
}

fn cmd_daemon(mode: &str) -> (next: Next)
    ensures
        next@ == daemon_flow(mode@),
{
    if same(mode, "autocommit") || same(mode, "cleanup") {
        let out = "[daemon] mode=".to_owned().concat(mode).concat(
            ": invoke `cargo run --example daemon -- ",
        ).concat(mode).concat("` to run as a long-lived scheduler.\n");
        print(out, 0)
    } else {
        let err = "[FAIL] unknown daemon mode: ".to_owned().concat(mode).concat(
            " (use 'autocommit' or 'cleanup')\n",
        );
        Next::Done(Ok(Outcome { save: None, out: String::new(), err, code: 2 }))
    }
}

/// Pushes a branch, or keeps the head as a new branch and pushes that.
pub open spec fn restore_flow(inputs: Inputs, given: Seq<char>, branch: Seq<char>) -> NextView {
    at_path(
        inputs,
        given,
        |path: Seq<char>|
            in_repo(
                path,
                push::try_push_or_snapshot_flow(
                    branch,
                    inputs.started.tag@,
                    inputs.replies@,
                    0,
                ),
                |pushed: (bool, Seq<char>), n: int|
                    printed(
                        "[restore] "@ + branch + ": "@ + pushed.1 + "\n"@,
                        if pushed.0 {
                            0
                        } else {
                            2
                        },
                    ),
            ),
    )
}

fn cmd_restore(inputs: &Inputs, repo_path: &str, branch: &str) -> (next: Next)
    ensures
        next@ == restore_flow(*inputs, repo_path@, branch@),
{
    let path = match resolve(inputs, repo_path) {
        Ok(path) => path,
        Err(next) => {
            return next;
        },
    };
    match try_push_or_snapshot(branch, &inputs.started.tag, &inputs.replies, 0) {
        Step::Run(command) => Next::Git { repo: path, command },
        Step::Done(Err(why), _) => Next::Done(Err(why)),
        Step::Done(Ok((ok, msg)), _) => {
            let out = "[restore] ".to_owned().concat(branch).concat(": ").concat(&msg).concat("\n");
            print(
                out,
                if ok {
                    0
                } else {
                    2
                },
            )
        },
    }
}

/// Counts the work trees with changes and those with unpushed commits, beginning at number `k` of
/// a list.
pub open spec fn quickstatus_from_flow(
    list: Seq<(Seq<char>, registry::EntryView)>,
    k: int,
    dirty: nat,
    unpushed: nat,
    replies: Seq<GitReply>,
    i: int,
) -> NextView
    decreases list.len() - k,
{
    if k >= list.len() {
        printed(
            "[quickstatus] repos="@ + text::decimal(list.len() as int) + " dirty="@
                + text::decimal(dirty as int) + " unpushed="@ + text::decimal(unpushed as int)
                + "\n"@,
            0,
        )
    } else {
        match status::snapshot_repo_flow(list[k].0, list[k].1, replies, i) {
            Flow::Run(command) => NextView::Git { repo: list[k].0, command },
            Flow::Done(Err(why), _) => NextView::Done(Err(why)),
            Flow::Done(Ok(s), n) => quickstatus_from_flow(
                list,
                k + 1,
                if s.dirty > 0 {
                    dirty + 1
                } else {
                    dirty
                },
                if s.ahead > 0 {
                    unpushed + 1
                } else {
                    unpushed
                },
                replies,
                n,
            ),
        }
    }
}

/// Counts the registered work trees, those with changes and those with unpushed commits.
pub open spec fn quickstatus_flow(inputs: Inputs) -> NextView {
    with_registry(
        inputs,
        |registry: Registry|
            quickstatus_from_flow(registry.listing(), 0, 0, 0, inputs.replies@, 0),
    )
}

fn count_all(registry: &Registry, replies: &[GitReply]) -> (next: Next)
    ensures
        next@ == quickstatus_from_flow(registry.listing(), 0, 0, 0, replies@, 0),
{
    let list = registry.entries();
    let ghost views = registry.listing();
    let mut dirty: usize = 0;
    let mut unpushed: usize = 0;
    let mut at: usize = 0;
    let mut k: usize = 0;
    while k < list.len()
        invariant
            k <= list.len(),
            registry::pairs(list@) == views,
            dirty <= k,
            unpushed <= k,
            quickstatus_from_flow(views, 0, 0, 0, replies@, 0) == quickstatus_from_flow(
                views,
                k as int,
                dirty as nat,
                unpushed as nat,
                replies@,
                at as int,
            ),
            views == registry.listing(),
        decreases list.len() - k,
    {
        proof {
            assert(views[k as int] == (list@[k as int].0@, list@[k as int].1@));
        }
        match snapshot_repo(&list[k].0, &list[k].1, replies, at) {
            Step::Run(command) => {
                return Next::Git { repo: list[k].0.clone(), command };
            },
            Step::Done(Err(why), _) => {
                return Next::Done(Err(why));
            },
            Step::Done(Ok(snapshot), n) => {
                if snapshot.dirty > 0 {
                    dirty = dirty + 1;
                }
                if snapshot.ahead > 0 {
                    unpushed = unpushed + 1;
                }
                at = n;
            },
        }
        k = k + 1;
    }
    let mut out = "[quickstatus] repos=".to_owned();
    out.append(&show(list.len() as u64));
    out.append(" dirty=");
    out.append(&show(dirty as u64));
    out.append(" unpushed=");
    out.append(&show(unpushed as u64));
    out.append("\n");
    print(out, 0)
}

fn cmd_quickstatus(inputs: &Inputs) -> (next: Next)
    ensures
        next@ == quickstatus_flow(*inputs),
{
    match &inputs.registry {
        None => Next::LoadRegistry,
        Some(Err(why)) => Next::Done(Err(why.clone())),
        Some(Ok(registry)) => count_all(registry, &inputs.replies),
    }
}

/// What a command logs, and what it does next.
pub open spec fn command_flow(root: Seq<char>, command: Commands, inputs: Inputs) -> (
    Seq<FileOp>,
    NextView,
) {
    match command {
        Commands::Register { repo_path } => (Seq::empty(), register_flow(inputs, repo_path@)),
        Commands::Unregister { repo_path } => (Seq::empty(), unregister_flow(inputs, repo_path@)),
        Commands::List => (Seq::empty(), list_flow(inputs, false)),
        Commands::Status { repo_path } => (Seq::empty(), status_flow(inputs, repo_path@)),
        Commands::Snapshot { repo_path, message } => (
            Seq::empty(),
            snapshot_flow(inputs, repo_path@, message.deep_view()),
        ),
        Commands::Autocommit { dry_run } => autocommit_flow(root, inputs, dry_run),
        Commands::Cleanup { dry_run } => cleanup_flow(root, inputs, dry_run),
        Commands::Daemon { mode } => (Seq::empty(), daemon_flow(mode@)),
        Commands::Audit => (Seq::empty(), list_flow(inputs, true)),
        Commands::Restore { repo_path, branch } => (
            Seq::empty(),
            restore_flow(inputs, repo_path@, branch@),
        ),
        Commands::Quickstatus => (Seq::empty(), quickstatus_flow(inputs)),
    }
}

/// Runs a command, as far as the inputs go.
pub fn run(cli: &Cli, state_root: &StateRoot, inputs: &Inputs) -> (step: CliStep)
    ensures
        step@.setup == state::needed_dirs(state_root@),
        (step@.log, step@.next) == command_flow(state_root@, cli.command, *inputs),
{
    let setup = state_root.ensure_dirs();
    let (log, next) = match &cli.command {
        Commands::Register { repo_path } => nothing_logged(cmd_register(inputs, repo_path)),
        Commands::Unregister { repo_path } => nothing_logged(cmd_unregister(inputs, repo_path)),
        Commands::List => nothing_logged(cmd_list(inputs)),
        Commands::Status { repo_path } => nothing_logged(cmd_status(inputs, repo_path)),
        Commands::Snapshot { repo_path, message } => {
            let note = match message {
                Some(note) => Some(note.as_str()),
                None => None,
            };
            nothing_logged(cmd_snapshot(inputs, repo_path, note))
        },
        Commands::Autocommit { dry_run } => cmd_autocommit(state_root, inputs, *dry_run),
        Commands::Cleanup { dry_run } => cmd_cleanup(state_root, inputs, *dry_run),
        Commands::Daemon { mode } => nothing_logged(cmd_daemon(mode)),
        Commands::Audit => nothing_logged(cmd_audit(inputs)),
        Commands::Restore { repo_path, branch } => nothing_logged(
            cmd_restore(inputs, repo_path, branch),
        ),
        Commands::Quickstatus => nothing_logged(cmd_quickstatus(inputs)),
    };
    CliStep { setup, log, next }
}

/// Unregistering a work tree undoes its registration: what a registration has saved is, after the
/// same work tree was unregistered, what was known before of the others. `given` is how its path
/// `path` is given to the later command.
pub proof fn law_unregister_undoes_register(
    replies: Seq<GitReply>,
    known: Map<Seq<char>, registry::EntryView>,
    path: Seq<char>,
    i: int,
    later: Inputs,
    given: Seq<char>,
)
    requires
        path_of(later, given) == Ok::<Seq<char>, Seq<char>>(path),
        register_known_flow(replies, known, path, i) matches NextView::Done(Ok(first))
            && first.save matches Some(saved) && later.registry matches Some(Ok(registry))
            && registry@ == saved,
    ensures
        unregister_flow(later, given) == stored(
            known.remove(path),
            "[OK] Unregistered "@ + path + "\n"@,
        ),
{
    if let NextView::Done(Ok(first)) = register_known_flow(replies, known, path, i) {
        assert(first.save->0.remove(path) =~= known.remove(path));
    }
}

/// A registration keeps everything that is known of other work trees, and the time of an earlier
/// registration.
pub proof fn law_register_keeps_the_rest(
    replies: Seq<GitReply>,
    known: Map<Seq<char>, registry::EntryView>,
    path: Seq<char>,
    i: int,
)
    ensures
        register_known_flow(replies, known, path, i) matches NextView::Done(Ok(outcome))
            ==> outcome.save matches Some(saved) && registry::keeps(known, saved, path)
            && saved.contains_key(path) && saved[path].registered_at is Some,
{
}

} // verus!
