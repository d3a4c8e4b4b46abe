use airlock_v2::autocommit;
use airlock_v2::autocommit::{AutocommitRecord, AutocommitSummary};
use airlock_v2::cleanup;
use airlock_v2::cleanup::{CleanupRecord, CleanupSummary};
use airlock_v2::clock::Stamp;
use airlock_v2::flow::{GitCommand, GitReply, GitResult};
use airlock_v2::pass::PassStep;
use airlock_v2::registry::{Registry, RepoEntry};
use airlock_v2::state::FileAction;
use airlock_v2::StateRoot;
use std::cell::RefCell;

const NOW: i64 = 1_784_250_000;

fn root() -> StateRoot {
    StateRoot::from_path("/state".to_string())
}

fn registry(paths: &[&str]) -> Registry {
    let mut r = Registry::new();
    for path in paths {
        let entry =
            RepoEntry { registered_at: Some("2026-01-01T00:00:00Z".to_string()), ..RepoEntry::default() };
        r.insert(path.to_string(), entry);
    }
    r
}

fn ok(code: i32, out: &str) -> Result<GitResult, String> {
    Ok(GitResult { stdout: out.to_string(), stderr: String::new(), code })
}

struct Pass<S> {
    summary: S,
    save: Option<Registry>,
    log: Vec<FileAction>,
    commands: Vec<(String, String)>,
}

/// Runs a pass to its end. `git` answers a command in a directory.
fn drive<S>(
    pass: impl Fn(&[GitReply]) -> PassStep<S>,
    secs: i64,
    git: impl Fn(&str, &GitCommand) -> Result<GitResult, String>,
) -> Pass<S> {
    let mut replies: Vec<GitReply> = Vec::new();
    let mut commands: Vec<(String, String)> = Vec::new();
    let mut written: Vec<FileAction> = Vec::new();
    loop {
        match pass(&replies) {
            PassStep::Git { log, repo, command } => {
                assert!(log.starts_with(&written));
                written = log;
                replies.push(GitReply { outcome: git(&repo, &command), at: Stamp::at(secs, 0xabc) });
                commands.push((repo, command.args.join(" ")));
            }
            PassStep::Done { log, summary, save } => {
                assert!(log.starts_with(&written));
                return Pass { summary, save, log, commands };
            }
        }
    }
}

fn autocommit_pass(
    registry: &Registry,
    dry_run: bool,
    secs: i64,
    git: impl Fn(&str, &GitCommand) -> Result<GitResult, String>,
) -> Pass<AutocommitSummary> {
    let env = Vec::new();
    drive(|r| autocommit::run(&root(), registry, dry_run, &env, r), secs, git)
}

fn cleanup_pass(
    registry: &Registry,
    dry_run: bool,
    git: impl Fn(&str, &GitCommand) -> Result<GitResult, String>,
) -> Pass<CleanupSummary> {
    let env = Vec::new();
    drive(|r| cleanup::run(&root(), registry, dry_run, &env, r), NOW, git)
}

/// A work tree on `main` with two changes, whose commits and pushes go through.
fn dirty(_repo: &str, c: &GitCommand) -> Result<GitResult, String> {
    let args: Vec<&str> = c.args.iter().map(|a| a.as_str()).collect();
    match args.as_slice() {
        ["rev-parse", "--is-inside-work-tree"] => ok(0, "true\n"),
        ["rev-parse", "--abbrev-ref", "HEAD"] => ok(0, "main\n"),
        ["status", "--porcelain"] => ok(0, " M a\n?? b\n"),
        ["diff", "--cached", "--quiet"] => ok(1, ""),
        _ => ok(0, ""),
    }
}

#[test]
fn a_commit_is_made_pushed_noted_and_logged() {
    let reg = registry(&["/r"]);
    let pass = autocommit_pass(&reg, false, NOW, dirty);
    assert_eq!(
        pass.commands.iter().map(|c| c.1.as_str()).collect::<Vec<&str>>(),
        vec![
            "rev-parse --is-inside-work-tree",
            "rev-parse --abbrev-ref HEAD",
            "status --porcelain",
            "add -A",
            "diff --cached --quiet",
            "commit -m wip: auto-commit daemon 2026-07-17T01:00:00Z --no-verify",
            "push --ff-only origin main",
        ]
    );
    let record = AutocommitRecord {
        branch: "main".to_string(),
        dirty_before: 2,
        since_last_sec: u64::MAX,
        committed: true,
        pushed: true,
        commit_message: Some("wip: auto-commit daemon 2026-07-17T01:00:00Z".to_string()),
        push_detail: Some("pushed main".to_string()),
        ..AutocommitRecord::default()
    };
    assert_eq!(
        pass.summary,
        AutocommitSummary {
            visited: 1,
            dirty_count_seen: 1,
            committed: 1,
            errors: 0,
            dry_run: false,
            records: vec![("/r".to_string(), record)],
        }
    );
    let saved = pass.save.unwrap();
    let entry = saved.get("/r").unwrap();
    let now = Some("2026-07-17T01:00:00Z".to_string());
    assert_eq!(entry.registered_at.as_deref(), Some("2026-01-01T00:00:00Z"));
    assert_eq!(entry.last_check, now);
    assert_eq!(entry.last_auto_commit, now);
    assert_eq!(entry.last_push_time, now);
    assert_eq!(entry.last_dirty_count, Some(2));
    assert_eq!(
        pass.log[3],
        FileAction::Append {
            path: "/state/logs/autocommit.log".to_string(),
            text: "{\"branch\":\"main\",\"commit_message\":\"wip: auto-commit daemon 2026-07-17T01:00:00Z\",\"committed\":true,\"dirty_before\":2,\"event\":\"autocommit\",\"path\":\"/r\",\"push_detail\":\"pushed main\",\"pushed\":true,\"since_last_sec\":18446744073709551615}\n".to_string(),
        }
    );
    assert_eq!(pass.log.len(), 4);
    assert_eq!(
        pass.summary.render(),
        "[daemon-autocommit] [OK ] /r: branch=main dirty_before=2 since_last=18446744073709551615s committed=true pushed=true\n[done] visited=1 dirty=1 committed=1 errors=0 dry_run=false\n"
    );
}

#[test]
fn one_commit_per_interval() {
    let first = autocommit_pass(&registry(&["/r"]), false, NOW, dirty).save.unwrap();
    let early = autocommit_pass(&first, false, NOW + 899, dirty);
    assert_eq!(early.summary.records[0].1.skip.as_deref(), Some("throttled"));
    assert_eq!(early.summary.records[0].1.since_last_sec, 899);
    assert_eq!(early.summary.committed, 0);
    assert_eq!(early.summary.dirty_count_seen, 1);
    assert_eq!(early.save, Some(first.clone()));
    assert!(early.log.is_empty());
    let late = autocommit_pass(&first, false, NOW + 900, dirty);
    assert_eq!(late.summary.committed, 1);
    assert_eq!(late.summary.records[0].1.since_last_sec, 900);
    // A clock that went back counts as no time at all.
    let back = autocommit_pass(&first, false, NOW - 10, dirty);
    assert_eq!(back.summary.records[0].1.since_last_sec, 0);
}

#[test]
fn an_unreadable_time_does_not_throttle() {
    let mut reg = registry(&[]);
    let entry = RepoEntry { last_auto_commit: Some("yesterday".to_string()), ..RepoEntry::default() };
    reg.insert("/r".to_string(), entry);
    let pass = autocommit_pass(&reg, false, NOW, dirty);
    assert_eq!(pass.summary.committed, 1);
    assert_eq!(pass.summary.records[0].1.since_last_sec, u64::MAX);
}

#[test]
fn a_rehearsal_of_an_autocommit_pass() {
    let pass = autocommit_pass(&registry(&["/r"]), true, NOW, dirty);
    assert_eq!(pass.commands.len(), 3);
    assert_eq!(pass.save, None);
    assert!(pass.log.is_empty());
    assert_eq!(pass.summary.committed, 0);
    assert!(pass.summary.records[0].1.dry_run);
    assert_eq!(
        pass.summary.render(),
        "[daemon-autocommit] [OK ] /r: branch=main dirty_before=2 since_last=18446744073709551615s committed=false pushed=false\n[done] visited=1 dirty=1 committed=0 errors=0 dry_run=true\n"
    );
}

#[test]
fn the_work_trees_that_are_skipped_and_those_that_fail() {
    let reg = registry(&["/clean", "/detached", "/gone", "/hook", "/none"]);
    let pass = autocommit_pass(&reg, false, NOW, |repo, c| {
        let args: Vec<&str> = c.args.iter().map(|a| a.as_str()).collect();
        match (repo, args[0], args[1]) {
            ("/none", _, _) => ok(128, ""),
            ("/gone", _, _) => Err("no such directory".to_string()),
            ("/detached", "rev-parse", "--abbrev-ref") => ok(0, "HEAD\n"),
            ("/clean", "status", _) => ok(0, ""),
            ("/hook", "commit", _) => ok(1, ""),
            _ => dirty(repo, c),
        }
    });
    let skips: Vec<Option<&str>> =
        pass.summary.records.iter().map(|r| r.1.skip.as_deref()).collect();
    assert_eq!(
        skips,
        vec![Some("clean"), Some("detached-head"), Some("error"), None, Some("not-a-git-repo")]
    );
    assert_eq!(pass.summary.records[2].1.error.as_deref(), Some("no such directory"));
    assert_eq!(pass.summary.records[3].1.error.as_deref(), Some("commit failed"));
    assert_eq!(pass.summary.visited, 5);
    assert_eq!(pass.summary.errors, 2);
    assert_eq!(pass.summary.dirty_count_seen, 1);
    let saved = pass.save.unwrap();
    assert_eq!(saved.paths(), reg.paths());
    assert_eq!(saved.get("/clean"), reg.get("/clean"));
    assert_eq!(saved.get("/hook").unwrap().last_check.as_deref(), Some("2026-07-17T01:00:00Z"));
    assert_eq!(saved.get("/hook").unwrap().last_auto_commit, None);
    assert!(pass.summary.render().contains(
        "[daemon-autocommit] [ERR] /gone: branch= dirty_before=0 since_last=0s committed=false pushed=false skip=error error=no such directory\n"
    ));
}

/// A work tree on `main` with two stashes, two commits ahead, where everything goes through. The
/// list of stashes stays as it is.
fn stashed(_repo: &str, c: &GitCommand) -> Result<GitResult, String> {
    let args: Vec<&str> = c.args.iter().map(|a| a.as_str()).collect();
    match args.as_slice() {
        ["stash", "list"] => ok(0, "stash@{0}: a\nstash@{1}: b\n"),
        ["stash", "list", "--pretty=%gd"] => ok(0, "stash@{0}\n  stash@{1} \n\n"),
        ["rev-list", ..] => ok(0, "2\t0\n"),
        _ => dirty("", c),
    }
}

#[test]
fn stashes_are_brought_to_safety_and_commits_pushed() {
    let reg = registry(&["/r"]);
    let pass = cleanup_pass(&reg, false, stashed);
    let record = CleanupRecord {
        stashes_seen: 2,
        stashes_recovered: 2,
        ahead: 2,
        push_ok: Some(true),
        push_detail: Some("pushed main".to_string()),
        ..CleanupRecord::default()
    };
    assert_eq!(
        pass.summary,
        CleanupSummary {
            visited: 1,
            stashes_recovered: 2,
            commits_pushed: 1,
            errors: 0,
            dry_run: false,
            records: vec![("/r".to_string(), record)],
        }
    );
    assert_eq!(
        pass.summary.render(),
        "[daemon-cleanup] [OK ] /r: stashes_seen=2 recovered=2 failed=0 ahead=2 push_ok=Some(true)\n[done] visited=1 stashes_recovered=2 commits_pushed=1 errors=0 dry_run=false\n"
    );
    let saved = pass.save.unwrap();
    assert_eq!(saved.get("/r").unwrap().last_push_time.as_deref(), Some("2026-07-17T01:00:00Z"));
    let texts: Vec<String> = pass
        .log
        .iter()
        .filter_map(|a| match a {
            FileAction::Append { text, .. } => Some(text.clone()),
            _ => None,
        })
        .collect();
    assert_eq!(
        texts,
        vec![
            "{\"event\":\"stash-recover\",\"msg\":\"pushed wip/20260717T0100-stash-abc and dropped stash@{1}\",\"ok\":true,\"path\":\"/r\",\"ref\":\"stash@{1}\"}\n",
            "{\"event\":\"stash-recover\",\"msg\":\"pushed wip/20260717T0100-stash-abc and dropped stash@{0}\",\"ok\":true,\"path\":\"/r\",\"ref\":\"stash@{0}\"}\n",
            "{\"ahead\":2,\"branch\":\"main\",\"event\":\"branch-push\",\"msg\":\"pushed main\",\"ok\":true,\"path\":\"/r\"}\n",
        ]
    );
}

/// A repository that holds stashes by their places, and closes the gap when one is dropped. The
/// work of an applied stash is in the work tree until it is committed; a branch holds what was
/// committed when it was made.
struct Repository {
    stashes: Vec<String>,
    work_tree: Vec<String>,
    head: Vec<String>,
    branches: Vec<(String, Vec<String>)>,
    pushed: Vec<(String, Vec<String>)>,
    refs_asked_for: Vec<String>,
}

impl Repository {
    fn with_stashes(n: usize) -> Repository {
        Repository {
            stashes: (0..n).map(|k| format!("work {k}")).collect(),
            work_tree: Vec::new(),
            head: Vec::new(),
            branches: Vec::new(),
            pushed: Vec::new(),
            refs_asked_for: Vec::new(),
        }
    }

    fn place(&mut self, name: &str) -> Option<usize> {
        self.refs_asked_for.push(name.to_string());
        let number = name.strip_prefix("stash@{")?.strip_suffix('}')?;
        number.parse::<usize>().ok().filter(|k| *k < self.stashes.len())
    }

    fn answer(&mut self, c: &GitCommand) -> Result<GitResult, String> {
        let args: Vec<&str> = c.args.iter().map(|a| a.as_str()).collect();
        match args.as_slice() {
            ["stash", "list"] => ok(0, &self.stashes.join("\n")),
            ["stash", "list", "--pretty=%gd"] => {
                let names: Vec<String> =
                    (0..self.stashes.len()).map(|k| format!("stash@{{{k}}}")).collect();
                ok(0, &names.join("\n"))
            }
            ["stash", "show", "-p", name] => match self.place(name) {
                Some(k) => ok(0, &self.stashes[k]),
                None => ok(1, ""),
            },
            ["stash", "apply", name] => match self.place(name) {
                Some(k) => {
                    self.work_tree.push(self.stashes[k].clone());
                    ok(0, "")
                }
                None => ok(1, ""),
            },
            ["stash", "drop", name] => match self.place(name) {
                Some(k) => {
                    self.stashes.remove(k);
                    ok(0, "")
                }
                None => ok(1, ""),
            },
            ["diff", "--cached", "--quiet"] => ok(if self.work_tree.is_empty() { 0 } else { 1 }, ""),
            ["commit", ..] => {
                self.head.append(&mut self.work_tree);
                ok(0, "")
            }
            ["branch", name, "HEAD"] => {
                self.branches.push((name.to_string(), self.head.clone()));
                ok(0, "")
            }
            ["push", "--set-upstream", "origin", name] => {
                let branch = self.branches.iter().rev().find(|b| b.0 == *name).unwrap().clone();
                self.pushed.push(branch);
                ok(0, "")
            }
            ["rev-list", ..] => ok(0, "0\t0\n"),
            _ => dirty("", c),
        }
    }
}

#[test]
fn every_stash_is_recovered_although_a_drop_renumbers_the_others() {
    for n in 0..5 {
        let repository = RefCell::new(Repository::with_stashes(n));
        let pass =
            cleanup_pass(&registry(&["/r"]), false, |_, c| repository.borrow_mut().answer(c));
        let record = &pass.summary.records[0].1;
        assert_eq!(record.stashes_seen, n);
        assert_eq!(record.stashes_recovered, n);
        assert_eq!(record.stashes_failed, 0);
        assert!(record.stash_errors.is_empty());
        let repository = repository.into_inner();
        assert!(repository.stashes.is_empty());
        // Each branch that was pushed holds the work of its stash.
        assert_eq!(repository.pushed.len(), n);
        for (t, (_, work)) in repository.pushed.iter().enumerate() {
            assert_eq!(work.last(), Some(&format!("work {}", n - 1 - t)));
        }
    }
}

#[test]
fn no_stash_is_asked_for_after_the_drop_of_a_lower_one() {
    let repository = RefCell::new(Repository::with_stashes(3));
    cleanup_pass(&registry(&["/r"]), false, |_, c| repository.borrow_mut().answer(c));
    let asked = repository.into_inner().refs_asked_for;
    assert_eq!(
        asked,
        vec![
            "stash@{2}", "stash@{2}", "stash@{2}", "stash@{1}", "stash@{1}", "stash@{1}",
            "stash@{0}", "stash@{0}", "stash@{0}",
        ]
    );
}

#[test]
fn a_stash_that_cannot_be_applied_does_not_stop_the_others() {
    let repository = RefCell::new(Repository::with_stashes(3));
    let pass = cleanup_pass(&registry(&["/r"]), false, |_, c| {
        if c.args[1] == "apply" && c.args[2] == "stash@{1}" {
            return ok(1, "conflict\n");
        }
        repository.borrow_mut().answer(c)
    });
    let record = &pass.summary.records[0].1;
    assert_eq!((record.stashes_recovered, record.stashes_failed), (2, 1));
    assert_eq!(
        record.stash_errors,
        vec![("stash@{1}".to_string(), "stash apply failed: conflict".to_string())]
    );
    assert_eq!(repository.into_inner().stashes, vec!["work 1"]);
}

#[test]
fn errors_of_stashes_are_in_the_order_of_the_list() {
    let repository = RefCell::new(Repository::with_stashes(5));
    let pass = cleanup_pass(&registry(&["/r"]), false, |_, c| {
        if c.args[1] == "apply" {
            match c.args[2].as_str() {
                "stash@{0}" | "stash@{3}" => return ok(1, "conflict\n"),
                "stash@{2}" => return Err("killed".to_string()),
                _ => {}
            }
        }
        repository.borrow_mut().answer(c)
    });
    let record = &pass.summary.records[0].1;
    assert_eq!((record.stashes_recovered, record.stashes_failed), (2, 3));
    let refs: Vec<&str> = record.stash_errors.iter().map(|e| e.0.as_str()).collect();
    assert_eq!(refs, vec!["stash@{0}", "stash@{2}", "stash@{3}"]);
    assert_eq!(record.stash_errors[1].1, "killed");
    // The log is in the order of the attempts.
    let logged: Vec<bool> = pass
        .log
        .iter()
        .filter_map(|a| match a {
            FileAction::Append { text, .. } => Some(text.contains("\"ok\":true")),
            _ => None,
        })
        .collect();
    assert_eq!(logged, vec![true, false, true, false]);
    assert_eq!(repository.into_inner().stashes, vec!["work 0", "work 2", "work 3"]);
}

#[test]
fn summaries_and_records_are_cloned_and_start_empty() {
    let pass = cleanup_pass(&registry(&["/r"]), false, stashed);
    assert_eq!(pass.summary.clone(), pass.summary);
    let pass = autocommit_pass(&registry(&["/r"]), false, NOW, dirty);
    assert_eq!(pass.summary.clone(), pass.summary);
    assert_eq!(
        AutocommitSummary::default(),
        AutocommitSummary {
            visited: 0,
            dirty_count_seen: 0,
            committed: 0,
            errors: 0,
            dry_run: false,
            records: Vec::new(),
        }
    );
    assert_eq!(
        CleanupSummary::default(),
        CleanupSummary {
            visited: 0,
            stashes_recovered: 0,
            commits_pushed: 0,
            errors: 0,
            dry_run: false,
            records: Vec::new(),
        }
    );
}

#[test]
fn a_rehearsal_of_a_cleanup_pass() {
    let pass = cleanup_pass(&registry(&["/r"]), true, stashed);
    assert_eq!(
        pass.commands.iter().map(|c| c.1.as_str()).collect::<Vec<&str>>(),
        vec![
            "rev-parse --is-inside-work-tree",
            "rev-parse --abbrev-ref HEAD",
            "stash list",
            "stash list --pretty=%gd",
            "rev-list --left-right --count main...origin/main",
        ]
    );
    assert_eq!(pass.save, None);
    assert!(pass.log.is_empty());
    assert_eq!(pass.summary.stashes_recovered, 2);
    assert_eq!(pass.summary.records[0].1.push_ok, None);
    assert!(pass.summary.render().contains("ahead=2 push_ok=None"));
}

#[test]
fn what_goes_wrong_in_a_cleanup_pass_is_recorded() {
    let reg = registry(&["/a", "/b", "/c", "/d"]);
    let pass = cleanup_pass(&reg, false, |repo, c| {
        let args: Vec<&str> = c.args.iter().map(|a| a.as_str()).collect();
        match (repo, args[0], args[1]) {
            ("/a", "stash", "show") => ok(1, ""),
            ("/a", "push", _) => Err("git is missing".to_string()),
            ("/b", _, _) => Err("gone".to_string()),
            ("/c", "rev-parse", "--abbrev-ref") => Err("gone".to_string()),
            ("/d", "stash", "apply") => Err("killed".to_string()),
            ("/d", "rev-list", _) => Err("killed".to_string()),
            _ => stashed(repo, c),
        }
    });
    let a = &pass.summary.records[0].1;
    assert_eq!((a.stashes_recovered, a.stashes_failed), (0, 2));
    assert_eq!(a.stash_errors[0], ("stash@{0}".to_string(), "cannot read stash@{0}".to_string()));
    assert_eq!(a.stash_errors[1], ("stash@{1}".to_string(), "cannot read stash@{1}".to_string()));
    assert_eq!(a.push_ok, Some(false));
    assert_eq!(a.push_detail.as_deref(), Some("git is missing"));
    assert_eq!(pass.summary.records[1].1.skip.as_deref(), Some("not-a-git-repo"));
    assert_eq!(pass.summary.records[2].1.skip.as_deref(), Some("detached-head"));
    let d = &pass.summary.records[3].1;
    assert_eq!(d.stashes_failed, 2);
    assert_eq!(
        d.stash_errors,
        vec![
            ("stash@{0}".to_string(), "killed".to_string()),
            ("stash@{1}".to_string(), "killed".to_string()),
        ]
    );
    assert_eq!((d.ahead, d.push_ok), (0, None));
    assert_eq!(pass.summary.errors, 2);
    assert_eq!(pass.summary.commits_pushed, 0);
    assert_eq!(pass.save.unwrap(), reg);
}

#[test]
fn a_failed_push_leaves_the_time_of_the_last_one() {
    let mut reg = registry(&[]);
    let entry = RepoEntry { last_push_time: Some("T0".to_string()), ..RepoEntry::default() };
    reg.insert("/r".to_string(), entry);
    let pass = cleanup_pass(&reg, false, |repo, c| match c.args[0].as_str() {
        "stash" => ok(0, ""),
        "push" => ok(1, ""),
        _ => stashed(repo, c),
    });
    assert_eq!(pass.summary.records[0].1.push_ok, Some(false));
    let saved = pass.save.unwrap();
    assert_eq!(saved.get("/r").unwrap().last_push_time.as_deref(), Some("T0"));
    assert_eq!(saved.get("/r").unwrap().last_check.as_deref(), Some("2026-07-17T01:00:00Z"));
    assert!(pass.summary.render().contains("push_ok=Some(false)"));
}

#[test]
fn passes_over_an_empty_registry() {
    let none = Registry::new();
    let a = autocommit_pass(&none, false, NOW, dirty);
    assert_eq!(a.save, Some(Registry::new()));
    assert_eq!(a.summary.render(), "[done] visited=0 dirty=0 committed=0 errors=0 dry_run=false\n");
    let c = cleanup_pass(&none, true, dirty);
    assert_eq!(c.save, None);
    assert_eq!(
        c.summary.render(),
        "[done] visited=0 stashes_recovered=0 commits_pushed=0 errors=0 dry_run=true\n"
    );
}

/// Like `stashed`, but the remote refuses every fast-forward.
fn refused(repo: &str, c: &GitCommand) -> Result<GitResult, String> {
    match c.args[1].as_str() {
        "--ff-only" => ok(1, "! [rejected] main -> main (non-fast-forward)"),
        _ => stashed(repo, c),
    }
}

#[test]
fn no_push_is_forced_and_no_commit_amended() {
    let reg = registry(&["/r", "/s"]);
    let mut lines = autocommit_pass(&reg, false, NOW, refused).commands;
    lines.extend(cleanup_pass(&reg, false, refused).commands);
    let mut pushes = 0;
    let mut commits = 0;
    for (_, line) in &lines {
        let words: Vec<&str> = line.split(' ').collect();
        match words[0] {
            "push" => {
                pushes += 1;
                assert_eq!(words.len(), 4);
                assert!(words[1] == "--ff-only" || words[1] == "--set-upstream");
                assert_eq!(words[2], "origin");
            }
            "commit" => {
                commits += 1;
                assert_eq!(words[1], "-m");
                assert_eq!(words[words.len() - 1], "--no-verify");
            }
            "rev-parse" | "status" | "add" | "diff" | "branch" | "stash" | "rev-list" => {}
            other => panic!("unexpected subcommand {other}"),
        }
    }
    assert_eq!((pushes, commits), (12, 6));
    // Each stash is dropped right after the commit of its work, the branch at that commit and the
    // push of that branch, all in the same work tree.
    let mut drops = 0;
    for four in lines.windows(4) {
        if four[3].1.starts_with("stash drop") {
            drops += 1;
            assert!(four[0].1.starts_with("commit -m wip: applied stash "));
            let branch = four[1].1.strip_prefix("branch ").unwrap().strip_suffix(" HEAD").unwrap();
            assert_eq!(four[2].1, format!("push --set-upstream origin {branch}"));
            assert!(four.iter().all(|line| line.0 == four[3].0));
        }
    }
    assert_eq!(drops, 4);
}
