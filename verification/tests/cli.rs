use airlock_v2::cli::{run, short_id, Cli, Commands, Inputs, Next, Outcome};
use airlock_v2::clock::Stamp;
use airlock_v2::commit::AuthorVars;
use airlock_v2::flow::{GitCommand, GitReply, GitResult};
use airlock_v2::registry::{Registry, RepoEntry};
use airlock_v2::state::resolve_repo_path;
use airlock_v2::StateRoot;

const NOW: i64 = 1_784_250_000;

fn ok(code: i32, out: &str) -> Result<GitResult, String> {
    Ok(GitResult { stdout: out.to_string(), stderr: String::new(), code })
}

struct World {
    registry: Result<Registry, String>,
    index: Result<String, String>,
    home: Option<String>,
    cwd: Result<String, String>,
}

fn world(registry: Registry) -> World {
    World {
        registry: Ok(registry),
        index: Ok("/tmp/i/index".to_string()),
        home: Some("/home/u".to_string()),
        cwd: Ok("/work".to_string()),
    }
}

/// Runs a command to its end, and tells what was asked for on the way.
fn drive(
    command: Commands,
    world: World,
    git: impl Fn(&str, &GitCommand) -> Result<GitResult, String>,
) -> (Result<Outcome, String>, Vec<String>) {
    let root = StateRoot::from_path("/state".to_string());
    let cli = Cli { command };
    let mut inputs = Inputs {
        home: world.home.clone(),
        cwd: world.cwd.clone(),
        author: AuthorVars {
            author_name: None,
            author_email: None,
            committer_name: None,
            committer_email: None,
        },
        started: Stamp::at(NOW, 1),
        registry: None,
        index: None,
        replies: Vec::new(),
    };
    let mut asked: Vec<String> = Vec::new();
    let mut world = Some((world.registry, world.index));
    loop {
        let step = run(&cli, &root, &inputs);
        assert_eq!(step.setup, root.ensure_dirs());
        match step.next {
            Next::LoadRegistry => {
                asked.push("(load)".to_string());
                let (registry, index) = world.take().unwrap();
                inputs.registry = Some(registry);
                world = Some((Ok(Registry::new()), index));
            }
            Next::CreateIndex => {
                asked.push("(index)".to_string());
                let (registry, index) = world.take().unwrap();
                inputs.index = Some(index);
                world = Some((registry, Ok(String::new())));
            }
            Next::Git { repo, command } => {
                let outcome = git(&repo, &command);
                asked.push(format!("{repo}: {}", command.args.join(" ")));
                inputs.replies.push(GitReply { outcome, at: Stamp::at(NOW, 0xabc) });
            }
            Next::Done(result) => return (result, asked),
        }
    }
}

/// A work tree on `main`, with one change and a remote.
fn git(_repo: &str, c: &GitCommand) -> Result<GitResult, String> {
    let args: Vec<&str> = c.args.iter().map(|a| a.as_str()).collect();
    match args.as_slice() {
        ["rev-parse", "--is-inside-work-tree"] => ok(0, "true\n"),
        ["rev-parse", "--abbrev-ref", "HEAD"] => ok(0, "main\n"),
        ["remote", "get-url", "origin"] => ok(0, "git@h:x.git\n"),
        ["symbolic-ref", ..] => ok(0, "origin/main\n"),
        ["status", "--porcelain"] => ok(0, " M a\n"),
        ["rev-list", ..] => ok(0, "1\t0\n"),
        ["log", ..] => ok(0, "abc init\n"),
        ["rev-parse", "--verify", "HEAD"] => ok(0, "h\n"),
        ["write-tree"] => ok(0, "t1\n"),
        ["rev-parse", "HEAD^{tree}"] => ok(0, "t0\n"),
        ["commit-tree", ..] => ok(0, "c\n"),
        ["rev-parse", "--verify", "c^"] => ok(0, "h\n"),
        ["rev-parse", "--verify", ..] => ok(0, "c\n"),
        ["push", "--set-upstream", ..] => ok(0, " pushed it \n"),
        ["ls-remote", ..] => ok(0, "c\trefs/heads/x\n"),
        ["diff", "--quiet", ..] => ok(1, ""),
        _ => ok(0, ""),
    }
}

fn outside(_repo: &str, _c: &GitCommand) -> Result<GitResult, String> {
    ok(128, "")
}

fn missing(_repo: &str, _c: &GitCommand) -> Result<GitResult, String> {
    Err("git is missing".to_string())
}

fn printed(result: Result<Outcome, String>) -> (String, i32) {
    let outcome = result.unwrap();
    assert_eq!(outcome.err, "");
    assert_eq!(outcome.save, None);
    (outcome.out, outcome.code)
}

fn two() -> Registry {
    let mut reg = Registry::new();
    let entry = RepoEntry {
        registered_at: Some("2026-01-01T00:00:00Z".to_string()),
        last_dirty_count: Some(4),
        remote_url: Some("git@h:x.git".to_string()),
        primary_branch: Some("main".to_string()),
        last_auto_commit: Some("2026-01-02T00:00:00Z".to_string()),
        ..RepoEntry::default()
    };
    reg.insert("/b".to_string(), entry);
    reg.insert("/a".to_string(), RepoEntry { remote_url: Some(String::new()), ..RepoEntry::default() });
    reg
}

#[test]
fn registering_a_work_tree() {
    let command = Commands::Register { repo_path: "~/w".to_string() };
    let (result, asked) = drive(command, world(two()), git);
    let outcome = result.unwrap();
    assert_eq!(outcome.out, "[OK] Registered /home/u/w\n");
    assert_eq!(outcome.code, 0);
    assert_eq!(
        asked,
        vec![
            "/home/u/w: rev-parse --is-inside-work-tree",
            "(load)",
            "/home/u/w: remote get-url origin",
            "/home/u/w: symbolic-ref --short refs/remotes/origin/HEAD",
            "/home/u/w: status --porcelain",
        ]
    );
    let saved = outcome.save.unwrap();
    assert_eq!(saved.len(), 3);
    assert_eq!(
        saved.get("/home/u/w"),
        Some(&RepoEntry {
            registered_at: Some("2026-07-17T01:00:00Z".to_string()),
            last_check: Some("2026-07-17T01:00:00Z".to_string()),
            last_dirty_count: Some(1),
            remote_url: Some("git@h:x.git".to_string()),
            primary_branch: Some("main".to_string()),
            ..RepoEntry::default()
        })
    );
}

#[test]
fn registering_again_keeps_the_time() {
    let command = Commands::Register { repo_path: "/b".to_string() };
    let (result, _) = drive(command, world(two()), |repo, c| match c.args[0].as_str() {
        "remote" => Err("git is missing".to_string()),
        "symbolic-ref" => Err("git is missing".to_string()),
        "status" => Err("git is missing".to_string()),
        _ => git(repo, c),
    });
    let saved = result.unwrap().save.unwrap();
    let entry = saved.get("/b").unwrap();
    assert_eq!(entry.registered_at.as_deref(), Some("2026-01-01T00:00:00Z"));
    assert_eq!(entry.remote_url, None);
    assert_eq!(entry.primary_branch.as_deref(), Some("main"));
    assert_eq!(entry.last_dirty_count, Some(0));
    assert_eq!(entry.last_auto_commit.as_deref(), Some("2026-01-02T00:00:00Z"));
}

#[test]
fn a_directory_outside_of_any_work_tree() {
    let command = Commands::Register { repo_path: "/w".to_string() };
    let (result, asked) = drive(command, world(two()), outside);
    assert_eq!(
        printed(result),
        ("[SKIP] /w is not inside a git work tree.\n".to_string(), 1)
    );
    assert_eq!(asked.len(), 1);
    let command = Commands::Snapshot { repo_path: "/w".to_string(), message: None };
    let (result, _) = drive(command, world(two()), outside);
    assert_eq!(printed(result), ("[FAIL] /w is not a git repo.\n".to_string(), 1));
}

#[test]
fn unregistering_a_work_tree() {
    let command = Commands::Unregister { repo_path: "/b".to_string() };
    let (result, _) = drive(command, world(two()), git);
    let outcome = result.unwrap();
    assert_eq!(outcome.out, "[OK] Unregistered /b\n");
    assert_eq!(outcome.save.unwrap().paths(), vec!["/a"]);
    let command = Commands::Unregister { repo_path: "/zzz".to_string() };
    let (result, _) = drive(command, world(two()), git);
    assert_eq!(
        printed(result),
        ("[INFO] /zzz not in registry; nothing to do.\n".to_string(), 0)
    );
}

#[test]
fn lists() {
    let (result, asked) = drive(Commands::List, world(two()), git);
    assert_eq!(
        printed(result),
        (
            "[OK] 2 registered repo(s):\n  - /a\n      dirty=0  remote=(no remote)\n  - /b\n      dirty=4  remote=git@h:x.git\n".to_string(),
            0
        )
    );
    assert_eq!(asked, vec!["(load)"]);
    let (result, _) = drive(Commands::Audit, world(two()), git);
    assert_eq!(
        printed(result),
        (
            "[AUDIT] 2 registered repo(s):\n  - /a\n      dirty=0  remote=(no remote)  registered_at=?\n      primary_branch=?  last_auto_commit=never  last_push_time=never\n  - /b\n      dirty=4  remote=git@h:x.git  registered_at=2026-01-01T00:00:00Z\n      primary_branch=main  last_auto_commit=2026-01-02T00:00:00Z  last_push_time=never\n".to_string(),
            0
        )
    );
    let (result, _) = drive(Commands::List, world(Registry::new()), git);
    assert_eq!(printed(result), ("[INFO] No repos registered.\n".to_string(), 0));
    let (result, _) = drive(Commands::Audit, world(Registry::new()), git);
    assert_eq!(printed(result), ("[INFO] No repos registered.\n".to_string(), 0));
}

#[test]
fn a_registry_that_cannot_be_read() {
    for command in [
        Commands::List,
        Commands::Audit,
        Commands::Quickstatus,
        Commands::Autocommit { dry_run: false },
        Commands::Cleanup { dry_run: false },
        Commands::Unregister { repo_path: "/a".to_string() },
        Commands::Status { repo_path: "/a".to_string() },
        Commands::Register { repo_path: "/a".to_string() },
    ] {
        let broken = World { registry: Err("unreadable".to_string()), ..world(two()) };
        assert_eq!(drive(command, broken, git).0, Err("unreadable".to_string()));
    }
}

#[test]
fn the_status_of_one_and_of_all() {
    let command = Commands::Status { repo_path: "/b".to_string() };
    let (result, _) = drive(command, world(two()), git);
    let (out, code) = printed(result);
    assert_eq!(code, 0);
    assert!(out.starts_with("[STATUS] /b\n  branch          : main (primary=main)\n"));
    assert!(out.contains("  last auto-commit: 2026-01-02T00:00:00Z\n"));
    let (result, _) = drive(Commands::Quickstatus, world(two()), |repo, c| {
        if repo == "/a" && c.args[0] == "rev-list" {
            ok(128, "")
        } else {
            git(repo, c)
        }
    });
    assert_eq!(printed(result), ("[quickstatus] repos=2 dirty=2 unpushed=1\n".to_string(), 0));
    let (result, _) = drive(Commands::Quickstatus, world(two()), missing);
    assert_eq!(result, Err("git is missing".to_string()));
}

#[test]
fn a_snapshot_from_the_command_line() {
    let command =
        Commands::Snapshot { repo_path: "/r".to_string(), message: Some("note".to_string()) };
    let (result, asked) = drive(command, world(two()), git);
    assert_eq!(
        printed(result),
        (
            "[OK] Snapshot created and pushed: wip/20260717T0100-abc\n     pushed it\n     commit: c (parent h)\n     note: note\n".to_string(),
            0
        )
    );
    assert_eq!(
        asked,
        vec![
            "/r: rev-parse --is-inside-work-tree",
            "/r: rev-parse --verify HEAD",
            "(index)",
            "/r: read-tree HEAD",
            "/r: add -A",
            "/r: write-tree",
            "/r: rev-parse HEAD^{tree}",
            "/r: commit-tree t1 -p h -m note",
            "/r: update-ref refs/heads/wip/20260717T0100-abc c 0000000000000000000000000000000000000000",
            "/r: rev-parse --verify refs/heads/wip/20260717T0100-abc",
            "/r: rev-parse --verify c^",
            "/r: push --set-upstream origin wip/20260717T0100-abc",
            "/r: ls-remote --heads origin refs/heads/wip/20260717T0100-abc",
            "/r: diff --quiet h c",
        ]
    );
}

#[test]
fn snapshots_that_are_not_pushed() {
    let command = || Commands::Snapshot { repo_path: "/r".to_string(), message: None };
    let (result, _) = drive(command(), world(two()), |repo, c| match c.args[0].as_str() {
        "write-tree" => ok(0, "t0"),
        _ => git(repo, c),
    });
    assert_eq!(
        printed(result),
        ("[INFO] No non-ignored working-tree changes; no snapshot created.\n".to_string(), 0)
    );
    let (result, _) = drive(command(), world(two()), |repo, c| match c.args[0].as_str() {
        "push" => ok(1, "offline"),
        _ => git(repo, c),
    });
    assert_eq!(
        printed(result),
        (
            "[WARN] Push failed for wip/20260717T0100-abc: offline\n       Local branch wip/20260717T0100-abc at c is preserved.\n".to_string(),
            2
        )
    );
    let (result, _) = drive(command(), world(two()), |repo, c| match c.args[0].as_str() {
        "ls-remote" => ok(0, "d\tx"),
        _ => git(repo, c),
    });
    assert!(result.unwrap_err().ends_with(" points at d, expected c"));
    let full = World { index: Err("disk full".to_string()), ..world(two()) };
    assert_eq!(drive(command(), full, git).0, Err("disk full".to_string()));
}

#[test]
fn passes_from_the_command_line() {
    let (result, _) = drive(Commands::Autocommit { dry_run: true }, world(two()), git);
    let (out, code) = printed(result);
    assert!(out.ends_with("[done] visited=2 dirty=2 committed=0 errors=0 dry_run=true\n"));
    assert_eq!(code, 0);
    let (result, _) = drive(Commands::Autocommit { dry_run: false }, world(two()), missing);
    let outcome = result.unwrap();
    assert_eq!(outcome.code, 1);
    assert_eq!(outcome.save, Some(two()));
    let (result, _) = drive(Commands::Cleanup { dry_run: false }, world(two()), git);
    let outcome = result.unwrap();
    assert_eq!(outcome.code, 0);
    assert!(outcome.out.ends_with("commits_pushed=2 errors=0 dry_run=false\n"));
    assert_eq!(outcome.save.unwrap().len(), 2);
}

#[test]
fn the_daemon_command_gives_a_hint() {
    for mode in ["autocommit", "cleanup"] {
        let (result, _) = drive(Commands::Daemon { mode: mode.to_string() }, world(two()), git);
        assert_eq!(
            printed(result),
            (
                format!("[daemon] mode={mode}: invoke `cargo run --example daemon -- {mode}` to run as a long-lived scheduler.\n"),
                0
            )
        );
    }
    let (result, _) = drive(Commands::Daemon { mode: "all".to_string() }, world(two()), git);
    let outcome = result.unwrap();
    assert_eq!(outcome.out, "");
    assert_eq!(
        outcome.err,
        "[FAIL] unknown daemon mode: all (use 'autocommit' or 'cleanup')\n"
    );
    assert_eq!(outcome.code, 2);
}

#[test]
fn restoring_a_branch() {
    let command =
        || Commands::Restore { repo_path: "/r".to_string(), branch: "dev".to_string() };
    let (result, asked) = drive(command(), world(two()), git);
    assert_eq!(printed(result), ("[restore] dev: pushed dev\n".to_string(), 0));
    assert_eq!(asked, vec!["/r: push --ff-only origin dev"]);
    let (result, _) = drive(command(), world(two()), |_, c| match c.args[1].as_str() {
        "--ff-only" => ok(1, "non-fast-forward"),
        _ => ok(0, ""),
    });
    assert_eq!(
        printed(result),
        (
            "[restore] dev: push rejected for dev; backup at wip/20260717T0100-abc pushed\n".to_string(),
            0
        )
    );
    let (result, _) = drive(command(), world(two()), outside);
    assert_eq!(printed(result).1, 2);
    assert_eq!(drive(command(), world(two()), missing).0, Err("git is missing".to_string()));
}

#[test]
fn paths_from_the_command_line() {
    assert_eq!(resolve_repo_path("~/x/y", Some("/h"), "/w"), Ok("/h/x/y".to_string()));
    assert_eq!(resolve_repo_path("~", Some("/h"), "/w"), Ok("/h".to_string()));
    assert_eq!(resolve_repo_path("~u/x", Some("/h"), "/w"), Ok("/w/~u/x".to_string()));
    assert_eq!(resolve_repo_path("x/y", Some("/h"), "/w"), Ok("/w/x/y".to_string()));
    assert_eq!(resolve_repo_path("x", Some("/h"), "/"), Ok("/x".to_string()));
    assert_eq!(resolve_repo_path("~/x", Some("h"), "/w"), Ok("/w/h/x".to_string()));
    assert_eq!(resolve_repo_path("/a", None, "/w"), Ok("/a".to_string()));
    assert_eq!(resolve_repo_path("~/x", None, "/w"), Err("HOME not set".to_string()));
    let homeless = World { home: None, ..world(two()) };
    let (result, asked) = drive(Commands::Status { repo_path: "~".to_string() }, homeless, git);
    assert_eq!(result, Err("HOME not set".to_string()));
    assert!(asked.is_empty());
}

#[test]
fn a_relative_path_is_below_the_current_directory() {
    let register = |path: &str| Commands::Register { repo_path: path.to_string() };
    let (result, asked) = drive(register("proj/x"), world(Registry::new()), git);
    let saved = result.unwrap().save.unwrap();
    assert_eq!(saved.paths(), vec!["/work/proj/x"]);
    assert!(asked.iter().all(|line| line == "(load)" || line.starts_with("/work/proj/x: ")));
    // The same work tree, by its absolute path.
    let command = Commands::Unregister { repo_path: "/work/proj/x".to_string() };
    let after = drive(command, world(saved), git).0.unwrap().save.unwrap();
    assert!(after.is_empty());
    let lost = || World { cwd: Err("no such directory".to_string()), ..world(Registry::new()) };
    let (result, asked) = drive(register("x"), lost(), git);
    assert_eq!(result, Err("no such directory".to_string()));
    assert!(asked.is_empty());
    let saved = drive(register("/x"), lost(), git).0.unwrap().save.unwrap();
    assert_eq!(saved.paths(), vec!["/x"]);
}

#[test]
fn ids_are_the_low_bits_in_hexadecimal() {
    assert_eq!(short_id(0), "0");
    assert_eq!(short_id(0x1234_abcd), "1234abcd");
    assert_eq!(short_id((7 << 64) + 0xff), "ff");
}

#[test]
fn unregistering_undoes_a_registration() {
    let command = Commands::Register { repo_path: "/w".to_string() };
    let saved = drive(command, world(two()), git).0.unwrap().save.unwrap();
    assert!(saved.contains("/w"));
    let command = Commands::Unregister { repo_path: "/w".to_string() };
    let after = drive(command, world(saved), git).0.unwrap().save.unwrap();
    assert_eq!(after, two());
}

#[test]
fn further_replies_change_nothing_at_the_end() {
    let root = StateRoot::from_path("/state".to_string());
    let cli = Cli { command: Commands::Restore { repo_path: "/r".to_string(), branch: "dev".to_string() } };
    let mut inputs = Inputs {
        home: None,
        cwd: Ok("/work".to_string()),
        author: AuthorVars {
            author_name: None,
            author_email: None,
            committer_name: None,
            committer_email: None,
        },
        started: Stamp::at(NOW, 1),
        registry: None,
        index: None,
        replies: vec![GitReply { outcome: ok(0, ""), at: Stamp::at(NOW, 2) }],
    };
    let early = run(&cli, &root, &inputs);
    assert!(matches!(early.next, Next::Done(Ok(_))));
    inputs.replies.push(GitReply { outcome: ok(1, "rejected"), at: Stamp::at(NOW, 3) });
    assert_eq!(run(&cli, &root, &inputs), early);
}

#[test]
fn commands_that_only_show_run_only_what_looks() {
    for command in [
        Commands::List,
        Commands::Audit,
        Commands::Quickstatus,
        Commands::Status { repo_path: "/b".to_string() },
        Commands::Daemon { mode: "cleanup".to_string() },
    ] {
        let (result, asked) = drive(command, world(two()), git);
        assert_eq!(result.unwrap().save, None);
        for line in asked {
            for word in [" push", " commit", " add", " branch", " drop", " apply", " update-ref"] {
                assert!(!line.contains(word), "{line}");
            }
        }
    }
}
