use airlock_v2::clock::Stamp;
use airlock_v2::commit::AuthorVars;
use airlock_v2::flow::{GitCommand, GitReply, GitResult, Step};
use airlock_v2::git_ops::{
    ahead_behind, commit_all, create_branch_at_head, current_branch, dirty_count,
    ensure_clean_author_env, get_remote_url, has_origin_remote, is_inside_work_tree, last_commit,
    primary_branch, push_branch_ff_only, push_branch_with_upstream, recover_one_stash,
    safe_repo_root, snapshot_repo, stash_count, try_push_or_snapshot,
};
use airlock_v2::registry::RepoEntry;

fn result(code: i32, out: &str, err: &str) -> GitResult {
    GitResult { stdout: out.to_string(), stderr: err.to_string(), code }
}

fn reply(code: i32, out: &str, err: &str) -> GitReply {
    GitReply { outcome: Ok(result(code, out, err)), at: Stamp::at(1_784_250_000, 0xabc) }
}

fn no_git() -> GitReply {
    GitReply { outcome: Err("git is missing".to_string()), at: Stamp::at(1_784_250_000, 0) }
}

/// The only command that a conversation begins with, joined by blanks.
fn asked<T>(step: Step<T>) -> String {
    match step {
        Step::Run(c) => c.args.join(" "),
        Step::Done(_, _) => panic!("the conversation is over"),
    }
}

fn done<T>(step: Step<T>) -> Result<T, String> {
    match step {
        Step::Run(c) => panic!("still wants to run {:?}", c.args),
        Step::Done(r, _) => r,
    }
}

/// Holds a whole conversation with scripted replies; gives the result and the commands.
fn talk<T>(
    conversation: impl Fn(&[GitReply]) -> Step<T>,
    script: Vec<GitReply>,
) -> (Result<T, String>, Vec<GitCommand>) {
    let mut replies: Vec<GitReply> = Vec::new();
    let mut commands: Vec<GitCommand> = Vec::new();
    let mut script = script.into_iter();
    loop {
        match conversation(&replies) {
            Step::Run(c) => {
                commands.push(c);
                replies.push(script.next().unwrap());
            }
            Step::Done(r, n) => {
                assert_eq!(n, replies.len());
                assert!(script.next().is_none());
                return (r, commands);
            }
        }
    }
}

fn lines(commands: &[GitCommand]) -> Vec<String> {
    commands.iter().map(|c| c.args.join(" ")).collect()
}

fn env() -> Vec<(String, String)> {
    ensure_clean_author_env(&AuthorVars {
        author_name: None,
        author_email: Some("me@example.com".to_string()),
        committer_name: None,
        committer_email: None,
    })
}

#[test]
fn dirty_count_zero_for_clean_repo() {
    assert_eq!(asked(dirty_count(&[], 0)), "status --porcelain");
    assert_eq!(done(dirty_count(&[reply(0, "", "")], 0)).unwrap(), 0);
}

#[test]
fn dirty_count_increments_with_modifications() {
    let status = " M README.md\n?? new.txt\n";
    assert_eq!(done(dirty_count(&[reply(0, status, "")], 0)).unwrap(), 2);
}

#[test]
fn dirty_count_of_a_failing_command_is_zero() {
    assert_eq!(done(dirty_count(&[reply(128, " M x\n", "fatal")], 0)).unwrap(), 0);
    assert_eq!(done(dirty_count(&[no_git()], 0)), Err("git is missing".to_string()));
}

#[test]
fn push_branch_ff_only_returns_failure_for_missing_remote() {
    let step = push_branch_ff_only("main", &[], 0);
    match &step {
        Step::Run(c) => assert_eq!(c.timeout_secs, Some(60)),
        _ => unreachable!(),
    }
    assert_eq!(asked(step), "push --ff-only origin main");
    let said = "fatal: 'origin' does not appear to be a git repository\n";
    let (ok, _) = done(push_branch_ff_only("main", &[reply(128, "", said)], 0)).unwrap();
    assert!(!ok, "push without an origin must fail conservatively");
}

#[test]
fn ahead_behind_returns_zero_for_no_remote() {
    let said = "fatal: ambiguous argument 'main...origin/main'\n";
    let (ahead, behind) = done(ahead_behind("main", &[reply(128, "", said)], 0)).unwrap();
    assert_eq!((ahead, behind), (0, 0));
}

#[test]
fn ahead_is_counted_on_the_left() {
    assert_eq!(
        asked(ahead_behind("main", &[], 0)),
        "rev-list --left-right --count main...origin/main"
    );
    assert_eq!(done(ahead_behind("main", &[reply(0, "3\t1\n", "")], 0)).unwrap(), (3, 1));
    assert_eq!(done(ahead_behind("main", &[reply(0, "x 1\n", "")], 0)).unwrap(), (0, 1));
    assert_eq!(done(ahead_behind("main", &[reply(0, "", "")], 0)).unwrap(), (0, 0));
}

#[test]
fn is_inside_work_tree_recognises_repo() {
    assert_eq!(asked(is_inside_work_tree(&[], 0)), "rev-parse --is-inside-work-tree");
    assert!(done(is_inside_work_tree(&[reply(0, "true\n", "")], 0)).unwrap());
    let outside = reply(128, "", "fatal: not a git repository\n");
    assert!(!done(is_inside_work_tree(&[outside], 0)).unwrap());
    assert!(!done(is_inside_work_tree(&[reply(0, "false\n", "")], 0)).unwrap());
}

#[test]
fn the_outputs_of_git_are_combined() {
    assert!(result(0, "", "").ok());
    assert!(!result(1, "", "").ok());
    assert_eq!(result(0, "a\n\n", " \n").combined(), "a");
    assert_eq!(result(0, "a \n", "b\n").combined(), "a\nb");
}

#[test]
fn remotes_and_roots() {
    assert_eq!(asked(safe_repo_root(&[], 0)), "rev-parse --show-toplevel");
    assert_eq!(
        done(safe_repo_root(&[reply(0, "/r\n", "")], 0)).unwrap(),
        Some("/r".to_string())
    );
    assert_eq!(done(safe_repo_root(&[reply(0, "\n", "")], 0)).unwrap(), None);
    assert_eq!(done(safe_repo_root(&[reply(1, "/r\n", "")], 0)).unwrap(), None);
    assert!(done(has_origin_remote(&[reply(0, "u\n", "")], 0)).unwrap());
    assert!(!done(has_origin_remote(&[reply(2, "", "")], 0)).unwrap());
    assert_eq!(asked(get_remote_url(&[], 0)), "remote get-url origin");
    assert_eq!(
        done(get_remote_url(&[reply(0, "git@h:x\n", "")], 0)).unwrap(),
        Some("git@h:x".to_string())
    );
    assert_eq!(done(get_remote_url(&[reply(0, " ", "")], 0)).unwrap(), Some(String::new()));
    assert_eq!(done(get_remote_url(&[reply(2, "x", "")], 0)).unwrap(), None);
}

#[test]
fn branches() {
    assert_eq!(
        done(current_branch(&[reply(0, "dev\n", "")], 0)).unwrap(),
        Some("dev".to_string())
    );
    assert_eq!(done(current_branch(&[reply(0, "HEAD\n", "")], 0)).unwrap(), None);
    assert_eq!(done(current_branch(&[reply(128, "dev\n", "")], 0)).unwrap(), None);
    let (primary, commands) =
        talk(|r| primary_branch(r, 0), vec![reply(0, "origin/stable\n", "")]);
    assert_eq!(primary.unwrap(), "stable");
    assert_eq!(lines(&commands), vec!["symbolic-ref --short refs/remotes/origin/HEAD"]);
    let (primary, commands) = talk(
        |r| primary_branch(r, 0),
        vec![reply(1, "", ""), reply(1, "", ""), reply(1, "", ""), reply(0, "", "")],
    );
    assert_eq!(primary.unwrap(), "trunk");
    assert_eq!(commands[3].args.join(" "), "show-ref --verify --quiet refs/heads/trunk");
    let none = vec![reply(1, "", ""), reply(1, "", ""), reply(1, "", ""), reply(1, "", ""), reply(1, "", "")];
    assert_eq!(talk(|r| primary_branch(r, 0), none).0.unwrap(), "main");
}

#[test]
fn counts_and_the_last_commit() {
    assert_eq!(done(stash_count(&[reply(0, "stash@{0}: x\nstash@{1}: y\n", "")], 0)).unwrap(), 2);
    assert_eq!(asked(last_commit(&[], 0)), "log -1 --pretty=%h %s --no-color");
    assert_eq!(done(last_commit(&[reply(0, "abc init\n", "")], 0)).unwrap(), "abc init");
    assert_eq!(done(last_commit(&[reply(128, "", "x")], 0)).unwrap(), "(no commits)");
}

#[test]
fn the_author_of_commits() {
    let list = env();
    assert_eq!(list[0], ("GIT_AUTHOR_NAME".to_string(), "Airlock Bot".to_string()));
    assert_eq!(list[1], ("GIT_AUTHOR_EMAIL".to_string(), "me@example.com".to_string()));
    assert_eq!(list[2], ("GIT_COMMITTER_NAME".to_string(), "Airlock Bot".to_string()));
    assert_eq!(
        list[3],
        ("GIT_COMMITTER_EMAIL".to_string(), "airlock@phenoforge.local".to_string())
    );
}

#[test]
fn committing_everything() {
    let (made, commands) = talk(
        |r| commit_all("a message", &env(), r, 0),
        vec![reply(0, "", ""), reply(1, "", ""), reply(0, "", "")],
    );
    assert_eq!(made, Ok(true));
    assert_eq!(
        lines(&commands),
        vec!["add -A", "diff --cached --quiet", "commit -m a message --no-verify"]
    );
    assert_eq!(commands[2].env, env());
    assert!(commands[0].env.is_empty());
    let nothing_staged = vec![reply(0, "", ""), reply(0, "", "")];
    assert_eq!(talk(|r| commit_all("m", &env(), r, 0), nothing_staged).0, Ok(false));
    assert_eq!(talk(|r| commit_all("m", &env(), r, 0), vec![reply(1, "", "")]).0, Ok(false));
    let hook = vec![reply(0, "", ""), reply(1, "", ""), reply(1, "", "")];
    assert_eq!(talk(|r| commit_all("m", &env(), r, 0), hook).0, Ok(false));
}

#[test]
fn making_a_branch() {
    let (made, commands) = talk(|r| create_branch_at_head("wip/x", r, 0), vec![reply(0, "", "")]);
    assert_eq!(made, Ok(()));
    assert_eq!(lines(&commands), vec!["branch wip/x HEAD"]);
    let (made, _) = talk(|r| create_branch_at_head("wip/x", r, 0), vec![reply(128, "", "fatal: no\n")]);
    assert_eq!(made, Err("could not create branch wip/x: \nfatal: no".to_string()));
}

#[test]
fn a_push_that_goes_through() {
    let (r, commands) =
        talk(|r| try_push_or_snapshot("main", "T", r, 0), vec![reply(0, "", "ok\n")]);
    assert_eq!(r.unwrap(), (true, "pushed main".to_string()));
    assert_eq!(lines(&commands), vec!["push --ff-only origin main"]);
}

#[test]
fn a_refused_push_is_kept_as_a_new_branch() {
    let refusal = reply(1, "", " ! [REJECTED] main -> main\n");
    let (r, commands) = talk(
        |r| try_push_or_snapshot("main", "20260717T0100", r, 0),
        vec![refusal, reply(0, "", ""), reply(0, "", "")],
    );
    assert_eq!(
        r.unwrap(),
        (true, "push rejected for main; backup at wip/20260717T0100-abc pushed".to_string())
    );
    assert_eq!(
        lines(&commands),
        vec![
            "push --ff-only origin main",
            "branch wip/20260717T0100-abc HEAD",
            "push --set-upstream origin wip/20260717T0100-abc",
        ]
    );
}

#[test]
fn a_push_without_any_success() {
    let (r, _) = talk(
        |r| try_push_or_snapshot("main", "T", r, 0),
        vec![reply(1, "", "No such remote\n"), reply(1, "", "exists\n")],
    );
    assert_eq!(
        r.unwrap(),
        (false, "failed to create backup branch wip/T-abc: \nexists".to_string())
    );
    let (r, _) = talk(
        |r| try_push_or_snapshot("main", "T", r, 0),
        vec![reply(1, "", "Could not read from remote\n"), reply(0, "", ""), reply(1, "", "no\n")],
    );
    assert_eq!(
        r.unwrap(),
        (false, "backup branch push also failed for wip/T-abc: \nno".to_string())
    );
    let (r, _) = talk(|r| try_push_or_snapshot("main", "T", r, 0), vec![no_git()]);
    assert_eq!(r, Err("git is missing".to_string()));
}

#[test]
fn every_failed_push_is_kept_as_a_new_branch() {
    for said in [
        "",
        "fatal: something else\n",
        "fatal: unable to access 'https://h/x.git/': Could not resolve host: h\n",
        "remote: Permission to x denied to y.\nfatal: The requested URL returned error: 403\n",
        " ! [remote rejected] main -> main (protected branch hook declined)\n",
    ] {
        for code in [1, 128, -1] {
            let (r, commands) = talk(
                |r| try_push_or_snapshot("main", "T", r, 0),
                vec![reply(code, "", said), reply(0, "", ""), reply(0, "", "")],
            );
            assert_eq!(
                r.unwrap(),
                (true, "push rejected for main; backup at wip/T-abc pushed".to_string())
            );
            assert_eq!(
                lines(&commands),
                vec![
                    "push --ff-only origin main",
                    "branch wip/T-abc HEAD",
                    "push --set-upstream origin wip/T-abc",
                ]
            );
        }
    }
}

#[test]
fn every_command_has_its_time_limit() {
    let (_, commands) = talk(
        |r| try_push_or_snapshot("main", "T", r, 0),
        vec![reply(1, "", ""), reply(0, "", ""), reply(0, "", "")],
    );
    let limits: Vec<Option<u64>> = commands.iter().map(|c| c.timeout_secs).collect();
    assert_eq!(limits, vec![Some(60), Some(30), Some(60)]);
    let (_, commands) = talk(
        |r| commit_all("m", &env(), r, 0),
        vec![reply(0, "", ""), reply(1, "", ""), reply(0, "", "")],
    );
    assert!(commands.iter().all(|c| c.timeout_secs == Some(30)));
    assert_eq!(commands[2].env, env());
}

#[test]
fn a_new_branch_is_pushed_with_its_upstream() {
    let (r, commands) =
        talk(|r| push_branch_with_upstream("wip/x", r, 0), vec![reply(0, "done\n", "")]);
    assert_eq!(r.unwrap(), (true, "done".to_string()));
    assert_eq!(lines(&commands), vec!["push --set-upstream origin wip/x"]);
}

#[test]
fn a_stash_is_dropped_after_the_push() {
    let (r, commands) = talk(
        |r| recover_one_stash("stash@{0}", "T", &env(), r, 0),
        vec![
            reply(0, "+a\n+b\n", ""),
            reply(0, "", ""),
            reply(0, "", ""),
            reply(1, "", ""),
            reply(0, "", ""),
            reply(0, "", ""),
            reply(0, "", ""),
            reply(0, "", ""),
        ],
    );
    assert_eq!(
        r.unwrap(),
        (
            true,
            "pushed wip/T-stash-abc and dropped stash@{0}".to_string(),
            Some("wip/T-stash-abc".to_string())
        )
    );
    assert_eq!(
        lines(&commands),
        vec![
            "stash show -p stash@{0}",
            "stash apply stash@{0}",
            "add -A",
            "diff --cached --quiet",
            "commit -m wip: applied stash stash@{0} (T)\n\n2 lines --no-verify",
            "branch wip/T-stash-abc HEAD",
            "push --set-upstream origin wip/T-stash-abc",
            "stash drop stash@{0}",
        ]
    );
}

#[test]
fn a_stash_is_kept_without_a_push() {
    let (r, commands) = talk(
        |r| recover_one_stash("stash@{0}", "T", &env(), r, 0),
        vec![
            reply(0, "", ""),
            reply(0, "", ""),
            reply(0, "", ""),
            reply(1, "", ""),
            reply(0, "", ""),
            reply(0, "", ""),
            reply(1, "", "offline\n"),
        ],
    );
    assert_eq!(
        r.unwrap(),
        (
            false,
            "applied+committed to local wip/T-stash-abc (not pushed): \noffline".to_string(),
            Some("wip/T-stash-abc".to_string())
        )
    );
    assert!(commands.iter().all(|c| c.args[1] != "drop"));
}

#[test]
fn the_ways_in_which_a_stash_is_not_recovered() {
    let recover = |script: Vec<GitReply>| {
        talk(|r| recover_one_stash("s", "T", &env(), r, 0), script).0.unwrap()
    };
    assert_eq!(recover(vec![reply(1, "", "")]), (false, "cannot read s".to_string(), None));
    assert_eq!(
        recover(vec![reply(0, "", ""), reply(1, "", "conflict\n")]),
        (false, "stash apply failed: \nconflict".to_string(), None)
    );
    let branch = Some("wip/T-stash-abc".to_string());
    assert_eq!(
        recover(vec![reply(0, "", ""), reply(0, "", ""), reply(1, "", "")]),
        (false, "could not commit applied stash".to_string(), branch.clone())
    );
    // Nothing is staged: there is nothing to keep.
    assert_eq!(
        recover(vec![reply(0, "", ""), reply(0, "", ""), reply(0, "", ""), reply(0, "", "")]),
        (false, "could not commit applied stash".to_string(), branch.clone())
    );
    let no_branch = vec![
        reply(0, "", ""),
        reply(0, "", ""),
        reply(0, "", ""),
        reply(1, "", ""),
        reply(0, "", ""),
        reply(1, "", ""),
    ];
    assert_eq!(
        recover(no_branch),
        (false, "could not create wip branch from applied stash".to_string(), branch.clone())
    );
    let refused = vec![
        reply(0, "", ""),
        reply(0, "", ""),
        reply(0, "", ""),
        reply(1, "", ""),
        reply(0, "", ""),
        reply(0, "", ""),
        reply(0, "", ""),
        reply(1, "", "busy\n"),
    ];
    assert_eq!(
        recover(refused),
        (true, "pushed wip/T-stash-abc but stash drop refused: \nbusy".to_string(), branch)
    );
}

#[test]
fn the_status_of_a_work_tree() {
    let meta = RepoEntry {
        last_auto_commit: Some("2026-07-17T01:00:00Z".to_string()),
        remote_url: Some(String::new()),
        ..RepoEntry::default()
    };
    let (snapshot, commands) = talk(
        |r| snapshot_repo("/r", &meta, r, 0),
        vec![
            reply(0, "main\n", ""),
            reply(0, "origin/main\n", ""),
            reply(0, " M a\n", ""),
            reply(0, "2\t0\n", ""),
            reply(0, "", ""),
            reply(0, "abc init\n", ""),
        ],
    );
    assert_eq!(
        snapshot.unwrap().render(),
        "[STATUS] /r\n  branch          : main (primary=main)\n  ahead/behind    : 2/0\n  dirty files     : 1\n  stashes         : 0\n  last commit     : abc init\n  last auto-commit: 2026-07-17T01:00:00Z\n  last push       : never\n  remote          : (none)\n"
    );
    assert_eq!(commands.len(), 6);
    let (detached, commands) = talk(
        |r| snapshot_repo("/r", &meta, r, 0),
        vec![
            reply(0, "HEAD\n", ""),
            reply(0, "origin/main\n", ""),
            reply(0, "", ""),
            reply(0, "", ""),
            reply(0, "abc init\n", ""),
        ],
    );
    assert_eq!(detached.unwrap().branch, "(detached)");
    assert!(commands.iter().all(|c| c.args[0] != "rev-list"));
}
