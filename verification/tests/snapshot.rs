use airlock_v2::clock::Stamp;
use airlock_v2::commit::AuthorVars;
use airlock_v2::flow::{GitCommand, GitReply, GitResult, Step};
use airlock_v2::git_ops::{ensure_clean_author_env, push_branch_with_upstream};
use airlock_v2::snapshot::{create_snapshot_commit, verify_pushed_snapshot, SnapshotCommit};

/// A repository in memory, with one commit on `main`, a work tree that differs from it, and a
/// bare remote. It knows the commands of a snapshot.
struct Repo {
    head: String,
    /// The files of the head.
    committed: Vec<(String, String)>,
    /// The files of the work tree.
    files: Vec<(String, String)>,
    /// What is staged in the index of the user.
    index: Vec<(String, String)>,
    /// What is staged in the index that `GIT_INDEX_FILE` names.
    other_index: Vec<(String, String)>,
    refs: Vec<(String, String)>,
    remote: Vec<(String, String)>,
    parents: Vec<(String, String)>,
    trees: Vec<(String, Vec<(String, String)>)>,
}

fn file(name: &str, text: &str) -> (String, String) {
    (name.to_string(), text.to_string())
}

impl Repo {
    fn new() -> Repo {
        let before = vec![file("tracked.txt", "before\n")];
        Repo {
            head: "c0".to_string(),
            committed: before.clone(),
            files: before.clone(),
            index: before.clone(),
            other_index: Vec::new(),
            refs: vec![file("refs/heads/main", "c0")],
            remote: vec![file("refs/heads/main", "c0")],
            parents: Vec::new(),
            trees: vec![("c0".to_string(), before)],
        }
    }

    fn find(list: &[(String, String)], name: &str) -> Option<String> {
        list.iter().find(|e| e.0 == name).map(|e| e.1.clone())
    }

    fn tree(&self, commit: &str) -> Vec<(String, String)> {
        self.trees.iter().find(|t| t.0 == commit).unwrap().1.clone()
    }

    /// The names of the files that differ between two commits.
    fn changed(&self, a: &str, b: &str) -> Vec<String> {
        let (a, b) = (self.tree(a), self.tree(b));
        b.iter().filter(|f| !a.contains(f)).map(|f| f.0.clone()).collect()
    }

    /// `git status --porcelain` for the user.
    fn status(&self) -> String {
        let mut out = String::new();
        for f in &self.files {
            if Repo::find(&self.index, &f.0).is_none() {
                out.push_str(&format!("?? {}\n", f.0));
            } else if !self.index.contains(f) {
                out.push_str(&format!(" M {}\n", f.0));
            }
        }
        out
    }

    fn run(&mut self, c: &GitCommand) -> GitResult {
        let other = c.env.iter().any(|v| v.0 == "GIT_INDEX_FILE" && v.1 == "/tmp/idx/index");
        let args: Vec<&str> = c.args.iter().map(|a| a.as_str()).collect();
        let (code, out) = match args.as_slice() {
            ["rev-parse", "--verify", "HEAD"] => (0, self.head.clone()),
            ["read-tree", "HEAD"] => {
                assert!(other);
                self.other_index = self.committed.clone();
                (0, String::new())
            }
            ["add", "-A"] => {
                assert!(other);
                self.other_index = self.files.clone();
                (0, String::new())
            }
            ["write-tree"] => {
                assert!(other);
                (0, format!("{:?}", self.other_index))
            }
            ["rev-parse", "HEAD^{tree}"] => (0, format!("{:?}", self.committed)),
            ["commit-tree", tree, "-p", parent, "-m", message] => {
                assert!(other);
                assert_eq!(*tree, format!("{:?}", self.other_index));
                assert_eq!(*message, "test snapshot");
                self.parents.push(file("c1", parent));
                self.trees.push(("c1".to_string(), self.other_index.clone()));
                (0, "c1\n".to_string())
            }
            ["update-ref", name, commit, old] => {
                assert_eq!(*old, "0000000000000000000000000000000000000000");
                assert!(!other);
                match Repo::find(&self.refs, name) {
                    Some(_) => (128, String::new()),
                    None => {
                        self.refs.push(file(name, commit));
                        (0, String::new())
                    }
                }
            }
            ["rev-parse", "--verify", "c1^"] => (0, Repo::find(&self.parents, "c1").unwrap()),
            ["rev-parse", "--verify", name] => match Repo::find(&self.refs, name) {
                Some(commit) => (0, commit),
                None => (128, String::new()),
            },
            ["push", "--set-upstream", "origin", branch] => {
                let name = format!("refs/heads/{branch}");
                let commit = Repo::find(&self.refs, &name).unwrap();
                self.remote.push((name, commit));
                (0, "pushed\n".to_string())
            }
            ["ls-remote", "--heads", "origin", name] => {
                (0, format!("{}\t{}\n", Repo::find(&self.remote, name).unwrap(), name))
            }
            ["diff", "--quiet", a, b] => {
                (if self.changed(a, b).is_empty() { 0 } else { 1 }, String::new())
            }
            other => panic!("unexpected command {other:?}"),
        };
        GitResult { stdout: out, stderr: String::new(), code }
    }

    fn talk<T>(&mut self, conversation: impl Fn(&[GitReply]) -> Step<T>) -> Result<T, String> {
        let mut replies: Vec<GitReply> = Vec::new();
        loop {
            match conversation(&replies) {
                Step::Run(c) => {
                    let outcome = Ok(self.run(&c));
                    replies.push(GitReply { outcome, at: Stamp::at(0, 0) });
                }
                Step::Done(r, _) => return r,
            }
        }
    }
}

fn env() -> Vec<(String, String)> {
    ensure_clean_author_env(&AuthorVars {
        author_name: None,
        author_email: None,
        committer_name: None,
        committer_email: None,
    })
}

fn take(repo: &mut Repo) -> Result<Option<SnapshotCommit>, String> {
    repo.talk(|r| {
        create_snapshot_commit(
            "wip/test-dirty",
            Some("test snapshot"),
            "/tmp/idx/index",
            &env(),
            r,
            0,
        )
    })
}

fn captures_the_dirty_delta() {
    let mut repo = Repo::new();
    let head = repo.head.clone();
    repo.files = vec![file("tracked.txt", "after\n"), file("untracked.txt", "preserve me\n")];
    let snapshot = take(&mut repo).unwrap().unwrap();
    assert_ne!(snapshot.commit, head);
    assert_eq!(snapshot.head, head);

    let local_tip = Repo::find(&repo.refs, "refs/heads/wip/test-dirty").unwrap();
    assert_eq!(local_tip, snapshot.commit);
    let parent = Repo::find(&repo.parents, &local_tip).unwrap();
    assert_eq!(parent, head);
    let files = repo.changed(&head, &snapshot.commit);
    assert!(files.iter().any(|path| path == "tracked.txt"), "{files:?}");
    assert!(files.iter().any(|path| path == "untracked.txt"), "{files:?}");

    let branch = snapshot.branch.clone();
    let (pushed, detail) = repo.talk(|r| push_branch_with_upstream(&branch, r, 0)).unwrap();
    assert!(pushed, "snapshot push failed: {detail}");
    repo.talk(|r| verify_pushed_snapshot(&snapshot, r, 0)).unwrap();
    let remote_tip = Repo::find(&repo.remote, "refs/heads/wip/test-dirty").unwrap();
    assert_eq!(remote_tip, snapshot.commit);

    let status = repo.status();
    assert!(status.contains(" M tracked.txt"), "snapshot changed the caller index: {status}");
    assert!(status.contains("?? untracked.txt"), "snapshot lost untracked work: {status}");
}

#[test]
fn cli_snapshot_commit_captures_tracked_and_untracked_dirty_delta() {
    captures_the_dirty_delta();
}

#[test]
fn snapshot_snapshot_commit_captures_tracked_and_untracked_dirty_delta() {
    captures_the_dirty_delta();
}

#[test]
fn a_clean_work_tree_gives_no_snapshot() {
    let mut repo = Repo::new();
    assert_eq!(take(&mut repo), Ok(None));
    assert_eq!(repo.refs.len(), 1);
}

#[test]
fn a_snapshot_never_moves_a_branch() {
    let mut repo = Repo::new();
    repo.files = vec![file("tracked.txt", "after\n")];
    repo.refs.push(file("refs/heads/wip/test-dirty", "c0"));
    let why = take(&mut repo).unwrap_err();
    assert_eq!(why, "create new local snapshot ref: ");
}

fn reply(code: i32, out: &str) -> GitReply {
    GitReply {
        outcome: Ok(GitResult { stdout: out.to_string(), stderr: String::new(), code }),
        at: Stamp::at(0, 0),
    }
}

fn failure<T>(step: Step<T>) -> String {
    match step {
        Step::Done(Err(why), _) => why,
        _ => panic!("no failure"),
    }
}

#[test]
fn the_errors_of_a_snapshot() {
    let run = |replies: &[GitReply]| {
        failure(create_snapshot_commit("wip/b", None, "/i", &env(), replies, 0))
    };
    assert_eq!(run(&[reply(128, "x")]), "read git value: x");
    assert_eq!(run(&[reply(0, " \n")]), "read git value: git returned no value");
    assert_eq!(run(&[reply(0, "h"), reply(1, "x")]), "initialize snapshot index: x");
    assert_eq!(
        run(&[reply(0, "h"), reply(0, ""), reply(1, "x")]),
        "stage working tree in snapshot index: x"
    );
    assert_eq!(
        run(&[reply(0, "h"), reply(0, ""), reply(0, ""), reply(1, "x")]),
        "write snapshot tree: x"
    );
    let dirty =
        || vec![reply(0, "h"), reply(0, ""), reply(0, ""), reply(0, "t1"), reply(0, "t0")];
    let with = |more: Vec<GitReply>| {
        let mut list = dirty();
        list.extend(more);
        run(&list)
    };
    assert_eq!(with(vec![reply(1, "x")]), "create snapshot commit: x");
    assert_eq!(with(vec![reply(0, "c"), reply(1, "x")]), "create new local snapshot ref: x");
    assert_eq!(
        with(vec![reply(0, "c"), reply(0, ""), reply(0, "d")]),
        "snapshot ref refs/heads/wip/b does not point at the generated commit"
    );
    assert_eq!(
        with(vec![reply(0, "c"), reply(0, ""), reply(0, "c"), reply(0, "g")]),
        "snapshot commit c is not parented to HEAD h"
    );
    match create_snapshot_commit("wip/b", None, "/i", &env(), &dirty(), 0) {
        Step::Run(c) => {
            assert_eq!(c.args[5], "wip: airlock snapshot wip/b");
            assert_eq!(c.env[0], file("GIT_INDEX_FILE", "/i"));
            assert_eq!(c.env.len(), 5);
        }
        _ => unreachable!(),
    }
}

#[test]
fn a_push_is_checked() {
    let snapshot = SnapshotCommit {
        branch: "wip/b".to_string(),
        head: "h".to_string(),
        commit: "c".to_string(),
    };
    let run = |replies: &[GitReply]| failure(verify_pushed_snapshot(&snapshot, replies, 0));
    assert_eq!(run(&[reply(1, "x")]), "verify pushed snapshot wip/b: x");
    assert_eq!(run(&[reply(0, "\n")]), "remote did not advertise the pushed snapshot ref");
    assert_eq!(
        run(&[reply(0, "d\trefs/heads/wip/b\n")]),
        "remote snapshot ref refs/heads/wip/b points at d, expected c"
    );
    assert_eq!(
        run(&[reply(0, "c\tx\n"), reply(0, "")]),
        "snapshot wip/b has no dirty delta from HEAD"
    );
    assert_eq!(
        run(&[reply(0, "c\tx\n"), reply(128, "bad")]),
        "could not verify snapshot delta: bad"
    );
    assert!(matches!(
        verify_pushed_snapshot(&snapshot, &[reply(0, "c\tx\n"), reply(1, "")], 0),
        Step::Done(Ok(()), 2)
    ));
}
