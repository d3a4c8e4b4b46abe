//! What each conversation with git asks for, word by word, and what it makes of the replies.
use crate::clock;
use crate::commit;
use crate::commit::AuthorVars;
use crate::flow::{Command, Flow, GitReply, GitResult};
use crate::git_ops;
use crate::push;
use crate::snapshot;
use crate::snapshot::SnapshotCommitView;
use crate::stash;
use crate::text;
use crate::text_laws;
use vstd::prelude::*;

verus! {

/// A command with thirty seconds and nothing added to its environment.
pub open spec fn cmd(args: Seq<Seq<char>>) -> Command {
    Command { args, env: Seq::empty(), timeout_secs: Some(30) }
}

/// A command with a minute and nothing added to its environment.
pub open spec fn slow(args: Seq<Seq<char>>) -> Command {
    Command { args, env: Seq::empty(), timeout_secs: Some(60) }
}

/// A command with thirty seconds and variables added to its environment.
pub open spec fn with(args: Seq<Seq<char>>, env: Seq<(Seq<char>, Seq<char>)>) -> Command {
    Command { args, env, timeout_secs: Some(30) }
}

/// Whether git ran and ended with code zero.
pub open spec fn fine(reply: GitReply) -> bool {
    reply.outcome matches Ok(r) && r.code == 0
}

/// Whether git ran and ended with another code.
pub open spec fn bad(reply: GitReply) -> bool {
    reply.outcome matches Ok(r) && r.code != 0
}

/// What git wrote on its standard output.
pub open spec fn said(reply: GitReply) -> Seq<char> {
    reply.outcome->Ok_0.stdout@
}

/// What git wrote on both outputs, as one text.
pub open spec fn told(reply: GitReply) -> Seq<char> {
    reply.outcome->Ok_0.output()
}

/// Whether a conversation asks for `c` first, and ends with the reason where git cannot be run.
pub open spec fn asks_first<T>(f: Flow<T>, c: Command, replies: Seq<GitReply>, i: int) -> bool {
    &&& i >= replies.len() ==> f == Flow::<T>::Run(c)
    &&& i < replies.len() ==> (replies[i].outcome matches Err(why) ==> f == Flow::<T>::Done(
        Err(why@),
        i + 1,
    ))
}

/// Both outputs are kept, without the white space at their ends: the standard output, and after a
/// line feed the error output, unless that is blank.
pub proof fn law_output(r: GitResult)
    ensures
        r.succeeded() <==> r.code == 0,
        text_laws::all_white(r.stderr@) ==> text_laws::cut_at_end(r.stdout@, r.output()),
        !text_laws::all_white(r.stderr@) ==> exists|out: Seq<char>, err: Seq<char>|
            r.output() == #[trigger] (out + "\n"@ + err) && text_laws::cut_at_end(r.stdout@, out)
                && text_laws::cut_at_end(r.stderr@, err),
{
    text_laws::law_blank(r.stderr@);
    let out = text::trimmed_end(r.stdout@);
    let err = text::trimmed_end(r.stderr@);
    text_laws::law_trim_end(r.stdout@, out);
    text_laws::law_trim_end(r.stderr@, err);
    if !text_laws::all_white(r.stderr@) {
        assert(r.output() == out + "\n"@ + err);
    }
}

/// The work tree's root is what git prints for it, without the white space round it; there is none
/// where git fails or prints nothing but white space.
pub proof fn law_repo_root(replies: Seq<GitReply>, i: int)
    requires
        0 <= i,
    ensures
        ({
            let f = git_ops::safe_repo_root_flow(replies, i);
            &&& asks_first(f, cmd(seq!["rev-parse"@, "--show-toplevel"@]), replies, i)
            &&& i < replies.len() && replies[i].outcome is Ok ==> (f matches Flow::Done(Ok(root), n)
                && n == i + 1 && forall|value: Seq<char>|
                root == Some(value) <==> fine(replies[i]) && value.len() > 0
                    && #[trigger] text_laws::framed(said(replies[i]), value))
        }),
{
    if i < replies.len() && replies[i].outcome is Ok {
        let out = said(replies[i]);
        assert forall|value: Seq<char>| #[trigger] text_laws::framed(out, value) <==> value
            == text::trimmed(out) by {
            text_laws::law_trim(out, value);
        }
    }
}

/// Git is inside a work tree if and only if it succeeds and prints `true`.
pub proof fn law_inside_work_tree(replies: Seq<GitReply>, i: int)
    requires
        0 <= i,
    ensures
        ({
            let f = git_ops::is_inside_work_tree_flow(replies, i);
            &&& asks_first(f, cmd(seq!["rev-parse"@, "--is-inside-work-tree"@]), replies, i)
            &&& i < replies.len() && replies[i].outcome is Ok ==> (f matches Flow::Done(Ok(r), n) && n
                == i + 1 && (r <==> fine(replies[i]) && text_laws::framed(
                said(replies[i]),
                "true"@,
            )))
        }),
{
    if i < replies.len() && replies[i].outcome is Ok {
        text_laws::law_trim(said(replies[i]), "true"@);
    }
}

/// A remote `origin` is set up if and only if git succeeds and prints more than white space for
/// it; its URL is what git prints, without the white space round it, and there is none where git
/// fails.
pub proof fn law_origin(replies: Seq<GitReply>, i: int)
    requires
        0 <= i,
    ensures
        ({
            let f = git_ops::has_origin_remote_flow(replies, i);
            let g = git_ops::get_remote_url_flow(replies, i);
            &&& asks_first(f, cmd(seq!["remote"@, "get-url"@, "origin"@]), replies, i)
            &&& asks_first(g, cmd(seq!["remote"@, "get-url"@, "origin"@]), replies, i)
            &&& i < replies.len() && replies[i].outcome is Ok ==> {
                &&& f matches Flow::Done(Ok(r), n) && n == i + 1 && (r <==> fine(replies[i])
                    && !text_laws::all_white(said(replies[i])))
                &&& g matches Flow::Done(Ok(url), n) && n == i + 1 && forall|value: Seq<char>|
                    url == Some(value) <==> fine(replies[i]) && #[trigger] text_laws::framed(
                        said(replies[i]),
                        value,
                    )
            }
        }),
{
    if i < replies.len() && replies[i].outcome is Ok {
        let out = said(replies[i]);
        text_laws::law_blank(out);
        assert forall|value: Seq<char>| #[trigger] text_laws::framed(out, value) <==> value
            == text::trimmed(out) by {
            text_laws::law_trim(out, value);
        }
    }
}

/// The branch that is checked out is exactly what git prints for the head, without the white space
/// round it. There is none where git fails, prints nothing but white space, or prints `HEAD`.
pub proof fn law_current_branch(replies: Seq<GitReply>, i: int)
    requires
        0 <= i,
    ensures
        ({
            let f = git_ops::current_branch_flow(replies, i);
            &&& asks_first(f, cmd(seq!["rev-parse"@, "--abbrev-ref"@, "HEAD"@]), replies, i)
            &&& i < replies.len() && replies[i].outcome is Ok ==> (f matches Flow::Done(Ok(named), n)
                && n == i + 1 && forall|branch: Seq<char>|
                named == Some(branch) <==> fine(replies[i]) && branch.len() > 0 && branch
                    != "HEAD"@ && #[trigger] text_laws::framed(said(replies[i]), branch))
        }),
{
    if i < replies.len() && replies[i].outcome is Ok {
        let out = said(replies[i]);
        assert forall|value: Seq<char>| #[trigger] text_laws::framed(out, value) <==> value
            == text::trimmed(out) by {
            text_laws::law_trim(out, value);
        }
    }
}

/// The usual names of a primary branch, in the order in which they are tried.
pub open spec fn usual(k: int) -> Seq<char> {
    if k == 0 {
        "main"@
    } else if k == 1 {
        "master"@
    } else if k == 2 {
        "trunk"@
    } else {
        "develop"@
    }
}

/// Whether git names no head of `origin`.
pub open spec fn no_remote_head(reply: GitReply) -> bool {
    reply.outcome matches Ok(r) && (r.code != 0 || text_laws::all_white(r.stdout@))
}

/// The primary branch is the last part of what git names as the head of `origin`.
pub proof fn law_primary_of_origin(
    replies: Seq<GitReply>,
    i: int,
    before: Seq<char>,
    last: Seq<char>,
)
    requires
        0 <= i,
        !text_laws::occurs('/', last),
    ensures
        ({
            let f = git_ops::primary_branch_flow(replies, i);
            &&& asks_first(
                f,
                cmd(seq!["symbolic-ref"@, "--short"@, "refs/remotes/origin/HEAD"@]),
                replies,
                i,
            )
            &&& i < replies.len() && fine(replies[i]) && !text_laws::all_white(said(replies[i])) && (
            text_laws::framed(said(replies[i]), last) || text_laws::framed(
                said(replies[i]),
                before + seq!['/'] + last,
            )) ==> f == Flow::<Seq<char>>::Done(Ok(last), i + 1)
        }),
{
    if i < replies.len() && fine(replies[i]) {
        let out = said(replies[i]);
        text_laws::law_blank(out);
        text_laws::law_trim(out, last);
        text_laws::law_trim(out, before + seq!['/'] + last);
        text_laws::law_after_last(before, '/', last);
    }
}

/// Where git names no head of `origin`, the usual names are tried in turn: the first that is a
/// local branch is the primary one, and `main` where none is.
pub proof fn law_primary_among_usual(replies: Seq<GitReply>, i: int, k: int)
    requires
        0 <= i < replies.len(),
        no_remote_head(replies[i]),
        0 <= k <= 4,
        i + k < replies.len(),
        forall|j: int| 0 <= j < k ==> bad(#[trigger] replies[i + 1 + j]),
    ensures
        ({
            let f = git_ops::primary_branch_flow(replies, i);
            if k == 4 {
                f == Flow::<Seq<char>>::Done(Ok("main"@), i + 5)
            } else {
                &&& asks_first(
                    f,
                    cmd(seq!["show-ref"@, "--verify"@, "--quiet"@, "refs/heads/"@ + usual(k)]),
                    replies,
                    i + 1 + k,
                )
                &&& i + 1 + k < replies.len() && fine(replies[i + 1 + k]) ==> f == Flow::<
                    Seq<char>,
                >::Done(Ok(usual(k)), i + 2 + k)
            }
        }),
{
    text_laws::law_blank(said(replies[i]));
    reveal_with_fuel(git_ops::primary_among_flow, 5);
    assert(k > 0 ==> bad(replies[i + 1 + 0]));
    assert(k > 1 ==> bad(replies[i + 1 + 1]));
    assert(k > 2 ==> bad(replies[i + 1 + 2]));
    assert(k > 3 ==> bad(replies[i + 1 + 3]));
    assert(git_ops::primary_candidates()[0] == "main"@);
    assert(git_ops::primary_candidates()[1] == "master"@);
    assert(git_ops::primary_candidates()[2] == "trunk"@);
    assert(git_ops::primary_candidates()[3] == "develop"@);
}

/// As many changes, and as many stashes, are counted as git prints lines with more than white
/// space, and none where git fails. So nothing is counted exactly where nothing is printed.
pub proof fn law_changes_and_stashes(replies: Seq<GitReply>, i: int)
    requires
        0 <= i,
        i < replies.len() && replies[i].outcome is Ok ==> said(replies[i]).len() <= usize::MAX,
    ensures
        ({
            let f = git_ops::dirty_count_flow(replies, i);
            let g = git_ops::stash_count_flow(replies, i);
            &&& asks_first(f, cmd(seq!["status"@, "--porcelain"@]), replies, i)
            &&& asks_first(g, cmd(seq!["stash"@, "list"@]), replies, i)
            &&& i < replies.len() && replies[i].outcome is Ok ==> {
                &&& g == f
                &&& f matches Flow::Done(Ok(count), n) && n == i + 1 && (fine(replies[i]) ==> count
                    == text::filled_lines(said(replies[i])).len() && (count == 0
                    <==> text_laws::all_white(said(replies[i])))) && (bad(replies[i]) ==> count
                    == 0)
            }
        }),
{
    if i < replies.len() && replies[i].outcome is Ok {
        text_laws::law_filled_lines_of_any_text(said(replies[i]));
    }
}

/// The commits on `branch` alone are counted first, then those on `origin/<branch>` alone; whatever
/// the two numbers are that git prints, they are taken as they are. Where git fails there are none.
pub proof fn law_ahead_behind(
    branch: Seq<char>,
    replies: Seq<GitReply>,
    i: int,
    ahead: usize,
    behind: usize,
)
    requires
        0 <= i,
    ensures
        ({
            let f = git_ops::ahead_behind_flow(branch, replies, i);
            &&& asks_first(
                f,
                cmd(
                    seq![
                        "rev-list"@,
                        "--left-right"@,
                        "--count"@,
                        branch + "...origin/"@ + branch,
                    ],
                ),
                replies,
                i,
            )
            &&& i < replies.len() && bad(replies[i]) ==> f == Flow::<(usize, usize)>::Done(
                Ok((0usize, 0usize)),
                i + 1,
            )
            &&& i < replies.len() && fine(replies[i]) && said(replies[i]) == text::decimal(
                ahead as int,
            ) + "\t"@ + text::decimal(behind as int) + "\n"@ ==> f == Flow::<(usize, usize)>::Done(
                Ok((ahead, behind)),
                i + 1,
            )
        }),
{
    let a = text::decimal(ahead as int);
    let b = text::decimal(behind as int);
    text_laws::law_counts_read_back(ahead as nat);
    text_laws::law_counts_read_back(behind as nat);
    text_laws::law_numerals(ahead as nat, 10);
    text_laws::law_numerals(behind as nat, 10);
    reveal_strlit("\t");
    reveal_strlit("\n");
    let out = a + "\t"@ + b + "\n"@;
    let none = Seq::<char>::empty();
    text_laws::law_words(none, a, "\t"@ + b + "\n"@);
    text_laws::law_words("\t"@, b, "\n"@);
    text_laws::law_words("\n"@, b, none);
    assert(none + a + ("\t"@ + b + "\n"@) =~= out);
    assert(text::words_of("\t"@ + b + "\n"@) =~= seq![b]);
    assert(text::words_of(out) =~= seq![a, b]);
}

/// The two counts are the first two words that git prints. Where git prints no number in the place
/// of a count, or one that does not fit, that count is zero.
pub proof fn law_counts_as_printed(branch: Seq<char>, replies: Seq<GitReply>, i: int)
    requires
        0 <= i < replies.len(),
        fine(replies[i]),
    ensures
        git_ops::ahead_behind_flow(branch, replies, i) matches Flow::Done(Ok((ahead, behind)), n) && n
            == i + 1 && ({
            let words = text::words_of(said(replies[i]));
            &&& words.len() == 0 || text::parsed(words[0]) is None ==> ahead == 0
            &&& words.len() < 2 || text::parsed(words[1]) is None ==> behind == 0
            &&& words.len() > 0 ==> (text::parsed(words[0]) matches Some(m) ==> ahead == if m
                <= usize::MAX {
                m as int
            } else {
                0
            })
            &&& words.len() > 1 ==> (text::parsed(words[1]) matches Some(m) ==> behind == if m
                <= usize::MAX {
                m as int
            } else {
                0
            })
        }),
{
}

/// The last commit is what git prints of it, without the white space round it; a fixed text stands
/// in its place where git fails.
pub proof fn law_last_commit(replies: Seq<GitReply>, i: int)
    requires
        0 <= i,
    ensures
        ({
            let f = git_ops::last_commit_flow(replies, i);
            &&& asks_first(
                f,
                cmd(seq!["log"@, "-1"@, "--pretty=%h %s"@, "--no-color"@]),
                replies,
                i,
            )
            &&& i < replies.len() && bad(replies[i]) ==> f == Flow::<Seq<char>>::Done(
                Ok("(no commits)"@),
                i + 1,
            )
            &&& i < replies.len() && fine(replies[i]) ==> (f matches Flow::Done(Ok(line), n) && n == i
                + 1 && text_laws::framed(said(replies[i]), line))
        }),
{
    if i < replies.len() && fine(replies[i]) {
        text_laws::law_trim(said(replies[i]), text::trimmed(said(replies[i])));
    }
}

/// A commit is made by the engine, under its own name, except for what the caller has set.
pub proof fn law_author(vars: AuthorVars)
    ensures
        ({
            let env = commit::author_env(vars);
            &&& env.len() == 4
            &&& env[0].0 == "GIT_AUTHOR_NAME"@
            &&& env[1].0 == "GIT_AUTHOR_EMAIL"@
            &&& env[2].0 == "GIT_COMMITTER_NAME"@
            &&& env[3].0 == "GIT_COMMITTER_EMAIL"@
            &&& vars.author_name matches Some(name) ==> env[0].1 == name@
            &&& vars.author_email matches Some(mail) ==> env[1].1 == mail@
            &&& vars.committer_name matches Some(name) ==> env[2].1 == name@
            &&& vars.committer_email matches Some(mail) ==> env[3].1 == mail@
            &&& vars.author_name is None ==> env[0].1 == "Airlock Bot"@
            &&& vars.author_email is None ==> env[1].1 == "airlock@phenoforge.local"@
            &&& vars.committer_name is None ==> env[2].1 == "Airlock Bot"@
            &&& vars.committer_email is None ==> env[3].1 == "airlock@phenoforge.local"@
        }),
{
}

/// Everything is staged; where that goes well it is asked whether anything is staged; and where
/// something is, it is committed with the given message and author. A commit was made if and only
/// if all three steps came to that.
pub proof fn law_commit_all(
    message: Seq<char>,
    env: Seq<(Seq<char>, Seq<char>)>,
    replies: Seq<GitReply>,
    i: int,
)
    requires
        0 <= i,
    ensures
        ({
            let f = commit::commit_all_flow(message, env, replies, i);
            let staged = i < replies.len() && fine(replies[i]);
            let differs = staged && i + 1 < replies.len() && bad(replies[i + 1]);
            &&& asks_first(f, cmd(seq!["add"@, "-A"@]), replies, i)
            &&& staged ==> asks_first(
                f,
                cmd(seq!["diff"@, "--cached"@, "--quiet"@]),
                replies,
                i + 1,
            )
            &&& differs ==> asks_first(
                f,
                with(seq!["commit"@, "-m"@, message, "--no-verify"@], env),
                replies,
                i + 2,
            )
            &&& f matches Flow::Done(Ok(made), n) ==> (made <==> differs && i + 2 < replies.len()
                && fine(replies[i + 2])) && i < n <= i + 3
            &&& i < replies.len() && bad(replies[i]) ==> f == Flow::<bool>::Done(Ok(false), i + 1)
            &&& staged && i + 1 < replies.len() && fine(replies[i + 1]) ==> f == Flow::<bool>::Done(
                Ok(false),
                i + 2,
            )
            &&& differs && i + 2 < replies.len() && replies[i + 2].outcome is Ok ==> f == Flow::<
                bool,
            >::Done(Ok(fine(replies[i + 2])), i + 3)
        }),
{
}

/// A branch is made at the head, under exactly the given name. It is an error where git fails.
pub proof fn law_new_branch(name: Seq<char>, replies: Seq<GitReply>, i: int)
    requires
        0 <= i,
    ensures
        ({
            let f = commit::create_branch_at_head_flow(name, replies, i);
            &&& asks_first(f, cmd(seq!["branch"@, name, "HEAD"@]), replies, i)
            &&& i < replies.len() && fine(replies[i]) ==> f == Flow::<()>::Done(Ok(()), i + 1)
            &&& i < replies.len() && bad(replies[i]) ==> f == Flow::<()>::Done(
                Err("could not create branch "@ + name + ": "@ + told(replies[i])),
                i + 1,
            )
        }),
{
}

/// Both kinds of push name `origin` and the branch, have a minute, and tell whether git did it and
/// what it printed.
pub proof fn law_pushes(branch: Seq<char>, replies: Seq<GitReply>, i: int)
    requires
        0 <= i,
    ensures
        ({
            let f = push::push_branch_ff_only_flow(branch, replies, i);
            let g = push::push_branch_with_upstream_flow(branch, replies, i);
            &&& asks_first(f, slow(seq!["push"@, "--ff-only"@, "origin"@, branch]), replies, i)
            &&& asks_first(g, slow(seq!["push"@, "--set-upstream"@, "origin"@, branch]), replies, i)
            &&& i < replies.len() && replies[i].outcome is Ok ==> f == Flow::<
                (bool, Seq<char>),
            >::Done(Ok((fine(replies[i]), told(replies[i]))), i + 1) && g == f
        }),
{
}

/// A branch is pushed by fast-forward. Where that fails, a new branch is made at the head, named
/// after the given day and minute and after the moment of the failure, and that is pushed. The
/// result tells whether one of the two pushes went through, and which.
pub proof fn law_push_or_keep(
    branch: Seq<char>,
    tag: Seq<char>,
    replies: Seq<GitReply>,
    i: int,
)
    requires
        0 <= i,
    ensures
        ({
            let f = push::try_push_or_snapshot_flow(branch, tag, replies, i);
            let backup = "wip/"@ + tag + "-"@ + replies[i].at.id@;
            let failed = i < replies.len() && bad(replies[i]);
            let made = failed && i + 1 < replies.len() && fine(replies[i + 1]);
            &&& asks_first(f, slow(seq!["push"@, "--ff-only"@, "origin"@, branch]), replies, i)
            &&& i < replies.len() && fine(replies[i]) ==> f == Flow::<(bool, Seq<char>)>::Done(
                Ok((true, "pushed "@ + branch)),
                i + 1,
            )
            &&& failed ==> asks_first(f, cmd(seq!["branch"@, backup, "HEAD"@]), replies, i + 1)
            &&& failed && i + 1 < replies.len() && bad(replies[i + 1]) ==> f == Flow::<
                (bool, Seq<char>),
            >::Done(
                Ok(
                    (
                        false,
                        "failed to create backup branch "@ + backup + ": "@ + told(
                            replies[i + 1],
                        ),
                    ),
                ),
                i + 2,
            )
            &&& made ==> asks_first(
                f,
                slow(seq!["push"@, "--set-upstream"@, "origin"@, backup]),
                replies,
                i + 2,
            )
            &&& made && i + 2 < replies.len() && fine(replies[i + 2]) ==> f == Flow::<
                (bool, Seq<char>),
            >::Done(
                Ok(
                    (
                        true,
                        "push rejected for "@ + branch + "; backup at "@ + backup + " pushed"@,
                    ),
                ),
                i + 3,
            )
            &&& made && i + 2 < replies.len() && bad(replies[i + 2]) ==> f == Flow::<
                (bool, Seq<char>),
            >::Done(
                Ok(
                    (
                        false,
                        "backup branch push also failed for "@ + backup + ": "@ + told(
                            replies[i + 2],
                        ),
                    ),
                ),
                i + 3,
            )
        }),
{
}

/// Whether the first `k` replies of a recovery are those of one that goes well: every command
/// succeeds but for the fourth, by which git tells that something is staged.
pub open spec fn recovering(replies: Seq<GitReply>, i: int, k: int) -> bool {
    &&& i + k <= replies.len()
    &&& k > 0 ==> fine(replies[i])
    &&& k > 1 ==> fine(replies[i + 1])
    &&& k > 2 ==> fine(replies[i + 2])
    &&& k > 3 ==> bad(replies[i + 3])
    &&& k > 4 ==> fine(replies[i + 4])
    &&& k > 5 ==> fine(replies[i + 5])
    &&& k > 6 ==> fine(replies[i + 6])
    &&& k > 7 ==> fine(replies[i + 7])
}

/// The commands of a recovery, in order: the stash is shown, applied, staged, looked at, committed,
/// put on a branch of its own, pushed and dropped.
pub open spec fn recovery_command(
    k: int,
    stash: Seq<char>,
    branch: Seq<char>,
    message: Seq<char>,
    env: Seq<(Seq<char>, Seq<char>)>,
) -> Command {
    if k == 0 {
        cmd(seq!["stash"@, "show"@, "-p"@, stash])
    } else if k == 1 {
        cmd(seq!["stash"@, "apply"@, stash])
    } else if k == 2 {
        cmd(seq!["add"@, "-A"@])
    } else if k == 3 {
        cmd(seq!["diff"@, "--cached"@, "--quiet"@])
    } else if k == 4 {
        with(seq!["commit"@, "-m"@, message, "--no-verify"@], env)
    } else if k == 5 {
        cmd(seq!["branch"@, branch, "HEAD"@])
    } else if k == 6 {
        slow(seq!["push"@, "--set-upstream"@, "origin"@, branch])
    } else {
        cmd(seq!["stash"@, "drop"@, stash])
    }
}

/// A recovery that has gone well so far asks for the next of its eight commands; after the last
/// one the stash is recovered. The branch is named after the day and minute and after the whole
/// suffix of the moment at which the stash was applied.
pub proof fn law_recovery_goes_on(
    stash: Seq<char>,
    tag: Seq<char>,
    env: Seq<(Seq<char>, Seq<char>)>,
    replies: Seq<GitReply>,
    i: int,
    k: int,
)
    requires
        0 <= i,
        0 <= k <= 8,
        recovering(replies, i, k),
    ensures
        ({
            let f = stash::recover_one_stash_flow(stash, tag, env, replies, i);
            let branch = "wip/"@ + tag + "-stash-"@ + replies[i + 1].at.id@;
            let message = "wip: applied stash "@ + stash + " ("@ + tag + ")\n\n"@ + text::decimal(
                text::lines_of(said(replies[i])).len() as int,
            ) + " lines"@;
            if k == 8 {
                f == Flow::<stash::RecoveryView>::Done(
                    Ok((true, "pushed "@ + branch + " and dropped "@ + stash, Some(branch))),
                    i + 8,
                )
            } else {
                asks_first(f, recovery_command(k, stash, branch, message, env), replies, i + k)
            }
        }),
{
}

/// A recovery ends at the first step that does not go well, and tells which. Only where the push
/// went through does the stash count as recovered.
pub proof fn law_recovery_ends(
    stash: Seq<char>,
    tag: Seq<char>,
    env: Seq<(Seq<char>, Seq<char>)>,
    replies: Seq<GitReply>,
    i: int,
    k: int,
)
    requires
        0 <= i,
        0 <= k < 8,
        recovering(replies, i, k),
        i + k < replies.len(),
        if k == 3 {
            fine(replies[i + k])
        } else {
            bad(replies[i + k])
        },
    ensures
        ({
            let branch = "wip/"@ + tag + "-stash-"@ + replies[i + 1].at.id@;
            let why = told(replies[i + k]);
            stash::recover_one_stash_flow(stash, tag, env, replies, i) == Flow::<
                stash::RecoveryView,
            >::Done(
                Ok(
                    if k == 0 {
                        (false, "cannot read "@ + stash, None)
                    } else if k == 1 {
                        (false, "stash apply failed: "@ + why, None)
                    } else if k <= 4 {
                        (false, "could not commit applied stash"@, Some(branch))
                    } else if k == 5 {
                        (
                            false,
                            "could not create wip branch from applied stash"@,
                            Some(branch),
                        )
                    } else if k == 6 {
                        (
                            false,
                            "applied+committed to local "@ + branch + " (not pushed): "@ + why,
                            Some(branch),
                        )
                    } else {
                        (
                            true,
                            "pushed "@ + branch + " but stash drop refused: "@ + why,
                            Some(branch),
                        )
                    },
                ),
                i + k + 1,
            )
        }),
{
}

/// The suffix of a moment is its nanoseconds, or their low 64 bits, in hexadecimal digits of lower
/// case without leading zeros.
pub proof fn law_ids_are_hexadecimal(nanos: nat)
    ensures
        text_laws::proper_digits(clock::id_text(nanos as int), 16),
        text_laws::number_of(clock::id_text(nanos as int), 16) == nanos
            % 0x1_0000_0000_0000_0000,
{
    text_laws::law_numerals((nanos % 0x1_0000_0000_0000_0000) as nat, 16);
}

/// A moment is written in its four forms: the second, the two times of that second, and the suffix
/// of its nanoseconds.
pub proof fn law_moments(stamp: clock::Stamp, secs: int, nanos: nat)
    requires
        stamp.marks(secs, nanos as int),
    ensures
        stamp.secs == secs,
        stamp.iso@ == clock::utc_text(secs, "%Y-%m-%dT%H:%M:%SZ"@),
        stamp.tag@ == clock::utc_text(secs, "%Y%m%dT%H%M"@),
        text_laws::proper_digits(stamp.id@, 16),
        text_laws::number_of(stamp.id@, 16) == nanos % 0x1_0000_0000_0000_0000,
{
    law_ids_are_hexadecimal(nanos);
}

/// The suffixes of different moments are different, as long as their nanoseconds differ in the low
/// 64 bits.
pub proof fn law_ids_differ(a: nat, b: nat)
    requires
        a % 0x1_0000_0000_0000_0000 != b % 0x1_0000_0000_0000_0000,
    ensures
        clock::id_text(a as int) != clock::id_text(b as int),
{
    text_laws::law_numerals_differ(
        (a % 0x1_0000_0000_0000_0000) as nat,
        (b % 0x1_0000_0000_0000_0000) as nat,
        16,
    );
}

proof fn lemma_joined_differ(
    a: Seq<char>,
    tag: Seq<char>,
    b: Seq<char>,
    id: Seq<char>,
    other_tag: Seq<char>,
    other: Seq<char>,
)
    requires
        tag.len() == other_tag.len(),
        tag != other_tag || id != other,
    ensures
        a + tag + b + id != a + other_tag + b + other,
{
    let x = a + tag + b + id;
    let y = a + other_tag + b + other;
    if x == y {
        let n = a.len() as int;
        let m = n + tag.len() as int;
        assert(x.subrange(n, m) =~= tag);
        assert(y.subrange(n, m) =~= other_tag);
        assert(x.skip(m + b.len()) =~= id);
        assert(y.skip(m + b.len()) =~= other);
    }
}

/// The three kinds of new branches are named so that no two moments share a name: for days and
/// minutes written alike long, another day or minute or another suffix gives another name.
pub proof fn law_branch_names_differ(
    tag: Seq<char>,
    id: Seq<char>,
    other_tag: Seq<char>,
    other: Seq<char>,
)
    requires
        tag.len() == other_tag.len(),
        tag != other_tag || id != other,
    ensures
        stash::stash_branch(tag, id) != stash::stash_branch(other_tag, other),
        push::backup_name(tag, id) != push::backup_name(other_tag, other),
{
    lemma_joined_differ("wip/"@, tag, "-stash-"@, id, other_tag, other);
    lemma_joined_differ("wip/"@, tag, "-"@, id, other_tag, other);
}

/// No two stashes share a branch. Where two recoveries each ask for a branch to be made, and their
/// stashes were applied at different moments, the two branches are different.
pub proof fn law_each_stash_has_its_own_branch(
    stash: Seq<char>,
    tag: Seq<char>,
    env: Seq<(Seq<char>, Seq<char>)>,
    replies: Seq<GitReply>,
    i: int,
    nanos: nat,
    other_stash: Seq<char>,
    other_tag: Seq<char>,
    other_replies: Seq<GitReply>,
    j: int,
    other_nanos: nat,
)
    requires
        0 <= i,
        0 <= j,
        tag.len() == other_tag.len(),
        replies.len() == i + 5,
        other_replies.len() == j + 5,
        recovering(replies, i, 5),
        recovering(other_replies, j, 5),
        replies[i + 1].at.id@ == clock::id_text(nanos as int),
        other_replies[j + 1].at.id@ == clock::id_text(other_nanos as int),
        nanos != other_nanos,
        nanos < 0x1_0000_0000_0000_0000,
        other_nanos < 0x1_0000_0000_0000_0000,
    ensures
        stash::recover_one_stash_flow(stash, tag, env, replies, i) matches Flow::Run(c) && (
        stash::recover_one_stash_flow(
            other_stash,
            other_tag,
            env,
            other_replies,
            j,
        ) matches Flow::Run(d) && c.args.len() == 3 && d.args.len() == 3 && c.args[0] == "branch"@
            && d.args[0] == "branch"@ && c.args[1] != d.args[1]),
{
    law_recovery_goes_on(stash, tag, env, replies, i, 5);
    law_recovery_goes_on(other_stash, other_tag, env, other_replies, j, 5);
    let id = replies[i + 1].at.id@;
    let other = other_replies[j + 1].at.id@;
    law_ids_differ(nanos, other_nanos);
    lemma_joined_differ("wip/"@, tag, "-stash-"@, id, other_tag, other);
    let branch = "wip/"@ + tag + "-stash-"@ + id;
    let other_branch = "wip/"@ + other_tag + "-stash-"@ + other;
    assert(cmd(seq!["branch"@, branch, "HEAD"@]).args[1] == branch);
    assert(cmd(seq!["branch"@, other_branch, "HEAD"@]).args[1] == other_branch);
}

/// The commands of a snapshot, in order, each with what it is for. The index file is the given one
/// wherever git works on an index.
pub open spec fn snapshot_command(
    k: int,
    branch: Seq<char>,
    message: Seq<char>,
    index: Seq<char>,
    author: Seq<(Seq<char>, Seq<char>)>,
    replies: Seq<GitReply>,
    i: int,
) -> Command {
    let own = seq![("GIT_INDEX_FILE"@, index)];
    let head = text::trimmed(said(replies[i]));
    let tree = text::trimmed(said(replies[i + 3]));
    let made = text::trimmed(said(replies[i + 5]));
    if k == 0 {
        cmd(seq!["rev-parse"@, "--verify"@, "HEAD"@])
    } else if k == 1 {
        with(seq!["read-tree"@, "HEAD"@], own)
    } else if k == 2 {
        with(seq!["add"@, "-A"@], own)
    } else if k == 3 {
        with(seq!["write-tree"@], own)
    } else if k == 4 {
        cmd(seq!["rev-parse"@, "HEAD^{tree}"@])
    } else if k == 5 {
        with(seq!["commit-tree"@, tree, "-p"@, head, "-m"@, message], own + author)
    } else if k == 6 {
        cmd(
            seq![
                "update-ref"@,
                "refs/heads/"@ + branch,
                made,
                "0000000000000000000000000000000000000000"@,
            ],
        )
    } else if k == 7 {
        cmd(seq!["rev-parse"@, "--verify"@, "refs/heads/"@ + branch])
    } else {
        cmd(seq!["rev-parse"@, "--verify"@, made + "^"@])
    }
}

/// Whether a command succeeded and printed more than white space.
pub open spec fn printed_some(reply: GitReply) -> bool {
    fine(reply) && !text_laws::all_white(said(reply))
}

/// Whether the first `k` replies of a snapshot are those of one that goes well: every command
/// succeeds, those that are asked for a value print one, the tree of the work tree differs from
/// that of the head, and the new ref reads back as the new commit.
pub open spec fn snapping(replies: Seq<GitReply>, i: int, k: int) -> bool {
    &&& i + k <= replies.len()
    &&& k > 0 ==> printed_some(replies[i])
    &&& k > 1 ==> fine(replies[i + 1])
    &&& k > 2 ==> fine(replies[i + 2])
    &&& k > 3 ==> printed_some(replies[i + 3])
    &&& k > 4 ==> printed_some(replies[i + 4]) && text::trimmed(said(replies[i + 4]))
        != text::trimmed(said(replies[i + 3]))
    &&& k > 5 ==> printed_some(replies[i + 5])
    &&& k > 6 ==> fine(replies[i + 6])
    &&& k > 7 ==> printed_some(replies[i + 7]) && text::trimmed(said(replies[i + 7]))
        == text::trimmed(said(replies[i + 5]))
    &&& k > 8 ==> printed_some(replies[i + 8]) && text::trimmed(said(replies[i + 8]))
        == text::trimmed(said(replies[i]))
}

/// A snapshot that has gone well so far asks for the next of its nine commands; after the last one
/// it is made. Its commit is all that git printed for it, and its head all that git printed for the
/// head, without the white space round them; the ref is made for exactly that commit. The message
/// is the requested one, or else names the branch.
pub proof fn law_snapshot_goes_on(
    branch: Seq<char>,
    requested: Option<Seq<char>>,
    index: Seq<char>,
    author: Seq<(Seq<char>, Seq<char>)>,
    replies: Seq<GitReply>,
    i: int,
    k: int,
)
    requires
        0 <= i,
        0 <= k <= 9,
        snapping(replies, i, k),
    ensures
        ({
            let f = snapshot::create_snapshot_commit_flow(
                branch,
                requested,
                index,
                author,
                replies,
                i,
            );
            let message = if requested is Some {
                requested->0
            } else {
                "wip: airlock snapshot "@ + branch
            };
            if k == 9 {
                f matches Flow::Done(Ok(Some(s)), n) && n == i + 9 && s.branch == branch
                    && text_laws::framed(said(replies[i]), s.head) && text_laws::framed(
                    said(replies[i + 5]),
                    s.commit,
                )
            } else {
                asks_first(
                    f,
                    snapshot_command(k, branch, message, index, author, replies, i),
                    replies,
                    i + k,
                )
            }
        }),
{
    lemma_printed(replies, i, k);
    if k == 9 {
        text_laws::law_trim(said(replies[i]), text::trimmed(said(replies[i])));
        text_laws::law_trim(said(replies[i + 5]), text::trimmed(said(replies[i + 5])));
    }
}

proof fn lemma_printed(replies: Seq<GitReply>, i: int, k: int)
    requires
        snapping(replies, i, k),
        0 <= k <= 9,
    ensures
        k > 0 ==> !text::is_blank(said(replies[i])),
        k > 3 ==> !text::is_blank(said(replies[i + 3])),
        k > 4 ==> !text::is_blank(said(replies[i + 4])),
        k > 5 ==> !text::is_blank(said(replies[i + 5])),
        k > 7 ==> !text::is_blank(said(replies[i + 7])),
        k > 8 ==> !text::is_blank(said(replies[i + 8])),
{
    text_laws::law_blank(said(replies[i]));
    text_laws::law_blank(said(replies[i + 3]));
    text_laws::law_blank(said(replies[i + 4]));
    text_laws::law_blank(said(replies[i + 5]));
    text_laws::law_blank(said(replies[i + 7]));
    text_laws::law_blank(said(replies[i + 8]));
}

/// There is no snapshot if and only if the tree of the work tree is that of the head.
pub proof fn law_snapshot_of_nothing(
    branch: Seq<char>,
    requested: Option<Seq<char>>,
    index: Seq<char>,
    author: Seq<(Seq<char>, Seq<char>)>,
    replies: Seq<GitReply>,
    i: int,
)
    requires
        0 <= i,
        snapping(replies, i, 4),
        i + 4 < replies.len(),
        printed_some(replies[i + 4]),
    ensures
        snapshot::create_snapshot_commit_flow(
            branch,
            requested,
            index,
            author,
            replies,
            i,
        ) matches Flow::Done(Ok(None), _) <==> text::trimmed(said(replies[i + 4]))
            == text::trimmed(said(replies[i + 3])),
{
    lemma_printed(replies, i, 4);
    text_laws::law_blank(said(replies[i + 4]));
}

/// What a step of a snapshot was for, as an error tells it.
pub open spec fn snapshot_step(k: int) -> Seq<char> {
    if k == 1 {
        "initialize snapshot index"@
    } else if k == 2 {
        "stage working tree in snapshot index"@
    } else if k == 3 {
        "write snapshot tree"@
    } else if k == 5 {
        "create snapshot commit"@
    } else if k == 6 {
        "create new local snapshot ref"@
    } else {
        "read git value"@
    }
}

/// A snapshot ends in an error at the first command that fails, or that prints nothing where a
/// value is needed; and where the new ref does not read back as the new commit, or the parent of
/// that commit not as the head.
pub proof fn law_snapshot_fails(
    branch: Seq<char>,
    requested: Option<Seq<char>>,
    index: Seq<char>,
    author: Seq<(Seq<char>, Seq<char>)>,
    replies: Seq<GitReply>,
    i: int,
    k: int,
)
    requires
        0 <= i,
        0 <= k < 9,
        snapping(replies, i, k),
        i + k < replies.len(),
        replies[i + k].outcome is Ok,
    ensures
        ({
            let f = snapshot::create_snapshot_commit_flow(
                branch,
                requested,
                index,
                author,
                replies,
                i,
            );
            let needs_value = k != 1 && k != 2 && k != 6;
            let value = text::trimmed(said(replies[i + k]));
            let commit = text::trimmed(said(replies[i + 5]));
            let head = text::trimmed(said(replies[i]));
            &&& bad(replies[i + k]) ==> f == Flow::<Option<SnapshotCommitView>>::Done(
                Err(snapshot_step(k) + ": "@ + told(replies[i + k])),
                i + k + 1,
            )
            &&& fine(replies[i + k]) && needs_value && text_laws::all_white(said(replies[i + k]))
                ==> f == Flow::<Option<SnapshotCommitView>>::Done(
                Err(snapshot_step(k) + ": git returned no value"@),
                i + k + 1,
            )
            &&& k == 7 && printed_some(replies[i + k]) && value != commit ==> f == Flow::<
                Option<SnapshotCommitView>,
            >::Done(
                Err(
                    "snapshot ref refs/heads/"@ + branch
                        + " does not point at the generated commit"@,
                ),
                i + k + 1,
            )
            &&& k == 8 && printed_some(replies[i + k]) && value != head ==> f == Flow::<
                Option<SnapshotCommitView>,
            >::Done(
                Err("snapshot commit "@ + commit + " is not parented to HEAD "@ + head),
                i + k + 1,
            )
        }),
{
    lemma_printed(replies, i, k);
    text_laws::law_blank(said(replies[i + k]));
    if k == 7 {
        reveal_strlit("snapshot ref ");
        reveal_strlit("refs/heads/");
        reveal_strlit("snapshot ref refs/heads/");
        assert("snapshot ref "@ + ("refs/heads/"@ + branch) =~= "snapshot ref refs/heads/"@
            + branch);
    }
}

/// A snapshot that was pushed is checked: the remote is asked what it holds under the branch, and
/// git is asked whether the commit differs from the head. It is found safe if and only if the
/// first word of the remote's answer is the commit and git finds a difference.
pub proof fn law_pushed_snapshot(s: SnapshotCommitView, replies: Seq<GitReply>, i: int)
    requires
        0 <= i,
    ensures
        ({
            let f = snapshot::verify_pushed_snapshot_flow(s, replies, i);
            let words = text::words_of(said(replies[i]));
            let there = i < replies.len() && fine(replies[i]) && words.len() > 0 && words[0]
                == s.commit;
            &&& asks_first(
                f,
                slow(seq!["ls-remote"@, "--heads"@, "origin"@, "refs/heads/"@ + s.branch]),
                replies,
                i,
            )
            &&& there ==> asks_first(
                f,
                cmd(seq!["diff"@, "--quiet"@, s.head, s.commit]),
                replies,
                i + 1,
            )
            &&& i < replies.len() && bad(replies[i]) ==> f == Flow::<()>::Done(
                Err("verify pushed snapshot "@ + s.branch + ": "@ + told(replies[i])),
                i + 1,
            )
            &&& i < replies.len() && fine(replies[i]) && words.len() == 0 ==> f == Flow::<()>::Done(
                Err("remote did not advertise the pushed snapshot ref"@),
                i + 1,
            )
            &&& i < replies.len() && fine(replies[i]) && words.len() > 0 && words[0] != s.commit
                ==> f == Flow::<()>::Done(
                Err(
                    "remote snapshot ref refs/heads/"@ + s.branch + " points at "@ + words[0]
                        + ", expected "@ + s.commit,
                ),
                i + 1,
            )
            &&& there && i + 1 < replies.len() && replies[i + 1].outcome is Ok ==> f == Flow::<()>::Done(
                if replies[i + 1].outcome->Ok_0.code == 1 {
                    Ok(())
                } else if replies[i + 1].outcome->Ok_0.code == 0 {
                    Err("snapshot "@ + s.branch + " has no dirty delta from HEAD"@)
                } else {
                    Err("could not verify snapshot delta: "@ + told(replies[i + 1]))
                },
                i + 2,
            )
        }),
{
    reveal_strlit("remote snapshot ref ");
    reveal_strlit("refs/heads/");
    reveal_strlit("remote snapshot ref refs/heads/");
    assert("remote snapshot ref "@ + ("refs/heads/"@ + s.branch)
        =~= "remote snapshot ref refs/heads/"@ + s.branch);
}

} // verus!
