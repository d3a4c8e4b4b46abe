//! What the actions on files do to a disk, and what holds of the state directory.
use crate::registry;
use crate::registry::EntryView;
use crate::state;
use crate::state::FileOp;
use crate::store;
use crate::store::Found;
use vstd::prelude::*;

verus! {

/// What is on a disk: the text of every file, by its path, and the paths of the directories.
#[verifier::ext_equal]
pub struct Disk {
    pub files: Map<Seq<char>, Seq<char>>,
    pub dirs: Set<Seq<char>>,
}

impl Disk {
    /// The text of a file; nothing where there is no such file.
    pub open spec fn text(self, path: Seq<char>) -> Seq<char> {
        if self.files.contains_key(path) {
            self.files[path]
        } else {
            Seq::empty()
        }
    }
}

/// Whether `dir` is `path` or a directory above it: a part of it, from the start, that ends at a
/// slash.
pub open spec fn on_the_way(dir: Seq<char>, path: Seq<char>) -> bool {
    ||| dir == path
    ||| 0 < dir.len() < path.len() && path.take(dir.len() as int) == dir && (path[dir.len() as int]
        == '/' || dir.last() == '/')
}

/// Whether a disk may go over from `before` to `after` when something is done to it, which
/// succeeds or not. A directory that is there is left as it is; of the ones above it those that are
/// missing are made as well, some of them even where that fails in the end. A write that fails may
/// leave anything in that file, and one at the end of a file a part of the text. Another name is
/// given to a file at once or not at all.
pub open spec fn may_become(before: Disk, op: FileOp, ok: bool, after: Disk) -> bool {
    match op {
        FileOp::CreateDir(path) => {
            &&& after.files == before.files
            &&& before.dirs.subset_of(after.dirs)
            &&& forall|dir: Seq<char>| #[trigger]
                after.dirs.contains(dir) ==> before.dirs.contains(dir) || on_the_way(dir, path)
            &&& path.len() == 0 || before.dirs.contains(path) ==> ok && after == before
            &&& ok && path.len() > 0 ==> after.dirs.contains(path)
        },
        FileOp::Write { path, text } => {
            &&& after.dirs == before.dirs
            &&& after.files.remove(path) == before.files.remove(path)
            &&& ok ==> after.files == before.files.insert(path, text)
        },
        FileOp::Append { path, text } => {
            &&& after.dirs == before.dirs
            &&& after.files.remove(path) == before.files.remove(path)
            &&& before.files.contains_key(path) ==> after.files.contains_key(path)
            &&& exists|n: int|
                0 <= n <= text.len() && after.text(path) == before.text(path)
                    + #[trigger] text.take(n)
            &&& ok ==> after.files == before.files.insert(path, before.text(path) + text)
        },
        FileOp::Rename { from, to } => if ok {
            &&& before.files.contains_key(from)
            &&& after == Disk {
                files: before.files.remove(from).insert(to, before.files[from]),
                ..before
            }
        } else {
            after == before
        },
    }
}

/// Whether a disk may go through the given states when a list of things is done to it, one after
/// the other up to the first one that fails; `ok` tells that none did.
pub open spec fn carried_out(states: Seq<Disk>, list: Seq<FileOp>, ok: bool) -> bool {
    &&& if ok {
        states.len() == list.len() + 1
    } else {
        2 <= states.len() <= list.len() + 1
    }
    &&& forall|k: int| 0 <= k < states.len() - 1 ==> #[trigger] step_taken(states, list, ok, k)
}

/// Whether thing number `k` on the list leads from one state to the next. Only the last one that
/// was done can have failed.
pub open spec fn step_taken(states: Seq<Disk>, list: Seq<FileOp>, ok: bool, k: int) -> bool {
    may_become(states[k], list[k], ok || k < states.len() - 2, states[k + 1])
}

/// Whether nothing is lost from `before` to `after`: every file has kept its text, and every
/// directory is still there.
pub open spec fn nothing_lost(before: Disk, after: Disk) -> bool {
    &&& after.files == before.files
    &&& before.dirs.subset_of(after.dirs)
}

/// Whether every directory that is new is one of the needed ones, or above one of them.
pub open spec fn only_needed(before: Disk, after: Disk, root: Seq<char>) -> bool {
    forall|dir: Seq<char>| #[trigger]
        after.dirs.contains(dir) ==> before.dirs.contains(dir) || on_the_way(dir, root)
            || on_the_way(dir, state::joined(root, "state"@)) || on_the_way(
            dir,
            state::joined(root, "logs"@),
        )
}

/// Whether the needed directories are there. A path without any character names none.
pub open spec fn has_needed(disk: Disk, root: Seq<char>) -> bool {
    &&& root.len() > 0 ==> disk.dirs.contains(root)
    &&& disk.dirs.contains(state::joined(root, "state"@))
    &&& disk.dirs.contains(state::joined(root, "logs"@))
}

proof fn lemma_needed_names(root: Seq<char>)
    ensures
        state::joined(root, "state"@).len() > 0,
        state::joined(root, "logs"@).len() > 0,
{
    reveal_strlit("state");
    reveal_strlit("logs");
}

/// What holds after `k` of the needed directories, where a list begins with them.
proof fn lemma_dirs_so_far(
    states: Seq<Disk>,
    list: Seq<FileOp>,
    root: Seq<char>,
    ok: bool,
    k: int,
)
    requires
        carried_out(states, list, ok),
        0 <= k < states.len(),
        k <= 3 <= list.len(),
        list.take(3) == state::needed_dirs(root),
    ensures
        nothing_lost(states[0], states[k]),
        only_needed(states[0], states[k], root),
        ok || k < states.len() - 1 ==> {
            &&& k >= 1 && root.len() > 0 ==> states[k].dirs.contains(root)
            &&& k >= 2 ==> states[k].dirs.contains(state::joined(root, "state"@))
            &&& k >= 3 ==> states[k].dirs.contains(state::joined(root, "logs"@))
        },
    decreases k,
{
    lemma_needed_names(root);
    if k > 0 {
        lemma_dirs_so_far(states, list, root, ok, k - 1);
        assert(list[k - 1] == list.take(3)[k - 1]);
        assert(step_taken(states, list, ok, k - 1));
    }
}

/// To make the needed directories loses nothing, whether it succeeds or not, and makes no others
/// but those above them. Where it succeeds they are all there.
pub proof fn law_ensure_dirs(states: Seq<Disk>, root: Seq<char>, ok: bool)
    requires
        carried_out(states, state::needed_dirs(root), ok),
    ensures
        nothing_lost(states[0], states.last()),
        only_needed(states[0], states.last(), root),
        ok ==> has_needed(states.last(), root),
{
    let list = state::needed_dirs(root);
    assert(list.take(3) =~= list);
    lemma_dirs_so_far(states, list, root, ok, states.len() - 1);
}

/// To make the needed directories a second time succeeds and changes nothing.
pub proof fn law_ensure_dirs_twice(
    first: Seq<Disk>,
    second: Seq<Disk>,
    root: Seq<char>,
    ok: bool,
)
    requires
        carried_out(first, state::needed_dirs(root), true),
        carried_out(second, state::needed_dirs(root), ok),
        second[0] == first.last(),
    ensures
        ok,
        second.last() == first.last(),
{
    law_ensure_dirs(first, root, true);
    lemma_needed_names(root);
    assert(step_taken(second, state::needed_dirs(root), ok, 0));
    if second.len() > 2 {
        assert(step_taken(second, state::needed_dirs(root), ok, 1));
    }
    if second.len() > 3 {
        assert(step_taken(second, state::needed_dirs(root), ok, 2));
    }
}

proof fn lemma_registry_files_differ(root: Seq<char>)
    ensures
        state::registry_tmp_file(root) != state::registry_file(root),
{
    reveal_strlit("registry.tmp");
    reveal_strlit("registry.json");
    reveal_strlit("/");
    assert(state::registry_tmp_file(root).len() + 1 == state::registry_file(root).len());
}

/// Whether a save that got so far has left the registry file as it was or with the new text, and
/// every other file alone but the one that is written on the way.
pub open spec fn saved_or_not(before: Disk, root: Seq<char>, json: Seq<char>, now: Disk) -> bool {
    let file = state::registry_file(root);
    let tmp = state::registry_tmp_file(root);
    &&& now.files.remove(tmp).remove(file) == before.files.remove(tmp).remove(file)
    &&& {
        ||| now.files.contains_key(file) == before.files.contains_key(file) && now.text(file)
            == before.text(file)
        ||| now.files.contains_key(file) && now.text(file) == json
    }
}

/// Saving is atomic: however far it got, the registry file holds what it held before or the new
/// text, complete, and no other file has changed but the one that is written on the way. In the
/// end the registry file holds the new text, and nothing is left of that other file.
pub proof fn law_save_is_atomic(
    states: Seq<Disk>,
    root: Seq<char>,
    json: Seq<char>,
    ok: bool,
    k: int,
)
    requires
        carried_out(states, store::save_ops(root, json), ok),
        0 <= k < states.len(),
    ensures
        saved_or_not(states[0], root, json, states[k]),
        ok ==> states.last().files == states[0].files.remove(
            state::registry_tmp_file(root),
        ).insert(state::registry_file(root), json),
{
    let list = store::save_ops(root, json);
    let tmp = state::registry_tmp_file(root);
    let file = state::registry_file(root);
    let before = states[0].files;
    lemma_registry_files_differ(root);
    assert(list.take(3) =~= state::needed_dirs(root));
    lemma_dirs_so_far(
        states,
        list,
        root,
        ok,
        if k <= 3 {
            k
        } else {
            3
        },
    );
    if states.len() > 4 {
        lemma_dirs_so_far(states, list, root, ok, 3);
        assert(step_taken(states, list, ok, 3));
        assert(list[3] == FileOp::Write { path: tmp, text: json });
        let written = states[4].files;
        assert(written.remove(tmp) =~= before.remove(tmp));
        assert(written.remove(tmp).contains_key(file) == before.remove(tmp).contains_key(file));
        assert(written.contains_key(file) ==> written.remove(tmp)[file] == written[file]);
        assert(before.contains_key(file) ==> before.remove(tmp)[file] == before[file]);
        if states.len() > 5 {
            assert(step_taken(states, list, ok, 4));
            assert(list[4] == FileOp::Rename { from: tmp, to: file });
            assert(states[5].files.remove(tmp).remove(file) =~= before.remove(tmp).remove(file));
        }
    }
}

/// A log grows by exactly one line for an event: what it held stays, followed by the JSON text of
/// the event and one line feed; and no other file changes. Where that fails, what the log held is
/// still its beginning.
pub proof fn law_log_grows_by_one_line(
    states: Seq<Disk>,
    root: Seq<char>,
    log: Seq<char>,
    json: Seq<char>,
    ok: bool,
)
    requires
        carried_out(states, store::append_ops(root, log, json), ok),
    ensures
        ({
            let file = state::log_file(root, log);
            let before = states[0];
            let after = states.last();
            &&& after.files.remove(file) == before.files.remove(file)
            &&& before.text(file).is_prefix_of(after.text(file))
            &&& ok ==> after.files == before.files.insert(
                file,
                before.text(file) + json + "\n"@,
            )
        }),
{
    let list = store::append_ops(root, log, json);
    let file = state::log_file(root, log);
    assert(list.take(3) =~= state::needed_dirs(root));
    lemma_dirs_so_far(
        states,
        list,
        root,
        ok,
        if states.len() <= 4 {
            states.len() - 1
        } else {
            3
        },
    );
    let before = states[0];
    if states.len() > 4 {
        assert(step_taken(states, list, ok, 3));
        assert(list[3] == FileOp::Append { path: file, text: json + "\n"@ });
        assert(before.text(file) + (json + "\n"@) =~= before.text(file) + json + "\n"@);
    }
}

/// A registry file that is not JSON is not destroyed: its text is kept under the name it is put
/// aside by, or in its place where that fails, and no other file changes.
pub proof fn law_corrupt_file_is_kept(
    states: Seq<Disk>,
    root: Seq<char>,
    tag: Seq<char>,
    ok: bool,
)
    requires
        carried_out(states, store::load_ops(root, tag, Found::Corrupt), ok),
        states[0].files.contains_key(state::registry_file(root)),
    ensures
        ({
            let before = states[0];
            let after = states.last();
            let file = state::registry_file(root);
            let aside = store::aside_file(root, tag);
            if ok {
                &&& after.files == before.files.remove(file).insert(aside, before.files[file])
                &&& !after.files.contains_key(file)
                &&& after.files[aside] == before.files[file]
            } else {
                after == before
            }
        }),
{
    assert(step_taken(states, store::load_ops(root, tag, Found::Corrupt), ok, 0));
    reveal_strlit(".bak-");
    assert(store::aside_file(root, tag).len() > state::registry_file(root).len());
}

/// Loading a file that is JSON, or none at all, changes nothing on disk.
pub proof fn law_load_leaves_the_disk_alone(
    states: Seq<Disk>,
    root: Seq<char>,
    tag: Seq<char>,
    what: Found,
    ok: bool,
)
    requires
        !(what is Corrupt),
        carried_out(states, store::load_ops(root, tag, what), ok),
    ensures
        ok,
        states.last() == states[0],
{
}

/// Saving and loading, on a disk: once a save is complete, the registry file holds a text from
/// which the same registry is loaded, and loading leaves the disk as it is.
pub proof fn law_saved_registry_is_loaded(
    saving: Seq<Disk>,
    loading: Seq<Disk>,
    root: Seq<char>,
    list: Seq<(Seq<char>, EntryView)>,
    tag: Seq<char>,
    ok: bool,
)
    requires
        store::reads_back(store::saved_text(list), list),
        carried_out(saving, store::save_ops(root, store::saved_text(list)), true),
        loading[0] == saving.last(),
        carried_out(
            loading,
            store::load_ops(
                root,
                tag,
                store::found(Some(saving.last().text(state::registry_file(root)))),
            ),
            ok,
        ),
    ensures
        saving.last().files.contains_key(state::registry_file(root)),
        store::found(Some(saving.last().text(state::registry_file(root)))) == Found::Known(
            registry::map_of(list),
        ),
        ok,
        loading.last() == saving.last(),
{
    law_save_is_atomic(saving, root, store::saved_text(list), true, 0);
    store::law_load_gives_back_what_was_saved(store::saved_text(list), list);
}

} // verus!
