//! Where everything is kept, under which names, and in which shape.
use crate::clock;
use crate::daemon;
use crate::daemon::Mode;
use crate::json;
use crate::json::Json;
use crate::registry;
use crate::registry::EntryView;
use crate::state;
use crate::state::FileOp;
use crate::store;
use crate::store::Found;
use crate::text;
use crate::text_laws;
use crate::{AUTOCOMMIT_INTERVAL, CLEANUP_INTERVAL, DEFAULT_STATE_ROOT_SUFFIX};
use vstd::prelude::*;

verus! {

/// The fixed numbers and texts: a quarter of an hour and eight hours, the state directory, and the
/// two forms of a time.
pub proof fn law_fixed_values(secs: int)
    ensures
        AUTOCOMMIT_INTERVAL == 15 * 60,
        CLEANUP_INTERVAL == 8 * 60 * 60,
        DEFAULT_STATE_ROOT_SUFFIX@ == ".airlock/v2"@,
        clock::iso_text(secs) == clock::utc_text(secs, "%Y-%m-%dT%H:%M:%SZ"@),
        clock::tag_text(secs) == clock::utc_text(secs, "%Y%m%dT%H%M"@),
{
}

/// A path that is absolute stands for itself below any other. Any other one comes after the base,
/// with exactly one slash in between, unless there is no base or it ends in one.
pub proof fn law_joined_paths(base: Seq<char>, part: Seq<char>)
    ensures
        part.len() > 0 && part[0] == '/' ==> state::joined(base, part) == part,
        !(part.len() > 0 && part[0] == '/') ==> ({
            let path = state::joined(base, part);
            let direct = base.len() == 0 || base.last() == '/';
            &&& path.take(base.len() as int) == base
            &&& path.skip(path.len() - part.len()) == part
            &&& direct ==> path.len() == base.len() + part.len()
            &&& !direct ==> path.len() == base.len() + 1 + part.len() && path[base.len() as int]
                == '/'
        }),
        state::absolute(part) <==> part.len() > 0 && part[0] == '/',
{
    reveal_strlit("/");
    if !state::absolute(part) {
        let path = state::joined(base, part);
        assert(path.take(base.len() as int) =~= base);
        assert(path.skip(path.len() - part.len()) =~= part);
    }
}

/// A leading `~` stands for the home directory, alone or before a slash; every other path stands
/// for itself.
pub proof fn law_home_paths(home: Seq<char>, rest: Seq<char>, path: Seq<char>)
    ensures
        state::expanded("~"@, Some(home)) == Some(home),
        state::expanded("~"@, None) is None,
        state::expanded("~/"@ + rest, Some(home)) == Some(state::joined(home, rest)),
        state::expanded("~/"@ + rest, None) is None,
        path.len() == 0 || path[0] != '~' ==> state::expanded(path, Some(home)) == Some(path)
            && state::expanded(path, None) == Some(path),
        path.len() > 1 && path[1] != '/' ==> state::expanded(path, Some(home)) == Some(path)
            && state::expanded(path, None) == Some(path),
{
    reveal_strlit("~");
    reveal_strlit("~/");
    let full = "~/"@ + rest;
    assert(full.take(2) =~= "~/"@);
    assert(full.skip(2) =~= rest);
    assert(text::begins(full, "~/"@));
    assert("~"@.len() == 1);
    if text::begins(path, "~/"@) {
        assert(path.take(2)[0] == path[0] && path.take(2)[1] == path[1]);
    }
}

/// The usual state directory is below the home directory, or below `/tmp` where there is none.
pub proof fn law_usual_root(home: Seq<char>)
    ensures
        state::usual_root(Some(home)) == state::joined(home, ".airlock/v2"@),
        state::usual_root(None) == state::joined("/tmp"@, ".airlock/v2"@),
{
}

/// A path that is given on the command line leads to an absolute one, whatever it is, as long as
/// the current directory is absolute: an absolute path to itself, a relative one to the same path
/// below the current directory, and one with a leading `~` below the home directory.
pub proof fn law_resolved_paths(
    path: Seq<char>,
    home: Option<Seq<char>>,
    cwd: Seq<char>,
    dir: Seq<char>,
)
    requires
        cwd.len() > 0,
        cwd[0] == '/',
        dir.len() > 0,
        dir[0] == '/',
    ensures
        state::resolved(path, home, cwd) matches Some(found) ==> found.len() > 0 && found[0] == '/',
        path.len() > 0 && path[0] == '/' ==> state::resolved(path, home, cwd) == Some(path),
        path.len() > 0 && path[0] != '/' && path[0] != '~' ==> state::resolved(path, home, cwd)
            == Some(state::joined(cwd, path)),
        state::resolved("~"@, Some(dir), cwd) == Some(dir),
        state::resolved("~/"@ + path, Some(dir), cwd) == Some(state::joined(dir, path)),
        state::resolved("~/"@ + path, None, cwd) is None,
        state::resolved("~"@, None, cwd) is None,
{
    let h = if home is Some {
        home->0
    } else {
        Seq::empty()
    };
    law_home_paths(h, Seq::empty(), path);
    law_home_paths(dir, path, path);
    law_joined_paths(cwd, path);
    law_joined_paths(dir, path);
    law_joined_paths(cwd, dir);
    if let Some(given) = state::expanded(path, home) {
        law_joined_paths(cwd, given);
        let found = state::joined(cwd, given);
        if !(given.len() > 0 && given[0] == '/') {
            assert(found.take(cwd.len() as int)[0] == found[0]);
        }
    }
    let below = state::joined(dir, path);
    law_joined_paths(cwd, below);
    if !(path.len() > 0 && path[0] == '/') {
        assert(below.take(dir.len() as int)[0] == below[0]);
    }
}

/// The files and directories of the engine, below the state directory.
pub proof fn law_names_of_files(root: Seq<char>, log: Seq<char>, tag: Seq<char>)
    ensures
        state::registry_file(root) == state::joined(root, "registry.json"@),
        state::registry_tmp_file(root) == state::joined(root, "registry.tmp"@),
        state::log_file(root, log) == state::joined(
            state::joined(root, "logs"@),
            log + ".log"@,
        ),
        store::aside_file(root, tag) == state::joined(root, "registry.json"@) + ".bak-"@ + tag,
        state::needed_dirs(root) == seq![
            FileOp::CreateDir(root),
            FileOp::CreateDir(state::joined(root, "state"@)),
            FileOp::CreateDir(state::joined(root, "logs"@)),
        ],
        daemon::pid_file(root, Mode::Autocommit) == state::joined(
            root,
            "autocommit"@ + ".pid"@,
        ),
        daemon::pid_file(root, Mode::Cleanup) == state::joined(root, "cleanup"@ + ".pid"@),
{
}

/// What is done to the disk: to save, the directories are made, the text is written to another
/// file, and that takes the place of the registry file; to log, one line is appended; and only a
/// file that is not JSON is renamed when it is read.
pub proof fn law_actions_on_disk(
    root: Seq<char>,
    json: Seq<char>,
    log: Seq<char>,
    tag: Seq<char>,
    what: Found,
)
    ensures
        ({
            let save = store::save_ops(root, json);
            let append = store::append_ops(root, log, json);
            &&& save.len() == 5
            &&& save.take(3) == state::needed_dirs(root)
            &&& save[3] == (FileOp::Write {
                path: state::joined(root, "registry.tmp"@),
                text: json,
            })
            &&& save[4] == (FileOp::Rename {
                from: state::joined(root, "registry.tmp"@),
                to: state::joined(root, "registry.json"@),
            })
            &&& append.len() == 4
            &&& append.take(3) == state::needed_dirs(root)
            &&& append[3] == (FileOp::Append {
                path: state::joined(state::joined(root, "logs"@), log + ".log"@),
                text: json + "\n"@,
            })
            &&& store::load_ops(root, tag, what) == if what is Corrupt {
                seq![
                    FileOp::Rename {
                        from: state::joined(root, "registry.json"@),
                        to: state::joined(root, "registry.json"@) + ".bak-"@ + tag,
                    },
                ]
            } else {
                Seq::<FileOp>::empty()
            }
        }),
{
    assert(store::save_ops(root, json).take(3) =~= state::needed_dirs(root));
    assert(store::append_ops(root, log, json).take(3) =~= state::needed_dirs(root));
}

/// A text that may be missing, in JSON: a string, or `null`.
pub open spec fn as_json(value: Option<Seq<char>>) -> Json {
    match value {
        Some(text) => Json::Text(text),
        None => Json::Null,
    }
}

/// A registry is saved as one object under the key `repos`, with the paths as keys in the order of
/// the list; an entry has its seven fields, each with its value or `null`.
pub proof fn law_saved_shape(list: Seq<(Seq<char>, EntryView)>, e: EntryView)
    ensures
        store::registry_json(list) matches Json::Object(top) && top.len() == 1 && top[0].0
            == "repos"@ && (top[0].1 matches Json::Object(repos) && repos.len() == list.len()
            && forall|k: int|
            0 <= k < list.len() ==> (#[trigger] repos[k]).0 == list[k].0 && repos[k].1
                == store::entry_json(list[k].1)),
        store::entry_json(e) == Json::Object(
            seq![
                ("registered_at"@, as_json(e.registered_at)),
                ("last_check"@, as_json(e.last_check)),
                (
                    "last_dirty_count"@,
                    match e.last_dirty_count {
                        Some(n) => Json::Count(n),
                        None => Json::Null,
                    },
                ),
                ("remote_url"@, as_json(e.remote_url)),
                ("primary_branch"@, as_json(e.primary_branch)),
                ("last_auto_commit"@, as_json(e.last_auto_commit)),
                ("last_push_time"@, as_json(e.last_push_time)),
            ],
        ),
        store::saved_text(list) == json::json_pretty(store::registry_json(list)),
{
    let top = store::registry_json(list)->Object_0;
    assert(top[0].1 == Json::Object(store::repos_json(list)));
}

/// Whether `value` stands under `name` in an object; `null` where there is no such field.
pub open spec fn stands(list: Seq<(Seq<char>, Json)>, name: Seq<char>, value: Json) -> bool {
    ||| exists|k: int| 0 <= k < list.len() && #[trigger] list[k] == (name, value)
    ||| value is Null && forall|k: int| 0 <= k < list.len() ==> (#[trigger] list[k]).0 != name
}

/// The value of a field is what stands under its name, wherever in the object that is.
pub proof fn law_field_by_name(list: Seq<(Seq<char>, Json)>, name: Seq<char>, value: Json)
    requires
        json::distinct(list),
        stands(list, name, value),
    ensures
        store::field_in(list, name) == value,
{
    if exists|k: int| 0 <= k < list.len() && #[trigger] list[k] == (name, value) {
        let k = choose|k: int| 0 <= k < list.len() && #[trigger] list[k] == (name, value);
        store::lemma_field_in(list, k);
    } else {
        store::lemma_no_field(list, name);
    }
}

/// An entry is read field by field, by name, whatever the order of the fields and whatever else the
/// object holds: where each of the seven stands as a text or count, or as `null`, or is missing,
/// the entry has exactly these values. The same values are read from a list in the fixed order.
pub proof fn law_entry_is_read_by_name(list: Seq<(Seq<char>, Json)>, e: EntryView)
    requires
        json::distinct(list),
        stands(list, "registered_at"@, as_json(e.registered_at)),
        stands(list, "last_check"@, as_json(e.last_check)),
        stands(
            list,
            "last_dirty_count"@,
            match e.last_dirty_count {
                Some(n) => Json::Count(n),
                None => Json::Null,
            },
        ),
        stands(list, "remote_url"@, as_json(e.remote_url)),
        stands(list, "primary_branch"@, as_json(e.primary_branch)),
        stands(list, "last_auto_commit"@, as_json(e.last_auto_commit)),
        stands(list, "last_push_time"@, as_json(e.last_push_time)),
    ensures
        store::entry_in(Json::Object(list)) == Some(e),
        store::entry_in(
            Json::List(
                seq![
                    as_json(e.registered_at),
                    as_json(e.last_check),
                    match e.last_dirty_count {
                        Some(n) => Json::Count(n),
                        None => Json::Null,
                    },
                    as_json(e.remote_url),
                    as_json(e.primary_branch),
                    as_json(e.last_auto_commit),
                    as_json(e.last_push_time),
                ],
            ),
        ) == Some(e),
{
    law_field_by_name(list, "registered_at"@, as_json(e.registered_at));
    law_field_by_name(list, "last_check"@, as_json(e.last_check));
    law_field_by_name(
        list,
        "last_dirty_count"@,
        match e.last_dirty_count {
            Some(n) => Json::Count(n),
            None => Json::Null,
        },
    );
    law_field_by_name(list, "remote_url"@, as_json(e.remote_url));
    law_field_by_name(list, "primary_branch"@, as_json(e.primary_branch));
    law_field_by_name(list, "last_auto_commit"@, as_json(e.last_auto_commit));
    law_field_by_name(list, "last_push_time"@, as_json(e.last_push_time));
}

/// Whether a value is a text or `null`.
pub open spec fn text_or_null(value: Json) -> bool {
    value is Text || value is Null
}

/// Whether a value is a count or `null`.
pub open spec fn count_or_null(value: Json) -> bool {
    value is Count || value is Null
}

/// Nothing else is read as an entry: no other kind of value, no list of more than seven values, and
/// no object or list with a value of another kind in the place of a field.
pub proof fn law_nothing_else_is_an_entry(value: Json)
    ensures
        store::entry_in(value) is Some ==> {
            ||| value matches Json::Object(list) && text_or_null(
                store::field_in(list, "registered_at"@),
            ) && text_or_null(store::field_in(list, "last_check"@)) && count_or_null(
                store::field_in(list, "last_dirty_count"@),
            ) && text_or_null(store::field_in(list, "remote_url"@)) && text_or_null(
                store::field_in(list, "primary_branch"@),
            ) && text_or_null(store::field_in(list, "last_auto_commit"@)) && text_or_null(
                store::field_in(list, "last_push_time"@),
            )
            ||| value matches Json::List(list) && list.len() <= 7 && forall|k: int|
                0 <= k < list.len() ==> if k == 2 {
                    count_or_null(#[trigger] list[k])
                } else {
                    text_or_null(list[k])
                }
        },
{
    match value {
        Json::List(list) => {
            if store::entry_in(value) is Some {
                assert forall|k: int| 0 <= k < list.len() implies if k == 2 {
                    count_or_null(#[trigger] list[k])
                } else {
                    text_or_null(list[k])
                } by {
                    assert(k == 0 || k == 1 || k == 2 || k == 3 || k == 4 || k == 5 || k == 6);
                    assert(store::item_in(list, k) == list[k]);
                }
            }
        },
        _ => {},
    }
}

/// A list of paths and entries is a map in which a later entry takes the place of an earlier one.
pub proof fn law_list_as_map(list: Seq<(Seq<char>, EntryView)>, path: Seq<char>, e: EntryView)
    ensures
        registry::map_of(Seq::empty()) == Map::<Seq<char>, EntryView>::empty(),
        registry::map_of(list.push((path, e))) == registry::map_of(list).insert(path, e),
{
    assert(list.push((path, e)).drop_last() =~= list);
}

/// What a registry file holds. None, a blank one, and JSON that is no object hold no work tree; a
/// text that is no JSON is corrupt; an object holds a work tree for each of its fields, or for each
/// field of the object under `repos`.
pub proof fn law_registry_files(text: Seq<char>, list: Seq<(Seq<char>, Json)>)
    requires
        json::distinct(list),
    ensures
        store::found(None) == Found::Known(Map::empty()),
        text_laws::all_white(text) ==> store::found(Some(text)) == Found::Known(Map::empty()),
        !text_laws::all_white(text) && json::json_in(text) is None ==> store::found(Some(text))
            == Found::Corrupt,
        !text_laws::all_white(text) ==> (json::json_in(text) matches Some(value) ==> store::found(
            Some(text),
        ) == store::found_in(value) && (!(value is Object) ==> store::found_in(value)
            == Found::Known(Map::empty()))),
        (forall|k: int| 0 <= k < list.len() ==> (#[trigger] list[k]).0 != "repos"@) && (forall|k: int|
            0 <= k < list.len() ==> store::entry_in((#[trigger] list[k]).1) is Some)
            ==> store::found_in(Json::Object(list)) == Found::Known(
            registry::map_of(store::entries_in(list)),
        ),
        forall|k: int|
            0 <= k < list.len() ==> (#[trigger] store::entries_in(list)[k]).0 == list[k].0
                && store::entries_in(list)[k].1 == store::entry_in(list[k].1)->0,
        store::entries_in(list).len() == list.len(),
        forall|k: int|
            0 <= k < list.len() && (#[trigger] list[k]).0 == "repos"@ ==> (
            list[k].1 matches Json::Object(repos) ==> (forall|j: int|
                0 <= j < repos.len() ==> store::entry_in((#[trigger] repos[j]).1) is Some)
                ==> store::found_in(Json::Object(list)) == Found::Known(
                registry::map_of(store::entries_in(repos)),
            )),
{
    text_laws::law_blank(text);
    assert forall|k: int| 0 <= k < list.len() && (#[trigger] list[k]).0 == "repos"@ implies (
    list[k].1 matches Json::Object(repos) ==> (forall|j: int|
        0 <= j < repos.len() ==> store::entry_in((#[trigger] repos[j]).1) is Some)
        ==> store::found_in(Json::Object(list)) == Found::Known(
        registry::map_of(store::entries_in(repos)),
    )) by {
        store::lemma_field_in(list, k);
        assert(store::has_field(list, "repos"@));
    }
}

/// What is said of a registry file that is JSON but not what it should be. Under `repos` it is
/// what is wrong with the first entry by path that is none, or with the value itself; at the top
/// level the path is named as well. Of an entry it is what is wrong with the first field by name,
/// or with the first item of a list; that the list is too long; or that the value is of another
/// kind.
pub proof fn law_what_is_said_of_wrong_files(
    list: Seq<(Seq<char>, Json)>,
    wrong: int,
    value: Json,
)
    requires
        json::distinct(list),
        0 <= wrong < list.len(),
        store::entry_in(list[wrong].1) is None,
        forall|j: int|
            0 <= j < list.len() && j != wrong && store::entry_in((#[trigger] list[j]).1) is None
                ==> text::precedes(list[wrong].0, list[j].0),
    ensures
        (forall|j: int| 0 <= j < list.len() ==> (#[trigger] list[j]).0 != "repos"@)
            ==> store::found_in(Json::Object(list)) == Found::Wrong(
            "parse repo entry for "@ + list[wrong].0 + ": "@ + store::entry_refused(
                list[wrong].1,
            )->0,
        ),
        store::found_in(Json::Object(seq![("repos"@, Json::Object(list))])) == Found::Wrong(
            "parse registry.json via wrapped schema: "@ + store::entry_refused(list[wrong].1)->0,
        ),
        !(value is Object) ==> store::found_in(Json::Object(seq![("repos"@, value)]))
            == Found::Wrong(
            "parse registry.json via wrapped schema: "@ + json::object_error(value),
        ),
{
    let path = list[wrong].0;
    assert(store::first_wrong(list, path)) by {
        assert(list[wrong].0 == path);
        assert forall|j: int|
            0 <= j < list.len() && store::entry_in((#[trigger] list[j]).1) is None implies list[j].0
            == path || text::precedes(path, list[j].0) by {}
    }
    store::lemma_first_wrong_is_one(list, path, store::wrong_path(list));
    store::lemma_field_in(list, wrong);
    let top = seq![("repos"@, Json::Object(list))];
    assert(top[0].0 == "repos"@);
    store::lemma_field_in(top, 0);
    let other = seq![("repos"@, value)];
    assert(other[0].0 == "repos"@);
    store::lemma_field_in(other, 0);
    assert(store::wrong_entry_text(path) == "parse repo entry for "@ + path + ": "@);
}

/// Whether the field `name` of an object is the first one, by name, that is of the wrong kind.
pub open spec fn first_wrong_text(list: Seq<(Seq<char>, Json)>, k: int) -> bool {
    let ok = |j: int| text_or_null(store::field_in(list, text_field(j)));
    &&& !ok(k)
    &&& k > 0 ==> ok(0)
    &&& k > 1 ==> ok(1)
    &&& k > 1 ==> count_or_null(store::field_in(list, "last_dirty_count"@))
    &&& k > 2 ==> ok(2)
    &&& k > 3 ==> ok(3)
    &&& k > 4 ==> ok(4)
}

/// The fields that hold a text, by name.
pub open spec fn text_field(k: int) -> Seq<char> {
    if k == 0 {
        "last_auto_commit"@
    } else if k == 1 {
        "last_check"@
    } else if k == 2 {
        "last_push_time"@
    } else if k == 3 {
        "primary_branch"@
    } else if k == 4 {
        "registered_at"@
    } else {
        "remote_url"@
    }
}

/// What is said of a value that is no entry.
pub proof fn law_what_is_said_of_wrong_entries(
    list: Seq<(Seq<char>, Json)>,
    k: int,
    items: Seq<Json>,
    value: Json,
)
    ensures
        0 <= k < 6 && first_wrong_text(list, k) ==> store::entry_refused(Json::Object(list)) == Some(
            json::text_error(store::field_in(list, text_field(k))),
        ),
        text_or_null(store::field_in(list, "last_auto_commit"@)) && text_or_null(
            store::field_in(list, "last_check"@),
        ) && !count_or_null(store::field_in(list, "last_dirty_count"@)) ==> store::entry_refused(
            Json::Object(list),
        ) == Some(json::count_error(store::field_in(list, "last_dirty_count"@))),
        items.len() > 7 && (forall|j: int|
            0 <= j < 7 ==> if j == 2 {
                count_or_null(#[trigger] items[j])
            } else {
                text_or_null(items[j])
            }) ==> store::entry_refused(Json::List(items)) == Some(
            "invalid length "@ + text::decimal(items.len() as int)
                + ", expected fewer elements in array"@,
        ),
        0 <= k < items.len() && k < 7 && !(if k == 2 {
            count_or_null(items[k])
        } else {
            text_or_null(items[k])
        }) && (forall|j: int|
            0 <= j < k ==> if j == 2 {
                count_or_null(#[trigger] items[j])
            } else {
                text_or_null(items[j])
            }) ==> store::entry_refused(Json::List(items)) == Some(
            if k == 2 {
                json::count_error(items[k])
            } else {
                json::text_error(items[k])
            },
        ),
        !(value is Object) && !(value is List) ==> store::entry_refused(value) == Some(
            text::with_end(json::object_error(value), "a map"@, "struct RepoEntry"@),
        ),
{
    assert(forall|j: int| 0 <= j < items.len() ==> store::item_in(items, j) == #[trigger] items[j]);
    if items.len() > 0 {
        assert(store::item_in(items, 0) == items[0]);
    }
    if items.len() > 1 {
        assert(store::item_in(items, 1) == items[1]);
    }
    if items.len() > 2 {
        assert(store::item_in(items, 2) == items[2]);
    }
    if items.len() > 3 {
        assert(store::item_in(items, 3) == items[3]);
    }
    if items.len() > 4 {
        assert(store::item_in(items, 4) == items[4]);
    }
    if items.len() > 5 {
        assert(store::item_in(items, 5) == items[5]);
    }
    if items.len() > 6 {
        assert(store::item_in(items, 6) == items[6]);
    }
}

} // verus!
