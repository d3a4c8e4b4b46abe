//! How the registry and the logs are kept on disk.
use crate::json;
use crate::json::{
    count_field, count_value, list_items, object_fields, object_value, read_value, text_field,
    text_value, write_line, write_pretty, Json,
};
use crate::registry;
use crate::registry::{copy_text, EntryView, Registry, RepoEntry};
use crate::state;
use crate::state::{FileAction, FileOp, StateRoot};
use crate::text;
use crate::text::{blank, place, replace_end, same, show, Place};
use vstd::prelude::*;

verus! {

/// The value of the field `name` in an object; `null` where there is none.
pub open spec fn field_in(list: Seq<(Seq<char>, Json)>, name: Seq<char>) -> Json
    decreases list.len(),
{
    if list.len() == 0 {
        Json::Null
    } else if list.last().0 == name {
        list.last().1
    } else {
        field_in(list.drop_last(), name)
    }
}

/// Whether an object has a field `name`.
pub open spec fn has_field(list: Seq<(Seq<char>, Json)>, name: Seq<char>) -> bool {
    exists|i: int| 0 <= i < list.len() && (#[trigger] list[i]).0 == name
}

/// Item number `k` of a list; `null` where there is none.
pub open spec fn item_in(list: Seq<Json>, k: int) -> Json {
    if 0 <= k < list.len() {
        list[k]
    } else {
        Json::Null
    }
}

/// The entry with the given fields, where each of them is of the right kind.
pub open spec fn entry_with(
    registered_at: Json,
    last_check: Json,
    last_dirty_count: Json,
    remote_url: Json,
    primary_branch: Json,
    last_auto_commit: Json,
    last_push_time: Json,
) -> Option<EntryView> {
    if json::text_in(registered_at) is Some && json::text_in(last_check) is Some && json::count_in(
        last_dirty_count,
    ) is Some && json::text_in(remote_url) is Some && json::text_in(primary_branch) is Some
        && json::text_in(last_auto_commit) is Some && json::text_in(last_push_time) is Some {
        Some(
            EntryView {
                registered_at: json::text_in(registered_at)->0,
                last_check: json::text_in(last_check)->0,
                last_dirty_count: json::count_in(last_dirty_count)->0,
                remote_url: json::text_in(remote_url)->0,
                primary_branch: json::text_in(primary_branch)->0,
                last_auto_commit: json::text_in(last_auto_commit)->0,
                last_push_time: json::text_in(last_push_time)->0,
            },
        )
    } else {
        None
    }
}

/// The entry that a JSON value stands for: an object with the fields of an entry, where a missing
/// one counts as `null` and others are passed over, or a list of at most seven values in the order
/// of the fields.
pub open spec fn entry_in(value: Json) -> Option<EntryView> {
    match value {
        Json::Object(list) => entry_with(
            field_in(list, "registered_at"@),
            field_in(list, "last_check"@),
            field_in(list, "last_dirty_count"@),
            field_in(list, "remote_url"@),
            field_in(list, "primary_branch"@),
            field_in(list, "last_auto_commit"@),
            field_in(list, "last_push_time"@),
        ),
        Json::List(list) => if list.len() <= 7 {
            entry_with(
                item_in(list, 0),
                item_in(list, 1),
                item_in(list, 2),
                item_in(list, 3),
                item_in(list, 4),
                item_in(list, 5),
                item_in(list, 6),
            )
        } else {
            None
        },
        _ => None,
    }
}

/// Why a value is no text that may be missing; none where it is one.
pub open spec fn text_refused(value: Json) -> Option<Seq<char>> {
    if json::text_in(value) is None {
        Some(json::text_error(value))
    } else {
        None
    }
}

/// Why a value is no count that may be missing; none where it is one.
pub open spec fn count_refused(value: Json) -> Option<Seq<char>> {
    if json::count_in(value) is None {
        Some(json::count_error(value))
    } else {
        None
    }
}

/// The first of two errors.
pub open spec fn first_of(a: Option<Seq<char>>, b: Option<Seq<char>>) -> Option<Seq<char>> {
    if a is Some {
        a
    } else {
        b
    }
}

/// The error on an object that should be an entry: that of the first field, by name, which is not
/// of the right kind.
pub open spec fn object_refused(list: Seq<(Seq<char>, Json)>) -> Option<Seq<char>> {
    first_of(
        text_refused(field_in(list, "last_auto_commit"@)),
        first_of(
            text_refused(field_in(list, "last_check"@)),
            first_of(
                count_refused(field_in(list, "last_dirty_count"@)),
                first_of(
                    text_refused(field_in(list, "last_push_time"@)),
                    first_of(
                        text_refused(field_in(list, "primary_branch"@)),
                        first_of(
                            text_refused(field_in(list, "registered_at"@)),
                            text_refused(field_in(list, "remote_url"@)),
                        ),
                    ),
                ),
            ),
        ),
    )
}

/// The error on a list that should be an entry: that of the first item which is not of the right
/// kind, or that the list is too long.
pub open spec fn list_refused(list: Seq<Json>) -> Option<Seq<char>> {
    first_of(
        text_refused(item_in(list, 0)),
        first_of(
            text_refused(item_in(list, 1)),
            first_of(
                count_refused(item_in(list, 2)),
                first_of(
                    text_refused(item_in(list, 3)),
                    first_of(
                        text_refused(item_in(list, 4)),
                        first_of(
                            text_refused(item_in(list, 5)),
                            first_of(
                                text_refused(item_in(list, 6)),
                                if list.len() > 7 {
                                    Some(too_long(list.len() as int))
                                } else {
                                    None
                                },
                            ),
                        ),
                    ),
                ),
            ),
        ),
    )
}

/// The error on a list of `len` values that should be an entry.
pub open spec fn too_long(len: int) -> Seq<char> {
    "invalid length "@ + text::decimal(len) + ", expected fewer elements in array"@
}

/// The error on a value that should be an entry; none where it stands for one.
pub open spec fn entry_refused(value: Json) -> Option<Seq<char>> {
    match value {
        Json::Object(list) => object_refused(list),
        Json::List(list) => list_refused(list),
        other => Some(
            text::with_end(json::object_error(other), "a map"@, "struct RepoEntry"@),
        ),
    }
}

/// A value is read as an entry, or refused with an error, never both.
pub proof fn law_entry_is_read_or_refused(value: Json)
    ensures
        entry_in(value) is Some <==> entry_refused(value) is None,
{
}

/// The entries that the fields of an object stand for.
pub open spec fn entries_in(list: Seq<(Seq<char>, Json)>) -> Seq<(Seq<char>, EntryView)> {
    list.map_values(|f: (Seq<char>, Json)| (f.0, entry_in(f.1)->0))
}

/// Whether every field of an object stands for an entry.
pub open spec fn all_entries(list: Seq<(Seq<char>, Json)>) -> bool {
    forall|i: int| 0 <= i < list.len() ==> entry_in((#[trigger] list[i]).1) is Some
}

/// Whether `path` is the first path, in order, whose field stands for no entry.
pub open spec fn first_wrong(list: Seq<(Seq<char>, Json)>, path: Seq<char>) -> bool {
    &&& exists|i: int|
        0 <= i < list.len() && (#[trigger] list[i]).0 == path && entry_in(list[i].1) is None
    &&& forall|j: int|
        0 <= j < list.len() && entry_in((#[trigger] list[j]).1) is None ==> list[j].0 == path
            || text::precedes(path, list[j].0)
}

/// The first path, in order, whose field stands for no entry.
pub open spec fn wrong_path(list: Seq<(Seq<char>, Json)>) -> Seq<char> {
    choose|path: Seq<char>| first_wrong(list, path)
}

/// The error on the first path, in order, whose field stands for no entry.
pub open spec fn wrong_path_error(list: Seq<(Seq<char>, Json)>) -> Seq<char> {
    entry_refused(field_in(list, wrong_path(list)))->0
}

/// What a registry file turns out to be.
pub enum Found {
    /// A registry with these work trees.
    Known(Map<Seq<char>, EntryView>),
    /// Not JSON at all.
    Corrupt,
    /// JSON, but not what it should be: the error.
    Wrong(Seq<char>),
}

/// What a JSON value stands for as a registry. Both shapes are taken: the work trees under the key
/// `repos`, and the work trees at the top level. A value that is not an object holds none.
pub open spec fn found_in(value: Json) -> Found {
    match value {
        Json::Object(list) => if has_field(list, "repos"@) {
            match field_in(list, "repos"@) {
                Json::Object(repos) => if all_entries(repos) {
                    Found::Known(registry::map_of(entries_in(repos)))
                } else {
                    Found::Wrong(wrong_repos_text() + wrong_path_error(repos))
                },
                other => Found::Wrong(wrong_repos_text() + json::object_error(other)),
            }
        } else if all_entries(list) {
            Found::Known(registry::map_of(entries_in(list)))
        } else {
            Found::Wrong(wrong_entry_text(wrong_path(list)) + wrong_path_error(list))
        },
        _ => Found::Known(Map::empty()),
    }
}

/// What a registry file turns out to be; none stands for a missing one.
pub open spec fn found(file: Option<Seq<char>>) -> Found {
    match file {
        None => Found::Known(Map::empty()),
        Some(text) => if text::is_blank(text) {
            Found::Known(Map::empty())
        } else {
            match json::json_in(text) {
                None => Found::Corrupt,
                Some(value) => found_in(value),
            }
        },
    }
}

pub(crate) proof fn lemma_field_in(list: Seq<(Seq<char>, Json)>, i: int)
    requires
        json::distinct(list),
        0 <= i < list.len(),
    ensures
        field_in(list, list[i].0) == list[i].1,
    decreases list.len(),
{
    if i < list.len() - 1 {
        assert(list.last().0 == list[list.len() - 1].0);
        assert(list.drop_last()[i] == list[i]);
        assert(json::distinct(list.drop_last())) by {
            assert forall|a: int, b: int| 0 <= a < b < list.len() - 1 implies (
            #[trigger] list.drop_last()[a]).0 != (#[trigger] list.drop_last()[b]).0 by {
                assert(list[a].0 != list[b].0);
            }
        }
        lemma_field_in(list.drop_last(), i);
    }
}

pub(crate) proof fn lemma_no_field(list: Seq<(Seq<char>, Json)>, name: Seq<char>)
    requires
        forall|i: int| 0 <= i < list.len() ==> (#[trigger] list[i]).0 != name,
    ensures
        field_in(list, name) == Json::Null,
    decreases list.len(),
{
    if list.len() > 0 {
        assert forall|i: int| 0 <= i < list.len() - 1 implies (#[trigger] list.drop_last()[i]).0
            != name by {
            assert(list[i].0 != name);
        }
        lemma_no_field(list.drop_last(), name);
    }
}

/// Looks for a field: its place, or the number of fields where there is none.
fn find_field(list: &Vec<(String, serde_json::Value)>, name: &str) -> (at: usize)
    requires
        json::distinct(json::fields(list@)),
    ensures
        at <= list.len(),
        at < list.len() ==> list@[at as int].0@ == name@ && field_in(json::fields(list@), name@)
            == json::json_of(list@[at as int].1),
        at == list.len() ==> !has_field(json::fields(list@), name@) && field_in(
            json::fields(list@),
            name@,
        ) == Json::Null,
{
    let ghost views = json::fields(list@);
    let mut i: usize = 0;
    while i < list.len()
        invariant
            i <= list.len(),
            views == json::fields(list@),
            json::distinct(views),
            forall|k: int| 0 <= k < i ==> (#[trigger] views[k]).0 != name@,
        decreases list.len() - i,
    {
        proof {
            assert(views[i as int].0 == list@[i as int].0@);
        }
        if same(&list[i].0, name) {
            proof {
                lemma_field_in(views, i as int);
            }
            return i;
        }
        i = i + 1;
    }
    proof {
        lemma_no_field(views, name@);
    }
    list.len()
}

fn text_named(list: &Vec<(String, serde_json::Value)>, name: &str) -> (r: Result<
    Option<String>,
    String,
>)
    requires
        json::distinct(json::fields(list@)),
    ensures
        match r {
            Ok(text) => json::text_in(field_in(json::fields(list@), name@)) == Some(
                text.deep_view(),
            ),
            Err(why) => text_refused(field_in(json::fields(list@), name@)) == Some(why@),
        },
{
    let at: usize = find_field(list, name);
    if at == list.len() {
        return Ok(None);
    }
    text_field(&list[at].1)
}

fn count_named(list: &Vec<(String, serde_json::Value)>, name: &str) -> (r: Result<
    Option<u64>,
    String,
>)
    requires
        json::distinct(json::fields(list@)),
    ensures
        match r {
            Ok(count) => json::count_in(field_in(json::fields(list@), name@)) == Some(count),
            Err(why) => count_refused(field_in(json::fields(list@), name@)) == Some(why@),
        },
{
    let at: usize = find_field(list, name);
    if at == list.len() {
        return Ok(None);
    }
    count_field(&list[at].1)
}

fn text_at(list: &Vec<serde_json::Value>, k: usize) -> (r: Result<Option<String>, String>)
    ensures
        match r {
            Ok(text) => json::text_in(item_in(json::items(list@), k as int)) == Some(
                text.deep_view(),
            ),
            Err(why) => text_refused(item_in(json::items(list@), k as int)) == Some(why@),
        },
{
    if k >= list.len() {
        return Ok(None);
    }
    proof {
        assert(json::items(list@)[k as int] == json::json_of(list@[k as int]));
    }
    text_field(&list[k])
}

fn count_item(list: &Vec<serde_json::Value>, k: usize) -> (r: Result<Option<u64>, String>)
    ensures
        match r {
            Ok(count) => json::count_in(item_in(json::items(list@), k as int)) == Some(count),
            Err(why) => count_refused(item_in(json::items(list@), k as int)) == Some(why@),
        },
{
    if k >= list.len() {
        return Ok(None);
    }
    proof {
        assert(json::items(list@)[k as int] == json::json_of(list@[k as int]));
    }
    count_field(&list[k])
}

fn read_entry(value: &serde_json::Value) -> (r: Result<RepoEntry, String>)
    ensures
        match r {
            Ok(entry) => entry_in(json::json_of(*value)) == Some(entry@),
            Err(why) => entry_in(json::json_of(*value)) is None && entry_refused(
                json::json_of(*value),
            ) == Some(why@),
        },
{
    match object_fields(value) {
        Ok(list) => {
            let last_auto_commit = text_named(&list, "last_auto_commit")?;
            let last_check = text_named(&list, "last_check")?;
            let last_dirty_count = count_named(&list, "last_dirty_count")?;
            let last_push_time = text_named(&list, "last_push_time")?;
            let primary_branch = text_named(&list, "primary_branch")?;
            let registered_at = text_named(&list, "registered_at")?;
            let remote_url = text_named(&list, "remote_url")?;
            Ok(
                RepoEntry {
                    registered_at,
                    last_check,
                    last_dirty_count,
                    remote_url,
                    primary_branch,
                    last_auto_commit,
                    last_push_time,
                },
            )
        },
        Err(refused) => match list_items(value) {
            Some(list) => {
                let entry = RepoEntry {
                    registered_at: text_at(&list, 0)?,
                    last_check: text_at(&list, 1)?,
                    last_dirty_count: count_item(&list, 2)?,
                    remote_url: text_at(&list, 3)?,
                    primary_branch: text_at(&list, 4)?,
                    last_auto_commit: text_at(&list, 5)?,
                    last_push_time: text_at(&list, 6)?,
                };
                if list.len() > 7 {
                    return Err(
                        "invalid length ".to_owned().concat(&show(list.len() as u64)).concat(
                            ", expected fewer elements in array",
                        ),
                    );
                }
                Ok(entry)
            },
            None => Err(replace_end(&refused, "a map", "struct RepoEntry")),
        },
    }
}

/// Reads every field of an object as an entry; else gives the first path, in order, whose field is
/// none, and why.
fn read_entries(list: &Vec<(String, serde_json::Value)>) -> (r: Result<
    Vec<(String, RepoEntry)>,
    (String, String),
>)
    requires
        json::distinct(json::fields(list@)),
    ensures
        match r {
            Ok(entries) => all_entries(json::fields(list@)) && registry::pairs(entries@)
                == entries_in(json::fields(list@)),
            Err((path, why)) => !all_entries(json::fields(list@)) && path@ == wrong_path(
                json::fields(list@),
            ) && why@ == wrong_path_error(json::fields(list@)),
        },
{
    let ghost views = json::fields(list@);
    let mut entries: Vec<(String, RepoEntry)> = Vec::new();
    let mut wrong: Option<(String, String)> = None;
    let mut i: usize = 0;
    while i < list.len()
        invariant
            i <= list.len(),
            views == json::fields(list@),
            json::distinct(views),
            match wrong {
                None => entries.len() == i && forall|k: int|
                    0 <= k < i ==> (#[trigger] entries@[k]).0@ == views[k].0 && entry_in(
                        views[k].1,
                    ) == Some(entries@[k].1@),
                Some((path, why)) => first_wrong(views.take(i as int), path@) && entry_refused(
                    field_in(views, path@),
                ) == Some(why@),
            },
        decreases list.len() - i,
    {
        let path = &list[i].0;
        let ghost before = views.take(i as int);
        let ghost now = views.take(i + 1);
        proof {
            assert(views[i as int] == (path@, json::json_of(list@[i as int].1)));
            assert(now[i as int] == views[i as int]);
            assert(forall|k: int| 0 <= k < i ==> now[k] == before[k]);
        }
        match read_entry(&list[i].1) {
            Ok(entry) => {
                if wrong.is_none() {
                    entries.push((path.clone(), entry));
                } else {
                    proof {
                        let p = (wrong->0).0@;
                        let w = choose|k: int|
                            0 <= k < before.len() && (#[trigger] before[k]).0 == p && entry_in(
                                before[k].1,
                            ) is None;
                        assert(now[w] == before[w]);
                        assert(first_wrong(now, p));
                    }
                }
            },
            Err(why) => {
                let earlier = match &wrong {
                    None => false,
                    Some((first, _)) => match place(path, first) {
                        Place::Before => false,
                        _ => true,
                    },
                };
                if earlier {
                    proof {
                        let p = (wrong->0).0@;
                        let w = choose|k: int|
                            0 <= k < before.len() && (#[trigger] before[k]).0 == p && entry_in(
                                before[k].1,
                            ) is None;
                        assert(now[w] == before[w]);
                        assert(first_wrong(now, p));
                    }
                } else {
                    proof {
                        lemma_new_first(before, now, wrong, path@, entries@);
                        lemma_field_in(views, i as int);
                    }
                    wrong = Some((path.clone(), why));
                }
            },
        }
        i = i + 1;
    }
    proof {
        assert(views.take(i as int) =~= views);
    }
    match wrong {
        Some(bad) => {
            proof {
                let w = choose|k: int|
                    0 <= k < views.len() && (#[trigger] views[k]).0 == bad.0@ && entry_in(
                        views[k].1,
                    ) is None;
                assert(entry_in(views[w].1) is None);
                lemma_first_wrong_is_one(views, bad.0@, wrong_path(views));
            }
            Err(bad)
        },
        None => {
            proof {
                assert forall|k: int| 0 <= k < views.len() implies entry_in(
                    (#[trigger] views[k]).1,
                ) is Some by {
                    assert(entries@[k].0@ == views[k].0);
                }
                assert(registry::pairs(entries@) =~= entries_in(views)) by {
                    assert forall|k: int| 0 <= k < views.len() implies #[trigger] registry::pairs(
                        entries@,
                    )[k] == entries_in(views)[k] by {
                        assert(entries@[k].0@ == views[k].0);
                    }
                }
            }
            Ok(entries)
        },
    }
}

/// There is only one first path whose field stands for no entry.
pub(crate) proof fn lemma_first_wrong_is_one(
    list: Seq<(Seq<char>, Json)>,
    path: Seq<char>,
    other: Seq<char>,
)
    requires
        first_wrong(list, path),
        first_wrong(list, other),
    ensures
        path == other,
{
    if path != other {
        let i = choose|i: int|
            0 <= i < list.len() && (#[trigger] list[i]).0 == path && entry_in(list[i].1) is None;
        let j = choose|j: int|
            0 <= j < list.len() && (#[trigger] list[j]).0 == other && entry_in(list[j].1) is None;
        assert(text::precedes(path, list[j].0));
        assert(text::precedes(other, list[i].0));
        text::lemma_precedes_transitive(path, other, path);
        text::lemma_precedes_irreflexive(path);
    }
}

/// A wrong field that stands before the first one so far, or is the first at all, is the first one
/// now.
proof fn lemma_new_first(
    before: Seq<(Seq<char>, Json)>,
    now: Seq<(Seq<char>, Json)>,
    wrong: Option<(String, String)>,
    path: Seq<char>,
    entries: Seq<(String, RepoEntry)>,
)
    requires
        now.len() == before.len() + 1,
        forall|k: int| 0 <= k < before.len() ==> now[k] == before[k],
        now.last().0 == path,
        entry_in(now.last().1) is None,
        match wrong {
            None => entries.len() == before.len() && forall|k: int|
                0 <= k < before.len() ==> (#[trigger] entries[k]).0@ == before[k].0 && entry_in(
                    before[k].1,
                ) == Some(entries[k].1@),
            Some((first, _)) => first_wrong(before, first@) && text::precedes(path, first@),
        },
    ensures
        first_wrong(now, path),
{
    let last = now.len() - 1;
    assert(now[last].0 == path && entry_in(now[last].1) is None);
    assert forall|j: int|
        0 <= j < now.len() && entry_in((#[trigger] now[j]).1) is None implies now[j].0 == path
        || text::precedes(path, now[j].0) by {
        if j < before.len() {
            assert(now[j] == before[j]);
            match wrong {
                None => {
                    assert(entries[j].0@ == before[j].0);
                },
                Some((first, _)) => {
                    if before[j].0 != first@ {
                        text::lemma_precedes_transitive(path, first@, before[j].0);
                    }
                },
            }
        }
    }
}

/// What a registry file turned out to be, or why it cannot be read.
fn understand(value: &serde_json::Value) -> (r: Result<Registry, String>)
    ensures
        match found_in(json::json_of(*value)) {
            Found::Known(known) => r matches Ok(registry) && registry@ == known,
            Found::Wrong(error) => r matches Err(why) && why@ == error,
            Found::Corrupt => false,
        },
{
    let list = match object_fields(value) {
        Ok(list) => list,
        Err(_) => {
            return Ok(Registry::new());
        },
    };
    let at: usize = find_field(&list, "repos");
    if at < list.len() {
        proof {
            assert(json::fields(list@)[at as int].0 == "repos"@);
            assert(has_field(json::fields(list@), "repos"@));
        }
        let why = match object_fields(&list[at].1) {
            Ok(repos) => match read_entries(&repos) {
                Ok(entries) => {
                    return Ok(Registry::from_entries(entries));
                },
                Err((_, why)) => why,
            },
            Err(why) => why,
        };
        return Err("parse registry.json via wrapped schema: ".to_owned().concat(&why));
    }
    match read_entries(&list) {
        Ok(entries) => Ok(Registry::from_entries(entries)),
        Err((path, why)) => Err(
            "parse repo entry for ".to_owned().concat(&path).concat(": ").concat(&why),
        ),
    }
}

/// How the error begins on work trees under `repos` that are not what they should be.
pub open spec fn wrong_repos_text() -> Seq<char> {
    "parse registry.json via wrapped schema: "@
}

/// How the error begins on an entry at the top level that is not what it should be.
pub open spec fn wrong_entry_text(path: Seq<char>) -> Seq<char> {
    "parse repo entry for "@ + path + ": "@
}

/// The name under which a registry file is put aside.
pub open spec fn aside_file(root: Seq<char>, tag: Seq<char>) -> Seq<char> {
    state::registry_file(root) + ".bak-"@ + tag
}

/// What is done to the disk when a registry file turned out to be so.
pub open spec fn load_ops(root: Seq<char>, tag: Seq<char>, found: Found) -> Seq<FileOp> {
    if found is Corrupt {
        seq![
            FileOp::Rename { from: state::registry_file(root), to: aside_file(root, tag) },
        ]
    } else {
        Seq::empty()
    }
}

/// Reads the registry, given what its file holds; none stands for a missing file. A file that is
/// not JSON is put aside, never destroyed, and counts as an empty registry.
pub fn load(state_root: &StateRoot, file: Option<&str>, tag: &str) -> (r: (
    Result<Registry, String>,
    Vec<FileAction>,
))
    ensures
        ({
            let found = found(
                match file {
                    Some(text) => Some(text@),
                    None => None,
                },
            );
            &&& state::ops(r.1@) == load_ops(state_root@, tag@, found)
            &&& match found {
                Found::Known(known) => r.0 matches Ok(registry) && registry@ == known,
                Found::Corrupt => r.0 matches Ok(registry) && registry@ == Map::<
                    Seq<char>,
                    EntryView,
                >::empty(),
                Found::Wrong(error) => r.0 matches Err(why) && why@ == error,
            }
        }),
{
    let none: Vec<FileAction> = Vec::new();
    proof {
        assert(state::ops(none@) =~= Seq::empty());
    }
    let text = match file {
        None => {
            return (Ok(Registry::new()), none);
        },
        Some(text) => text,
    };
    if blank(text) {
        return (Ok(Registry::new()), none);
    }
    match read_value(text) {
        Ok(value) => (understand(&value), none),
        Err(_) => {
            let list = vec![
                FileAction::Rename {
                    from: state_root.registry_path(),
                    to: state_root.registry_path().concat(".bak-").concat(tag),
                },
            ];
            proof {
                assert(state::ops(list@) =~= load_ops(state_root@, tag@, Found::Corrupt));
            }
            (Ok(Registry::new()), list)
        },
    }
}

/// A text that may be missing, as JSON.
pub open spec fn text_json(text: Option<Seq<char>>) -> Json {
    match text {
        Some(text) => Json::Text(text),
        None => Json::Null,
    }
}

/// The JSON object that an entry is saved as.
pub open spec fn entry_json(e: EntryView) -> Json {
    Json::Object(
        seq![
            ("registered_at"@, text_json(e.registered_at)),
            ("last_check"@, text_json(e.last_check)),
            (
                "last_dirty_count"@,
                match e.last_dirty_count {
                    Some(n) => Json::Count(n),
                    None => Json::Null,
                },
            ),
            ("remote_url"@, text_json(e.remote_url)),
            ("primary_branch"@, text_json(e.primary_branch)),
            ("last_auto_commit"@, text_json(e.last_auto_commit)),
            ("last_push_time"@, text_json(e.last_push_time)),
        ],
    )
}

/// The work trees of a list, as the fields of a JSON object.
pub open spec fn repos_json(list: Seq<(Seq<char>, EntryView)>) -> Seq<(Seq<char>, Json)> {
    list.map_values(|e: (Seq<char>, EntryView)| (e.0, entry_json(e.1)))
}

/// The JSON object that a registry is saved as: the work trees under the key `repos`.
pub open spec fn registry_json(list: Seq<(Seq<char>, EntryView)>) -> Json {
    Json::Object(seq![("repos"@, Json::Object(repos_json(list)))])
}

proof fn lemma_entry_fields_differ(e: EntryView)
    ensures
        entry_json(e) matches Json::Object(list) && json::distinct(list),
{
    reveal_strlit("registered_at");
    reveal_strlit("last_check");
    reveal_strlit("last_dirty_count");
    reveal_strlit("remote_url");
    reveal_strlit("primary_branch");
    reveal_strlit("last_auto_commit");
    reveal_strlit("last_push_time");
    assert("last_dirty_count"@[5] == 'd' && "last_auto_commit"@[5] == 'a');
    assert("last_check"@[0] == 'l' && "remote_url"@[0] == 'r');
    assert("primary_branch"@[0] == 'p' && "last_push_time"@[0] == 'l');
    let list = entry_json(e)->Object_0;
    assert(list[0].0 == "registered_at"@);
    assert(list[1].0 == "last_check"@);
    assert(list[2].0 == "last_dirty_count"@);
    assert(list[3].0 == "remote_url"@);
    assert(list[4].0 == "primary_branch"@);
    assert(list[5].0 == "last_auto_commit"@);
    assert(list[6].0 == "last_push_time"@);
    assert forall|i: int, j: int| 0 <= i < j < list.len() implies (#[trigger] list[i]).0 != (
    #[trigger] list[j]).0 by {
        assert(i == 0 || i == 1 || i == 2 || i == 3 || i == 4 || i == 5 || i == 6);
        assert(j == 0 || j == 1 || j == 2 || j == 3 || j == 4 || j == 5 || j == 6);
    }
}

fn entry_value(e: &RepoEntry) -> (r: serde_json::Value)
    ensures
        json::json_of(r) == entry_json(e@),
{
    let list = vec![
        ("registered_at".to_owned(), text_value(copy_text(&e.registered_at))),
        ("last_check".to_owned(), text_value(copy_text(&e.last_check))),
        ("last_dirty_count".to_owned(), count_value(e.last_dirty_count)),
        ("remote_url".to_owned(), text_value(copy_text(&e.remote_url))),
        ("primary_branch".to_owned(), text_value(copy_text(&e.primary_branch))),
        ("last_auto_commit".to_owned(), text_value(copy_text(&e.last_auto_commit))),
        ("last_push_time".to_owned(), text_value(copy_text(&e.last_push_time))),
    ];
    proof {
        lemma_entry_fields_differ(e@);
        assert(entry_json(e@) == Json::Object(json::fields(list@))) by {
            assert(json::fields(list@) =~= entry_json(e@)->Object_0);
        }
    }
    object_value(list)
}

proof fn lemma_repos_differ(list: Seq<(Seq<char>, EntryView)>)
    requires
        registry::ascending(list),
    ensures
        json::distinct(repos_json(list)),
{
    assert forall|i: int, j: int| 0 <= i < j < list.len() implies (
    #[trigger] repos_json(list)[i]).0 != (#[trigger] repos_json(list)[j]).0 by {
        assert(text::precedes(list[i].0, list[j].0));
        text::lemma_precedes_irreflexive(list[i].0);
    }
}

fn registry_value(registry: &Registry) -> (r: serde_json::Value)
    ensures
        json::json_of(r) == registry_json(registry.listing()),
        registry::ascending(registry.listing()),
{
    let entries = registry.entries();
    let ghost list = registry.listing();
    let mut repos: Vec<(String, serde_json::Value)> = Vec::new();
    let mut i: usize = 0;
    while i < entries.len()
        invariant
            i <= entries.len(),
            repos.len() == i,
            registry::pairs(entries@) == list,
            forall|k: int|
                0 <= k < i ==> (#[trigger] repos@[k]).0@ == list[k].0 && json::json_of(repos@[k].1)
                    == entry_json(list[k].1),
        decreases entries.len() - i,
    {
        proof {
            assert(list[i as int] == (entries@[i as int].0@, entries@[i as int].1@));
        }
        repos.push((entries[i].0.clone(), entry_value(&entries[i].1)));
        i = i + 1;
    }
    proof {
        lemma_repos_differ(list);
        assert(json::fields(repos@) =~= repos_json(list));
    }
    let top = vec![("repos".to_owned(), object_value(repos))];
    proof {
        assert(json::fields(top@) =~= seq![("repos"@, Json::Object(repos_json(list)))]);
    }
    object_value(top)
}

proof fn lemma_registry_is_plain(list: Seq<(Seq<char>, EntryView)>)
    ensures
        json::plain(registry_json(list), 16),
{
    assert forall|i: int| 0 <= i < list.len() implies json::plain(
        (#[trigger] repos_json(list)[i]).1,
        14,
    ) by {
        let fields = entry_json(list[i].1)->Object_0;
        assert(repos_json(list)[i].1 == entry_json(list[i].1));
        assert(forall|k: int| 0 <= k < 7 ==> json::plain((#[trigger] fields[k]).1, 13));
    }
    assert(json::plain(Json::Object(repos_json(list)), 15));
}

/// What is done to the disk to save a registry, as the text `json`.
pub open spec fn save_ops(root: Seq<char>, json: Seq<char>) -> Seq<FileOp> {
    state::needed_dirs(root) + seq![
        FileOp::Write { path: state::registry_tmp_file(root), text: json },
        FileOp::Rename {
            from: state::registry_tmp_file(root),
            to: state::registry_file(root),
        },
    ]
}

/// The text that a registry is saved as.
pub open spec fn saved_text(list: Seq<(Seq<char>, EntryView)>) -> Seq<char> {
    json::json_pretty(registry_json(list))
}

/// Whether a text is read as the registry it was written for.
pub open spec fn reads_back(text: Seq<char>, list: Seq<(Seq<char>, EntryView)>) -> bool {
    !text::is_blank(text) && json::json_in(text) == Some(registry_json(list))
}

/// Saves a registry: it is written to another file, which then takes the place of the registry
/// file. The text is one that is read as the same registry.
pub fn save(state_root: &StateRoot, registry: &Registry) -> (list: Vec<FileAction>)
    ensures
        state::ops(list@) == save_ops(state_root@, saved_text(registry.listing())),
        reads_back(saved_text(registry.listing()), registry.listing()),
        registry::ascending(registry.listing()),
{
    let value = registry_value(registry);
    let ghost text = saved_text(registry.listing());
    let mut list = state_root.ensure_dirs();
    let ghost dirs = state::ops(list@);
    match write_pretty(&value) {
        Ok(json) => {
            list.push(FileAction::Write { path: state_root.registry_tmp_path(), text: json });
        },
        Err(_) => {},
    }
    list.push(
        FileAction::Rename {
            from: state_root.registry_tmp_path(),
            to: state_root.registry_path(),
        },
    );
    proof {
        lemma_registry_is_plain(registry.listing());
        assert(state::ops(list@) =~= save_ops(state_root@, text)) by {
            assert(dirs.len() == 3);
            assert(forall|k: int| 0 <= k < 3 ==> state::ops(list@)[k] == dirs[k]);
        }
    }
    list
}

/// What is done to the disk to log an event whose JSON text is `json`.
pub open spec fn append_ops(root: Seq<char>, log: Seq<char>, json: Seq<char>) -> Seq<FileOp> {
    state::needed_dirs(root) + seq![
        FileOp::Append { path: state::log_file(root, log), text: json + "\n"@ },
    ]
}

/// Logs an event in the file named `log`: its JSON text is appended as one line.
pub fn append_event(state_root: &StateRoot, log: &str, event: &serde_json::Value) -> (list: Vec<
    FileAction,
>)
    ensures
        state::ops(list@) == append_ops(
            state_root@,
            log@,
            json::json_line(json::json_of(*event)),
        ),
        !json::json_line(json::json_of(*event)).contains('\n'),
{
    let mut list = state_root.ensure_dirs();
    let ghost dirs = state::ops(list@);
    match write_line(event) {
        Ok(json) => {
            list.push(
                FileAction::Append { path: state_root.log_path(log), text: json.concat("\n") },
            );
        },
        Err(_) => {},
    }
    proof {
        assert(state::ops(list@) =~= append_ops(
            state_root@,
            log@,
            json::json_line(json::json_of(*event)),
        )) by {
            assert(dirs.len() == 3);
            assert(forall|k: int| 0 <= k < 3 ==> state::ops(list@)[k] == dirs[k]);
        }
    }
    list
}

proof fn lemma_entry_reads_back(e: EntryView)
    ensures
        entry_in(entry_json(e)) == Some(e),
{
    lemma_entry_fields_differ(e);
    let list = entry_json(e)->Object_0;
    lemma_field_in(list, 0);
    lemma_field_in(list, 1);
    lemma_field_in(list, 2);
    lemma_field_in(list, 3);
    lemma_field_in(list, 4);
    lemma_field_in(list, 5);
    lemma_field_in(list, 6);
}

proof fn lemma_repos_read_back(list: Seq<(Seq<char>, EntryView)>)
    ensures
        all_entries(repos_json(list)),
        entries_in(repos_json(list)) == list,
{
    let repos = repos_json(list);
    assert forall|i: int| 0 <= i < repos.len() implies entry_in((#[trigger] repos[i]).1)
        == Some(list[i].1) by {
        lemma_entry_reads_back(list[i].1);
    }
    assert(entries_in(repos) =~= list);
}

/// A registry that was saved is read again as it was: a text that reads back as the registry with
/// the given listing is found to hold exactly that registry.
pub proof fn law_load_gives_back_what_was_saved(
    text: Seq<char>,
    list: Seq<(Seq<char>, EntryView)>,
)
    requires
        reads_back(text, list),
    ensures
        found(Some(text)) == Found::Known(registry::map_of(list)),
{
    lemma_repos_read_back(list);
    let top = seq![("repos"@, Json::Object(repos_json(list)))];
    assert(top[0].0 == "repos"@);
    lemma_field_in(top, 0);
}

/// Both shapes of a registry file are read alike: whether the work trees stand at the top level or
/// under the key `repos`, the same ones are found. A work tree cannot have the path `repos` in the
/// first shape.
pub proof fn law_both_shapes_are_read_alike(list: Seq<(Seq<char>, Json)>)
    requires
        !has_field(list, "repos"@),
        all_entries(list),
    ensures
        found_in(Json::Object(seq![("repos"@, Json::Object(list))])) == found_in(
            Json::Object(list),
        ),
{
    let top = seq![("repos"@, Json::Object(list))];
    assert(top[0].0 == "repos"@);
    lemma_field_in(top, 0);
}

/// A missing field and `null` are read alike, as a value that was never written.
pub proof fn law_missing_and_null_are_read_alike(list: Seq<(Seq<char>, Json)>, name: Seq<char>)
    requires
        !has_field(list, name),
    ensures
        entry_in(Json::Object(list.push((name, Json::Null)))) == entry_in(Json::Object(list)),
{
    let longer = list.push((name, Json::Null));
    assert(longer.drop_last() =~= list);
    lemma_no_field(list, name);
    assert forall|other: Seq<char>| #[trigger] field_in(longer, other) == field_in(list, other) by {
        if other == name {
            lemma_no_field(list, name);
        }
    }
}

} // verus!
