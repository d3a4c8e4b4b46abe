use airlock_v2::clock::{now_iso, parse_iso, short_ts, Stamp};
use airlock_v2::registry::{upsert_entry, upsert_entry_at, Registry, RepoEntry};
use airlock_v2::state::FileAction;
use airlock_v2::store::{append_event, load, save};
use airlock_v2::StateRoot;

fn root() -> StateRoot {
    StateRoot::from_path("/state".to_string())
}

/// What the disk holds under `path` after the given actions, on a disk that is empty before.
fn file_after(actions: &[FileAction], path: &str) -> Option<String> {
    let mut files: Vec<(String, String)> = Vec::new();
    for action in actions {
        match action {
            FileAction::CreateDir(_) => {}
            FileAction::Write { path, text } => {
                files.retain(|f| f.0 != *path);
                files.push((path.clone(), text.clone()));
            }
            FileAction::Append { path, text } => {
                match files.iter_mut().find(|f| f.0 == *path) {
                    Some(file) => file.1.push_str(text),
                    None => files.push((path.clone(), text.clone())),
                }
            }
            FileAction::Rename { from, to } => {
                if let Some(at) = files.iter().position(|f| f.0 == *from) {
                    let text = files.remove(at).1;
                    files.retain(|f| f.0 != *to);
                    files.push((to.clone(), text));
                }
            }
        }
    }
    files.into_iter().find(|f| f.0 == path).map(|f| f.1)
}

fn loaded(text: &str) -> Registry {
    let (result, actions) = load(&root(), Some(text), "20260717T0100");
    assert!(actions.is_empty());
    result.unwrap()
}

#[test]
fn empty_registry_on_missing_file() {
    let (reg, actions) = load(&root(), None, "20260717T0100");
    assert!(reg.unwrap().is_empty());
    assert!(actions.is_empty());
}

#[test]
fn round_trip_preserves_entries() {
    let mut reg = Registry::default();
    reg.insert(
        "/a/path".into(),
        RepoEntry {
            registered_at: Some("2026-07-17T01:00:00Z".into()),
            last_check: Some("2026-07-17T01:00:00Z".into()),
            last_dirty_count: Some(3),
            remote_url: Some("git@github.com:x/y.git".into()),
            primary_branch: Some("main".into()),
            last_auto_commit: None,
            last_push_time: None,
        },
    );
    let text = file_after(&save(&root(), &reg), &root().registry_path()).unwrap();
    assert_eq!(loaded(&text), reg);
}

#[test]
fn accepts_legacy_flat_map_shape() {
    let flat = r#"{
            "/some/repo": {
                "registered_at": "2026-07-17T01:00:00Z",
                "last_check":    "2026-07-17T01:00:00Z",
                "last_dirty_count": 0,
                "remote_url": "",
                "primary_branch": "main"
            }
        }"#;
    let reg = loaded(flat);
    assert_eq!(reg.len(), 1);
    let entry = reg.get("/some/repo").unwrap();
    assert_eq!(entry.primary_branch.as_deref(), Some("main"));
    assert_eq!(entry.last_dirty_count, Some(0));
    assert_eq!(entry.remote_url.as_deref(), Some(""));
    assert_eq!(entry.last_auto_commit, None);
}

#[test]
fn save_is_atomic_via_rename() {
    let mut reg = Registry::default();
    reg.insert("/x".into(), RepoEntry::default());
    let actions = save(&root(), &reg);
    assert_eq!(file_after(&actions, "/state/registry.tmp"), None, "tmp file must be moved into final position");
    assert!(file_after(&actions, &root().registry_path()).is_some());
    // Until the last action, the registry file itself is not touched.
    let early = &actions[..actions.len() - 1];
    assert_eq!(file_after(early, &root().registry_path()), None);
    assert_eq!(
        actions[actions.len() - 1],
        FileAction::Rename {
            from: "/state/registry.tmp".to_string(),
            to: "/state/registry.json".to_string(),
        }
    );
}

#[test]
fn preserves_null_for_last_push_time() {
    let json = r#"{"repos": {"/r": {"primary_branch": "main", "last_push_time": null}}}"#;
    let reg = loaded(json);
    assert_eq!(reg.len(), 1);
    let entry = reg.get("/r").unwrap();
    assert!(entry.last_push_time.is_none());
}

#[test]
fn append_event_writes_ndjson_line() {
    let mut map = serde_json::Map::new();
    map.insert("event".to_string(), serde_json::Value::from("test"));
    map.insert("n".to_string(), serde_json::Value::from(1));
    let event = serde_json::Value::Object(map);
    let actions = append_event(&root(), "test", &event);
    let content = file_after(&actions, &root().log_path("test")).unwrap();
    assert!(content.contains("\"event\":\"test\""));
    assert!(content.ends_with('\n'));
    assert_eq!(content, "{\"event\":\"test\",\"n\":1}\n");
    assert_eq!(root().log_path("test"), "/state/logs/test.log");
}

#[test]
fn an_event_with_a_line_feed_is_still_one_line() {
    let mut map = serde_json::Map::new();
    map.insert("msg".to_string(), serde_json::Value::from("a\nb"));
    let event = serde_json::Value::Object(map);
    let mut actions = append_event(&root(), "cleanup", &event);
    actions.extend(append_event(&root(), "cleanup", &event));
    let content = file_after(&actions, "/state/logs/cleanup.log").unwrap();
    assert_eq!(content, "{\"msg\":\"a\\nb\"}\n{\"msg\":\"a\\nb\"}\n");
}

#[test]
fn upsert_entry_preserves_registered_at() {
    let mut reg = Registry::default();
    upsert_entry(&mut reg, "/r", |e| RepoEntry { primary_branch: Some("main".into()), ..e });
    let first = reg.get("/r").unwrap().registered_at.clone();
    assert!(first.is_some());
    upsert_entry(&mut reg, "/r", |e| RepoEntry { last_dirty_count: Some(5), ..e });
    let second = reg.get("/r").unwrap().registered_at.clone();
    assert_eq!(first, second);
    assert_eq!(reg.get("/r").unwrap().last_dirty_count, Some(5));
    assert_eq!(reg.get("/r").unwrap().primary_branch.as_deref(), Some("main"));
}

#[test]
fn upsert_touches_one_entry_only() {
    let mut reg = Registry::new();
    reg.insert("/other".into(), RepoEntry::default());
    upsert_entry_at(&mut reg, "/r", "T1", |e| e);
    upsert_entry_at(&mut reg, "/r", "T2", |e| e);
    assert_eq!(reg.get("/other"), Some(&RepoEntry::default()));
    let entry = reg.get("/r").unwrap();
    assert_eq!(entry.registered_at.as_deref(), Some("T1"));
    assert_eq!(entry.last_check.as_deref(), Some("T2"));
}

#[test]
fn parse_iso_handles_z_suffix() {
    assert!(parse_iso("2026-07-17T01:00:00Z").is_some());
    assert!(parse_iso("not-a-date").is_none());
    assert_eq!(parse_iso("2026-07-17T01:00:00Z"), Some(1_784_250_000));
    assert_eq!(parse_iso("1970-01-01T01:00:00+01:00"), Some(0));
}

#[test]
fn clock_forms() {
    let stamp = Stamp::at(1_784_250_000, 255);
    assert_eq!(stamp.secs, 1_784_250_000);
    assert_eq!(stamp.iso, "2026-07-17T01:00:00Z");
    assert_eq!(stamp.tag, "20260717T0100");
    assert_eq!(stamp.id, "ff");
    assert_eq!(parse_iso(&stamp.iso), Some(1_784_250_000));
    assert_eq!(parse_iso(&now_iso()).is_some(), true);
    assert_eq!(short_ts().len(), 13);
    let now = Stamp::take(7);
    assert_eq!(parse_iso(&now.iso), Some(now.secs as i64));
    assert_eq!(now.id, "7");
}

#[test]
fn the_map_of_a_registry() {
    let mut reg = Registry::new();
    assert!(reg.is_empty());
    for path in ["/b", "/a", "/c/d", "/c"] {
        let entry = RepoEntry { remote_url: Some(path.to_string()), ..RepoEntry::default() };
        assert_eq!(reg.insert(path.to_string(), entry), None);
    }
    assert_eq!(reg.len(), 4);
    assert_eq!(reg.paths(), vec!["/a", "/b", "/c", "/c/d"]);
    assert_eq!(reg.sorted_paths(), reg.paths());
    assert_eq!(reg.sorted()[2].0, "/c");
    assert_eq!(reg.iter().len(), 4);
    assert!(reg.contains("/c"));
    let before = reg.insert("/c".to_string(), RepoEntry::default()).unwrap();
    assert_eq!(before.remote_url.as_deref(), Some("/c"));
    assert_eq!(reg.len(), 4);
    assert_eq!(reg.remove("/c"), Some(RepoEntry::default()));
    assert_eq!(reg.remove("/c"), None);
    assert!(!reg.contains("/c"));
    assert_eq!(reg.get("/zzz"), None);
    assert_eq!(Registry::from_entries(reg.entries()), reg);
    assert_eq!(reg.clone(), reg);
}

#[test]
fn the_text_that_is_saved() {
    let mut reg = Registry::new();
    reg.insert(
        "/r".to_string(),
        RepoEntry { last_dirty_count: Some(2), last_check: Some("T\"1".to_string()), ..RepoEntry::default() },
    );
    let text = file_after(&save(&root(), &reg), "/state/registry.json").unwrap();
    assert_eq!(
        text,
        "{\n  \"repos\": {\n    \"/r\": {\n      \"registered_at\": null,\n      \"last_check\": \"T\\\"1\",\n      \"last_dirty_count\": 2,\n      \"remote_url\": null,\n      \"primary_branch\": null,\n      \"last_auto_commit\": null,\n      \"last_push_time\": null\n    }\n  }\n}"
    );
    assert_eq!(loaded(&text), reg);
    let empty = file_after(&save(&root(), &Registry::new()), "/state/registry.json").unwrap();
    assert_eq!(empty, "{\n  \"repos\": {}\n}");
    assert!(loaded(&empty).is_empty());
}

#[test]
fn a_corrupt_file_is_put_aside() {
    let (reg, actions) = load(&root(), Some("{ not json"), "20260717T0100");
    assert!(reg.unwrap().is_empty());
    assert_eq!(
        actions,
        vec![FileAction::Rename {
            from: "/state/registry.json".to_string(),
            to: "/state/registry.json.bak-20260717T0100".to_string(),
        }]
    );
}

#[test]
fn other_files_without_work_trees() {
    assert!(loaded(" \n\t").is_empty());
    assert!(loaded("[1, 2]").is_empty());
    assert!(loaded("{}").is_empty());
    assert!(loaded("{\"repos\": {}, \"version\": 3}").is_empty());
}

#[test]
fn entries_of_the_wrong_kind_are_refused() {
    let (reg, actions) = load(&root(), Some("{\"repos\": {\"/r\": {\"remote_url\": 5}}}"), "T");
    let why = reg.unwrap_err();
    assert_eq!(
        why,
        "parse registry.json via wrapped schema: invalid type: integer `5`, expected a string"
    );
    assert!(actions.is_empty());
    let (reg, _) = load(&root(), Some("{\"repos\": null}"), "T");
    assert_eq!(
        reg.unwrap_err(),
        "parse registry.json via wrapped schema: invalid type: null, expected a map"
    );
    let flat = "{\"/z\": 1, \"/b\": {\"last_dirty_count\": -1}, \"/a\": {}, \"/c\": []}";
    let (reg, _) = load(&root(), Some(flat), "T");
    assert_eq!(
        reg.unwrap_err(),
        "parse repo entry for /b: invalid value: integer `-1`, expected u64"
    );
    let error = |text: &str| load(&root(), Some(text), "T").0.unwrap_err();
    assert_eq!(
        error("{\"/r\": null}"),
        "parse repo entry for /r: invalid type: null, expected struct RepoEntry"
    );
    assert_eq!(
        error("{\"repos\": {\"/r\": \"x\"}}"),
        "parse registry.json via wrapped schema: invalid type: string \"x\", expected struct RepoEntry"
    );
    // The fields are looked at by name.
    assert_eq!(
        error("{\"/r\": {\"remote_url\": true, \"last_check\": 1.5, \"other\": []}}"),
        "parse repo entry for /r: invalid type: floating point `1.5`, expected a string"
    );
}

#[test]
fn an_entry_may_be_a_list_of_its_fields() {
    let reg = loaded("{\"/r\": [\"A\", null, 4]}");
    let entry = reg.get("/r").unwrap();
    assert_eq!(entry.registered_at.as_deref(), Some("A"));
    assert_eq!(entry.last_dirty_count, Some(4));
    assert_eq!(entry.last_push_time, None);
    let error = |text: &str| load(&root(), Some(text), "T").0.unwrap_err();
    assert_eq!(
        error("{\"/r\": [null,null,null,null,null,null,null,null]}"),
        "parse repo entry for /r: invalid length 8, expected fewer elements in array"
    );
    assert_eq!(
        error("{\"/r\": [null,null,null,null,null,null,[],null]}"),
        "parse repo entry for /r: invalid type: sequence, expected a string"
    );
}

/// The directories there are after the given actions.
fn dirs_after(dirs: &[String], actions: &[FileAction]) -> Vec<String> {
    let mut all = dirs.to_vec();
    for action in actions {
        if let FileAction::CreateDir(path) = action {
            let mut at = String::new();
            for part in path.split('/').skip(1) {
                at = format!("{at}/{part}");
                if !all.contains(&at) {
                    all.push(at.clone());
                }
            }
        }
    }
    all
}

#[test]
fn the_needed_directories_are_made_once() {
    let before = vec!["/".to_string(), "/var".to_string()];
    let first = dirs_after(&before, &root().ensure_dirs());
    assert!(first.starts_with(&before));
    for dir in [root().root().to_string(), root().state_dir(), root().logs_dir()] {
        assert!(first.contains(&dir));
    }
    assert_eq!(first.len(), 5);
    assert_eq!(dirs_after(&first, &root().ensure_dirs()), first);
    assert!(root().ensure_dirs().iter().all(|a| matches!(a, FileAction::CreateDir(_))));
}

#[test]
fn state_layout() {
    let home = StateRoot::default_from_home(Some("/home/u"));
    assert_eq!(home.root(), "/home/u/.airlock/v2");
    assert_eq!(StateRoot::default_from_home(None).root(), "/tmp/.airlock/v2");
    assert_eq!(home.registry_path(), "/home/u/.airlock/v2/registry.json");
    assert_eq!(home.logs_dir(), "/home/u/.airlock/v2/logs");
    assert_eq!(home.state_dir(), "/home/u/.airlock/v2/state");
    assert_eq!(
        home.ensure_dirs(),
        vec![
            FileAction::CreateDir("/home/u/.airlock/v2".to_string()),
            FileAction::CreateDir("/home/u/.airlock/v2/state".to_string()),
            FileAction::CreateDir("/home/u/.airlock/v2/logs".to_string()),
        ]
    );
    assert_eq!(home.clone(), home);
}
