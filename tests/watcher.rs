use metacache::watcher::{
    classify, event_after, handle_event, rescan_action, ActionOutcome, CacheAction, CreateKind,
    IPCEmitEvent, PathFacts, RawEventKind, RemoveKind, RenameMode,
};
use metacache::error::ErrorFromRust;

fn facts(exists: Option<bool>, ext: Option<&str>, is_file: bool, is_dir: bool) -> PathFacts {
    PathFacts { exists, extension: ext.map(|e| e.to_string()), is_file, is_dir }
}

fn paths(v: Vec<(&str, PathFacts)>) -> Vec<(String, PathFacts)> {
    v.into_iter().map(|(p, f)| (p.to_string(), f)).collect()
}

fn is(a: &CacheAction, kind: &str, path: &str) -> bool {
    match (a, kind) {
        (CacheAction::FileAdd(p), "file_add")
        | (CacheAction::FileUpdate(p), "file_update")
        | (CacheAction::FileRemove(p), "file_remove")
        | (CacheAction::FolderAdd(p), "folder_add")
        | (CacheAction::FolderRemove(p), "folder_remove") => p == path,
        _ => false,
    }
}

#[test]
fn rename_pair_is_one_remove_and_one_add() {
    let event = paths(vec![
        ("/lib/b.md", facts(Some(false), Some("md"), false, false)),
        ("/lib/c.md", facts(Some(true), Some("md"), true, false)),
    ]);
    let actions = handle_event(RawEventKind::ModifyName(RenameMode::Both), &event);
    assert_eq!(actions.len(), 2);
    assert!(is(&actions[0], "file_remove", "/lib/b.md"));
    assert!(is(&actions[1], "file_add", "/lib/c.md"));
}

#[test]
fn rename_halves_are_remove_and_add() {
    let from = handle_event(
        RawEventKind::ModifyName(RenameMode::From),
        &paths(vec![("/lib/b.md", facts(Some(false), Some("md"), false, false))]),
    );
    assert!(is(&from[0], "file_remove", "/lib/b.md"));
    let to = handle_event(
        RawEventKind::ModifyName(RenameMode::To),
        &paths(vec![("/lib/c.md", facts(Some(true), Some("md"), true, false))]),
    );
    assert!(is(&to[0], "file_add", "/lib/c.md"));
}

#[test]
fn rename_of_unknown_half_goes_by_existence() {
    let gone = classify(RawEventKind::ModifyName(RenameMode::Any), 0, &"/lib/old".to_string(), &facts(Some(false), None, false, false));
    assert!(is(&gone.unwrap(), "folder_remove", "/lib/old"));
    let here = classify(RawEventKind::ModifyName(RenameMode::Any), 0, &"/lib/new".to_string(), &facts(Some(true), None, false, true));
    assert!(is(&here.unwrap(), "folder_add", "/lib/new"));
    let file = classify(RawEventKind::ModifyName(RenameMode::Any), 0, &"/lib/x.md".to_string(), &facts(Some(true), Some("md"), true, false));
    assert!(is(&file.unwrap(), "file_add", "/lib/x.md"));
}

#[test]
fn only_documents_are_cached() {
    let txt = classify(RawEventKind::Create(CreateKind::File), 0, &"/lib/a.txt".to_string(), &facts(Some(true), Some("txt"), true, false));
    assert!(txt.is_none());
    let data = classify(RawEventKind::ModifyData, 0, &"/lib/a.md".to_string(), &facts(Some(true), Some("md"), true, false));
    assert!(is(&data.unwrap(), "file_update", "/lib/a.md"));
    let removed = classify(RawEventKind::Remove(RemoveKind::Folder), 0, &"/lib/sub".to_string(), &facts(Some(false), None, false, false));
    assert!(is(&removed.unwrap(), "folder_remove", "/lib/sub"));
    let folder = classify(RawEventKind::Create(CreateKind::Folder), 0, &"/lib/sub".to_string(), &facts(Some(true), None, false, true));
    assert!(is(&folder.unwrap(), "folder_add", "/lib/sub"));
    assert!(classify(RawEventKind::Other, 0, &"/lib/a.md".to_string(), &facts(Some(true), Some("md"), true, false)).is_none());
}

#[test]
fn rescan_caches_documents_and_folders() {
    assert!(is(&rescan_action(&"/r/a.md".to_string(), &facts(Some(true), Some("md"), true, false)).unwrap(), "file_add", "/r/a.md"));
    assert!(is(&rescan_action(&"/r/d".to_string(), &facts(Some(true), None, false, true)).unwrap(), "folder_add", "/r/d"));
    assert!(rescan_action(&"/r/a.png".to_string(), &facts(Some(true), Some("png"), true, false)).is_none());
}

#[test]
fn failures_are_published_as_errors() {
    let e = event_after(CacheAction::FileRemove("/a.md".into()), Err(ErrorFromRust::new("boom")), None);
    assert!(matches!(e, IPCEmitEvent::ErrorHappened(ref x) if x.title == "boom"));
    let ok = event_after(CacheAction::FolderAdd("/lib/s".into()), Ok(ActionOutcome::Done), Some("/lib".into()));
    assert!(matches!(ok, IPCEmitEvent::FolderAdd(ref f) if f.path == "/lib/s" && f.schema_path == Some("/lib".to_string())));
    let removed = event_after(CacheAction::FileRemove("/a.md".into()), Ok(ActionOutcome::Done), None);
    assert!(matches!(removed, IPCEmitEvent::FileRemove(ref p) if p == "/a.md"));
}
