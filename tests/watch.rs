use notes_backend::watch::{
    batch_has_content_change, batch_matches_target, ends_with, event_matches_target,
    file_notifications, is_content_path, matches_normalized, FileWatcherManager, WatchError,
};

fn strings(v: &[&str]) -> Vec<String> {
    v.iter().map(|s| s.to_string()).collect()
}

#[test]
fn composed_target_matches_decomposed_event() {
    let composed = "caf\u{e9}.md".to_string();
    let decomposed_path = "/notes/cafe\u{301}.md".to_string();
    assert!(event_matches_target(&decomposed_path, &composed));
}

#[test]
fn decomposed_target_matches_composed_event() {
    let decomposed = "cafe\u{301}.md".to_string();
    let composed_path = "/notes/caf\u{e9}.md".to_string();
    assert!(event_matches_target(&composed_path, &decomposed));
}

#[test]
fn unrelated_event_does_not_match() {
    assert!(!event_matches_target(&"/notes/other.md".to_string(), &"todo.md".to_string()));
}

#[test]
fn leaf_name_alone_matches() {
    assert!(event_matches_target(&"todo.md".to_string(), &"todo.md".to_string()));
}

#[test]
fn normalized_rule_checks_suffix_or_leaf() {
    let t = "a.md".to_string();
    assert!(matches_normalized(&"/x/a.md".to_string(), &None, &t));
    assert!(matches_normalized(&"/x/y".to_string(), &Some("a.md".to_string()), &t));
    assert!(!matches_normalized(&"/x/b.md".to_string(), &Some("b.md".to_string()), &t));
    assert!(ends_with("abc", "bc"));
    assert!(!ends_with("bc", "abc"));
    assert!(ends_with("abc", ""));
}

#[test]
fn atomic_save_burst_yields_one_notification() {
    let batch = strings(&[
        "/notes/.todo.md.swp",
        "/notes/todo.md.tmp",
        "/notes/todo.md",
        "/notes/todo.md",
    ]);
    let r = file_notifications(&batch, &"/notes/todo.md".to_string(), &"todo.md".to_string());
    assert_eq!(r, vec!["/notes/todo.md".to_string()]);
}

#[test]
fn batch_without_the_file_yields_nothing() {
    let batch = strings(&["/notes/a.md", "/notes/b.txt"]);
    assert!(!batch_matches_target(&batch, &"todo.md".to_string()));
    let r = file_notifications(&batch, &"/notes/todo.md".to_string(), &"todo.md".to_string());
    assert!(r.is_empty());
    assert!(file_notifications(&vec![], &"/n/t.md".to_string(), &"t.md".to_string()).is_empty());
}

#[test]
fn workspace_ignores_other_extensions() {
    assert!(!batch_has_content_change(&strings(&["/w/image.png", "/w/notes.txt", "/w/.md"])));
    assert!(batch_has_content_change(&strings(&["/w/image.png", "/w/new.md"])));
    assert!(!batch_has_content_change(&vec![]));
    assert!(is_content_path(&"/w/a.md".to_string()));
    assert!(!is_content_path(&"/w/a.mdx".to_string()));
}

#[test]
fn watching_twice_registers_once() {
    let mut m: FileWatcherManager<u32> = FileWatcherManager::new();
    assert!(m.watch_file("/n/a.md".to_string(), 1));
    assert!(!m.watch_file("/n/a.md".to_string(), 2));
    assert!(m.is_watching_file(&"/n/a.md".to_string()));
    assert_eq!(m.unwatch_file(&"/n/a.md".to_string()), Ok(()));
    assert_eq!(m.unwatch_file(&"/n/a.md".to_string()), Err(WatchError::NotWatched));
}

#[test]
fn workspace_watches_are_apart_from_file_watches() {
    let mut m: FileWatcherManager<u32> = FileWatcherManager::new();
    assert!(m.watch_file("workspace:/w".to_string(), 3));
    assert!(m.watch_workspace("/w".to_string(), 1));
    assert!(!m.watch_workspace("/w".to_string(), 2));
    assert!(m.is_watching_workspace(&"/w".to_string()));
    assert!(!m.is_watching_file(&"/w".to_string()));
    assert!(m.watch_file("/w".to_string(), 4));
    assert_eq!(m.unwatch_file(&"workspace:/w".to_string()), Ok(()));
    assert_eq!(m.unwatch_file(&"/w".to_string()), Ok(()));
    assert!(m.is_watching_workspace(&"/w".to_string()));
    assert_eq!(m.unwatch_file(&"/w".to_string()), Err(WatchError::NotWatched));
}

#[test]
fn unwatch_all_clears_everything() {
    let mut m: FileWatcherManager<u32> = FileWatcherManager::new();
    m.watch_file("/n/a.md".to_string(), 1);
    m.watch_workspace("/n".to_string(), 2);
    m.unwatch_all();
    assert!(!m.is_watching_file(&"/n/a.md".to_string()));
    assert!(!m.is_watching_workspace(&"/n".to_string()));
    assert_eq!(m.unwatch_file(&"/n/a.md".to_string()), Err(WatchError::NotWatched));
}

#[test]
fn watch_target_is_parent_directory_and_name() {
    let t = FileWatcherManager::<u32>::file_watch_target(&"/notes/todo.md".to_string()).unwrap();
    assert_eq!(t.directory, "/notes");
    assert_eq!(t.file_name, "todo.md");
    assert_eq!(
        FileWatcherManager::<u32>::file_watch_target(&"/".to_string()).err(),
        Some(WatchError::NoParent)
    );
    assert_eq!(
        FileWatcherManager::<u32>::file_watch_target(&"/notes/..".to_string()).err(),
        Some(WatchError::InvalidPath)
    );
    assert_eq!(WatchError::NotWatched.message(), "File was not being watched");
}

#[test]
fn watch_target_announces_requested_path_for_either_composition() {
    let composed = FileWatcherManager::<u32>::file_watch_target(&"/d/caf\u{e9}.md".to_string()).unwrap();
    assert_eq!(composed.requested, "/d/caf\u{e9}.md");
    let batch = strings(&["/d/cafe\u{301}.md"]);
    assert_eq!(composed.notifications(&batch), vec!["/d/caf\u{e9}.md".to_string()]);
    let decomposed = FileWatcherManager::<u32>::file_watch_target(&"/d/cafe\u{301}.md".to_string()).unwrap();
    let batch = strings(&["/d/caf\u{e9}.md", "/d/caf\u{e9}.md"]);
    assert_eq!(decomposed.notifications(&batch), vec!["/d/cafe\u{301}.md".to_string()]);
    assert!(decomposed.notifications(&strings(&["/d/other.md"])).is_empty());
}

#[test]
fn watch_target_announces_once_per_atomic_save_burst() {
    let t = FileWatcherManager::<u32>::file_watch_target(&"/n/todo.md".to_string()).unwrap();
    let burst = strings(&["/n/.todo.md.tmp123", "/n/.todo.md.tmp123", "/n/todo.md"]);
    assert_eq!(t.notifications(&burst), vec!["/n/todo.md".to_string()]);
    assert_eq!(t.notifications(&strings(&["/n/todo.md"])), vec!["/n/todo.md".to_string()]);
}
