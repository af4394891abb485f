use tauri_plugin_windows::error::Error;
use tauri_plugin_windows::windows::window::{
    EmptyWindowBackupInfo, FolderBackupInfo, InnerWindowsBackupCache, InnerWindowsRecentsCache, InnerWindowsStateCache, ReadyState, RecentlyOpened,
    WindowState, WindowsBackup, WindowsBackupCache, WindowsRecentsCache, WindowsState, WindowsStateCache,
    MAX_TOTAL_RECENT_ENTRIES,
};
use tauri_plugin_windows::windows::{FileType, PathToOpen};

fn state_cache() -> InnerWindowsStateCache {
    InnerWindowsStateCache::from_loaded(String::new(), String::new(), WindowsState::default())
}

fn backup_cache() -> InnerWindowsBackupCache {
    InnerWindowsBackupCache::from_loaded("/backups".to_string(), String::new(), WindowsBackup::default())
}

fn recents_cache() -> InnerWindowsRecentsCache {
    InnerWindowsRecentsCache::from_loaded(String::new(), String::new(), RecentlyOpened::default())
}

fn folder_state(folder: &str) -> WindowState {
    let mut st = WindowState::default();
    st.folder = Some(folder.to_string());
    st
}

fn folder_path(folder: &str) -> PathToOpen {
    let mut p = PathToOpen::default();
    p.folder = Some(folder.to_string());
    p.path_type = FileType::Directory;
    p.exists = true;
    p
}

fn std_hash(s: &str) -> u64 {
    std::hash::BuildHasher::hash_one(
        &std::hash::BuildHasherDefault::<std::collections::hash_map::DefaultHasher>::default(),
        s,
    )
}

#[test]
fn remove_unknown_window_fails_with_not_found() {
    let mut cache = state_cache();
    match cache.remove_item("never_inserted") {
        Err(Error::WindowStateWithLabelNotFound(l)) => assert_eq!(l, "never_inserted"),
        _ => panic!("expected a not-found error"),
    }
}

#[test]
fn set_then_get_then_remove_window_state() {
    let mut cache = state_cache();
    assert!(cache.set_item("w1", folder_state("/a")).is_ok());
    assert!(cache.set_item("w2", folder_state("/b")).is_ok());
    assert_eq!(cache.get_item("w1").unwrap().folder, Some("/a".to_string()));
    assert!(cache.set_item("w1", folder_state("/c")).is_ok());
    assert_eq!(cache.state().opened_windows.len(), 2);
    assert_eq!(cache.get_item("w1").unwrap().folder, Some("/c".to_string()));
    assert!(cache.remove_item("w1").is_ok());
    assert!(cache.get_item("w1").is_none());
    assert!(cache.get_item("w2").is_some());
}

#[test]
fn set_items_later_entry_wins() {
    let mut cache = state_cache();
    let items = vec![
        ("w1".to_string(), folder_state("/a")),
        ("w2".to_string(), folder_state("/b")),
        ("w1".to_string(), folder_state("/z")),
    ];
    assert!(cache.set_items(items).is_ok());
    assert_eq!(cache.state().opened_windows.len(), 2);
    assert_eq!(cache.get_item("w1").unwrap().folder, Some("/z".to_string()));
}

#[test]
fn lifecycle_events_update_window_states() {
    let mut cache = state_cache();
    cache.handle_created_window("w1");
    assert!(cache.get_item("w1").is_some());
    cache.handle_focused_window("w1", &true, 1234);
    assert_eq!(cache.last_focus_time("w1"), 1234);
    cache.handle_focused_window("w1", &false, 9999);
    assert_eq!(cache.last_focus_time("w1"), 1234);
    assert!(!cache.is_ready("w1"));
    assert!(cache.set_ready("w1").is_ok());
    assert!(cache.is_ready("w1"));
    assert_eq!(cache.get_item("w1").unwrap().ready_state, ReadyState::Ready);
    cache.handle_close_window("w1");
    assert!(cache.get_item("w1").is_some());
    cache.handle_destroyed_window("w1");
    assert!(cache.get_item("w1").is_none());
    assert_eq!(cache.last_focus_time("w1"), 0);
    assert!(cache.set_ready("w1").is_err());
    assert!(cache.set_last_focus_time("w1", 5).is_err());
}

#[test]
fn unchanged_document_needs_no_write() {
    let mut cache = state_cache();
    let mut writes = 0;
    for text in ["{\"a\":1}", "{\"a\":1}", "{\"a\":2}", "{\"a\":2}"] {
        let serialized = text.to_string();
        if cache.needs_save(&serialized) {
            writes += 1;
            cache.mark_saved(serialized);
        }
    }
    assert_eq!(writes, 2);

    let mut backups = backup_cache();
    backups.mark_saved("x".to_string());
    assert!(!backups.needs_save(&"x".to_string()));
    assert!(backups.needs_save(&"y".to_string()));

    let mut recents = recents_cache();
    recents.mark_saved("x".to_string());
    assert!(!recents.needs_save(&"x".to_string()));
}

#[test]
fn folder_backup_is_idempotent() {
    let mut cache = backup_cache();
    let first = cache.add_folder_backup("/proj", "w1");
    let second = cache.add_folder_backup("/proj", "w2");
    assert_eq!(first, second);
    assert_eq!(cache.backups.folders.len(), 1);
    assert_eq!(cache.backups.folders[0].window, "w1");
    assert_eq!(first, format!("/backups/{}", std_hash("/proj")));
}

#[test]
fn folder_backups_of_distinct_folders_differ() {
    let mut cache = backup_cache();
    let a = cache.add_folder_backup("/a", "w1");
    let b = cache.add_folder_backup("/b", "w1");
    assert_ne!(a, b);
    assert_ne!(a, "/backups//a");
    assert_eq!(cache.backups.folders.len(), 2);
    assert_eq!(cache.get_folder_hash("/a"), std_hash("/a").to_string());
}

#[test]
fn new_empty_window_backups_get_increasing_ids() {
    let mut cache = backup_cache();
    let first = cache.add_empty_window_backup(&None, "w1");
    let second = cache.add_empty_window_backup(&None, "w2");
    assert_eq!(first, "/backups/1");
    assert_eq!(second, "/backups/2");
    assert_ne!(first, second);
    assert_eq!(cache.backups.empty_windows.len(), 2);
}

#[test]
fn empty_window_backup_with_same_candidate_is_idempotent() {
    let mut cache = backup_cache();
    let candidate = Some("abc".to_string());
    let first = cache.add_empty_window_backup(&candidate, "w1");
    let second = cache.add_empty_window_backup(&candidate, "w2");
    assert_eq!(first, "/backups/abc");
    assert_eq!(first, second);
    assert_eq!(cache.backups.empty_windows.len(), 1);
    assert_eq!(cache.list_empty_window_backups().len(), 1);
}

#[test]
fn backup_path_under_root_with_trailing_slash() {
    let cache = InnerWindowsBackupCache::from_loaded("/root/".to_string(), String::new(), WindowsBackup::default());
    assert_eq!(cache.get_backup_path(&"7".to_string()), "/root/7");
    let bare = InnerWindowsBackupCache::from_loaded(String::new(), String::new(), WindowsBackup::default());
    assert_eq!(bare.get_backup_path(&"7".to_string()), "7");
}

#[test]
fn recents_keep_the_newest_five_hundred_folders() {
    let mut cache = recents_cache();
    let n = 620;
    let mut paths = Vec::new();
    for i in 0..n {
        paths.push(folder_path(&format!("/f{}", i)));
    }
    assert!(cache.add_recents(paths).is_ok());
    assert_eq!(cache.recents.folders.len(), MAX_TOTAL_RECENT_ENTRIES);
    assert_eq!(cache.recents.folders[0].folder, format!("/f{}", n - 500));
    assert_eq!(cache.recents.folders[499].folder, format!("/f{}", n - 1));
    assert_eq!(cache.recents.files.len(), 0);
}

#[test]
fn recents_split_files_and_folders() {
    let mut cache = recents_cache();
    let mut file = PathToOpen::default();
    file.file = Some("/a.txt".to_string());
    file.label = Some("a".to_string());
    let empty = PathToOpen::default();
    assert!(cache.add_recents(vec![folder_path("/d"), file, empty]).is_ok());
    assert_eq!(cache.recents.folders.len(), 1);
    assert_eq!(cache.recents.files.len(), 1);
    assert_eq!(cache.recents.files[0].file, "/a.txt");
    assert_eq!(cache.recents.files[0].label, "a");
    assert_eq!(cache.recents.files[0].window, "");
    cache.clear();
    assert_eq!(cache.recents.folders.len(), 0);
    assert_eq!(cache.recents.files.len(), 0);
}

#[test]
fn recents_exactly_at_cap_keep_everything() {
    let mut cache = recents_cache();
    let mut paths = Vec::new();
    for i in 0..500 {
        paths.push(folder_path(&format!("/f{}", i)));
    }
    assert!(cache.add_recents(paths).is_ok());
    assert_eq!(cache.recents.folders.len(), 500);
    assert_eq!(cache.recents.folders[0].folder, "/f0");
    assert!(cache.add_recent(folder_path("/new")).is_ok());
    assert_eq!(cache.recents.folders.len(), 500);
    assert_eq!(cache.recents.folders[0].folder, "/f1");
    assert_eq!(cache.recents.folders[499].folder, "/new");
}

#[test]
fn locked_caches_serve_operations() {
    let states = WindowsStateCache::new(state_cache());
    assert!(states.set_item("w1", folder_state("/a")).0.is_ok());
    assert_eq!(states.get_item("w1").0.unwrap().folder, Some("/a".to_string()));
    assert!(states.remove_item("w1").0.is_ok());
    assert!(states.remove_item("w1").0.is_err());
    assert!(states.get_item("w1").0.is_none());

    let backups = WindowsBackupCache::new(backup_cache());
    assert_eq!(backups.add_folder_backup("/p", "w").0, backups.add_folder_backup("/p", "v").0);
    assert_eq!(backups.add_empty_window_backup(&None, "w").0, "/backups/1");
    assert_eq!(backups.list_empty_window_backups().0.len(), 1);

    let recents = WindowsRecentsCache::new(recents_cache());
    assert!(recents.add_recents(vec![folder_path("/x")]).0.is_ok());
    let _ = recents.clear();
}

#[test]
fn error_detail_carries_label() {
    let e = Error::WindowStateWithLabelNotFound("w9".to_string());
    assert_eq!(e.detail(), "w9");
    assert_eq!(Error::NoWindowCreated.detail(), "");
}

#[test]
fn loaded_backup_records_drop_repeats() {
    let folders = vec![
        FolderBackupInfo { window: "w1".to_string(), folder: Some("/a".to_string()) },
        FolderBackupInfo { window: "w2".to_string(), folder: Some("/a".to_string()) },
        FolderBackupInfo { window: "w3".to_string(), folder: None },
        FolderBackupInfo { window: "w4".to_string(), folder: Some("/b".to_string()) },
    ];
    let empty = vec![
        EmptyWindowBackupInfo { window: "w5".to_string(), backup_folder: Some("1".to_string()) },
        EmptyWindowBackupInfo { window: "w6".to_string(), backup_folder: Some("1".to_string()) },
    ];
    let mut cache = InnerWindowsBackupCache::from_records("/r".to_string(), String::new(), folders, empty);
    assert_eq!(cache.backups.folders.len(), 3);
    assert_eq!(cache.backups.folders[0].window, "w1");
    assert_eq!(cache.backups.empty_windows.len(), 1);
    assert_eq!(cache.add_empty_window_backup(&None, "w7"), "/r/2");
    assert_eq!(cache.backups.empty_windows.len(), 2);
    assert_eq!(cache.add_empty_window_backup(&None, "w8"), "/r/3");
    assert_eq!(cache.backups.empty_windows.len(), 3);
}

#[test]
fn absolute_backup_name_replaces_root() {
    let cache = InnerWindowsBackupCache::from_loaded("/data".to_string(), String::new(), WindowsBackup::default());
    assert_eq!(cache.get_backup_path(&"/x".to_string()), "/x");
    assert_eq!(cache.get_backup_path(&"x".to_string()), "/data/x");
}
