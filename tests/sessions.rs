use tauri_plugin_windows::windows::menu::{Menu, MenuEntry};
use tauri_plugin_windows::windows::window::{
    EmptyWindowBackupInfo,
    InnerWindowsBackupCache, InnerWindowsRecentsCache, InnerWindowsStateCache, LastActiveWindow, RecentlyOpened,
    WindowState, WindowsBackup, WindowsState,
};
use tauri_plugin_windows::windows::{
    extract_paths, find_window_on_file, find_window_on_folder, is_single_folder, last_active_window,
    resolve_file_path, resolve_openable, should_open_new_window, FileType, InnerWindowsSettings, OpenConfiguration,
    OpenContext, OpenInNewWindow, PathKind, RestoreWindows, WindowAction, WindowOpenable, WindowOptions, WindowsAPI,
};

fn api() -> WindowsAPI {
    WindowsAPI::new(
        InnerWindowsSettings::default(),
        InnerWindowsStateCache::from_loaded(String::new(), String::new(), WindowsState::default()),
        InnerWindowsBackupCache::from_loaded("/backups".to_string(), String::new(), WindowsBackup::default()),
        InnerWindowsRecentsCache::from_loaded(String::new(), String::new(), RecentlyOpened::default()),
    )
}

fn folder_state(folder: &str, focus: u64) -> WindowState {
    let mut st = WindowState::default();
    st.folder = Some(folder.to_string());
    st.last_focus_time = focus;
    st
}

fn creates(actions: &Vec<WindowAction>) -> usize {
    actions.iter().filter(|a| matches!(a, WindowAction::Create(_))).count()
}

#[test]
fn dialog_files_reuse_and_desktop_files_open_new() {
    let settings = InnerWindowsSettings::default();
    let mut c = OpenConfiguration::default();
    c.context = OpenContext::Dialog;
    assert!(!should_open_new_window(&settings, &c).open_files_in_new_window);
    c.context = OpenContext::Menu;
    assert!(!should_open_new_window(&settings, &c).open_files_in_new_window);
    c.context = OpenContext::Desktop;
    assert!(should_open_new_window(&settings, &c).open_files_in_new_window);
}

#[test]
fn policy_flags_and_settings_override() {
    let mut settings = InnerWindowsSettings::default();
    let mut c = OpenConfiguration::default();
    c.prefer_new_window = true;
    assert!(should_open_new_window(&settings, &c).open_folder_in_new_window);
    settings.open_folders_in_new_window = OpenInNewWindow::Off;
    assert!(!should_open_new_window(&settings, &c).open_folder_in_new_window);
    c.force_new_window = true;
    let o = should_open_new_window(&settings, &c);
    assert!(o.open_folder_in_new_window);
    assert!(o.open_files_in_new_window);
    c.force_reuse_window = true;
    let o = should_open_new_window(&settings, &c);
    assert!(!o.open_folder_in_new_window);
    assert!(!o.open_files_in_new_window);
    let mut c = OpenConfiguration::default();
    c.context = OpenContext::Dialog;
    settings.open_files_in_new_window = OpenInNewWindow::On;
    assert!(should_open_new_window(&settings, &c).open_files_in_new_window);
}

#[test]
fn classify_paths_by_kind() {
    let p = "/x".to_string();
    let missing = resolve_file_path(&p, PathKind::Missing).unwrap();
    assert_eq!(missing.file, Some(p.clone()));
    assert!(!missing.exists);
    assert!(missing.path_type == FileType::File);
    let file = resolve_file_path(&p, PathKind::File).unwrap();
    assert!(file.exists);
    assert!(file.folder.is_none());
    let dir = resolve_file_path(&p, PathKind::Directory).unwrap();
    assert_eq!(dir.folder, Some(p.clone()));
    assert!(dir.file.is_none());
    assert!(dir.path_type == FileType::Directory);
    let other = resolve_file_path(&p, PathKind::Other).unwrap();
    assert!(other.exists);
    assert_eq!(other.file, Some(p.clone()));
    assert!(resolve_openable(&WindowOpenable::new(None, None), PathKind::File).is_none());
    let both = WindowOpenable::new(Some("/f".to_string()), Some("/d".to_string()));
    assert_eq!(resolve_openable(&both, PathKind::Directory).unwrap().folder, Some("/d".to_string()));
    let uris = Some(vec![both, WindowOpenable::new(None, None), WindowOpenable::new(Some("/g".to_string()), None)]);
    let paths = extract_paths(&uris, &vec![PathKind::Directory, PathKind::File, PathKind::Missing]);
    assert_eq!(paths.len(), 2);
    assert_eq!(paths[1].file, Some("/g".to_string()));
    assert!(!paths[1].exists);
}

#[test]
fn finder_queries() {
    let mut a = api();
    assert!(last_active_window(&a.states).is_none());
    let _ = a.states.set_item("w1", folder_state("/proj", 10));
    let _ = a.states.set_item("w2", folder_state("/other", 30));
    let _ = a.states.set_item("w3", WindowState::default());
    assert_eq!(last_active_window(&a.states), Some("w2".to_string()));
    assert_eq!(a.get_last_active_window(), Some("w2".to_string()));
    assert!(a.get_focused_window().is_none());
    let proj = "/proj".to_string();
    assert_eq!(find_window_on_folder(&a.states, Some(&proj)), Some("w1".to_string()));
    assert!(find_window_on_folder(&a.states, Some(&"/pro".to_string())).is_none());
    assert!(find_window_on_folder(&a.states, None).is_none());
    assert_eq!(find_window_on_file(&a.states, &"/proj/src/a.txt".to_string()), Some("w1".to_string()));
    assert_eq!(find_window_on_file(&a.states, &"/proj".to_string()), Some("w1".to_string()));
    assert!(find_window_on_file(&a.states, &"/project/a.txt".to_string()).is_none());
    assert!(is_single_folder(&a.states, "w1").unwrap());
    assert!(!is_single_folder(&a.states, "w3").unwrap());
    assert!(is_single_folder(&a.states, "nope").is_err());
}

#[test]
fn scenario_folder_opens_in_one_new_window() {
    let mut a = api();
    let mut c = OpenConfiguration::default();
    c.uris_to_open = Some(vec![WindowOpenable::new(None, Some("/proj".to_string()))]);
    let label = a.open_window(c, vec![PathKind::Directory]).ok().unwrap();
    assert_eq!(label, "windows_1");
    let actions = a.take_actions();
    assert_eq!(actions.len(), 1);
    match &actions[0] {
        WindowAction::Create(w) => {
            assert_eq!(w.label, "windows_1");
            assert_eq!(w.configuration.folder, Some("/proj".to_string()));
            assert_eq!(w.url, "index.html");
        },
        _ => panic!("expected a window creation"),
    }
    assert_eq!(a.backups.backups.folders.len(), 1);
    assert_eq!(a.backups.backups.folders[0].folder, Some("/proj".to_string()));
    assert_eq!(a.backups.backups.folders[0].window, "windows_1");
    assert_eq!(a.states.get_item("windows_1").unwrap().folder, Some("/proj".to_string()));
    assert_eq!(a.recents.recents.folders.len(), 1);
}

#[test]
fn scenario_file_goes_to_window_with_its_folder() {
    let mut a = api();
    a.settings.open_files_in_new_window = OpenInNewWindow::Off;
    let _ = a.states.set_item("W", folder_state("/proj", 5));
    let mut c = OpenConfiguration::default();
    c.context = OpenContext::Desktop;
    c.uris_to_open = Some(vec![WindowOpenable::new(Some("/proj/src/a.txt".to_string()), None)]);
    let label = a.open_window(c, vec![PathKind::File]).ok().unwrap();
    assert_eq!(label, "W");
    let actions = a.take_actions();
    assert_eq!(creates(&actions), 0);
    assert_eq!(actions.len(), 1);
    match &actions[0] {
        WindowAction::OpenFiles(w, payload) => {
            assert_eq!(w, "W");
            assert_eq!(payload.files_to_open_or_create, vec!["/proj/src/a.txt".to_string()]);
        },
        _ => panic!("expected an open files event"),
    }
    assert_eq!(a.recents.recents.files.len(), 1);
}

#[test]
fn desktop_files_default_to_new_window() {
    let mut a = api();
    let _ = a.states.set_item("W", folder_state("/proj", 5));
    let mut c = OpenConfiguration::default();
    c.context = OpenContext::Desktop;
    c.uris_to_open = Some(vec![WindowOpenable::new(Some("/proj/src/a.txt".to_string()), None)]);
    let label = a.open_window(c, vec![PathKind::File]).ok().unwrap();
    assert_eq!(label, "windows_1");
    let actions = a.take_actions();
    assert_eq!(creates(&actions), 1);
}

#[test]
fn scenario_forced_empty_window_ignores_resources() {
    let mut a = api();
    let _ = a.states.set_item("W", folder_state("/old", 5));
    let mut c = OpenConfiguration::default();
    c.force_empty_window = true;
    c.uris_to_open = Some(vec![
        WindowOpenable::new(None, Some("/proj".to_string())),
        WindowOpenable::new(Some("/a.txt".to_string()), None),
    ]);
    let label = a.open_window(c, vec![PathKind::Directory, PathKind::File]).ok().unwrap();
    let actions = a.take_actions();
    assert_eq!(actions.len(), 1);
    match &actions[0] {
        WindowAction::Create(w) => {
            assert_eq!(w.label, label);
            assert!(w.configuration.folder.is_none());
            assert!(w.configuration.files_to_open_or_create.is_empty());
        },
        _ => panic!("expected a window creation"),
    }
    assert_eq!(a.backups.backups.folders.len(), 0);
    assert_eq!(a.backups.backups.empty_windows.len(), 1);
}

#[test]
fn two_folders_open_two_windows_and_existing_folder_is_reused() {
    let mut a = api();
    let _ = a.states.set_item("W", folder_state("/old", 5));
    let mut c = OpenConfiguration::default();
    c.uris_to_open = Some(vec![
        WindowOpenable::new(None, Some("/old".to_string())),
        WindowOpenable::new(None, Some("/new1".to_string())),
        WindowOpenable::new(None, Some("/new2".to_string())),
        WindowOpenable::new(None, Some("/new2".to_string())),
    ]);
    let kinds = vec![PathKind::Directory; 4];
    let label = a.open_window(c, kinds).ok().unwrap();
    let actions = a.take_actions();
    assert_eq!(creates(&actions), 2);
    match &actions[0] {
        WindowAction::OpenFiles(w, _) => assert_eq!(w, "W"),
        _ => panic!("expected files for the window on the existing folder"),
    }
    assert_eq!(label, "windows_2");
    assert_eq!(a.states.get_item("windows_1").unwrap().folder, Some("/new1".to_string()));
    assert_eq!(a.states.get_item("windows_2").unwrap().folder, Some("/new2".to_string()));
}

#[test]
fn folders_to_add_go_to_last_active_window() {
    let mut a = api();
    let _ = a.states.set_item("W", folder_state("/old", 5));
    let c = OpenConfiguration::default();
    let add = vec![resolve_file_path(&"/extra".to_string(), PathKind::Directory).unwrap()];
    let files = tauri_plugin_windows::windows::FilesToOpen { files_to_open_or_create: vec!["/n.txt".to_string()] };
    let label = a.open(&c, Vec::new(), Vec::new(), 0, files, add).ok().unwrap();
    let actions = a.take_actions();
    match &actions[0] {
        WindowAction::AddFolders(w, payload) => {
            assert_eq!(w, "W");
            assert_eq!(payload.folders_to_add.len(), 1);
        },
        _ => panic!("expected an add folders event"),
    }
    assert_eq!(label, "windows_1");
}

#[test]
fn empty_window_request_opens_one_window() {
    let mut a = api();
    let label = a.open_empty_window(OpenConfiguration::default(), WindowOptions::default()).ok().unwrap();
    assert_eq!(label, "windows_1");
    let actions = a.take_actions();
    assert_eq!(actions.len(), 1);
    assert_eq!(creates(&actions), 1);
    assert!(a.open_existing_window(&label, OpenConfiguration::default()).is_ok());
    let actions = a.take_actions();
    match &actions[0] {
        WindowAction::Focus(w) => assert_eq!(w, &label),
        _ => panic!("expected a focus"),
    }
}

#[test]
fn last_session_paths_follow_restore_setting() {
    let mut a = api();
    let _ = a.states.set_item("w1", folder_state("/proj", 1));
    let mut empty = WindowState::default();
    empty.backup_path = Some("/backups/9".to_string());
    let _ = a.states.set_item("w2", empty);
    let paths = a.get_paths_from_last_session();
    assert_eq!(paths.len(), 2);
    assert_eq!(paths[0].folder, Some("/proj".to_string()));
    assert_eq!(paths[1].backup_path, Some("/backups/9".to_string()));
    a.settings.restore_windows = RestoreWindows::Folders;
    assert_eq!(a.get_paths_from_last_session().len(), 1);
    a.settings.restore_windows = RestoreWindows::One;
    assert_eq!(a.get_paths_from_last_session().len(), 0);
    a.states.state_mut().last_active_window =
        Some(LastActiveWindow { label: "w2".to_string(), state: WindowState::default() });
    let paths = a.get_paths_from_last_session();
    assert_eq!(paths.len(), 1);
    assert_eq!(paths[0].backup_path, Some("/backups/9".to_string()));
    a.settings.restore_windows = RestoreWindows::Nothing;
    assert_eq!(a.get_paths_from_last_session().len(), 0);
}

#[test]
fn paths_to_open_on_startup_insert_backups_after_first() {
    let mut a = api();
    let mut empty = WindowState::default();
    empty.backup_path = Some("/backups/9".to_string());
    let _ = a.states.set_item("w2", empty);
    let uris = Some(vec![
        WindowOpenable::new(Some("/a".to_string()), None),
        WindowOpenable::new(Some("/b".to_string()), None),
    ]);
    let kinds = vec![PathKind::File, PathKind::File];
    let paths = a.get_paths_to_open(&uris, &kinds, &false, &true);
    assert_eq!(paths.len(), 3);
    assert_eq!(paths[0].file, Some("/a".to_string()));
    assert_eq!(paths[1].backup_path, Some("/backups/9".to_string()));
    assert_eq!(paths[2].file, Some("/b".to_string()));
    let restored = a.get_paths_to_open(&None, &Vec::new(), &false, &false);
    assert_eq!(restored.len(), 1);
    let forced = a.get_paths_to_open(&uris, &kinds, &true, &false);
    assert_eq!(forced.len(), 1);
    assert!(forced[0].file.is_none() && forced[0].folder.is_none() && forced[0].backup_path.is_none());
    let mut b = api();
    let none = b.get_paths_to_open(&None, &Vec::new(), &false, &false);
    assert_eq!(none.len(), 1);
    assert!(none[0].folder.is_none());
    b.settings.restore_windows = RestoreWindows::Nothing;
    assert_eq!(b.get_paths_to_open(&Some(Vec::new()), &Vec::new(), &false, &true).len(), 0);
}

#[test]
fn window_labels_count_up() {
    let mut a = api();
    assert_eq!(a.new_window_label(), "windows_1");
    assert_eq!(a.new_window_label(), "windows_2");
    assert_eq!(a.get_id(), 3);
}

#[test]
fn default_menu_entries() {
    let items = Menu::menu_items();
    assert_eq!(items.len(), 8);
    match &items[0] {
        MenuEntry::Custom { id, title, accelerator } => {
            assert_eq!(id, "windows://new_window");
            assert_eq!(title, "New Window");
            assert_eq!(accelerator, "CTRL+SHIFT+N");
        },
        _ => panic!("expected the new window item"),
    }
    assert!(matches!(items[6], MenuEntry::Separator));
    assert!(matches!(items[7], MenuEntry::Quit));
    let menu = Menu::default();
    assert_eq!(menu[0].title, "File");
    assert_eq!(Menu::new("Window".to_string())[0].items.len(), 8);
}

#[test]
fn restoring_an_empty_window_reuses_its_backup_record() {
    let mut a = api();
    let label = a.open_empty_window(OpenConfiguration::default(), WindowOptions::default()).ok().unwrap();
    assert_eq!(a.backups.backups.empty_windows.len(), 1);
    let id = a.states.get_item(&label).unwrap().backup_path.unwrap();
    assert_eq!(id, "1");
    let _ = a.take_actions();
    let _ = a.states.remove_item(&label);
    let mut st = WindowState::default();
    st.backup_path = Some(id.clone());
    let _ = a.states.set_item("old", st);
    let mut c = OpenConfiguration::default();
    c.initial_startup = true;
    let _ = a.open_window(c, Vec::new()).ok().unwrap();
    assert_eq!(a.backups.backups.empty_windows.len(), 1);
    let actions = a.take_actions();
    assert_eq!(creates(&actions), 1);
    match actions.iter().find(|x| matches!(x, WindowAction::Create(_))) {
        Some(WindowAction::Create(w)) => assert_eq!(w.configuration.backup_path, Some("/backups/1".to_string())),
        _ => panic!("expected a window creation"),
    }
}

#[test]
fn generated_labels_are_not_reused() {
    let mut a = api();
    let mut o1 = WindowOptions::default();
    o1.force_new_window = true;
    let mut o2 = WindowOptions::default();
    o2.force_new_window = true;
    let l1 = a.open_in_webview_window(o1).ok().unwrap();
    let l2 = a.open_in_webview_window(o2).ok().unwrap();
    assert_ne!(l1, l2);
    assert_eq!(a.next_window_id, 3);
}

#[test]
fn folders_already_shown_get_no_new_window_and_files_go_to_first() {
    let mut a = api();
    let _ = a.states.set_item("A", folder_state("/a", 1));
    let _ = a.states.set_item("B", folder_state("/b", 2));
    let c = OpenConfiguration::default();
    let folders = vec![
        resolve_file_path(&"/new".to_string(), PathKind::Directory).unwrap(),
        resolve_file_path(&"/b".to_string(), PathKind::Directory).unwrap(),
        resolve_file_path(&"/a".to_string(), PathKind::Directory).unwrap(),
        resolve_file_path(&"/new".to_string(), PathKind::Directory).unwrap(),
    ];
    let files = tauri_plugin_windows::windows::FilesToOpen { files_to_open_or_create: vec!["/f.txt".to_string()] };
    let _ = a.open(&c, folders, Vec::new(), 0, files, Vec::new()).ok().unwrap();
    let actions = a.take_actions();
    match &actions[0] {
        WindowAction::OpenFiles(w, p) => {
            assert_eq!(w, "B");
            assert_eq!(p.files_to_open_or_create, vec!["/f.txt".to_string()]);
        },
        _ => panic!("expected files for the window showing the first shown folder"),
    }
    let created: Vec<&WindowAction> = actions.iter().filter(|x| matches!(x, WindowAction::Create(_))).collect();
    assert_eq!(created.len(), 1);
    match created[0] {
        WindowAction::Create(w) => {
            assert_eq!(w.configuration.folder, Some("/new".to_string()));
            assert!(w.configuration.files_to_open_or_create.is_empty());
        },
        _ => unreachable!(),
    }
}

#[test]
fn repeated_restores_open_once_and_only_first_gets_files() {
    let mut a = api();
    let info = |id: &str| EmptyWindowBackupInfo { window: String::new(), backup_folder: Some(id.to_string()) };
    let restore = vec![info("7"), info("8"), info("7")];
    let files = tauri_plugin_windows::windows::FilesToOpen { files_to_open_or_create: vec!["/f.txt".to_string()] };
    let _ = a.open(&OpenConfiguration::default(), Vec::new(), restore, 0, files, Vec::new()).ok().unwrap();
    let actions = a.take_actions();
    assert_eq!(creates(&actions), 2);
    let mut with_files = 0;
    for x in &actions {
        if let WindowAction::Create(w) = x {
            if !w.configuration.files_to_open_or_create.is_empty() {
                with_files += 1;
            }
        }
    }
    assert_eq!(with_files, 1);
    assert_eq!(a.backups.backups.empty_windows.len(), 2);
}

#[test]
fn generated_labels_skip_known_windows() {
    let mut a = api();
    let _ = a.states.set_item("windows_1", folder_state("/old", 1));
    assert_eq!(a.new_window_label(), "windows_2");
    assert_eq!(a.next_window_id, 3);
}
