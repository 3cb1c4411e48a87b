use defuscrypt::process::{
    count_named, emergency_warning_names, find_file_lock_owners, name_matches, system_process_names, get_process_details, graceful_targets, search_processes,
    threads_owned_by, LockConfig, ProcessInfo, ThreadEntry,
};

fn proc(pid: u32, name: &str, path: Option<&str>) -> ProcessInfo {
    ProcessInfo { pid, name: name.to_string(), path: path.map(|p| p.to_string()), parent_pid: 4 }
}

#[test]
fn process_beside_target_is_selected() {
    let snap = vec![
        proc(10, "tool.exe", Some("C:\\Apps\\Tool\\tool.exe")),
        proc(11, "other.exe", Some("C:\\Elsewhere\\other.exe")),
    ];
    let cfg = LockConfig::windows_desktop();
    let pids = find_file_lock_owners(&snap, "c:\\apps\\tool\\data.bin", &cfg);
    assert_eq!(pids, vec![10]);
}

#[test]
fn critical_process_is_never_selected() {
    let snap = vec![
        proc(20, "svchost.exe", Some("C:\\Data\\svchost.exe")),
        proc(21, "System", None),
        proc(22, "notepad.exe", Some("C:\\Windows\\notepad.exe")),
    ];
    let cfg = LockConfig::windows_desktop();
    let pids = find_file_lock_owners(&snap, "C:\\Data\\secret.txt", &cfg);
    assert_eq!(pids, vec![22]);
}

#[test]
fn deny_listed_names_match_ignoring_case() {
    let snap = vec![
        proc(1, "CHROME.EXE", None),
        proc(2, "calc.exe", None),
        proc(3, "Explorer.EXE", Some("C:\\Windows\\explorer.exe")),
        proc(4, "vlc.exe", Some("D:\\media\\vlc.exe")),
    ];
    let cfg = LockConfig::windows_desktop();
    assert_eq!(find_file_lock_owners(&snap, "C:\\x.txt", &cfg), vec![1, 3, 4]);
    assert_eq!(graceful_targets(&snap, "C:\\x.txt", &cfg), vec![1, 4]);
}

#[test]
fn same_directory_and_deny_list_select_once() {
    let snap = vec![proc(5, "notepad.exe", Some("C:\\Docs\\notepad.exe"))];
    let cfg = LockConfig::windows_desktop();
    assert_eq!(find_file_lock_owners(&snap, "C:\\Docs\\a.txt", &cfg), vec![5]);
}

#[test]
fn empty_directories_never_match() {
    let snap = vec![proc(6, "tool.exe", Some("tool.exe"))];
    let cfg = LockConfig::windows_desktop();
    assert_eq!(find_file_lock_owners(&snap, "a.txt", &cfg), Vec::<u32>::new());
}

#[test]
fn custom_configuration_drives_selection() {
    let cfg = LockConfig {
        deny_list: vec!["editor".to_string()],
        critical: vec!["guard".to_string()],
        shell_pattern: "desk".to_string(),
    };
    let snap = vec![
        proc(1, "MyEditor", None),
        proc(2, "editor-guard", None),
        proc(3, "desk", Some("/opt/app/desk")),
    ];
    assert_eq!(find_file_lock_owners(&snap, "/opt/app/file", &cfg), vec![1, 3]);
    assert_eq!(graceful_targets(&snap, "/opt/app/file", &cfg), vec![1]);
}

#[test]
fn process_details_by_pid() {
    let snap = vec![proc(7, "a.exe", None), proc(8, "b.exe", Some("C:\\b.exe"))];
    let found = get_process_details(&snap, 8).expect("present");
    assert_eq!(found.name, "b.exe");
    assert_eq!(found.path.as_deref(), Some("C:\\b.exe"));
    assert!(get_process_details(&snap, 9).is_none());
}

#[test]
fn threads_are_filtered_by_owner() {
    let threads = vec![
        ThreadEntry { thread_id: 100, owner_pid: 1 },
        ThreadEntry { thread_id: 101, owner_pid: 2 },
        ThreadEntry { thread_id: 102, owner_pid: 1 },
    ];
    assert_eq!(threads_owned_by(&threads, 1), vec![100, 102]);
    assert_eq!(threads_owned_by(&threads, 3), Vec::<u32>::new());
}

#[test]
fn search_matches_name_or_path() {
    let snap = vec![
        proc(1, "Malware.exe", None),
        proc(2, "svc.exe", Some("C:\\MALWARE\\svc.exe")),
        proc(3, "clean.exe", Some("C:\\clean.exe")),
    ];
    assert_eq!(search_processes(&snap, "malware"), vec![0, 1]);
    assert_eq!(search_processes(&snap, ""), vec![0, 1, 2]);
}

#[test]
fn system_processes_are_counted() {
    let snap = vec![proc(1, "System", None), proc(2, "svchost.exe", None), proc(3, "game.exe", None)];
    let pats = vec!["system".to_string(), "svchost".to_string(), "csrss".to_string()];
    assert_eq!(count_named(&snap, &pats), 2);
}

#[test]
fn names_match_ignoring_case() {
    let pats = vec!["system".to_string(), "csrss".to_string()];
    assert!(name_matches("SYSTEM", &pats));
    assert!(name_matches("Csrss.exe", &pats));
    assert!(!name_matches("game.exe", &pats));
}

#[test]
fn built_in_name_lists() {
    assert_eq!(emergency_warning_names(), vec!["system", "csrss", "winlogon", "services"]);
    assert_eq!(system_process_names(), vec!["system", "svchost", "csrss"]);
}

#[test]
fn a_pid_shared_with_a_critical_entry_is_never_selected() {
    let snap = vec![
        proc(30, "tool.exe", Some("C:\\Data\\tool.exe")),
        proc(30, "csrss.exe", None),
        proc(31, "explorer.exe", None),
        proc(32, "notepad.exe", None),
        proc(31, "helper.exe", None),
    ];
    let cfg = LockConfig::windows_desktop();
    assert_eq!(find_file_lock_owners(&snap, "C:\\Data\\x.txt", &cfg), vec![31, 32]);
    assert_eq!(graceful_targets(&snap, "C:\\Data\\x.txt", &cfg), vec![32]);
}
