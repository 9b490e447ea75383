use gamemon::process::{
    ahk_pid_in, ahk_targets_in, get_ahk_pid, get_pid, is_any_process_running,
    pid_from_processes, process_exists, process_exists_in, running_in, running_processes,
    window_is_active, window_is_active_in, ProcessRecord,
};

fn record(pid: u32, parent: Option<u32>, name: &str, cmd: &[&str]) -> ProcessRecord {
    ProcessRecord {
        pid,
        parent,
        name: name.to_string(),
        cmd: cmd.iter().map(|s| s.to_string()).collect(),
    }
}

fn table() -> Vec<ProcessRecord> {
    vec![
        record(10, Some(1), "game.exe", &["game.exe"]),
        record(11, Some(0), "game.exe", &["game.exe"]),
        record(12, Some(5), "game.exe", &["game.exe", "-windowed"]),
        record(13, None, "game.exe", &[]),
        record(20, Some(4), "AutoHotkey.exe", &["AutoHotkey.exe", "C:\\scripts\\Game.ahk"]),
        record(21, Some(4), "AutoHotkey.exe", &["AutoHotkey.exe", "C:\\scripts\\Other.ahk"]),
        record(22, Some(4), "AutoHotkeyU64.exe", &["AutoHotkeyU64.exe", "C:\\scripts\\Game.ahk"]),
        record(30, Some(4), "notepad.exe", &[]),
    ]
}

#[test]
fn pid_lookup_reports_the_parent_of_the_last_match() {
    assert_eq!(pid_from_processes(&table(), "game.exe"), Ok(5));
}

#[test]
fn pid_lookup_skips_parents_that_are_zero_or_unknown() {
    let procs = vec![
        record(10, Some(0), "a.exe", &[]),
        record(11, None, "a.exe", &[]),
    ];
    assert_eq!(pid_from_processes(&procs, "a.exe"), Err("Program Not Found!".to_string()));
    assert!(!process_exists_in(&procs, "a.exe"));
}

#[test]
fn pid_lookup_errors() {
    assert_eq!(pid_from_processes(&table(), ""), Err("No PID provided!".to_string()));
    assert_eq!(pid_from_processes(&table(), "missing.exe"), Err("Program Not Found!".to_string()));
    assert_eq!(pid_from_processes(&table(), "GAME.EXE"), Err("Program Not Found!".to_string()));
    assert!(process_exists_in(&table(), "notepad.exe"));
    assert!(!process_exists_in(&table(), ""));
}

#[test]
fn get_pid_on_the_machine() {
    assert_eq!(get_pid(""), Err("No PID provided!".to_string()));
    assert_eq!(get_pid("no-such-program-for-gamemon.exe"), Err("Program Not Found!".to_string()));
    assert!(!process_exists(""));
    assert!(!process_exists("no-such-program-for-gamemon.exe"));
}

#[test]
fn running_processes_lists_the_machine() {
    let procs = running_processes();
    assert!(!procs.is_empty());
    assert!(procs.iter().any(|p| !p.name.is_empty()));
}

#[test]
fn running_check_reports_the_last_listed_running_program() {
    let checks = vec![
        ("game.exe".to_string(), "Game One".to_string()),
        ("missing.exe".to_string(), "Missing".to_string()),
        ("notepad.exe".to_string(), "Notes".to_string()),
        ("other.exe".to_string(), "Other".to_string()),
    ];
    assert_eq!(running_in(&table(), &checks), (true, "Notes".to_string()));
    let none = vec![("missing.exe".to_string(), "Missing".to_string())];
    assert_eq!(running_in(&table(), &none), (false, "None".to_string()));
    assert_eq!(running_in(&table(), &Vec::new()), (false, "None".to_string()));
}

#[test]
fn running_check_on_the_machine() {
    assert_eq!(is_any_process_running(&Vec::new()), (false, "None".to_string()));
    let checks = vec![("no-such-program-for-gamemon.exe".to_string(), "X".to_string())];
    assert_eq!(is_any_process_running(&checks), (false, "None".to_string()));
}

#[test]
fn ahk_pid_is_the_first_autohotkey_process_running_the_script() {
    assert_eq!(ahk_pid_in(&table(), "Game.ahk"), Ok(20));
    assert_eq!(ahk_pid_in(&table(), "Other"), Ok(21));
    assert_eq!(ahk_pid_in(&table(), "Missing.ahk"), Err("NONE".to_string()));
    assert_eq!(ahk_pid_in(&Vec::new(), ""), Err("NONE".to_string()));
}

#[test]
fn ahk_pid_on_the_machine() {
    assert_eq!(get_ahk_pid("C:\\no\\such\\script-for-gamemon.ahk"), Err("NONE".to_string()));
}

#[test]
fn close_targets_are_autohotkey_processes_with_the_script_argument() {
    let ahk = "C:\\scripts\\Game.ahk".to_string();
    assert_eq!(ahk_targets_in(&table(), &ahk), (true, vec![20, 22]));
    assert_eq!(ahk_targets_in(&table(), &"Game.ahk".to_string()), (true, vec![]));
    let plain = vec![record(1, None, "explorer.exe", &["C:\\scripts\\Game.ahk"])];
    assert_eq!(ahk_targets_in(&plain, &ahk), (false, vec![]));
}

#[test]
fn close_steps_on_the_machine() {
    let step = gamemon::actions::close_ahk(
        &"C:\\no\\such\\script-for-gamemon.ahk".to_string(),
        &running_processes(),
        &vec![],
    );
    assert!(matches!(step, gamemon::actions::CloseStep::Done(_)));
}

#[test]
fn active_window_check_uses_the_first_process_with_the_pid() {
    let procs = vec![
        record(7, None, "Code.exe", &[]),
        record(7, None, "Other.exe", &[]),
        record(8, None, "game.exe", &[]),
    ];
    assert!(window_is_active_in(&procs, 7, "Code.exe"));
    assert!(!window_is_active_in(&procs, 7, "Other.exe"));
    assert!(window_is_active_in(&procs, 8, "game.exe"));
    assert!(!window_is_active_in(&procs, 9, "game.exe"));
}

#[test]
fn active_window_check_on_the_machine() {
    assert!(!window_is_active(u32::MAX, "no-such-program-for-gamemon.exe"));
}
