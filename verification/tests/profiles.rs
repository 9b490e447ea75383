use gamemon::profile::{
    d_quote, defaults_from_values, filtered_keys, get_idle, section_from_values, Defaults, Instance,
    RegEntry,
};

fn entry(name: &str, text: &str) -> RegEntry {
    RegEntry { name: name.to_string(), shown: format!("{:?}", text), text: Some(text.to_string()) }
}

fn section(exe: &str, kind: &str, priority: &str) -> Instance {
    let mut i = Instance::new();
    i.exe_name = exe.to_string();
    i.game_or_win = kind.to_string();
    i.priority = priority.to_string();
    i
}

#[test]
fn d_quote_strips_the_enclosing_quotes() {
    assert_eq!(d_quote("\"Night\""), Some("Night".to_string()));
    assert_eq!(d_quote("\"\""), Some(String::new()));
    assert_eq!(d_quote("\"a\"b\""), Some("a\"b".to_string()));
}

#[test]
fn d_quote_refuses_unquoted_text() {
    assert_eq!(d_quote("Night"), None);
    assert_eq!(d_quote("\"Night"), None);
    assert_eq!(d_quote(""), None);
    assert_eq!(d_quote("\""), None);
}

#[test]
fn new_records_are_empty() {
    let i = Instance::new();
    assert_eq!(i.exe_name, "");
    assert_eq!(i.priority, "");
    assert_eq!(i.other_commands, "");
    let d = Defaults::new();
    assert_eq!(d.orgb_port, "");
    assert_eq!(d.current_priority, "");
    let copy = section("game.exe", "Game", "2").duplicate();
    assert_eq!(copy.exe_name, "game.exe");
    assert_eq!(copy.game_or_win, "Game");
    assert_eq!(copy.priority, "2");
}

#[test]
fn section_is_read_from_its_values() {
    let entries = vec![
        entry("exe_name", "game.exe"),
        entry("game_window_name", "The Game"),
        entry("path_toahk", "C:\\scripts\\game.ahk"),
        entry("other_commands", "echo a && echo b"),
        entry("priority", "2"),
        entry("unknown", "ignored"),
        entry("game_or_win", "Game"),
    ];
    let s = section_from_values(&entries).unwrap();
    assert_eq!(s.exe_name, "game.exe");
    assert_eq!(s.game_window_name, "The Game");
    assert_eq!(s.path_toahk, "C:\\scripts\\game.ahk");
    assert_eq!(s.other_commands, "echo a && echo b");
    assert_eq!(s.priority, "2");
    assert_eq!(s.game_or_win, "Game");
    assert_eq!(s.name_ofahk, "");
}

#[test]
fn section_display_text_keeps_its_escapes() {
    let entries = vec![entry("exe_name", "C:\\x.exe")];
    let s = section_from_values(&entries).unwrap();
    assert_eq!(s.exe_name, "C:\\\\x.exe");
}

#[test]
fn section_with_an_unreadable_value_is_refused() {
    let bad_quote = vec![entry("exe_name", "a"), RegEntry { name: "priority".to_string(), shown: "2".to_string(), text: None }];
    assert!(section_from_values(&bad_quote).is_none());
    let not_text = vec![RegEntry { name: "path_toahk".to_string(), shown: "\"x\"".to_string(), text: None }];
    assert!(section_from_values(&not_text).is_none());
    let ignored = vec![RegEntry { name: "other".to_string(), shown: "7".to_string(), text: None }];
    assert!(section_from_values(&ignored).is_some());
}

#[test]
fn defaults_are_read_from_their_values() {
    let entries = vec![
        entry("orgb_port", "6742"),
        entry("orgb_address", "127.0.0.1"),
        entry("night_hour_orgb_profile", "Dim"),
        entry("pathToSchemas", "whatever"),
    ];
    let d = defaults_from_values(&entries).unwrap();
    assert_eq!(d.orgb_port, "6742");
    assert_eq!(d.orgb_address, "127.0.0.1");
    assert_eq!(d.night_hour_orgb_profile, "Dim");
    assert_eq!(d.openrgb_path, "");
    let bad = vec![RegEntry { name: "gameon".to_string(), shown: "False".to_string(), text: None }];
    assert!(defaults_from_values(&bad).is_none());
}

fn idle_section(screensaver: &str) -> Instance {
    let mut s = section("300", screensaver, "4");
    s.open_rgbprofile = "Idle ORGB".to_string();
    s.signal_rgbprofile = "Idle SRGB".to_string();
    s.game_window_name = "2100-0600".to_string();
    s
}

fn defaults() -> Defaults {
    let mut d = Defaults::new();
    d.night_hour_orgb_profile = "Night ORGB".to_string();
    d.night_hour_srgb_profile = "Night SRGB".to_string();
    d.screensaver_orgb_profile = "Saver ORGB".to_string();
    d.screensaver_srgb_profile = "Saver SRGB".to_string();
    d
}

#[test]
fn idle_profile_at_night_uses_the_night_lights() {
    let s = get_idle(idle_section("Yes"), defaults(), true);
    assert_eq!(s.open_rgbprofile, "Night ORGB");
    assert_eq!(s.signal_rgbprofile, "Night SRGB");
    assert_eq!(s.game_window_name, "Night");
    assert_eq!(s.priority, "4");
}

#[test]
fn idle_profile_by_day_with_screensaver_uses_the_screensaver_lights() {
    let s = get_idle(idle_section("Yes"), defaults(), false);
    assert_eq!(s.open_rgbprofile, "Saver ORGB");
    assert_eq!(s.signal_rgbprofile, "Saver SRGB");
    assert_eq!(s.game_window_name, "Day");
}

#[test]
fn idle_profile_by_day_without_screensaver_keeps_its_lights() {
    let s = get_idle(idle_section("No"), defaults(), false);
    assert_eq!(s.open_rgbprofile, "Idle ORGB");
    assert_eq!(s.signal_rgbprofile, "Idle SRGB");
    assert_eq!(s.game_window_name, "Day");
}

fn keys() -> Vec<(String, Instance)> {
    vec![
        ("General".to_string(), section("", "Game", "0")),
        ("Shooter".to_string(), section("shooter.exe", "Game", "2")),
        ("Editor".to_string(), section("code.exe", "Window", "")),
        ("Puzzle".to_string(), section("puzzle.exe", "Game", "1")),
        ("Idle".to_string(), section("300", "Game", "4")),
    ]
}

fn names(v: &Vec<(String, Instance)>) -> Vec<String> {
    v.iter().map(|e| e.0.clone()).collect()
}

#[test]
fn filtered_keys_keeps_running_games_of_enough_priority() {
    let observed = vec![(true, false), (true, false), (false, false), (true, false), (true, true)];
    let r = filtered_keys(&keys(), "1", &observed, "Game").unwrap();
    assert_eq!(names(&r), vec!["Shooter", "Puzzle"]);
    let r = filtered_keys(&keys(), "2", &observed, "Game").unwrap();
    assert_eq!(names(&r), vec!["Shooter"]);
}

#[test]
fn filtered_keys_keeps_active_windows_unless_a_game_is_current() {
    let observed = vec![(true, true), (false, false), (true, true), (true, false), (false, false)];
    let r = filtered_keys(&keys(), "3", &observed, "Window").unwrap();
    assert_eq!(names(&r), vec!["Editor"]);
    let r = filtered_keys(&keys(), "3", &observed, "Game").unwrap();
    assert!(r.is_empty());
}

#[test]
fn filtered_keys_needs_readable_priorities() {
    let observed = vec![(false, false); 5];
    assert!(filtered_keys(&keys(), "high", &observed, "Game").is_none());
    let mut bad = keys();
    bad[1].1.priority = "x".to_string();
    let running = vec![(false, false), (true, false), (false, false), (false, false), (false, false)];
    assert!(filtered_keys(&bad, "0", &running, "Game").is_none());
    let stopped = vec![(false, false); 5];
    assert!(filtered_keys(&bad, "0", &stopped, "Game").unwrap().is_empty());
}

#[test]
fn detection_never_picks_a_fixed_section() {
    let mut all = keys();
    all.push(("defaults".to_string(), section("x.exe", "Game", "9")));
    let observed = vec![(true, true); 6];
    let r = filtered_keys(&all, "0", &observed, "Window").unwrap();
    assert_eq!(names(&r), vec!["Shooter", "Editor", "Puzzle"]);
    for (name, _) in &r {
        assert!(name != "Idle" && name != "General" && name != "defaults");
    }
}

#[test]
fn a_written_section_reads_back_empty() {
    let mut entries: Vec<RegEntry> = gamemon::registry::write_section("New")
        .iter()
        .map(|w| RegEntry { name: w.name.clone(), shown: format!("{:?}", w.value), text: Some(w.value.clone()) })
        .collect();
    entries.insert(3, RegEntry { name: "OpenRGBprofile".to_string(), shown: "\"General\"".to_string(), text: Some("General".to_string()) });
    let s = section_from_values(&entries).unwrap();
    assert_eq!(s.exe_name, "");
    assert_eq!(s.path_toahk, "");
    assert_eq!(s.other_commands, "");
    assert_eq!(s.priority, "");
    assert_eq!(s.open_rgbprofile, "");
}
