use gamemon::profile::{Defaults, Instance};
use gamemon::registry::RegWrite;
use gamemon::settings::{
    ahk_script_path, ahk_script_template, defaults_form_writes, kind_slot, monitor_list,
    priority_slot, screensaver_active_value, screensaver_slot, section_form_writes,
};

fn strings(v: &[&str]) -> Vec<String> {
    v.iter().map(|s| s.to_string()).collect()
}

fn triples(v: &Vec<RegWrite>) -> Vec<(Option<String>, String, String)> {
    v.iter().map(|w| (w.section.clone(), w.name.clone(), w.value.clone())).collect()
}

#[test]
fn monitor_list_sorts_by_lower_case_and_drops_defaults() {
    let sections = strings(&["Idle", "defaults", "General", "apex", "Zelda"]);
    assert_eq!(monitor_list(&sections), strings(&["apex", "General", "Idle", "Zelda"]));
}

#[test]
fn monitor_list_compares_lower_case_forms() {
    assert_eq!(monitor_list(&strings(&["B", "a"])), strings(&["a", "B"]));
    assert_eq!(monitor_list(&strings(&["a", "B"])), strings(&["a", "B"]));
}

#[test]
fn monitor_list_keeps_the_order_of_equal_lower_case_forms() {
    assert_eq!(monitor_list(&strings(&["Game", "game", "GAME", "a"])), strings(&["a", "Game", "game", "GAME"]));
    assert_eq!(monitor_list(&strings(&["GAME", "Game"])), strings(&["GAME", "Game"]));
}

#[test]
fn monitor_list_agrees_with_a_stable_sort() {
    let sections = strings(&["b", "défaut", "Éclair", "defaults", "ab", "a", "AB", "", "Zz", "zZ"]);
    let mut expected: Vec<String> = sections.iter().filter(|s| s.as_str() != "defaults").cloned().collect();
    expected.sort_by_key(|a| a.to_lowercase());
    assert_eq!(monitor_list(&sections), expected);
    assert!(monitor_list(&Vec::new()).is_empty());
    assert!(monitor_list(&strings(&["defaults"])).is_empty());
}

#[test]
fn radio_slots() {
    assert_eq!(priority_slot("1"), 0);
    assert_eq!(priority_slot("2"), 1);
    assert_eq!(priority_slot("3"), 2);
    assert_eq!(priority_slot("4"), 3);
    assert_eq!(priority_slot(""), 3);
    assert_eq!(kind_slot("Game"), 0);
    assert_eq!(kind_slot("Window"), 1);
    assert_eq!(kind_slot("game"), 1);
    assert_eq!(screensaver_slot("1"), 0);
    assert_eq!(screensaver_slot("0"), 1);
    assert_eq!(screensaver_active_value("Yes"), "1");
    assert_eq!(screensaver_active_value("No"), "0");
}

#[test]
fn script_path_for_a_new_monitor() {
    assert_eq!(ahk_script_path("C:\\GameMon", "My Game", true), "C:\\GameMon\\scripts\\My_Game.ahk");
    assert_eq!(ahk_script_path("C:\\GameMon", "My Game", false), "C:\\GameMon\\scripts\\My Game.ahk");
    assert_eq!(ahk_script_template(), "#Persistent\n#SingleInstance, Force\n#NoTrayIcon");
}

#[test]
fn defaults_window_saves_its_fields() {
    let mut d = Defaults::new();
    d.openrgb_path = "C:\\OpenRGB.exe".to_string();
    d.orgb_port = "6742".to_string();
    d.orgb_address = "127.0.0.1".to_string();
    let w = triples(&defaults_form_writes(&d));
    let sec = Some("defaults".to_string());
    assert_eq!(w.len(), 10);
    assert_eq!(w[0], (sec.clone(), "openRGBPath".to_string(), "C:\\OpenRGB.exe".to_string()));
    assert_eq!(w[1], (sec.clone(), "voiceAttackPath".to_string(), String::new()));
    assert_eq!(w[8], (sec.clone(), "orgb_port".to_string(), "6742".to_string()));
    assert_eq!(w[9], (sec, "orgb_address".to_string(), "127.0.0.1".to_string()));
}

#[test]
fn monitor_window_saves_its_fields_and_choices() {
    let mut form = Instance::new();
    form.exe_name = "game.exe".to_string();
    form.path_toahk = "C:\\s.ahk".to_string();
    let w = triples(&section_form_writes("Game", &form, &Some("Game".to_string()), &Some("2".to_string())));
    let sec = Some("Game".to_string());
    assert_eq!(w.len(), 9);
    assert_eq!(w[0], (sec.clone(), "exe_name".to_string(), "game.exe".to_string()));
    assert_eq!(w[3], (sec.clone(), "path_toahk".to_string(), "C:\\s.ahk".to_string()));
    assert_eq!(w[7], (sec.clone(), "game-or-win".to_string(), "Game".to_string()));
    assert_eq!(w[8], (sec.clone(), "priority".to_string(), "2".to_string()));
    let w = triples(&section_form_writes("Game", &form, &None, &None));
    assert_eq!(w.len(), 7);
    assert_eq!(w[6], (sec, "signal_rgbprofile".to_string(), String::new()));
}

#[test]
fn scripts_are_closed_for_every_section_but_defaults() {
    assert_eq!(
        gamemon::settings::script_sections(&strings(&["General", "defaults", "Idle", "Game"])),
        strings(&["General", "Idle", "Game"])
    );
}

#[test]
fn desktop_settings_only_for_idle() {
    let pair = |a: &str, b: &str| (a.to_string(), b.to_string());
    assert_eq!(
        gamemon::settings::desktop_writes("Idle", &Some("300".to_string()), &Some("Yes".to_string())),
        vec![pair("ScreenSaveTimeOut", "300"), pair("ScreenSaveActive", "1")]
    );
    assert_eq!(gamemon::settings::desktop_writes("Idle", &None, &Some("No".to_string())), vec![pair("ScreenSaveActive", "0")]);
    assert!(gamemon::settings::desktop_writes("Game", &Some("300".to_string()), &Some("Yes".to_string())).is_empty());
}
