use gamemon::registry::{
    defaults_template, first_run_root, general_initial, idle_initial, root_write, section_template,
    section_write, write_section, RegWrite,
};
use gamemon::setup::{activation_writes, display_flag, idle_flag, night_flag, reg_check, reset_running, RegStep};

fn triple(w: &RegWrite) -> (Option<String>, String, String) {
    (w.section.clone(), w.name.clone(), w.value.clone())
}

fn root(name: &str, value: &str) -> (Option<String>, String, String) {
    (None, name.to_string(), value.to_string())
}

fn sec(s: &str, name: &str, value: &str) -> (Option<String>, String, String) {
    (Some(s.to_string()), name.to_string(), value.to_string())
}

#[test]
fn single_writes() {
    assert_eq!(triple(&root_write("idle", "true")), root("idle", "true"));
    assert_eq!(triple(&section_write("General", "running", "True")), sec("General", "running", "True"));
    assert_eq!(triple(&idle_flag(true)), root("idle", "true"));
    assert_eq!(triple(&idle_flag(false)), root("idle", "false"));
    assert_eq!(triple(&night_flag(true)), root("night", "true"));
    assert_eq!(triple(&display_flag(false)), root("display", "off"));
}

#[test]
fn first_run_writes_the_initial_state() {
    let w: Vec<_> = first_run_root("C:\\GameMon").iter().map(triple).collect();
    assert_eq!(w.len(), 10);
    assert_eq!(w[0], root("InstallDir", "C:\\GameMon"));
    assert_eq!(w[1], root("display", "on"));
    assert_eq!(w[2], root("exit_reason", "default"));
    assert_eq!(w[3], root("current_profile", "General"));
    assert_eq!(w[9], root("last_other_commands", "General"));
}

#[test]
fn section_templates() {
    let t: Vec<_> = section_template("Idle").iter().map(triple).collect();
    assert_eq!(t.len(), 11);
    assert_eq!(t[0], sec("Idle", "exe_name", ""));
    assert_eq!(t[10], sec("Idle", "other_commands", ""));
    let w: Vec<_> = write_section("New").iter().map(triple).collect();
    assert_eq!(w.len(), 12);
    assert_eq!(w[8], sec("New", "priority", ""));
    let d: Vec<_> = defaults_template().iter().map(triple).collect();
    assert_eq!(d.len(), 23);
    assert_eq!(d[15], sec("defaults", "orgb_port", "6742"));
    assert_eq!(d[22], sec("defaults", "screensaver_srgb_profile", "Screen Ambience"));
    let g: Vec<_> = general_initial().iter().map(triple).collect();
    assert_eq!(g, vec![
        sec("General", "OpenRGBprofile", "General"),
        sec("General", "SignalRGBprofile", "General"),
        sec("General", "game_or_win", "Game"),
        sec("General", "priority", "0"),
    ]);
    let i: Vec<_> = idle_initial().iter().map(triple).collect();
    assert_eq!(i[0], sec("Idle", "exeName", "300"));
    assert_eq!(i[1], sec("Idle", "gameWindowName", "2100-0600"));
}

#[test]
fn reg_check_does_nothing_on_an_existing_key() {
    assert!(reg_check(false, "C:\\GameMon").is_empty());
}

#[test]
fn reg_check_prepares_a_new_key() {
    let steps = reg_check(true, "C:\\GameMon");
    assert_eq!(steps.len(), 10 + 3 + 4 + 4);
    match &steps[0] {
        RegStep::Write(w) => assert_eq!(triple(w), root("InstallDir", "C:\\GameMon")),
        _ => panic!("expected a write"),
    }
    let ensured: Vec<String> = steps
        .iter()
        .filter_map(|s| match s {
            RegStep::EnsureSection { section, .. } => Some(section.clone()),
            _ => None,
        })
        .collect();
    assert_eq!(ensured, vec!["General", "Idle", "defaults"]);
    match &steps[12] {
        RegStep::EnsureSection { when_created, .. } => assert_eq!(when_created.len(), 23),
        _ => panic!("expected the defaults section"),
    }
    match &steps[20] {
        RegStep::Write(w) => assert_eq!(triple(w), sec("Idle", "priority", "4")),
        _ => panic!("expected a write"),
    }
}

#[test]
fn reset_running_marks_every_monitor_stopped() {
    let names = vec!["General".to_string(), "Shooter".to_string(), "defaults".to_string(), "Idle".to_string()];
    let w: Vec<_> = reset_running(&names).iter().map(triple).collect();
    assert_eq!(w, vec![
        sec("Shooter", "running", "False"),
        sec("Shooter", "running_pid", "0"),
        sec("Idle", "running", "False"),
        sec("Idle", "running_pid", "0"),
        sec("defaults", "gameon", "False"),
        sec("General", "running", "True"),
        sec("General", "running_pid", "0"),
    ]);
}

#[test]
fn activation_records_the_profile() {
    let w: Vec<_> = activation_writes("Shooter", "2").iter().map(triple).collect();
    assert_eq!(w, vec![root("current_priority", "2"), root("current_profile", "Shooter"), root("current_profile_activated", "Shooter")]);
}

#[test]
fn display_recorded_only_after_the_message_was_sent() {
    let w = gamemon::setup::display_record(false, &Ok(())).unwrap();
    assert_eq!(triple(&w), root("display", "off"));
    assert!(gamemon::setup::display_record(true, &Err("failed".to_string())).is_none());
}
