use gamemon::idle::{dark_hours, dark_hours_at, idle_seconds, time_now, user_idle, ClockTime};
use gamemon::monitor::{
    activation_header, busy_step, choose_profile, deactivate, game_checks, idle_power, idle_reapply,
    idle_special, idle_special_report, leave_for_idle, monitored_sections, pass_plan, report_block,
    timer_due, BusyStep, PassPlan, ProfileChoice,
};
use gamemon::profile::Instance;

fn watched_section(exe: &str, kind: &str) -> Instance {
    let mut i = Instance::new();
    i.exe_name = exe.to_string();
    i.game_or_win = kind.to_string();
    i
}

fn at(h: u32, m: u32, s: u32) -> ClockTime {
    ClockTime { secs: h * 3600 + m * 60 + s, nanos: 0 }
}

#[test]
fn watched_sections_leave_out_the_fixed_ones() {
    let all = vec![
        ("Idle".to_string(), watched_section("300", "Game")),
        ("Shooter".to_string(), watched_section("shooter.exe", "Game")),
        ("General".to_string(), watched_section("", "Game")),
        ("defaults".to_string(), watched_section("", "")),
        ("Editor".to_string(), watched_section("code.exe", "Window")),
    ];
    let watched = monitored_sections(all);
    let names: Vec<String> = watched.iter().map(|e| e.0.clone()).collect();
    assert_eq!(names, vec!["Shooter", "Editor"]);
    assert_eq!(game_checks(&watched), vec![("shooter.exe".to_string(), "Shooter".to_string())]);
}

#[test]
fn timers() {
    assert!(!timer_due(8_000_000_000, 8));
    assert!(timer_due(8_000_000_001, 8));
    assert!(timer_due(5_000_000_000, 4));
    assert!(!timer_due(0, 0));
}

#[test]
fn idle_decisions() {
    assert_eq!(idle_power(true, true), Some(false));
    assert_eq!(idle_power(false, true), Some(true));
    assert_eq!(idle_power(true, false), None);
    assert!(idle_reapply(true, "on"));
    assert!(!idle_reapply(true, "off"));
    assert!(idle_reapply(false, "off"));
    assert!(!idle_reapply(false, "on"));
    assert!(leave_for_idle("Window"));
    assert!(!leave_for_idle("Game"));
}

#[test]
fn busy_steps() {
    assert!(matches!(busy_step(&(true, "Shooter".to_string()), "General", false), BusyStep::GameChanged));
    assert!(matches!(busy_step(&(true, "Shooter".to_string()), "Shooter", true), BusyStep::GameKept));
    assert!(matches!(busy_step(&(false, "None".to_string()), "General", true), BusyStep::WindowChanged));
    assert!(matches!(busy_step(&(false, "None".to_string()), "General", false), BusyStep::Unchanged));
}

#[test]
fn pass_plans() {
    assert!(matches!(pass_plan(true, "Idle"), PassPlan::ManageIdle));
    assert!(matches!(pass_plan(true, "Shooter"), PassPlan::CheckForIdle));
    assert!(matches!(pass_plan(false, "Idle"), PassPlan::Busy));
}

#[test]
fn profile_choice() {
    let one = vec![("Shooter".to_string(), watched_section("shooter.exe", "Game"))];
    assert!(matches!(choose_profile("General", &one), ProfileChoice::First));
    assert!(matches!(choose_profile("Shooter", &vec![]), ProfileChoice::General));
    assert!(matches!(choose_profile("General", &vec![]), ProfileChoice::Stay));
}

#[test]
fn activation_reports() {
    assert_eq!(
        activation_header("Shooter", "shooter.exe", "\nDeactivating the General profile.\n"),
        "shooter.exe detected! Changing profile to Shooter...\n\nDeactivating the General profile.\n\n\n"
    );
    assert_eq!(activation_header("General", "x", "D"), "Nothing detected! Changing profile to General...\nD\n\n");
    assert_eq!(activation_header("Idle", "x", "D"), "Idle detected! Changing profile to Idle...\nD\n\n");
    assert_eq!(report_block("OpenRGB", "Changed"), "\n_____ OpenRGB _____\nChanged\n\n");
}

#[test]
fn idle_special_steps() {
    let mut night = watched_section("300", "Yes");
    night.game_window_name = "Night".to_string();
    let s = idle_special(&night, "on", true);
    assert!(s.night && s.power == Some(false) && !s.screensaver);
    let s = idle_special(&night, "off", true);
    assert!(s.power.is_none());
    let mut day = watched_section("300", "Yes");
    day.game_window_name = "Day".to_string();
    let s = idle_special(&day, "off", true);
    assert!(!s.night && s.power == Some(true) && s.screensaver);
    let s = idle_special(&day, "off", false);
    assert!(s.power.is_none() && !s.screensaver);
}

#[test]
fn idle_special_reports() {
    assert_eq!(
        idle_special_report(true, &Some("..OK".to_string()), &None),
        "\n_____ Idle Special Settings _____\nIdle detected during night hours.\nTurning monitors off...OK\n\n"
    );
    assert_eq!(
        idle_special_report(false, &None, &Some("Running".to_string())),
        "\n_____ Idle Special Settings _____\nIdle detected during day hours.\nActivating Screensaver...\nRunning\n\n"
    );
}

#[test]
fn deactivation() {
    assert!(deactivate("", &Instance::new(), "on", false, "").is_none());
    let d = deactivate("General", &Instance::new(), "on", false, "").unwrap();
    assert_eq!(d.head, "\nDeactivating the General profile.\n");
    assert_eq!((d.record.section.clone(), d.record.name.clone(), d.record.value.clone()), (None, "last_profile".to_string(), "General".to_string()));
    let d = deactivate("Idle", &watched_section("300", "Yes"), "off", false, "C:\\Lively.scr").unwrap();
    assert!(d.power_on && d.screensaver_on && d.lively_hide);
    assert_eq!(
        d.head,
        "\nDeactivating the Idle profile.\n\nTurning monitors on.Lively.scr is designated as the screensaver.  Running \"Livelycu.exe screensaver --show false\"\n"
    );
    let d = deactivate("Idle", &watched_section("300", "Yes"), "off", true, "other.scr").unwrap();
    assert!(!d.power_on && !d.screensaver_on && !d.lively_hide);
    let d = deactivate("Shooter", &watched_section("shooter.exe", "Game"), "off", false, "C:\\Lively.scr").unwrap();
    assert!(!d.power_on && !d.lively_hide);
    assert_eq!(d.head, "\nDeactivating Shooter. shooter.exe is no longer detected!\n");
}

#[test]
fn dark_hours_over_midnight() {
    assert_eq!(dark_hours_at("2100-0600", &at(22, 0, 0)), Some(true));
    assert_eq!(dark_hours_at("2100-0600", &at(3, 0, 0)), Some(true));
    assert_eq!(dark_hours_at("2100-0600", &at(12, 0, 0)), Some(false));
    assert_eq!(dark_hours_at("2100-0600", &at(21, 0, 0)), Some(true));
    assert_eq!(dark_hours_at("2100-0600", &at(20, 59, 59)), Some(false));
    assert_eq!(dark_hours_at("2100-0600", &at(6, 0, 59)), Some(true));
    assert_eq!(dark_hours_at("2100-0600", &ClockTime { secs: 6 * 3600 + 59, nanos: 999 }), Some(true));
    assert_eq!(dark_hours_at("2100-0600", &at(6, 1, 0)), Some(false));
}

#[test]
fn dark_hours_within_one_day() {
    assert_eq!(dark_hours_at("0900-1700", &at(20, 0, 0)), Some(false));
    assert_eq!(dark_hours_at("0900-1700", &at(8, 59, 59)), Some(false));
    assert_eq!(dark_hours_at("0900-1700", &at(9, 0, 0)), Some(true));
    assert_eq!(dark_hours_at("0900-1700", &at(17, 0, 30)), Some(true));
    assert_eq!(dark_hours_at("0900-1700", &at(17, 1, 0)), Some(false));
    assert_eq!(dark_hours_at("0100-0600", &at(12, 0, 0)), Some(false));
    assert_eq!(dark_hours_at("1200-1200", &at(12, 0, 40)), Some(true));
    assert_eq!(dark_hours_at("1200-1200", &at(12, 1, 0)), Some(false));
}

#[test]
fn dark_hours_unreadable_ranges() {
    assert_eq!(dark_hours_at("21:00-06:00", &at(12, 0, 0)), None);
    assert_eq!(dark_hours_at("2100", &at(12, 0, 0)), None);
    assert_eq!(dark_hours_at("2é00-0600", &at(12, 0, 0)), None);
    assert_eq!(dark_hours_at("2500-0600", &at(12, 0, 0)), None);
    assert_eq!(dark_hours_at("2100-0675", &at(12, 0, 0)), None);
    assert_eq!(dark_hours_at("2100-0675", &at(22, 0, 0)), None);
    assert_eq!(dark_hours(""), None);
}

#[test]
fn clock() {
    let now = time_now();
    assert!(now.secs < 86400);
    assert!(now.nanos < 2_000_000_000);
    assert!(dark_hours("0000-2359").unwrap());
}

#[test]
fn idle_time() {
    assert_eq!(idle_seconds(10_999, 1_000), Some(9));
    assert_eq!(idle_seconds(1_000, 2_000), None);
    assert_eq!(user_idle("300", 400_000, 0), Some(true));
    assert_eq!(user_idle("300", 300_999, 0), Some(false));
    assert_eq!(user_idle("300", 301_000, 0), Some(true));
    assert_eq!(user_idle("abc", 1, 0), None);
    assert_eq!(user_idle("300", 0, 1), None);
}

#[test]
fn idle_user_stays_idle_without_input() {
    for now in [301_000u32, 302_500, 900_000, u32::MAX] {
        assert_eq!(user_idle("300", now, 0), Some(true));
    }
    assert_eq!(user_idle("300", 300_999, 0), Some(false));
}

#[test]
fn empty_profile_name_is_not_activated() {
    assert!(!gamemon::monitor::should_activate(""));
    assert!(gamemon::monitor::should_activate("Idle"));
}
