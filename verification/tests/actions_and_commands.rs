use gamemon::actions::{
    bytes_debug, change_open_rgb, change_signal_rgb, change_voice_attack, close_ahk, close_pid,
    dialog_texts, monitor_power_param, power_monitors, run_ahk, run_screensaver, screensaver_step,
    startup_message, voice_attack_command, CloseStep, Finished, OpenRgbStep, SignalRgbStep,
    HttpOutcome, LogLevel, ScreensaverStep, WindowClose,
};
use gamemon::process::ProcessRecord;
use gamemon::commands::{
    add_command, begin_edit_command, command_list, delete_command, other_command_report,
    run_cmd_report, run_other_commands, CommandOutcome,
};

fn run_text(step: SignalRgbStep) -> String {
    match step {
        SignalRgbStep::Run(c) => c,
        SignalRgbStep::Done(t) => panic!("expected a command, got the report {}", t),
    }
}

fn done_text(step: SignalRgbStep) -> String {
    match step {
        SignalRgbStep::Done(t) => t,
        SignalRgbStep::Run(c) => panic!("expected a report, got the command {}", c),
    }
}

#[test]
fn signal_rgb_runs_the_encoded_command_then_reports() {
    let p = "Screen Ambience".to_string();
    assert_eq!(run_text(change_signal_rgb(&p, false)), "start signalrgb://effect/apply/Screen%20Ambience?-silentlaunch-");
    assert_eq!(done_text(change_signal_rgb(&p, true)), "Changed SignalRGB to Screen Ambience");
    assert_eq!(
        run_text(change_signal_rgb(&"Rainbow Wave?speed=5".to_string(), false)),
        "start signalrgb://effect/apply/Rainbow%20Wave?speed=5^&-silentlaunch-"
    );
}

#[test]
fn signal_rgb_without_a_profile_runs_nothing() {
    assert_eq!(done_text(change_signal_rgb(&String::new(), false)), "No SignalRGB Profile found for {profile}");
    assert_eq!(done_text(change_signal_rgb(&String::new(), true)), "No SignalRGB Profile found for {profile}");
}

#[test]
fn open_rgb_reads_the_target_posts_then_reports() {
    let p = "Night Mode".to_string();
    assert!(matches!(change_open_rgb(&p, &None, &None), OpenRgbStep::NeedTarget));
    let target = Some(("127.0.0.1".to_string(), "6742".to_string()));
    match change_open_rgb(&p, &target, &None) {
        OpenRgbStep::Post { url, body } => {
            assert_eq!(url, "http://127.0.0.1:6742/Night%20Mode");
            assert_eq!(body, "Requesting Change OpenRGB profile to Night%20Mode");
        }
        _ => panic!("expected a request"),
    }
    let ok = HttpOutcome::Answered { status: 200, status_text: "OK".to_string(), url: "http://127.0.0.1:6742/Night%20Mode".to_string() };
    match change_open_rgb(&p, &target, &Some(ok)) {
        OpenRgbStep::Done(t) => assert_eq!(
            t,
            "Changed OpenRGB to Night%20Mode\n\nResponse:\nCode: 200\nContent: OK\n Url: http://127.0.0.1:6742/Night%20Mode"
        ),
        _ => panic!("expected the report"),
    }
    let err = HttpOutcome::ErrorStatus("http://x/: status code 404".to_string());
    match change_open_rgb(&"x".to_string(), &target, &Some(err)) {
        OpenRgbStep::Done(t) => assert_eq!(t, "ERROR: http://x/: status code 404"),
        _ => panic!("expected the report"),
    }
}

#[test]
fn open_rgb_without_a_profile_reads_and_posts_nothing() {
    for target in [None, Some(("127.0.0.1".to_string(), "6742".to_string()))] {
        match change_open_rgb(&String::new(), &target, &None) {
            OpenRgbStep::Done(t) => assert_eq!(t, "No OpenRGB Profile found for {profile}"),
            _ => panic!("expected the notice"),
        }
    }
}

#[test]
fn voice_attack_reports() {
    assert_eq!(voice_attack_command("C:\\VA\\VoiceAttack.exe", "Elite"), "C:\\VA\\VoiceAttack.exe -profile Elite");
    assert_eq!(change_voice_attack(&String::new(), "va.exe"), "No VoiceAttack profile found.");
    assert_eq!(
        change_voice_attack(&"Elite".to_string(), "va.exe"),
        "Changed VoiceAttack profile to Elite\n\nva.exe -profile Elite"
    );
}

#[test]
fn ahk_reports() {
    assert_eq!(run_ahk(&"C:\\s\\game.ahk".to_string()), "C:\\s\\game.ahk is now running!");
    assert_eq!(close_pid(4242), "TASKKILL /PID 4242");
    assert_eq!(close_pid(0), "TASKKILL /PID 0");
}

fn ahk_process(pid: u32, name: &str, cmd: &[&str]) -> ProcessRecord {
    ProcessRecord { pid, parent: Some(1), name: name.to_string(), cmd: cmd.iter().map(|c| c.to_string()).collect() }
}

fn close_done(step: CloseStep) -> String {
    match step {
        CloseStep::Done(t) => t,
        CloseStep::CloseWindow(pid) => panic!("expected the report, got a window of {}", pid),
    }
}

#[test]
fn close_ahk_closes_each_matching_window_in_turn() {
    let ahk = "game.ahk".to_string();
    let procs = vec![
        ahk_process(5, "AutoHotkey.exe", &["AutoHotkey.exe", "game.ahk"]),
        ahk_process(6, "AutoHotkey.exe", &["AutoHotkey.exe", "C:\\game.ahk"]),
        ahk_process(7, "notepad.exe", &["game.ahk"]),
        ahk_process(8, "AutoHotkeyU64.exe", &["game.ahk"]),
    ];
    assert!(matches!(close_ahk(&ahk, &procs, &vec![]), CloseStep::CloseWindow(5)));
    assert!(matches!(close_ahk(&ahk, &procs, &vec![WindowClose::Closed]), CloseStep::CloseWindow(8)));
    assert_eq!(
        close_done(close_ahk(&ahk, &procs, &vec![WindowClose::Closed, WindowClose::Failed])),
        "\nClosing game.ahk...OK!\nClosing game.ahk...ERROR!! Could not close game.ahk\n"
    );
    assert_eq!(
        close_done(close_ahk(&ahk, &procs, &vec![WindowClose::NoWindow])),
        "No window matching game.ahk found!\n"
    );
}

#[test]
fn close_ahk_without_autohotkey_or_matches() {
    let ahk = "game.ahk".to_string();
    let none = vec![ahk_process(7, "notepad.exe", &["game.ahk"])];
    assert_eq!(close_done(close_ahk(&ahk, &none, &vec![])), "No window matching game.ahk found!\n");
    let other = vec![ahk_process(5, "AutoHotkey.exe", &["AutoHotkey.exe", "other.ahk"])];
    assert_eq!(close_done(close_ahk(&ahk, &other, &vec![])), "");
}

#[test]
fn monitor_power_reports() {
    assert_eq!(monitor_power_param(true), -1);
    assert_eq!(monitor_power_param(false), 2);
    assert_eq!(power_monitors(true, &Ok(())), "..OK");
    assert_eq!(power_monitors(true, &Err("E".to_string())), "Failed to turn on monitor(s)!! || Error: E");
    assert_eq!(power_monitors(false, &Err("E".to_string())), "Failed to turn off monitor(s)!! || Error: E");
}

#[test]
fn bytes_debug_matches_debug_formatting() {
    for v in [vec![], vec![0u8], vec![1, 22, 255], b"OK\r\n".to_vec()] {
        assert_eq!(bytes_debug(&v), format!("{:?}", v));
    }
}

#[test]
fn screensaver_steps() {
    assert!(matches!(screensaver_step("C:\\Lively.scr", true), ScreensaverStep::Lively));
    assert!(matches!(screensaver_step("saver.scr", true), ScreensaverStep::Restart));
    assert!(matches!(screensaver_step("saver.scr", false), ScreensaverStep::Start));
}

#[test]
fn screensaver_reports() {
    assert_eq!(
        run_screensaver("x", &ScreensaverStep::Lively, &Err(String::new())),
        "Lively.scr is designated as the screensaver.  Running \"Livelycu.exe screensaver --show true\""
    );
    let done = Finished { code: 0, stdout: vec![79, 75], stderr: vec![] };
    assert_eq!(
        run_screensaver("s.scr", &ScreensaverStep::Restart, &Ok(done)),
        "Screensaver detected...taking ownership of screensaver\nSUCCESS!\nstdin: TASKKILL /im /f s.scr\nstdout: [79, 75]\nstderr: []\n"
    );
    let failed = Finished { code: 1, stdout: vec![], stderr: vec![7] };
    assert_eq!(
        run_screensaver("s.scr", &ScreensaverStep::Restart, &Ok(failed)),
        "___Running Command___\nERROR!\nstdin: TASKKILL /im /f s.scr\nstdout: []\nstderr: [7]\n"
    );
    assert_eq!(
        run_screensaver("s.scr", &ScreensaverStep::Restart, &Err("denied".to_string())),
        "Could not run TASKKILL /im /f s.scr: denied\n"
    );
    let ran = Finished { code: 0, stdout: vec![], stderr: vec![] };
    assert_eq!(
        run_screensaver("s.scr", &ScreensaverStep::Start, &Ok(ran)),
        "Running Screensaver:\n\tstdin: s.scr\n\tstdout: []\n\tstderr: []\n"
    );
    assert_eq!(run_screensaver("s.scr", &ScreensaverStep::Start, &Err("gone".to_string())), "Could not run s.scr: gone\n");
}

#[test]
fn startup_messages() {
    let (level, text) = startup_message("default", "Menu");
    assert!(matches!(level, LogLevel::Error));
    assert_eq!(text, "GameMon Started...\nLast shutdown reason: CRASH");
    let (level, text) = startup_message("Shutdown", "Menu");
    assert!(matches!(level, LogLevel::Warn));
    assert_eq!(text, "GameMon Started...\nLast shutdown reason: Menu");
}

#[test]
fn dialog_defaults() {
    assert_eq!(dialog_texts("", ""), ("GAMEMON".to_string(), "TEST".to_string()));
    assert_eq!(dialog_texts("About", "Hi"), ("About".to_string(), "Hi".to_string()));
}

#[test]
fn command_reports() {
    assert_eq!(
        run_cmd_report("eventvwr.msc", &CommandOutcome::Exited(0)),
        Ok("\n--------------------\neventvwr.msc\nSUCCESS!\nstdin: None\nstdout: None\nstderr: None\n".to_string())
    );
    assert_eq!(
        run_cmd_report("x", &CommandOutcome::Exited(3)),
        Err("\n--------------------\nx\nERROR!\nstdin: None\nstdout: None\nstderr: None\n".to_string())
    );
    assert_eq!(
        run_cmd_report("x", &CommandOutcome::NotStarted("not found".to_string())),
        Err("Could not run x: not found\n".to_string())
    );
    assert_eq!(other_command_report("x", &CommandOutcome::NotStarted("e".to_string())), "Could not run x: e\n");
}

#[test]
fn other_commands_plan() {
    assert!(run_other_commands("Game", "a && b", "Game", "Window").is_none());
    assert!(run_other_commands("Game", "", "General", "Window").is_none());
    let plan = run_other_commands("Editor", "a && b && c", "General", "Window").unwrap();
    assert_eq!(plan.commands, vec!["a", "b", "c"]);
    assert_eq!(plan.focus_ticks, 300);
    assert!(plan.keep_focus);
    assert!(!plan.stop_when_active);
    assert_eq!(plan.header, "\n_____Running Editor Commands_____\n");
    assert_eq!(plan.writes.len(), 2);
    assert_eq!(plan.writes[0].section, Some("General".to_string()));
    assert_eq!(plan.writes[0].name, "running_pid");
    assert_eq!(plan.writes[1].section, None);
    assert_eq!(plan.writes[1].name, "last_other_commands");
    assert_eq!(plan.writes[1].value, "Editor");
    let idle = run_other_commands("Idle", "one", "General", "Game").unwrap();
    assert_eq!(idle.focus_ticks, 200);
    assert!(!idle.keep_focus);
    assert!(idle.stop_when_active);
    assert_eq!(idle.header, "\n_____Running Idle Commands_____\n");
    let game = run_other_commands("Shooter", "one", "Idle", "Game").unwrap();
    assert!(!game.keep_focus);
    let general = run_other_commands("General", "one", "Idle", "Window").unwrap();
    assert_eq!(general.header, "\n_____Running General Commands_____\n");
}

#[test]
fn command_list_editing() {
    assert!(command_list("").is_empty());
    assert_eq!(command_list("a && b"), vec!["a", "b"]);
    assert_eq!(add_command("", "a"), "a");
    assert_eq!(add_command("a", "b"), "a && b");
    assert_eq!(add_command("a && --EDITING-- && c", "b"), "a && b && c");
    assert_eq!(delete_command("a && b && c", "b"), "a && c");
    assert_eq!(delete_command("a && b", "b"), "a && ");
    assert_eq!(delete_command("a && b", "z"), "a && b");
    assert_eq!(begin_edit_command("a && b", "b"), Some("a && --EDITING--".to_string()));
    assert_eq!(begin_edit_command("a && b", "z"), None);
}

#[test]
fn command_list_reads_back_a_joined_list() {
    for items in [vec!["echo a"], vec!["a", "b", "c"], vec!["start x.exe", "taskkill /im y.exe"]] {
        assert_eq!(command_list(&items.join(" && ")), items);
    }
    assert!(command_list(&Vec::<String>::new().join(" && ")).is_empty());
}

#[test]
fn adding_a_command_lists_it_last() {
    assert_eq!(command_list(&add_command("a && b", "c")), vec!["a", "b", "c"]);
    assert_eq!(command_list(&add_command("", "c")), vec!["c"]);
    assert_eq!(command_list(&add_command("only", "next one")), vec!["only", "next one"]);
}

#[test]
fn editing_then_adding_back_restores_the_list() {
    for (list, cmd) in [("a && b && c", "b"), ("echo x", "echo x"), ("a && b && a", "a"), ("--x-- && y", "y")] {
        let edited = begin_edit_command(list, cmd).unwrap();
        assert!(edited.contains("--EDITING--"));
        assert_eq!(add_command(&edited, cmd), list);
    }
}
