use vstd::prelude::*;
use crate::encode::{url_encode, url_encoded};
use crate::number::{decimal, format_u64};
use crate::process::{ahk_close_targets, ahk_targets_in, ProcessRecord};
use crate::text::{concat, contains_seq, has_char, join_with, lemma_join_with_push, owned, same_text, str_contains};

verus! {

/// The command that applies the SignalRGB effect `profile` (its name encoded, with the
/// silent-launch flag added as a further query parameter when the name already has one).
pub open spec fn signal_rgb_command_text(profile: Seq<char>) -> Seq<char> {
    let enc = url_encoded(profile);
    "start signalrgb://effect/apply/"@ + enc + (if enc.contains('?') {
        "^&-silentlaunch-"@
    } else {
        "?-silentlaunch-"@
    })
}

/// The report on switching SignalRGB to `profile` once its command succeeded.
pub open spec fn signal_rgb_report_text(profile: Seq<char>) -> Seq<char> {
    "Changed SignalRGB to "@ + profile
}

/// What switching SignalRGB does next.
pub enum SignalRgbStep {
    /// Run this shell command.
    Run(String),
    /// Report this, and stop.
    Done(String),
}

/// Switching SignalRGB to `profile`, `ran` telling whether its command already ran and
/// succeeded: for an empty profile, the notice that there is none (written with a literal
/// `{profile}`) and no command; otherwise first the command that applies the effect
/// (`signal_rgb_command_text`), then, once it succeeded, the report of the change.
pub fn change_signal_rgb(profile: &String, ran: bool) -> (r: SignalRgbStep)
    ensures
        profile@.len() == 0 ==> (r matches SignalRgbStep::Done(t) && t@ == "No SignalRGB Profile found for {profile}"@),
        profile@.len() > 0 && !ran ==> (r matches SignalRgbStep::Run(c) && c@ == signal_rgb_command_text(profile@)),
        profile@.len() > 0 && ran ==> (r matches SignalRgbStep::Done(t) && t@ == signal_rgb_report_text(profile@)),
{
    if profile.as_str().unicode_len() == 0 {
        return SignalRgbStep::Done(owned("No SignalRGB Profile found for {profile}"));
    }
    if ran {
        return SignalRgbStep::Done(concat("Changed SignalRGB to ", profile.as_str()));
    }
    let enc = url_encode(profile.clone());
    let suffix = if has_char(enc.as_str(), '?') {
        "^&-silentlaunch-"
    } else {
        "?-silentlaunch-"
    };
    let head = concat("start signalrgb://effect/apply/", enc.as_str());
    SignalRgbStep::Run(concat(head.as_str(), suffix))
}

/// The address that OpenRGB's webhook answers for `profile`, at `addr`:`port`.
pub open spec fn open_rgb_url_text(addr: Seq<char>, port: Seq<char>, profile: Seq<char>) -> Seq<char> {
    "http://"@ + addr + ":"@ + port + "/"@ + url_encoded(profile)
}

/// The body posted to OpenRGB's webhook for `profile`.
pub open spec fn open_rgb_body_text(profile: Seq<char>) -> Seq<char> {
    "Requesting Change OpenRGB profile to "@ + url_encoded(profile)
}

/// How an HTTP request was answered: with a success status (its code, its reason and
/// the address that answered), or with an error status (the error's message).
pub enum HttpOutcome {
    Answered { status: u16, status_text: String, url: String },
    ErrorStatus(String),
}

/// The report on switching OpenRGB to `profile`, given the webhook's answer.
pub open spec fn open_rgb_report_text(profile: Seq<char>, response: HttpOutcome) -> Seq<char> {
    match response {
        HttpOutcome::Answered { status, status_text, url } => "Changed OpenRGB to "@ + url_encoded(profile)
            + "\n\nResponse:\nCode: "@ + decimal(status as nat) + "\nContent: "@ + status_text@ + "\n Url: "@
            + url@,
        HttpOutcome::ErrorStatus(e) => "ERROR: "@ + e@,
    }
}

/// What switching OpenRGB does next.
pub enum OpenRgbStep {
    /// Read the webhook's address and port.
    NeedTarget,
    /// Post `body` to `url`.
    Post { url: String, body: String },
    /// Report this, and stop.
    Done(String),
}

/// Switching OpenRGB to `profile`, given the webhook's address and port once read
/// (`target`) and its answer once posted (`response`): for an empty profile, the notice
/// that there is none (written with a literal `{profile}`), nothing read and nothing
/// posted; otherwise first the address and port are read, then the encoded profile name
/// is posted to the webhook (`open_rgb_url_text`, `open_rgb_body_text`), and the answer is
/// reported (`open_rgb_report_text`).
pub fn change_open_rgb(profile: &String, target: &Option<(String, String)>, response: &Option<HttpOutcome>) -> (r: OpenRgbStep)
    ensures
        profile@.len() == 0 ==> (r matches OpenRgbStep::Done(t) && t@ == "No OpenRGB Profile found for {profile}"@),
        profile@.len() > 0 ==> match (response, target) {
            (Some(answer), _) => r matches OpenRgbStep::Done(t) && t@ == open_rgb_report_text(profile@, *answer),
            (None, Some((addr, port))) => r matches OpenRgbStep::Post { url, body } && url@ == open_rgb_url_text(
                addr@,
                port@,
                profile@,
            ) && body@ == open_rgb_body_text(profile@),
            (None, None) => r is NeedTarget,
        },
{
    if profile.as_str().unicode_len() == 0 {
        return OpenRgbStep::Done(owned("No OpenRGB Profile found for {profile}"));
    }
    match response {
        Some(answer) => OpenRgbStep::Done(open_rgb_report(profile, answer)),
        None => match target {
            None => OpenRgbStep::NeedTarget,
            Some((addr, port)) => {
                let enc = url_encode(profile.clone());
                let a = concat("http://", addr.as_str());
                let b = concat(a.as_str(), ":");
                let c = concat(b.as_str(), port.as_str());
                let d = concat(c.as_str(), "/");
                let url = concat(d.as_str(), enc.as_str());
                let body = concat("Requesting Change OpenRGB profile to ", enc.as_str());
                OpenRgbStep::Post { url, body }
            },
        },
    }
}

/// The report on the webhook's answer for `profile`.
fn open_rgb_report(profile: &String, response: &HttpOutcome) -> (r: String)
    ensures
        r@ == open_rgb_report_text(profile@, *response),
{
    match response {
        HttpOutcome::Answered { status, status_text, url } => {
            let enc = url_encode(profile.clone());
            let a = concat("Changed OpenRGB to ", enc.as_str());
            let b = concat(a.as_str(), "\n\nResponse:\nCode: ");
            let code = format_u64(*status as u64);
            let c = concat(b.as_str(), code.as_str());
            let d = concat(c.as_str(), "\nContent: ");
            let e = concat(d.as_str(), status_text.as_str());
            let f = concat(e.as_str(), "\n Url: ");
            concat(f.as_str(), url.as_str())
        },
        HttpOutcome::ErrorStatus(e) => concat("ERROR: ", e.as_str()),
    }
}

/// The command line that switches VoiceAttack (the executable `vac`) to `profile`.
pub fn voice_attack_command(vac: &str, profile: &str) -> (r: String)
    ensures
        r@ == vac@ + " -profile "@ + profile@,
{
    let a = concat(vac, " -profile ");
    concat(a.as_str(), profile)
}

/// The report on switching VoiceAttack (the executable `vac`) to `profile`: the notice that
/// there is none for an empty profile; otherwise the change, once VoiceAttack started.
pub fn change_voice_attack(profile: &String, vac: &str) -> (r: String)
    ensures
        r@ == if profile@.len() == 0 {
            "No VoiceAttack profile found."@
        } else {
            "Changed VoiceAttack profile to "@ + profile@ + "\n\n"@ + (vac@ + " -profile "@ + profile@)
        },
{
    if profile.as_str().unicode_len() == 0 {
        return owned("No VoiceAttack profile found.");
    }
    let cmd = voice_attack_command(vac, profile.as_str());
    let a = concat("Changed VoiceAttack profile to ", profile.as_str());
    let b = concat(a.as_str(), "\n\n");
    concat(b.as_str(), cmd.as_str())
}

/// The report on the AutoHotkey script `ahk`, once it started.
pub fn run_ahk(ahk: &String) -> (r: String)
    ensures
        r@ == ahk@ + " is now running!"@,
{
    concat(ahk.as_str(), " is now running!")
}

/// The shell command that ends the process `pid`.
pub fn close_pid(pid: u32) -> (r: String)
    ensures
        r@ == "TASKKILL /PID "@ + decimal(pid as nat),
{
    let n = format_u64(pid as u64);
    concat("TASKKILL /PID ", n.as_str())
}

/// What became of one AutoHotkey window to close: none was found for the process, it
/// was closed, or closing it failed.
pub enum WindowClose {
    NoWindow,
    Closed,
    Failed,
}

/// The line saying that no window runs the script `ahk`.
pub open spec fn no_window_text(ahk: Seq<char>) -> Seq<char> {
    "No window matching "@ + ahk + " found!\n"@
}

/// The report on the windows closed in turn; it ends at the first process without a window.
pub open spec fn close_steps_text(ahk: Seq<char>, outcomes: Seq<WindowClose>) -> Seq<char>
    decreases outcomes.len(),
{
    if outcomes.len() == 0 {
        seq![]
    } else {
        match outcomes[0] {
            WindowClose::NoWindow => no_window_text(ahk),
            WindowClose::Closed => "\nClosing "@ + ahk + "..."@ + "OK!"@ + close_steps_text(
                ahk,
                outcomes.drop_first(),
            ),
            WindowClose::Failed => "\nClosing "@ + ahk + "..."@ + ("ERROR!! Could not close "@ + ahk
                + "\n"@) + close_steps_text(ahk, outcomes.drop_first()),
        }
    }
}

/// The report on closing the script `ahk`: that no window matches when no AutoHotkey
/// process runs (`any_autohotkey`); otherwise what happened to each window closed in turn.
pub open spec fn close_ahk_text(ahk: Seq<char>, any_autohotkey: bool, outcomes: Seq<WindowClose>) -> Seq<char> {
    if !any_autohotkey {
        no_window_text(ahk)
    } else {
        close_steps_text(ahk, outcomes)
    }
}

/// The report on closing the AutoHotkey script `ahk`, given whether any AutoHotkey process
/// runs and what became of each window to close, in order.
fn close_report(ahk: &String, any_autohotkey: bool, outcomes: &Vec<WindowClose>) -> (r: String)
    ensures
        r@ == close_ahk_text(ahk@, any_autohotkey, outcomes@),
{
    let no_window = concat(concat("No window matching ", ahk.as_str()).as_str(), " found!\n");
    if !any_autohotkey {
        return no_window;
    }
    let closing = concat(concat("\nClosing ", ahk.as_str()).as_str(), "...");
    let failed = concat(concat("ERROR!! Could not close ", ahk.as_str()).as_str(), "\n");
    let mut out = String::new();
    let mut i: usize = 0;
    assert(outcomes@.skip(0) =~= outcomes@);
    assert(out@ + close_steps_text(ahk@, outcomes@) =~= close_steps_text(ahk@, outcomes@));
    while i < outcomes.len()
        invariant
            i <= outcomes.len(),
            any_autohotkey,
            no_window@ == no_window_text(ahk@),
            closing@ == "\nClosing "@ + ahk@ + "..."@,
            failed@ == "ERROR!! Could not close "@ + ahk@ + "\n"@,
            out@ + close_steps_text(ahk@, outcomes@.skip(i as int)) == close_steps_text(ahk@, outcomes@),
        decreases outcomes.len() - i,
    {
        let ghost rest = outcomes@.skip(i as int);
        assert(rest[0] == outcomes@[i as int]);
        assert(rest.drop_first() =~= outcomes@.skip(i + 1));
        let ghost before = out@;
        match &outcomes[i] {
            WindowClose::NoWindow => {
                out = concat(out.as_str(), no_window.as_str());
                return out;
            },
            WindowClose::Closed => {
                out = concat(concat(out.as_str(), closing.as_str()).as_str(), "OK!");
                assert(before + (closing@ + "OK!"@ + close_steps_text(ahk@, outcomes@.skip(i + 1)))
                    =~= before + closing@ + "OK!"@ + close_steps_text(ahk@, outcomes@.skip(i + 1)));
            },
            WindowClose::Failed => {
                out = concat(concat(out.as_str(), closing.as_str()).as_str(), failed.as_str());
                assert(before + (closing@ + failed@ + close_steps_text(ahk@, outcomes@.skip(i + 1)))
                    =~= before + closing@ + failed@ + close_steps_text(ahk@, outcomes@.skip(i + 1)));
            },
        }
        i = i + 1;
    }
    assert(outcomes@.skip(i as int) =~= Seq::<WindowClose>::empty());
    assert(out@ + Seq::<char>::empty() =~= out@);
    out
}

/// What closing an AutoHotkey script does next.
pub enum CloseStep {
    /// Close the window of the process with this pid, and tell what became of it.
    CloseWindow(u32),
    /// Report this, and stop.
    Done(String),
}

/// Whether one of the outcomes is a process without a window.
pub open spec fn has_no_window(outcomes: Seq<WindowClose>) -> bool {
    exists|i: int| 0 <= i < outcomes.len() && outcomes[i] is NoWindow
}

/// Closing the AutoHotkey script `ahk` among the processes `procs`, given what became of
/// the windows closed so far (`outcomes`, in order): the processes concerned are those of
/// `ahk_close_targets`, the AutoHotkey processes that have `ahk` as a whole argument.
/// Without an AutoHotkey process, the notice that no window matches. Otherwise the window
/// of the next such process is closed, in table order, until every one was closed or one
/// had no window; then the report on the windows closed (`close_ahk_text`).
pub fn close_ahk(ahk: &String, procs: &Vec<ProcessRecord>, outcomes: &Vec<WindowClose>) -> (r: CloseStep)
    ensures
        ({
            let (any, targets) = ahk_close_targets(procs@, ahk@);
            if any && !has_no_window(outcomes@) && outcomes@.len() < targets.len() {
                r == CloseStep::CloseWindow(targets[outcomes@.len() as int])
            } else {
                r matches CloseStep::Done(t) && t@ == close_ahk_text(ahk@, any, outcomes@)
            }
        }),
{
    let (any, targets) = ahk_targets_in(procs, ahk);
    let mut stopped = false;
    let mut i: usize = 0;
    while i < outcomes.len()
        invariant
            i <= outcomes.len(),
            stopped == exists|j: int| 0 <= j < i && outcomes@[j] is NoWindow,
        decreases outcomes.len() - i,
    {
        if let WindowClose::NoWindow = outcomes[i] {
            stopped = true;
        }
        i = i + 1;
    }
    if any && !stopped && outcomes.len() < targets.len() {
        CloseStep::CloseWindow(targets[outcomes.len()])
    } else {
        CloseStep::Done(close_report(ahk, any, outcomes))
    }
}

/// The `lParam` of the monitor power message: -1 turns the monitors on, 2 turns them off.
pub fn monitor_power_param(on: bool) -> (r: isize)
    ensures
        r == if on { -1isize } else { 2isize },
{
    if on {
        -1
    } else {
        2
    }
}

/// The report on turning the monitors on or off, given how sending the message went.
pub fn power_monitors(on: bool, sent: &Result<(), String>) -> (r: String)
    ensures
        r@ == match sent {
            Ok(()) => "..OK"@,
            Err(e) => (if on {
                "Failed to turn on monitor(s)!! || Error: "@
            } else {
                "Failed to turn off monitor(s)!! || Error: "@
            }) + e@,
        },
{
    match sent {
        Ok(()) => owned("..OK"),
        Err(e) => if on {
            concat("Failed to turn on monitor(s)!! || Error: ", e.as_str())
        } else {
            concat("Failed to turn off monitor(s)!! || Error: ", e.as_str())
        },
    }
}

} // verus!

verus! {

/// How `{:?}` writes a list of bytes: the numbers in decimal, separated by `, `, in brackets.
pub open spec fn bytes_debug_text(v: Seq<u8>) -> Seq<char> {
    "["@ + join_with(v.map_values(|b: u8| decimal(b as nat)), ", "@) + "]"@
}

/// Writes a list of bytes as `{:?}` does.
pub fn bytes_debug(v: &Vec<u8>) -> (r: String)
    ensures
        r@ == bytes_debug_text(v@),
{
    let mut body = String::new();
    let mut i: usize = 0;
    while i < v.len()
        invariant
            i <= v.len(),
            body@ == join_with(v@.take(i as int).map_values(|b: u8| decimal(b as nat)), ", "@),
        decreases v.len() - i,
    {
        let ghost parts = v@.take(i as int).map_values(|b: u8| decimal(b as nat));
        proof {
            lemma_join_with_push(parts, ", "@, decimal(v@[i as int] as nat));
            assert(v@.take(i + 1).map_values(|b: u8| decimal(b as nat)) =~= parts.push(decimal(v@[i as int] as nat)));
        }
        let n = format_u64(v[i] as u64);
        if i == 0 {
            body = n;
        } else {
            body = concat(concat(body.as_str(), ", ").as_str(), n.as_str());
        }
        i = i + 1;
    }
    assert(v@.take(v.len() as int) =~= v@);
    concat(concat("[", body.as_str()).as_str(), "]")
}

/// What starting the screensaver does.
pub enum ScreensaverStep {
    /// Show the Lively screensaver.
    Lively,
    /// End the running screensaver, then start it again.
    Restart,
    /// Start the screensaver.
    Start,
}

/// The screensaver step for the screensaver `ss_exe`, `running` telling whether it runs:
/// Lively when it names `Lively.scr`, otherwise a restart when it runs and a start when not.
pub fn screensaver_step(ss_exe: &str, running: bool) -> (r: ScreensaverStep)
    ensures
        r is Lively <==> contains_seq(ss_exe@, "Lively.scr"@),
        r is Restart <==> !contains_seq(ss_exe@, "Lively.scr"@) && running,
        r is Start <==> !contains_seq(ss_exe@, "Lively.scr"@) && !running,
{
    if str_contains(ss_exe, "Lively.scr") {
        ScreensaverStep::Lively
    } else if running {
        ScreensaverStep::Restart
    } else {
        ScreensaverStep::Start
    }
}

/// A command that ran to its end: its exit code and what it wrote.
pub struct Finished {
    pub code: i32,
    pub stdout: Vec<u8>,
    pub stderr: Vec<u8>,
}

/// The report on the screensaver step for `ss_exe`, given how the command of the step
/// went (ending the screensaver for a restart, starting it otherwise).
pub open spec fn screensaver_text(ss_exe: Seq<char>, step: ScreensaverStep, run: Result<Finished, String>) -> Seq<char> {
    match step {
        ScreensaverStep::Lively => "Lively.scr is designated as the screensaver.  Running \"Livelycu.exe screensaver --show true\""@,
        ScreensaverStep::Restart => match run {
            Ok(o) => (if o.code == 0 {
                "Screensaver detected...taking ownership of screensaver\nSUCCESS!\nstdin: TASKKILL /im /f "@
            } else {
                "___Running Command___\nERROR!\nstdin: TASKKILL /im /f "@
            }) + ss_exe + "\nstdout: "@ + bytes_debug_text(o.stdout@) + "\nstderr: "@ + bytes_debug_text(o.stderr@)
                + "\n"@,
            Err(e) => "Could not run TASKKILL /im /f "@ + ss_exe + ": "@ + e@ + "\n"@,
        },
        ScreensaverStep::Start => match run {
            Ok(o) => "Running Screensaver:\n\tstdin: "@ + ss_exe + "\n\tstdout: "@ + bytes_debug_text(o.stdout@)
                + "\n\tstderr: "@ + bytes_debug_text(o.stderr@) + "\n"@,
            Err(e) => "Could not run "@ + ss_exe + ": "@ + e@ + "\n"@,
        },
    }
}

/// The report on starting the screensaver `ss_exe` with the step `step`, given how its
/// command went.
pub fn run_screensaver(ss_exe: &str, step: &ScreensaverStep, run: &Result<Finished, String>) -> (r: String)
    ensures
        r@ == screensaver_text(ss_exe@, *step, *run),
{
    match step {
        ScreensaverStep::Lively => owned(
            "Lively.scr is designated as the screensaver.  Running \"Livelycu.exe screensaver --show true\"",
        ),
        ScreensaverStep::Restart => match run {
            Ok(o) => {
                let head = if o.code == 0 {
                    "Screensaver detected...taking ownership of screensaver\nSUCCESS!\nstdin: TASKKILL /im /f "
                } else {
                    "___Running Command___\nERROR!\nstdin: TASKKILL /im /f "
                };
                let a = concat(head, ss_exe);
                let b = concat(a.as_str(), "\nstdout: ");
                let c = concat(b.as_str(), bytes_debug(&o.stdout).as_str());
                let d = concat(c.as_str(), "\nstderr: ");
                let e = concat(d.as_str(), bytes_debug(&o.stderr).as_str());
                concat(e.as_str(), "\n")
            },
            Err(e) => {
                let a = concat("Could not run TASKKILL /im /f ", ss_exe);
                let b = concat(a.as_str(), ": ");
                let c = concat(b.as_str(), e.as_str());
                concat(c.as_str(), "\n")
            },
        },
        ScreensaverStep::Start => match run {
            Ok(o) => {
                let a = concat("Running Screensaver:\n\tstdin: ", ss_exe);
                let b = concat(a.as_str(), "\n\tstdout: ");
                let c = concat(b.as_str(), bytes_debug(&o.stdout).as_str());
                let d = concat(c.as_str(), "\n\tstderr: ");
                let e = concat(d.as_str(), bytes_debug(&o.stderr).as_str());
                concat(e.as_str(), "\n")
            },
            Err(e) => {
                let a = concat("Could not run ", ss_exe);
                let b = concat(a.as_str(), ": ");
                let c = concat(b.as_str(), e.as_str());
                concat(c.as_str(), "\n")
            },
        },
    }
}

/// The severity of a log entry.
pub enum LogLevel {
    Info,
    Warn,
    Error,
}

/// The entry logged at start-up: a crash is reported (as an error) when the last run did
/// not record why it ended (`last_error` is still `default`); otherwise the recorded reason
/// `exit_reason` (as a warning).
pub fn startup_message(last_error: &str, exit_reason: &str) -> (r: (LogLevel, String))
    ensures
        last_error@ == "default"@ ==> r.0 is Error && r.1@ == "GameMon Started...\nLast shutdown reason: CRASH"@,
        last_error@ != "default"@ ==> r.0 is Warn && r.1@ == "GameMon Started...\nLast shutdown reason: "@ + exit_reason@,
{
    if same_text(last_error, "default") {
        (LogLevel::Error, owned("GameMon Started...\nLast shutdown reason: CRASH"))
    } else {
        (LogLevel::Warn, concat("GameMon Started...\nLast shutdown reason: ", exit_reason))
    }
}

/// The title and text of a message box: `GAMEMON` for an empty title, `TEST` for an empty text.
pub fn dialog_texts(title: &str, message: &str) -> (r: (String, String))
    ensures
        r.0@ == if title@.len() == 0 { "GAMEMON"@ } else { title@ },
        r.1@ == if message@.len() == 0 { "TEST"@ } else { message@ },
{
    let t = if title.unicode_len() == 0 {
        owned("GAMEMON")
    } else {
        owned(title)
    };
    let m = if message.unicode_len() == 0 {
        owned("TEST")
    } else {
        owned(message)
    };
    (t, m)
}

} // verus!
