use vstd::prelude::*;
use crate::profile::{is_fixed_section, sections_view, Instance, InstanceView};
use crate::registry::{root_write, write_view, RegWrite};
use crate::text::{concat, owned, same_text, str_contains, contains_seq};

verus! {

/// A request from the tray menu to the main loop.
#[derive(Debug)]
pub enum Message {
    Quit,
    Gui,
    Defaults,
    Logs,
}

/// The sections watched for running programs: all but `Idle`, `General` and `defaults`,
/// in order.
pub open spec fn watched(v: Seq<(Seq<char>, InstanceView)>) -> Seq<(Seq<char>, InstanceView)>
    decreases v.len(),
{
    if v.len() == 0 {
        seq![]
    } else if is_fixed_section(v.last().0) {
        watched(v.drop_last())
    } else {
        watched(v.drop_last()).push(v.last())
    }
}

/// The sections to watch among `sections` (all but `Idle`, `General` and `defaults`).
pub fn monitored_sections(sections: Vec<(String, Instance)>) -> (r: Vec<(String, Instance)>)
    ensures
        sections_view(r@) == watched(sections_view(sections@)),
{
    let ghost all = sections_view(sections@);
    let mut r: Vec<(String, Instance)> = Vec::new();
    let mut i: usize = 0;
    while i < sections.len()
        invariant
            i <= sections.len(),
            all == sections_view(sections@),
            sections_view(r@) == watched(all.take(i as int)),
        decreases sections.len() - i,
    {
        let name = &sections[i].0;
        assert(all.take(i + 1).drop_last() =~= all.take(i as int));
        assert(all.take(i + 1).last() == (sections@[i as int].0@, sections@[i as int].1@));
        if !(same_text(name.as_str(), "Idle") || same_text(name.as_str(), "General") || same_text(
            name.as_str(),
            "defaults",
        )) {
            r.push((name.clone(), sections[i].1.duplicate()));
            assert(sections_view(r@) =~= sections_view(r@.drop_last()).push(all[i as int]));
        }
        i = i + 1;
    }
    assert(all.take(sections.len() as int) =~= all);
    r
}

/// The programs that are games, with their sections, in order.
pub open spec fn game_list(v: Seq<(Seq<char>, InstanceView)>) -> Seq<(Seq<char>, Seq<char>)>
    decreases v.len(),
{
    if v.len() == 0 {
        seq![]
    } else if v.last().1.game_or_win == "Game"@ {
        game_list(v.drop_last()).push((v.last().1.exe_name, v.last().0))
    } else {
        game_list(v.drop_last())
    }
}

/// The executables of the watched sections whose kind is `Game`, each with its section,
/// in order: what the monitor checks for running games.
pub fn game_checks(sections: &Vec<(String, Instance)>) -> (r: Vec<(String, String)>)
    ensures
        r@.map_values(|p: (String, String)| (p.0@, p.1@)) == game_list(sections_view(sections@)),
{
    let ghost all = sections_view(sections@);
    let mut r: Vec<(String, String)> = Vec::new();
    let mut i: usize = 0;
    while i < sections.len()
        invariant
            i <= sections.len(),
            all == sections_view(sections@),
            r@.map_values(|p: (String, String)| (p.0@, p.1@)) == game_list(all.take(i as int)),
        decreases sections.len() - i,
    {
        let (name, inst) = (&sections[i].0, &sections[i].1);
        assert(all.take(i + 1).drop_last() =~= all.take(i as int));
        assert(all.take(i + 1).last() == (name@, inst@));
        if same_text(inst.game_or_win.as_str(), "Game") {
            r.push((inst.exe_name.clone(), name.clone()));
            assert(r@.map_values(|p: (String, String)| (p.0@, p.1@)) =~= r@.drop_last().map_values(
                |p: (String, String)| (p.0@, p.1@),
            ).push((inst.exe_name@, name@)));
        }
        i = i + 1;
    }
    assert(all.take(sections.len() as int) =~= all);
    r
}

/// Whether more than `limit_secs` seconds have passed, given the time elapsed in nanoseconds.
pub fn timer_due(elapsed_nanos: u128, limit_secs: u64) -> (r: bool)
    ensures
        r == (elapsed_nanos > limit_secs * 1_000_000_000),
{
    elapsed_nanos > (limit_secs as u128) * 1_000_000_000
}

/// While idle in the `Idle` profile: the monitors are switched off in dark hours and on
/// otherwise, once the monitor timer is due (`Some(on)`), and not at all before.
pub fn idle_power(dark: bool, monitors_due: bool) -> (r: Option<bool>)
    ensures
        r == if monitors_due { Some(!dark) } else { None::<bool> },
{
    if monitors_due {
        Some(!dark)
    } else {
        None
    }
}

/// While idle in the `Idle` profile: whether the profile is applied again, the monitors
/// being `display` (read after switching them): in dark hours when they are still on, by
/// day when they are still off.
pub fn idle_reapply(dark: bool, display: &str) -> (r: bool)
    ensures
        r == if dark { display@ == "on"@ } else { display@ == "off"@ },
{
    if dark {
        same_text(display, "on")
    } else {
        same_text(display, "off")
    }
}

/// While idle in another profile: whether to switch to `Idle`, the current profile being of
/// kind `current_kind` (a game keeps its profile).
pub fn leave_for_idle(current_kind: &str) -> (r: bool)
    ensures
        r == (current_kind@ != "Game"@),
{
    !same_text(current_kind, "Game")
}

/// What a pass of the monitor does first, from whether the user is idle.
pub enum PassPlan {
    /// The user is idle in the `Idle` profile: look after the monitors.
    ManageIdle,
    /// The user is idle in another profile: switch to `Idle` unless that profile is a game.
    CheckForIdle,
    /// The user is active: look for games and for a change of the active window.
    Busy,
}

/// The first decision of a pass, the user being idle or not (`user_idle`) and the current
/// profile being `current_profile`.
pub fn pass_plan(user_idle: bool, current_profile: &str) -> (r: PassPlan)
    ensures
        r is ManageIdle <==> user_idle && current_profile@ == "Idle"@,
        r is CheckForIdle <==> user_idle && current_profile@ != "Idle"@,
        r is Busy <==> !user_idle,
{
    if !user_idle {
        PassPlan::Busy
    } else if same_text(current_profile, "Idle") {
        PassPlan::ManageIdle
    } else {
        PassPlan::CheckForIdle
    }
}

/// What a pass does when the user is active.
pub enum BusyStep {
    /// A game runs whose section is not the current profile: pick the profile again and
    /// end the pass.
    GameChanged,
    /// A game runs whose section is the current profile: end the pass.
    GameKept,
    /// No game runs and the active window changed: pick the profile again.
    WindowChanged,
    /// No game runs and the active window is the same.
    Unchanged,
}

/// What a pass does when the user is active: with a game running (`running`), pick again
/// only when the game's section is not the current profile; without one, pick again when
/// the active window changed (`window_changed`).
pub fn busy_step(running: &(bool, String), current_profile: &str, window_changed: bool) -> (r: BusyStep)
    ensures
        r is GameChanged <==> running.0 && running.1@ != current_profile@,
        r is GameKept <==> running.0 && running.1@ == current_profile@,
        r is WindowChanged <==> !running.0 && window_changed,
        r is Unchanged <==> !running.0 && !window_changed,
{
    if running.0 {
        if !same_text(running.1.as_str(), current_profile) {
            BusyStep::GameChanged
        } else {
            BusyStep::GameKept
        }
    } else if window_changed {
        BusyStep::WindowChanged
    } else {
        BusyStep::Unchanged
    }
}

/// Which profile to switch to after picking the candidates.
pub enum ProfileChoice {
    /// The first candidate.
    First,
    /// The `General` profile.
    General,
    /// Keep the current profile.
    Stay,
}

/// The profile to switch to: the first candidate when there is one; otherwise `General`,
/// unless it is the current profile already.
pub fn choose_profile(current_profile: &str, candidates: &Vec<(String, Instance)>) -> (r: ProfileChoice)
    ensures
        r is First <==> candidates.len() > 0,
        r is General <==> (candidates.len() == 0 && current_profile@ != "General"@),
        r is Stay <==> (candidates.len() == 0 && current_profile@ == "General"@),
{
    if candidates.len() > 0 {
        ProfileChoice::First
    } else if !same_text(current_profile, "General") {
        ProfileChoice::General
    } else {
        ProfileChoice::Stay
    }
}

/// Whether activating the profile `sec` does anything: not for the empty name, which is
/// left before anything is read.
pub fn should_activate(sec: &str) -> (r: bool)
    ensures
        r == (sec@.len() > 0),
{
    sec.unicode_len() > 0
}

/// The first lines of the report on activating the profile `sec` (the program `exe_name`
/// detected), followed by the report on deactivating the previous profile.
pub open spec fn activation_text(sec: Seq<char>, exe_name: Seq<char>, deactivation: Seq<char>) -> Seq<char> {
    if sec == "General"@ {
        "Nothing detected! Changing profile to General...\n"@ + deactivation + "\n\n"@
    } else if sec == "Idle"@ {
        "Idle detected! Changing profile to Idle...\n"@ + deactivation + "\n\n"@
    } else {
        exe_name + " detected! Changing profile to "@ + sec + "...\n"@ + deactivation + "\n\n"@
    }
}

/// The first lines of the report on activating `sec`, its section naming the program
/// `exe_name`, after the previous profile was deactivated with the report `deactivation`.
pub fn activation_header(sec: &str, exe_name: &str, deactivation: &str) -> (r: String)
    ensures
        r@ == activation_text(sec@, exe_name@, deactivation@),
{
    let head = if same_text(sec, "General") {
        owned("Nothing detected! Changing profile to General...\n")
    } else if same_text(sec, "Idle") {
        owned("Idle detected! Changing profile to Idle...\n")
    } else {
        let a = concat(exe_name, " detected! Changing profile to ");
        let b = concat(a.as_str(), sec);
        concat(b.as_str(), "...\n")
    };
    let c = concat(head.as_str(), deactivation);
    concat(c.as_str(), "\n\n")
}

/// A part of the activation report: its title line, the report, and a blank line.
pub fn report_block(title: &str, body: &str) -> (r: String)
    ensures
        r@ == "\n_____ "@ + title@ + " _____\n"@ + body@ + "\n\n"@,
{
    let a = concat("\n_____ ", title);
    let b = concat(a.as_str(), " _____\n");
    let c = concat(b.as_str(), body);
    concat(c.as_str(), "\n\n")
}

/// What activating the `Idle` profile does besides the common steps.
pub struct IdleSpecial {
    /// It is night (the `Idle` profile is the night one).
    pub night: bool,
    /// The monitors are switched on or off (`Some(on)`), or left as they are.
    pub power: Option<bool>,
    /// The screensaver is started.
    pub screensaver: bool,
}

/// The special steps of activating `Idle` (its section `section`), the monitors being
/// `display` and the user being idle or not (`user_idle`): at night the monitors go off
/// when they are on; by day they go on when they are off, and the screensaver starts when
/// it is enabled (`game_or_win` is `Yes`); nothing while the user is active.
pub fn idle_special(section: &Instance, display: &str, user_idle: bool) -> (r: IdleSpecial)
    ensures
        r.night == (section.game_window_name@ == "Night"@),
        r.night ==> r.power == (if display@ == "on"@ && user_idle { Some(false) } else { None::<bool> }) && !r.screensaver,
        !r.night ==> r.power == (if display@ == "off"@ && user_idle { Some(true) } else { None::<bool> })
            && r.screensaver == (section.game_or_win@ == "Yes"@ && user_idle),
{
    let night = same_text(section.game_window_name.as_str(), "Night");
    if night {
        IdleSpecial {
            night,
            power: if same_text(display, "on") && user_idle { Some(false) } else { None },
            screensaver: false,
        }
    } else {
        IdleSpecial {
            night,
            power: if same_text(display, "off") && user_idle { Some(true) } else { None },
            screensaver: same_text(section.game_or_win.as_str(), "Yes") && user_idle,
        }
    }
}

/// The report on the special steps of activating `Idle`, given the report on switching
/// the monitors (when they were) and on starting the screensaver (when it was).
pub open spec fn idle_special_text(night: bool, power_report: Option<Seq<char>>, screensaver_report: Option<Seq<char>>) -> Seq<char> {
    "\n_____ Idle Special Settings _____\n"@ + (if night {
        "Idle detected during night hours.\n"@ + match power_report {
            Some(p) => "Turning monitors off."@ + p + "\n"@,
            None => seq![],
        }
    } else {
        "Idle detected during day hours.\n"@ + match power_report {
            Some(p) => "Turning monitors on."@ + p + "\n"@,
            None => seq![],
        } + match screensaver_report {
            Some(s) => "Activating Screensaver...\n"@ + s + "\n"@,
            None => seq![],
        }
    }) + "\n"@
}

/// An optional text, as characters.
pub open spec fn opt_view(o: Option<String>) -> Option<Seq<char>> {
    match o {
        Some(s) => Some(s@),
        None => None,
    }
}

/// The report on the special steps of activating `Idle`.
pub fn idle_special_report(night: bool, power_report: &Option<String>, screensaver_report: &Option<String>) -> (r: String)
    ensures
        r@ == idle_special_text(night, opt_view(*power_report), opt_view(*screensaver_report)),
{
    let mut out = owned("\n_____ Idle Special Settings _____\n");
    if night {
        out = concat(out.as_str(), "Idle detected during night hours.\n");
        match power_report {
            Some(p) => {
                out = concat(concat(concat(out.as_str(), "Turning monitors off.").as_str(), p.as_str()).as_str(), "\n");
            },
            None => {},
        }
    } else {
        out = concat(out.as_str(), "Idle detected during day hours.\n");
        match power_report {
            Some(p) => {
                out = concat(concat(concat(out.as_str(), "Turning monitors on.").as_str(), p.as_str()).as_str(), "\n");
            },
            None => {},
        }
        match screensaver_report {
            Some(s) => {
                out = concat(concat(concat(out.as_str(), "Activating Screensaver...\n").as_str(), s.as_str()).as_str(), "\n");
            },
            None => {},
        }
    }
    let r = concat(out.as_str(), "\n");
    assert(r@ =~= idle_special_text(night, opt_view(*power_report), opt_view(*screensaver_report)));
    r
}

/// What deactivating a profile does.
pub struct Deactivation {
    /// The first lines of the report (the report on closing its AutoHotkey script follows).
    pub head: String,
    /// The monitors are switched back on.
    pub power_on: bool,
    /// The screensaver is enabled again.
    pub screensaver_on: bool,
    /// The Lively screensaver is hidden.
    pub lively_hide: bool,
    /// The value written once the profile is left.
    pub record: RegWrite,
}

/// The first lines of the report on deactivating `sec`.
pub open spec fn deactivation_text(sec: Seq<char>, exe_name: Seq<char>, power_on: bool, lively: bool) -> Seq<char> {
    if sec == "General"@ {
        "\nDeactivating the General profile.\n"@
    } else if sec == "Idle"@ {
        "\nDeactivating the Idle profile.\n"@ + (if power_on {
            "\nTurning monitors on."@
        } else {
            seq![]
        }) + (if lively {
            "Lively.scr is designated as the screensaver.  Running \"Livelycu.exe screensaver --show false\"\n"@
        } else {
            seq![]
        })
    } else {
        "\nDeactivating "@ + sec + ". "@ + exe_name + " is no longer detected!\n"@
    }
}

/// Deactivating the profile `sec` (its section `section`): nothing for the empty name.
/// Leaving `Idle` with the user active switches the monitors back on when they are off
/// (`display`) and enables the screensaver again when it is used (`game_or_win` is
/// `Yes`); the Lively screensaver (`screensaver_exe` names `Lively.scr`) is hidden.
/// The profile is then recorded as the last one.
pub fn deactivate(sec: &str, section: &Instance, display: &str, user_idle: bool, screensaver_exe: &str) -> (r: Option<Deactivation>)
    ensures
        r is None <==> sec@.len() == 0,
        r matches Some(d) ==> {
            let idle = sec@ == "Idle"@;
            let lively = idle && contains_seq(screensaver_exe@, "Lively.scr"@);
            &&& d.power_on == (idle && display@ == "off"@ && !user_idle)
            &&& d.screensaver_on == (idle && section.game_or_win@ == "Yes"@ && !user_idle)
            &&& d.lively_hide == lively
            &&& d.head@ == deactivation_text(sec@, section.exe_name@, d.power_on, lively)
            &&& write_view(d.record) == (None::<Seq<char>>, "last_profile"@, sec@)
        },
{
    if sec.unicode_len() == 0 {
        return None;
    }
    let idle = same_text(sec, "Idle");
    let power_on = idle && same_text(display, "off") && !user_idle;
    let screensaver_on = idle && same_text(section.game_or_win.as_str(), "Yes") && !user_idle;
    let lively = idle && str_contains(screensaver_exe, "Lively.scr");
    let head = if same_text(sec, "General") {
        owned("\nDeactivating the General profile.\n")
    } else if idle {
        let mut h = owned("\nDeactivating the Idle profile.\n");
        if power_on {
            h = concat(h.as_str(), "\nTurning monitors on.");
        }
        if lively {
            h = concat(h.as_str(), "Lively.scr is designated as the screensaver.  Running \"Livelycu.exe screensaver --show false\"\n");
        }
        assert(h@ =~= deactivation_text(sec@, section.exe_name@, power_on, lively));
        h
    } else {
        let a = concat("\nDeactivating ", sec);
        let b = concat(a.as_str(), ". ");
        let c = concat(b.as_str(), section.exe_name.as_str());
        concat(c.as_str(), " is no longer detected!\n")
    };
    Some(Deactivation { head, power_on, screensaver_on, lively_hide: lively, record: root_write("last_profile", sec) })
}

} // verus!
