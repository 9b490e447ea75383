use vstd::prelude::*;
use crate::text::owned;

verus! {

/// One value to write under the monitor's registry key: in the named section, or in the
/// key itself when `section` is `None`.
pub struct RegWrite {
    pub section: Option<String>,
    pub name: String,
    pub value: String,
}

/// A value to write, as texts.
pub open spec fn write_view(w: RegWrite) -> (Option<Seq<char>>, Seq<char>, Seq<char>) {
    (
        match w.section {
            Some(s) => Some(s@),
            None => None,
        },
        w.name@,
        w.value@,
    )
}

/// Values to write, as texts.
pub open spec fn writes_view(v: Seq<RegWrite>) -> Seq<(Option<Seq<char>>, Seq<char>, Seq<char>)> {
    v.map_values(|w: RegWrite| write_view(w))
}

/// A value to write in the key itself.
pub fn root_write(name: &str, value: &str) -> (w: RegWrite)
    ensures
        write_view(w) == (None::<Seq<char>>, name@, value@),
{
    RegWrite { section: None, name: owned(name), value: owned(value) }
}

/// A value to write in the section `section`.
pub fn section_write(section: &str, name: &str, value: &str) -> (w: RegWrite)
    ensures
        write_view(w) == (Some(section@), name@, value@),
{
    RegWrite { section: Some(owned(section)), name: owned(name), value: owned(value) }
}

/// Appends a value to write.
pub(crate) fn add_write(v: &mut Vec<RegWrite>, w: RegWrite)
    ensures
        writes_view(final(v)@) == writes_view(old(v)@).push(write_view(w)),
{
    v.push(w);
    assert(writes_view(v@) =~= writes_view(old(v)@).push(write_view(w)));
}

/// Appends values to write.
pub(crate) fn add_writes(v: &mut Vec<RegWrite>, ws: Vec<RegWrite>)
    ensures
        writes_view(final(v)@) == writes_view(old(v)@) + writes_view(ws@),
{
    let mut ws = ws;
    let ghost wsv = writes_view(ws@);
    v.append(&mut ws);
    assert(writes_view(v@) =~= writes_view(old(v)@) + wsv);
}
/// The empty values that a new section `sec` gets.
pub open spec fn section_template_spec(sec: Seq<char>) -> Seq<(Option<Seq<char>>, Seq<char>, Seq<char>)> {
    seq![
        (Some(sec), "exe_name"@, ""@),
        (Some(sec), "game_window_name"@, ""@),
        (Some(sec), "name_ofahk"@, ""@),
        (Some(sec), "path_toahk"@, ""@),
        (Some(sec), "open_rgbprofile"@, ""@),
        (Some(sec), "signal_rgbprofile"@, ""@),
        (Some(sec), "voice_attack_profile"@, ""@),
        (Some(sec), "game_or_win"@, ""@),
        (Some(sec), "running"@, ""@),
        (Some(sec), "running_pid"@, ""@),
        (Some(sec), "other_commands"@, ""@),
    ]
}

/// The empty values that a new section gets (every setting but the priority).
pub fn section_template(sec: &str) -> (v: Vec<RegWrite>)
    ensures
        writes_view(v@) == section_template_spec(sec@),
{
    let mut v: Vec<RegWrite> = Vec::new();
    add_write(&mut v, section_write(sec, "exe_name", ""));
    add_write(&mut v, section_write(sec, "game_window_name", ""));
    add_write(&mut v, section_write(sec, "name_ofahk", ""));
    add_write(&mut v, section_write(sec, "path_toahk", ""));
    add_write(&mut v, section_write(sec, "open_rgbprofile", ""));
    add_write(&mut v, section_write(sec, "signal_rgbprofile", ""));
    add_write(&mut v, section_write(sec, "voice_attack_profile", ""));
    add_write(&mut v, section_write(sec, "game_or_win", ""));
    add_write(&mut v, section_write(sec, "running", ""));
    add_write(&mut v, section_write(sec, "running_pid", ""));
    add_write(&mut v, section_write(sec, "other_commands", ""));
    assert(writes_view(v@) =~= section_template_spec(sec@));
    v
}

/// The values written when the monitor `sec_name` is added.
pub open spec fn write_section_spec(sec_name: Seq<char>) -> Seq<(Option<Seq<char>>, Seq<char>, Seq<char>)> {
    seq![
        (Some(sec_name), "exe_name"@, ""@),
        (Some(sec_name), "game_window_name"@, ""@),
        (Some(sec_name), "name_ofahk"@, ""@),
        (Some(sec_name), "path_toahk"@, ""@),
        (Some(sec_name), "open_rgbprofile"@, ""@),
        (Some(sec_name), "voice_attack_profile"@, ""@),
        (Some(sec_name), "signal_rgbprofile"@, ""@),
        (Some(sec_name), "game_or_win"@, ""@),
        (Some(sec_name), "priority"@, ""@),
        (Some(sec_name), "running"@, ""@),
        (Some(sec_name), "running_pid"@, ""@),
        (Some(sec_name), "other_commands"@, ""@),
    ]
}

/// The values written when a monitor is added: every setting of the section, empty.
pub fn write_section(sec_name: &str) -> (v: Vec<RegWrite>)
    ensures
        writes_view(v@) == write_section_spec(sec_name@),
{
    let mut v: Vec<RegWrite> = Vec::new();
    add_write(&mut v, section_write(sec_name, "exe_name", ""));
    add_write(&mut v, section_write(sec_name, "game_window_name", ""));
    add_write(&mut v, section_write(sec_name, "name_ofahk", ""));
    add_write(&mut v, section_write(sec_name, "path_toahk", ""));
    add_write(&mut v, section_write(sec_name, "open_rgbprofile", ""));
    add_write(&mut v, section_write(sec_name, "voice_attack_profile", ""));
    add_write(&mut v, section_write(sec_name, "signal_rgbprofile", ""));
    add_write(&mut v, section_write(sec_name, "game_or_win", ""));
    add_write(&mut v, section_write(sec_name, "priority", ""));
    add_write(&mut v, section_write(sec_name, "running", ""));
    add_write(&mut v, section_write(sec_name, "running_pid", ""));
    add_write(&mut v, section_write(sec_name, "other_commands", ""));
    assert(writes_view(v@) =~= write_section_spec(sec_name@));
    v
}

/// The values written in the key itself when it is created, `install_dir` being the working directory.
pub open spec fn first_run_root_spec(install_dir: Seq<char>) -> Seq<(Option<Seq<char>>, Seq<char>, Seq<char>)> {
    seq![
        (None::<Seq<char>>, "InstallDir"@, install_dir),
        (None::<Seq<char>>, "display"@, "on"@),
        (None::<Seq<char>>, "exit_reason"@, "default"@),
        (None::<Seq<char>>, "current_profile"@, "General"@),
        (None::<Seq<char>>, "current_priority"@, "0"@),
        (None::<Seq<char>>, "last_profile"@, "General"@),
        (None::<Seq<char>>, "current_profile_activated"@, "true"@),
        (None::<Seq<char>>, "night"@, "false"@),
        (None::<Seq<char>>, "idle"@, "false"@),
        (None::<Seq<char>>, "last_other_commands"@, "General"@),
    ]
}

/// The values written in the key itself when it is created.
pub fn first_run_root(install_dir: &str) -> (v: Vec<RegWrite>)
    ensures
        writes_view(v@) == first_run_root_spec(install_dir@),
{
    let mut v: Vec<RegWrite> = Vec::new();
    add_write(&mut v, root_write("InstallDir", install_dir));
    add_write(&mut v, root_write("display", "on"));
    add_write(&mut v, root_write("exit_reason", "default"));
    add_write(&mut v, root_write("current_profile", "General"));
    add_write(&mut v, root_write("current_priority", "0"));
    add_write(&mut v, root_write("last_profile", "General"));
    add_write(&mut v, root_write("current_profile_activated", "true"));
    add_write(&mut v, root_write("night", "false"));
    add_write(&mut v, root_write("idle", "false"));
    add_write(&mut v, root_write("last_other_commands", "General"));
    assert(writes_view(v@) =~= first_run_root_spec(install_dir@));
    v
}

/// The values that a new `defaults` section gets.
pub open spec fn defaults_template_spec() -> Seq<(Option<Seq<char>>, Seq<char>, Seq<char>)> {
    seq![
        (Some("defaults"@), "openrgb_path"@, ""@),
        (Some("defaults"@), "exit_reason"@, ""@),
        (Some("defaults"@), "voice_attack_path"@, ""@),
        (Some("defaults"@), "default_orgb_profile"@, ""@),
        (Some("defaults"@), "default_srgb_profile"@, ""@),
        (Some("defaults"@), "screensaver_orgb_profile"@, ""@),
        (Some("defaults"@), "screensaver_srgb_profile"@, ""@),
        (Some("defaults"@), "night_hour_orgb_profile"@, ""@),
        (Some("defaults"@), "night_hour_srgb_profile"@, ""@),
        (Some("defaults"@), "orgb_port"@, ""@),
        (Some("defaults"@), "orgb_address"@, ""@),
        (Some("defaults"@), "gameon"@, ""@),
        (Some("defaults"@), "window_flag"@, ""@),
        (Some("defaults"@), "exit_reason"@, ""@),
        (Some("defaults"@), "pathToSchemas"@, ""@),
        (Some("defaults"@), "orgb_port"@, "6742"@),
        (Some("defaults"@), "orgb_address"@, "127.0.0.1"@),
        (Some("defaults"@), "gameon"@, "False"@),
        (Some("defaults"@), "current_priority"@, "0"@),
        (Some("defaults"@), "running"@, ""@),
        (Some("defaults"@), "window_flag"@, "General"@),
        (Some("defaults"@), "screensaver_orgb_profile"@, "General"@),
        (Some("defaults"@), "screensaver_srgb_profile"@, "Screen Ambience"@),
    ]
}

/// The values that a new `defaults` section gets: its settings emptied, then the initial ones.
pub fn defaults_template() -> (v: Vec<RegWrite>)
    ensures
        writes_view(v@) == defaults_template_spec(),
{
    let mut v: Vec<RegWrite> = Vec::new();
    add_write(&mut v, section_write("defaults", "openrgb_path", ""));
    add_write(&mut v, section_write("defaults", "exit_reason", ""));
    add_write(&mut v, section_write("defaults", "voice_attack_path", ""));
    add_write(&mut v, section_write("defaults", "default_orgb_profile", ""));
    add_write(&mut v, section_write("defaults", "default_srgb_profile", ""));
    add_write(&mut v, section_write("defaults", "screensaver_orgb_profile", ""));
    add_write(&mut v, section_write("defaults", "screensaver_srgb_profile", ""));
    add_write(&mut v, section_write("defaults", "night_hour_orgb_profile", ""));
    add_write(&mut v, section_write("defaults", "night_hour_srgb_profile", ""));
    add_write(&mut v, section_write("defaults", "orgb_port", ""));
    add_write(&mut v, section_write("defaults", "orgb_address", ""));
    add_write(&mut v, section_write("defaults", "gameon", ""));
    add_write(&mut v, section_write("defaults", "window_flag", ""));
    add_write(&mut v, section_write("defaults", "exit_reason", ""));
    add_write(&mut v, section_write("defaults", "pathToSchemas", ""));
    add_write(&mut v, section_write("defaults", "orgb_port", "6742"));
    add_write(&mut v, section_write("defaults", "orgb_address", "127.0.0.1"));
    add_write(&mut v, section_write("defaults", "gameon", "False"));
    add_write(&mut v, section_write("defaults", "current_priority", "0"));
    add_write(&mut v, section_write("defaults", "running", ""));
    add_write(&mut v, section_write("defaults", "window_flag", "General"));
    add_write(&mut v, section_write("defaults", "screensaver_orgb_profile", "General"));
    add_write(&mut v, section_write("defaults", "screensaver_srgb_profile", "Screen Ambience"));
    assert(writes_view(v@) =~= defaults_template_spec());
    v
}

/// The initial settings of the `General` section.
pub open spec fn general_initial_spec() -> Seq<(Option<Seq<char>>, Seq<char>, Seq<char>)> {
    seq![
        (Some("General"@), "OpenRGBprofile"@, "General"@),
        (Some("General"@), "SignalRGBprofile"@, "General"@),
        (Some("General"@), "game_or_win"@, "Game"@),
        (Some("General"@), "priority"@, "0"@),
    ]
}

/// The initial settings written in the `General` section.
pub fn general_initial() -> (v: Vec<RegWrite>)
    ensures
        writes_view(v@) == general_initial_spec(),
{
    let mut v: Vec<RegWrite> = Vec::new();
    add_write(&mut v, section_write("General", "OpenRGBprofile", "General"));
    add_write(&mut v, section_write("General", "SignalRGBprofile", "General"));
    add_write(&mut v, section_write("General", "game_or_win", "Game"));
    add_write(&mut v, section_write("General", "priority", "0"));
    assert(writes_view(v@) =~= general_initial_spec());
    v
}

/// The initial settings of the `Idle` section.
pub open spec fn idle_initial_spec() -> Seq<(Option<Seq<char>>, Seq<char>, Seq<char>)> {
    seq![
        (Some("Idle"@), "exeName"@, "300"@),
        (Some("Idle"@), "gameWindowName"@, "2100-0600"@),
        (Some("Idle"@), "game_or_win"@, "Game"@),
        (Some("Idle"@), "priority"@, "4"@),
    ]
}

/// The initial settings written in the `Idle` section.
pub fn idle_initial() -> (v: Vec<RegWrite>)
    ensures
        writes_view(v@) == idle_initial_spec(),
{
    let mut v: Vec<RegWrite> = Vec::new();
    add_write(&mut v, section_write("Idle", "exeName", "300"));
    add_write(&mut v, section_write("Idle", "gameWindowName", "2100-0600"));
    add_write(&mut v, section_write("Idle", "game_or_win", "Game"));
    add_write(&mut v, section_write("Idle", "priority", "4"));
    assert(writes_view(v@) =~= idle_initial_spec());
    v
}

} // verus!
