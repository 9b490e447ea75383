use vstd::prelude::*;
use crate::number::{parse_decimal, parse_u32};
use crate::registry::write_section_spec;
use crate::text::{owned, same_text};

verus! {

/// The settings of one monitored program (one registry section).
#[derive(Clone)]
pub struct Instance {
    pub exe_name: String,
    pub game_window_name: String,
    pub name_ofahk: String,
    pub path_toahk: String,
    pub open_rgbprofile: String,
    pub signal_rgbprofile: String,
    pub voice_attack_profile: String,
    pub game_or_win: String,
    pub running: String,
    pub running_pid: String,
    pub other_commands: String,
    pub priority: String,
}

/// The settings of a section, as texts.
pub struct InstanceView {
    pub exe_name: Seq<char>,
    pub game_window_name: Seq<char>,
    pub name_ofahk: Seq<char>,
    pub path_toahk: Seq<char>,
    pub open_rgbprofile: Seq<char>,
    pub signal_rgbprofile: Seq<char>,
    pub voice_attack_profile: Seq<char>,
    pub game_or_win: Seq<char>,
    pub running: Seq<char>,
    pub running_pid: Seq<char>,
    pub other_commands: Seq<char>,
    pub priority: Seq<char>,
}

impl View for Instance {
    type V = InstanceView;

    open spec fn view(&self) -> InstanceView {
        InstanceView {
            exe_name: self.exe_name@,
            game_window_name: self.game_window_name@,
            name_ofahk: self.name_ofahk@,
            path_toahk: self.path_toahk@,
            open_rgbprofile: self.open_rgbprofile@,
            signal_rgbprofile: self.signal_rgbprofile@,
            voice_attack_profile: self.voice_attack_profile@,
            game_or_win: self.game_or_win@,
            running: self.running@,
            running_pid: self.running_pid@,
            other_commands: self.other_commands@,
            priority: self.priority@,
        }
    }
}

/// A section with every setting empty.
pub open spec fn empty_instance() -> InstanceView {
    InstanceView {
        exe_name: seq![],
        game_window_name: seq![],
        name_ofahk: seq![],
        path_toahk: seq![],
        open_rgbprofile: seq![],
        signal_rgbprofile: seq![],
        voice_attack_profile: seq![],
        game_or_win: seq![],
        running: seq![],
        running_pid: seq![],
        other_commands: seq![],
        priority: seq![],
    }
}

impl Instance {
    /// A section with every setting empty.
    pub fn new() -> (r: Instance)
        ensures
            r@ == empty_instance(),
    {
        Instance {
            exe_name: String::new(),
            game_window_name: String::new(),
            name_ofahk: String::new(),
            path_toahk: String::new(),
            open_rgbprofile: String::new(),
            signal_rgbprofile: String::new(),
            voice_attack_profile: String::new(),
            game_or_win: String::new(),
            running: String::new(),
            running_pid: String::new(),
            other_commands: String::new(),
            priority: String::new(),
        }
    }

    /// A copy of the section, setting for setting.
    pub fn duplicate(&self) -> (r: Instance)
        ensures
            r@ == self@,
    {
        Instance {
            exe_name: self.exe_name.clone(),
            game_window_name: self.game_window_name.clone(),
            name_ofahk: self.name_ofahk.clone(),
            path_toahk: self.path_toahk.clone(),
            open_rgbprofile: self.open_rgbprofile.clone(),
            signal_rgbprofile: self.signal_rgbprofile.clone(),
            voice_attack_profile: self.voice_attack_profile.clone(),
            game_or_win: self.game_or_win.clone(),
            running: self.running.clone(),
            running_pid: self.running_pid.clone(),
            other_commands: self.other_commands.clone(),
            priority: self.priority.clone(),
        }
    }
}

/// The global settings (the `defaults` section).
#[derive(Clone)]
pub struct Defaults {
    pub openrgb_path: String,
    pub exit_reason: String,
    pub voice_attack_path: String,
    pub default_orgb_profile: String,
    pub default_srgb_profile: String,
    pub screensaver_orgb_profile: String,
    pub screensaver_srgb_profile: String,
    pub night_hour_orgb_profile: String,
    pub night_hour_srgb_profile: String,
    pub orgb_port: String,
    pub orgb_address: String,
    pub gameon: String,
    pub window_flag: String,
    pub current_priority: String,
}

/// The global settings, as texts.
pub struct DefaultsView {
    pub openrgb_path: Seq<char>,
    pub exit_reason: Seq<char>,
    pub voice_attack_path: Seq<char>,
    pub default_orgb_profile: Seq<char>,
    pub default_srgb_profile: Seq<char>,
    pub screensaver_orgb_profile: Seq<char>,
    pub screensaver_srgb_profile: Seq<char>,
    pub night_hour_orgb_profile: Seq<char>,
    pub night_hour_srgb_profile: Seq<char>,
    pub orgb_port: Seq<char>,
    pub orgb_address: Seq<char>,
    pub gameon: Seq<char>,
    pub window_flag: Seq<char>,
    pub current_priority: Seq<char>,
}

impl View for Defaults {
    type V = DefaultsView;

    open spec fn view(&self) -> DefaultsView {
        DefaultsView {
            openrgb_path: self.openrgb_path@,
            exit_reason: self.exit_reason@,
            voice_attack_path: self.voice_attack_path@,
            default_orgb_profile: self.default_orgb_profile@,
            default_srgb_profile: self.default_srgb_profile@,
            screensaver_orgb_profile: self.screensaver_orgb_profile@,
            screensaver_srgb_profile: self.screensaver_srgb_profile@,
            night_hour_orgb_profile: self.night_hour_orgb_profile@,
            night_hour_srgb_profile: self.night_hour_srgb_profile@,
            orgb_port: self.orgb_port@,
            orgb_address: self.orgb_address@,
            gameon: self.gameon@,
            window_flag: self.window_flag@,
            current_priority: self.current_priority@,
        }
    }
}

/// Global settings that are all empty.
pub open spec fn empty_defaults() -> DefaultsView {
    DefaultsView {
        openrgb_path: seq![],
        exit_reason: seq![],
        voice_attack_path: seq![],
        default_orgb_profile: seq![],
        default_srgb_profile: seq![],
        screensaver_orgb_profile: seq![],
        screensaver_srgb_profile: seq![],
        night_hour_orgb_profile: seq![],
        night_hour_srgb_profile: seq![],
        orgb_port: seq![],
        orgb_address: seq![],
        gameon: seq![],
        window_flag: seq![],
        current_priority: seq![],
    }
}

impl Defaults {
    /// Global settings that are all empty.
    pub fn new() -> (r: Defaults)
        ensures
            r@ == empty_defaults(),
    {
        Defaults {
            openrgb_path: String::new(),
            exit_reason: String::new(),
            voice_attack_path: String::new(),
            default_orgb_profile: String::new(),
            default_srgb_profile: String::new(),
            screensaver_orgb_profile: String::new(),
            screensaver_srgb_profile: String::new(),
            night_hour_orgb_profile: String::new(),
            night_hour_srgb_profile: String::new(),
            orgb_port: String::new(),
            orgb_address: String::new(),
            gameon: String::new(),
            window_flag: String::new(),
            current_priority: String::new(),
        }
    }
}

} // verus!

verus! {

/// One value of a registry section as it was read: its name, the text that its display
/// form shows (a string value shows quoted, with escapes), and its content when it
/// holds a string.
pub struct RegEntry {
    pub name: String,
    pub shown: String,
    pub text: Option<String>,
}

/// A registry value read, as texts.
pub open spec fn entry_view(e: RegEntry) -> (Seq<char>, Seq<char>, Option<Seq<char>>) {
    (
        e.name@,
        e.shown@,
        match e.text {
            Some(t) => Some(t@),
            None => None,
        },
    )
}

/// The registry values read, as texts.
pub open spec fn entries_view(v: Seq<RegEntry>) -> Seq<(Seq<char>, Seq<char>, Option<Seq<char>>)> {
    v.map_values(|e: RegEntry| entry_view(e))
}

/// The text between the double quotes that enclose `s`; none when `s` is not enclosed so.
pub open spec fn unquoted(s: Seq<char>) -> Option<Seq<char>> {
    if s.len() >= 2 && s[0] == '"' && s.last() == '"' {
        Some(s.subrange(1, s.len() - 1))
    } else {
        None
    }
}

/// `quoted_string::strip_dquotes`: the text inside the enclosing double quotes of `s`,
/// or none when `s` does not both start and end with one. (It panics on a lone `"`,
/// which `requires` leaves out.)
#[verifier::external_body]
fn strip_dquotes(s: &str) -> (r: Option<String>)
    requires
        s@ != seq!['"'],
    ensures
        match r {
            Some(t) => unquoted(s@) == Some(t@),
            None => unquoted(s@) is None,
        },
{
    quoted_string::strip_dquotes(s).map(|t| t.to_string())
}

/// The content of a quoted display text; none where the text is not quoted (there the
/// settings cannot be read).
pub fn d_quote(shown: &str) -> (r: Option<String>)
    ensures
        match r {
            Some(t) => unquoted(shown@) == Some(t@),
            None => unquoted(shown@) is None,
        },
{
    proof {
        reveal_strlit("\"");
        assert("\""@ =~= seq!['"']);
    }
    if same_text(shown, "\"") {
        return None;
    }
    strip_dquotes(shown)
}

/// A section's settings after reading one more value: the named setting takes the
/// unquoted display text of the value (the AutoHotkey path and the other commands take
/// its string content instead); a value of another name changes nothing. None where
/// the value cannot be read so.
pub open spec fn section_step(v: InstanceView, e: (Seq<char>, Seq<char>, Option<Seq<char>>)) -> Option<InstanceView> {
    let name = e.0;
    let q = unquoted(e.1);
    let t = e.2;
    if name == "exe_name"@ {
        match q { Some(x) => Some(InstanceView { exe_name: x, ..v }), None => None }
    } else if name == "game_window_name"@ {
        match q { Some(x) => Some(InstanceView { game_window_name: x, ..v }), None => None }
    } else if name == "name_ofahk"@ {
        match q { Some(x) => Some(InstanceView { name_ofahk: x, ..v }), None => None }
    } else if name == "path_toahk"@ {
        match t { Some(x) => Some(InstanceView { path_toahk: x, ..v }), None => None }
    } else if name == "open_rgbprofile"@ {
        match q { Some(x) => Some(InstanceView { open_rgbprofile: x, ..v }), None => None }
    } else if name == "signal_rgbprofile"@ {
        match q { Some(x) => Some(InstanceView { signal_rgbprofile: x, ..v }), None => None }
    } else if name == "voice_attack_profile"@ {
        match q { Some(x) => Some(InstanceView { voice_attack_profile: x, ..v }), None => None }
    } else if name == "game_or_win"@ {
        match q { Some(x) => Some(InstanceView { game_or_win: x, ..v }), None => None }
    } else if name == "running"@ {
        match q { Some(x) => Some(InstanceView { running: x, ..v }), None => None }
    } else if name == "running_pid"@ {
        match q { Some(x) => Some(InstanceView { running_pid: x, ..v }), None => None }
    } else if name == "other_commands"@ {
        match t { Some(x) => Some(InstanceView { other_commands: x, ..v }), None => None }
    } else if name == "priority"@ {
        match q { Some(x) => Some(InstanceView { priority: x, ..v }), None => None }
    } else {
        Some(v)
    }
}

/// The settings of a section read from its values in order, starting from empty settings.
pub open spec fn section_values(entries: Seq<(Seq<char>, Seq<char>, Option<Seq<char>>)>) -> Option<InstanceView>
    decreases entries.len(),
{
    if entries.len() == 0 {
        Some(empty_instance())
    } else {
        match section_values(entries.drop_last()) {
            Some(v) => section_step(v, entries.last()),
            None => None,
        }
    }
}

/// The text content of a value, when it has one.
fn text_of(t: &Option<String>) -> (r: Option<String>)
    ensures
        match (r, t) {
            (Some(a), Some(b)) => a@ == b@,
            (None, None) => true,
            _ => false,
        },
{
    match t {
        Some(s) => Some(s.clone()),
        None => None,
    }
}

/// Reads one more value into the settings of a section.
fn apply_section_entry(inst: &mut Instance, e: &RegEntry) -> (ok: bool)
    ensures
        ok ==> section_step(old(inst)@, entry_view(*e)) == Some(final(inst)@),
        !ok ==> section_step(old(inst)@, entry_view(*e)) is None,
{
    let name = e.name.as_str();
    if same_text(name, "exe_name") {
        match d_quote(e.shown.as_str()) {
            Some(x) => {
                inst.exe_name = x;
                true
            },
            None => false,
        }
    } else if same_text(name, "game_window_name") {
        match d_quote(e.shown.as_str()) {
            Some(x) => {
                inst.game_window_name = x;
                true
            },
            None => false,
        }
    } else if same_text(name, "name_ofahk") {
        match d_quote(e.shown.as_str()) {
            Some(x) => {
                inst.name_ofahk = x;
                true
            },
            None => false,
        }
    } else if same_text(name, "path_toahk") {
        match text_of(&e.text) {
            Some(x) => {
                inst.path_toahk = x;
                true
            },
            None => false,
        }
    } else if same_text(name, "open_rgbprofile") {
        match d_quote(e.shown.as_str()) {
            Some(x) => {
                inst.open_rgbprofile = x;
                true
            },
            None => false,
        }
    } else if same_text(name, "signal_rgbprofile") {
        match d_quote(e.shown.as_str()) {
            Some(x) => {
                inst.signal_rgbprofile = x;
                true
            },
            None => false,
        }
    } else if same_text(name, "voice_attack_profile") {
        match d_quote(e.shown.as_str()) {
            Some(x) => {
                inst.voice_attack_profile = x;
                true
            },
            None => false,
        }
    } else if same_text(name, "game_or_win") {
        match d_quote(e.shown.as_str()) {
            Some(x) => {
                inst.game_or_win = x;
                true
            },
            None => false,
        }
    } else if same_text(name, "running") {
        match d_quote(e.shown.as_str()) {
            Some(x) => {
                inst.running = x;
                true
            },
            None => false,
        }
    } else if same_text(name, "running_pid") {
        match d_quote(e.shown.as_str()) {
            Some(x) => {
                inst.running_pid = x;
                true
            },
            None => false,
        }
    } else if same_text(name, "other_commands") {
        match text_of(&e.text) {
            Some(x) => {
                inst.other_commands = x;
                true
            },
            None => false,
        }
    } else if same_text(name, "priority") {
        match d_quote(e.shown.as_str()) {
            Some(x) => {
                inst.priority = x;
                true
            },
            None => false,
        }
    } else {
        true
    }
}

/// The settings of a section from its registry values, in the order in which they were
/// enumerated; none where a setting cannot be read (a value that is not a quoted text, or
/// an AutoHotkey path or command list that is not a string).
pub fn section_from_values(entries: &Vec<RegEntry>) -> (r: Option<Instance>)
    ensures
        match r {
            Some(inst) => section_values(entries_view(entries@)) == Some(inst@),
            None => section_values(entries_view(entries@)) is None,
        },
{
    let mut inst = Instance::new();
    let mut i: usize = 0;
    while i < entries.len()
        invariant
            i <= entries.len(),
            section_values(entries_view(entries@.take(i as int))) == Some(inst@),
        decreases entries.len() - i,
    {
        let ghost before = inst@;
        assert(entries_view(entries@.take(i + 1)).drop_last() =~= entries_view(entries@.take(i as int)));
        assert(entries_view(entries@.take(i + 1)).last() == entry_view(entries@[i as int]));
        let ok = apply_section_entry(&mut inst, &entries[i]);
        if !ok {
            proof {
                lemma_section_values_stays_none(entries_view(entries@), i + 1);
                assert(entries_view(entries@).take(i + 1) =~= entries_view(entries@.take(i + 1)));
            }
            return None;
        }
        i = i + 1;
    }
    assert(entries@.take(entries.len() as int) =~= entries@);
    Some(inst)
}

/// How a string value shows when it is empty: two double quotes.
pub open spec fn empty_shown() -> Seq<char> {
    seq!['"', '"']
}

/// A section reads back as empty settings after `write_section` wrote it: whatever other
/// values it holds, once every value that `write_section` writes for `sec` holds the
/// empty string, the section's values read as a section with every setting empty.
pub proof fn lemma_written_section_reads_empty(sec: Seq<char>, entries: Seq<(Seq<char>, Seq<char>, Option<Seq<char>>)>)
    requires
        forall|i: int|
            0 <= i < entries.len() && write_section_spec(sec).contains((Some(sec), #[trigger] entries[i].0, ""@))
                ==> entries[i].1 == empty_shown() && entries[i].2 == Some(Seq::<char>::empty()),
    ensures
        section_values(entries) == Some(empty_instance()),
    decreases entries.len(),
{
    if entries.len() > 0 {
        let rest = entries.drop_last();
        assert forall|i: int|
            0 <= i < rest.len() && write_section_spec(sec).contains((Some(sec), #[trigger] rest[i].0, ""@))
                implies rest[i].1 == empty_shown() && rest[i].2 == Some(Seq::<char>::empty()) by {
            assert(rest[i] == entries[i]);
        }
        lemma_written_section_reads_empty(sec, rest);
        let e = entries.last();
        let w = write_section_spec(sec);
        assert forall|j: int| 0 <= j < w.len() implies w.contains(#[trigger] w[j]) by {}
        assert(w[0] == (Some(sec), "exe_name"@, ""@));
        assert(w[1] == (Some(sec), "game_window_name"@, ""@));
        assert(w[2] == (Some(sec), "name_ofahk"@, ""@));
        assert(w[3] == (Some(sec), "path_toahk"@, ""@));
        assert(w[4] == (Some(sec), "open_rgbprofile"@, ""@));
        assert(w[5] == (Some(sec), "voice_attack_profile"@, ""@));
        assert(w[6] == (Some(sec), "signal_rgbprofile"@, ""@));
        assert(w[7] == (Some(sec), "game_or_win"@, ""@));
        assert(w[8] == (Some(sec), "priority"@, ""@));
        assert(w[9] == (Some(sec), "running"@, ""@));
        assert(w[10] == (Some(sec), "running_pid"@, ""@));
        assert(w[11] == (Some(sec), "other_commands"@, ""@));
        assert(entries[entries.len() - 1] == e);
        if w.contains((Some(sec), e.0, ""@)) {
            assert(e.1 == empty_shown() && e.2 == Some(Seq::<char>::empty()));
            assert(unquoted(e.1) == Some(Seq::<char>::empty())) by {
                assert(e.1.subrange(1, 1) =~= Seq::<char>::empty());
            }
        }
        assert(section_step(empty_instance(), e) == Some(empty_instance()));
    }
}

/// Once a value cannot be read, reading more values does not help.
pub proof fn lemma_section_values_stays_none(entries: Seq<(Seq<char>, Seq<char>, Option<Seq<char>>)>, k: int)
    requires
        0 <= k <= entries.len(),
        section_values(entries.take(k)) is None,
    ensures
        section_values(entries) is None,
    decreases entries.len() - k,
{
    if k < entries.len() {
        assert(entries.take(k + 1).drop_last() =~= entries.take(k));
        lemma_section_values_stays_none(entries, k + 1);
    } else {
        assert(entries.take(k) =~= entries);
    }
}

} // verus!

verus! {

/// The global settings after reading one more value of the `defaults` section: the named
/// setting takes the unquoted display text of the value; a value of another name changes
/// nothing. None where the value is not a quoted text.
pub open spec fn defaults_step(v: DefaultsView, e: (Seq<char>, Seq<char>, Option<Seq<char>>)) -> Option<DefaultsView> {
    let name = e.0;
    let q = unquoted(e.1);
    if name == "openrgb_path"@ {
        match q { Some(x) => Some(DefaultsView { openrgb_path: x, ..v }), None => None }
    } else if name == "exit_reason"@ {
        match q { Some(x) => Some(DefaultsView { exit_reason: x, ..v }), None => None }
    } else if name == "voice_attack_path"@ {
        match q { Some(x) => Some(DefaultsView { voice_attack_path: x, ..v }), None => None }
    } else if name == "default_orgb_profile"@ {
        match q { Some(x) => Some(DefaultsView { default_orgb_profile: x, ..v }), None => None }
    } else if name == "default_srgb_profile"@ {
        match q { Some(x) => Some(DefaultsView { default_srgb_profile: x, ..v }), None => None }
    } else if name == "screensaver_orgb_profile"@ {
        match q { Some(x) => Some(DefaultsView { screensaver_orgb_profile: x, ..v }), None => None }
    } else if name == "screensaver_srgb_profile"@ {
        match q { Some(x) => Some(DefaultsView { screensaver_srgb_profile: x, ..v }), None => None }
    } else if name == "night_hour_orgb_profile"@ {
        match q { Some(x) => Some(DefaultsView { night_hour_orgb_profile: x, ..v }), None => None }
    } else if name == "night_hour_srgb_profile"@ {
        match q { Some(x) => Some(DefaultsView { night_hour_srgb_profile: x, ..v }), None => None }
    } else if name == "orgb_port"@ {
        match q { Some(x) => Some(DefaultsView { orgb_port: x, ..v }), None => None }
    } else if name == "orgb_address"@ {
        match q { Some(x) => Some(DefaultsView { orgb_address: x, ..v }), None => None }
    } else if name == "gameon"@ {
        match q { Some(x) => Some(DefaultsView { gameon: x, ..v }), None => None }
    } else if name == "window_flag"@ {
        match q { Some(x) => Some(DefaultsView { window_flag: x, ..v }), None => None }
    } else if name == "current_priority"@ {
        match q { Some(x) => Some(DefaultsView { current_priority: x, ..v }), None => None }
    } else {
        Some(v)
    }
}

/// The global settings read from the values of the `defaults` section in order.
pub open spec fn defaults_values(entries: Seq<(Seq<char>, Seq<char>, Option<Seq<char>>)>) -> Option<DefaultsView>
    decreases entries.len(),
{
    if entries.len() == 0 {
        Some(empty_defaults())
    } else {
        match defaults_values(entries.drop_last()) {
            Some(v) => defaults_step(v, entries.last()),
            None => None,
        }
    }
}

/// Reads one more value into the global settings.
fn apply_defaults_entry(d: &mut Defaults, e: &RegEntry) -> (ok: bool)
    ensures
        ok ==> defaults_step(old(d)@, entry_view(*e)) == Some(final(d)@),
        !ok ==> defaults_step(old(d)@, entry_view(*e)) is None,
{
    let name = e.name.as_str();
    if same_text(name, "openrgb_path") {
        match d_quote(e.shown.as_str()) {
            Some(x) => {
                d.openrgb_path = x;
                true
            },
            None => false,
        }
    } else if same_text(name, "exit_reason") {
        match d_quote(e.shown.as_str()) {
            Some(x) => {
                d.exit_reason = x;
                true
            },
            None => false,
        }
    } else if same_text(name, "voice_attack_path") {
        match d_quote(e.shown.as_str()) {
            Some(x) => {
                d.voice_attack_path = x;
                true
            },
            None => false,
        }
    } else if same_text(name, "default_orgb_profile") {
        match d_quote(e.shown.as_str()) {
            Some(x) => {
                d.default_orgb_profile = x;
                true
            },
            None => false,
        }
    } else if same_text(name, "default_srgb_profile") {
        match d_quote(e.shown.as_str()) {
            Some(x) => {
                d.default_srgb_profile = x;
                true
            },
            None => false,
        }
    } else if same_text(name, "screensaver_orgb_profile") {
        match d_quote(e.shown.as_str()) {
            Some(x) => {
                d.screensaver_orgb_profile = x;
                true
            },
            None => false,
        }
    } else if same_text(name, "screensaver_srgb_profile") {
        match d_quote(e.shown.as_str()) {
            Some(x) => {
                d.screensaver_srgb_profile = x;
                true
            },
            None => false,
        }
    } else if same_text(name, "night_hour_orgb_profile") {
        match d_quote(e.shown.as_str()) {
            Some(x) => {
                d.night_hour_orgb_profile = x;
                true
            },
            None => false,
        }
    } else if same_text(name, "night_hour_srgb_profile") {
        match d_quote(e.shown.as_str()) {
            Some(x) => {
                d.night_hour_srgb_profile = x;
                true
            },
            None => false,
        }
    } else if same_text(name, "orgb_port") {
        match d_quote(e.shown.as_str()) {
            Some(x) => {
                d.orgb_port = x;
                true
            },
            None => false,
        }
    } else if same_text(name, "orgb_address") {
        match d_quote(e.shown.as_str()) {
            Some(x) => {
                d.orgb_address = x;
                true
            },
            None => false,
        }
    } else if same_text(name, "gameon") {
        match d_quote(e.shown.as_str()) {
            Some(x) => {
                d.gameon = x;
                true
            },
            None => false,
        }
    } else if same_text(name, "window_flag") {
        match d_quote(e.shown.as_str()) {
            Some(x) => {
                d.window_flag = x;
                true
            },
            None => false,
        }
    } else if same_text(name, "current_priority") {
        match d_quote(e.shown.as_str()) {
            Some(x) => {
                d.current_priority = x;
                true
            },
            None => false,
        }
    } else {
        true
    }
}

/// Once a value cannot be read, reading more values does not help.
pub proof fn lemma_defaults_values_stays_none(entries: Seq<(Seq<char>, Seq<char>, Option<Seq<char>>)>, k: int)
    requires
        0 <= k <= entries.len(),
        defaults_values(entries.take(k)) is None,
    ensures
        defaults_values(entries) is None,
    decreases entries.len() - k,
{
    if k < entries.len() {
        assert(entries.take(k + 1).drop_last() =~= entries.take(k));
        lemma_defaults_values_stays_none(entries, k + 1);
    } else {
        assert(entries.take(k) =~= entries);
    }
}

/// The global settings from the values of the `defaults` section, in the order in which
/// they were enumerated; none where a value is not a quoted text.
pub fn defaults_from_values(entries: &Vec<RegEntry>) -> (r: Option<Defaults>)
    ensures
        match r {
            Some(d) => defaults_values(entries_view(entries@)) == Some(d@),
            None => defaults_values(entries_view(entries@)) is None,
        },
{
    let mut d = Defaults::new();
    let mut i: usize = 0;
    while i < entries.len()
        invariant
            i <= entries.len(),
            defaults_values(entries_view(entries@.take(i as int))) == Some(d@),
        decreases entries.len() - i,
    {
        assert(entries_view(entries@.take(i + 1)).drop_last() =~= entries_view(entries@.take(i as int)));
        assert(entries_view(entries@.take(i + 1)).last() == entry_view(entries@[i as int]));
        let ok = apply_defaults_entry(&mut d, &entries[i]);
        if !ok {
            proof {
                lemma_defaults_values_stays_none(entries_view(entries@), i + 1);
                assert(entries_view(entries@).take(i + 1) =~= entries_view(entries@.take(i + 1)));
            }
            return None;
        }
        i = i + 1;
    }
    assert(entries@.take(entries.len() as int) =~= entries@);
    Some(d)
}

/// The settings of the `Idle` profile for this pass: during dark hours the night light
/// profiles, named `Night`; by day with the screensaver on (`game_or_win` is `Yes`) the
/// screensaver light profiles, named `Day`; otherwise the section as it is, named `Day`.
pub open spec fn idle_settings(section: InstanceView, defaults: DefaultsView, dark: bool) -> InstanceView {
    if dark {
        InstanceView {
            open_rgbprofile: defaults.night_hour_orgb_profile,
            signal_rgbprofile: defaults.night_hour_srgb_profile,
            game_window_name: "Night"@,
            ..section
        }
    } else if section.game_or_win == "Yes"@ {
        InstanceView {
            open_rgbprofile: defaults.screensaver_orgb_profile,
            signal_rgbprofile: defaults.screensaver_srgb_profile,
            game_window_name: "Day"@,
            ..section
        }
    } else {
        InstanceView { game_window_name: "Day"@, ..section }
    }
}

/// The `Idle` profile to apply, from its section, the global settings and whether it is
/// dark hours now.
pub fn get_idle(section: Instance, defaults: Defaults, dark: bool) -> (r: Instance)
    ensures
        r@ == idle_settings(section@, defaults@, dark),
{
    let mut section = section;
    if dark {
        section.open_rgbprofile = defaults.night_hour_orgb_profile;
        section.signal_rgbprofile = defaults.night_hour_srgb_profile;
        section.game_window_name = owned("Night");
    } else if same_text(section.game_or_win.as_str(), "Yes") {
        section.open_rgbprofile = defaults.screensaver_orgb_profile;
        section.signal_rgbprofile = defaults.screensaver_srgb_profile;
        section.game_window_name = owned("Day");
    } else {
        section.game_window_name = owned("Day");
    }
    section
}

} // verus!

verus! {

/// The sections that are never switched to by process detection.
pub open spec fn is_fixed_section(name: Seq<char>) -> bool {
    name == "Idle"@ || name == "General"@ || name == "defaults"@
}

/// Named sections, as texts.
pub open spec fn sections_view(v: Seq<(String, Instance)>) -> Seq<(Seq<char>, InstanceView)> {
    v.map_values(|e: (String, Instance)| (e.0@, e.1@))
}

/// Whether a section is a candidate: its program runs (`observed.0`), and either it is a
/// game whose priority is at least `current_priority`, or its window is active
/// (`observed.1`) while the current profile is not a game. None where the priority of a
/// running game does not read as a number.
pub open spec fn is_candidate(
    name: Seq<char>,
    inst: InstanceView,
    observed: (bool, bool),
    current_priority: nat,
    current_kind: Seq<char>,
) -> Option<bool> {
    let by_window = observed.1 && current_kind != "Game"@;
    if is_fixed_section(name) || !observed.0 {
        Some(false)
    } else if inst.game_or_win == "Game"@ {
        match parse_decimal(inst.priority, u32::MAX as nat) {
            None => None,
            Some(p) => Some(p >= current_priority || by_window),
        }
    } else {
        Some(by_window)
    }
}

/// The candidate sections among `entries`, in order.
pub open spec fn candidates(
    entries: Seq<(Seq<char>, InstanceView)>,
    observed: Seq<(bool, bool)>,
    current_priority: nat,
    current_kind: Seq<char>,
) -> Option<Seq<(Seq<char>, InstanceView)>>
    decreases entries.len(),
{
    if entries.len() == 0 || observed.len() != entries.len() {
        Some(seq![])
    } else {
        match candidates(entries.drop_last(), observed.drop_last(), current_priority, current_kind) {
            None => None,
            Some(rest) => match is_candidate(
                entries.last().0,
                entries.last().1,
                observed.last(),
                current_priority,
                current_kind,
            ) {
                None => None,
                Some(true) => Some(rest.push(entries.last())),
                Some(false) => Some(rest),
            },
        }
    }
}

/// What `filtered_keys` computes: none where the current priority does not read as a
/// number (or a candidate's priority does not).
pub open spec fn filtered_outcome(
    entries: Seq<(Seq<char>, InstanceView)>,
    current_priority: Seq<char>,
    observed: Seq<(bool, bool)>,
    current_kind: Seq<char>,
) -> Option<Seq<(Seq<char>, InstanceView)>> {
    match parse_decimal(current_priority, u32::MAX as nat) {
        None => None,
        Some(cp) => candidates(entries, observed, cp, current_kind),
    }
}

/// Process detection never switches to `Idle`, `General` or `defaults`, and only to a
/// section whose program runs: every section picked is one of the sections given,
/// observed running, and not a fixed one.
pub proof fn lemma_candidates_are_running_sections(
    entries: Seq<(Seq<char>, InstanceView)>,
    current_priority: Seq<char>,
    observed: Seq<(bool, bool)>,
    current_kind: Seq<char>,
)
    ensures
        filtered_outcome(entries, current_priority, observed, current_kind) matches Some(c) ==> forall|j: int|
            0 <= j < c.len() ==> {
                &&& !is_fixed_section(#[trigger] c[j].0)
                &&& exists|i: int| 0 <= i < entries.len() && entries[i] == c[j] && (#[trigger] observed[i]).0
            },
{
    if let Some(cp) = parse_decimal(current_priority, u32::MAX as nat) {
        lemma_candidates_running(entries, observed, cp, current_kind);
    }
}

/// Every candidate is a given section, observed running, and not a fixed one.
proof fn lemma_candidates_running(
    entries: Seq<(Seq<char>, InstanceView)>,
    observed: Seq<(bool, bool)>,
    cp: nat,
    kind: Seq<char>,
)
    ensures
        candidates(entries, observed, cp, kind) matches Some(c) ==> forall|j: int|
            0 <= j < c.len() ==> {
                &&& !is_fixed_section(#[trigger] c[j].0)
                &&& exists|i: int| 0 <= i < entries.len() && entries[i] == c[j] && (#[trigger] observed[i]).0
            },
    decreases entries.len(),
{
    if entries.len() > 0 && observed.len() == entries.len() {
        let e2 = entries.drop_last();
        let o2 = observed.drop_last();
        lemma_candidates_running(e2, o2, cp, kind);
        if let Some(c) = candidates(entries, observed, cp, kind) {
            let rest = candidates(e2, o2, cp, kind)->0;
            assert forall|j: int| 0 <= j < c.len() implies {
                &&& !is_fixed_section(#[trigger] c[j].0)
                &&& exists|i: int| 0 <= i < entries.len() && entries[i] == c[j] && (#[trigger] observed[i]).0
            } by {
                assert(candidates(e2, o2, cp, kind) is Some);
                if j < rest.len() {
                    assert(c[j] == rest[j]);
                    assert(!is_fixed_section(rest[j].0));
                    let i = choose|i: int| 0 <= i < e2.len() && e2[i] == rest[j] && (#[trigger] o2[i]).0;
                    assert(entries[i] == e2[i] && observed[i] == o2[i]);
                } else {
                    assert(c[j] == entries.last());
                    assert(observed[entries.len() - 1] == observed.last());
                }
            }
        }
    }
}

/// Once a candidate check cannot be made, checking more sections does not help.
proof fn lemma_candidates_stays_none(
    entries: Seq<(Seq<char>, InstanceView)>,
    observed: Seq<(bool, bool)>,
    cp: nat,
    kind: Seq<char>,
    k: int,
)
    requires
        0 <= k <= entries.len(),
        observed.len() == entries.len(),
        candidates(entries.take(k), observed.take(k), cp, kind) is None,
    ensures
        candidates(entries, observed, cp, kind) is None,
    decreases entries.len() - k,
{
    if k < entries.len() {
        assert(entries.take(k + 1).drop_last() =~= entries.take(k));
        assert(observed.take(k + 1).drop_last() =~= observed.take(k));
        lemma_candidates_stays_none(entries, observed, cp, kind, k + 1);
    } else {
        assert(entries.take(k) =~= entries);
        assert(observed.take(k) =~= observed);
    }
}

/// The sections to switch to, in order: among `enum_keys`, those whose program runs
/// (`observed[i].0`) and which either are games of at least the current priority or
/// own the active window (`observed[i].1`) while the current profile's kind
/// (`current_kind`) is not `Game`; `Idle`, `General` and `defaults` never. None where a
/// priority does not read as a number.
pub fn filtered_keys(
    enum_keys: &Vec<(String, Instance)>,
    current_priority: &str,
    observed: &Vec<(bool, bool)>,
    current_kind: &str,
) -> (r: Option<Vec<(String, Instance)>>)
    requires
        observed.len() == enum_keys.len(),
    ensures
        match r {
            Some(v) => filtered_outcome(sections_view(enum_keys@), current_priority@, observed@, current_kind@)
                == Some(sections_view(v@)),
            None => filtered_outcome(sections_view(enum_keys@), current_priority@, observed@, current_kind@) is None,
        },
{
    let cp = match parse_u32(current_priority) {
        Some(c) => c,
        None => return None,
    };
    let not_game = !same_text(current_kind, "Game");
    let ghost entries = sections_view(enum_keys@);
    let mut out: Vec<(String, Instance)> = Vec::new();
    let mut i: usize = 0;
    while i < enum_keys.len()
        invariant
            i <= enum_keys.len(),
            observed.len() == enum_keys.len(),
            entries == sections_view(enum_keys@),
            not_game == (current_kind@ != "Game"@),
            parse_decimal(current_priority@, u32::MAX as nat) == Some(cp as nat),
            candidates(entries.take(i as int), observed@.take(i as int), cp as nat, current_kind@)
                == Some(sections_view(out@)),
        decreases enum_keys.len() - i,
    {
        let name = &enum_keys[i].0;
        let inst = &enum_keys[i].1;
        let (running, active) = observed[i];
        assert(entries.take(i + 1).drop_last() =~= entries.take(i as int));
        assert(observed@.take(i + 1).drop_last() =~= observed@.take(i as int));
        assert(entries.take(i + 1).last() == (name@, inst@));
        assert(observed@.take(i + 1).last() == (running, active));
        let by_window = active && not_game;
        let fixed = same_text(name.as_str(), "Idle") || same_text(name.as_str(), "General")
            || same_text(name.as_str(), "defaults");
        let keep = if fixed || !running {
            false
        } else if same_text(inst.game_or_win.as_str(), "Game") {
            match parse_u32(inst.priority.as_str()) {
                None => {
                    proof {
                        assert(is_candidate(name@, inst@, (running, active), cp as nat, current_kind@) is None);
                        assert(entries.take(i + 1).len() == i + 1);
                        assert(candidates(entries.take(i + 1), observed@.take(i + 1), cp as nat, current_kind@) is None);
                        lemma_candidates_stays_none(entries, observed@, cp as nat, current_kind@, i + 1);
                    }
                    return None;
                },
                Some(p) => p >= cp || by_window,
            }
        } else {
            by_window
        };
        if keep {
            out.push((name.clone(), inst.duplicate()));
            assert(sections_view(out@) =~= sections_view(out@.drop_last()).push((name@, inst@)));
        }
        i = i + 1;
    }
    assert(entries.take(enum_keys.len() as int) =~= entries);
    assert(observed@.take(enum_keys.len() as int) =~= observed@);
    Some(out)
}

} // verus!

verus! {

/// Whether a section, observed as `observed`, must be picked: its program runs, it is not
/// `Idle`, `General` or `defaults`, and either it is a game whose priority is at least
/// the current priority, or it owns the active window while the current profile is not
/// a game.
pub open spec fn must_pick(
    name: Seq<char>,
    inst: InstanceView,
    observed: (bool, bool),
    current_priority: nat,
    current_kind: Seq<char>,
) -> bool {
    &&& observed.0
    &&& name != "Idle"@ && name != "General"@ && name != "defaults"@
    &&& (inst.game_or_win == "Game"@ && (parse_decimal(inst.priority, u32::MAX as nat) matches Some(p)
        && p >= current_priority)) || (observed.1 && current_kind != "Game"@)
}

/// Every section that must be picked is picked: a running section that is a game of at
/// least the current priority, or whose window is active while the current profile is not
/// a game (whatever its kind and priority), is among the candidates that `filtered_keys`
/// returns.
pub proof fn lemma_candidates_include_required(
    entries: Seq<(Seq<char>, InstanceView)>,
    current_priority: Seq<char>,
    observed: Seq<(bool, bool)>,
    current_kind: Seq<char>,
    i: int,
)
    requires
        observed.len() == entries.len(),
        0 <= i < entries.len(),
        parse_decimal(current_priority, u32::MAX as nat) is Some,
        must_pick(
            entries[i].0,
            entries[i].1,
            observed[i],
            parse_decimal(current_priority, u32::MAX as nat)->0,
            current_kind,
        ),
    ensures
        filtered_outcome(entries, current_priority, observed, current_kind) matches Some(c) ==> c.contains(entries[i]),
{
    let cp = parse_decimal(current_priority, u32::MAX as nat)->0;
    lemma_candidates_include(entries, observed, cp, current_kind, i);
}

/// Every section that must be picked among `entries` is a candidate.
proof fn lemma_candidates_include(
    entries: Seq<(Seq<char>, InstanceView)>,
    observed: Seq<(bool, bool)>,
    cp: nat,
    kind: Seq<char>,
    i: int,
)
    requires
        observed.len() == entries.len(),
        0 <= i < entries.len(),
        must_pick(entries[i].0, entries[i].1, observed[i], cp, kind),
    ensures
        candidates(entries, observed, cp, kind) matches Some(c) ==> c.contains(entries[i]),
    decreases entries.len(),
{
    let e2 = entries.drop_last();
    let o2 = observed.drop_last();
    if let Some(c) = candidates(entries, observed, cp, kind) {
        assert(candidates(e2, o2, cp, kind) is Some);
        let rest = candidates(e2, o2, cp, kind)->0;
        if i == entries.len() - 1 {
            assert(entries.last() == entries[i] && observed.last() == observed[i]);
            assert(is_candidate(entries[i].0, entries[i].1, observed[i], cp, kind) == Some(true));
            assert(c == rest.push(entries[i]));
            assert(c[c.len() - 1] == entries[i]);
        } else {
            assert(e2[i] == entries[i] && o2[i] == observed[i]);
            lemma_candidates_include(e2, o2, cp, kind, i);
            let k = choose|k: int| 0 <= k < rest.len() && rest[k] == e2[i];
            assert(c == rest || c == rest.push(entries.last()));
            assert(c[k] == entries[i]);
        }
    }
}

} // verus!

verus! {

/// How a string value shows in the registry listing: between double quotes.
pub open spec fn quoted(x: Seq<char>) -> Seq<char> {
    seq!['"'] + x + seq!['"']
}

/// The quotes of a shown value come off again.
pub proof fn lemma_unquoted_quoted(x: Seq<char>)
    ensures
        unquoted(quoted(x)) == Some(x),
{
    let q = quoted(x);
    assert(q[0] == '"');
    assert(q.last() == '"');
    assert(q.subrange(1, q.len() - 1) =~= x);
}

/// Reading one value of a section sets the setting of the same name, and only it: a
/// quoted value named like a setting gives that setting its text, the AutoHotkey path and
/// the other commands take the value's string content, and every other setting stays
/// empty.
pub proof fn lemma_one_value_sets_its_setting(x: Seq<char>, shown: Seq<char>, t: Option<Seq<char>>)
    ensures
        section_values(seq![("exe_name"@, quoted(x), t)]) == Some(InstanceView { exe_name: x, ..empty_instance() }),
        section_values(seq![("game_window_name"@, quoted(x), t)]) == Some(
            InstanceView { game_window_name: x, ..empty_instance() },
        ),
        section_values(seq![("name_ofahk"@, quoted(x), t)]) == Some(InstanceView { name_ofahk: x, ..empty_instance() }),
        section_values(seq![("path_toahk"@, shown, Some(x))]) == Some(InstanceView { path_toahk: x, ..empty_instance() }),
        section_values(seq![("open_rgbprofile"@, quoted(x), t)]) == Some(
            InstanceView { open_rgbprofile: x, ..empty_instance() },
        ),
        section_values(seq![("signal_rgbprofile"@, quoted(x), t)]) == Some(
            InstanceView { signal_rgbprofile: x, ..empty_instance() },
        ),
        section_values(seq![("voice_attack_profile"@, quoted(x), t)]) == Some(
            InstanceView { voice_attack_profile: x, ..empty_instance() },
        ),
        section_values(seq![("game_or_win"@, quoted(x), t)]) == Some(InstanceView { game_or_win: x, ..empty_instance() }),
        section_values(seq![("running"@, quoted(x), t)]) == Some(InstanceView { running: x, ..empty_instance() }),
        section_values(seq![("running_pid"@, quoted(x), t)]) == Some(InstanceView { running_pid: x, ..empty_instance() }),
        section_values(seq![("other_commands"@, shown, Some(x))]) == Some(
            InstanceView { other_commands: x, ..empty_instance() },
        ),
        section_values(seq![("priority"@, quoted(x), t)]) == Some(InstanceView { priority: x, ..empty_instance() }),
{
    lemma_unquoted_quoted(x);
    reveal_strlit("exe_name");
    reveal_strlit("game_window_name");
    reveal_strlit("name_ofahk");
    reveal_strlit("path_toahk");
    reveal_strlit("open_rgbprofile");
    reveal_strlit("signal_rgbprofile");
    reveal_strlit("voice_attack_profile");
    reveal_strlit("game_or_win");
    reveal_strlit("running");
    reveal_strlit("running_pid");
    reveal_strlit("other_commands");
    reveal_strlit("priority");
    assert("exe_name"@.len() == 8 && "exe_name"@[0] == 'e');
    assert("game_window_name"@.len() == 16 && "game_window_name"@[0] == 'g');
    assert("name_ofahk"@.len() == 10 && "name_ofahk"@[0] == 'n');
    assert("path_toahk"@.len() == 10 && "path_toahk"@[0] == 'p');
    assert("open_rgbprofile"@.len() == 15 && "open_rgbprofile"@[0] == 'o');
    assert("signal_rgbprofile"@.len() == 17 && "signal_rgbprofile"@[0] == 's');
    assert("voice_attack_profile"@.len() == 20 && "voice_attack_profile"@[0] == 'v');
    assert("game_or_win"@.len() == 11 && "game_or_win"@[0] == 'g');
    assert("running"@.len() == 7 && "running"@[0] == 'r');
    assert("running_pid"@.len() == 11 && "running_pid"@[0] == 'r');
    assert("other_commands"@.len() == 14 && "other_commands"@[0] == 'o');
    assert("priority"@.len() == 8 && "priority"@[0] == 'p');
    lemma_section_values_single(("exe_name"@, quoted(x), t));
    lemma_section_values_single(("game_window_name"@, quoted(x), t));
    lemma_section_values_single(("name_ofahk"@, quoted(x), t));
    lemma_section_values_single(("path_toahk"@, shown, Some(x)));
    lemma_section_values_single(("open_rgbprofile"@, quoted(x), t));
    lemma_section_values_single(("signal_rgbprofile"@, quoted(x), t));
    lemma_section_values_single(("voice_attack_profile"@, quoted(x), t));
    lemma_section_values_single(("game_or_win"@, quoted(x), t));
    lemma_section_values_single(("running"@, quoted(x), t));
    lemma_section_values_single(("running_pid"@, quoted(x), t));
    lemma_section_values_single(("other_commands"@, shown, Some(x)));
    lemma_section_values_single(("priority"@, quoted(x), t));
}

/// The settings read from one value are those of one reading step from empty settings.
proof fn lemma_section_values_single(e: (Seq<char>, Seq<char>, Option<Seq<char>>))
    ensures
        section_values(seq![e]) == section_step(empty_instance(), e),
{
    let s = seq![e];
    assert(s.drop_last() =~= Seq::<(Seq<char>, Seq<char>, Option<Seq<char>>)>::empty());
    assert(section_values(Seq::<(Seq<char>, Seq<char>, Option<Seq<char>>)>::empty()) == Some(empty_instance()));
    assert(s.last() == e);
}

} // verus!

verus! {

/// Reading one value of the `defaults` section sets the global setting of the same name,
/// and only it: a quoted value named like a setting gives that setting its text, and every
/// other setting stays empty.
pub proof fn lemma_one_value_sets_its_default(x: Seq<char>, t: Option<Seq<char>>)
    ensures
        defaults_values(seq![("openrgb_path"@, quoted(x), t)]) == Some(DefaultsView { openrgb_path: x, ..empty_defaults() }),
        defaults_values(seq![("exit_reason"@, quoted(x), t)]) == Some(DefaultsView { exit_reason: x, ..empty_defaults() }),
        defaults_values(seq![("voice_attack_path"@, quoted(x), t)]) == Some(DefaultsView { voice_attack_path: x, ..empty_defaults() }),
        defaults_values(seq![("default_orgb_profile"@, quoted(x), t)]) == Some(DefaultsView { default_orgb_profile: x, ..empty_defaults() }),
        defaults_values(seq![("default_srgb_profile"@, quoted(x), t)]) == Some(DefaultsView { default_srgb_profile: x, ..empty_defaults() }),
        defaults_values(seq![("screensaver_orgb_profile"@, quoted(x), t)]) == Some(DefaultsView { screensaver_orgb_profile: x, ..empty_defaults() }),
        defaults_values(seq![("screensaver_srgb_profile"@, quoted(x), t)]) == Some(DefaultsView { screensaver_srgb_profile: x, ..empty_defaults() }),
        defaults_values(seq![("night_hour_orgb_profile"@, quoted(x), t)]) == Some(DefaultsView { night_hour_orgb_profile: x, ..empty_defaults() }),
        defaults_values(seq![("night_hour_srgb_profile"@, quoted(x), t)]) == Some(DefaultsView { night_hour_srgb_profile: x, ..empty_defaults() }),
        defaults_values(seq![("orgb_port"@, quoted(x), t)]) == Some(DefaultsView { orgb_port: x, ..empty_defaults() }),
        defaults_values(seq![("orgb_address"@, quoted(x), t)]) == Some(DefaultsView { orgb_address: x, ..empty_defaults() }),
        defaults_values(seq![("gameon"@, quoted(x), t)]) == Some(DefaultsView { gameon: x, ..empty_defaults() }),
        defaults_values(seq![("window_flag"@, quoted(x), t)]) == Some(DefaultsView { window_flag: x, ..empty_defaults() }),
        defaults_values(seq![("current_priority"@, quoted(x), t)]) == Some(DefaultsView { current_priority: x, ..empty_defaults() }),
{
    lemma_unquoted_quoted(x);
    reveal_strlit("openrgb_path");
    reveal_strlit("exit_reason");
    reveal_strlit("voice_attack_path");
    reveal_strlit("default_orgb_profile");
    reveal_strlit("default_srgb_profile");
    reveal_strlit("screensaver_orgb_profile");
    reveal_strlit("screensaver_srgb_profile");
    reveal_strlit("night_hour_orgb_profile");
    reveal_strlit("night_hour_srgb_profile");
    reveal_strlit("orgb_port");
    reveal_strlit("orgb_address");
    reveal_strlit("gameon");
    reveal_strlit("window_flag");
    reveal_strlit("current_priority");
    assert("openrgb_path"@.len() == 12 && "openrgb_path"@[0] == 'o' && "openrgb_path"@[1] == 'p' && "openrgb_path"@[8] == 'p' && "openrgb_path"@[11] == 'h');
    assert("exit_reason"@.len() == 11 && "exit_reason"@[0] == 'e' && "exit_reason"@[1] == 'x' && "exit_reason"@[8] == 's');
    assert("voice_attack_path"@.len() == 17 && "voice_attack_path"@[0] == 'v' && "voice_attack_path"@[1] == 'o' && "voice_attack_path"@[8] == 't' && "voice_attack_path"@[11] == 'k' && "voice_attack_path"@[12] == '_');
    assert("default_orgb_profile"@.len() == 20 && "default_orgb_profile"@[0] == 'd' && "default_orgb_profile"@[1] == 'e' && "default_orgb_profile"@[8] == 'o' && "default_orgb_profile"@[11] == 'b' && "default_orgb_profile"@[12] == '_');
    assert("default_srgb_profile"@.len() == 20 && "default_srgb_profile"@[0] == 'd' && "default_srgb_profile"@[1] == 'e' && "default_srgb_profile"@[8] == 's' && "default_srgb_profile"@[11] == 'b' && "default_srgb_profile"@[12] == '_');
    assert("screensaver_orgb_profile"@.len() == 24 && "screensaver_orgb_profile"@[0] == 's' && "screensaver_orgb_profile"@[1] == 'c' && "screensaver_orgb_profile"@[8] == 'v' && "screensaver_orgb_profile"@[11] == '_' && "screensaver_orgb_profile"@[12] == 'o');
    assert("screensaver_srgb_profile"@.len() == 24 && "screensaver_srgb_profile"@[0] == 's' && "screensaver_srgb_profile"@[1] == 'c' && "screensaver_srgb_profile"@[8] == 'v' && "screensaver_srgb_profile"@[11] == '_' && "screensaver_srgb_profile"@[12] == 's');
    assert("night_hour_orgb_profile"@.len() == 23 && "night_hour_orgb_profile"@[0] == 'n' && "night_hour_orgb_profile"@[1] == 'i' && "night_hour_orgb_profile"@[8] == 'u' && "night_hour_orgb_profile"@[11] == 'o' && "night_hour_orgb_profile"@[12] == 'r');
    assert("night_hour_srgb_profile"@.len() == 23 && "night_hour_srgb_profile"@[0] == 'n' && "night_hour_srgb_profile"@[1] == 'i' && "night_hour_srgb_profile"@[8] == 'u' && "night_hour_srgb_profile"@[11] == 's' && "night_hour_srgb_profile"@[12] == 'r');
    assert("orgb_port"@.len() == 9 && "orgb_port"@[0] == 'o' && "orgb_port"@[1] == 'r' && "orgb_port"@[8] == 't');
    assert("orgb_address"@.len() == 12 && "orgb_address"@[0] == 'o' && "orgb_address"@[1] == 'r' && "orgb_address"@[8] == 'r' && "orgb_address"@[11] == 's');
    assert("gameon"@.len() == 6 && "gameon"@[0] == 'g' && "gameon"@[1] == 'a');
    assert("window_flag"@.len() == 11 && "window_flag"@[0] == 'w' && "window_flag"@[1] == 'i' && "window_flag"@[8] == 'l');
    assert("current_priority"@.len() == 16 && "current_priority"@[0] == 'c' && "current_priority"@[1] == 'u' && "current_priority"@[8] == 'p' && "current_priority"@[11] == 'o' && "current_priority"@[12] == 'r');
    lemma_defaults_values_single(("openrgb_path"@, quoted(x), t));
    lemma_defaults_values_single(("exit_reason"@, quoted(x), t));
    lemma_defaults_values_single(("voice_attack_path"@, quoted(x), t));
    lemma_defaults_values_single(("default_orgb_profile"@, quoted(x), t));
    lemma_defaults_values_single(("default_srgb_profile"@, quoted(x), t));
    lemma_defaults_values_single(("screensaver_orgb_profile"@, quoted(x), t));
    lemma_defaults_values_single(("screensaver_srgb_profile"@, quoted(x), t));
    lemma_defaults_values_single(("night_hour_orgb_profile"@, quoted(x), t));
    lemma_defaults_values_single(("night_hour_srgb_profile"@, quoted(x), t));
    lemma_defaults_values_single(("orgb_port"@, quoted(x), t));
    lemma_defaults_values_single(("orgb_address"@, quoted(x), t));
    lemma_defaults_values_single(("gameon"@, quoted(x), t));
    lemma_defaults_values_single(("window_flag"@, quoted(x), t));
    lemma_defaults_values_single(("current_priority"@, quoted(x), t));
}

/// The global settings read from one value are those of one reading step from empty ones.
proof fn lemma_defaults_values_single(e: (Seq<char>, Seq<char>, Option<Seq<char>>))
    ensures
        defaults_values(seq![e]) == defaults_step(empty_defaults(), e),
{
    let s = seq![e];
    assert(s.drop_last() =~= Seq::<(Seq<char>, Seq<char>, Option<Seq<char>>)>::empty());
    assert(defaults_values(Seq::<(Seq<char>, Seq<char>, Option<Seq<char>>)>::empty()) == Some(empty_defaults()));
    assert(s.last() == e);
}

/// The `Idle` profile takes the night lights from the global settings in dark hours, the
/// screensaver lights by day when the screensaver is on, and keeps its own lights
/// otherwise; it is named `Night` in dark hours and `Day` by day, and every other setting
/// of the section is kept.
pub proof fn lemma_idle_profile_lights(section: InstanceView, defaults: DefaultsView, dark: bool)
    ensures
        ({
            let r = idle_settings(section, defaults, dark);
            &&& dark ==> r.open_rgbprofile == defaults.night_hour_orgb_profile
                && r.signal_rgbprofile == defaults.night_hour_srgb_profile && r.game_window_name == "Night"@
            &&& !dark && section.game_or_win == "Yes"@ ==> r.open_rgbprofile == defaults.screensaver_orgb_profile
                && r.signal_rgbprofile == defaults.screensaver_srgb_profile && r.game_window_name == "Day"@
            &&& !dark && section.game_or_win != "Yes"@ ==> r.open_rgbprofile == section.open_rgbprofile
                && r.signal_rgbprofile == section.signal_rgbprofile && r.game_window_name == "Day"@
            &&& r.exe_name == section.exe_name && r.name_ofahk == section.name_ofahk
                && r.path_toahk == section.path_toahk && r.voice_attack_profile == section.voice_attack_profile
                && r.game_or_win == section.game_or_win && r.running == section.running
                && r.running_pid == section.running_pid && r.other_commands == section.other_commands
                && r.priority == section.priority
        }),
{
}

} // verus!

verus! {

/// Reading one more value after others is one more reading step.
pub proof fn lemma_section_values_push(s: Seq<(Seq<char>, Seq<char>, Option<Seq<char>>)>, e: (Seq<char>, Seq<char>, Option<Seq<char>>))
    ensures
        section_values(s.push(e)) == match section_values(s) {
            Some(v) => section_step(v, e),
            None => None,
        },
{
    assert(s.push(e).drop_last() =~= s);
    assert(s.push(e).last() == e);
}

/// Reading one more global value after others is one more reading step.
pub proof fn lemma_defaults_values_push(s: Seq<(Seq<char>, Seq<char>, Option<Seq<char>>)>, e: (Seq<char>, Seq<char>, Option<Seq<char>>))
    ensures
        defaults_values(s.push(e)) == match defaults_values(s) {
            Some(v) => defaults_step(v, e),
            None => None,
        },
{
    assert(s.push(e).drop_last() =~= s);
    assert(s.push(e).last() == e);
}

} // verus!
