use vstd::prelude::*;
use crate::registry::{
    add_write, defaults_template, defaults_template_spec, first_run_root, first_run_root_spec,
    general_initial, general_initial_spec, idle_initial, idle_initial_spec, root_write,
    section_template, section_template_spec, section_write, write_view, writes_view, RegWrite,
};
use crate::text::{owned, same_text};

verus! {

/// One step of preparing the registry: write a value, or create a section when it is
/// missing and then, only if it was missing, write its initial values.
pub enum RegStep {
    Write(RegWrite),
    EnsureSection { section: String, when_created: Vec<RegWrite> },
}

/// A step, as texts.
pub enum StepView {
    Write((Option<Seq<char>>, Seq<char>, Seq<char>)),
    Ensure(Seq<char>, Seq<(Option<Seq<char>>, Seq<char>, Seq<char>)>),
}

/// A step, as texts.
pub open spec fn step_view(s: RegStep) -> StepView {
    match s {
        RegStep::Write(w) => StepView::Write(write_view(w)),
        RegStep::EnsureSection { section, when_created } => StepView::Ensure(
            section@,
            writes_view(when_created@),
        ),
    }
}

/// Steps, as texts.
pub open spec fn steps_view(v: Seq<RegStep>) -> Seq<StepView> {
    v.map_values(|s: RegStep| step_view(s))
}

/// Plain writes as steps.
pub open spec fn as_steps(w: Seq<(Option<Seq<char>>, Seq<char>, Seq<char>)>) -> Seq<StepView> {
    w.map_values(|x: (Option<Seq<char>>, Seq<char>, Seq<char>)| StepView::Write(x))
}

/// What preparing the registry does: nothing when the monitor's key already existed;
/// when it was just created, its initial values, the `General`, `Idle` and `defaults`
/// sections (each filled only if it was missing), then the initial settings of
/// `General` and `Idle`.
pub open spec fn reg_check_spec(root_created: bool, install_dir: Seq<char>) -> Seq<StepView> {
    if !root_created {
        seq![]
    } else {
        as_steps(first_run_root_spec(install_dir)) + seq![
            StepView::Ensure("General"@, section_template_spec("General"@)),
            StepView::Ensure("Idle"@, section_template_spec("Idle"@)),
            StepView::Ensure("defaults"@, defaults_template_spec()),
        ] + as_steps(general_initial_spec()) + as_steps(idle_initial_spec())
    }
}

/// Appends plain writes as steps.
fn add_as_steps(v: &mut Vec<RegStep>, ws: Vec<RegWrite>)
    ensures
        steps_view(final(v)@) == steps_view(old(v)@) + as_steps(writes_view(ws@)),
{
    let ghost start = steps_view(v@);
    let mut i: usize = 0;
    while i < ws.len()
        invariant
            i <= ws.len(),
            steps_view(v@) == start + as_steps(writes_view(ws@.take(i as int))),
        decreases ws.len() - i,
    {
        let w = &ws[i];
        let step = RegStep::Write(RegWrite {
            section: match &w.section {
                Some(s) => Some(s.clone()),
                None => None,
            },
            name: w.name.clone(),
            value: w.value.clone(),
        });
        assert(step_view(step) == StepView::Write(write_view(ws@[i as int])));
        let ghost before = steps_view(v@);
        v.push(step);
        assert(steps_view(v@) =~= before.push(step_view(step)));
        assert(as_steps(writes_view(ws@.take(i + 1))) =~= as_steps(writes_view(ws@.take(i as int))).push(
            StepView::Write(write_view(ws@[i as int])),
        ));
        i = i + 1;
    }
    assert(ws@.take(ws.len() as int) =~= ws@);
}

/// Appends one step.
fn add_step(v: &mut Vec<RegStep>, s: RegStep)
    ensures
        steps_view(final(v)@) == steps_view(old(v)@).push(step_view(s)),
{
    v.push(s);
    assert(steps_view(v@) =~= steps_view(old(v)@).push(step_view(s)));
}

/// The steps that prepare the registry on first run (`root_created`: the monitor's key
/// was just created), `install_dir` being the working directory.
pub fn reg_check(root_created: bool, install_dir: &str) -> (v: Vec<RegStep>)
    ensures
        steps_view(v@) == reg_check_spec(root_created, install_dir@),
{
    let mut v: Vec<RegStep> = Vec::new();
    if !root_created {
        assert(steps_view(v@) =~= Seq::<StepView>::empty());
        return v;
    }
    add_as_steps(&mut v, first_run_root(install_dir));
    add_step(&mut v, RegStep::EnsureSection { section: owned("General"), when_created: section_template("General") });
    add_step(&mut v, RegStep::EnsureSection { section: owned("Idle"), when_created: section_template("Idle") });
    add_step(&mut v, RegStep::EnsureSection { section: owned("defaults"), when_created: defaults_template() });
    add_as_steps(&mut v, general_initial());
    add_as_steps(&mut v, idle_initial());
    assert(steps_view(v@) =~= reg_check_spec(root_created, install_dir@));
    v
}

/// The values written to mark every monitor as stopped: each section but `General` and
/// `defaults` gets `running` = `False` and `running_pid` = `0`; then the game flag is
/// cleared and `General` is marked running.
pub open spec fn reset_running_spec(sections: Seq<Seq<char>>) -> Seq<(Option<Seq<char>>, Seq<char>, Seq<char>)> {
    stop_marks(sections) + seq![
        (Some("defaults"@), "gameon"@, "False"@),
        (Some("General"@), "running"@, "True"@),
        (Some("General"@), "running_pid"@, "0"@),
    ]
}

/// The stop marks of the sections, in order.
pub open spec fn stop_marks(sections: Seq<Seq<char>>) -> Seq<(Option<Seq<char>>, Seq<char>, Seq<char>)>
    decreases sections.len(),
{
    if sections.len() == 0 {
        seq![]
    } else {
        let s = sections.last();
        let rest = stop_marks(sections.drop_last());
        if s == "General"@ || s == "defaults"@ {
            rest
        } else {
            rest + seq![(Some(s), "running"@, "False"@), (Some(s), "running_pid"@, "0"@)]
        }
    }
}

/// The values that mark every monitor as stopped, `sections` being the sections of the
/// monitor's key in enumeration order.
pub fn reset_running(sections: &Vec<String>) -> (v: Vec<RegWrite>)
    ensures
        writes_view(v@) == reset_running_spec(sections@.map_values(|s: String| s@)),
{
    let ghost names = sections@.map_values(|s: String| s@);
    let mut v: Vec<RegWrite> = Vec::new();
    let mut i: usize = 0;
    while i < sections.len()
        invariant
            i <= sections.len(),
            names == sections@.map_values(|s: String| s@),
            writes_view(v@) == stop_marks(names.take(i as int)),
        decreases sections.len() - i,
    {
        let s = sections[i].as_str();
        assert(names.take(i + 1).drop_last() =~= names.take(i as int));
        assert(names.take(i + 1).last() == s@);
        if !(same_text(s, "General") || same_text(s, "defaults")) {
            let ghost before = writes_view(v@);
            add_write(&mut v, section_write(s, "running", "False"));
            add_write(&mut v, section_write(s, "running_pid", "0"));
            assert(writes_view(v@) =~= before + seq![(Some(s@), "running"@, "False"@), (Some(s@), "running_pid"@, "0"@)]);
        }
        i = i + 1;
    }
    assert(names.take(sections.len() as int) =~= names);
    let ghost marks = writes_view(v@);
    add_write(&mut v, section_write("defaults", "gameon", "False"));
    add_write(&mut v, section_write("General", "running", "True"));
    add_write(&mut v, section_write("General", "running_pid", "0"));
    assert(writes_view(v@) =~= reset_running_spec(names));
    v
}

/// The value that records whether the user is idle.
pub fn idle_flag(idle: bool) -> (w: RegWrite)
    ensures
        write_view(w) == (None::<Seq<char>>, "idle"@, if idle { "true"@ } else { "false"@ }),
{
    if idle {
        root_write("idle", "true")
    } else {
        root_write("idle", "false")
    }
}

/// The value that records whether it is dark hours.
pub fn night_flag(dark: bool) -> (w: RegWrite)
    ensures
        write_view(w) == (None::<Seq<char>>, "night"@, if dark { "true"@ } else { "false"@ }),
{
    if dark {
        root_write("night", "true")
    } else {
        root_write("night", "false")
    }
}

/// The value that records whether the monitors are on.
pub fn display_flag(on: bool) -> (w: RegWrite)
    ensures
        write_view(w) == (None::<Seq<char>>, "display"@, if on { "on"@ } else { "off"@ }),
{
    if on {
        root_write("display", "on")
    } else {
        root_write("display", "off")
    }
}

/// The value recorded after switching the monitors on or off: the new state once the
/// message was sent, nothing when sending it failed.
pub fn display_record(on: bool, sent: &Result<(), String>) -> (r: Option<RegWrite>)
    ensures
        match r {
            Some(w) => sent is Ok && write_view(w) == (None::<Seq<char>>, "display"@, if on { "on"@ } else { "off"@ }),
            None => sent is Err,
        },
{
    match sent {
        Ok(()) => Some(display_flag(on)),
        Err(_) => None,
    }
}

/// The values written when the profile `sec` is activated with priority `priority`.
pub fn activation_writes(sec: &str, priority: &str) -> (v: Vec<RegWrite>)
    ensures
        writes_view(v@) == seq![
            (None::<Seq<char>>, "current_priority"@, priority@),
            (None::<Seq<char>>, "current_profile"@, sec@),
            (None::<Seq<char>>, "current_profile_activated"@, sec@),
        ],
{
    let mut v: Vec<RegWrite> = Vec::new();
    add_write(&mut v, root_write("current_priority", priority));
    add_write(&mut v, root_write("current_profile", sec));
    add_write(&mut v, root_write("current_profile_activated", sec));
    assert(writes_view(v@) =~= seq![
        (None::<Seq<char>>, "current_priority"@, priority@),
        (None::<Seq<char>>, "current_profile"@, sec@),
        (None::<Seq<char>>, "current_profile_activated"@, sec@),
    ]);
    v
}

} // verus!
