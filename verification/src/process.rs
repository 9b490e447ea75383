use vstd::prelude::*;
use sysinfo::{PidExt, ProcessExt, SystemExt};
use crate::text::{contains_seq, list_has, owned, same_text, str_contains};

verus! {

#[verifier::external_type_specification]
#[verifier::external_body]
pub struct ExSystem(sysinfo::System);

/// What the monitor reads of one running process.
pub struct ProcessRecord {
    pub pid: u32,
    pub parent: Option<u32>,
    pub name: String,
    pub cmd: Vec<String>,
}

/// `sysinfo::System::new`: an empty view of the machine, holding no process yet.
#[verifier::external_body]
fn system_new() -> sysinfo::System {
    sysinfo::System::new()
}

/// `sysinfo::System::new_all`: a view of the machine with everything refreshed.
#[verifier::external_body]
fn system_new_all() -> sysinfo::System {
    sysinfo::System::new_all()
}

/// `SystemExt::refresh_processes`: reads the process table of the machine anew.
#[verifier::external_body]
fn refresh_processes(system: &mut sysinfo::System) {
    system.refresh_processes()
}

/// `SystemExt::processes`: the processes that `system` holds, each as a record of its
/// pid, parent pid, name and command line. What the machine runs, and the order in
/// which the process map is walked, are left unsaid.
#[verifier::external_body]
fn process_records(system: &sysinfo::System) -> Vec<ProcessRecord> {
    system.processes().values().map(|p| ProcessRecord {
        pid: p.pid().as_u32(),
        parent: p.parent().map(|q| q.as_u32()),
        name: p.name().to_string(),
        cmd: p.cmd().to_vec(),
    }).collect()
}

/// The processes running now, in the order in which the process table was walked.
pub fn running_processes() -> Vec<ProcessRecord> {
    let mut system = system_new();
    refresh_processes(&mut system);
    process_records(&system)
}

/// The parent pids of the processes named exactly `name`, in table order, leaving
/// out processes whose parent is pid 0 or unknown.
pub open spec fn parent_candidates(procs: Seq<ProcessRecord>, name: Seq<char>) -> Seq<u32>
    decreases procs.len(),
{
    if procs.len() == 0 {
        seq![]
    } else {
        let rest = parent_candidates(procs.drop_last(), name);
        let p = procs.last();
        if p.name@ == name && p.parent is Some && p.parent->0 != 0 {
            rest.push(p.parent->0)
        } else {
            rest
        }
    }
}

/// The pid that `get_pid` reports for `name` among `procs`: the parent pid of the last
/// process of that name in table order.
pub open spec fn pid_outcome(procs: Seq<ProcessRecord>, name: Seq<char>) -> Result<u32, Seq<char>> {
    if name.len() == 0 {
        Err("No PID provided!"@)
    } else if parent_candidates(procs, name).len() == 0 {
        Err("Program Not Found!"@)
    } else {
        Ok(parent_candidates(procs, name).last())
    }
}

/// Looks `name` up among `procs` as `get_pid` does.
pub fn pid_from_processes(procs: &Vec<ProcessRecord>, name: &str) -> (r: Result<u32, String>)
    ensures
        match (r, pid_outcome(procs@, name@)) {
            (Ok(p), Ok(q)) => p == q,
            (Err(e), Err(f)) => e@ == f,
            _ => false,
        },
{
    if name.unicode_len() == 0 {
        return Err(owned("No PID provided!"));
    }
    let mut found: Option<u32> = None;
    let mut i: usize = 0;
    while i < procs.len()
        invariant
            i <= procs.len(),
            match found {
                None => parent_candidates(procs@.take(i as int), name@).len() == 0,
                Some(p) => parent_candidates(procs@.take(i as int), name@).len() > 0
                    && parent_candidates(procs@.take(i as int), name@).last() == p,
            },
        decreases procs.len() - i,
    {
        assert(procs@.take(i + 1).drop_last() =~= procs@.take(i as int));
        let p = &procs[i];
        if same_text(p.name.as_str(), name) {
            match p.parent {
                Some(q) => {
                    if q != 0 {
                        found = Some(q);
                    }
                },
                None => {},
            }
        }
        i = i + 1;
    }
    assert(procs@.take(procs.len() as int) =~= procs@);
    match found {
        Some(p) => Ok(p),
        None => Err(owned("Program Not Found!")),
    }
}

/// A lookup result, with its error as text.
pub open spec fn pid_result_view(r: Result<u32, String>) -> Result<u32, Seq<char>> {
    match r {
        Ok(p) => Ok(p),
        Err(e) => Err(e@),
    }
}

/// The pid of the parent of the last running process named exactly `pname`; an error
/// when `pname` is empty or when no such process with a known parent other than pid 0
/// runs. The answer is the lookup of `pid_from_processes` over the process table read
/// now.
pub fn get_pid(pname: &str) -> (r: Result<u32, String>)
    ensures
        exists|procs: Seq<ProcessRecord>| #[trigger] pid_outcome(procs, pname@) == pid_result_view(r),
        pname@.len() == 0 ==> (r matches Err(e) && e@ == "No PID provided!"@),
        pname@.len() > 0 ==> (r matches Err(e) ==> e@ == "Program Not Found!"@),
{
    if pname.unicode_len() == 0 {
        let r: Result<u32, String> = Err(owned("No PID provided!"));
        assert(pid_outcome(Seq::<ProcessRecord>::empty(), pname@) == pid_result_view(r));
        return r;
    }
    let procs = running_processes();
    let r = pid_from_processes(&procs, pname);
    assert(pid_outcome(procs@, pname@) == pid_result_view(r));
    r
}

/// Whether a process named `pname` with a parent is found among `procs`.
pub fn process_exists_in(procs: &Vec<ProcessRecord>, pname: &str) -> (r: bool)
    ensures
        r == pid_outcome(procs@, pname@) is Ok,
{
    match pid_from_processes(procs, pname) {
        Ok(_) => true,
        Err(_) => false,
    }
}

/// Whether a process named `pname` runs now (with a known parent), as `process_exists_in`
/// answers over the process table read now; never for the empty name.
pub fn process_exists(pname: &str) -> (r: bool)
    ensures
        exists|procs: Seq<ProcessRecord>| r == (#[trigger] pid_outcome(procs, pname@) is Ok),
        pname@.len() == 0 ==> !r,
{
    if pname.unicode_len() == 0 {
        assert(!(pid_outcome(Seq::<ProcessRecord>::empty(), pname@) is Ok));
        return false;
    }
    let procs = running_processes();
    let r = process_exists_in(&procs, pname);
    assert(r == (pid_outcome(procs@, pname@) is Ok));
    r
}

/// The answer of `is_any_process_running` over the process names `names`: the section
/// of the last entry of `exe_check` whose executable runs, or `(false, "None")`.
pub open spec fn running_outcome(names: Seq<Seq<char>>, exe_check: Seq<(Seq<char>, Seq<char>)>) -> (
    bool,
    Seq<char>,
)
    decreases exe_check.len(),
{
    if exe_check.len() == 0 {
        (false, "None"@)
    } else if names.contains(exe_check.last().0) {
        (true, exe_check.last().1)
    } else {
        running_outcome(names, exe_check.drop_last())
    }
}

/// The names of the processes, in order.
pub open spec fn names_of(procs: Seq<ProcessRecord>) -> Seq<Seq<char>> {
    procs.map_values(|p: ProcessRecord| p.name@)
}

/// The pairs of texts, as pairs of character sequences.
pub open spec fn pair_views(v: Seq<(String, String)>) -> Seq<(Seq<char>, Seq<char>)> {
    v.map_values(|p: (String, String)| (p.0@, p.1@))
}

/// `is_any_process_running` over the given processes.
pub fn running_in(procs: &Vec<ProcessRecord>, exe_check: &Vec<(String, String)>) -> (r: (bool, String))
    ensures
        (r.0, r.1@) == running_outcome(names_of(procs@), pair_views(exe_check@)),
{
    let mut names: Vec<String> = Vec::new();
    let mut k: usize = 0;
    while k < procs.len()
        invariant
            k <= procs.len(),
            names@.map_values(|x: String| x@) == names_of(procs@.take(k as int)),
        decreases procs.len() - k,
    {
        names.push(owned(procs[k].name.as_str()));
        assert(names_of(procs@.take(k + 1)) =~= names_of(procs@.take(k as int)).push(procs@[k as int].name@));
        assert(names@.map_values(|x: String| x@) =~= names_of(procs@.take(k + 1)));
        k = k + 1;
    }
    assert(procs@.take(procs.len() as int) =~= procs@);
    let ghost nv = names_of(procs@);
    let mut result: (bool, String) = (false, owned("None"));
    let mut i: usize = 0;
    while i < exe_check.len()
        invariant
            i <= exe_check.len(),
            names@.map_values(|x: String| x@) == nv,
            (result.0, result.1@) == running_outcome(nv, pair_views(exe_check@.take(i as int))),
        decreases exe_check.len() - i,
    {
        let ghost pv = pair_views(exe_check@.take(i + 1));
        assert(pv.drop_last() =~= pair_views(exe_check@.take(i as int)));
        assert(pv.last() == (exe_check@[i as int].0@, exe_check@[i as int].1@));
        let present = list_has(&names, &exe_check[i].0);
        assert(present == nv.contains(exe_check@[i as int].0@)) by {
            if present {
                let j = choose|j: int| 0 <= j < names@.len() && #[trigger] names@[j]@ == exe_check@[i as int].0@;
                assert(nv[j] == names@[j]@);
            }
            if nv.contains(exe_check@[i as int].0@) {
                let j = choose|j: int| 0 <= j < nv.len() && nv[j] == exe_check@[i as int].0@;
                assert(names@[j]@ == nv[j]);
            }
        }
        if present {
            result = (true, owned(exe_check[i].1.as_str()));
        }
        i = i + 1;
    }
    assert(exe_check@.take(exe_check.len() as int) =~= exe_check@);
    result
}

/// Whether an executable of `exe_check` runs now, and the section of the last one that does;
/// `(false, "None")` when none does. The answer is that of `running_in` over the names
/// of the processes running now.
pub fn is_any_process_running(exe_check: &Vec<(String, String)>) -> (r: (bool, String))
    ensures
        exists|names: Seq<Seq<char>>| #[trigger] running_outcome(names, pair_views(exe_check@)) == (r.0, r.1@),
        !r.0 ==> r.1@ == "None"@,
        r.0 ==> exists|i: int| 0 <= i < exe_check@.len() && #[trigger] exe_check@[i].1@ == r.1@,
{
    let procs = running_processes();
    let r = running_in(&procs, exe_check);
    assert(running_outcome(names_of(procs@), pair_views(exe_check@)) == (r.0, r.1@));
    proof {
        lemma_running_outcome_section(names_of(procs@), pair_views(exe_check@));
        if r.0 {
            let i = choose|i: int| 0 <= i < pair_views(exe_check@).len() && #[trigger] pair_views(exe_check@)[i].1 == r.1@;
            assert(exe_check@[i].1@ == r.1@);
        }
    }
    r
}

/// A running answer names a section of the list.
pub proof fn lemma_running_outcome_section(names: Seq<Seq<char>>, exe_check: Seq<(Seq<char>, Seq<char>)>)
    ensures
        !running_outcome(names, exe_check).0 ==> running_outcome(names, exe_check).1 == "None"@,
        running_outcome(names, exe_check).0 ==> exists|i: int| 0 <= i < exe_check.len()
            && #[trigger] exe_check[i].1 == running_outcome(names, exe_check).1,
    decreases exe_check.len(),
{
    if exe_check.len() > 0 {
        lemma_running_outcome_section(names, exe_check.drop_last());
        if running_outcome(names, exe_check).0 && !names.contains(exe_check.last().0) {
            let i = choose|i: int| 0 <= i < exe_check.drop_last().len()
                && #[trigger] exe_check.drop_last()[i].1 == running_outcome(names, exe_check).1;
            assert(exe_check[i] == exe_check.drop_last()[i]);
        }
    }
}

} // verus!

verus! {

/// The pid of the first `AutoHotkey.exe` process, in table order, whose last command line
/// argument contains `ahk`; processes with an empty command line do not match.
pub open spec fn ahk_pid_outcome(procs: Seq<ProcessRecord>, ahk: Seq<char>) -> Option<u32>
    decreases procs.len(),
{
    if procs.len() == 0 {
        None
    } else {
        let p = procs[0];
        if p.name@ == "AutoHotkey.exe"@ && p.cmd@.len() > 0 && contains_seq(p.cmd@.last()@, ahk) {
            Some(p.pid)
        } else {
            ahk_pid_outcome(procs.drop_first(), ahk)
        }
    }
}

/// Finds the AutoHotkey process running the script `ahk` among `procs`.
pub fn ahk_pid_in(procs: &Vec<ProcessRecord>, ahk: &str) -> (r: Result<u32, String>)
    ensures
        match ahk_pid_outcome(procs@, ahk@) {
            Some(p) => r == Ok::<u32, String>(p),
            None => r matches Err(e) && e@ == "NONE"@,
        },
{
    let mut i: usize = 0;
    assert(procs@.skip(0) =~= procs@);
    while i < procs.len()
        invariant
            i <= procs.len(),
            ahk_pid_outcome(procs@, ahk@) == ahk_pid_outcome(procs@.skip(i as int), ahk@),
        decreases procs.len() - i,
    {
        let p = &procs[i];
        assert(procs@.skip(i as int)[0] == procs@[i as int]);
        assert(procs@.skip(i as int).drop_first() =~= procs@.skip(i + 1));
        if same_text(p.name.as_str(), "AutoHotkey.exe") && p.cmd.len() > 0 {
            let last = &p.cmd[p.cmd.len() - 1];
            if str_contains(last.as_str(), ahk) {
                return Ok(p.pid);
            }
        }
        i = i + 1;
    }
    assert(procs@.skip(i as int) =~= Seq::<ProcessRecord>::empty());
    Err(owned("NONE"))
}

/// The pid of an AutoHotkey process now running the script `ahk`, or the error `"NONE"`:
/// the answer of `ahk_pid_in` over the process table read now.
pub fn get_ahk_pid(ahk: &str) -> (r: Result<u32, String>)
    ensures
        exists|procs: Seq<ProcessRecord>| match #[trigger] ahk_pid_outcome(procs, ahk@) {
            Some(p) => r == Ok::<u32, String>(p),
            None => r matches Err(e) && e@ == "NONE"@,
        },
        r matches Err(e) ==> e@ == "NONE"@,
{
    let system = system_new_all();
    let procs = process_records(&system);
    let r = ahk_pid_in(&procs, ahk);
    assert(match ahk_pid_outcome(procs@, ahk@) {
        Some(p) => r == Ok::<u32, String>(p),
        None => r matches Err(e) && e@ == "NONE"@,
    });
    r
}

/// Which processes closing the script `ahk` concerns: whether any process with
/// `AutoHotkey` in its name runs, and the pids of those whose command line has `ahk`
/// as one of its arguments, in table order.
pub open spec fn ahk_close_targets(procs: Seq<ProcessRecord>, ahk: Seq<char>) -> (bool, Seq<u32>)
    decreases procs.len(),
{
    if procs.len() == 0 {
        (false, seq![])
    } else {
        let rest = ahk_close_targets(procs.drop_first(), ahk);
        let p = procs[0];
        if contains_seq(p.name@, "AutoHotkey"@) {
            if exists|j: int| 0 <= j < p.cmd@.len() && #[trigger] p.cmd@[j]@ == ahk {
                (true, seq![p.pid] + rest.1)
            } else {
                (true, rest.1)
            }
        } else {
            rest
        }
    }
}

/// The AutoHotkey windows to close for the script `ahk` among `procs`.
pub fn ahk_targets_in(procs: &Vec<ProcessRecord>, ahk: &String) -> (r: (bool, Vec<u32>))
    ensures
        (r.0, r.1@) == ahk_close_targets(procs@, ahk@),
{
    let mut any = false;
    let mut targets: Vec<u32> = Vec::new();
    let mut i: usize = procs.len();
    while i > 0
        invariant
            i <= procs.len(),
            (any, targets@) == ahk_close_targets(procs@.skip(i as int), ahk@),
        decreases i,
    {
        i = i - 1;
        let p = &procs[i];
        assert(procs@.skip(i as int)[0] == procs@[i as int]);
        assert(procs@.skip(i as int).drop_first() =~= procs@.skip(i + 1));
        if str_contains(p.name.as_str(), "AutoHotkey") {
            any = true;
            if list_has(&p.cmd, ahk) {
                let mut next: Vec<u32> = Vec::new();
                next.push(p.pid);
                next.append(&mut targets);
                targets = next;
            }
        }
    }
    assert(procs@.skip(0) =~= procs@);
    (any, targets)
}

/// Without an AutoHotkey process there is nothing to close.
pub proof fn lemma_no_autohotkey_no_target(procs: Seq<ProcessRecord>, ahk: Seq<char>)
    ensures
        !ahk_close_targets(procs, ahk).0 ==> ahk_close_targets(procs, ahk).1.len() == 0,
    decreases procs.len(),
{
    if procs.len() > 0 {
        lemma_no_autohotkey_no_target(procs.drop_first(), ahk);
    }
}

/// Whether the first process of `procs` with the pid `active_pid` is named `process_name`
/// (a pid that is not found is not active).
pub open spec fn active_in(procs: Seq<ProcessRecord>, active_pid: u32, process_name: Seq<char>) -> bool {
    exists|i: int|
        0 <= i < procs.len() && #[trigger] procs[i].pid == active_pid && procs[i].name@ == process_name
            && forall|j: int| 0 <= j < i ==> procs[j].pid != active_pid
}

/// Whether the process `active_pid` is named `process_name` among `procs`
/// (a pid that is not found is not active).
pub fn window_is_active_in(procs: &Vec<ProcessRecord>, active_pid: u32, process_name: &str) -> (r: bool)
    ensures
        r == active_in(procs@, active_pid, process_name@),
{
    let mut i: usize = 0;
    while i < procs.len()
        invariant
            i <= procs.len(),
            forall|j: int| 0 <= j < i ==> procs@[j].pid != active_pid,
        decreases procs.len() - i,
    {
        if procs[i].pid == active_pid {
            let same = same_text(procs[i].name.as_str(), process_name);
            proof {
                if !same {
                    assert forall|k: int|
                        0 <= k < procs@.len() && #[trigger] procs@[k].pid == active_pid && procs@[k].name@
                            == process_name@ implies exists|j: int| 0 <= j < k && procs@[j].pid == active_pid by {
                        if k > i {
                            assert(procs@[i as int].pid == active_pid);
                        }
                    }
                }
            }
            return same;
        }
        i = i + 1;
    }
    false
}

/// Whether the process owning the active window, `active_pid`, is named `process_name`:
/// the answer of `window_is_active_in` over the process table read now.
pub fn window_is_active(active_pid: u32, process_name: &str) -> (r: bool)
    ensures
        exists|procs: Seq<ProcessRecord>| r == #[trigger] active_in(procs, active_pid, process_name@),
{
    let procs = running_processes();
    let r = window_is_active_in(&procs, active_pid, process_name);
    assert(r == active_in(procs@, active_pid, process_name@));
    r
}

} // verus!

verus! {

/// The answer on running games: it is yes exactly when the executable of some entry of
/// `exe_check` is among the running names, and then it names the section of the last such
/// entry; otherwise it is `(false, "None")`.
pub proof fn lemma_running_answer(names: Seq<Seq<char>>, exe_check: Seq<(Seq<char>, Seq<char>)>)
    ensures
        running_outcome(names, exe_check).0 <==> exists|i: int|
            0 <= i < exe_check.len() && names.contains(#[trigger] exe_check[i].0),
        running_outcome(names, exe_check).0 ==> exists|i: int|
            0 <= i < exe_check.len() && names.contains(#[trigger] exe_check[i].0) && exe_check[i].1
                == running_outcome(names, exe_check).1 && forall|j: int|
                i < j < exe_check.len() ==> !names.contains(#[trigger] exe_check[j].0),
        !running_outcome(names, exe_check).0 ==> running_outcome(names, exe_check).1 == "None"@,
    decreases exe_check.len(),
{
    if exe_check.len() > 0 {
        let rest = exe_check.drop_last();
        let n = exe_check.len() - 1;
        lemma_running_answer(names, rest);
        if names.contains(exe_check.last().0) {
            assert(exe_check[n] == exe_check.last());
            assert(names.contains(exe_check[n].0));
        } else {
            assert(!names.contains(exe_check[n].0));
            if running_outcome(names, rest).0 {
                let i = choose|i: int|
                    0 <= i < rest.len() && names.contains(#[trigger] rest[i].0) && rest[i].1 == running_outcome(
                        names,
                        rest,
                    ).1 && forall|j: int| i < j < rest.len() ==> !names.contains(#[trigger] rest[j].0);
                assert(exe_check[i] == rest[i]);
                assert forall|j: int| i < j < exe_check.len() implies !names.contains(#[trigger] exe_check[j].0) by {
                    if j < n {
                        assert(exe_check[j] == rest[j]);
                    }
                }
            } else {
                assert forall|i: int| 0 <= i < exe_check.len() implies !names.contains(#[trigger] exe_check[i].0) by {
                    if i < n {
                        assert(exe_check[i] == rest[i]);
                    }
                }
            }
        }
    }
}

/// A process that the pid lookup accepts: named `name`, with a known parent other than pid 0.
pub open spec fn pid_match(p: ProcessRecord, name: Seq<char>) -> bool {
    p.name@ == name && p.parent is Some && p.parent->0 != 0
}

/// The pid lookup: an error for the empty name; otherwise the parent pid of the last
/// process named `name` whose parent is known and not pid 0, or an error when there is
/// none.
pub proof fn lemma_pid_answer(procs: Seq<ProcessRecord>, name: Seq<char>)
    ensures
        name.len() == 0 ==> pid_outcome(procs, name) == Err::<u32, Seq<char>>("No PID provided!"@),
        name.len() > 0 ==> (pid_outcome(procs, name) is Err <==> forall|i: int|
            0 <= i < procs.len() ==> !pid_match(#[trigger] procs[i], name)),
        pid_outcome(procs, name) matches Ok(p) ==> exists|i: int|
            0 <= i < procs.len() && pid_match(#[trigger] procs[i], name) && procs[i].parent == Some(p) && forall|j: int|
                i < j < procs.len() ==> !pid_match(#[trigger] procs[j], name),
        name.len() > 0 ==> (pid_outcome(procs, name) matches Err(e) ==> e == "Program Not Found!"@),
{
    lemma_parent_candidates(procs, name);
}

/// The parent candidates are empty exactly without a matching process, and the last one
/// is the parent of the last matching process.
proof fn lemma_parent_candidates(procs: Seq<ProcessRecord>, name: Seq<char>)
    ensures
        parent_candidates(procs, name).len() == 0 <==> forall|i: int|
            0 <= i < procs.len() ==> !pid_match(#[trigger] procs[i], name),
        parent_candidates(procs, name).len() > 0 ==> exists|i: int|
            0 <= i < procs.len() && pid_match(#[trigger] procs[i], name) && procs[i].parent
                == Some(parent_candidates(procs, name).last()) && forall|j: int|
                i < j < procs.len() ==> !pid_match(#[trigger] procs[j], name),
    decreases procs.len(),
{
    if procs.len() > 0 {
        let rest = procs.drop_last();
        let n = procs.len() - 1;
        lemma_parent_candidates(rest, name);
        assert(procs[n] == procs.last());
        if pid_match(procs.last(), name) {
            assert(pid_match(procs[n], name));
        } else {
            assert(!pid_match(procs[n], name));
            if parent_candidates(rest, name).len() > 0 {
                let i = choose|i: int|
                    0 <= i < rest.len() && pid_match(#[trigger] rest[i], name) && rest[i].parent == Some(
                        parent_candidates(rest, name).last(),
                    ) && forall|j: int| i < j < rest.len() ==> !pid_match(#[trigger] rest[j], name);
                assert(procs[i] == rest[i]);
                assert forall|j: int| i < j < procs.len() implies !pid_match(#[trigger] procs[j], name) by {
                    if j < n {
                        assert(procs[j] == rest[j]);
                    }
                }
            } else {
                assert forall|i: int| 0 <= i < procs.len() implies !pid_match(#[trigger] procs[i], name) by {
                    if i < n {
                        assert(procs[i] == rest[i]);
                    }
                }
            }
        }
    }
}

} // verus!
