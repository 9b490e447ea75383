use vstd::prelude::*;
use crate::registry::{add_write, root_write, section_write, writes_view, RegWrite};
use crate::text::{
    concat, contains_seq, find_from, join_with, lemma_find_from, lemma_join_with_push, lemma_split_from_shift, occurs_at,
    lemma_join_split_from, lemma_replace_from_is_join, lemma_split_occurring, lemma_split_pieces_lack, owned,
    replace_str, same_text, split_on, split_str, str_contains, str_replace,
};

verus! {

/// How running a shell command went: it exited with a code, or it could not be started
/// (with the error's message).
pub enum CommandOutcome {
    Exited(i32),
    NotStarted(String),
}

/// The separator between the commands of a command list.
pub open spec fn command_separator() -> Seq<char> {
    " && "@
}

/// The report on a command that ran: its text, whether it succeeded, and its standard
/// streams (which are not captured).
pub open spec fn command_run_text(cmd: Seq<char>, success: bool) -> Seq<char> {
    "\n--------------------\n"@ + cmd + (if success {
        "\nSUCCESS!"@
    } else {
        "\nERROR!"@
    }) + "\nstdin: None\nstdout: None\nstderr: None\n"@
}

/// The report on a command that could not be started.
pub open spec fn command_not_started_text(cmd: Seq<char>, error: Seq<char>) -> Seq<char> {
    "Could not run "@ + cmd + ": "@ + error + "\n"@
}

/// The report on a command: a success report for exit code 0, an error report for another
/// code or when it could not start.
pub open spec fn run_cmd_outcome(cmd: Seq<char>, outcome: CommandOutcome) -> Result<Seq<char>, Seq<char>> {
    match outcome {
        CommandOutcome::Exited(code) => if code == 0 {
            Ok(command_run_text(cmd, true))
        } else {
            Err(command_run_text(cmd, false))
        },
        CommandOutcome::NotStarted(e) => Err(command_not_started_text(cmd, e@)),
    }
}

/// The report text on a command that ran.
fn command_run_report(cmd: &str, success: bool) -> (r: String)
    ensures
        r@ == command_run_text(cmd@, success),
{
    let head = concat("\n--------------------\n", cmd);
    let mid = if success {
        concat(head.as_str(), "\nSUCCESS!")
    } else {
        concat(head.as_str(), "\nERROR!")
    };
    concat(mid.as_str(), "\nstdin: None\nstdout: None\nstderr: None\n")
}

/// The report text on a command that could not be started.
fn command_not_started_report(cmd: &str, error: &str) -> (r: String)
    ensures
        r@ == command_not_started_text(cmd@, error@),
{
    let a = concat("Could not run ", cmd);
    let b = concat(a.as_str(), ": ");
    let c = concat(b.as_str(), error);
    concat(c.as_str(), "\n")
}

/// The report on running the shell command `cmd`, given how it went.
pub fn run_cmd_report(cmd: &str, outcome: &CommandOutcome) -> (r: Result<String, String>)
    ensures
        match (r, run_cmd_outcome(cmd@, *outcome)) {
            (Ok(a), Ok(b)) => a@ == b,
            (Err(a), Err(b)) => a@ == b,
            _ => false,
        },
{
    match outcome {
        CommandOutcome::Exited(code) => {
            if *code == 0 {
                Ok(command_run_report(cmd, true))
            } else {
                Err(command_run_report(cmd, false))
            }
        },
        CommandOutcome::NotStarted(e) => Err(command_not_started_report(cmd, e.as_str())),
    }
}

/// The report on one of the other commands of a profile, given how it went.
pub fn other_command_report(cmd: &str, outcome: &CommandOutcome) -> (r: String)
    ensures
        r@ == match run_cmd_outcome(cmd@, *outcome) {
            Ok(t) => t,
            Err(t) => t,
        },
{
    match run_cmd_report(cmd, outcome) {
        Ok(t) => t,
        Err(t) => t,
    }
}

/// How the other commands of a profile are run.
pub struct OtherCommandsPlan {
    /// The commands, in order.
    pub commands: Vec<String>,
    /// How many times (every 10 ms) the foreground window is put back in front.
    pub focus_ticks: u128,
    /// Whether the foreground window is kept in front while the commands start.
    pub keep_focus: bool,
    /// Whether to stop starting commands once the user is no longer idle.
    pub stop_when_active: bool,
    /// The values to write before the commands start.
    pub writes: Vec<RegWrite>,
    /// The first line of the report.
    pub header: String,
}

/// The number of 10 ms ticks during which the foreground window is kept in front
/// while `n` commands start.
pub open spec fn focus_ticks_for(n: nat) -> nat {
    if n > 1 {
        n * 100
    } else {
        n * 200
    }
}

/// The first line of the report on running the other commands of `section`.
pub open spec fn other_commands_header(section: Seq<char>) -> Seq<char> {
    if section == "General"@ {
        "\n_____Running General Commands_____\n"@
    } else if section == "Idle"@ {
        "\n_____Running Idle Commands_____\n"@
    } else {
        "\n_____Running "@ + section + " Commands_____\n"@
    }
}

/// Plans running the other commands of the profile `section` (its command list
/// `other_commands`): nothing when they were the last ones run (`last_other_commands`)
/// or when there are none; otherwise the commands separated by ` && `, the focus
/// keeping (for a profile other than `General` and `Idle` that applies to a window,
/// `window_kind` not being `Game`), and the record of what ran.
pub fn run_other_commands(
    section: &str,
    other_commands: &str,
    last_other_commands: &str,
    window_kind: &str,
) -> (r: Option<OtherCommandsPlan>)
    ensures
        r is None <==> (last_other_commands@ == section@ || other_commands@.len() == 0),
        r matches Some(plan) ==> {
            &&& plan.commands@.map_values(|x: String| x@) == split_on(other_commands@, command_separator())
            &&& plan.focus_ticks == focus_ticks_for(plan.commands@.len())
            &&& plan.keep_focus == (section@ != "General"@ && section@ != "Idle"@ && window_kind@ != "Game"@)
            &&& plan.stop_when_active == (section@ == "Idle"@)
            &&& writes_view(plan.writes@) == seq![
                (Some("General"@), "running_pid"@, "0"@),
                (None::<Seq<char>>, "last_other_commands"@, section@),
            ]
            &&& plan.header@ == other_commands_header(section@)
        },
{
    if same_text(last_other_commands, section) {
        return None;
    }
    if other_commands.unicode_len() == 0 {
        return None;
    }
    proof {
        reveal_strlit(" && ");
    }
    let commands = split_str(other_commands, " && ");
    let n = commands.len() as u128;
    let focus_ticks = if n > 1 {
        n * 100
    } else {
        n * 200
    };
    let keep_focus = !same_text(section, "General") && !same_text(section, "Idle") && !same_text(
        window_kind,
        "Game",
    );
    let mut writes: Vec<RegWrite> = Vec::new();
    add_write(&mut writes, section_write("General", "running_pid", "0"));
    add_write(&mut writes, root_write("last_other_commands", section));
    assert(writes_view(writes@) =~= seq![
        (Some("General"@), "running_pid"@, "0"@),
        (None::<Seq<char>>, "last_other_commands"@, section@),
    ]);
    let header = if same_text(section, "General") {
        owned("\n_____Running General Commands_____\n")
    } else if same_text(section, "Idle") {
        owned("\n_____Running Idle Commands_____\n")
    } else {
        let a = concat("\n_____Running ", section);
        concat(a.as_str(), " Commands_____\n")
    };
    Some(OtherCommandsPlan {
        commands,
        focus_ticks,
        keep_focus,
        stop_when_active: same_text(section, "Idle"),
        writes,
        header,
    })
}

/// The placeholder that stands in a command list for the command being edited.
pub open spec fn editing_marker() -> Seq<char> {
    "--EDITING--"@
}

/// The commands of a command list, as the settings window lists them: none for the empty
/// list, otherwise the pieces between the separators.
pub open spec fn command_items(other_commands: Seq<char>) -> Seq<Seq<char>> {
    if other_commands.len() == 0 {
        seq![]
    } else {
        split_on(other_commands, command_separator())
    }
}

/// The commands of a command list, in order.
pub fn command_list(other_commands: &str) -> (r: Vec<String>)
    ensures
        r@.map_values(|x: String| x@) == command_items(other_commands@),
{
    if other_commands.unicode_len() == 0 {
        let r: Vec<String> = Vec::new();
        assert(r@.map_values(|x: String| x@) =~= Seq::<Seq<char>>::empty());
        return r;
    }
    proof {
        reveal_strlit(" && ");
    }
    split_str(other_commands, " && ")
}

/// The command list after adding `new_cmd`: it takes the place of the command being
/// edited when there is one; it is the whole list when the list was empty; otherwise it
/// is appended after a separator.
pub open spec fn added_command(reg_cmds: Seq<char>, new_cmd: Seq<char>) -> Seq<char> {
    if contains_seq(reg_cmds, editing_marker()) {
        str_replace(reg_cmds, editing_marker(), new_cmd)
    } else if reg_cmds.len() == 0 {
        new_cmd
    } else {
        reg_cmds + command_separator() + new_cmd
    }
}

/// Adds `new_cmd` to the command list `reg_cmds`.
pub fn add_command(reg_cmds: &str, new_cmd: &str) -> (r: String)
    ensures
        r@ == added_command(reg_cmds@, new_cmd@),
{
    if str_contains(reg_cmds, "--EDITING--") {
        replace_str(reg_cmds, "--EDITING--", new_cmd)
    } else if reg_cmds.unicode_len() == 0 {
        owned(new_cmd)
    } else {
        let a = concat(reg_cmds, " && ");
        concat(a.as_str(), new_cmd)
    }
}

/// The command list after deleting `cmd`: every occurrence of `cmd` followed by a separator
/// is removed when there is one; otherwise every occurrence of `cmd`; otherwise the list
/// is kept.
pub open spec fn deleted_command(haystack: Seq<char>, cmd: Seq<char>) -> Seq<char> {
    let needle = cmd + command_separator();
    if contains_seq(haystack, needle) {
        str_replace(haystack, needle, seq![])
    } else if contains_seq(haystack, cmd) {
        str_replace(haystack, cmd, seq![])
    } else {
        haystack
    }
}

/// Deletes the command `cmd` from the command list `haystack`.
pub fn delete_command(haystack: &str, cmd: &str) -> (r: String)
    ensures
        r@ == deleted_command(haystack@, cmd@),
{
    proof {
        reveal_strlit("");
        assert(""@ =~= Seq::<char>::empty());
    }
    let needle = concat(cmd, " && ");
    if str_contains(haystack, needle.as_str()) {
        replace_str(haystack, needle.as_str(), "")
    } else if str_contains(haystack, cmd) {
        replace_str(haystack, cmd, "")
    } else {
        owned(haystack)
    }
}

/// Starts editing the command `cmd` of the command list `haystack`: the list with every
/// occurrence of `cmd` replaced by the editing placeholder, or none (the list is kept)
/// when `cmd` does not occur in it.
pub fn begin_edit_command(haystack: &str, cmd: &str) -> (r: Option<String>)
    ensures
        match r {
            Some(t) => contains_seq(haystack@, cmd@) && t@ == str_replace(haystack@, cmd@, editing_marker()),
            None => !contains_seq(haystack@, cmd@),
        },
{
    if str_contains(haystack, cmd) {
        Some(replace_str(haystack, cmd, "--EDITING--"))
    } else {
        None
    }
}

} // verus!

verus! {

/// A text without the character `&`.
pub open spec fn amp_free(x: Seq<char>) -> bool {
    forall|i: int| 0 <= i < x.len() ==> x[i] != '&'
}

/// The separator's characters.
proof fn lemma_separator_chars()
    ensures
        command_separator() == seq![' ', '&', '&', ' '],
{
    reveal_strlit(" && ");
    assert(" && "@ =~= seq![' ', '&', '&', ' ']);
}

/// The separator does not occur where its first `&` would fall on a character that is
/// not `&`.
proof fn lemma_no_separator_at(s: Seq<char>, q: int)
    requires
        0 <= q,
        q + 1 < s.len() ==> s[q + 1] != '&',
    ensures
        !occurs_at(s, command_separator(), q),
{
    lemma_separator_chars();
    if occurs_at(s, command_separator(), q) {
        assert(s.subrange(q, q + 4)[1] == s[q + 1]);
    }
}

/// A text without `&` is one piece.
proof fn lemma_split_amp_free(x: Seq<char>)
    requires
        amp_free(x),
    ensures
        split_on(x, command_separator()) == seq![x],
{
    lemma_separator_chars();
    lemma_find_from(x, command_separator(), 0);
    if find_from(x, command_separator(), 0) != -1 {
        let q = find_from(x, command_separator(), 0);
        lemma_no_separator_at(x, q);
    }
    assert(x.subrange(0, x.len() as int) =~= x);
}

/// Searching from a position within a text without `&`, the first separator found is the
/// one right after that text.
proof fn lemma_first_separator_from(x: Seq<char>, j: Seq<char>, i: int)
    requires
        amp_free(x),
        0 <= i <= x.len(),
    ensures
        find_from(x + command_separator() + j, command_separator(), i) == x.len(),
    decreases x.len() - i,
{
    let sep = command_separator();
    lemma_separator_chars();
    let s = x + sep + j;
    let x_len = x.len() as int;
    if i == x_len {
        assert(s.subrange(x_len, x_len + 4) =~= sep);
    } else {
        if i + 1 < x_len {
            assert(s[i + 1] == x[i + 1]);
        } else {
            assert(s[i + 1] == sep[0]);
        }
        lemma_no_separator_at(s, i);
        lemma_first_separator_from(x, j, i + 1);
    }
}

/// Splitting a text without `&` followed by the separator and more gives the text, then
/// the pieces of the rest.
proof fn lemma_split_after_first(x: Seq<char>, j: Seq<char>)
    requires
        amp_free(x),
    ensures
        split_on(x + command_separator() + j, command_separator()) == seq![x] + split_on(j, command_separator()),
{
    let sep = command_separator();
    lemma_separator_chars();
    let s = x + sep + j;
    lemma_first_separator_from(x, j, 0);
    assert(s.subrange(0, x.len() as int) =~= x);
    assert(s == (x + sep) + j);
    lemma_split_from_shift(x + sep, j, sep, 0);
}

/// Commands without `&` joined with the separator split back into the same commands.
proof fn lemma_split_join(items: Seq<Seq<char>>)
    requires
        items.len() > 0,
        forall|i: int| 0 <= i < items.len() ==> amp_free(#[trigger] items[i]),
    ensures
        split_on(join_with(items, command_separator()), command_separator()) == items,
    decreases items.len(),
{
    let sep = command_separator();
    if items.len() == 1 {
        assert(amp_free(items[0]));
        lemma_split_amp_free(items[0]);
        assert(items =~= seq![items[0]]);
    } else {
        let x = items[0];
        let rest = items.drop_first();
        assert(amp_free(x));
        assert forall|i: int| 0 <= i < rest.len() implies amp_free(#[trigger] rest[i]) by {
            assert(rest[i] == items[i + 1]);
        }
        assert(join_with(items, sep) == x + sep + join_with(rest, sep));
        lemma_split_after_first(x, join_with(rest, sep));
        lemma_split_join(rest);
        assert(items =~= seq![x] + rest);
    }
}

/// A list of commands written with ` && ` between them lists the same commands again,
/// when every command is non-empty and holds no `&`.
pub proof fn lemma_command_list_round_trip(items: Seq<Seq<char>>)
    requires
        forall|i: int| 0 <= i < items.len() ==> (#[trigger] items[i]).len() > 0 && amp_free(items[i]),
    ensures
        command_items(join_with(items, command_separator())) == items,
{
    if items.len() == 0 {
        assert(command_items(join_with(items, command_separator())) =~= items);
    } else {
        assert(items[0].len() > 0);
        if items.len() > 1 {
            assert(join_with(items, command_separator()) == items[0] + command_separator() + join_with(
                items.drop_first(),
                command_separator(),
            ));
        }
        assert(join_with(items, command_separator()).len() > 0);
        assert forall|i: int| 0 <= i < items.len() implies amp_free(#[trigger] items[i]) by {
            assert(items[i].len() > 0 && amp_free(items[i]));
        }
        lemma_split_join(items);
    }
}

/// Adding a command to a list that is not being edited lists it after the others, when
/// every command is non-empty and holds no `&`.
pub proof fn lemma_add_command_appends(items: Seq<Seq<char>>, new_cmd: Seq<char>)
    requires
        forall|i: int| 0 <= i < items.len() ==> (#[trigger] items[i]).len() > 0 && amp_free(items[i]),
        new_cmd.len() > 0,
        amp_free(new_cmd),
        !contains_seq(join_with(items, command_separator()), editing_marker()),
    ensures
        command_items(added_command(join_with(items, command_separator()), new_cmd)) == items.push(new_cmd),
{
    let sep = command_separator();
    let reg = join_with(items, sep);
    lemma_join_with_push(items, sep, new_cmd);
    if items.len() == 0 {
        assert(reg.len() == 0);
        assert(added_command(reg, new_cmd) == new_cmd);
    } else {
        assert(items[0].len() > 0);
        if items.len() > 1 {
            assert(reg == items[0] + sep + join_with(items.drop_first(), sep));
        }
        assert(reg.len() > 0);
        assert(added_command(reg, new_cmd) == reg + sep + new_cmd);
    }
    let all = items.push(new_cmd);
    assert forall|i: int| 0 <= i < all.len() implies (#[trigger] all[i]).len() > 0 && amp_free(all[i]) by {
        if i < items.len() {
            assert(all[i] == items[i]);
        }
    }
    lemma_command_list_round_trip(all);
}

} // verus!

verus! {

/// The word inside the editing placeholder.
pub open spec fn editing_word() -> Seq<char> {
    "EDITING"@
}

/// The characters of the placeholder and of its word.
proof fn lemma_marker_chars()
    ensures
        editing_marker() == seq!['-', '-', 'E', 'D', 'I', 'T', 'I', 'N', 'G', '-', '-'],
        editing_word() == seq!['E', 'D', 'I', 'T', 'I', 'N', 'G'],
{
    reveal_strlit("--EDITING--");
    reveal_strlit("EDITING");
    assert("--EDITING--"@ =~= seq!['-', '-', 'E', 'D', 'I', 'T', 'I', 'N', 'G', '-', '-']);
    assert("EDITING"@ =~= seq!['E', 'D', 'I', 'T', 'I', 'N', 'G']);
}

/// The placeholder does not start inside a text without the word, when the placeholder
/// follows that text.
proof fn lemma_no_marker_at(x: Seq<char>, j: Seq<char>, i: int)
    requires
        !contains_seq(x, editing_word()),
        0 <= i < x.len(),
    ensures
        !occurs_at(x + editing_marker() + j, editing_marker(), i),
{
    lemma_marker_chars();
    let m = editing_marker();
    let g = editing_word();
    let s = x + m + j;
    let x_len = x.len() as int;
    if occurs_at(s, m, i) {
        let w = s.subrange(i, i + 11);
        assert(w == m);
        if i + 9 <= x_len {
            assert forall|k: int| 0 <= k < 7 implies x.subrange(i + 2, i + 9)[k] == g[k] by {
                assert(x.subrange(i + 2, i + 9)[k] == x[i + 2 + k]);
                assert(s[i + 2 + k] == x[i + 2 + k]);
                assert(w[2 + k] == s[i + 2 + k]);
            }
            assert(x.subrange(i + 2, i + 9) =~= g);
            assert(occurs_at(x, g, i + 2));
        } else {
            let d = x_len - i;
            assert(s[x_len + 2] == m[2]);
            assert(w[d + 2] == s[x_len + 2]);
        }
    }
}

/// Searching from a position within a text without the word, the first placeholder found
/// is the one right after that text.
proof fn lemma_first_marker_from(x: Seq<char>, j: Seq<char>, i: int)
    requires
        !contains_seq(x, editing_word()),
        0 <= i <= x.len(),
    ensures
        find_from(x + editing_marker() + j, editing_marker(), i) == x.len(),
    decreases x.len() - i,
{
    lemma_marker_chars();
    let m = editing_marker();
    let s = x + m + j;
    let x_len = x.len() as int;
    if i == x_len {
        assert(s.subrange(x_len, x_len + 11) =~= m);
    } else {
        lemma_no_marker_at(x, j, i);
        lemma_first_marker_from(x, j, i + 1);
    }
}

/// A text without the word is one piece when split on the placeholder.
proof fn lemma_split_without_word(x: Seq<char>)
    requires
        !contains_seq(x, editing_word()),
    ensures
        split_on(x, editing_marker()) == seq![x],
{
    lemma_marker_chars();
    let m = editing_marker();
    let g = editing_word();
    lemma_find_from(x, m, 0);
    if find_from(x, m, 0) != -1 {
        let q = find_from(x, m, 0);
        assert(occurs_at(x, m, q));
        let w = x.subrange(q, q + 11);
        assert forall|k: int| 0 <= k < 7 implies x.subrange(q + 2, q + 9)[k] == g[k] by {
            assert(w[2 + k] == x[q + 2 + k]);
        }
        assert(x.subrange(q + 2, q + 9) =~= g);
        assert(occurs_at(x, g, q + 2));
    }
    assert(x.subrange(0, x.len() as int) =~= x);
}

/// Pieces without the word joined with the placeholder split back into the same pieces.
proof fn lemma_split_join_marker(parts: Seq<Seq<char>>)
    requires
        parts.len() > 0,
        forall|i: int| 0 <= i < parts.len() ==> !contains_seq(#[trigger] parts[i], editing_word()),
    ensures
        split_on(join_with(parts, editing_marker()), editing_marker()) == parts,
    decreases parts.len(),
{
    let m = editing_marker();
    lemma_marker_chars();
    if parts.len() == 1 {
        assert(!contains_seq(parts[0], editing_word()));
        lemma_split_without_word(parts[0]);
        assert(parts =~= seq![parts[0]]);
    } else {
        let x = parts[0];
        let rest = parts.drop_first();
        assert(!contains_seq(x, editing_word()));
        assert forall|i: int| 0 <= i < rest.len() implies !contains_seq(#[trigger] rest[i], editing_word()) by {
            assert(rest[i] == parts[i + 1]);
        }
        let j = join_with(rest, m);
        assert(join_with(parts, m) == x + m + j);
        let s = x + m + j;
        lemma_first_marker_from(x, j, 0);
        assert(s.subrange(0, x.len() as int) =~= x);
        assert(s == (x + m) + j);
        lemma_split_from_shift(x + m, j, m, 0);
        lemma_split_join_marker(rest);
        assert(parts =~= seq![x] + rest);
    }
}

/// Editing a command and adding it back unchanged restores the command list: when the
/// list holds the non-empty command `c` and not the word `EDITING`, replacing `c` by the
/// placeholder (what `begin_edit_command` does) and then adding `c` (what `add_command`
/// does with the placeholder) gives the list back.
pub proof fn lemma_edit_then_add_restores(r: Seq<char>, c: Seq<char>)
    requires
        c.len() > 0,
        contains_seq(r, c),
        !contains_seq(r, editing_word()),
    ensures
        contains_seq(str_replace(r, c, editing_marker()), editing_marker()),
        added_command(str_replace(r, c, editing_marker()), c) == r,
{
    let m = editing_marker();
    lemma_marker_chars();
    let parts = split_on(r, c);
    lemma_replace_from_is_join(r, c, m, 0);
    let edited = str_replace(r, c, m);
    assert(edited == join_with(parts, m));
    lemma_split_occurring(r, c);
    lemma_split_pieces_lack(r, c, editing_word(), 0);
    assert(edited == parts[0] + m + join_with(parts.drop_first(), m));
    let x_len = parts[0].len() as int;
    assert(edited.subrange(x_len, x_len + 11) =~= m);
    assert(occurs_at(edited, m, x_len));
    lemma_split_join_marker(parts);
    lemma_replace_from_is_join(edited, m, c, 0);
    assert(edited.len() >= 0);
    lemma_join_split_from(r, c, 0);
    assert(r.subrange(0, r.len() as int) =~= r);
}

} // verus!
