use vstd::prelude::*;
use crate::profile::{
    defaults_values, empty_defaults, empty_instance, lemma_defaults_values_push, lemma_section_values_push,
    lemma_unquoted_quoted, quoted, section_values, Defaults, DefaultsView, Instance, InstanceView,
};
use crate::registry::{add_write, section_write, writes_view, RegWrite};
use crate::text::{concat, owned, replace_str, same_text, str_replace};

verus! {

/// The priority button (0 to 3) that shows a monitor's priority: `1`, `2` and `3` have
/// their own button, every other text the last one.
pub open spec fn priority_slot_spec(priority: Seq<char>) -> nat {
    if priority == "1"@ {
        0
    } else if priority == "2"@ {
        1
    } else if priority == "3"@ {
        2
    } else {
        3
    }
}

/// The priority button that shows the priority `priority`.
pub fn priority_slot(priority: &str) -> (r: usize)
    ensures
        r == priority_slot_spec(priority@),
{
    if same_text(priority, "1") {
        0
    } else if same_text(priority, "2") {
        1
    } else if same_text(priority, "3") {
        2
    } else {
        3
    }
}

/// The button (0 or 1) that shows what a monitor applies to: the first for `Game`, the
/// second for anything else (a window).
pub fn kind_slot(game_or_win: &str) -> (r: usize)
    ensures
        r == (if game_or_win@ == "Game"@ { 0usize } else { 1usize }),
{
    if same_text(game_or_win, "Game") {
        0
    } else {
        1
    }
}

/// The button (0 or 1) that shows whether the screensaver is used when idle: the first
/// (`Yes`) when the desktop setting is `1`, the second otherwise.
pub fn screensaver_slot(screen_save_active: &str) -> (r: usize)
    ensures
        r == (if screen_save_active@ == "1"@ { 0usize } else { 1usize }),
{
    if same_text(screen_save_active, "1") {
        0
    } else {
        1
    }
}

/// The desktop setting that turns the screensaver on (`1`) for the choice `Yes`, and off
/// (`0`) for any other choice.
pub fn screensaver_active_value(choice: &str) -> (r: String)
    ensures
        r@ == (if choice@ == "Yes"@ { "1"@ } else { "0"@ }),
{
    if same_text(choice, "Yes") {
        owned("1")
    } else {
        owned("0")
    }
}

/// Where the script of the monitor `sec` is created: the `scripts` folder of the
/// installation folder, the monitor's name (with its spaces made underscores when
/// `spaces_to_underscores`) and the extension `.ahk`.
pub open spec fn ahk_script_path_spec(install_dir: Seq<char>, sec: Seq<char>, spaces_to_underscores: bool) -> Seq<char> {
    let stem = if spaces_to_underscores {
        str_replace(sec, " "@, "_"@)
    } else {
        sec
    };
    install_dir + "\\scripts\\"@ + stem + ".ahk"@
}

/// The path of the script created for the monitor `sec`.
pub fn ahk_script_path(install_dir: &str, sec: &str, spaces_to_underscores: bool) -> (r: String)
    ensures
        r@ == ahk_script_path_spec(install_dir@, sec@, spaces_to_underscores),
{
    let stem = if spaces_to_underscores {
        replace_str(sec, " ", "_")
    } else {
        owned(sec)
    };
    let a = concat(install_dir, "\\scripts\\");
    let b = concat(a.as_str(), stem.as_str());
    concat(b.as_str(), ".ahk")
}

/// The text of a newly created script.
pub fn ahk_script_template() -> (r: String)
    ensures
        r@ == "#Persistent\n#SingleInstance, Force\n#NoTrayIcon"@,
{
    owned("#Persistent\n#SingleInstance, Force\n#NoTrayIcon")
}

/// The values that saving the global settings window writes, in order.
pub open spec fn defaults_form_writes_spec(form: crate::profile::DefaultsView) -> Seq<(Option<Seq<char>>, Seq<char>, Seq<char>)> {
    let d = Some("defaults"@);
    seq![
        (d, "openRGBPath"@, form.openrgb_path),
        (d, "voiceAttackPath"@, form.voice_attack_path),
        (d, "defaultORGBProfile"@, form.default_orgb_profile),
        (d, "defaultSRGBProfile"@, form.default_srgb_profile),
        (d, "screensaver_orgb_profile"@, form.screensaver_orgb_profile),
        (d, "screensaver_srgb_profile"@, form.screensaver_srgb_profile),
        (d, "night_hour_orgb_profile"@, form.night_hour_orgb_profile),
        (d, "night_hour_srgb_profile"@, form.night_hour_srgb_profile),
        (d, "orgb_port"@, form.orgb_port),
        (d, "orgb_address"@, form.orgb_address),
    ]
}

/// The values that saving the global settings window writes, from the fields it shows.
pub fn defaults_form_writes(form: &Defaults) -> (v: Vec<RegWrite>)
    ensures
        writes_view(v@) == defaults_form_writes_spec(form@),
{
    let mut v: Vec<RegWrite> = Vec::new();
    add_write(&mut v, section_write("defaults", "openRGBPath", form.openrgb_path.as_str()));
    add_write(&mut v, section_write("defaults", "voiceAttackPath", form.voice_attack_path.as_str()));
    add_write(&mut v, section_write("defaults", "defaultORGBProfile", form.default_orgb_profile.as_str()));
    add_write(&mut v, section_write("defaults", "defaultSRGBProfile", form.default_srgb_profile.as_str()));
    add_write(
        &mut v,
        section_write("defaults", "screensaver_orgb_profile", form.screensaver_orgb_profile.as_str()),
    );
    add_write(
        &mut v,
        section_write("defaults", "screensaver_srgb_profile", form.screensaver_srgb_profile.as_str()),
    );
    add_write(
        &mut v,
        section_write("defaults", "night_hour_orgb_profile", form.night_hour_orgb_profile.as_str()),
    );
    add_write(
        &mut v,
        section_write("defaults", "night_hour_srgb_profile", form.night_hour_srgb_profile.as_str()),
    );
    add_write(&mut v, section_write("defaults", "orgb_port", form.orgb_port.as_str()));
    add_write(&mut v, section_write("defaults", "orgb_address", form.orgb_address.as_str()));
    assert(writes_view(v@) =~= defaults_form_writes_spec(form@));
    v
}

/// The values that saving a monitor's settings writes, in order: the fields of the form,
/// then the chosen kind (under the name `game-or-win`) and the chosen priority, each when
/// a choice is made.
pub open spec fn section_form_writes_spec(
    sec: Seq<char>,
    form: crate::profile::InstanceView,
    kind: Option<Seq<char>>,
    priority: Option<Seq<char>>,
) -> Seq<(Option<Seq<char>>, Seq<char>, Seq<char>)> {
    let s = Some(sec);
    let fields = seq![
        (s, "exe_name"@, form.exe_name),
        (s, "game_window_name"@, form.game_window_name),
        (s, "name_ofahk"@, form.name_ofahk),
        (s, "path_toahk"@, form.path_toahk),
        (s, "open_rgbprofile"@, form.open_rgbprofile),
        (s, "voice_attack_profile"@, form.voice_attack_profile),
        (s, "signal_rgbprofile"@, form.signal_rgbprofile),
    ];
    let with_kind = match kind {
        Some(k) => fields.push((s, "game-or-win"@, k)),
        None => fields,
    };
    match priority {
        Some(p) => with_kind.push((s, "priority"@, p)),
        None => with_kind,
    }
}

/// The values that saving the settings of the monitor `sec` writes, from the fields the
/// window shows and the chosen kind and priority.
pub fn section_form_writes(sec: &str, form: &Instance, kind: &Option<String>, priority: &Option<String>) -> (v: Vec<RegWrite>)
    ensures
        writes_view(v@) == section_form_writes_spec(
            sec@,
            form@,
            match kind { Some(k) => Some(k@), None => None },
            match priority { Some(p) => Some(p@), None => None },
        ),
{
    let mut v: Vec<RegWrite> = Vec::new();
    add_write(&mut v, section_write(sec, "exe_name", form.exe_name.as_str()));
    add_write(&mut v, section_write(sec, "game_window_name", form.game_window_name.as_str()));
    add_write(&mut v, section_write(sec, "name_ofahk", form.name_ofahk.as_str()));
    add_write(&mut v, section_write(sec, "path_toahk", form.path_toahk.as_str()));
    add_write(&mut v, section_write(sec, "open_rgbprofile", form.open_rgbprofile.as_str()));
    add_write(&mut v, section_write(sec, "voice_attack_profile", form.voice_attack_profile.as_str()));
    add_write(&mut v, section_write(sec, "signal_rgbprofile", form.signal_rgbprofile.as_str()));
    match kind {
        Some(k) => add_write(&mut v, section_write(sec, "game-or-win", k.as_str())),
        None => {},
    }
    match priority {
        Some(p) => add_write(&mut v, section_write(sec, "priority", p.as_str())),
        None => {},
    }
    assert(writes_view(v@) =~= section_form_writes_spec(
        sec@,
        form@,
        match kind { Some(k) => Some(k@), None => None },
        match priority { Some(p) => Some(p@), None => None },
    ));
    v
}

} // verus!

verus! {

/// The lower-case form of a text, as `str::to_lowercase` gives it.
pub uninterp spec fn lowercase(s: Seq<char>) -> Seq<char>;

/// `str::to_lowercase`: each character replaced by its lower-case mapping. Its result is
/// named `lowercase`; nothing more of the mapping is stated.
#[verifier::external_body]
fn to_lowercase(s: &str) -> (r: String)
    ensures
        r@ == lowercase(s@),
{
    s.to_lowercase()
}

/// Whether the text `a` comes before `b` or equals it: characters compared one by one by
/// their code points, a text before any longer text that it begins (the order of `str`).
pub open spec fn text_le(a: Seq<char>, b: Seq<char>) -> bool
    decreases a.len(),
{
    if a.len() == 0 {
        true
    } else if b.len() == 0 {
        false
    } else if (a[0] as u32) < (b[0] as u32) {
        true
    } else if (a[0] as u32) > (b[0] as u32) {
        false
    } else {
        text_le(a.drop_first(), b.drop_first())
    }
}

/// Any two texts are ordered one way or the other.
pub proof fn lemma_text_le_total(a: Seq<char>, b: Seq<char>)
    ensures
        text_le(a, b) || text_le(b, a),
    decreases a.len(),
{
    if a.len() > 0 && b.len() > 0 && (a[0] as u32) == (b[0] as u32) {
        lemma_text_le_total(a.drop_first(), b.drop_first());
    }
}

/// Every text is ordered before or with itself.
pub proof fn lemma_text_le_reflexive(a: Seq<char>)
    ensures
        text_le(a, a),
    decreases a.len(),
{
    if a.len() > 0 {
        lemma_text_le_reflexive(a.drop_first());
    }
}

/// The order of texts is transitive.
pub proof fn lemma_text_le_transitive(a: Seq<char>, b: Seq<char>, c: Seq<char>)
    requires
        text_le(a, b),
        text_le(b, c),
    ensures
        text_le(a, c),
    decreases a.len(),
{
    if a.len() > 0 && b.len() > 0 && c.len() > 0 && (a[0] as u32) == (b[0] as u32) && (b[0] as u32)
        == (c[0] as u32) {
        lemma_text_le_transitive(a.drop_first(), b.drop_first(), c.drop_first());
    }
}

/// Two texts each ordered before the other are equal.
pub proof fn lemma_text_le_antisymmetric(a: Seq<char>, b: Seq<char>)
    requires
        text_le(a, b),
        text_le(b, a),
    ensures
        a == b,
    decreases a.len(),
{
    if a.len() > 0 && b.len() > 0 {
        lemma_text_le_antisymmetric(a.drop_first(), b.drop_first());
        vstd::utf8::char_u32_cast(a[0], a[0] as u32);
        vstd::utf8::char_u32_cast(b[0], b[0] as u32);
        assert(a[0] == b[0]);
        assert(a =~= seq![a[0]] + a.drop_first());
        assert(b =~= seq![b[0]] + b.drop_first());
    }
}

/// Whether the character vector `a` comes before `b` or equals it.
fn text_le_chars(a: &Vec<char>, b: &Vec<char>) -> (r: bool)
    ensures
        r == text_le(a@, b@),
{
    let mut i: usize = 0;
    assert(a@.subrange(0, a@.len() as int) =~= a@);
    assert(b@.subrange(0, b@.len() as int) =~= b@);
    while i < a.len() && i < b.len()
        invariant
            i <= a.len(),
            i <= b.len(),
            text_le(a@, b@) == text_le(a@.subrange(i as int, a@.len() as int), b@.subrange(i as int, b@.len() as int)),
        decreases a.len() - i,
    {
        let x = a[i] as u32;
        let y = b[i] as u32;
        let ghost sa = a@.subrange(i as int, a@.len() as int);
        let ghost sb = b@.subrange(i as int, b@.len() as int);
        assert(sa[0] == a@[i as int]);
        assert(sb[0] == b@[i as int]);
        if x < y {
            return true;
        }
        if x > y {
            return false;
        }
        assert(sa.drop_first() =~= a@.subrange(i + 1, a@.len() as int));
        assert(sb.drop_first() =~= b@.subrange(i + 1, b@.len() as int));
        i = i + 1;
    }
    i == a.len()
}

} // verus!

verus! {

/// The texts of a vector of strings.
pub open spec fn texts_of(v: Seq<String>) -> Seq<Seq<char>> {
    v.map_values(|x: String| x@)
}

/// The sections listed as monitors: every one but `defaults`, in order.
pub open spec fn listed_sections(s: Seq<Seq<char>>) -> Seq<Seq<char>>
    decreases s.len(),
{
    if s.len() == 0 {
        seq![]
    } else if s.last() == "defaults"@ {
        listed_sections(s.drop_last())
    } else {
        listed_sections(s.drop_last()).push(s.last())
    }
}

/// The texts of `s` whose lower-case form is `k`, in order.
pub open spec fn with_lowercase(s: Seq<Seq<char>>, k: Seq<char>) -> Seq<Seq<char>>
    decreases s.len(),
{
    if s.len() == 0 {
        seq![]
    } else if lowercase(s.last()) == k {
        with_lowercase(s.drop_last(), k).push(s.last())
    } else {
        with_lowercase(s.drop_last(), k)
    }
}

/// The sections whose AutoHotkey scripts are closed when the program ends: every section
/// but `defaults`, in order.
pub fn script_sections(sections: &Vec<String>) -> (r: Vec<String>)
    ensures
        texts_of(r@) == listed_sections(texts_of(sections@)),
{
    let ghost sv = texts_of(sections@);
    let mut r: Vec<String> = Vec::new();
    let mut i: usize = 0;
    while i < sections.len()
        invariant
            sv == texts_of(sections@),
            i <= sections.len(),
            texts_of(r@) == listed_sections(sv.take(i as int)),
        decreases sections.len() - i,
    {
        assert(sv.take(i + 1).drop_last() =~= sv.take(i as int));
        assert(sv.take(i + 1).last() == sections@[i as int]@);
        if !same_text(sections[i].as_str(), "defaults") {
            let ghost before = texts_of(r@);
            r.push(owned(sections[i].as_str()));
            assert(texts_of(r@) =~= before.push(sections@[i as int]@));
        }
        i = i + 1;
    }
    assert(sv.take(sections.len() as int) =~= sv);
    r
}

/// The desktop settings that the monitor window writes besides the section: for the
/// `Idle` section only, the idle time as the screensaver timeout (when it is saved) and
/// whether the screensaver is active (`1` for the choice `Yes`, `0` otherwise, when a
/// choice is made), in that order; nothing for another section.
pub open spec fn desktop_writes_spec(sec: Seq<char>, idle_time: Option<Seq<char>>, choice: Option<Seq<char>>) -> Seq<(Seq<char>, Seq<char>)> {
    if sec != "Idle"@ {
        seq![]
    } else {
        let timeout = match idle_time {
            Some(t) => seq![("ScreenSaveTimeOut"@, t)],
            None => seq![],
        };
        let active = match choice {
            Some(c) => seq![("ScreenSaveActive"@, if c == "Yes"@ { "1"@ } else { "0"@ })],
            None => seq![],
        };
        timeout + active
    }
}

/// The desktop settings that the monitor window writes for the section `sec`.
pub fn desktop_writes(sec: &str, idle_time: &Option<String>, choice: &Option<String>) -> (r: Vec<(String, String)>)
    ensures
        r@.map_values(|p: (String, String)| (p.0@, p.1@)) == desktop_writes_spec(
            sec@,
            match idle_time { Some(t) => Some(t@), None => None },
            match choice { Some(c) => Some(c@), None => None },
        ),
{
    let mut r: Vec<(String, String)> = Vec::new();
    if same_text(sec, "Idle") {
        match idle_time {
            Some(t) => r.push((owned("ScreenSaveTimeOut"), owned(t.as_str()))),
            None => {},
        }
        match choice {
            Some(c) => r.push((owned("ScreenSaveActive"), screensaver_active_value(c.as_str()))),
            None => {},
        }
    }
    assert(r@.map_values(|p: (String, String)| (p.0@, p.1@)) =~= desktop_writes_spec(
        sec@,
        match idle_time { Some(t) => Some(t@), None => None },
        match choice { Some(c) => Some(c@), None => None },
    ));
    r
}

/// Every text of `s` comes, by its lower-case form, before or with every later one.
pub open spec fn sorted_by_lowercase(s: Seq<Seq<char>>) -> bool {
    forall|i: int, j: int| 0 <= i < j < s.len() ==> text_le(#[trigger] lowercase(s[i]), #[trigger] lowercase(s[j]))
}

/// Picking the texts of one lower-case form from two sequences one after the other picks
/// them from each in turn.
pub proof fn lemma_with_lowercase_add(a: Seq<Seq<char>>, b: Seq<Seq<char>>, k: Seq<char>)
    ensures
        with_lowercase(a + b, k) == with_lowercase(a, k) + with_lowercase(b, k),
    decreases b.len(),
{
    if b.len() == 0 {
        assert(a + b =~= a);
        assert(with_lowercase(a, k) + with_lowercase(b, k) =~= with_lowercase(a, k));
    } else {
        lemma_with_lowercase_add(a, b.drop_last(), k);
        assert((a + b).drop_last() =~= a + b.drop_last());
        assert((a + b).last() == b.last());
        if lowercase(b.last()) == k {
            assert(with_lowercase(a, k) + with_lowercase(b, k) =~= (with_lowercase(a, k)
                + with_lowercase(b.drop_last(), k)).push(b.last()));
        }
    }
}

/// One text is picked exactly when its lower-case form is `k`.
pub proof fn lemma_with_lowercase_single(x: Seq<char>, k: Seq<char>)
    ensures
        with_lowercase(seq![x], k) == (if lowercase(x) == k { seq![x] } else { Seq::<Seq<char>>::empty() }),
{
    let s = seq![x];
    assert(s.drop_last() =~= Seq::<Seq<char>>::empty());
    assert(with_lowercase(Seq::<Seq<char>>::empty(), k) == Seq::<Seq<char>>::empty());
    assert(s.last() == x);
    if lowercase(x) == k {
        assert(with_lowercase(s, k) == with_lowercase(s.drop_last(), k).push(x));
        assert(Seq::<Seq<char>>::empty().push(x) =~= seq![x]);
    }
}

/// A sequence none of whose texts has the lower-case form `k` gives none of that form.
pub proof fn lemma_with_lowercase_none(b: Seq<Seq<char>>, k: Seq<char>)
    requires
        forall|j: int| 0 <= j < b.len() ==> lowercase(#[trigger] b[j]) != k,
    ensures
        with_lowercase(b, k) == Seq::<Seq<char>>::empty(),
    decreases b.len(),
{
    if b.len() > 0 {
        assert(lowercase(b[b.len() - 1]) != k);
        assert forall|j: int| 0 <= j < b.drop_last().len() implies lowercase(#[trigger] b.drop_last()[j]) != k by {
            assert(b.drop_last()[j] == b[j]);
        }
        lemma_with_lowercase_none(b.drop_last(), k);
    }
}

/// The monitors that the settings window lists: every section but `defaults`, ordered by
/// their lower-case forms, those of one lower-case form in the order they came (the order
/// of a stable sort keyed by `str::to_lowercase`).
pub fn monitor_list(sections: &Vec<String>) -> (r: Vec<String>)
    ensures
        sorted_by_lowercase(texts_of(r@)),
        forall|k: Seq<char>| #[trigger] with_lowercase(texts_of(r@), k) == with_lowercase(
            listed_sections(texts_of(sections@)),
            k,
        ),
{
    let ghost sv = texts_of(sections@);
    let mut out: Vec<String> = Vec::new();
    let mut keys: Vec<Vec<char>> = Vec::new();
    let mut i: usize = 0;
    while i < sections.len()
        invariant
            sv == texts_of(sections@),
            i <= sections.len(),
            keys@.len() == out@.len(),
            forall|j: int| 0 <= j < keys@.len() ==> #[trigger] keys@[j]@ == lowercase(out@[j]@),
            sorted_by_lowercase(texts_of(out@)),
            forall|k: Seq<char>| #[trigger] with_lowercase(texts_of(out@), k) == with_lowercase(
                listed_sections(sv.take(i as int)),
                k,
            ),
        decreases sections.len() - i,
    {
        let ghost before = texts_of(out@);
        assert(sv.take(i + 1).drop_last() =~= sv.take(i as int));
        assert(sv.take(i + 1).last() == sections@[i as int]@);
        if same_text(sections[i].as_str(), "defaults") {
            i = i + 1;
            continue;
        }
        let name = owned(sections[i].as_str());
        let low = to_lowercase(name.as_str());
        let key = crate::text::chars_of(low.as_str());
        let mut p: usize = 0;
        loop
            invariant
                p <= keys@.len(),
                forall|j: int| 0 <= j < p ==> text_le(#[trigger] keys@[j]@, key@),
            ensures
                p <= keys@.len(),
                forall|j: int| 0 <= j < p ==> text_le(#[trigger] keys@[j]@, key@),
                p < keys@.len() ==> !text_le(keys@[p as int]@, key@),
            decreases keys.len() - p,
        {
            if p == keys.len() {
                break;
            }
            if !text_le_chars(&keys[p], &key) {
                break;
            }
            p = p + 1;
        }
        let ghost x = name@;
        proof {
            assert forall|j: int| p <= j < before.len() implies lowercase(#[trigger] before[j]) != key@ by {
                if lowercase(before[j]) == key@ {
                    assert(keys@[j]@ == lowercase(before[j]));
                    assert(keys@[p as int]@ == lowercase(before[p as int]));
                    if j > p {
                        assert(text_le(lowercase(before[p as int]), lowercase(before[j])));
                    } else {
                        lemma_text_le_reflexive(key@);
                    }
                    assert(text_le(keys@[p as int]@, key@));
                }
            }
            assert forall|j: int| p <= j < before.len() implies text_le(key@, lowercase(#[trigger] before[j])) by {
                assert(keys@[p as int]@ == lowercase(before[p as int]));
                lemma_text_le_total(keys@[p as int]@, key@);
                if j > p {
                    assert(text_le(lowercase(before[p as int]), lowercase(before[j])));
                    lemma_text_le_transitive(key@, lowercase(before[p as int]), lowercase(before[j]));
                }
            }
        }
        let ghost keys_before = keys@;
        out.insert(p, name);
        keys.insert(p, key);
        let ghost after = texts_of(out@);
        proof {
            let a = before.subrange(0, p as int);
            let b = before.subrange(p as int, before.len() as int);
            assert(after =~= a + seq![x] + b);
            assert(before =~= a + b);
            assert forall|j: int| 0 <= j < keys@.len() implies #[trigger] keys@[j]@ == lowercase(out@[j]@) by {
                if j < p {
                } else if j == p {
                } else {
                    assert(keys@[j] == keys_before[j - 1]);
                    assert(keys_before[j - 1]@ == lowercase(before[j - 1]));
                }
            }
            assert forall|m: int, n: int| 0 <= m < n < after.len() implies text_le(
                #[trigger] lowercase(after[m]),
                #[trigger] lowercase(after[n]),
            ) by {
                if n < p {
                    assert(after[m] == before[m] && after[n] == before[n]);
                } else if n == p {
                    assert(after[m] == before[m]);
                    assert(keys@[m]@ == lowercase(before[m]));
                } else if m < p {
                    assert(after[m] == before[m] && after[n] == before[n - 1]);
                    assert(keys@[m]@ == lowercase(before[m]));
                    assert(text_le(lowercase(before[m]), key@));
                    assert(text_le(key@, lowercase(before[n - 1])));
                    lemma_text_le_transitive(lowercase(before[m]), key@, lowercase(before[n - 1]));
                } else if m == p {
                    assert(after[n] == before[n - 1]);
                    assert(text_le(key@, lowercase(before[n - 1])));
                } else {
                    assert(after[m] == before[m - 1] && after[n] == before[n - 1]);
                }
            }
            assert forall|j: int| 0 <= j < b.len() implies lowercase(#[trigger] b[j]) != key@ by {
                assert(b[j] == before[p + j]);
            }
            assert forall|k: Seq<char>| #[trigger] with_lowercase(after, k) == with_lowercase(
                listed_sections(sv.take(i + 1)),
                k,
            ) by {
                lemma_with_lowercase_add(a + seq![x], b, k);
                lemma_with_lowercase_add(a, seq![x], k);
                lemma_with_lowercase_add(a, b, k);
                lemma_with_lowercase_single(x, k);
                assert(with_lowercase(before, k) == with_lowercase(listed_sections(sv.take(i as int)), k));
                let l = listed_sections(sv.take(i as int));
                assert(listed_sections(sv.take(i + 1)) == l.push(x));
                assert(l.push(x).drop_last() =~= l);
                assert(l.push(x).last() == x);
                if k == key@ {
                    assert(lowercase(x) == key@);
                    lemma_with_lowercase_none(b, k);
                    assert(with_lowercase(b, k) =~= Seq::<Seq<char>>::empty());
                    assert(with_lowercase(after, k) =~= with_lowercase(before, k).push(x));
                } else {
                    assert(with_lowercase(after, k) =~= with_lowercase(before, k));
                }
            }
        }
        i = i + 1;
    }
    assert(sv.take(sections.len() as int) =~= sv);
    out
}

} // verus!

verus! {

/// The last text of `s` that has the lower-case form `k` is the last of those picked.
proof fn lemma_with_lowercase_last(s: Seq<Seq<char>>, k: Seq<char>)
    requires
        s.len() > 0,
        lowercase(s.last()) == k,
    ensures
        with_lowercase(s, k).len() > 0,
        with_lowercase(s, k).last() == s.last(),
        with_lowercase(s, k).drop_last() == with_lowercase(s.drop_last(), k),
{
}

/// A text picked for the lower-case form `k` is a text of `s` of that form.
proof fn lemma_with_lowercase_member(s: Seq<Seq<char>>, k: Seq<char>)
    requires
        with_lowercase(s, k).len() > 0,
    ensures
        exists|i: int| 0 <= i < s.len() && lowercase(#[trigger] s[i]) == k,
    decreases s.len(),
{
    if lowercase(s.last()) != k {
        lemma_with_lowercase_member(s.drop_last(), k);
        let i = choose|i: int| 0 <= i < s.drop_last().len() && lowercase(#[trigger] s.drop_last()[i]) == k;
        assert(s[i] == s.drop_last()[i]);
    } else {
        assert(lowercase(s[s.len() - 1]) == k);
    }
}

/// In a sorted sequence, every lower-case form comes before or with that of the last text.
proof fn lemma_sorted_last_is_greatest(s: Seq<Seq<char>>, i: int)
    requires
        sorted_by_lowercase(s),
        0 <= i < s.len(),
    ensures
        text_le(lowercase(s[i]), lowercase(s.last())),
{
    if i < s.len() - 1 {
        assert(text_le(lowercase(s[i]), lowercase(s[s.len() - 1])));
    } else {
        lemma_text_le_reflexive(lowercase(s.last()));
    }
}

/// The monitor list is determined: two sequences sorted by their lower-case forms that
/// hold, for every lower-case form, the same texts of that form in the same order, are
/// the same sequence.
pub proof fn lemma_monitor_list_unique(a: Seq<Seq<char>>, b: Seq<Seq<char>>)
    requires
        sorted_by_lowercase(a),
        sorted_by_lowercase(b),
        forall|k: Seq<char>| #[trigger] with_lowercase(a, k) == with_lowercase(b, k),
    ensures
        a == b,
    decreases a.len() + b.len(),
{
    if a.len() == 0 && b.len() == 0 {
        assert(a =~= b);
    } else if a.len() == 0 {
        lemma_with_lowercase_last(b, lowercase(b.last()));
        assert(with_lowercase(a, lowercase(b.last())) == Seq::<Seq<char>>::empty());
    } else if b.len() == 0 {
        lemma_with_lowercase_last(a, lowercase(a.last()));
        assert(with_lowercase(b, lowercase(a.last())) == Seq::<Seq<char>>::empty());
    } else {
        let ka = lowercase(a.last());
        let kb = lowercase(b.last());
        lemma_with_lowercase_last(a, ka);
        lemma_with_lowercase_last(b, kb);
        assert(with_lowercase(b, ka).len() > 0);
        lemma_with_lowercase_member(b, ka);
        let i = choose|i: int| 0 <= i < b.len() && lowercase(#[trigger] b[i]) == ka;
        lemma_sorted_last_is_greatest(b, i);
        assert(with_lowercase(a, kb).len() > 0);
        lemma_with_lowercase_member(a, kb);
        let j = choose|j: int| 0 <= j < a.len() && lowercase(#[trigger] a[j]) == kb;
        lemma_sorted_last_is_greatest(a, j);
        lemma_text_le_antisymmetric(ka, kb);
        assert(a.last() == b.last());
        let a2 = a.drop_last();
        let b2 = b.drop_last();
        assert forall|m: int, n: int| 0 <= m < n < a2.len() implies text_le(
            #[trigger] lowercase(a2[m]),
            #[trigger] lowercase(a2[n]),
        ) by {
            assert(a2[m] == a[m] && a2[n] == a[n]);
        }
        assert forall|m: int, n: int| 0 <= m < n < b2.len() implies text_le(
            #[trigger] lowercase(b2[m]),
            #[trigger] lowercase(b2[n]),
        ) by {
            assert(b2[m] == b[m] && b2[n] == b[n]);
        }
        assert forall|k: Seq<char>| #[trigger] with_lowercase(a2, k) == with_lowercase(b2, k) by {
            assert(with_lowercase(a, k) == with_lowercase(b, k));
            if k != ka {
                assert(with_lowercase(a, k) == with_lowercase(a2, k));
                assert(with_lowercase(b, k) == with_lowercase(b2, k));
            }
        }
        lemma_monitor_list_unique(a2, b2);
        assert(a =~= a2.push(a.last()));
        assert(b =~= b2.push(b.last()));
    }
}

} // verus!

verus! {

/// The values written, as they read back: each under its name, shown quoted, with its
/// text as content.
pub open spec fn as_read_back(w: Seq<(Option<Seq<char>>, Seq<char>, Seq<char>)>) -> Seq<(Seq<char>, Seq<char>, Option<Seq<char>>)> {
    w.map_values(|x: (Option<Seq<char>>, Seq<char>, Seq<char>)| (x.1, quoted(x.2), Some(x.2)))
}

/// Saving a monitor's settings writes each field of the form under its own name, all in
/// the monitor's section: read back, the section holds the form's fields and the chosen
/// priority (the chosen kind is written under `game-or-win`, a name that reading the
/// section does not take), every other setting empty.
pub proof fn lemma_saved_form_reads_back(
    sec: Seq<char>,
    form: InstanceView,
    kind: Option<Seq<char>>,
    priority: Option<Seq<char>>,
)
    ensures
        section_values(as_read_back(section_form_writes_spec(sec, form, kind, priority))) == Some(
            InstanceView {
                exe_name: form.exe_name,
                game_window_name: form.game_window_name,
                name_ofahk: form.name_ofahk,
                path_toahk: form.path_toahk,
                open_rgbprofile: form.open_rgbprofile,
                voice_attack_profile: form.voice_attack_profile,
                signal_rgbprofile: form.signal_rgbprofile,
                priority: match priority {
                    Some(p) => p,
                    None => seq![],
                },
                ..empty_instance()
            },
        ),
        forall|i: int| 0 <= i < section_form_writes_spec(sec, form, kind, priority).len()
            ==> (#[trigger] section_form_writes_spec(sec, form, kind, priority)[i]).0 == Some(sec),
        kind matches Some(k) ==> section_form_writes_spec(sec, form, kind, priority).contains((Some(sec), "game-or-win"@, k)),
{
    reveal_strlit("exe_name");
    reveal_strlit("game_window_name");
    reveal_strlit("name_ofahk");
    reveal_strlit("path_toahk");
    reveal_strlit("open_rgbprofile");
    reveal_strlit("signal_rgbprofile");
    reveal_strlit("voice_attack_profile");
    reveal_strlit("game_or_win");
    reveal_strlit("running");
    reveal_strlit("running_pid");
    reveal_strlit("other_commands");
    reveal_strlit("priority");
    reveal_strlit("game-or-win");
    assert("exe_name"@.len() == 8 && "exe_name"@[0] == 'e' && "exe_name"@[4] == 'n');
    assert("game_window_name"@.len() == 16 && "game_window_name"@[0] == 'g' && "game_window_name"@[4] == '_');
    assert("name_ofahk"@.len() == 10 && "name_ofahk"@[0] == 'n' && "name_ofahk"@[4] == '_');
    assert("path_toahk"@.len() == 10 && "path_toahk"@[0] == 'p' && "path_toahk"@[4] == '_');
    assert("open_rgbprofile"@.len() == 15 && "open_rgbprofile"@[0] == 'o' && "open_rgbprofile"@[4] == '_');
    assert("signal_rgbprofile"@.len() == 17 && "signal_rgbprofile"@[0] == 's' && "signal_rgbprofile"@[4] == 'a');
    assert("voice_attack_profile"@.len() == 20 && "voice_attack_profile"@[0] == 'v' && "voice_attack_profile"@[4] == 'e');
    assert("game_or_win"@.len() == 11 && "game_or_win"@[0] == 'g' && "game_or_win"@[4] == '_');
    assert("running"@.len() == 7 && "running"@[0] == 'r' && "running"@[4] == 'i');
    assert("running_pid"@.len() == 11 && "running_pid"@[0] == 'r' && "running_pid"@[4] == 'i');
    assert("other_commands"@.len() == 14 && "other_commands"@[0] == 'o' && "other_commands"@[4] == 'r');
    assert("priority"@.len() == 8 && "priority"@[0] == 'p' && "priority"@[4] == 'r');
    assert("game-or-win"@.len() == 11 && "game-or-win"@[0] == 'g' && "game-or-win"@[4] == '-');
    let e0 = Seq::<(Seq<char>, Seq<char>, Option<Seq<char>>)>::empty();
    let x0 = ("exe_name"@, quoted(form.exe_name), Some(form.exe_name));
    lemma_section_values_push(e0, x0);
    lemma_unquoted_quoted(form.exe_name);
    let e1 = e0.push(x0);
    let x1 = ("game_window_name"@, quoted(form.game_window_name), Some(form.game_window_name));
    lemma_section_values_push(e1, x1);
    lemma_unquoted_quoted(form.game_window_name);
    let e2 = e1.push(x1);
    let x2 = ("name_ofahk"@, quoted(form.name_ofahk), Some(form.name_ofahk));
    lemma_section_values_push(e2, x2);
    lemma_unquoted_quoted(form.name_ofahk);
    let e3 = e2.push(x2);
    let x3 = ("path_toahk"@, quoted(form.path_toahk), Some(form.path_toahk));
    lemma_section_values_push(e3, x3);
    lemma_unquoted_quoted(form.path_toahk);
    let e4 = e3.push(x3);
    let x4 = ("open_rgbprofile"@, quoted(form.open_rgbprofile), Some(form.open_rgbprofile));
    lemma_section_values_push(e4, x4);
    lemma_unquoted_quoted(form.open_rgbprofile);
    let e5 = e4.push(x4);
    let x5 = ("voice_attack_profile"@, quoted(form.voice_attack_profile), Some(form.voice_attack_profile));
    lemma_section_values_push(e5, x5);
    lemma_unquoted_quoted(form.voice_attack_profile);
    let e6 = e5.push(x5);
    let x6 = ("signal_rgbprofile"@, quoted(form.signal_rgbprofile), Some(form.signal_rgbprofile));
    lemma_section_values_push(e6, x6);
    lemma_unquoted_quoted(form.signal_rgbprofile);
    let e7 = e6.push(x6);
    let w = section_form_writes_spec(sec, form, kind, priority);
    let fields = seq![
        (Some(sec), "exe_name"@, form.exe_name),
        (Some(sec), "game_window_name"@, form.game_window_name),
        (Some(sec), "name_ofahk"@, form.name_ofahk),
        (Some(sec), "path_toahk"@, form.path_toahk),
        (Some(sec), "open_rgbprofile"@, form.open_rgbprofile),
        (Some(sec), "voice_attack_profile"@, form.voice_attack_profile),
        (Some(sec), "signal_rgbprofile"@, form.signal_rgbprofile),
    ];
    assert(as_read_back(fields) =~= e7);
    let with_kind = match kind {
        Some(k) => fields.push((Some(sec), "game-or-win"@, k)),
        None => fields,
    };
    let e8 = match kind {
        Some(k) => e7.push(("game-or-win"@, quoted(k), Some(k))),
        None => e7,
    };
    if let Some(k) = kind {
        lemma_section_values_push(e7, ("game-or-win"@, quoted(k), Some(k)));
        assert(with_kind[7] == (Some(sec), "game-or-win"@, k));
        assert(w[7] == with_kind[7]);
        assert(w.contains((Some(sec), "game-or-win"@, k)));
    }
    assert(as_read_back(with_kind) =~= e8);
    if let Some(p) = priority {
        let x = ("priority"@, quoted(p), Some(p));
        lemma_section_values_push(e8, x);
        lemma_unquoted_quoted(p);
        assert(as_read_back(w) =~= e8.push(x));
    } else {
        assert(as_read_back(w) =~= e8);
    }
}

/// Saving the global settings window writes each field under its own name in the
/// `defaults` section. The paths and default profiles go under the names `openRGBPath`,
/// `voiceAttackPath`, `defaultORGBProfile` and `defaultSRGBProfile`, which reading the
/// global settings does not take; read back, the section holds the screensaver and night
/// profiles, the port and the address of the form, every other setting empty.
pub proof fn lemma_saved_defaults_read_back(form: DefaultsView)
    ensures
        defaults_values(as_read_back(defaults_form_writes_spec(form))) == Some(
            DefaultsView {
                screensaver_orgb_profile: form.screensaver_orgb_profile,
                screensaver_srgb_profile: form.screensaver_srgb_profile,
                night_hour_orgb_profile: form.night_hour_orgb_profile,
                night_hour_srgb_profile: form.night_hour_srgb_profile,
                orgb_port: form.orgb_port,
                orgb_address: form.orgb_address,
                ..empty_defaults()
            },
        ),
        defaults_form_writes_spec(form)[0] == (Some("defaults"@), "openRGBPath"@, form.openrgb_path),
        defaults_form_writes_spec(form)[1] == (Some("defaults"@), "voiceAttackPath"@, form.voice_attack_path),
        defaults_form_writes_spec(form)[2] == (Some("defaults"@), "defaultORGBProfile"@, form.default_orgb_profile),
        defaults_form_writes_spec(form)[3] == (Some("defaults"@), "defaultSRGBProfile"@, form.default_srgb_profile),
{
    reveal_strlit("openrgb_path");
    reveal_strlit("exit_reason");
    reveal_strlit("voice_attack_path");
    reveal_strlit("default_orgb_profile");
    reveal_strlit("default_srgb_profile");
    reveal_strlit("screensaver_orgb_profile");
    reveal_strlit("screensaver_srgb_profile");
    reveal_strlit("night_hour_orgb_profile");
    reveal_strlit("night_hour_srgb_profile");
    reveal_strlit("orgb_port");
    reveal_strlit("orgb_address");
    reveal_strlit("gameon");
    reveal_strlit("window_flag");
    reveal_strlit("current_priority");
    reveal_strlit("openRGBPath");
    reveal_strlit("voiceAttackPath");
    reveal_strlit("defaultORGBProfile");
    reveal_strlit("defaultSRGBProfile");
    assert("openrgb_path"@.len() == 12 && "openrgb_path"@[0] == 'o' && "openrgb_path"@[1] == 'p' && "openrgb_path"@[7] == '_' && "openrgb_path"@[8] == 'p' && "openrgb_path"@[11] == 'h');
    assert("exit_reason"@.len() == 11 && "exit_reason"@[0] == 'e' && "exit_reason"@[1] == 'x' && "exit_reason"@[7] == 'a' && "exit_reason"@[8] == 's');
    assert("voice_attack_path"@.len() == 17 && "voice_attack_path"@[0] == 'v' && "voice_attack_path"@[1] == 'o' && "voice_attack_path"@[7] == 't' && "voice_attack_path"@[8] == 't' && "voice_attack_path"@[11] == 'k' && "voice_attack_path"@[12] == '_');
    assert("default_orgb_profile"@.len() == 20 && "default_orgb_profile"@[0] == 'd' && "default_orgb_profile"@[1] == 'e' && "default_orgb_profile"@[7] == '_' && "default_orgb_profile"@[8] == 'o' && "default_orgb_profile"@[11] == 'b' && "default_orgb_profile"@[12] == '_');
    assert("default_srgb_profile"@.len() == 20 && "default_srgb_profile"@[0] == 'd' && "default_srgb_profile"@[1] == 'e' && "default_srgb_profile"@[7] == '_' && "default_srgb_profile"@[8] == 's' && "default_srgb_profile"@[11] == 'b' && "default_srgb_profile"@[12] == '_');
    assert("screensaver_orgb_profile"@.len() == 24 && "screensaver_orgb_profile"@[0] == 's' && "screensaver_orgb_profile"@[1] == 'c' && "screensaver_orgb_profile"@[7] == 'a' && "screensaver_orgb_profile"@[8] == 'v' && "screensaver_orgb_profile"@[11] == '_' && "screensaver_orgb_profile"@[12] == 'o');
    assert("screensaver_srgb_profile"@.len() == 24 && "screensaver_srgb_profile"@[0] == 's' && "screensaver_srgb_profile"@[1] == 'c' && "screensaver_srgb_profile"@[7] == 'a' && "screensaver_srgb_profile"@[8] == 'v' && "screensaver_srgb_profile"@[11] == '_' && "screensaver_srgb_profile"@[12] == 's');
    assert("night_hour_orgb_profile"@.len() == 23 && "night_hour_orgb_profile"@[0] == 'n' && "night_hour_orgb_profile"@[1] == 'i' && "night_hour_orgb_profile"@[7] == 'o' && "night_hour_orgb_profile"@[8] == 'u' && "night_hour_orgb_profile"@[11] == 'o' && "night_hour_orgb_profile"@[12] == 'r');
    assert("night_hour_srgb_profile"@.len() == 23 && "night_hour_srgb_profile"@[0] == 'n' && "night_hour_srgb_profile"@[1] == 'i' && "night_hour_srgb_profile"@[7] == 'o' && "night_hour_srgb_profile"@[8] == 'u' && "night_hour_srgb_profile"@[11] == 's' && "night_hour_srgb_profile"@[12] == 'r');
    assert("orgb_port"@.len() == 9 && "orgb_port"@[0] == 'o' && "orgb_port"@[1] == 'r' && "orgb_port"@[7] == 'r' && "orgb_port"@[8] == 't');
    assert("orgb_address"@.len() == 12 && "orgb_address"@[0] == 'o' && "orgb_address"@[1] == 'r' && "orgb_address"@[7] == 'd' && "orgb_address"@[8] == 'r' && "orgb_address"@[11] == 's');
    assert("gameon"@.len() == 6 && "gameon"@[0] == 'g' && "gameon"@[1] == 'a');
    assert("window_flag"@.len() == 11 && "window_flag"@[0] == 'w' && "window_flag"@[1] == 'i' && "window_flag"@[7] == 'f' && "window_flag"@[8] == 'l');
    assert("current_priority"@.len() == 16 && "current_priority"@[0] == 'c' && "current_priority"@[1] == 'u' && "current_priority"@[7] == '_' && "current_priority"@[8] == 'p' && "current_priority"@[11] == 'o' && "current_priority"@[12] == 'r');
    assert("openRGBPath"@.len() == 11 && "openRGBPath"@[0] == 'o' && "openRGBPath"@[1] == 'p' && "openRGBPath"@[7] == 'P' && "openRGBPath"@[8] == 'a');
    assert("voiceAttackPath"@.len() == 15 && "voiceAttackPath"@[0] == 'v' && "voiceAttackPath"@[1] == 'o' && "voiceAttackPath"@[7] == 't' && "voiceAttackPath"@[8] == 'a' && "voiceAttackPath"@[11] == 'P' && "voiceAttackPath"@[12] == 'a');
    assert("defaultORGBProfile"@.len() == 18 && "defaultORGBProfile"@[0] == 'd' && "defaultORGBProfile"@[1] == 'e' && "defaultORGBProfile"@[7] == 'O' && "defaultORGBProfile"@[8] == 'R' && "defaultORGBProfile"@[11] == 'P' && "defaultORGBProfile"@[12] == 'r');
    assert("defaultSRGBProfile"@.len() == 18 && "defaultSRGBProfile"@[0] == 'd' && "defaultSRGBProfile"@[1] == 'e' && "defaultSRGBProfile"@[7] == 'S' && "defaultSRGBProfile"@[8] == 'R' && "defaultSRGBProfile"@[11] == 'P' && "defaultSRGBProfile"@[12] == 'r');
    let e0 = Seq::<(Seq<char>, Seq<char>, Option<Seq<char>>)>::empty();
    let x0 = ("openRGBPath"@, quoted(form.openrgb_path), Some(form.openrgb_path));
    lemma_defaults_values_push(e0, x0);
    lemma_unquoted_quoted(form.openrgb_path);
    let e1 = e0.push(x0);
    let x1 = ("voiceAttackPath"@, quoted(form.voice_attack_path), Some(form.voice_attack_path));
    lemma_defaults_values_push(e1, x1);
    lemma_unquoted_quoted(form.voice_attack_path);
    let e2 = e1.push(x1);
    let x2 = ("defaultORGBProfile"@, quoted(form.default_orgb_profile), Some(form.default_orgb_profile));
    lemma_defaults_values_push(e2, x2);
    lemma_unquoted_quoted(form.default_orgb_profile);
    let e3 = e2.push(x2);
    let x3 = ("defaultSRGBProfile"@, quoted(form.default_srgb_profile), Some(form.default_srgb_profile));
    lemma_defaults_values_push(e3, x3);
    lemma_unquoted_quoted(form.default_srgb_profile);
    let e4 = e3.push(x3);
    let x4 = ("screensaver_orgb_profile"@, quoted(form.screensaver_orgb_profile), Some(form.screensaver_orgb_profile));
    lemma_defaults_values_push(e4, x4);
    lemma_unquoted_quoted(form.screensaver_orgb_profile);
    let e5 = e4.push(x4);
    let x5 = ("screensaver_srgb_profile"@, quoted(form.screensaver_srgb_profile), Some(form.screensaver_srgb_profile));
    lemma_defaults_values_push(e5, x5);
    lemma_unquoted_quoted(form.screensaver_srgb_profile);
    let e6 = e5.push(x5);
    let x6 = ("night_hour_orgb_profile"@, quoted(form.night_hour_orgb_profile), Some(form.night_hour_orgb_profile));
    lemma_defaults_values_push(e6, x6);
    lemma_unquoted_quoted(form.night_hour_orgb_profile);
    let e7 = e6.push(x6);
    let x7 = ("night_hour_srgb_profile"@, quoted(form.night_hour_srgb_profile), Some(form.night_hour_srgb_profile));
    lemma_defaults_values_push(e7, x7);
    lemma_unquoted_quoted(form.night_hour_srgb_profile);
    let e8 = e7.push(x7);
    let x8 = ("orgb_port"@, quoted(form.orgb_port), Some(form.orgb_port));
    lemma_defaults_values_push(e8, x8);
    lemma_unquoted_quoted(form.orgb_port);
    let e9 = e8.push(x8);
    let x9 = ("orgb_address"@, quoted(form.orgb_address), Some(form.orgb_address));
    lemma_defaults_values_push(e9, x9);
    lemma_unquoted_quoted(form.orgb_address);
    let e10 = e9.push(x9);
    assert(as_read_back(defaults_form_writes_spec(form)) =~= e10);
}

} // verus!
