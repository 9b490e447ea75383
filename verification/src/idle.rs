use vstd::prelude::*;
use chrono::Timelike;
use crate::number::{parse_decimal, parse_u32_chars, parse_u64};
use crate::text::{chars_of, slice_chars};

verus! {

/// A time of day: seconds since midnight and the nanoseconds within the second (more
/// than a second's worth during a leap second).
#[derive(Clone, Copy)]
pub struct ClockTime {
    pub secs: u32,
    pub nanos: u32,
}

/// `chrono::NaiveTime::from_hms_opt(hour, minute, 0)`, read back through
/// `num_seconds_from_midnight` and `nanosecond`: the time `hour:minute:00`, none for an
/// hour of 24 or more or a minute of 60 or more.
#[verifier::external_body]
fn time_of_day(hour: u32, minute: u32) -> (r: Option<ClockTime>)
    ensures
        match r {
            Some(t) => hour < 24 && minute < 60 && t.secs == hour * 3600 + minute * 60 && t.nanos == 0,
            None => hour >= 24 || minute >= 60,
        },
{
    chrono::NaiveTime::from_hms_opt(hour, minute, 0).map(|t| ClockTime { secs: t.num_seconds_from_midnight(), nanos: t.nanosecond() })
}

/// `chrono::Local::now().time()`, read through `num_seconds_from_midnight` and
/// `nanosecond`: the local time of day now. Which time it is, is left unsaid; it is a
/// time of day.
#[verifier::external_body]
fn local_time_now() -> (r: ClockTime)
    ensures
        r.secs < 86400,
        r.nanos < 2_000_000_000,
{
    let t = chrono::Local::now().time();
    ClockTime { secs: t.num_seconds_from_midnight(), nanos: t.nanosecond() }
}

/// The local time of day now.
pub fn time_now() -> (r: ClockTime)
    ensures
        r.secs < 86400,
        r.nanos < 2_000_000_000,
{
    local_time_now()
}

/// An ASCII character.
pub open spec fn is_ascii_char(c: char) -> bool {
    (c as u32) < 128
}

/// The night hours as written in the `Idle` section, `HHMM-HHMM`: start hour, start
/// minute, end hour and end minute read from characters 0-1, 2-3, 5-6 and 7-8 (the
/// fifth character is not read); none when the first nine characters are not all ASCII
/// or a field does not read as a number.
pub open spec fn night_range(s: Seq<char>) -> Option<(nat, nat, nat, nat)> {
    if s.len() >= 9 && (forall|i: int| 0 <= i < 9 ==> #[trigger] is_ascii_char(s[i])) {
        match (
            parse_decimal(s.subrange(0, 2), u32::MAX as nat),
            parse_decimal(s.subrange(2, 4), u32::MAX as nat),
            parse_decimal(s.subrange(5, 7), u32::MAX as nat),
            parse_decimal(s.subrange(7, 9), u32::MAX as nat),
        ) {
            (Some(sh), Some(sm), Some(eh), Some(em)) => Some((sh, sm, eh, em)),
            _ => None,
        }
    } else {
        None
    }
}

/// The minute of the day of a time: the whole minutes since midnight.
pub open spec fn minute_of_day(t: ClockTime) -> int {
    t.secs as int / 60
}

/// Whether it is dark hours at `now` for the night range `(sh, sm, eh, em)`, compared to
/// the minute: from the start `sh:sm` to the end `eh:em`, both included; a range whose
/// start comes after its end runs over midnight. None where the start or the end is not a
/// time of day.
pub open spec fn dark_at(r: (nat, nat, nat, nat), now: ClockTime) -> Option<bool> {
    let (sh, sm, eh, em) = r;
    if sh >= 24 || sm >= 60 || eh >= 24 || em >= 60 {
        None
    } else {
        let start = sh * 60 + sm;
        let end = eh * 60 + em;
        let m = minute_of_day(now);
        if start <= end {
            Some(start <= m && m <= end)
        } else {
            Some(start <= m || m <= end)
        }
    }
}

/// The minute of the day of a time of day that `time_of_day` gave.
fn minute_of(t: &ClockTime) -> (m: u32)
    ensures
        m == minute_of_day(*t),
{
    t.secs / 60
}

/// Reads the night range from the characters `v`.
fn read_night_range(v: &Vec<char>) -> (r: Option<(u32, u32, u32, u32)>)
    ensures
        match r {
            Some((a, b, c, d)) => night_range(v@) == Some((a as nat, b as nat, c as nat, d as nat)),
            None => night_range(v@) is None,
        },
{
    if v.len() < 9 {
        return None;
    }
    let mut i: usize = 0;
    while i < 9
        invariant
            i <= 9,
            v.len() >= 9,
            forall|j: int| 0 <= j < i ==> #[trigger] is_ascii_char(v@[j]),
        decreases 9 - i,
    {
        if v[i] as u32 >= 128 {
            assert(!is_ascii_char(v@[i as int]));
            return None;
        }
        i = i + 1;
    }
    let sh = parse_u32_chars(&slice_chars(v, 0, 2));
    let sm = parse_u32_chars(&slice_chars(v, 2, 4));
    let eh = parse_u32_chars(&slice_chars(v, 5, 7));
    let em = parse_u32_chars(&slice_chars(v, 7, 9));
    match (sh, sm, eh, em) {
        (Some(a), Some(b), Some(c), Some(d)) => Some((a, b, c, d)),
        _ => None,
    }
}

/// Whether it is dark hours at `now` for the night range written in `time_range`; none
/// where the range cannot be read or compared.
pub open spec fn dark_outcome(time_range: Seq<char>, now: ClockTime) -> Option<bool> {
    match night_range(time_range) {
        Some(range) => dark_at(range, now),
        None => None,
    }
}

/// Whether it is dark hours at `now`, the night range being written in `time_range`
/// (see `night_range` and `dark_at`); none where the range cannot be read or compared.
pub fn dark_hours_at(time_range: &str, now: &ClockTime) -> (r: Option<bool>)
    ensures
        r == dark_outcome(time_range@, *now),
{
    let v = chars_of(time_range);
    let (sh, sm, eh, em) = match read_night_range(&v) {
        Some(x) => x,
        None => return None,
    };
    let start_time = match time_of_day(sh, sm) {
        Some(t) => t,
        None => return None,
    };
    let end_time = match time_of_day(eh, em) {
        Some(t) => t,
        None => return None,
    };
    let start = minute_of(&start_time);
    let end = minute_of(&end_time);
    assert(start == sh * 60 + sm) by (nonlinear_arith)
        requires
            start_time.secs == sh * 3600 + sm * 60,
            start == start_time.secs as int / 60,
    ;
    assert(end == eh * 60 + em) by (nonlinear_arith)
        requires
            end_time.secs == eh * 3600 + em * 60,
            end == end_time.secs as int / 60,
    ;
    let m = minute_of(now);
    if start <= end {
        Some(start <= m && m <= end)
    } else {
        Some(start <= m || m <= end)
    }
}

/// Whether it is dark hours now, the night range being written in `time_range`: the answer
/// of `dark_hours_at` at the local time of day read now; none where the range cannot be
/// read or compared.
pub fn dark_hours(time_range: &str) -> (r: Option<bool>)
    ensures
        exists|now: ClockTime| now.secs < 86400 && now.nanos < 2_000_000_000 && r == #[trigger] dark_outcome(time_range@, now),
        night_range(time_range@) is None ==> r is None,
{
    let now = local_time_now();
    let r = dark_hours_at(time_range, &now);
    assert(r == dark_outcome(time_range@, now));
    r
}

/// The whole seconds since the last input, from the tick counts (in milliseconds) now and
/// at the last input; none when the last input is later than now.
pub fn idle_seconds(now_ms: u32, last_input_ms: u32) -> (r: Option<u64>)
    ensures
        match r {
            Some(s) => last_input_ms <= now_ms && s == (now_ms - last_input_ms) / 1000,
            None => last_input_ms > now_ms,
        },
{
    if last_input_ms > now_ms {
        None
    } else {
        Some(((now_ms - last_input_ms) / 1000) as u64)
    }
}

/// Whether the user counts as idle: the whole seconds since the last input exceed the
/// idle time written in `wait_time` (in seconds). None where the idle time does not read
/// as a number or the last input is later than now.
pub fn user_idle(wait_time: &str, now_ms: u32, last_input_ms: u32) -> (r: Option<bool>)
    ensures
        match r {
            Some(idle) => last_input_ms <= now_ms && parse_decimal(wait_time@, u64::MAX as nat) is Some
                && idle == ((now_ms - last_input_ms) / 1000 > parse_decimal(wait_time@, u64::MAX as nat)->0),
            None => last_input_ms > now_ms || parse_decimal(wait_time@, u64::MAX as nat) is None,
        },
{
    let wait = match parse_u64(wait_time) {
        Some(w) => w,
        None => return None,
    };
    match idle_seconds(now_ms, last_input_ms) {
        Some(secs) => Some(secs > wait),
        None => None,
    }
}

/// Without new input the user stays idle: idle at the tick count `now1` means idle at any
/// later `now2`, for the same last input and idle time.
pub proof fn lemma_idle_stays_idle(wait: nat, last_input_ms: u32, now1: u32, now2: u32)
    requires
        last_input_ms <= now1 <= now2,
        (now1 - last_input_ms) / 1000 > wait,
    ensures
        (now2 - last_input_ms) / 1000 > wait,
{
    let a = now1 - last_input_ms;
    let b = now2 - last_input_ms;
    assert(a / 1000 <= b / 1000) by (nonlinear_arith)
        requires
            0 <= a <= b,
    ;
}

} // verus!

verus! {

/// The night range, as laid out in a day: dark hours include their first and their last
/// minute; a range and the same range turned around (its end as start, its start as end)
/// cover every minute of the day together and share only those two minutes, when they
/// differ; and only the
/// minute of the time counts, not the seconds within it.
pub proof fn lemma_dark_range_layout(sh: nat, sm: nat, eh: nat, em: nat, now: ClockTime, later: ClockTime)
    requires
        sh < 24,
        sm < 60,
        eh < 24,
        em < 60,
        minute_of_day(now) < 1440,
    ensures
        minute_of_day(now) == sh * 60 + sm ==> dark_at((sh, sm, eh, em), now) == Some(true),
        minute_of_day(now) == eh * 60 + em ==> dark_at((sh, sm, eh, em), now) == Some(true),
        sh * 60 + sm != eh * 60 + em ==> dark_at((sh, sm, eh, em), now) == Some(true) || dark_at((eh, em, sh, sm), now)
            == Some(true),
        sh * 60 + sm != eh * 60 + em && dark_at((sh, sm, eh, em), now) == Some(true) && dark_at((eh, em, sh, sm), now)
            == Some(true) ==> minute_of_day(now) == sh * 60 + sm || minute_of_day(now) == eh * 60 + em,
        minute_of_day(later) == minute_of_day(now) ==> dark_at((sh, sm, eh, em), later) == dark_at((sh, sm, eh, em), now),
{
}

} // verus!
