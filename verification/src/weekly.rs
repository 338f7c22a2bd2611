//! Weekly recurrence: parsing weekday names and "HH:MM" times of day, and
//! computing the next absolute instant at which a (weekday, time-of-day)
//! pair occurs, relative to a reference instant.

use vstd::prelude::*;
use vstd::string::*;
use vstd::arithmetic::div_mod::{lemma_small_mod, lemma_mod_multiples_vanish};
use crate::errors::LoadError;
use crate::strutil::{lower_seq, eq_ignore_case};

verus! {

/// A reference instant, decomposed the way the host calendar sees it:
/// seconds since the epoch, weekday index (Monday = 0 .. Sunday = 6), and
/// seconds since local midnight. The timestamp bound is far beyond any
/// calendar the host can represent, and keeps week-length arithmetic inside
/// `i64`.
pub struct LocalInstant {
    pub ts: i64,
    pub weekday: u8,
    pub secs_of_day: u32,
}

impl LocalInstant {
    /// Well-formedness: a valid weekday index, a valid second of the day,
    /// and a timestamp within the representable calendar range.
    pub open spec fn wf(&self) -> bool {
        &&& self.weekday < 7
        &&& self.secs_of_day < 86400
        &&& -10_000_000_000_000 <= self.ts <= 10_000_000_000_000
    }
}

/// Weekday index of a name, Monday = 0 through Sunday = 6. A full name or
/// its three-letter abbreviation is accepted in any ASCII case; anything
/// else is rejected.
pub open spec fn spec_parse_weekday(s: Seq<char>) -> Option<u8> {
    let l = lower_seq(s);
    if l == "monday"@ || l == "mon"@ {
        Some(0u8)
    } else if l == "tuesday"@ || l == "tue"@ {
        Some(1u8)
    } else if l == "wednesday"@ || l == "wed"@ {
        Some(2u8)
    } else if l == "thursday"@ || l == "thu"@ {
        Some(3u8)
    } else if l == "friday"@ || l == "fri"@ {
        Some(4u8)
    } else if l == "saturday"@ || l == "sat"@ {
        Some(5u8)
    } else if l == "sunday"@ || l == "sun"@ {
        Some(6u8)
    } else {
        None
    }
}

/// Parses a weekday name, full or abbreviated, in any ASCII case.
pub fn parse_weekday(s: &str) -> (r: Option<u8>)
    ensures
        r == spec_parse_weekday(s@),
        r matches Some(d) ==> d < 7,
{
    proof {
        reveal_strlit("monday");
        reveal_strlit("mon");
        reveal_strlit("tuesday");
        reveal_strlit("tue");
        reveal_strlit("wednesday");
        reveal_strlit("wed");
        reveal_strlit("thursday");
        reveal_strlit("thu");
        reveal_strlit("friday");
        reveal_strlit("fri");
        reveal_strlit("saturday");
        reveal_strlit("sat");
        reveal_strlit("sunday");
        reveal_strlit("sun");
        assert(lower_seq("monday"@) =~= "monday"@);
        assert(lower_seq("mon"@) =~= "mon"@);
        assert(lower_seq("tuesday"@) =~= "tuesday"@);
        assert(lower_seq("tue"@) =~= "tue"@);
        assert(lower_seq("wednesday"@) =~= "wednesday"@);
        assert(lower_seq("wed"@) =~= "wed"@);
        assert(lower_seq("thursday"@) =~= "thursday"@);
        assert(lower_seq("thu"@) =~= "thu"@);
        assert(lower_seq("friday"@) =~= "friday"@);
        assert(lower_seq("fri"@) =~= "fri"@);
        assert(lower_seq("saturday"@) =~= "saturday"@);
        assert(lower_seq("sat"@) =~= "sat"@);
        assert(lower_seq("sunday"@) =~= "sunday"@);
        assert(lower_seq("sun"@) =~= "sun"@);
    }
    if eq_ignore_case(s, "monday") || eq_ignore_case(s, "mon") {
        Some(0)
    } else if eq_ignore_case(s, "tuesday") || eq_ignore_case(s, "tue") {
        Some(1)
    } else if eq_ignore_case(s, "wednesday") || eq_ignore_case(s, "wed") {
        Some(2)
    } else if eq_ignore_case(s, "thursday") || eq_ignore_case(s, "thu") {
        Some(3)
    } else if eq_ignore_case(s, "friday") || eq_ignore_case(s, "fri") {
        Some(4)
    } else if eq_ignore_case(s, "saturday") || eq_ignore_case(s, "sat") {
        Some(5)
    } else if eq_ignore_case(s, "sunday") || eq_ignore_case(s, "sun") {
        Some(6)
    } else {
        None
    }
}

pub open spec fn is_digit(c: char) -> bool {
    '0' <= c && c <= '9'
}

pub open spec fn digit_val(c: char) -> int {
    c as int - 48
}

/// Seconds since midnight of a time of day written "HH:MM", with
/// 00 <= HH <= 23 and 00 <= MM <= 59; anything else is rejected.
pub open spec fn spec_parse_time(s: Seq<char>) -> Option<u32> {
    if s.len() == 5 && is_digit(s[0]) && is_digit(s[1]) && s[2] == ':' && is_digit(s[3])
        && is_digit(s[4]) {
        let h = 10 * digit_val(s[0]) + digit_val(s[1]);
        let m = 10 * digit_val(s[3]) + digit_val(s[4]);
        if h < 24 && m < 60 {
            Some((3600 * h + 60 * m) as u32)
        } else {
            None
        }
    } else {
        None
    }
}

/// Reads one decimal digit character.
fn digit_of(c: char) -> (r: Option<u32>)
    ensures
        r matches Some(d) ==> is_digit(c) && d == digit_val(c) && d <= 9,
        r is None ==> !is_digit(c),
{
    if '0' <= c && c <= '9' {
        Some((c as u32) - 48)
    } else {
        None
    }
}

/// Parses a time of day written "HH:MM" into seconds since midnight.
pub fn parse_time(s: &str) -> (r: Option<u32>)
    ensures
        r == spec_parse_time(s@),
        r matches Some(t) ==> t < 86400,
{
    if s.unicode_len() != 5 {
        return None;
    }
    if s.get_char(2) != ':' {
        return None;
    }
    let d0 = digit_of(s.get_char(0));
    let d1 = digit_of(s.get_char(1));
    let d3 = digit_of(s.get_char(3));
    let d4 = digit_of(s.get_char(4));
    match (d0, d1, d3, d4) {
        (Some(a), Some(b), Some(c), Some(d)) => {
            let h = 10 * a + b;
            let m = 10 * c + d;
            if h < 24 && m < 60 {
                Some(3600 * h + 60 * m)
            } else {
                None
            }
        },
        _ => None,
    }
}

/// Days to wait for the target weekday, in [0, 7]: the forward distance on
/// the week circle, except that distance zero with a time of day already
/// passed (or exactly now) rolls a full week ahead.
pub open spec fn spec_day_difference(cur_wd: int, tgt_wd: int, secs_diff: int) -> int {
    let dd = if tgt_wd >= cur_wd {
        tgt_wd - cur_wd
    } else {
        tgt_wd - cur_wd + 7
    };
    if dd == 0 && secs_diff <= 0 {
        7
    } else {
        dd
    }
}

/// The absolute instant of the next occurrence of (weekday, time-of-day) at
/// or after the reference instant.
pub open spec fn spec_next_occurrence(now: LocalInstant, tgt_wd: int, tgt_secs: int) -> int {
    let secs_diff = tgt_secs - now.secs_of_day;
    now.ts + 86400 * spec_day_difference(now.weekday as int, tgt_wd, secs_diff) + secs_diff
}

/// Position within the week, in seconds, of a non-negative week offset.
pub open spec fn week_pos(x: int) -> int {
    x % 604800
}

/// Computes the next occurrence of the target weekday and time of day at or
/// after the reference instant. The result is always strictly in the
/// future and at most one week away.
pub fn next_occurrence_at(now: &LocalInstant, target_weekday: u8, target_secs: u32) -> (r: i64)
    requires
        now.wf(),
        target_weekday < 7,
        target_secs < 86400,
    ensures
        r == spec_next_occurrence(*now, target_weekday as int, target_secs as int),
        now.ts < r <= now.ts + 604800,
{
    let cur_wd = now.weekday as i64;
    let tgt_wd = target_weekday as i64;
    let mut day_diff: i64 = if tgt_wd >= cur_wd {
        tgt_wd - cur_wd
    } else {
        tgt_wd - cur_wd + 7
    };
    let secs_diff: i64 = target_secs as i64 - now.secs_of_day as i64;
    if day_diff == 0 && secs_diff <= 0 {
        day_diff = 7;
    }
    now.ts + day_diff * 86400 + secs_diff
}

/// The returned instant lies strictly after the reference instant, at most
/// one week later, and lands exactly on the requested weekday and time of
/// day: measured on the week circle extrapolated from the reference
/// decomposition, its position is the target's position.
pub proof fn lemma_next_occurrence_hits_target(now: LocalInstant, tgt_wd: int, tgt_secs: int)
    requires
        now.wf(),
        0 <= tgt_wd < 7,
        0 <= tgt_secs < 86400,
    ensures
        now.ts < spec_next_occurrence(now, tgt_wd, tgt_secs) <= now.ts + 604800,
        week_pos(
            now.weekday * 86400 + now.secs_of_day + (spec_next_occurrence(now, tgt_wd, tgt_secs)
                - now.ts),
        ) == tgt_wd * 86400 + tgt_secs,
{
    let secs_diff = tgt_secs - now.secs_of_day;
    let dd = spec_day_difference(now.weekday as int, tgt_wd, secs_diff);
    let pos = now.weekday * 86400 + now.secs_of_day + 86400 * dd + secs_diff;
    let target_pos = tgt_wd * 86400 + tgt_secs;
    assert(pos == (now.weekday + dd) * 86400 + tgt_secs) by (nonlinear_arith)
        requires
            pos == now.weekday * 86400 + now.secs_of_day + 86400 * dd + (tgt_secs
                - now.secs_of_day),
    ;
    if now.weekday + dd == tgt_wd {
        lemma_small_mod(target_pos as nat, 604800);
    } else {
        assert(now.weekday + dd == tgt_wd + 7);
        lemma_mod_multiples_vanish(1, target_pos, 604800);
        lemma_small_mod(target_pos as nat, 604800);
    }
}

/// If the reference instant falls exactly on the target weekday and time of
/// day, the next occurrence is one full week later, not the reference
/// instant itself.
pub proof fn lemma_same_instant_rolls_week(now: LocalInstant)
    requires
        now.wf(),
    ensures
        spec_next_occurrence(now, now.weekday as int, now.secs_of_day as int) == now.ts + 604800,
{
}

/// The next occurrence is a function of the reference decomposition and the
/// target alone: two evaluations with identical inputs give identical
/// results.
pub proof fn lemma_next_occurrence_deterministic(
    now: LocalInstant,
    tgt_wd: int,
    tgt_secs: int,
    r1: int,
    r2: int,
)
    requires
        r1 == spec_next_occurrence(now, tgt_wd, tgt_secs),
        r2 == spec_next_occurrence(now, tgt_wd, tgt_secs),
    ensures
        r1 == r2,
{
}

/// The next occurrence of a weekday and time given as text, or the error
/// naming the field that failed to parse; the weekday is checked first.
pub open spec fn spec_next_of_day_time(now: LocalInstant, day: Seq<char>, time: Seq<char>) -> Option<
    int,
> {
    match (spec_parse_weekday(day), spec_parse_time(time)) {
        (Some(wd), Some(t)) => Some(spec_next_occurrence(now, wd as int, t as int)),
        _ => None,
    }
}

/// Parses the weekday name and the "HH:MM" time, and computes the next
/// occurrence at or after the reference instant. A malformed weekday is
/// reported before a malformed time.
pub fn next_occurrence_of_day_time(now: &LocalInstant, day: &str, time: &str) -> (r: Result<
    i64,
    LoadError,
>)
    requires
        now.wf(),
    ensures
        r matches Ok(ts) ==> spec_next_of_day_time(*now, day@, time@) == Some(ts as int)
            && now.ts < ts <= now.ts + 604800,
        r is Ok <==> (spec_parse_weekday(day@) is Some && spec_parse_time(time@) is Some),
        r matches Err(e) ==> ({
            if spec_parse_weekday(day@) is None {
                e matches LoadError::InvalidWeekday(v) && v@ == day@
            } else {
                e matches LoadError::InvalidTime(v) && v@ == time@
            }
        }),
{
    let wd = match parse_weekday(day) {
        Some(wd) => wd,
        None => {
            return Err(LoadError::InvalidWeekday(day.to_owned()));
        },
    };
    let t = match parse_time(time) {
        Some(t) => t,
        None => {
            return Err(LoadError::InvalidTime(time.to_owned()));
        },
    };
    Ok(next_occurrence_at(now, wd, t))
}

} // verus!
