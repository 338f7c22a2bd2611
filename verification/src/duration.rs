//! Rendering of a signed second count as a compact human-readable duration:
//! at most the two most significant non-zero units, truncated (never
//! rounded), each unit pluralized, and "0 seconds" when nothing else is left.

use vstd::prelude::*;
use vstd::string::*;
use crate::strutil::{dec_rep, u64_to_string};

verus! {

/// Whether an instant lies before or at-or-after the reference instant.
/// A difference of exactly zero counts as `Future`.
#[derive(PartialEq, Eq, Structural, Clone, Copy, Debug)]
pub enum TimeState {
    Past,
    Future,
}

/// Classification of a signed second difference (target minus reference).
pub open spec fn spec_time_state(diff: int) -> TimeState {
    if diff >= 0 {
        TimeState::Future
    } else {
        TimeState::Past
    }
}

pub open spec fn week_label() -> Seq<char> {
    seq![' ', 'w', 'e', 'e', 'k']
}

pub open spec fn day_label() -> Seq<char> {
    seq![' ', 'd', 'a', 'y']
}

pub open spec fn hour_label() -> Seq<char> {
    seq![' ', 'h', 'o', 'u', 'r']
}

pub open spec fn minute_label() -> Seq<char> {
    seq![' ', 'm', 'i', 'n', 'u', 't', 'e']
}

pub open spec fn second_label() -> Seq<char> {
    seq![' ', 's', 'e', 'c', 'o', 'n', 'd']
}

/// The singular unit labels, from the largest unit to the smallest.
pub open spec fn label_of(u: int) -> Seq<char> {
    if u == 0 {
        week_label()
    } else if u == 1 {
        day_label()
    } else if u == 2 {
        hour_label()
    } else if u == 3 {
        minute_label()
    } else {
        second_label()
    }
}

/// One rendered unit: the count in decimal, the label, and a trailing 's'
/// exactly when the count is not one.
pub open spec fn unit_term(count: int, label: Seq<char>) -> Seq<char> {
    if count == 1 {
        dec_rep(count) + label
    } else {
        dec_rep(count) + label + seq!['s']
    }
}

pub open spec fn weeks_of(t: int) -> int {
    t / 604800
}

pub open spec fn days_of(t: int) -> int {
    (t % 604800) / 86400
}

pub open spec fn hours_of(t: int) -> int {
    (t % 86400) / 3600
}

pub open spec fn minutes_of(t: int) -> int {
    (t % 3600) / 60
}

pub open spec fn seconds_of(t: int) -> int {
    t % 60
}

/// The rendered unit terms of a non-negative second count: the two most
/// significant non-zero units, except that bare seconds are always shown
/// (even as zero) when every larger unit is zero.
pub open spec fn duration_terms(t: int) -> Seq<Seq<char>> {
    let ts0 = Seq::<Seq<char>>::empty();
    let ts1 = if weeks_of(t) > 0 {
        ts0.push(unit_term(weeks_of(t), week_label()))
    } else {
        ts0
    };
    let ts2 = if days_of(t) > 0 {
        ts1.push(unit_term(days_of(t), day_label()))
    } else {
        ts1
    };
    let ts3 = if hours_of(t) > 0 && ts2.len() < 2 {
        ts2.push(unit_term(hours_of(t), hour_label()))
    } else {
        ts2
    };
    let ts4 = if minutes_of(t) > 0 && ts3.len() < 2 {
        ts3.push(unit_term(minutes_of(t), minute_label()))
    } else {
        ts3
    };
    if (seconds_of(t) > 0 || ts4.len() == 0) && ts4.len() < 2 {
        ts4.push(unit_term(seconds_of(t), second_label()))
    } else {
        ts4
    }
}

/// The parts joined by " & ".
pub open spec fn join_sep(parts: Seq<Seq<char>>) -> Seq<char>
    decreases parts.len(),
{
    if parts.len() == 0 {
        Seq::empty()
    } else if parts.len() == 1 {
        parts[0]
    } else {
        join_sep(parts.drop_last()) + seq![' ', '&', ' '] + parts.last()
    }
}

/// The full rendering of a non-negative second count.
pub open spec fn spec_format_time(t: int) -> Seq<char> {
    join_sep(duration_terms(t))
}

/// Builds one unit term: count, label, and plural 's' when the count is
/// not one.
fn make_term(count: u64, label: &str) -> (r: String)
    ensures
        r@ == unit_term(count as int, label@),
{
    let mut r = u64_to_string(count);
    r.append(label);
    if count != 1 {
        r.append("s");
        proof {
            reveal_strlit("s");
            assert(r@ =~= dec_rep(count as int) + label@ + seq!['s']);
        }
    }
    r
}

/// The views of a list of rendered terms.
pub open spec fn views_of(ts: Seq<String>) -> Seq<Seq<char>> {
    ts.map_values(|s: String| s@)
}

/// Renders a signed second count; the sign is dropped and the magnitude is
/// decomposed into weeks, days, hours, minutes and seconds, of which at most
/// the two most significant non-zero units are shown.
pub fn format_time(raw_seconds: i64) -> (r: String)
    requires
        raw_seconds != i64::MIN,
    ensures
        r@ == spec_format_time(vstd::math::abs(raw_seconds as int) as int),
{
    let total: u64 = if raw_seconds < 0 {
        (-raw_seconds) as u64
    } else {
        raw_seconds as u64
    };
    let ghost t = total as int;
    let weeks: u64 = total / 604800;
    let days: u64 = (total % 604800) / 86400;
    let hours: u64 = (total % 86400) / 3600;
    let minutes: u64 = (total % 3600) / 60;
    let seconds: u64 = total % 60;
    let mut terms: Vec<String> = Vec::new();
    proof {
        assert(views_of(terms@) =~= Seq::<Seq<char>>::empty());
    }
    if weeks > 0 {
        let term = make_term(weeks, " week");
        proof {
            reveal_strlit(" week");
            assert(" week"@ =~= week_label());
            assert(views_of(terms@.push(term)) =~= views_of(terms@).push(term@));
        }
        terms.push(term);
    }
    if days > 0 {
        let term = make_term(days, " day");
        proof {
            reveal_strlit(" day");
            assert(" day"@ =~= day_label());
            assert(views_of(terms@.push(term)) =~= views_of(terms@).push(term@));
        }
        terms.push(term);
    }
    if hours > 0 && terms.len() < 2 {
        let term = make_term(hours, " hour");
        proof {
            reveal_strlit(" hour");
            assert(" hour"@ =~= hour_label());
            assert(views_of(terms@.push(term)) =~= views_of(terms@).push(term@));
        }
        terms.push(term);
    }
    if minutes > 0 && terms.len() < 2 {
        let term = make_term(minutes, " minute");
        proof {
            reveal_strlit(" minute");
            assert(" minute"@ =~= minute_label());
            assert(views_of(terms@.push(term)) =~= views_of(terms@).push(term@));
        }
        terms.push(term);
    }
    if (seconds > 0 || terms.len() == 0) && terms.len() < 2 {
        let term = make_term(seconds, " second");
        proof {
            reveal_strlit(" second");
            assert(" second"@ =~= second_label());
            assert(views_of(terms@.push(term)) =~= views_of(terms@).push(term@));
        }
        terms.push(term);
    }
    proof {
        assert(views_of(terms@) == duration_terms(t));
    }
    let n = terms.len();
    let mut out = String::new();
    let mut i: usize = 0;
    while i < n
        invariant
            0 <= i <= n,
            n == terms@.len(),
            views_of(terms@) == duration_terms(t),
            out@ == join_sep(views_of(terms@).take(i as int)),
        decreases n - i,
    {
        if i > 0 {
            out.append(" & ");
        }
        out.append(terms[i].as_str());
        proof {
            reveal_strlit(" & ");
            let vs = views_of(terms@);
            assert(vs.take(i + 1).drop_last() =~= vs.take(i as int));
            assert(vs.take(i + 1).last() == vs[i as int]);
            if i == 0 {
                assert(out@ =~= join_sep(vs.take(1)));
            } else {
                assert(out@ =~= join_sep(vs.take(i as int)) + seq![' ', '&', ' '] + vs[i as int]);
            }
        }
        i = i + 1;
    }
    proof {
        assert(views_of(terms@).take(n as int) =~= views_of(terms@));
    }
    out
}

/// One term of a rendering: a non-negative decimal count followed by a unit
/// label, with a plural 's' exactly when the count is not one.
pub open spec fn is_unit_term(s: Seq<char>) -> bool {
    exists|c: int, u: int| c >= 0 && 0 <= u < 5 && s == #[trigger] unit_term(c, label_of(u))
}

proof fn lemma_unit_term_witness(c: int, u: int)
    requires
        c >= 0,
        0 <= u < 5,
    ensures
        is_unit_term(unit_term(c, label_of(u))),
{
    assert(c >= 0 && 0 <= u < 5 && unit_term(c, label_of(u)) == unit_term(c, label_of(u)));
}

/// Shape of every rendering of a non-negative second count: it is never
/// empty, holds at most two unit terms, and each term carries its count with
/// the unit label pluralized exactly when the count is not one.
pub proof fn lemma_duration_terms_shape(t: int)
    requires
        t >= 0,
    ensures
        1 <= duration_terms(t).len() <= 2,
        forall|i: int|
            0 <= i < duration_terms(t).len() ==> is_unit_term(#[trigger] duration_terms(t)[i]),
{
    assert(weeks_of(t) >= 0 && days_of(t) >= 0 && hours_of(t) >= 0 && minutes_of(t) >= 0
        && seconds_of(t) >= 0) by (nonlinear_arith)
        requires
            t >= 0,
    ;
    lemma_unit_term_witness(weeks_of(t), 0);
    lemma_unit_term_witness(days_of(t), 1);
    lemma_unit_term_witness(hours_of(t), 2);
    lemma_unit_term_witness(minutes_of(t), 3);
    lemma_unit_term_witness(seconds_of(t), 4);
}

} // verus!
