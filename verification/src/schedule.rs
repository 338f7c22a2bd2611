//! The timetable: the loaded classes and assignments together with the
//! template set, projected into two time-sorted lists of rendered status
//! lines against one shared reference instant.

use vstd::prelude::*;
use vstd::string::*;
use vstd::seq_lib::{to_multiset_build, to_multiset_insert};
use crate::clock::{due_parse, local_now};
use crate::duration::spec_format_time;
use crate::errors::LoadError;
use crate::render::{
    Assignment, Class, ClassState, Format, spec_render_assignment, spec_render_class,
};
use crate::weekly::{
    LocalInstant, spec_next_of_day_time, spec_parse_time, spec_parse_weekday,
    next_occurrence_of_day_time,
};

verus! {

/// The views of rendered (text, sort-key) pairs.
pub open spec fn pair_views(s: Seq<(String, i64)>) -> Seq<(Seq<char>, int)> {
    s.map_values(|p: (String, i64)| (p.0@, p.1 as int))
}

/// Ascending order of the sort keys.
pub open spec fn sorted_by_key(s: Seq<(Seq<char>, int)>) -> bool {
    forall|i: int, j: int| 0 <= i < j < s.len() ==> s[i].1 <= s[j].1
}

/// The texts of rendered pairs, keys dropped.
pub open spec fn texts_of(s: Seq<(Seq<char>, int)>) -> Seq<Seq<char>> {
    s.map_values(|p: (Seq<char>, int)| p.0)
}

/// Inserts a line into a key-sorted run, after every line whose key is at
/// most its own: a later input line stays after earlier lines of equal key.
pub open spec fn spec_insert_sorted(
    s: Seq<(Seq<char>, int)>,
    x: (Seq<char>, int),
) -> Seq<(Seq<char>, int)>
    decreases s.len(),
{
    if s.len() == 0 {
        seq![x]
    } else if s[0].1 <= x.1 {
        seq![s[0]] + spec_insert_sorted(s.drop_first(), x)
    } else {
        seq![x] + s
    }
}

/// The stable ascending-by-key sort: lines are taken in input order and
/// each is placed after every line already placed whose key is at most its
/// own, so lines with equal keys keep their input order.
pub open spec fn spec_stable_sort(s: Seq<(Seq<char>, int)>) -> Seq<(Seq<char>, int)>
    decreases s.len(),
{
    if s.len() == 0 {
        s
    } else {
        spec_insert_sorted(spec_stable_sort(s.drop_last()), s.last())
    }
}

/// Inserting after exactly the leading run of keys at most `x.1` is the
/// positional insert at the end of that run.
proof fn lemma_insert_sorted_at(s: Seq<(Seq<char>, int)>, x: (Seq<char>, int), pos: int)
    requires
        0 <= pos <= s.len(),
        forall|j: int| 0 <= j < pos ==> (#[trigger] s[j]).1 <= x.1,
        pos < s.len() ==> s[pos].1 > x.1,
    ensures
        spec_insert_sorted(s, x) == s.insert(pos, x),
    decreases s.len(),
{
    if s.len() == 0 {
        assert(spec_insert_sorted(s, x) =~= s.insert(0, x));
    } else if pos == 0 {
        assert(seq![x] + s =~= s.insert(0, x));
    } else {
        assert(forall|j: int| 0 <= j < pos - 1 ==> (#[trigger] s.drop_first()[j]).1 <= x.1);
        assert(pos - 1 < s.drop_first().len() ==> s.drop_first()[pos - 1].1 > x.1);
        lemma_insert_sorted_at(s.drop_first(), x, pos - 1);
        assert(seq![s[0]] + s.drop_first().insert(pos - 1, x) =~= s.insert(pos, x));
    }
}

/// Sorts rendered lines ascending by their sort key, stably: the result is
/// exactly the stable sort of the input, so it keeps the same lines and,
/// among equal keys, their input order.
fn sort_pairs_by_key(v: Vec<(String, i64)>) -> (r: Vec<(String, i64)>)
    ensures
        r@.len() == v@.len(),
        pair_views(r@) == spec_stable_sort(pair_views(v@)),
        sorted_by_key(pair_views(r@)),
        pair_views(r@).to_multiset() == pair_views(v@).to_multiset(),
{
    let n = v.len();
    let mut out: Vec<(String, i64)> = Vec::new();
    let mut idx: usize = 0;
    proof {
        assert(pair_views(out@) =~= pair_views(v@).take(0));
        assert(pair_views(out@) =~= spec_stable_sort(pair_views(v@).take(0)));
    }
    while idx < n
        invariant
            0 <= idx <= n,
            n == v@.len(),
            out@.len() == idx,
            pair_views(out@) == spec_stable_sort(pair_views(v@).take(idx as int)),
            sorted_by_key(pair_views(out@)),
            pair_views(out@).to_multiset() == pair_views(v@).take(idx as int).to_multiset(),
        decreases n - idx,
    {
        let p = (v[idx].0.clone(), v[idx].1);
        let key = p.1;
        let mut pos: usize = 0;
        while pos < out.len() && out[pos].1 <= key
            invariant
                0 <= pos <= out@.len(),
                forall|j: int| 0 <= j < pos ==> (#[trigger] out@[j]).1 <= key,
            decreases out@.len() - pos,
        {
            pos = pos + 1;
        }
        let ghost old_out = out@;
        let ghost x = (p.0@, p.1 as int);
        out.insert(pos, p);
        proof {
            assert(pair_views(out@) =~= pair_views(old_out).insert(pos as int, x));
            assert(forall|j: int| 0 <= j < pos ==> (#[trigger] pair_views(old_out)[j]).1 <= x.1);
            lemma_insert_sorted_at(pair_views(old_out), x, pos as int);
            assert(pair_views(v@).take(idx + 1).drop_last() =~= pair_views(v@).take(idx as int));
            assert(pair_views(v@).take(idx + 1).last() == x);
            assert(pair_views(out@) == spec_stable_sort(pair_views(v@).take(idx + 1)));
            let pvo = pair_views(old_out);
            let pvn = pair_views(out@);
            assert forall|a: int, b: int| 0 <= a < b < pvn.len() implies pvn[a].1 <= pvn[b].1 by {
                if a < pos && b < pos {
                    assert(pvn[a] == pvo[a] && pvn[b] == pvo[b]);
                } else if a < pos && b == pos {
                    assert(pvn[a] == pvo[a] && pvn[b] == x);
                } else if a == pos && pos < b {
                    assert(pvn[a] == x && pvn[b] == pvo[b - 1]);
                    assert(pvo[pos as int].1 > x.1);
                } else if a < pos && pos < b {
                    assert(pvn[a] == pvo[a] && pvn[b] == pvo[b - 1]);
                } else {
                    assert(pvn[a] == pvo[a - 1] && pvn[b] == pvo[b - 1]);
                }
            }
            to_multiset_insert(pair_views(old_out), pos as int, x);
            assert(pair_views(v@).take(idx + 1) =~= pair_views(v@).take(idx as int).push(x));
            to_multiset_build(pair_views(v@).take(idx as int), x);
        }
        idx = idx + 1;
    }
    proof {
        assert(pair_views(v@).take(n as int) =~= pair_views(v@));
    }
    out
}

/// A loaded input file: the class records, the assignment records, and the
/// template set.
pub struct Timetable {
    pub class: Vec<Class>,
    pub assignment: Vec<Assignment>,
    pub format: Format,
}

/// A class record is well formed when its weekday name and both of its
/// times of day parse.
pub open spec fn spec_class_ok(c: Class) -> bool {
    &&& spec_parse_weekday(c.day@) is Some
    &&& spec_parse_time(c.start_time@) is Some
    &&& spec_parse_time(c.end_time@) is Some
}

/// The error a malformed class record produces: its weekday is checked
/// first, then its start time, then its end time.
pub open spec fn spec_class_error(c: Class, e: LoadError) -> bool {
    if spec_parse_weekday(c.day@) is None {
        e matches LoadError::InvalidWeekday(v) && v@ == c.day@
    } else if spec_parse_time(c.start_time@) is None {
        e matches LoadError::InvalidTime(v) && v@ == c.start_time@
    } else {
        e matches LoadError::InvalidTime(v) && v@ == c.end_time@
    }
}

/// The rendered line and sort key of one class. When the next end
/// occurrence is not after the next start occurrence the class is in
/// session: it renders under the in-class template with the time until its
/// end; otherwise under the next-class template with the time until its
/// start. The relevant occurrence instant is the sort key.
pub open spec fn spec_class_pair(c: Class, f: Format, now: LocalInstant) -> (Seq<char>, int)
    recommends
        spec_class_ok(c),
{
    let s_occ = spec_next_of_day_time(now, c.day@, c.start_time@)->Some_0;
    let e_occ = spec_next_of_day_time(now, c.day@, c.end_time@)->Some_0;
    if e_occ <= s_occ {
        (spec_render_class(c, f.in_class_format@, spec_format_time(e_occ - now.ts)), e_occ)
    } else {
        (spec_render_class(c, f.next_class_format@, spec_format_time(s_occ - now.ts)), s_occ)
    }
}

/// Every class record of the timetable is well formed.
pub open spec fn spec_classes_wf(t: Timetable) -> bool {
    forall|i: int| 0 <= i < t.class@.len() ==> spec_class_ok(#[trigger] t.class@[i])
}

/// The rendered pairs of all classes, in input order.
pub open spec fn spec_class_pairs(t: Timetable, now: LocalInstant) -> Seq<(Seq<char>, int)> {
    t.class@.map_values(|c: Class| spec_class_pair(c, t.format, now))
}

/// Renders one class against the reference instant: the in-class template
/// and end occurrence when the class is in session (next end at or before
/// next start), else the next-class template and start occurrence.
pub fn class_line_at(c: &Class, f: &Format, now: &LocalInstant) -> (r: Result<
    (String, i64),
    LoadError,
>)
    requires
        now.wf(),
    ensures
        r is Ok <==> spec_class_ok(*c),
        r matches Ok(p) ==> ({
            let s_occ = spec_next_of_day_time(*now, c.day@, c.start_time@)->Some_0;
            let e_occ = spec_next_of_day_time(*now, c.day@, c.end_time@)->Some_0;
            &&& (e_occ <= s_occ ==> p.1 == e_occ && p.0@ == spec_render_class(
                *c,
                f.in_class_format@,
                spec_format_time(e_occ - now.ts),
            ))
            &&& (e_occ > s_occ ==> p.1 == s_occ && p.0@ == spec_render_class(
                *c,
                f.next_class_format@,
                spec_format_time(s_occ - now.ts),
            ))
            &&& (p.0@, p.1 as int) == spec_class_pair(*c, *f, *now)
        }),
        r matches Err(e) ==> !spec_class_ok(*c) && spec_class_error(*c, e),
{
    let start_ts = match next_occurrence_of_day_time(now, c.day.as_str(), c.start_time.as_str()) {
        Ok(ts) => ts,
        Err(e) => {
            return Err(e);
        },
    };
    let end_ts = match next_occurrence_of_day_time(now, c.day.as_str(), c.end_time.as_str()) {
        Ok(ts) => ts,
        Err(e) => {
            return Err(e);
        },
    };
    let (template, in_class, relevant) = if end_ts <= start_ts {
        (f.in_class_format.clone(), ClassState::InClass, end_ts)
    } else {
        (f.next_class_format.clone(), ClassState::OutOfClass, start_ts)
    };
    match c.format_class_string(template, in_class, now) {
        Ok(text) => Ok((text, relevant)),
        Err(_) => unreached(),
    }
}

/// An assignment record is well formed when its due date matches the
/// configured format.
pub open spec fn spec_assignment_ok(a: Assignment, f: Format) -> bool {
    due_parse(a.due_date@, f.assignment_time_format@) is Some
}

/// The rendered line and sort key of one assignment: the overdue template
/// when the due instant lies before the reference instant, the upcoming
/// template otherwise, with the absolute distance as the duration; the
/// literal due instant is the sort key either way.
pub open spec fn spec_assignment_pair(a: Assignment, f: Format, now_ts: int) -> (Seq<char>, int)
    recommends
        spec_assignment_ok(a, f),
{
    let due = due_parse(a.due_date@, f.assignment_time_format@)->Some_0 as int;
    if due < now_ts {
        (
            spec_render_assignment(a, f.assignment_overdue_format@, spec_format_time(now_ts - due)),
            due,
        )
    } else {
        (spec_render_assignment(a, f.assignment_format@, spec_format_time(due - now_ts)), due)
    }
}

/// Every assignment record of the timetable is well formed.
pub open spec fn spec_assignments_wf(t: Timetable) -> bool {
    forall|i: int|
        0 <= i < t.assignment@.len() ==> spec_assignment_ok(#[trigger] t.assignment@[i], t.format)
}

/// The rendered pairs of all assignments, in input order.
pub open spec fn spec_assignment_pairs(t: Timetable, now_ts: int) -> Seq<(Seq<char>, int)> {
    t.assignment@.map_values(|a: Assignment| spec_assignment_pair(a, t.format, now_ts))
}

/// Renders one assignment against the reference timestamp: the overdue
/// template exactly when the due instant is before the reference instant.
pub fn assignment_line_at(a: &Assignment, f: &Format, now_ts: i64) -> (r: Result<
    (String, i64),
    LoadError,
>)
    requires
        -10_000_000_000_000 <= now_ts <= 10_000_000_000_000,
    ensures
        r is Ok <==> spec_assignment_ok(*a, *f),
        r matches Ok(p) ==> ({
            let due = due_parse(a.due_date@, f.assignment_time_format@)->Some_0;
            &&& p.1 == due
            &&& (due < now_ts ==> p.0@ == spec_render_assignment(
                *a,
                f.assignment_overdue_format@,
                spec_format_time(now_ts - due),
            ))
            &&& (due >= now_ts ==> p.0@ == spec_render_assignment(
                *a,
                f.assignment_format@,
                spec_format_time(due - now_ts),
            ))
            &&& (p.0@, p.1 as int) == spec_assignment_pair(*a, *f, now_ts as int)
        }),
        r matches Err(e) ==> !spec_assignment_ok(*a, *f) && (e matches LoadError::InvalidDueDate(v)
            && v@ == a.due_date@),
{
    match a.get_time_at(f.assignment_time_format.as_str(), now_ts) {
        Err(e) => Err(e),
        Ok((time, due, state)) => {
            let text = a.format_assignment_string(time, state, f);
            Ok((text, due))
        },
    }
}

/// The class lines rendered against one instant: the texts of the stable
/// ascending-by-key sort of the rendered (text, key) pairs.
pub open spec fn spec_class_lines_for(t: Timetable, now: LocalInstant, lines: Seq<String>) -> bool {
    lines.map_values(|s: String| s@) == texts_of(spec_stable_sort(spec_class_pairs(t, now)))
}

/// The assignment lines rendered against one timestamp, likewise.
pub open spec fn spec_assignment_lines_for(t: Timetable, now_ts: int, lines: Seq<String>) -> bool {
    lines.map_values(|s: String| s@) == texts_of(spec_stable_sort(spec_assignment_pairs(t, now_ts)))
}

impl Timetable {
    /// Renders every class against one reference instant and sorts the
    /// lines ascending by their relevant occurrence instant, keys kept.
    /// Fails on the first malformed class record, in input order.
    pub fn list_class_lines_at(&self, now: &LocalInstant) -> (r: Result<
        Vec<(String, i64)>,
        LoadError,
    >)
        requires
            now.wf(),
        ensures
            r is Ok <==> spec_classes_wf(*self),
            r matches Ok(lines) ==> ({
                &&& lines@.len() == self.class@.len()
                &&& pair_views(lines@) == spec_stable_sort(spec_class_pairs(*self, *now))
                &&& sorted_by_key(pair_views(lines@))
                &&& pair_views(lines@).to_multiset() == spec_class_pairs(
                    *self,
                    *now,
                ).to_multiset()
            }),
            r matches Err(e) ==> exists|i: int|
                {
                    &&& 0 <= i < self.class@.len()
                    &&& !spec_class_ok(#[trigger] self.class@[i])
                    &&& spec_class_error(self.class@[i], e)
                    &&& forall|j: int| 0 <= j < i ==> spec_class_ok(#[trigger] self.class@[j])
                },
    {
        let mut pairs: Vec<(String, i64)> = Vec::new();
        let n = self.class.len();
        let mut idx: usize = 0;
        proof {
            assert(pair_views(pairs@) =~= spec_class_pairs(*self, *now).take(0));
        }
        while idx < n
            invariant
                0 <= idx <= n,
                n == self.class@.len(),
                now.wf(),
                pair_views(pairs@) == spec_class_pairs(*self, *now).take(idx as int),
                pairs@.len() == idx,
                forall|j: int| 0 <= j < idx ==> spec_class_ok(#[trigger] self.class@[j]),
            decreases n - idx,
        {
            match class_line_at(&self.class[idx], &self.format, now) {
                Ok(p) => {
                    let ghost old_pairs = pairs@;
                    pairs.push(p);
                    proof {
                        assert(pair_views(pairs@) =~= pair_views(old_pairs).push(
                            (p.0@, p.1 as int),
                        ));
                        assert(pair_views(pairs@) =~= spec_class_pairs(*self, *now).take(
                            idx + 1,
                        ));
                    }
                },
                Err(e) => {
                    proof {
                        let i = idx as int;
                        assert(0 <= i < self.class@.len() && !spec_class_ok(self.class@[i])
                            && spec_class_error(self.class@[i], e) && (forall|j: int|
                            0 <= j < i ==> spec_class_ok(#[trigger] self.class@[j])));
                    }
                    return Err(e);
                },
            }
            idx = idx + 1;
        }
        proof {
            assert(spec_class_pairs(*self, *now).take(n as int) =~= spec_class_pairs(
                *self,
                *now,
            ));
        }
        Ok(sort_pairs_by_key(pairs))
    }

    /// Renders every class against one reference instant: the rendered
    /// texts, ascending by relevant occurrence instant. Succeeds exactly
    /// when every class record is well formed.
    pub fn list_classes_at(&self, now: &LocalInstant) -> (r: Result<Vec<String>, LoadError>)
        requires
            now.wf(),
        ensures
            r is Ok <==> spec_classes_wf(*self),
            r matches Ok(lines) ==> lines@.len() == self.class@.len() && spec_class_lines_for(
                *self,
                *now,
                lines@,
            ),
            r matches Err(e) ==> exists|i: int|
                {
                    &&& 0 <= i < self.class@.len()
                    &&& !spec_class_ok(#[trigger] self.class@[i])
                    &&& spec_class_error(self.class@[i], e)
                    &&& forall|j: int| 0 <= j < i ==> spec_class_ok(#[trigger] self.class@[j])
                },
    {
        match self.list_class_lines_at(now) {
            Err(e) => Err(e),
            Ok(pairs) => {
                let mut lines: Vec<String> = Vec::new();
                let m = pairs.len();
                let mut i: usize = 0;
                while i < m
                    invariant
                        0 <= i <= m,
                        m == pairs@.len(),
                        lines@.len() == i,
                        forall|j: int| 0 <= j < i ==> lines@[j]@ == pairs@[j].0@,
                    decreases m - i,
                {
                    lines.push(pairs[i].0.clone());
                    i = i + 1;
                }
                proof {
                    assert(lines@.map_values(|s: String| s@) =~= texts_of(pair_views(pairs@)));
                    assert(spec_class_lines_for(*self, *now, lines@));
                }
                Ok(lines)
            },
        }
    }

    /// Renders every class against the current instant, sampled once for
    /// the whole pass. Succeeds exactly when every class record is well
    /// formed.
    pub fn list_classes(&self) -> (r: Result<Vec<String>, LoadError>)
        ensures
            r is Ok <==> spec_classes_wf(*self),
            r matches Ok(lines) ==> lines@.len() == self.class@.len() && exists|now: LocalInstant|
                now.wf() && #[trigger] spec_class_lines_for(*self, now, lines@),
            r matches Err(e) ==> exists|i: int|
                {
                    &&& 0 <= i < self.class@.len()
                    &&& !spec_class_ok(#[trigger] self.class@[i])
                    &&& spec_class_error(self.class@[i], e)
                    &&& forall|j: int| 0 <= j < i ==> spec_class_ok(#[trigger] self.class@[j])
                },
    {
        let now = local_now();
        self.list_classes_at(&now)
    }

    /// Renders every assignment against one reference timestamp and sorts
    /// the lines ascending by due instant, keys kept. Fails on the first
    /// assignment whose due date does not match the configured format.
    pub fn list_assignment_lines_at(&self, now_ts: i64) -> (r: Result<
        Vec<(String, i64)>,
        LoadError,
    >)
        requires
            -10_000_000_000_000 <= now_ts <= 10_000_000_000_000,
        ensures
            r is Ok <==> spec_assignments_wf(*self),
            r matches Ok(lines) ==> ({
                &&& lines@.len() == self.assignment@.len()
                &&& pair_views(lines@) == spec_stable_sort(
                    spec_assignment_pairs(*self, now_ts as int),
                )
                &&& sorted_by_key(pair_views(lines@))
                &&& pair_views(lines@).to_multiset() == spec_assignment_pairs(
                    *self,
                    now_ts as int,
                ).to_multiset()
            }),
            r matches Err(e) ==> exists|i: int|
                {
                    &&& 0 <= i < self.assignment@.len()
                    &&& !spec_assignment_ok(#[trigger] self.assignment@[i], self.format)
                    &&& (e matches LoadError::InvalidDueDate(v) && v@ == self.assignment@[i].due_date@)
                    &&& forall|j: int|
                        0 <= j < i ==> spec_assignment_ok(
                            #[trigger] self.assignment@[j],
                            self.format,
                        )
                },
    {
        let mut pairs: Vec<(String, i64)> = Vec::new();
        let n = self.assignment.len();
        let mut idx: usize = 0;
        proof {
            assert(pair_views(pairs@) =~= spec_assignment_pairs(*self, now_ts as int).take(0));
        }
        while idx < n
            invariant
                0 <= idx <= n,
                n == self.assignment@.len(),
                -10_000_000_000_000 <= now_ts <= 10_000_000_000_000,
                pair_views(pairs@) == spec_assignment_pairs(*self, now_ts as int).take(idx as int),
                pairs@.len() == idx,
                forall|j: int|
                    0 <= j < idx ==> spec_assignment_ok(
                        #[trigger] self.assignment@[j],
                        self.format,
                    ),
            decreases n - idx,
        {
            match assignment_line_at(&self.assignment[idx], &self.format, now_ts) {
                Ok(p) => {
                    let ghost old_pairs = pairs@;
                    pairs.push(p);
                    proof {
                        assert(pair_views(pairs@) =~= pair_views(old_pairs).push(
                            (p.0@, p.1 as int),
                        ));
                        assert(pair_views(pairs@) =~= spec_assignment_pairs(
                            *self,
                            now_ts as int,
                        ).take(idx + 1));
                    }
                },
                Err(e) => {
                    proof {
                        let i = idx as int;
                        assert(0 <= i < self.assignment@.len() && !spec_assignment_ok(
                            self.assignment@[i],
                            self.format,
                        ) && (forall|j: int|
                            0 <= j < i ==> spec_assignment_ok(
                                #[trigger] self.assignment@[j],
                                self.format,
                            )));
                    }
                    return Err(e);
                },
            }
            idx = idx + 1;
        }
        proof {
            assert(spec_assignment_pairs(*self, now_ts as int).take(n as int)
                =~= spec_assignment_pairs(*self, now_ts as int));
        }
        Ok(sort_pairs_by_key(pairs))
    }

    /// Renders every assignment against one reference timestamp: the
    /// rendered texts, ascending by due instant. Succeeds exactly when
    /// every due date matches the configured format.
    pub fn list_assignments_at(&self, now_ts: i64) -> (r: Result<Vec<String>, LoadError>)
        requires
            -10_000_000_000_000 <= now_ts <= 10_000_000_000_000,
        ensures
            r is Ok <==> spec_assignments_wf(*self),
            r matches Ok(lines) ==> lines@.len() == self.assignment@.len()
                && spec_assignment_lines_for(*self, now_ts as int, lines@),
            r matches Err(e) ==> exists|i: int|
                {
                    &&& 0 <= i < self.assignment@.len()
                    &&& !spec_assignment_ok(#[trigger] self.assignment@[i], self.format)
                    &&& (e matches LoadError::InvalidDueDate(v) && v@ == self.assignment@[i].due_date@)
                    &&& forall|j: int|
                        0 <= j < i ==> spec_assignment_ok(
                            #[trigger] self.assignment@[j],
                            self.format,
                        )
                },
    {
        match self.list_assignment_lines_at(now_ts) {
            Err(e) => Err(e),
            Ok(pairs) => {
                let mut lines: Vec<String> = Vec::new();
                let m = pairs.len();
                let mut i: usize = 0;
                while i < m
                    invariant
                        0 <= i <= m,
                        m == pairs@.len(),
                        lines@.len() == i,
                        forall|j: int| 0 <= j < i ==> lines@[j]@ == pairs@[j].0@,
                    decreases m - i,
                {
                    lines.push(pairs[i].0.clone());
                    i = i + 1;
                }
                proof {
                    assert(lines@.map_values(|s: String| s@) =~= texts_of(pair_views(pairs@)));
                    assert(spec_assignment_lines_for(*self, now_ts as int, lines@));
                }
                Ok(lines)
            },
        }
    }

    /// Renders every assignment against the current instant, sampled once
    /// for the whole pass. Succeeds exactly when every due date matches
    /// the configured format.
    pub fn list_assignments(&self) -> (r: Result<Vec<String>, LoadError>)
        ensures
            r is Ok <==> spec_assignments_wf(*self),
            r matches Ok(lines) ==> lines@.len() == self.assignment@.len() && exists|now_ts: int|
                #[trigger] spec_assignment_lines_for(*self, now_ts, lines@),
            r matches Err(e) ==> exists|i: int|
                {
                    &&& 0 <= i < self.assignment@.len()
                    &&& !spec_assignment_ok(#[trigger] self.assignment@[i], self.format)
                    &&& (e matches LoadError::InvalidDueDate(v) && v@ == self.assignment@[i].due_date@)
                    &&& forall|j: int|
                        0 <= j < i ==> spec_assignment_ok(
                            #[trigger] self.assignment@[j],
                            self.format,
                        )
                },
    {
        let now = local_now();
        self.list_assignments_at(now.ts)
    }
}

} // verus!
