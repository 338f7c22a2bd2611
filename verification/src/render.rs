//! The loaded event records and their rendering: template strings with
//! brace-delimited placeholders, substituted with the event's fields and one
//! computed duration string.

use vstd::prelude::*;
use vstd::string::*;
use crate::clock::{due_parse, local_now, parse_due_date};
use crate::duration::{TimeState, spec_format_time, spec_time_state, format_time};
use crate::errors::LoadError;
use crate::strutil::{spec_subst, substitute, pairs_views};
use crate::weekly::{
    LocalInstant, spec_next_of_day_time, spec_parse_time, spec_parse_weekday,
    next_occurrence_of_day_time,
};

verus! {

/// Whether a class's current occurrence has started but not yet ended.
#[derive(PartialEq, Eq, Structural, Clone, Copy, Debug)]
pub enum ClassState {
    InClass,
    OutOfClass,
}

/// The five configured template strings: one for a class in session, one
/// for an upcoming class, one for an upcoming assignment, one for an
/// overdue assignment, and the format under which due dates are parsed.
pub struct Format {
    pub in_class_format: String,
    pub next_class_format: String,
    pub assignment_format: String,
    pub assignment_overdue_format: String,
    pub assignment_time_format: String,
}

/// A weekly recurring class: a weekday name, a start and an end time of day
/// in "HH:MM", and free-text name and location.
pub struct Class {
    pub name: String,
    pub day: String,
    pub start_time: String,
    pub end_time: String,
    pub location: String,
}

/// A dated assignment: free-text name and points, and a due date in the
/// configured textual format.
pub struct Assignment {
    pub name: String,
    pub points: String,
    pub due_date: String,
}

/// The (placeholder, value) pairs a class renders with.
pub open spec fn class_subst_pairs(c: Class, time: Seq<char>) -> Seq<(Seq<char>, Seq<char>)> {
    seq![
        ("{name}"@, c.name@),
        ("{day}"@, c.day@),
        ("{start_time}"@, c.start_time@),
        ("{end_time}"@, c.end_time@),
        ("{location}"@, c.location@),
        ("{time}"@, time),
    ]
}

/// A class template rendered: one left-to-right substitution pass over the
/// template with the class's fields and the computed duration string. A
/// recognized placeholder inside an inserted field value is not itself
/// substituted, and unrecognized tokens stay verbatim.
pub open spec fn spec_render_class(c: Class, template: Seq<char>, time: Seq<char>) -> Seq<char> {
    spec_subst(template, class_subst_pairs(c, time))
}

/// The (placeholder, value) pairs an assignment renders with.
pub open spec fn assignment_subst_pairs(a: Assignment, time: Seq<char>) -> Seq<
    (Seq<char>, Seq<char>),
> {
    seq![
        ("{name}"@, a.name@),
        ("{points}"@, a.points@),
        ("{due_date}"@, a.due_date@),
        ("{time}"@, time),
    ]
}

/// An assignment template rendered in the same single pass.
pub open spec fn spec_render_assignment(
    a: Assignment,
    template: Seq<char>,
    time: Seq<char>,
) -> Seq<char> {
    spec_subst(template, assignment_subst_pairs(a, time))
}

/// The time-of-day text a class state renders with: the end time while in
/// session, the start time otherwise.
pub open spec fn spec_relevant_time(c: Class, in_class: ClassState) -> Seq<char> {
    match in_class {
        ClassState::InClass => c.end_time@,
        ClassState::OutOfClass => c.start_time@,
    }
}

impl Class {
    /// How long until this class next starts, as a duration string,
    /// relative to the given reference instant.
    pub fn get_start_time_at(&self, now: &LocalInstant) -> (r: Result<String, LoadError>)
        requires
            now.wf(),
        ensures
            r is Ok <==> spec_next_of_day_time(*now, self.day@, self.start_time@) is Some,
            r matches Ok(s) ==> s@ == spec_format_time(
                spec_next_of_day_time(*now, self.day@, self.start_time@)->Some_0 - now.ts,
            ),
            r matches Err(e) ==> ({
                if spec_parse_weekday(self.day@) is None {
                    e matches LoadError::InvalidWeekday(v) && v@ == self.day@
                } else {
                    e matches LoadError::InvalidTime(v) && v@ == self.start_time@
                }
            }),
    {
        match next_occurrence_of_day_time(now, self.day.as_str(), self.start_time.as_str()) {
            Ok(ts) => Ok(format_time(ts - now.ts)),
            Err(e) => Err(e),
        }
    }

    /// How long until this class next ends, as a duration string, relative
    /// to the given reference instant.
    pub fn get_end_time_at(&self, now: &LocalInstant) -> (r: Result<String, LoadError>)
        requires
            now.wf(),
        ensures
            r is Ok <==> spec_next_of_day_time(*now, self.day@, self.end_time@) is Some,
            r matches Ok(s) ==> s@ == spec_format_time(
                spec_next_of_day_time(*now, self.day@, self.end_time@)->Some_0 - now.ts,
            ),
            r matches Err(e) ==> ({
                if spec_parse_weekday(self.day@) is None {
                    e matches LoadError::InvalidWeekday(v) && v@ == self.day@
                } else {
                    e matches LoadError::InvalidTime(v) && v@ == self.end_time@
                }
            }),
    {
        match next_occurrence_of_day_time(now, self.day.as_str(), self.end_time.as_str()) {
            Ok(ts) => Ok(format_time(ts - now.ts)),
            Err(e) => Err(e),
        }
    }

    /// How long until this class next starts, relative to the current
    /// instant, sampled once. Succeeds exactly when the weekday and start
    /// time parse, and the string is the rendered distance to the next
    /// start occurrence for some well-formed sampled instant.
    pub fn get_start_time(&self) -> (r: Result<String, LoadError>)
        ensures
            r is Ok <==> (spec_parse_weekday(self.day@) is Some && spec_parse_time(
                self.start_time@,
            ) is Some),
            r matches Ok(s) ==> exists|now: LocalInstant|
                {
                    &&& now.wf()
                    &&& #[trigger] spec_next_of_day_time(now, self.day@, self.start_time@) is Some
                    &&& s@ == spec_format_time(
                        spec_next_of_day_time(now, self.day@, self.start_time@)->Some_0 - now.ts,
                    )
                },
    {
        let now = local_now();
        let r = self.get_start_time_at(&now);
        proof {
            if r is Ok {
                assert(now.wf() && spec_next_of_day_time(now, self.day@, self.start_time@) is Some
                    && r->Ok_0@ == spec_format_time(
                    spec_next_of_day_time(now, self.day@, self.start_time@)->Some_0 - now.ts,
                ));
            }
        }
        r
    }

    /// How long until this class next ends, relative to the current
    /// instant, sampled once. Succeeds exactly when the weekday and end
    /// time parse, and the string is the rendered distance to the next end
    /// occurrence for some well-formed sampled instant.
    pub fn get_end_time(&self) -> (r: Result<String, LoadError>)
        ensures
            r is Ok <==> (spec_parse_weekday(self.day@) is Some && spec_parse_time(
                self.end_time@,
            ) is Some),
            r matches Ok(s) ==> exists|now: LocalInstant|
                {
                    &&& now.wf()
                    &&& #[trigger] spec_next_of_day_time(now, self.day@, self.end_time@) is Some
                    &&& s@ == spec_format_time(
                        spec_next_of_day_time(now, self.day@, self.end_time@)->Some_0 - now.ts,
                    )
                },
    {
        let now = local_now();
        let r = self.get_end_time_at(&now);
        proof {
            if r is Ok {
                assert(now.wf() && spec_next_of_day_time(now, self.day@, self.end_time@) is Some
                    && r->Ok_0@ == spec_format_time(
                    spec_next_of_day_time(now, self.day@, self.end_time@)->Some_0 - now.ts,
                ));
            }
        }
        r
    }

    /// Renders this class under the given template: every placeholder is
    /// replaced by the class's field, and `{time}` by the duration until the
    /// class next ends (in session) or next starts (out of session),
    /// measured from the given reference instant.
    pub fn format_class_string(
        &self,
        format_string: String,
        in_class: ClassState,
        now: &LocalInstant,
    ) -> (r: Result<String, LoadError>)
        requires
            now.wf(),
        ensures
            r is Ok <==> spec_next_of_day_time(
                *now,
                self.day@,
                spec_relevant_time(*self, in_class),
            ) is Some,
            r matches Ok(s) ==> s@ == spec_render_class(
                *self,
                format_string@,
                spec_format_time(
                    spec_next_of_day_time(*now, self.day@, spec_relevant_time(*self, in_class))->Some_0
                        - now.ts,
                ),
            ),
            r matches Err(e) ==> ({
                if spec_parse_weekday(self.day@) is None {
                    e matches LoadError::InvalidWeekday(v) && v@ == self.day@
                } else {
                    e matches LoadError::InvalidTime(v) && v@ == spec_relevant_time(
                        *self,
                        in_class,
                    )
                }
            }),
    {
        let time = match in_class {
            ClassState::InClass => self.get_end_time_at(now),
            ClassState::OutOfClass => self.get_start_time_at(now),
        };
        let time = match time {
            Ok(t) => t,
            Err(e) => {
                return Err(e);
            },
        };
        let mut pairs: Vec<(String, String)> = Vec::new();
        pairs.push(("{name}".to_owned(), self.name.clone()));
        pairs.push(("{day}".to_owned(), self.day.clone()));
        pairs.push(("{start_time}".to_owned(), self.start_time.clone()));
        pairs.push(("{end_time}".to_owned(), self.end_time.clone()));
        pairs.push(("{location}".to_owned(), self.location.clone()));
        pairs.push(("{time}".to_owned(), time));
        proof {
            assert(pairs_views(pairs@) =~= class_subst_pairs(*self, pairs@[5].1@));
        }
        Ok(substitute(format_string.as_str(), &pairs))
    }
}

impl Assignment {
    /// The duration string, due instant, and past/future classification of
    /// this assignment's due date, parsed under the given format and
    /// measured from the given reference timestamp.
    pub fn get_time_at(&self, format: &str, now_ts: i64) -> (r: Result<
        (String, i64, TimeState),
        LoadError,
    >)
        requires
            -10_000_000_000_000 <= now_ts <= 10_000_000_000_000,
        ensures
            r is Ok <==> due_parse(self.due_date@, format@) is Some,
            r matches Ok(p) ==> ({
                let due = due_parse(self.due_date@, format@)->Some_0;
                &&& p.1 == due
                &&& -10_000_000_000_000 <= due <= 10_000_000_000_000
                &&& p.2 == spec_time_state(due - now_ts)
                &&& p.0@ == spec_format_time(vstd::math::abs(due - now_ts) as int)
            }),
            r matches Err(e) ==> e matches LoadError::InvalidDueDate(v) && v@ == self.due_date@,
    {
        match parse_due_date(self.due_date.as_str(), format) {
            None => Err(LoadError::InvalidDueDate(self.due_date.clone())),
            Some(due_ts) => {
                let diff = due_ts - now_ts;
                let state = if diff >= 0 {
                    TimeState::Future
                } else {
                    TimeState::Past
                };
                Ok((format_time(diff), due_ts, state))
            },
        }
    }

    /// The duration string, due instant, and past/future classification of
    /// this assignment's due date, measured from the current instant,
    /// sampled once. Succeeds exactly when the due date matches the
    /// format; the classification and the string both come from the
    /// distance between the due instant and the one sampled instant.
    pub fn get_time(&self, format: &str) -> (r: Result<(String, i64, TimeState), LoadError>)
        ensures
            r is Ok <==> due_parse(self.due_date@, format@) is Some,
            r matches Ok(p) ==> p.1 == due_parse(self.due_date@, format@)->Some_0,
            r matches Ok(p) ==> exists|now_ts: int|
                {
                    &&& -10_000_000_000_000 <= now_ts <= 10_000_000_000_000
                    &&& p.2 == #[trigger] spec_time_state(p.1 - now_ts)
                    &&& p.0@ == spec_format_time(vstd::math::abs(p.1 - now_ts) as int)
                },
            r matches Err(e) ==> e matches LoadError::InvalidDueDate(v) && v@ == self.due_date@,
    {
        let now = local_now();
        let r = self.get_time_at(format, now.ts);
        proof {
            if r is Ok {
                let p = r->Ok_0;
                assert(-10_000_000_000_000 <= now.ts as int <= 10_000_000_000_000 && p.2
                    == spec_time_state(p.1 - now.ts as int) && p.0@ == spec_format_time(
                    vstd::math::abs(p.1 - now.ts as int) as int,
                ));
            }
        }
        r
    }

    /// Renders this assignment: the overdue template when the due date has
    /// passed, the upcoming template otherwise, with every placeholder
    /// replaced by the assignment's field and `{time}` by the given
    /// duration string.
    pub fn format_assignment_string(
        &self,
        time: String,
        timestate: TimeState,
        format: &Format,
    ) -> (r: String)
        ensures
            timestate == TimeState::Past ==> r@ == spec_render_assignment(
                *self,
                format.assignment_overdue_format@,
                time@,
            ),
            timestate == TimeState::Future ==> r@ == spec_render_assignment(
                *self,
                format.assignment_format@,
                time@,
            ),
    {
        let template = match timestate {
            TimeState::Past => format.assignment_overdue_format.as_str(),
            TimeState::Future => format.assignment_format.as_str(),
        };
        let mut pairs: Vec<(String, String)> = Vec::new();
        pairs.push(("{name}".to_owned(), self.name.clone()));
        pairs.push(("{points}".to_owned(), self.points.clone()));
        pairs.push(("{due_date}".to_owned(), self.due_date.clone()));
        pairs.push(("{time}".to_owned(), time));
        proof {
            assert(pairs_views(pairs@) =~= assignment_subst_pairs(*self, pairs@[3].1@));
        }
        substitute(template, &pairs)
    }
}

/// The class placeholders are brace tokens.
proof fn lemma_class_pairs_brace(c: Class, time: Seq<char>)
    ensures
        crate::strutil::brace_pairs(class_subst_pairs(c, time)),
{
    reveal_strlit("{name}");
    reveal_strlit("{day}");
    reveal_strlit("{start_time}");
    reveal_strlit("{end_time}");
    reveal_strlit("{location}");
    reveal_strlit("{time}");
    assert(crate::strutil::brace_token("{name}"@));
    assert(crate::strutil::brace_token("{day}"@));
    assert(crate::strutil::brace_token("{start_time}"@));
    assert(crate::strutil::brace_token("{end_time}"@));
    assert(crate::strutil::brace_token("{location}"@));
    assert(crate::strutil::brace_token("{time}"@));
    assert forall|k: int|
        0 <= k < class_subst_pairs(c, time).len() implies crate::strutil::brace_token(
        (#[trigger] class_subst_pairs(c, time)[k]).0,
    ) by {
        let ps = class_subst_pairs(c, time);
        assert(ps[0].0 == "{name}"@ && ps[1].0 == "{day}"@ && ps[2].0 == "{start_time}"@
            && ps[3].0 == "{end_time}"@ && ps[4].0 == "{location}"@ && ps[5].0 == "{time}"@);
    }
}

/// An unrecognized brace token in a class template survives rendering
/// verbatim, wherever it stands: the template's two sides render
/// independently around it, and the token itself is copied unchanged.
pub proof fn lemma_render_class_keeps_unknown_token(
    c: Class,
    x: Seq<char>,
    u: Seq<char>,
    y: Seq<char>,
    time: Seq<char>,
)
    requires
        crate::strutil::brace_token(u),
        u != "{name}"@,
        u != "{day}"@,
        u != "{start_time}"@,
        u != "{end_time}"@,
        u != "{location}"@,
        u != "{time}"@,
    ensures
        spec_render_class(c, x + u + y, time) == spec_render_class(c, x, time) + u
            + spec_render_class(c, y, time),
{
    lemma_class_pairs_brace(c, time);
    assert forall|k: int|
        0 <= k < class_subst_pairs(c, time).len() implies (#[trigger] class_subst_pairs(
        c,
        time,
    )[k]).0 != u by {
        let ps = class_subst_pairs(c, time);
        assert(ps[0].0 == "{name}"@ && ps[1].0 == "{day}"@ && ps[2].0 == "{start_time}"@
            && ps[3].0 == "{end_time}"@ && ps[4].0 == "{location}"@ && ps[5].0 == "{time}"@);
    }
    crate::strutil::lemma_subst_keeps_unknown_token(x, u, y, class_subst_pairs(c, time));
}

/// The assignment placeholders are brace tokens.
proof fn lemma_assignment_pairs_brace(a: Assignment, time: Seq<char>)
    ensures
        crate::strutil::brace_pairs(assignment_subst_pairs(a, time)),
{
    reveal_strlit("{name}");
    reveal_strlit("{points}");
    reveal_strlit("{due_date}");
    reveal_strlit("{time}");
    assert(crate::strutil::brace_token("{name}"@));
    assert(crate::strutil::brace_token("{points}"@));
    assert(crate::strutil::brace_token("{due_date}"@));
    assert(crate::strutil::brace_token("{time}"@));
    assert forall|k: int|
        0 <= k < assignment_subst_pairs(a, time).len() implies crate::strutil::brace_token(
        (#[trigger] assignment_subst_pairs(a, time)[k]).0,
    ) by {
        let ps = assignment_subst_pairs(a, time);
        assert(ps[0].0 == "{name}"@ && ps[1].0 == "{points}"@ && ps[2].0 == "{due_date}"@
            && ps[3].0 == "{time}"@);
    }
}

/// An unrecognized brace token in an assignment template survives
/// rendering verbatim, wherever it stands.
pub proof fn lemma_render_assignment_keeps_unknown_token(
    a: Assignment,
    x: Seq<char>,
    u: Seq<char>,
    y: Seq<char>,
    time: Seq<char>,
)
    requires
        crate::strutil::brace_token(u),
        u != "{name}"@,
        u != "{points}"@,
        u != "{due_date}"@,
        u != "{time}"@,
    ensures
        spec_render_assignment(a, x + u + y, time) == spec_render_assignment(a, x, time) + u
            + spec_render_assignment(a, y, time),
{
    lemma_assignment_pairs_brace(a, time);
    assert forall|k: int|
        0 <= k < assignment_subst_pairs(a, time).len() implies (#[trigger] assignment_subst_pairs(
        a,
        time,
    )[k]).0 != u by {
        let ps = assignment_subst_pairs(a, time);
        assert(ps[0].0 == "{name}"@ && ps[1].0 == "{points}"@ && ps[2].0 == "{due_date}"@
            && ps[3].0 == "{time}"@);
    }
    crate::strutil::lemma_subst_keeps_unknown_token(x, u, y, assignment_subst_pairs(a, time));
}

} // verus!
