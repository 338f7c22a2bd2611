use timtambler::{Assignment, Class, Format, LoadError, LocalInstant, Timetable};

fn formats() -> Format {
    Format {
        in_class_format: String::from("IN {name} {time}"),
        next_class_format: String::from("NEXT {name} {time}"),
        assignment_format: String::from("{name} due in {time}"),
        assignment_overdue_format: String::from("{name} overdue by {time}"),
        assignment_time_format: String::from("%Y-%m-%d %H:%M"),
    }
}

fn class(name: &str, day: &str, start: &str, end: &str) -> Class {
    Class {
        name: String::from(name),
        day: String::from(day),
        start_time: String::from(start),
        end_time: String::from(end),
        location: String::from("Hall"),
    }
}

fn assignment(name: &str, due: &str) -> Assignment {
    Assignment {
        name: String::from(name),
        points: String::from("10"),
        due_date: String::from(due),
    }
}

fn monday_ten_am() -> LocalInstant {
    LocalInstant { ts: 1_000_000, weekday: 0, secs_of_day: 10 * 3600 }
}

#[test]
fn classes_sorted_by_relevant_instant() {
    // Relevant instants at +10, +5 and +20 minutes: rendered order +5, +10, +20.
    let t = Timetable {
        class: vec![
            class("B", "mon", "10:10", "12:00"),
            class("A", "mon", "10:05", "12:00"),
            class("C", "mon", "10:20", "12:00"),
        ],
        assignment: vec![],
        format: formats(),
    };
    let now = monday_ten_am();
    let lines = t.list_classes_at(&now).unwrap();
    assert_eq!(
        lines,
        vec![
            String::from("NEXT A 5 minutes"),
            String::from("NEXT B 10 minutes"),
            String::from("NEXT C 20 minutes"),
        ]
    );
}

#[test]
fn in_session_class_uses_in_class_template_and_end_time() {
    // Started an hour ago, ends in an hour: in session.
    let t = Timetable {
        class: vec![class("Algebra", "mon", "09:00", "11:00")],
        assignment: vec![],
        format: formats(),
    };
    let now = monday_ten_am();
    let lines = t.list_classes_at(&now).unwrap();
    assert_eq!(lines, vec![String::from("IN Algebra 1 hour")]);
}

#[test]
fn upcoming_class_uses_next_class_template_and_start_time() {
    let t = Timetable {
        class: vec![class("Algebra", "mon", "11:00", "12:00")],
        assignment: vec![],
        format: formats(),
    };
    let now = monday_ten_am();
    let lines = t.list_classes_at(&now).unwrap();
    assert_eq!(lines, vec![String::from("NEXT Algebra 1 hour")]);
}

#[test]
fn empty_timetable_renders_empty_lists() {
    let t = Timetable { class: vec![], assignment: vec![], format: formats() };
    let now = monday_ten_am();
    assert_eq!(t.list_classes_at(&now).unwrap(), Vec::<String>::new());
    assert_eq!(t.list_assignments_at(0).unwrap(), Vec::<String>::new());
}

#[test]
fn equal_relevant_instants_keep_input_order() {
    // The sort is stable: equal sort keys keep input order.
    let t = Timetable {
        class: vec![
            class("B", "mon", "10:05", "12:00"),
            class("A", "mon", "10:05", "12:00"),
        ],
        assignment: vec![],
        format: formats(),
    };
    let now = monday_ten_am();
    let lines = t.list_classes_at(&now).unwrap();
    assert_eq!(
        lines,
        vec![
            String::from("NEXT B 5 minutes"),
            String::from("NEXT A 5 minutes"),
        ]
    );
}

#[test]
fn malformed_weekday_fails_the_whole_pass() {
    let t = Timetable {
        class: vec![
            class("A", "mon", "10:05", "12:00"),
            class("B", "someday", "10:10", "12:00"),
        ],
        assignment: vec![],
        format: formats(),
    };
    let now = monday_ten_am();
    match t.list_classes_at(&now) {
        Err(LoadError::InvalidWeekday(v)) => assert_eq!(v, "someday"),
        _ => panic!("expected an invalid-weekday error"),
    }
}

#[test]
fn malformed_time_fails_the_whole_pass() {
    let t = Timetable {
        class: vec![class("A", "mon", "10:65", "12:00")],
        assignment: vec![],
        format: formats(),
    };
    let now = monday_ten_am();
    match t.list_classes_at(&now) {
        Err(LoadError::InvalidTime(v)) => assert_eq!(v, "10:65"),
        _ => panic!("expected an invalid-time error"),
    }
}

#[test]
fn assignments_sorted_by_due_instant() {
    let t = Timetable {
        class: vec![],
        assignment: vec![
            assignment("Later", "2020-01-03 00:00"),
            assignment("Soon", "2020-01-01 12:00"),
            assignment("Past", "2019-12-31 23:00"),
        ],
        format: formats(),
    };
    // 2020-01-01T00:00:00Z.
    let now_ts = 1_577_836_800_i64;
    let lines = t.list_assignments_at(now_ts).unwrap();
    assert_eq!(
        lines,
        vec![
            String::from("Past overdue by 1 hour"),
            String::from("Soon due in 12 hours"),
            String::from("Later due in 2 days"),
        ]
    );
}

#[test]
fn malformed_due_date_fails_the_whole_pass() {
    let t = Timetable {
        class: vec![],
        assignment: vec![
            assignment("Fine", "2020-01-03 00:00"),
            assignment("Broken", "tomorrow-ish"),
        ],
        format: formats(),
    };
    match t.list_assignments_at(0) {
        Err(LoadError::InvalidDueDate(v)) => {
            assert_eq!(v, "tomorrow-ish");
            assert_eq!(
                LoadError::InvalidDueDate(v).message(),
                "invalid due date for the configured format: tomorrow-ish"
            );
        }
        _ => panic!("expected an invalid-due-date error"),
    }
}

#[test]
fn listing_against_the_live_clock() {
    let t = Timetable {
        class: vec![class("A", "mon", "10:05", "12:00")],
        assignment: vec![assignment("Essay", "2020-01-01 00:00")],
        format: formats(),
    };
    let classes = t.list_classes().unwrap();
    assert_eq!(classes.len(), 1);
    assert!(classes[0].starts_with("NEXT A ") || classes[0].starts_with("IN A "));
    let assignments = t.list_assignments().unwrap();
    assert_eq!(assignments.len(), 1);
    assert!(assignments[0].starts_with("Essay "));
}

#[test]
fn live_clock_class_time_strings() {
    let c = class("A", "mon", "10:05", "12:00");
    assert!(c.get_start_time().is_ok());
    assert!(c.get_end_time().is_ok());
    let bad = class("A", "moonday", "10:05", "12:00");
    assert!(bad.get_start_time().is_err());
}
