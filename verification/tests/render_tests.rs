use timtambler::{Assignment, Class, ClassState, Format, LocalInstant, TimeState, substitute};

fn formats() -> Format {
    Format {
        in_class_format: String::from("IN {name} ends in {time}"),
        next_class_format: String::from("NEXT {name} in {time}"),
        assignment_format: String::from("{name} ({points}) due in {time}"),
        assignment_overdue_format: String::from("{name} was due {time} ago"),
        assignment_time_format: String::from("%Y-%m-%d %H:%M"),
    }
}

fn algebra() -> Class {
    Class {
        name: String::from("Algebra"),
        day: String::from("mon"),
        start_time: String::from("10:05"),
        end_time: String::from("11:00"),
        location: String::from("Hall"),
    }
}

fn monday_ten_am() -> LocalInstant {
    LocalInstant { ts: 1_000_000, weekday: 0, secs_of_day: 10 * 3600 }
}

fn pair(placeholder: &str, value: &str) -> (String, String) {
    (String::from(placeholder), String::from(value))
}

#[test]
fn substitute_replaces_every_occurrence() {
    let pairs = vec![pair("{name}", "Algebra")];
    assert_eq!(substitute("{name} in {time}", &pairs), "Algebra in {time}");
    assert_eq!(substitute("{name} and {name}", &pairs), "Algebra and Algebra");
}

#[test]
fn substitute_leaves_unknown_tokens_verbatim() {
    let pairs = vec![pair("{name}", "Algebra"), pair("{time}", "2 days")];
    assert_eq!(substitute("{name} at {place}", &pairs), "Algebra at {place}");
    assert_eq!(substitute("no tokens here", &pairs), "no tokens here");
}

#[test]
fn substitute_does_not_rescan_inserted_values() {
    // A value holding its own placeholder is inserted verbatim, once.
    let pairs = vec![pair("{x}", "{x}{x}")];
    assert_eq!(substitute("a{x}b", &pairs), "a{x}{x}b");
    // A value holding another recognized placeholder is not cascaded into.
    let pairs = vec![pair("{name}", "{time}"), pair("{time}", "2 days")];
    assert_eq!(substitute("{name} in {time}", &pairs), "{time} in 2 days");
}

#[test]
fn rendered_field_values_are_kept_verbatim() {
    // A class whose name is itself a recognized token: one pass, no cascade.
    let c = Class {
        name: String::from("{time}"),
        day: String::from("mon"),
        start_time: String::from("10:05"),
        end_time: String::from("11:00"),
        location: String::from("Hall"),
    };
    let now = monday_ten_am();
    let line = c
        .format_class_string(String::from("{name}"), ClassState::OutOfClass, &now)
        .unwrap();
    assert_eq!(line, "{time}");

    let a = Assignment {
        name: String::from("{time}"),
        points: String::from("10"),
        due_date: String::from("2020-01-01 00:00"),
    };
    let f = formats();
    let rendered = a.format_assignment_string(String::from("X"), TimeState::Future, &f);
    // Template "{name} ({points}) due in {time}": the inserted name stays.
    assert_eq!(rendered, "{time} (10) due in X");
}

#[test]
fn template_rendering_exact() {
    let c = algebra();
    let now = monday_ten_am();
    // Out of session: five minutes until the start.
    let line = c
        .format_class_string(String::from("{name} in {time}"), ClassState::OutOfClass, &now)
        .unwrap();
    assert_eq!(line, "Algebra in 5 minutes");
}

#[test]
fn class_fields_are_all_substituted() {
    let c = algebra();
    let now = monday_ten_am();
    let line = c
        .format_class_string(
            String::from("{name} {day} {start_time}-{end_time} @ {location}: {time}"),
            ClassState::InClass,
            &now,
        )
        .unwrap();
    assert_eq!(line, "Algebra mon 10:05-11:00 @ Hall: 1 hour");
}

#[test]
fn unknown_tokens_survive_in_mixed_templates() {
    let c = algebra();
    let now = monday_ten_am();
    let line = c
        .format_class_string(
            String::from("{name} at {room}: {time}"),
            ClassState::OutOfClass,
            &now,
        )
        .unwrap();
    assert_eq!(line, "Algebra at {room}: 5 minutes");
}

#[test]
fn class_time_strings_from_reference_instant() {
    let c = algebra();
    let now = monday_ten_am();
    assert_eq!(c.get_start_time_at(&now).unwrap(), "5 minutes");
    assert_eq!(c.get_end_time_at(&now).unwrap(), "1 hour");
}

#[test]
fn class_time_strings_for_malformed_fields_fail() {
    let mut c = algebra();
    c.day = String::from("holiday");
    let now = monday_ten_am();
    assert!(c.get_start_time_at(&now).is_err());
    let mut c2 = algebra();
    c2.end_time = String::from("25:00");
    assert!(c2.get_start_time_at(&now).is_ok());
    assert!(c2.get_end_time_at(&now).is_err());
}

#[test]
fn assignment_templates_pick_by_time_state() {
    let a = Assignment {
        name: String::from("Essay"),
        points: String::from("10"),
        due_date: String::from("2020-01-01 00:00"),
    };
    let f = formats();
    let upcoming =
        a.format_assignment_string(String::from("2 days"), TimeState::Future, &f);
    assert_eq!(upcoming, "Essay (10) due in 2 days");
    let overdue = a.format_assignment_string(String::from("2 days"), TimeState::Past, &f);
    assert_eq!(overdue, "Essay was due 2 days ago");
}

#[test]
fn assignment_due_date_parsed_under_configured_format() {
    let a = Assignment {
        name: String::from("Essay"),
        points: String::from("10"),
        due_date: String::from("2020-01-01 00:00"),
    };
    // 2020-01-01T00:00:00Z in seconds since the epoch.
    let due = 1_577_836_800_i64;
    let (time, due_ts, state) = a.get_time_at("%Y-%m-%d %H:%M", due - 60).unwrap();
    assert_eq!(due_ts, due);
    assert_eq!(time, "1 minute");
    assert!(matches!(state, TimeState::Future));

    let (time, due_ts, state) = a.get_time_at("%Y-%m-%d %H:%M", due + 90).unwrap();
    assert_eq!(due_ts, due);
    assert_eq!(time, "1 minute & 30 seconds");
    assert!(matches!(state, TimeState::Past));
}

#[test]
fn assignment_due_exactly_now_counts_as_future() {
    let a = Assignment {
        name: String::from("Essay"),
        points: String::from("10"),
        due_date: String::from("2020-01-01 00:00"),
    };
    let due = 1_577_836_800_i64;
    let (time, _, state) = a.get_time_at("%Y-%m-%d %H:%M", due).unwrap();
    assert_eq!(time, "0 seconds");
    assert!(matches!(state, TimeState::Future));
}

#[test]
fn assignment_bad_due_date_fails() {
    let a = Assignment {
        name: String::from("Essay"),
        points: String::from("10"),
        due_date: String::from("not a date"),
    };
    let r = a.get_time_at("%Y-%m-%d %H:%M", 0);
    assert!(r.is_err());
}
