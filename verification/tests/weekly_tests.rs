use timtambler::LoadError;
use timtambler::LocalInstant;
use timtambler::weekly::{next_occurrence_at, next_occurrence_of_day_time, parse_time, parse_weekday};

fn wednesday_one_am() -> LocalInstant {
    // Weekday 2 (Wednesday), one hour past local midnight.
    LocalInstant { ts: 1_000_000, weekday: 2, secs_of_day: 3600 }
}

#[test]
fn parse_weekday_accepts_full_and_short_names_any_case() {
    assert_eq!(parse_weekday("Monday"), Some(0));
    assert_eq!(parse_weekday("monday"), Some(0));
    assert_eq!(parse_weekday("MON"), Some(0));
    assert_eq!(parse_weekday("tuesday"), Some(1));
    assert_eq!(parse_weekday("Wed"), Some(2));
    assert_eq!(parse_weekday("THURSDAY"), Some(3));
    assert_eq!(parse_weekday("fri"), Some(4));
    assert_eq!(parse_weekday("Saturday"), Some(5));
    assert_eq!(parse_weekday("sUn"), Some(6));
}

#[test]
fn parse_weekday_rejects_other_text() {
    assert_eq!(parse_weekday(""), None);
    assert_eq!(parse_weekday("notaday"), None);
    assert_eq!(parse_weekday("mondays"), None);
    assert_eq!(parse_weekday("mo"), None);
}

#[test]
fn parse_time_reads_hh_mm() {
    assert_eq!(parse_time("00:00"), Some(0));
    assert_eq!(parse_time("09:30"), Some(9 * 3600 + 30 * 60));
    assert_eq!(parse_time("23:59"), Some(23 * 3600 + 59 * 60));
}

#[test]
fn parse_time_rejects_malformed_text() {
    assert_eq!(parse_time(""), None);
    assert_eq!(parse_time("9:30"), None);
    assert_eq!(parse_time("24:00"), None);
    assert_eq!(parse_time("12:60"), None);
    assert_eq!(parse_time("aa:bb"), None);
    assert_eq!(parse_time("12-30"), None);
    assert_eq!(parse_time("12:345"), None);
}

#[test]
fn next_occurrence_later_today() {
    let now = wednesday_one_am();
    // Same weekday, 100 seconds from now.
    assert_eq!(next_occurrence_at(&now, 2, 3700), now.ts + 100);
}

#[test]
fn next_occurrence_earlier_today_rolls_a_week() {
    let now = wednesday_one_am();
    // Same weekday but 100 seconds ago: next week.
    assert_eq!(next_occurrence_at(&now, 2, 3500), now.ts + 604800 - 100);
}

#[test]
fn next_occurrence_exactly_now_rolls_a_week() {
    let now = wednesday_one_am();
    assert_eq!(
        next_occurrence_at(&now, now.weekday, now.secs_of_day),
        now.ts + 604800
    );
}

#[test]
fn next_occurrence_other_weekdays() {
    let now = wednesday_one_am();
    // Tomorrow at local midnight.
    assert_eq!(next_occurrence_at(&now, 3, 0), now.ts + 86400 - 3600);
    // Yesterday's weekday: six days ahead.
    assert_eq!(next_occurrence_at(&now, 1, 3600), now.ts + 6 * 86400);
}

#[test]
fn next_occurrence_is_deterministic() {
    let now = wednesday_one_am();
    let a = next_occurrence_at(&now, 5, 43200);
    let b = next_occurrence_at(&now, 5, 43200);
    assert_eq!(a, b);
}

#[test]
fn next_occurrence_from_text() {
    let now = wednesday_one_am();
    let r = next_occurrence_of_day_time(&now, "wed", "02:00");
    assert_eq!(r.unwrap(), now.ts + 3600);
}

#[test]
fn invalid_weekday_is_reported() {
    let now = wednesday_one_am();
    let r = next_occurrence_of_day_time(&now, "noday", "02:00");
    match r {
        Err(LoadError::InvalidWeekday(v)) => {
            assert_eq!(v, "noday");
            assert_eq!(
                LoadError::InvalidWeekday(v).message(),
                "invalid day of the week: noday"
            );
        }
        _ => panic!("expected an invalid-weekday error"),
    }
}

#[test]
fn invalid_time_is_reported() {
    let now = wednesday_one_am();
    let r = next_occurrence_of_day_time(&now, "wed", "26:00");
    match r {
        Err(LoadError::InvalidTime(v)) => {
            assert_eq!(v, "26:00");
            assert_eq!(
                LoadError::InvalidTime(v).message(),
                "invalid time of day (expected HH:MM): 26:00"
            );
        }
        _ => panic!("expected an invalid-time error"),
    }
}
