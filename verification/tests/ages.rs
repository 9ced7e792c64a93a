use jotspot::age::{AgeUnit, RelativeAge};
use jotspot::annotation::Annotation;

const SECOND: u64 = 1000;
const DAY: u64 = 86_400 * SECOND;

fn age_after(elapsed: u64) -> String {
    let note = Annotation { content: "x".to_string(), created_at: 500 };
    note.format_relative_age(500 + elapsed)
}

#[test]
fn under_a_second_is_just_now() {
    assert_eq!(age_after(0), "Just now");
    assert_eq!(age_after(999), "Just now");
}

#[test]
fn seconds_up_to_a_minute() {
    assert_eq!(age_after(SECOND), "1 seconds ago");
    assert_eq!(age_after(59 * SECOND), "59 seconds ago");
    assert_eq!(age_after(59 * SECOND + 999), "59 seconds ago");
}

#[test]
fn minutes_up_to_an_hour() {
    assert_eq!(age_after(60 * SECOND), "1 minutes ago");
    assert_eq!(age_after(119 * SECOND), "1 minutes ago");
    assert_eq!(age_after(3599 * SECOND), "59 minutes ago");
}

#[test]
fn hours_up_to_a_day() {
    assert_eq!(age_after(3600 * SECOND), "1 hours ago");
    assert_eq!(age_after(86_399 * SECOND), "23 hours ago");
}

#[test]
fn days_up_to_a_year() {
    assert_eq!(age_after(DAY), "1 days ago");
    assert_eq!(age_after(365 * DAY - SECOND), "364 days ago");
}

#[test]
fn years_of_365_days() {
    assert_eq!(age_after(365 * DAY), "1 years ago");
    assert_eq!(age_after(2 * 365 * DAY - 1), "1 years ago");
    assert_eq!(age_after(2 * 365 * DAY), "2 years ago");
    let note = Annotation { content: String::new(), created_at: 0 };
    assert_eq!(note.format_relative_age(u64::MAX), "584942417 years ago");
}

#[test]
fn the_age_is_a_unit_and_a_count() {
    assert_eq!(RelativeAge::since(0), RelativeAge { unit: AgeUnit::JustNow, count: 0 });
    assert_eq!(RelativeAge::since(5_500), RelativeAge { unit: AgeUnit::Seconds, count: 5 });
    assert_eq!(RelativeAge::since(60_000), RelativeAge { unit: AgeUnit::Minutes, count: 1 });
    assert_eq!(RelativeAge::since(7_200_000), RelativeAge { unit: AgeUnit::Hours, count: 2 });
    assert_eq!(RelativeAge::since(3 * DAY), RelativeAge { unit: AgeUnit::Days, count: 3 });
    assert_eq!(RelativeAge::since(800 * DAY), RelativeAge { unit: AgeUnit::Years, count: 2 });
}

#[test]
fn the_words_for_each_unit() {
    assert_eq!(RelativeAge { unit: AgeUnit::JustNow, count: 0 }.to_text(), "Just now");
    assert_eq!(RelativeAge { unit: AgeUnit::Seconds, count: 2 }.to_text(), "2 seconds ago");
    assert_eq!(RelativeAge { unit: AgeUnit::Minutes, count: 3 }.to_text(), "3 minutes ago");
    assert_eq!(RelativeAge { unit: AgeUnit::Hours, count: 4 }.to_text(), "4 hours ago");
    assert_eq!(RelativeAge { unit: AgeUnit::Days, count: 5 }.to_text(), "5 days ago");
    assert_eq!(RelativeAge { unit: AgeUnit::Years, count: 6 }.to_text(), "6 years ago");
}

fn rank(unit: AgeUnit) -> u8 {
    match unit {
        AgeUnit::JustNow => 0,
        AgeUnit::Seconds => 1,
        AgeUnit::Minutes => 2,
        AgeUnit::Hours => 3,
        AgeUnit::Days => 4,
        AgeUnit::Years => 5,
    }
}

#[test]
fn the_age_shown_never_shrinks_as_time_passes() {
    let mut elapsed: u64 = 0;
    let mut before = RelativeAge::since(0);
    while elapsed < 3 * 365 * DAY {
        elapsed += 37 * SECOND + 1 + elapsed / 50;
        let after = RelativeAge::since(elapsed);
        assert!(rank(before.unit) <= rank(after.unit));
        if before.unit == after.unit {
            assert!(before.count <= after.count);
        }
        before = after;
    }
}

#[test]
fn a_note_from_after_now_has_no_age() {
    let note = Annotation { content: "x".to_string(), created_at: 2000 };
    assert_eq!(note.format_age_at(1999), None);
    assert_eq!(note.format_age_at(2000), Some("Just now".to_string()));
    assert_eq!(note.format_age_at(62_000), Some("1 minutes ago".to_string()));
}

#[test]
fn a_note_written_now_is_young_by_the_clock() {
    let note = Annotation::new("fresh");
    let age = note.format_created_at().unwrap();
    assert!(age == "Just now" || age.ends_with(" seconds ago"), "{}", age);
}

#[test]
fn a_note_from_the_far_future_has_no_age_by_the_clock() {
    let note = Annotation { content: "x".to_string(), created_at: u64::MAX };
    assert_eq!(note.format_created_at(), None);
}

#[test]
fn an_old_note_is_years_old_by_the_clock() {
    let note = Annotation { content: "x".to_string(), created_at: 0 };
    let age = note.format_created_at().unwrap();
    assert!(age.ends_with(" years ago"), "{}", age);
}
