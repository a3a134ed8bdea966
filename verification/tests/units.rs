//! Unit tests of the verified building blocks: the date-time grammar, the
//! rule grammar, and the stable sort.

use caldav_viewer::datetime::{parse_wall_clock, parse_wall_clock_utc, utc_epoch, WallClock};
use caldav_viewer::model::CalendarEvent;
use caldav_viewer::rrule::parse_rule_components;
use caldav_viewer::sort::sorted_events;

#[test]
fn wall_clock_grammar_reads_fields() {
    let w = parse_wall_clock("20240101T100000").expect("valid date-time");
    assert_eq!(
        w,
        WallClock { year: 2024, month: 1, day: 1, hour: 10, minute: 0, second: 0 }
    );
}

#[test]
fn wall_clock_grammar_rejects_bad_shapes() {
    assert!(parse_wall_clock("20240101").is_none());
    assert!(parse_wall_clock("20240101X100000").is_none());
    assert!(parse_wall_clock("2024010AT100000").is_none());
    assert!(parse_wall_clock("20240101T100000Z").is_none());
    assert!(parse_wall_clock("20241301T100000").is_none());
    assert!(parse_wall_clock("20240100T100000").is_none());
    assert!(parse_wall_clock("20240132T100000").is_none());
    assert!(parse_wall_clock("20240101T240000").is_none());
    assert!(parse_wall_clock("20240101T106000").is_none());
    assert!(parse_wall_clock("20240101T100060").is_none());
}

#[test]
fn wall_clock_grammar_knows_leap_years() {
    assert!(parse_wall_clock("20240229T000000").is_some());
    assert!(parse_wall_clock("20230229T000000").is_none());
    assert!(parse_wall_clock("21000229T000000").is_none());
    assert!(parse_wall_clock("20000229T000000").is_some());
}

#[test]
fn utc_grammar_requires_the_suffix() {
    let w = parse_wall_clock_utc("20240122T090000Z").expect("valid cutoff");
    assert_eq!(w.day, 22);
    assert!(parse_wall_clock_utc("20240122T090000").is_none());
}

#[test]
fn utc_epoch_matches_known_instants() {
    let epoch = WallClock { year: 1970, month: 1, day: 1, hour: 0, minute: 0, second: 0 };
    assert_eq!(utc_epoch(&epoch), 0);
    let w = WallClock { year: 2024, month: 1, day: 22, hour: 9, minute: 0, second: 0 };
    assert_eq!(utc_epoch(&w), 1_705_914_000);
    let before = WallClock { year: 1969, month: 12, day: 31, hour: 23, minute: 59, second: 59 };
    assert_eq!(utc_epoch(&before), -1);
}

#[test]
fn rule_components_split_on_semicolons() {
    let r = parse_rule_components("FREQ=WEEKLY;UNTIL=20240122T090000Z");
    assert_eq!(r.components.len(), 2);
    assert_eq!(r.components[0].0, "FREQ");
    assert_eq!(r.components[0].1, "WEEKLY");
    assert_eq!(r.components[1].0, "UNTIL");
    assert_eq!(r.components[1].1, "20240122T090000Z");
}

#[test]
fn rule_component_value_stops_at_second_equals() {
    let r = parse_rule_components("KEY=VAL=EXTRA;NEXT=1");
    assert_eq!(r.components.len(), 2);
    assert_eq!(r.components[0].0, "KEY");
    assert_eq!(r.components[0].1, "VAL");
    assert_eq!(r.components[1].0, "NEXT");
}

#[test]
fn malformed_component_ends_reading() {
    let r = parse_rule_components("FREQ=WEEKLY;ORPHAN;UNTIL=20240122T090000Z");
    assert_eq!(r.components.len(), 1);
    assert_eq!(r.components[0].0, "FREQ");
    let empty = parse_rule_components("");
    assert_eq!(empty.components.len(), 0);
}

fn ev(name: &str, start: i64) -> CalendarEvent {
    CalendarEvent { name: name.to_string(), description: String::new(), start, end: start + 1 }
}

#[test]
fn sort_orders_by_start_and_keeps_ties_stable() {
    let input = vec![ev("c", 30), ev("a1", 10), ev("b", 20), ev("a2", 10)];
    let out = sorted_events(input);
    let names: Vec<&str> = out.iter().map(|e| e.name.as_str()).collect();
    assert_eq!(names, vec!["a1", "a2", "b", "c"]);
    assert!(out.windows(2).all(|w| w[0].start <= w[1].start));
}
