//! End-to-end tests of the calendar parser: feeds go in as text, the sorted
//! occurrence list comes out. Instants are seconds since the Unix epoch.

use caldav_viewer::model::{CalendarData, Error};
use caldav_viewer::parser::parse_calendar;

/// 2024-01-01T10:00:00 Europe/Berlin (UTC+1) as an epoch second.
const BASE_START: i64 = 1_704_099_600;
const HOUR: i64 = 3_600;
const WEEK: i64 = 604_800;

fn feed(body: &str) -> String {
    format!("BEGIN:VCALENDAR\n{}END:VCALENDAR\n", body)
}

fn event(body: &str) -> String {
    format!("BEGIN:VEVENT\n{}END:VEVENT\n", body)
}

fn parse_ok(text: &str) -> CalendarData {
    match parse_calendar(text) {
        Ok(data) => data,
        Err(_) => panic!("expected a successful parse"),
    }
}

#[test]
fn single_event_resolves_to_utc() {
    let text = feed(&event(
        "SUMMARY:Standup\nDESCRIPTION:daily sync\nDTSTART;TZID=Europe/Berlin:20240101T100000\nDTEND;TZID=Europe/Berlin:20240101T110000\n",
    ));
    let data = parse_ok(&text);
    assert_eq!(data.events.len(), 1);
    let e = &data.events[0];
    assert_eq!(e.name, "Standup");
    assert_eq!(e.description, "daily sync");
    assert_eq!(e.start, BASE_START);
    assert_eq!(e.end, BASE_START + HOUR);
}

#[test]
fn missing_description_reads_empty() {
    let text = feed(&event(
        "SUMMARY:Bare\nDTSTART;TZID=Europe/Berlin:20240101T100000\nDTEND;TZID=Europe/Berlin:20240101T110000\n",
    ));
    let data = parse_ok(&text);
    assert_eq!(data.events.len(), 1);
    assert_eq!(data.events[0].description, "");
}

#[test]
fn default_zone_applies_without_tzid() {
    // A leap day, read in the default zone (Europe/Berlin, UTC+1 in winter).
    let text = feed(&event(
        "SUMMARY:Leap\nDTSTART:20240229T120000\nDTEND:20240229T130000\n",
    ));
    let data = parse_ok(&text);
    assert_eq!(data.events.len(), 1);
    assert_eq!(data.events[0].start, 1_709_204_400);
    assert_eq!(data.events[0].end, 1_709_204_400 + HOUR);
}

#[test]
fn weekly_rule_expands_with_exclusive_cutoff() {
    // UNTIL equals the instant of the fourth occurrence: the boundary is
    // exclusive, so only the base and two generated occurrences remain.
    let text = feed(&event(
        "SUMMARY:Weekly\nDTSTART;TZID=Europe/Berlin:20240101T100000\nDTEND;TZID=Europe/Berlin:20240101T110000\nRRULE:FREQ=WEEKLY;UNTIL=20240122T090000Z\n",
    ));
    let data = parse_ok(&text);
    assert_eq!(data.events.len(), 3);
    for (k, e) in data.events.iter().enumerate() {
        assert_eq!(e.name, "Weekly");
        assert_eq!(e.start, BASE_START + (k as i64) * WEEK);
        assert_eq!(e.end, BASE_START + (k as i64) * WEEK + HOUR);
    }
}

#[test]
fn until_is_compared_as_an_instant() {
    // UNTIL here is 10:00 UTC; the occurrence of January 22nd starts at
    // 10:00 Berlin time, which is 09:00 UTC and thus still strictly before
    // the cutoff, so it is generated too.
    let text = feed(&event(
        "SUMMARY:Weekly\nDTSTART;TZID=Europe/Berlin:20240101T100000\nDTEND;TZID=Europe/Berlin:20240101T110000\nRRULE:FREQ=WEEKLY;UNTIL=20240122T100000Z\n",
    ));
    let data = parse_ok(&text);
    assert_eq!(data.events.len(), 4);
    assert_eq!(data.events[3].start, BASE_START + 3 * WEEK);
    assert_eq!(data.events[3].end, BASE_START + 3 * WEEK + HOUR);
}

#[test]
fn until_before_start_generates_nothing() {
    let text = feed(&event(
        "SUMMARY:Past\nDTSTART;TZID=Europe/Berlin:20240101T100000\nDTEND;TZID=Europe/Berlin:20240101T110000\nRRULE:FREQ=WEEKLY;UNTIL=20231225T000000Z\n",
    ));
    let data = parse_ok(&text);
    assert_eq!(data.events.len(), 1);
    assert_eq!(data.events[0].start, BASE_START);
}

#[test]
fn unrecognized_rule_keys_are_ignored() {
    let text = feed(&event(
        "SUMMARY:Weekly\nDTSTART;TZID=Europe/Berlin:20240101T100000\nDTEND;TZID=Europe/Berlin:20240101T110000\nRRULE:FREQ=WEEKLY;INTERVAL=2;UNTIL=20240122T090000Z\n",
    ));
    let data = parse_ok(&text);
    assert_eq!(data.events.len(), 3);
}

#[test]
fn rule_without_until_adds_nothing() {
    let text = feed(&event(
        "SUMMARY:NoEnd\nDTSTART;TZID=Europe/Berlin:20240101T100000\nDTEND;TZID=Europe/Berlin:20240101T110000\nRRULE:FREQ=WEEKLY\n",
    ));
    let data = parse_ok(&text);
    assert_eq!(data.events.len(), 1);
}

#[test]
fn rule_without_freq_adds_nothing() {
    let text = feed(&event(
        "SUMMARY:NoFreq\nDTSTART;TZID=Europe/Berlin:20240101T100000\nDTEND;TZID=Europe/Berlin:20240101T110000\nRRULE:UNTIL=20240122T090000Z\n",
    ));
    let data = parse_ok(&text);
    assert_eq!(data.events.len(), 1);
}

#[test]
fn unsupported_frequency_adds_nothing() {
    let text = feed(&event(
        "SUMMARY:Daily\nDTSTART;TZID=Europe/Berlin:20240101T100000\nDTEND;TZID=Europe/Berlin:20240101T110000\nRRULE:FREQ=DAILY;UNTIL=20240122T090000Z\n",
    ));
    let data = parse_ok(&text);
    assert_eq!(data.events.len(), 1);
}

#[test]
fn malformed_rule_pair_ends_the_rule() {
    // BROKEN carries no `=`, so UNTIL behind it is never read.
    let text = feed(&event(
        "SUMMARY:Cut\nDTSTART;TZID=Europe/Berlin:20240101T100000\nDTEND;TZID=Europe/Berlin:20240101T110000\nRRULE:FREQ=WEEKLY;BROKEN;UNTIL=20240122T090000Z\n",
    ));
    let data = parse_ok(&text);
    assert_eq!(data.events.len(), 1);
}

#[test]
fn missing_summary_drops_event() {
    let text = feed(&event(
        "DTSTART;TZID=Europe/Berlin:20240101T100000\nDTEND;TZID=Europe/Berlin:20240101T110000\n",
    ));
    let data = parse_ok(&text);
    assert_eq!(data.events.len(), 0);
}

#[test]
fn missing_dtstart_drops_event() {
    let text = feed(&event(
        "SUMMARY:NoStart\nDTEND;TZID=Europe/Berlin:20240101T110000\n",
    ));
    let data = parse_ok(&text);
    assert_eq!(data.events.len(), 0);
}

#[test]
fn missing_dtend_drops_event() {
    let text = feed(&event(
        "SUMMARY:NoEnd\nDTSTART;TZID=Europe/Berlin:20240101T100000\n",
    ));
    let data = parse_ok(&text);
    assert_eq!(data.events.len(), 0);
}

#[test]
fn unknown_tzid_drops_event_not_parse() {
    let bad = event(
        "SUMMARY:Bad\nDTSTART;TZID=Nowhere/Nowhere:20240101T100000\nDTEND;TZID=Europe/Berlin:20240101T110000\n",
    );
    let good = event(
        "SUMMARY:Good\nDTSTART;TZID=Europe/Berlin:20240101T100000\nDTEND;TZID=Europe/Berlin:20240101T110000\n",
    );
    let text = feed(&format!("{}{}", bad, good));
    let data = parse_ok(&text);
    assert_eq!(data.events.len(), 1);
    assert_eq!(data.events[0].name, "Good");
}

#[test]
fn invalid_date_drops_event() {
    let text = feed(&event(
        "SUMMARY:BadDate\nDTSTART;TZID=Europe/Berlin:20240230T100000\nDTEND;TZID=Europe/Berlin:20240230T110000\n",
    ));
    let data = parse_ok(&text);
    assert_eq!(data.events.len(), 0);
}

#[test]
fn skipped_local_time_drops_event() {
    // 02:30 on 2024-03-31 does not exist in Europe/Berlin: the clocks jump
    // from 02:00 to 03:00 that night.
    let text = feed(&event(
        "SUMMARY:Gap\nDTSTART;TZID=Europe/Berlin:20240331T023000\nDTEND;TZID=Europe/Berlin:20240331T033000\n",
    ));
    let data = parse_ok(&text);
    assert_eq!(data.events.len(), 0);
}

#[test]
fn ambiguous_local_time_drops_event() {
    // 02:30 on 2024-10-27 happens twice in Europe/Berlin.
    let text = feed(&event(
        "SUMMARY:Twice\nDTSTART;TZID=Europe/Berlin:20241027T023000\nDTEND;TZID=Europe/Berlin:20241027T033000\n",
    ));
    let data = parse_ok(&text);
    assert_eq!(data.events.len(), 0);
}

#[test]
fn later_duplicate_property_wins() {
    let text = feed(&event(
        "SUMMARY:First\nSUMMARY:Second\nDTSTART;TZID=Europe/Berlin:20240101T100000\nDTEND;TZID=Europe/Berlin:20240101T110000\n",
    ));
    let data = parse_ok(&text);
    assert_eq!(data.events.len(), 1);
    assert_eq!(data.events[0].name, "Second");
}

#[test]
fn events_come_out_sorted_by_start() {
    let late = event(
        "SUMMARY:Late\nDTSTART;TZID=Europe/Berlin:20240105T100000\nDTEND;TZID=Europe/Berlin:20240105T110000\n",
    );
    let early = event(
        "SUMMARY:Early\nDTSTART;TZID=Europe/Berlin:20240101T100000\nDTEND;TZID=Europe/Berlin:20240101T110000\n",
    );
    let text = feed(&format!("{}{}", late, early));
    let data = parse_ok(&text);
    assert_eq!(data.events.len(), 2);
    assert_eq!(data.events[0].name, "Early");
    assert_eq!(data.events[1].name, "Late");
    assert!(data.events[0].start <= data.events[1].start);
}

#[test]
fn equal_starts_keep_feed_order() {
    let a = event(
        "SUMMARY:A\nDTSTART;TZID=Europe/Berlin:20240101T100000\nDTEND;TZID=Europe/Berlin:20240101T110000\n",
    );
    let b = event(
        "SUMMARY:B\nDTSTART;TZID=Europe/Berlin:20240101T100000\nDTEND;TZID=Europe/Berlin:20240101T120000\n",
    );
    let text = feed(&format!("{}{}", a, b));
    let data = parse_ok(&text);
    assert_eq!(data.events.len(), 2);
    assert_eq!(data.events[0].name, "A");
    assert_eq!(data.events[1].name, "B");
}

#[test]
fn reparse_yields_equal_data() {
    let text = feed(&event(
        "SUMMARY:Weekly\nDESCRIPTION:twice\nDTSTART;TZID=Europe/Berlin:20240101T100000\nDTEND;TZID=Europe/Berlin:20240101T110000\nRRULE:FREQ=WEEKLY;UNTIL=20240122T090000Z\n",
    ));
    let first = parse_ok(&text);
    let second = parse_ok(&text);
    assert_eq!(first.events.len(), second.events.len());
    for (x, y) in first.events.iter().zip(second.events.iter()) {
        assert_eq!(x.name, y.name);
        assert_eq!(x.description, y.description);
        assert_eq!(x.start, y.start);
        assert_eq!(x.end, y.end);
    }
}

#[test]
fn unterminated_object_is_structural_error() {
    let text = "BEGIN:VCALENDAR\nBEGIN:VEVENT\nSUMMARY:Broken\n";
    match parse_calendar(text) {
        Err(e) => assert_eq!(e, Error::StructuralParse),
        Ok(_) => panic!("expected a structural error"),
    }
}

#[test]
fn text_without_calendar_header_is_structural_error() {
    let text = "SUMMARY:Loose\n";
    assert!(matches!(parse_calendar(text), Err(Error::StructuralParse)));
}

#[test]
fn empty_feed_yields_no_events() {
    let data = parse_ok("");
    assert_eq!(data.events.len(), 0);
}
