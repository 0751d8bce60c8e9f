use rustymail::caldav::parse_multistatus_events;
use rustymail::calendar::{build_ical_event, format_caldav_datetime, CalendarDateTime, NewCalendarEvent};
use rustymail::ical::{ical_to_iso, parse_ical_event};

#[test]
fn test_format_caldav_datetime() {
    assert_eq!(format_caldav_datetime("2026-04-25T09:00:00Z"), "20260425T090000Z");
    assert_eq!(format_caldav_datetime("2026-04-25T00:00:00Z"), "20260425T000000Z");
    assert_eq!(format_caldav_datetime("2026-12-31T23:59:59Z"), "20261231T235959Z");
}

#[test]
fn test_build_ical_event() {
    let event = NewCalendarEvent {
        summary: Some("Team Meeting".to_string()),
        description: Some("Weekly sync".to_string()),
        location: Some("Room 1".to_string()),
        start: Some(CalendarDateTime {
            date: None,
            date_time: Some("2026-04-15T09:00:00Z".to_string()),
            time_zone: None,
        }),
        end: Some(CalendarDateTime {
            date: None,
            date_time: Some("2026-04-15T10:00:00Z".to_string()),
            time_zone: None,
        }),
    };

    let ical = build_ical_event("test-uid-123", &event);
    assert!(ical.contains("BEGIN:VCALENDAR"));
    assert!(ical.contains("BEGIN:VEVENT"));
    assert!(ical.contains("UID:test-uid-123"));
    assert!(ical.contains("SUMMARY:Team Meeting"));
    assert!(ical.contains("DESCRIPTION:Weekly sync"));
    assert!(ical.contains("LOCATION:Room 1"));
    assert!(ical.contains("DTSTART:20260415T090000Z"));
    assert!(ical.contains("DTEND:20260415T100000Z"));
    assert!(ical.contains("END:VEVENT"));
    assert!(ical.contains("END:VCALENDAR"));
}

#[test]
fn test_build_ical_event_all_day() {
    let event = NewCalendarEvent {
        summary: Some("Vacation".to_string()),
        description: None,
        location: None,
        start: Some(CalendarDateTime {
            date: Some("2026-04-15".to_string()),
            date_time: None,
            time_zone: None,
        }),
        end: Some(CalendarDateTime {
            date: Some("2026-04-16".to_string()),
            date_time: None,
            time_zone: None,
        }),
    };

    let ical = build_ical_event("allday-uid", &event);
    assert!(ical.contains("DTSTART;VALUE=DATE:20260415"));
    assert!(ical.contains("DTEND;VALUE=DATE:20260416"));
    assert!(!ical.contains("DTSTART:20260415T"));
}

#[test]
fn test_parse_ical_event() {
    let ical = "BEGIN:VCALENDAR\r\nVERSION:2.0\r\nBEGIN:VEVENT\r\nUID:event1@example.com\r\nDTSTART:20260415T090000Z\r\nDTEND:20260415T100000Z\r\nSUMMARY:Team Meeting\r\nLOCATION:Room 1\r\nDESCRIPTION:Weekly sync\r\nEND:VEVENT\r\nEND:VCALENDAR";

    let event = parse_ical_event(ical, "/calendars/user/default/event1.ics").unwrap();
    assert_eq!(event.id, "/calendars/user/default/event1.ics");
    assert_eq!(event.summary.as_deref(), Some("Team Meeting"));
    assert_eq!(event.description.as_deref(), Some("Weekly sync"));
    assert_eq!(event.location.as_deref(), Some("Room 1"));
    let start = event.start.unwrap();
    assert!(start.date_time.is_some());
    assert_eq!(start.date_time.unwrap(), "2026-04-15T09:00:00Z");
    let end = event.end.unwrap();
    assert_eq!(end.date_time.unwrap(), "2026-04-15T10:00:00Z");
}

#[test]
fn test_parse_ical_event_all_day() {
    let ical = "BEGIN:VCALENDAR\r\nVERSION:2.0\r\nBEGIN:VEVENT\r\nUID:allday@example.com\r\nDTSTART;VALUE=DATE:20260415\r\nDTEND;VALUE=DATE:20260416\r\nSUMMARY:All Day Event\r\nEND:VEVENT\r\nEND:VCALENDAR";

    let event = parse_ical_event(ical, "").unwrap();
    assert_eq!(event.id, "allday@example.com");
    let start = event.start.unwrap();
    assert!(start.date.is_some());
    assert_eq!(start.date.unwrap(), "2026-04-15");
    assert!(start.date_time.is_none());
}

#[test]
fn test_parse_multistatus_events() {
    let xml = r#"<?xml version="1.0"?>
<d:multistatus xmlns:d="DAV:" xmlns:c="urn:ietf:params:xml:ns:caldav">
  <d:response>
    <d:href>/calendars/user/default/event1.ics</d:href>
    <d:propstat>
      <d:prop>
        <d:getetag>"etag123"</d:getetag>
        <c:calendar-data>BEGIN:VCALENDAR
VERSION:2.0
BEGIN:VEVENT
UID:event1@example.com
DTSTART:20260415T090000Z
DTEND:20260415T100000Z
SUMMARY:Team Meeting
END:VEVENT
END:VCALENDAR</c:calendar-data>
      </d:prop>
      <d:status>HTTP/1.1 200 OK</d:status>
    </d:propstat>
  </d:response>
</d:multistatus>"#;

    let pairs = parse_multistatus_events(xml);
    assert_eq!(pairs.len(), 1);
    assert_eq!(pairs[0].0, "/calendars/user/default/event1.ics");
    assert!(pairs[0].1.contains("VEVENT"));
    assert!(pairs[0].1.contains("Team Meeting"));
}

#[test]
fn test_parse_multistatus_empty() {
    let xml = r#"<?xml version="1.0"?>
<d:multistatus xmlns:d="DAV:" xmlns:c="urn:ietf:params:xml:ns:caldav">
</d:multistatus>"#;

    let pairs = parse_multistatus_events(xml);
    assert!(pairs.is_empty());
}

#[test]
fn compact_datetime_is_stable() {
    let once = format_caldav_datetime("2026-04-15T09:00:00Z");
    assert_eq!(once, "20260415T090000Z");
    assert_eq!(format_caldav_datetime(&once), once);
    assert_eq!(format_caldav_datetime("a-b:c--d"), "abcd");
}

#[test]
fn compact_timestamp_round_trip() {
    for v in ["20260415T090000Z", "20260415T090000", "19991231T235959Z"] {
        assert_eq!(format_caldav_datetime(&ical_to_iso(v)), v);
    }
}

#[test]
fn multistatus_skips_incomplete_responses() {
    let xml = r#"<d:multistatus xmlns:d="DAV:" xmlns:c="urn:ietf:params:xml:ns:caldav">
  <d:response><d:href>/a.ics</d:href></d:response>
  <d:response><d:href></d:href><c:calendar-data>BEGIN:VCALENDAR</c:calendar-data></d:response>
  <d:response><d:href>/b.ics</d:href><c:calendar-data>BEGIN:VCALENDAR</c:calendar-data></d:response>
</d:multistatus>"#;
    let pairs = parse_multistatus_events(xml);
    assert_eq!(pairs.len(), 1);
    assert_eq!(pairs[0].0, "/b.ics");
    assert_eq!(pairs[0].1, "BEGIN:VCALENDAR");
}
