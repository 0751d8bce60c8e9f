use rustymail::caldav::{
    caldav_base_origin, caldav_url_or_error, calendar_home_url, calendar_query_body, event_uid, event_with_id,
    events_from_report, local_name, parse_propfind_property, plan_event_update, plan_new_event,
    principal_url, report_status_ok, resolve_href, well_known_url,
};
use rustymail::calendar::{
    upcoming_events_url, upcoming_events_url_at, CalendarDateTime, NewCalendarEvent,
};
use rustymail::ical::{ical_to_iso, parse_ical_event};

const PRINCIPAL: &str = r#"<?xml version="1.0"?>
<d:multistatus xmlns:d="DAV:">
  <d:response>
    <d:href>/</d:href>
    <d:propstat>
      <d:prop>
        <d:current-user-principal><d:href>/principals/user/</d:href></d:current-user-principal>
      </d:prop>
    </d:propstat>
  </d:response>
</d:multistatus>"#;

const HOME: &str = r#"<?xml version="1.0"?>
<d:multistatus xmlns:d="DAV:" xmlns:c="urn:ietf:params:xml:ns:caldav">
  <d:response>
    <d:propstat>
      <d:prop>
        <c:calendar-home-set><d:href>https://cal.example.com/calendars/user/</d:href></c:calendar-home-set>
      </d:prop>
    </d:propstat>
  </d:response>
</d:multistatus>"#;

fn meeting() -> NewCalendarEvent {
    NewCalendarEvent {
        summary: Some("Sync".to_string()),
        description: None,
        location: None,
        start: Some(CalendarDateTime { date: None, date_time: Some("2026-05-01T10:00:00Z".to_string()), time_zone: None }),
        end: None,
    }
}

#[test]
fn discovery_reads_principal_and_home() {
    assert_eq!(
        principal_url("https://cal.example.com", PRINCIPAL),
        Ok("https://cal.example.com/principals/user/".to_string())
    );
    assert_eq!(
        calendar_home_url("https://cal.example.com", HOME),
        Ok("https://cal.example.com/calendars/user/".to_string())
    );
    assert_eq!(
        principal_url("https://cal.example.com", HOME),
        Err("Could not find current-user-principal".to_string())
    );
    assert_eq!(
        calendar_home_url("https://cal.example.com", PRINCIPAL),
        Err("Could not find calendar-home-set".to_string())
    );
    assert_eq!(parse_propfind_property(PRINCIPAL, "getetag"), None);
}

#[test]
fn hrefs_and_names() {
    assert_eq!(resolve_href("https://h", "/a/b"), "https://h/a/b");
    assert_eq!(resolve_href("https://h", "http://other/x"), "http://other/x");
    assert_eq!(local_name(b"d:href"), "href");
    assert_eq!(local_name(b"href"), "href");
    assert_eq!(local_name(b"c:calendar-data"), "calendar-data");
}

#[test]
fn report_body_and_status() {
    let body = calendar_query_body("2026-04-01T00:00:00Z", "2026-04-30T23:59:59Z");
    assert!(body.contains("<c:time-range start=\"20260401T000000Z\" end=\"20260430T235959Z\"/>"));
    assert!(body.starts_with("<?xml version=\"1.0\"?>\n<c:calendar-query"));
    assert!(body.ends_with("</c:calendar-query>"));
    assert!(report_status_ok(200));
    assert!(report_status_ok(207));
    assert!(report_status_ok(299));
    assert!(!report_status_ok(300));
    assert!(!report_status_ok(404));
}

#[test]
fn report_events_are_parsed() {
    let xml = r#"<?xml version="1.0"?>
<d:multistatus xmlns:d="DAV:" xmlns:c="urn:ietf:params:xml:ns:caldav">
  <d:response>
    <d:href>/cal/e1.ics</d:href>
    <d:propstat><d:prop><c:calendar-data>BEGIN:VCALENDAR
BEGIN:VEVENT
UID:e1@x
DTSTART:20260415T090000Z
SUMMARY:One
END:VEVENT
END:VCALENDAR</c:calendar-data></d:prop></d:propstat>
  </d:response>
  <d:response>
    <d:href>/cal/e2.ics</d:href>
    <d:propstat><d:prop><c:calendar-data>BEGIN:VCALENDAR
BEGIN:VEVENT
UID:e2@x
DTSTART;VALUE=DATE:20260416
SUMMARY:Two
END:VEVENT
END:VCALENDAR</c:calendar-data></d:prop></d:propstat>
  </d:response>
</d:multistatus>"#;
    let events = events_from_report(xml);
    assert_eq!(events.len(), 2);
    assert_eq!(events[0].id, "/cal/e1.ics");
    assert_eq!(events[0].summary.as_deref(), Some("One"));
    assert_eq!(events[0].start.as_ref().unwrap().date_time.as_deref(), Some("2026-04-15T09:00:00Z"));
    assert_eq!(events[1].id, "/cal/e2.ics");
    assert_eq!(events[1].start.as_ref().unwrap().date.as_deref(), Some("2026-04-16"));
}

#[test]
fn ical_times_become_iso() {
    assert_eq!(ical_to_iso("20260415T090000Z"), "2026-04-15T09:00:00Z");
    assert_eq!(ical_to_iso("20260415T090000"), "2026-04-15T09:00:00");
    assert_eq!(ical_to_iso("20260415"), "20260415");
}

#[test]
fn event_uid_from_id() {
    assert_eq!(event_uid("/calendars/user/default/abc.ics"), "abc");
    assert_eq!(event_uid("https://h/c/x.ics.ics"), "x");
    assert_eq!(event_uid("plain"), "plain");
}

#[test]
fn new_event_gets_random_uid() {
    let a = plan_new_event("https://h/cal", &meeting());
    let b = plan_new_event("https://h/cal", &meeting());
    assert_eq!(a.uid.len(), 36);
    for (i, c) in a.uid.chars().enumerate() {
        if i == 8 || i == 13 || i == 18 || i == 23 {
            assert_eq!(c, '-');
        } else {
            assert!(c.is_ascii_digit() || ('a'..='f').contains(&c));
        }
    }
    assert_eq!(a.uid.chars().nth(14), Some('4'));
    assert!(matches!(a.uid.chars().nth(19), Some('8' | '9' | 'a' | 'b')));
    assert_ne!(a.uid, b.uid);
    assert_eq!(a.url, format!("https://h/cal/{}.ics", a.uid));
    assert!(a.body.contains(&format!("UID:{}\r\n", a.uid)));
    assert!(a.body.contains("SUMMARY:Sync"));
    assert!(a.body.contains("DTSTART:20260501T100000Z"));
}

#[test]
fn event_update_uses_id() {
    let u = plan_event_update("https://h", "/cal/ev9.ics", &meeting());
    assert_eq!(u.url, "https://h/cal/ev9.ics");
    assert!(u.body.contains("UID:ev9\r\n"));
    let e = event_with_id("/cal/ev9.ics", &meeting());
    assert_eq!(e.id, "/cal/ev9.ics");
    assert_eq!(e.summary.as_deref(), Some("Sync"));
    assert!(e.html_link.is_none());
    assert!(e.end.is_none());
}

#[test]
fn caldav_url_must_be_configured() {
    assert_eq!(caldav_url_or_error(Some(Some("https://h".to_string()))), Ok("https://h".to_string()));
    let msg = "CalDAV not configured. Calendar requires CalDAV support from your provider.".to_string();
    assert_eq!(caldav_url_or_error(Some(None)), Err(msg.clone()));
    assert_eq!(caldav_url_or_error(None), Err(msg));
}

#[test]
fn folded_lines_are_unfolded() {
    let ical = "BEGIN:VCALENDAR\r\nBEGIN:VEVENT\r\nUID:f@x\r\nSUMMARY:Quarterly plan\r\n ning review\r\nDESCRIPTION:line one\n\ttwo\r\nEND:VEVENT\r\nEND:VCALENDAR";
    let event = parse_ical_event(ical, "").unwrap();
    assert_eq!(event.id, "f@x");
    assert_eq!(event.summary.as_deref(), Some("Quarterly planning review"));
    assert_eq!(event.description.as_deref(), Some("line onetwo"));
    assert!(parse_ical_event("no calendar here", "x").is_none());
}

#[test]
fn discovery_origin_and_start() {
    assert_eq!(well_known_url("cal.example.com"), "https://cal.example.com/.well-known/caldav");
    assert_eq!(caldav_base_origin("https://dav.example.com:8443/caldav/", "cal.example.com"), "https://dav.example.com");
    assert_eq!(caldav_base_origin("http://other.org/x", "cal.example.com"), "http://other.org");
    assert_eq!(caldav_base_origin("not a url", "cal.example.com"), "https://cal.example.com");
    assert_eq!(caldav_base_origin("mailto:a@b", "cal.example.com"), "mailto://cal.example.com");
}

#[test]
fn upcoming_events_request_url() {
    assert_eq!(
        upcoming_events_url("2026-04-15T09:00:00+00:00"),
        "https://www.googleapis.com/calendar/v3/calendars/primary/events?timeMin=2026-04-15T09%3A00%3A00%2B00%3A00&maxResults=50&orderBy=startTime&singleEvents=true"
    );
    assert_eq!(
        upcoming_events_url_at(0, 0),
        Some("https://www.googleapis.com/calendar/v3/calendars/primary/events?timeMin=1970-01-01T00%3A00%3A00%2B00%3A00&maxResults=50&orderBy=startTime&singleEvents=true".to_string())
    );
    assert_eq!(upcoming_events_url_at(i64::MAX, 0), None);
    assert!(upcoming_events_url("é ~").contains("timeMin=%C3%A9%20~&"));
}
