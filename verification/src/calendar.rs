//! Calendar events and their iCalendar (RFC 5545) encoding.

use crate::query::opt_view;
use crate::text::{
    chars_of, has_prefix, join, join_parts, lemma_filter_twice, lemma_remove_char_filter, push_all,
    remove_char, string_of, without_char,
};
use vstd::prelude::*;
use vstd::utf8::encode_utf8;

verus! {

/// A start or end time: `date` for all-day events ("YYYY-MM-DD"),
/// `date_time` (ISO 8601) and an optional time zone otherwise.
#[derive(Debug)]
pub struct CalendarDateTime {
    pub date: Option<String>,
    pub date_time: Option<String>,
    pub time_zone: Option<String>,
}

/// A calendar event as the client shows it.
#[derive(Debug)]
pub struct CalendarEvent {
    pub id: String,
    pub summary: Option<String>,
    pub description: Option<String>,
    pub location: Option<String>,
    pub start: Option<CalendarDateTime>,
    pub end: Option<CalendarDateTime>,
    pub html_link: Option<String>,
    pub hangout_link: Option<String>,
}

/// The body of a calendar listing.
#[derive(Debug)]
pub struct EventsResponse {
    pub items: Vec<CalendarEvent>,
}

/// The fields of an event being created or updated.
#[derive(Debug)]
pub struct NewCalendarEvent {
    pub summary: Option<String>,
    pub description: Option<String>,
    pub location: Option<String>,
    pub start: Option<CalendarDateTime>,
    pub end: Option<CalendarDateTime>,
}

/// Abstract start or end time.
pub struct DateTimeView {
    pub date: Option<Seq<char>>,
    pub date_time: Option<Seq<char>>,
    pub time_zone: Option<Seq<char>>,
}

impl View for CalendarDateTime {
    type V = DateTimeView;

    open spec fn view(&self) -> DateTimeView {
        DateTimeView {
            date: opt_view(self.date),
            date_time: opt_view(self.date_time),
            time_zone: opt_view(self.time_zone),
        }
    }
}

pub open spec fn opt_dt_view(o: Option<CalendarDateTime>) -> Option<DateTimeView> {
    match o {
        Some(d) => Some(d@),
        None => None,
    }
}

/// Abstract calendar event.
pub struct EventView {
    pub id: Seq<char>,
    pub summary: Option<Seq<char>>,
    pub description: Option<Seq<char>>,
    pub location: Option<Seq<char>>,
    pub start: Option<DateTimeView>,
    pub end: Option<DateTimeView>,
    pub html_link: Option<Seq<char>>,
    pub hangout_link: Option<Seq<char>>,
}

impl View for CalendarEvent {
    type V = EventView;

    open spec fn view(&self) -> EventView {
        EventView {
            id: self.id@,
            summary: opt_view(self.summary),
            description: opt_view(self.description),
            location: opt_view(self.location),
            start: opt_dt_view(self.start),
            end: opt_dt_view(self.end),
            html_link: opt_view(self.html_link),
            hangout_link: opt_view(self.hangout_link),
        }
    }
}

pub open spec fn opt_event_view(o: Option<CalendarEvent>) -> Option<EventView> {
    match o {
        Some(e) => Some(e@),
        None => None,
    }
}

/// A timestamp in the compact iCalendar form: the ISO text without its
/// dashes and colons.
pub open spec fn compact_datetime(iso: Seq<char>) -> Seq<char> {
    remove_char(remove_char(iso, '-'), ':')
}

/// Whether a character stays in the compact form of a timestamp.
pub open spec fn compact_keeps(c: char) -> bool {
    c != '-' && c != ':'
}

/// The compact form of a timestamp is the timestamp with every dash and
/// every colon left out, taken in one pass; and compacting a compact form
/// changes nothing.
pub proof fn law_compact_datetime(iso: Seq<char>)
    ensures
        compact_datetime(iso) == iso.filter(|c: char| compact_keeps(c)),
        compact_datetime(compact_datetime(iso)) == compact_datetime(iso),
{
    let dash = |x: char| x != '-';
    let colon = |x: char| x != ':';
    let keep = |c: char| compact_keeps(c);
    lemma_remove_char_filter(iso, '-', dash);
    lemma_filter_twice(iso, dash, colon);
    assert((|x: char| dash(x) && colon(x)) =~= keep);
    lemma_remove_char_filter(iso.filter(dash), ':', colon);
    assert(compact_datetime(iso) == iso.filter(keep));
    let once = iso.filter(keep);
    lemma_remove_char_filter(once, '-', dash);
    lemma_filter_twice(once, dash, colon);
    lemma_remove_char_filter(once.filter(dash), ':', colon);
    assert(compact_datetime(once) == once.filter(keep));
    lemma_filter_twice(iso, keep, keep);
    assert((|x: char| keep(x) && keep(x)) =~= keep);
}

/// Turns an ISO 8601 timestamp ("2026-04-25T09:00:00Z") into the compact
/// iCalendar form ("20260425T090000Z").
pub fn format_caldav_datetime(iso: &str) -> (r: String)
    ensures
        r@ == compact_datetime(iso@),
{
    let cs = chars_of(iso);
    let a = without_char(cs.as_slice(), '-');
    let b = without_char(a.as_slice(), ':');
    string_of(b.as_slice())
}

/// The line for an optional text property.
pub open spec fn text_line(key: Seq<char>, v: Option<Seq<char>>) -> Seq<Seq<char>> {
    match v {
        Some(x) => seq![key + x],
        None => Seq::empty(),
    }
}

/// The line for a start or end time: a timestamp when there is one, an
/// all-day date (without dashes) otherwise, nothing when neither is set.
pub open spec fn time_line(key: Seq<char>, t: Option<DateTimeView>) -> Seq<Seq<char>> {
    match t {
        Some(d) => match d.date_time {
            Some(x) => seq![key + ":"@ + compact_datetime(x)],
            None => match d.date {
                Some(x) => seq![key + ";VALUE=DATE:"@ + remove_char(x, '-')],
                None => Seq::empty(),
            },
        },
        None => Seq::empty(),
    }
}

/// The lines of the iCalendar object for an event with the given UID.
pub open spec fn ical_lines(uid: Seq<char>, ev: NewCalendarEvent) -> Seq<Seq<char>> {
    seq![
        "BEGIN:VCALENDAR"@,
        "VERSION:2.0"@,
        "PRODID:-//Rustymail//CalDAV//EN"@,
        "BEGIN:VEVENT"@,
        "UID:"@ + uid,
    ] + text_line("SUMMARY:"@, opt_view(ev.summary)) + text_line(
        "DESCRIPTION:"@,
        opt_view(ev.description),
    ) + text_line("LOCATION:"@, opt_view(ev.location)) + time_line(
        "DTSTART"@,
        opt_dt_view(ev.start),
    ) + time_line("DTEND"@, opt_dt_view(ev.end)) + seq!["END:VEVENT"@, "END:VCALENDAR"@]
}

/// Whether a line is non-empty and does not start with `E`, so that it is
/// none of the closing lines.
spec fn opening_safe(line: Seq<char>) -> bool {
    line.len() > 0 && line[0] != 'E'
}

proof fn lemma_text_line_safe(key: Seq<char>, v: Option<Seq<char>>)
    requires
        key.len() > 0,
        key[0] != 'E',
    ensures
        text_line(key, v).len() <= 1,
        forall|i: int| 0 <= i < text_line(key, v).len() ==> opening_safe(#[trigger] text_line(key, v)[i]),
        forall|i: int| 0 <= i < text_line(key, v).len() ==> has_prefix(#[trigger] text_line(key, v)[i], key),
        v matches Some(x) ==> text_line(key, v) == seq![key + x],
{
    if let Some(x) = v {
        assert((key + x)[0] == key[0]);
        assert((key + x).take(key.len() as int) =~= key);
    }
}

proof fn lemma_time_line_safe(key: Seq<char>, t: Option<DateTimeView>)
    requires
        key.len() > 0,
        key[0] != 'E',
    ensures
        time_line(key, t).len() <= 1,
        forall|i: int| 0 <= i < time_line(key, t).len() ==> opening_safe(#[trigger] time_line(key, t)[i]),
        forall|i: int| 0 <= i < time_line(key, t).len() ==> has_prefix(#[trigger] time_line(key, t)[i], key),
        (t matches Some(d) && (d.date_time is Some || d.date is Some)) ==> time_line(key, t).len() == 1,
{
    match t {
        Some(d) => match d.date_time {
            Some(x) => {
                let l = key + ":"@ + compact_datetime(x);
                assert(l[0] == key[0]);
                assert(l.take(key.len() as int) =~= key);
            },
            None => match d.date {
                Some(x) => {
                    let l = key + ";VALUE=DATE:"@ + remove_char(x, '-');
                    assert(l[0] == key[0]);
                    assert(l.take(key.len() as int) =~= key);
                },
                None => {},
            },
        },
        None => {},
    }
}

/// The event lies inside one VEVENT. The object opens with BEGIN:VCALENDAR
/// and its fourth line opens the VEVENT; the VEVENT is closed on the line
/// before the last, which is END:VCALENDAR, and no earlier line closes
/// either. Each set start or end time gives a DTSTART or DTEND line inside
/// the VEVENT, and a set summary, description or location gives its line
/// there too.
pub proof fn law_event_inside_vevent(uid: Seq<char>, ev: NewCalendarEvent)
    ensures
        ical_lines(uid, ev).len() >= 7,
        ical_lines(uid, ev)[0] == "BEGIN:VCALENDAR"@,
        ical_lines(uid, ev)[3] == "BEGIN:VEVENT"@,
        ical_lines(uid, ev)[ical_lines(uid, ev).len() - 2] == "END:VEVENT"@,
        ical_lines(uid, ev)[ical_lines(uid, ev).len() - 1] == "END:VCALENDAR"@,
        forall|i: int|
            0 <= i < ical_lines(uid, ev).len() - 2 ==> #[trigger] ical_lines(uid, ev)[i]
                != "END:VEVENT"@ && ical_lines(uid, ev)[i] != "END:VCALENDAR"@,
        (opt_dt_view(ev.start) matches Some(d) && (d.date_time is Some || d.date is Some))
            ==> exists|j: int|
            3 < j < ical_lines(uid, ev).len() - 2 && has_prefix(
                #[trigger] ical_lines(uid, ev)[j],
                "DTSTART"@,
            ),
        (opt_dt_view(ev.end) matches Some(d) && (d.date_time is Some || d.date is Some))
            ==> exists|j: int|
            3 < j < ical_lines(uid, ev).len() - 2 && has_prefix(
                #[trigger] ical_lines(uid, ev)[j],
                "DTEND"@,
            ),
        opt_view(ev.summary) matches Some(x) ==> exists|j: int|
            3 < j < ical_lines(uid, ev).len() - 2 && #[trigger] ical_lines(uid, ev)[j] == "SUMMARY:"@
                + x,
        opt_view(ev.description) matches Some(x) ==> exists|j: int|
            3 < j < ical_lines(uid, ev).len() - 2 && #[trigger] ical_lines(uid, ev)[j]
                == "DESCRIPTION:"@ + x,
        opt_view(ev.location) matches Some(x) ==> exists|j: int|
            3 < j < ical_lines(uid, ev).len() - 2 && #[trigger] ical_lines(uid, ev)[j] == "LOCATION:"@
                + x,
{
    reveal_strlit("BEGIN:VCALENDAR");
    reveal_strlit("VERSION:2.0");
    reveal_strlit("PRODID:-//Rustymail//CalDAV//EN");
    reveal_strlit("BEGIN:VEVENT");
    reveal_strlit("UID:");
    reveal_strlit("SUMMARY:");
    reveal_strlit("DESCRIPTION:");
    reveal_strlit("LOCATION:");
    reveal_strlit("DTSTART");
    reveal_strlit("DTEND");
    reveal_strlit("END:VEVENT");
    reveal_strlit("END:VCALENDAR");
    let head = seq![
        "BEGIN:VCALENDAR"@,
        "VERSION:2.0"@,
        "PRODID:-//Rustymail//CalDAV//EN"@,
        "BEGIN:VEVENT"@,
        "UID:"@ + uid,
    ];
    assert(("UID:"@ + uid)[0] == 'U');
    let b1 = text_line("SUMMARY:"@, opt_view(ev.summary));
    let b2 = text_line("DESCRIPTION:"@, opt_view(ev.description));
    let b3 = text_line("LOCATION:"@, opt_view(ev.location));
    let b4 = time_line("DTSTART"@, opt_dt_view(ev.start));
    let b5 = time_line("DTEND"@, opt_dt_view(ev.end));
    lemma_text_line_safe("SUMMARY:"@, opt_view(ev.summary));
    lemma_text_line_safe("DESCRIPTION:"@, opt_view(ev.description));
    lemma_text_line_safe("LOCATION:"@, opt_view(ev.location));
    lemma_time_line_safe("DTSTART"@, opt_dt_view(ev.start));
    lemma_time_line_safe("DTEND"@, opt_dt_view(ev.end));
    let body = b1 + b2 + b3 + b4 + b5;
    let tail = seq!["END:VEVENT"@, "END:VCALENDAR"@];
    let ls = ical_lines(uid, ev);
    assert(ls == head + body + tail);
    assert forall|i: int| 0 <= i < body.len() implies opening_safe(#[trigger] body[i]) by {
        if i < b1.len() {
            assert(body[i] == b1[i]);
        } else if i < b1.len() + b2.len() {
            assert(body[i] == b2[i - b1.len()]);
        } else if i < b1.len() + b2.len() + b3.len() {
            assert(body[i] == b3[i - b1.len() - b2.len()]);
        } else if i < b1.len() + b2.len() + b3.len() + b4.len() {
            assert(body[i] == b4[i - b1.len() - b2.len() - b3.len()]);
        } else {
            assert(body[i] == b5[i - b1.len() - b2.len() - b3.len() - b4.len()]);
        }
    }
    assert forall|i: int| 0 <= i < ls.len() - 2 implies #[trigger] ls[i] != "END:VEVENT"@
        && ls[i] != "END:VCALENDAR"@ by {
        if i < 5 {
            assert(ls[i] == head[i]);
            assert(head[i][0] != 'E');
        } else {
            assert(ls[i] == body[i - 5]);
            assert(opening_safe(body[i - 5]));
        }
        assert("END:VEVENT"@[0] == 'E');
        assert("END:VCALENDAR"@[0] == 'E');
    }
    assert(ls[ls.len() - 2] == tail[0]);
    assert(ls[ls.len() - 1] == tail[1]);
    if b4.len() == 1 {
        let j: int = (5 + b1.len() + b2.len() + b3.len()) as int;
        assert(ls[j] == b4[0]);
        assert(has_prefix(ls[j], "DTSTART"@));
    }
    if b5.len() == 1 {
        let j: int = (5 + b1.len() + b2.len() + b3.len() + b4.len()) as int;
        assert(ls[j] == b5[0]);
        assert(has_prefix(ls[j], "DTEND"@));
    }
    if b1.len() == 1 {
        assert(ls[5] == b1[0]);
    }
    if b2.len() == 1 {
        assert(ls[5 + b1.len() as int] == b2[0]);
    }
    if b3.len() == 1 {
        assert(ls[5 + b1.len() + b2.len() as int] == b3[0]);
    }
}

/// The iCalendar text of an event: its lines joined by CRLF.
pub open spec fn ical_text(uid: Seq<char>, ev: NewCalendarEvent) -> Seq<char> {
    join(ical_lines(uid, ev), "\r\n"@)
}

spec fn views_of(v: Seq<Vec<char>>) -> Seq<Seq<char>> {
    v.map_values(|p: Vec<char>| p@)
}

fn concat_chars(a: &str, b: &str) -> (r: Vec<char>)
    ensures
        r@ == a@ + b@,
{
    let mut r = chars_of(a);
    let t = chars_of(b);
    push_all(&mut r, t.as_slice());
    r
}

fn push_text_line(lines: &mut Vec<Vec<char>>, key: &str, v: &Option<String>)
    ensures
        views_of(final(lines)@) == views_of(old(lines)@) + text_line(key@, opt_view(*v)),
{
    let ghost before = views_of(lines@);
    match v {
        Some(x) => {
            lines.push(concat_chars(key, x.as_str()));
        },
        None => {},
    }
    assert(views_of(lines@) =~= before + text_line(key@, opt_view(*v)));
}

fn push_time_line(lines: &mut Vec<Vec<char>>, key: &str, t: &Option<CalendarDateTime>)
    ensures
        views_of(final(lines)@) == views_of(old(lines)@) + time_line(key@, opt_dt_view(*t)),
{
    let ghost before = views_of(lines@);
    match t {
        Some(d) => match &d.date_time {
            Some(x) => {
                let mut l = concat_chars(key, ":");
                let f = format_caldav_datetime(x.as_str());
                let fc = chars_of(f.as_str());
                push_all(&mut l, fc.as_slice());
                lines.push(l);
            },
            None => match &d.date {
                Some(x) => {
                    let mut l = concat_chars(key, ";VALUE=DATE:");
                    let xc = chars_of(x.as_str());
                    let f = without_char(xc.as_slice(), '-');
                    push_all(&mut l, f.as_slice());
                    lines.push(l);
                },
                None => {},
            },
        },
        None => {},
    }
    assert(views_of(lines@) =~= before + time_line(key@, opt_dt_view(*t)));
}

/// Builds the iCalendar object (VCALENDAR with one VEVENT) that is stored
/// for an event, lines separated by CRLF.
pub fn build_ical_event(uid: &str, event: &NewCalendarEvent) -> (r: String)
    ensures
        r@ == ical_text(uid@, *event),
{
    let mut lines: Vec<Vec<char>> = Vec::new();
    lines.push(chars_of("BEGIN:VCALENDAR"));
    lines.push(chars_of("VERSION:2.0"));
    lines.push(chars_of("PRODID:-//Rustymail//CalDAV//EN"));
    lines.push(chars_of("BEGIN:VEVENT"));
    lines.push(concat_chars("UID:", uid));
    let ghost head = views_of(lines@);
    assert(head =~= seq![
        "BEGIN:VCALENDAR"@,
        "VERSION:2.0"@,
        "PRODID:-//Rustymail//CalDAV//EN"@,
        "BEGIN:VEVENT"@,
        "UID:"@ + uid@,
    ]);
    push_text_line(&mut lines, "SUMMARY:", &event.summary);
    push_text_line(&mut lines, "DESCRIPTION:", &event.description);
    push_text_line(&mut lines, "LOCATION:", &event.location);
    push_time_line(&mut lines, "DTSTART", &event.start);
    push_time_line(&mut lines, "DTEND", &event.end);
    let ghost mid = views_of(lines@);
    lines.push(chars_of("END:VEVENT"));
    lines.push(chars_of("END:VCALENDAR"));
    assert(views_of(lines@) =~= mid + seq!["END:VEVENT"@, "END:VCALENDAR"@]);
    assert(views_of(lines@) =~= ical_lines(uid@, *event));
    let sep = chars_of("\r\n");
    let out = join_parts(&lines, sep.as_slice());
    string_of(out.as_slice())
}


/// Whether a byte is left as it is by URL encoding: ASCII letters, digits
/// and `- . _ ~`.
pub open spec fn url_unreserved(b: u8) -> bool {
    (48 <= b && b <= 57) || (65 <= b && b <= 90) || (97 <= b && b <= 122) || b == 45 || b == 46 || b
        == 95 || b == 126
}

/// The uppercase hexadecimal digit of a value below 16.
pub open spec fn hex_digit(d: int) -> char {
    if d < 10 {
        (48 + d) as char
    } else {
        (55 + d) as char
    }
}

/// The URL encoding of some bytes: unreserved bytes as themselves, every
/// other byte as `%` and two uppercase hexadecimal digits.
pub open spec fn url_encode_bytes(bs: Seq<u8>) -> Seq<char>
    decreases bs.len(),
{
    if bs.len() == 0 {
        Seq::empty()
    } else {
        let b = bs.last();
        url_encode_bytes(bs.drop_last()) + if url_unreserved(b) {
            seq![b as char]
        } else {
            seq!['%', hex_digit((b / 16) as int), hex_digit((b % 16) as int)]
        }
    }
}

/// The URL encoding of a text: of its UTF-8 bytes.
pub open spec fn url_encoded(s: Seq<char>) -> Seq<char> {
    url_encode_bytes(encode_utf8(s))
}

/// Encodes a text with `urlencoding::encode`, whose source keeps the bytes
/// `0-9 A-Z a-z - . _ ~` and writes every other byte of the text's UTF-8
/// form as `%` and two uppercase hexadecimal digits.
#[verifier::external_body]
fn url_encode(s: &str) -> (r: String)
    ensures
        r@ == url_encoded(s@),
{
    urlencoding::encode(s).into_owned()
}

/// The time of a Unix timestamp (seconds and nanoseconds) as RFC 3339 text,
/// as `chrono` writes it for UTC; none when the timestamp is out of range.
pub uninterp spec fn rfc3339_text(secs: i64, nanos: u32) -> Option<Seq<char>>;

/// Builds the UTC time with `chrono::DateTime::from_timestamp` and writes
/// it with `to_rfc3339`. The calendar arithmetic is not restated.
#[verifier::external_body]
fn rfc3339_of(secs: i64, nanos: u32) -> (r: Option<String>)
    ensures
        opt_view(r) == rfc3339_text(secs, nanos),
{
    chrono::DateTime::from_timestamp(secs, nanos).map(|d| d.to_rfc3339())
}

/// The Google Calendar request for the upcoming events of the primary
/// calendar from a time on: at most 50, single events, by start time.
pub open spec fn upcoming_events_request(now_rfc3339: Seq<char>) -> Seq<char> {
    "https://www.googleapis.com/calendar/v3/calendars/primary/events?timeMin="@ + url_encoded(
        now_rfc3339,
    ) + "&maxResults=50&orderBy=startTime&singleEvents=true"@
}

/// Builds the request URL for the upcoming events from a time on.
pub fn upcoming_events_url(now_rfc3339: &str) -> (r: String)
    ensures
        r@ == upcoming_events_request(now_rfc3339@),
{
    let mut out = chars_of("https://www.googleapis.com/calendar/v3/calendars/primary/events?timeMin=");
    push_all(&mut out, chars_of(url_encode(now_rfc3339).as_str()).as_slice());
    push_all(&mut out, chars_of("&maxResults=50&orderBy=startTime&singleEvents=true").as_slice());
    string_of(out.as_slice())
}

/// Builds the request URL for the upcoming events from a Unix timestamp
/// on; none when the timestamp is out of `chrono`'s range.
pub fn upcoming_events_url_at(secs: i64, nanos: u32) -> (r: Option<String>)
    ensures
        match rfc3339_text(secs, nanos) {
            Some(t) => r matches Some(u) && u@ == upcoming_events_request(t),
            None => r is None,
        },
{
    match rfc3339_of(secs, nanos) {
        Some(t) => Some(upcoming_events_url(t.as_str())),
        None => None,
    }
}

} // verus!
