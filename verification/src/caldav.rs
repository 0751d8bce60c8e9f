//! CalDAV: reading WebDAV multistatus and PROPFIND replies, and the URLs,
//! request bodies and results of the event requests.
//!
//! The XML is tokenized by `quick_xml`; the reading of the token stream,
//! which decides what is kept, happens here.

use crate::calendar::{
    build_ical_event, compact_datetime, format_caldav_datetime, ical_text, opt_dt_view,
    opt_event_view, CalendarDateTime, CalendarEvent, EventView, NewCalendarEvent,
};
use crate::ical::{ical_event, parse_ical_event};
use crate::query::opt_view;
use crate::text::{
    chars_of, has_prefix, has_suffix, matches_at, push_str, rfind, rfind_char, slice_chars,
    starts_with, str_eq, string_of,
};
use quick_xml::events::Event;
use quick_xml::reader::Reader;
use vstd::prelude::*;
use vstd::utf8::{decode_utf8, valid_utf8};

verus! {

/// An XML token as the CalDAV readers use it: start and end tags carry
/// their qualified name as bytes, text its unescaped content (`None` when
/// unescaping failed).
#[derive(Debug)]
pub enum XmlEvent {
    Start(Vec<u8>),
    Text(Option<String>),
    End(Vec<u8>),
    Other,
}

/// Abstract XML token.
pub enum XmlToken {
    Start(Seq<u8>),
    Text(Option<Seq<char>>),
    End(Seq<u8>),
    Other,
}

impl View for XmlEvent {
    type V = XmlToken;

    open spec fn view(&self) -> XmlToken {
        match self {
            XmlEvent::Start(n) => XmlToken::Start(n@),
            XmlEvent::Text(t) => XmlToken::Text(opt_view(*t)),
            XmlEvent::End(n) => XmlToken::End(n@),
            XmlEvent::Other => XmlToken::Other,
        }
    }
}

pub open spec fn tokens_view(v: Seq<XmlEvent>) -> Seq<XmlToken> {
    v.map_values(|e: XmlEvent| e@)
}

/// The tokens `quick_xml` reads from a document with text trimming on, up
/// to the end of input or the first error.
pub uninterp spec fn xml_tokens(xml: Seq<char>) -> Seq<XmlToken>;

/// Reads a document with `quick_xml::reader::Reader::from_str` and
/// `trim_text(true)`, event by event with `read_event`, until the end of
/// input or an error; start and end tags keep their qualified name, text
/// its `unescape` result, other events become `Other`. Nothing is claimed
/// of the tokenizer beyond its result being a function of the text.
#[verifier::external_body]
fn read_xml_tokens(xml: &str) -> (r: Vec<XmlEvent>)
    ensures
        tokens_view(r@) == xml_tokens(xml@),
{
    let mut reader = Reader::from_str(xml);
    reader.config_mut().trim_text(true);
    let mut out = Vec::new();
    loop {
        out.push(match reader.read_event() {
            Ok(Event::Start(e)) => XmlEvent::Start(e.name().as_ref().to_vec()),
            Ok(Event::Text(e)) => XmlEvent::Text(e.unescape().ok().map(|t| t.to_string())),
            Ok(Event::End(e)) => XmlEvent::End(e.name().as_ref().to_vec()),
            Ok(Event::Eof) | Err(_) => return out,
            Ok(_) => XmlEvent::Other,
        });
    }
}

/// Decodes bytes with `std::str::from_utf8`, which succeeds exactly on
/// valid UTF-8.
#[verifier::external_body]
fn utf8_text(bytes: &[u8]) -> (r: Option<String>)
    ensures
        match r {
            Some(s) => valid_utf8(bytes@) && s@ == decode_utf8(bytes@),
            None => !valid_utf8(bytes@),
        },
{
    std::str::from_utf8(bytes).ok().map(|s| s.to_string())
}

/// The local part of a qualified XML name: the text after its last colon,
/// the whole name when it has none, empty when it is not UTF-8.
pub open spec fn local_part(name: Seq<u8>) -> Seq<char> {
    let s = if valid_utf8(name) {
        decode_utf8(name)
    } else {
        Seq::empty()
    };
    match rfind_char(s, ':') {
        Some(p) => s.skip(p + 1),
        None => s,
    }
}

/// The local part of a qualified XML name.
pub fn local_name(full: &[u8]) -> (r: String)
    ensures
        r@ == local_part(full@),
{
    let s = match utf8_text(full) {
        Some(s) => s,
        None => string_of(Vec::<char>::new().as_slice()),
    };
    let cs = chars_of(s.as_str());
    match rfind(cs.as_slice(), ':') {
        Some(p) => {
            let n = cs.len();
            assert(p < n);
            let tail = slice_chars(cs.as_slice(), p + 1, n);
            assert(tail@ =~= cs@.skip(p + 1));
            string_of(tail.as_slice())
        },
        None => s,
    }
}

/// Where the reading of a multistatus reply stands: inside a `response`
/// or not, the href and calendar data seen in it, the element whose text
/// is being read, and the (href, calendar data) pairs found so far.
pub struct MultistatusState {
    pub inside: bool,
    pub href: Seq<char>,
    pub data: Seq<char>,
    pub tag: Seq<char>,
    pub found: Seq<(Seq<char>, Seq<char>)>,
}

pub open spec fn text_or_empty(t: Option<Seq<char>>) -> Seq<char> {
    match t {
        Some(x) => x,
        None => Seq::empty(),
    }
}

/// One token of a multistatus reply. A `response` start clears the href
/// and data; an `href` or `calendar-data` start inside a response selects
/// that element, any other start deselects. Text inside a response fills
/// the selected element. A `response` end records the pair when both parts
/// are non-empty; every end deselects.
pub open spec fn multistatus_step(st: MultistatusState, t: XmlToken) -> MultistatusState {
    match t {
        XmlToken::Start(n) => {
            let local = local_part(n);
            if local == "response"@ {
                MultistatusState { inside: true, href: Seq::empty(), data: Seq::empty(), ..st }
            } else if st.inside && (local == "href"@ || local == "calendar-data"@) {
                MultistatusState { tag: local, ..st }
            } else {
                MultistatusState { tag: Seq::empty(), ..st }
            }
        },
        XmlToken::Text(x) => {
            if st.inside && st.tag == "href"@ {
                MultistatusState { href: text_or_empty(x), ..st }
            } else if st.inside && st.tag == "calendar-data"@ {
                MultistatusState { data: text_or_empty(x), ..st }
            } else {
                st
            }
        },
        XmlToken::End(n) => {
            if local_part(n) == "response"@ && st.inside {
                MultistatusState {
                    inside: false,
                    tag: Seq::empty(),
                    found: if st.href.len() > 0 && st.data.len() > 0 {
                        st.found.push((st.href, st.data))
                    } else {
                        st.found
                    },
                    ..st
                }
            } else {
                MultistatusState { tag: Seq::empty(), ..st }
            }
        },
        XmlToken::Other => st,
    }
}

pub open spec fn multistatus_run(ts: Seq<XmlToken>) -> MultistatusState
    decreases ts.len(),
{
    if ts.len() == 0 {
        MultistatusState {
            inside: false,
            href: Seq::empty(),
            data: Seq::empty(),
            tag: Seq::empty(),
            found: Seq::empty(),
        }
    } else {
        multistatus_step(multistatus_run(ts.drop_last()), ts.last())
    }
}

/// The (href, calendar data) pairs of a CalDAV multistatus reply.
pub open spec fn multistatus_pairs(xml: Seq<char>) -> Seq<(Seq<char>, Seq<char>)> {
    multistatus_run(xml_tokens(xml)).found
}

/// Whether a token closes a `response` element.
pub open spec fn is_response_end(t: XmlToken) -> bool {
    match t {
        XmlToken::End(n) => local_part(n) == "response"@,
        _ => false,
    }
}

/// How many `response` elements the tokens close.
pub open spec fn response_end_count(ts: Seq<XmlToken>) -> nat
    decreases ts.len(),
{
    if ts.len() == 0 {
        0
    } else {
        response_end_count(ts.drop_last()) + if is_response_end(ts.last()) {
            1nat
        } else {
            0nat
        }
    }
}

proof fn lemma_multistatus_run_pairs(ts: Seq<XmlToken>)
    ensures
        multistatus_run(ts).found.len() <= response_end_count(ts),
        forall|i: int|
            0 <= i < multistatus_run(ts).found.len() ==> (#[trigger] multistatus_run(ts).found[i]).0.len()
                > 0 && multistatus_run(ts).found[i].1.len() > 0,
    decreases ts.len(),
{
    if ts.len() > 0 {
        lemma_multistatus_run_pairs(ts.drop_last());
        let st = multistatus_run(ts.drop_last());
        let r = multistatus_run(ts);
        assert forall|i: int| 0 <= i < r.found.len() implies (#[trigger] r.found[i]).0.len() > 0
            && r.found[i].1.len() > 0 by {
            if i < st.found.len() {
                assert(r.found[i] == st.found[i]);
            }
        }
    }
}

/// Every pair read from a multistatus reply has a non-empty href and
/// non-empty calendar data, and no `response` element gives more than one
/// pair.
pub proof fn law_multistatus_pairs(xml: Seq<char>)
    ensures
        multistatus_pairs(xml).len() <= response_end_count(xml_tokens(xml)),
        forall|i: int|
            0 <= i < multistatus_pairs(xml).len() ==> (#[trigger] multistatus_pairs(xml)[i]).0.len() > 0
                && multistatus_pairs(xml)[i].1.len() > 0,
{
    lemma_multistatus_run_pairs(xml_tokens(xml));
}

pub open spec fn pair_views(v: Seq<(String, String)>) -> Seq<(Seq<char>, Seq<char>)> {
    v.map_values(|p: (String, String)| (p.0@, p.1@))
}

fn empty_string() -> (r: String)
    ensures
        r@ == Seq::<char>::empty(),
{
    string_of(Vec::<char>::new().as_slice())
}

fn text_of(t: &Option<String>) -> (r: String)
    ensures
        r@ == text_or_empty(opt_view(*t)),
{
    match t {
        Some(x) => x.clone(),
        None => empty_string(),
    }
}

/// Collects the (href, calendar data) pairs of the `response` elements of a
/// CalDAV REPORT reply, in document order.
pub fn parse_multistatus_events(xml: &str) -> (r: Vec<(String, String)>)
    ensures
        pair_views(r@) == multistatus_pairs(xml@),
{
    let tokens = read_xml_tokens(xml);
    let ghost tv = tokens_view(tokens@);
    let mut results: Vec<(String, String)> = Vec::new();
    let mut inside = false;
    let mut href = empty_string();
    let mut data = empty_string();
    let mut tag = empty_string();
    let mut i: usize = 0;
    while i < tokens.len()
        invariant
            i <= tokens@.len(),
            tv == tokens_view(tokens@),
            ({
                let st = multistatus_run(tv.take(i as int));
                &&& st.inside == inside
                &&& st.href == href@
                &&& st.data == data@
                &&& st.tag == tag@
                &&& st.found == pair_views(results@)
            }),
        decreases tokens.len() - i,
    {
        proof {
            assert(tv.take(i + 1).drop_last() =~= tv.take(i as int));
            assert(tv.take(i + 1).last() == tokens@[i as int]@);
            reveal_strlit("response");
            reveal_strlit("href");
            reveal_strlit("calendar-data");
        }
        match &tokens[i] {
            XmlEvent::Start(n) => {
                let local = local_name(n.as_slice());
                if str_eq(local.as_str(), "response") {
                    inside = true;
                    href = empty_string();
                    data = empty_string();
                } else if inside && (str_eq(local.as_str(), "href") || str_eq(
                    local.as_str(),
                    "calendar-data",
                )) {
                    tag = local;
                } else {
                    tag = empty_string();
                }
            },
            XmlEvent::Text(t) => {
                if inside {
                    if str_eq(tag.as_str(), "href") {
                        href = text_of(t);
                    } else if str_eq(tag.as_str(), "calendar-data") {
                        data = text_of(t);
                    }
                }
            },
            XmlEvent::End(n) => {
                let local = local_name(n.as_slice());
                if str_eq(local.as_str(), "response") && inside {
                    if !href.as_str().is_empty() && !data.as_str().is_empty() {
                        results.push((href.clone(), data.clone()));
                        assert(pair_views(results@) =~= multistatus_run(
                            tv.take(i as int),
                        ).found.push((href@, data@)));
                    }
                    inside = false;
                }
                tag = empty_string();
            },
            XmlEvent::Other => {},
        }
        i = i + 1;
    }
    assert(tv.take(tv.len() as int) =~= tv);
    results
}

/// Where the search for a PROPFIND property stands: whether text is being
/// captured, and the value found, if any.
pub struct PropfindState {
    pub capture: bool,
    pub found: Option<Seq<char>>,
}

/// One token of a PROPFIND reply, searched for `property`. Its start turns
/// capturing on; while capturing, an `href` start keeps it on and any other
/// start turns it off; its end turns it off. The first non-empty text read
/// while capturing is the value, and nothing changes after it.
pub open spec fn propfind_step(st: PropfindState, t: XmlToken, property: Seq<char>) -> PropfindState {
    if st.found is Some {
        st
    } else {
        match t {
            XmlToken::Start(n) => {
                let local = local_part(n);
                if local == property {
                    PropfindState { capture: true, ..st }
                } else if st.capture && local == "href"@ {
                    st
                } else {
                    PropfindState { capture: false, ..st }
                }
            },
            XmlToken::Text(x) => {
                if st.capture && text_or_empty(x).len() > 0 {
                    PropfindState { found: Some(text_or_empty(x)), ..st }
                } else {
                    st
                }
            },
            XmlToken::End(n) => {
                if local_part(n) == property {
                    PropfindState { capture: false, ..st }
                } else {
                    st
                }
            },
            XmlToken::Other => st,
        }
    }
}

pub open spec fn propfind_run(ts: Seq<XmlToken>, property: Seq<char>) -> PropfindState
    decreases ts.len(),
{
    if ts.len() == 0 {
        PropfindState { capture: false, found: None }
    } else {
        propfind_step(propfind_run(ts.drop_last(), property), ts.last(), property)
    }
}

/// The href (or other text) inside `property` in a PROPFIND reply.
pub open spec fn propfind_value(xml: Seq<char>, property: Seq<char>) -> Option<Seq<char>> {
    propfind_run(xml_tokens(xml), property).found
}

proof fn lemma_propfind_found_stays(ts: Seq<XmlToken>, k: int, property: Seq<char>)
    requires
        0 <= k <= ts.len(),
        propfind_run(ts.take(k), property).found is Some,
    ensures
        propfind_run(ts, property).found == propfind_run(ts.take(k), property).found,
    decreases ts.len() - k,
{
    if k < ts.len() {
        assert(ts.take(k + 1).drop_last() =~= ts.take(k));
        lemma_propfind_found_stays(ts, k + 1, property);
    } else {
        assert(ts.take(k) =~= ts);
    }
}

/// Finds the text of `property` (normally an href) in a PROPFIND reply.
pub fn parse_propfind_property(xml: &str, property: &str) -> (r: Option<String>)
    ensures
        opt_view(r) == propfind_value(xml@, property@),
{
    let tokens = read_xml_tokens(xml);
    let ghost tv = tokens_view(tokens@);
    let mut capture = false;
    let mut i: usize = 0;
    while i < tokens.len()
        invariant
            i <= tokens@.len(),
            tv == tokens_view(tokens@),
            tv == xml_tokens(xml@),
            propfind_run(tv.take(i as int), property@) == (PropfindState {
                capture,
                found: None,
            }),
        decreases tokens.len() - i,
    {
        proof {
            assert(tv.take(i + 1).drop_last() =~= tv.take(i as int));
            assert(tv.take(i + 1).last() == tokens@[i as int]@);
            reveal_strlit("href");
        }
        match &tokens[i] {
            XmlEvent::Start(n) => {
                let local = local_name(n.as_slice());
                if str_eq(local.as_str(), property) {
                    capture = true;
                } else if capture && str_eq(local.as_str(), "href") {
                } else {
                    capture = false;
                }
            },
            XmlEvent::Text(t) => {
                if capture {
                    let text = text_of(t);
                    if !text.as_str().is_empty() {
                        proof {
                            assert(text@.len() > 0);
                            assert(tv[i as int] == XmlToken::Text(opt_view(*t)));
                            assert(propfind_run(tv.take(i + 1), property@).found == Some(text@));
                            lemma_propfind_found_stays(tv, i + 1, property@);
                        }
                        return Some(text);
                    }
                }
            },
            XmlEvent::End(n) => {
                let local = local_name(n.as_slice());
                if str_eq(local.as_str(), property) {
                    capture = false;
                }
            },
            XmlEvent::Other => {},
        }
        i = i + 1;
    }
    assert(tv.take(tv.len() as int) =~= tv);
    None
}

/// A reference from a CalDAV reply made absolute: kept when it starts with
/// "http", appended to `origin` otherwise.
pub open spec fn resolved_url(origin: Seq<char>, href: Seq<char>) -> Seq<char> {
    if has_prefix(href, "http"@) {
        href
    } else {
        origin + href
    }
}

/// Makes a reference from a CalDAV reply (or a stored event id) absolute.
pub fn resolve_href(origin: &str, href: &str) -> (r: String)
    ensures
        r@ == resolved_url(origin@, href@),
{
    let h = chars_of(href);
    let p = chars_of("http");
    if starts_with(h.as_slice(), p.as_slice()) {
        href.to_owned()
    } else {
        let mut out = chars_of(origin);
        push_str(&mut out, href);
        string_of(out.as_slice())
    }
}

/// Where CalDAV discovery starts for a host: its well-known CalDAV URL.
pub fn well_known_url(host: &str) -> (r: String)
    ensures
        r@ == "https://"@ + host@ + "/.well-known/caldav"@,
{
    let mut out = chars_of("https://");
    push_str(&mut out, host);
    push_str(&mut out, "/.well-known/caldav");
    string_of(out.as_slice())
}

/// The scheme and host of a URL as `url::Url::parse` reads them (the host
/// absent for URLs without one); none when the text does not parse.
pub uninterp spec fn scheme_host_of(url: Seq<char>) -> Option<(Seq<char>, Option<Seq<char>>)>;

pub open spec fn scheme_host_view(r: Option<(String, Option<String>)>) -> Option<
    (Seq<char>, Option<Seq<char>>),
> {
    match r {
        Some(p) => Some((p.0@, opt_view(p.1))),
        None => None,
    }
}

/// Parses a URL with `reqwest::Url::parse` (the `url` crate) and takes its
/// `scheme()` and `host_str()`. The URL grammar it applies is not restated.
#[verifier::external_body]
fn url_scheme_host(url: &str) -> (r: Option<(String, Option<String>)>)
    ensures
        scheme_host_view(r) == scheme_host_of(url@),
{
    reqwest::Url::parse(url).ok().map(|u| (u.scheme().to_string(), u.host_str().map(String::from)))
}

/// The origin that relative references of a CalDAV server are resolved
/// against: the scheme and host of the URL the discovery request ended at
/// (`host` when that URL has none), or `https://host` when it does not
/// parse.
pub open spec fn base_origin(base_url: Seq<char>, host: Seq<char>) -> Seq<char> {
    match scheme_host_of(base_url) {
        Some((sc, h)) => sc + "://"@ + match h {
            Some(x) => x,
            None => host,
        },
        None => "https://"@ + host,
    }
}

/// The origin that relative references of a CalDAV server are resolved
/// against, from the URL the discovery request ended at and the host asked.
pub fn caldav_base_origin(base_url: &str, host: &str) -> (r: String)
    ensures
        r@ == base_origin(base_url@, host@),
{
    match url_scheme_host(base_url) {
        Some((sc, h)) => {
            let mut out = chars_of(sc.as_str());
            push_str(&mut out, "://");
            match h {
                Some(x) => push_str(&mut out, x.as_str()),
                None => push_str(&mut out, host),
            }
            string_of(out.as_slice())
        },
        None => {
            let mut out = chars_of("https://");
            push_str(&mut out, host);
            string_of(out.as_slice())
        },
    }
}

/// The principal URL named in a PROPFIND reply, made absolute.
pub open spec fn principal_result(origin: Seq<char>, xml: Seq<char>) -> Result<Seq<char>, Seq<char>> {
    match propfind_value(xml, "current-user-principal"@) {
        Some(h) => Ok(resolved_url(origin, h)),
        None => Err("Could not find current-user-principal"@),
    }
}

/// The calendar home URL named in a PROPFIND reply, made absolute.
pub open spec fn calendar_home_result(origin: Seq<char>, xml: Seq<char>) -> Result<Seq<char>, Seq<char>> {
    match propfind_value(xml, "calendar-home-set"@) {
        Some(h) => Ok(resolved_url(origin, h)),
        None => Err("Could not find calendar-home-set"@),
    }
}

pub open spec fn result_view(r: Result<String, String>) -> Result<Seq<char>, Seq<char>> {
    match r {
        Ok(s) => Ok(s@),
        Err(e) => Err(e@),
    }
}

/// Reads the current-user-principal of a PROPFIND reply (discovery step
/// one).
pub fn principal_url(origin: &str, xml: &str) -> (r: Result<String, String>)
    ensures
        result_view(r) == principal_result(origin@, xml@),
{
    match parse_propfind_property(xml, "current-user-principal") {
        Some(h) => Ok(resolve_href(origin, h.as_str())),
        None => Err("Could not find current-user-principal".to_owned()),
    }
}

/// Reads the calendar-home-set of a PROPFIND reply (discovery step two).
pub fn calendar_home_url(origin: &str, xml: &str) -> (r: Result<String, String>)
    ensures
        result_view(r) == calendar_home_result(origin@, xml@),
{
    match parse_propfind_property(xml, "calendar-home-set") {
        Some(h) => Ok(resolve_href(origin, h.as_str())),
        None => Err("Could not find calendar-home-set".to_owned()),
    }
}

/// The body of the calendar-query REPORT for events between two ISO times.
pub open spec fn calendar_query(time_min: Seq<char>, time_max: Seq<char>) -> Seq<char> {
    "<?xml version=\"1.0\"?>\n<c:calendar-query xmlns:d=\"DAV:\" xmlns:c=\"urn:ietf:params:xml:ns:caldav\">\n  <d:prop><d:getetag/><c:calendar-data/></d:prop>\n  <c:filter>\n    <c:comp-filter name=\"VCALENDAR\">\n      <c:comp-filter name=\"VEVENT\">\n        <c:time-range start=\""@
        + compact_datetime(time_min) + "\" end=\""@ + compact_datetime(time_max)
        + "\"/>\n      </c:comp-filter>\n    </c:comp-filter>\n  </c:filter>\n</c:calendar-query>"@
}

/// Builds the calendar-query REPORT body for a time range.
pub fn calendar_query_body(time_min: &str, time_max: &str) -> (r: String)
    ensures
        r@ == calendar_query(time_min@, time_max@),
{
    let mut out: Vec<char> = Vec::new();
    push_str(&mut out, "<?xml version=\"1.0\"?>\n<c:calendar-query xmlns:d=\"DAV:\" xmlns:c=\"urn:ietf:params:xml:ns:caldav\">\n  <d:prop><d:getetag/><c:calendar-data/></d:prop>\n  <c:filter>\n    <c:comp-filter name=\"VCALENDAR\">\n      <c:comp-filter name=\"VEVENT\">\n        <c:time-range start=\"");
    push_str(&mut out, format_caldav_datetime(time_min).as_str());
    push_str(&mut out, "\" end=\"");
    push_str(&mut out, format_caldav_datetime(time_max).as_str());
    push_str(&mut out, "\"/>\n      </c:comp-filter>\n    </c:comp-filter>\n  </c:filter>\n</c:calendar-query>");
    string_of(out.as_slice())
}

/// Whether a REPORT status code is accepted: any 2xx, or 207.
pub fn report_status_ok(status: u16) -> (r: bool)
    ensures
        r == ((200 <= status && status < 300) || status == 207),
{
    (200 <= status && status < 300) || status == 207
}

/// The events of (href, calendar data) pairs, in order; pairs whose data
/// holds no readable event are skipped.
pub open spec fn events_of(pairs: Seq<(Seq<char>, Seq<char>)>) -> Seq<EventView>
    decreases pairs.len(),
{
    if pairs.len() == 0 {
        Seq::empty()
    } else {
        let rest = events_of(pairs.drop_last());
        match ical_event(pairs.last().1, pairs.last().0) {
            Some(e) => rest.push(e),
            None => rest,
        }
    }
}

pub open spec fn event_views(v: Seq<CalendarEvent>) -> Seq<EventView> {
    v.map_values(|e: CalendarEvent| e@)
}

/// The events of a CalDAV REPORT reply.
pub fn events_from_report(xml: &str) -> (r: Vec<CalendarEvent>)
    ensures
        event_views(r@) == events_of(multistatus_pairs(xml@)),
{
    let pairs = parse_multistatus_events(xml);
    let ghost pv = pair_views(pairs@);
    let mut events: Vec<CalendarEvent> = Vec::new();
    let mut i: usize = 0;
    while i < pairs.len()
        invariant
            i <= pairs@.len(),
            pv == pair_views(pairs@),
            event_views(events@) == events_of(pv.take(i as int)),
        decreases pairs.len() - i,
    {
        assert(pv.take(i + 1).drop_last() =~= pv.take(i as int));
        assert(pv.take(i + 1).last() == (pairs@[i as int].0@, pairs@[i as int].1@));
        let (href, data) = &pairs[i];
        match parse_ical_event(data.as_str(), href.as_str()) {
            Some(e) => {
                let ghost before = event_views(events@);
                events.push(e);
                assert(event_views(events@) =~= before.push(e@));
            },
            None => {},
        }
        i = i + 1;
    }
    assert(pv.take(pv.len() as int) =~= pv);
    events
}

/// The last path segment of an event id with any ".ics" endings removed:
/// the UID the event's iCalendar object carries.
pub open spec fn uid_of_id(event_id: Seq<char>) -> Seq<char> {
    strip_ics(
        match rfind_char(event_id, '/') {
            Some(p) => event_id.skip(p + 1),
            None => event_id,
        },
    )
}

/// `s` with its ".ics" endings removed, as `trim_end_matches(".ics")`.
pub open spec fn strip_ics(s: Seq<char>) -> Seq<char>
    decreases s.len(),
{
    if s.len() >= 4 && has_suffix(s, ".ics"@) {
        strip_ics(s.take(s.len() - 4))
    } else {
        s
    }
}

/// The UID of a stored event id (a resource path or URL).
pub fn event_uid(event_id: &str) -> (r: String)
    ensures
        r@ == uid_of_id(event_id@),
{
    let cs = chars_of(event_id);
    let n = cs.len();
    let seg = match rfind(cs.as_slice(), '/') {
        Some(p) => {
            let t = slice_chars(cs.as_slice(), p + 1, n);
            assert(t@ =~= cs@.skip(p + 1));
            t
        },
        None => cs,
    };
    let ghost first = seg@;
    let suffix = chars_of(".ics");
    proof {
        reveal_strlit(".ics");
    }
    let mut end = seg.len();
    assert(seg@.take(seg@.len() as int) =~= seg@);
    while end >= 4 && matches_at(seg.as_slice(), suffix.as_slice(), end - 4)
        invariant
            end <= seg@.len(),
            suffix@ == ".ics"@,
            strip_ics(first) == strip_ics(seg@.take(end as int)),
            first == seg@,
        decreases end,
    {
        proof {
            reveal_strlit(".ics");
        }
        assert(seg@.take(end as int).subrange(end - 4, end as int) =~= seg@.subrange(end - 4, end as int));
        assert(seg@.take(end as int).skip(end - 4) =~= seg@.subrange(end - 4, end as int));
        assert(seg@.take(end as int).take(end - 4) =~= seg@.take(end - 4));
        end = end - 4;
    }
    proof {
        if end >= 4 {
            assert(seg@.take(end as int).skip(end - 4) =~= seg@.subrange(end - 4, end as int));
        }
    }
    let out = slice_chars(seg.as_slice(), 0, end);
    assert(first.take(first.len() as int) =~= first);
    string_of(out.as_slice())
}

/// The URL of a new event: the collection URL, a slash, the UID, ".ics".
pub open spec fn new_event_url(caldav_url: Seq<char>, uid: Seq<char>) -> Seq<char> {
    caldav_url + "/"@ + uid + ".ics"@
}

/// Whether `c` is a lowercase hexadecimal digit.
pub open spec fn lower_hex(c: char) -> bool {
    ('0' <= c <= '9') || ('a' <= c <= 'f')
}

/// Whether `s` has the hyphenated form of a random (version 4) UUID:
/// 8-4-4-4-12 lowercase hexadecimal digits, the version digit `4` and the
/// variant digit one of `8`, `9`, `a`, `b`.
pub open spec fn uuid_v4_text(s: Seq<char>) -> bool {
    &&& s.len() == 36
    &&& forall|i: int|
        0 <= i < 36 ==> if i == 8 || i == 13 || i == 18 || i == 23 {
            s[i] == '-'
        } else {
            lower_hex(#[trigger] s[i])
        }
    &&& s[14] == '4'
    &&& (s[19] == '8' || s[19] == '9' || s[19] == 'a' || s[19] == 'b')
}

/// A fresh random UID: `uuid::Uuid::new_v4` written by its `Display`
/// impl, the hyphenated lowercase form, with the version and variant
/// digits that `new_v4` sets. Which random value it is is not stated.
#[verifier::external_body]
fn fresh_uid() -> (r: String)
    ensures
        uuid_v4_text(r@),
{
    uuid::Uuid::new_v4().to_string()
}

/// What creating an event sends: its UID, the URL to PUT and the body.
#[derive(Debug)]
pub struct NewEventRequest {
    pub uid: String,
    pub url: String,
    pub body: String,
}

/// Prepares the creation of an event under a fresh random UID.
pub fn plan_new_event(caldav_url: &str, event: &NewCalendarEvent) -> (r: NewEventRequest)
    ensures
        uuid_v4_text(r.uid@),
        r.url@ == new_event_url(caldav_url@, r.uid@),
        r.body@ == ical_text(r.uid@, *event),
{
    let uid = fresh_uid();
    let body = build_ical_event(uid.as_str(), event);
    let mut url = chars_of(caldav_url);
    push_str(&mut url, "/");
    push_str(&mut url, uid.as_str());
    push_str(&mut url, ".ics");
    NewEventRequest { uid, url: string_of(url.as_slice()), body }
}

/// What updating an event sends: the URL to PUT and the body.
#[derive(Debug)]
pub struct EventUpdateRequest {
    pub url: String,
    pub body: String,
}

/// Prepares the update of a stored event: its UID comes from the id, its
/// URL is the id made absolute against the collection URL.
pub fn plan_event_update(caldav_url: &str, event_id: &str, event: &NewCalendarEvent) -> (r:
    EventUpdateRequest)
    ensures
        r.url@ == resolved_url(caldav_url@, event_id@),
        r.body@ == ical_text(uid_of_id(event_id@), *event),
{
    let uid = event_uid(event_id);
    let body = build_ical_event(uid.as_str(), event);
    EventUpdateRequest { url: resolve_href(caldav_url, event_id), body }
}

fn copy_text(o: &Option<String>) -> (r: Option<String>)
    ensures
        opt_view(r) == opt_view(*o),
{
    match o {
        Some(s) => Some(s.clone()),
        None => None,
    }
}

fn copy_time(o: &Option<CalendarDateTime>) -> (r: Option<CalendarDateTime>)
    ensures
        opt_dt_view(r) == opt_dt_view(*o),
{
    match o {
        Some(d) => Some(
            CalendarDateTime {
                date: copy_text(&d.date),
                date_time: copy_text(&d.date_time),
                time_zone: copy_text(&d.time_zone),
            },
        ),
        None => None,
    }
}

/// The event a successful create or update reports: the given id with the
/// submitted fields, no links.
pub open spec fn stored_event(id: Seq<char>, event: NewCalendarEvent) -> EventView {
    EventView {
        id,
        summary: opt_view(event.summary),
        description: opt_view(event.description),
        location: opt_view(event.location),
        start: opt_dt_view(event.start),
        end: opt_dt_view(event.end),
        html_link: None,
        hangout_link: None,
    }
}

/// The event reported after a successful PUT.
pub fn event_with_id(id: &str, event: &NewCalendarEvent) -> (r: CalendarEvent)
    ensures
        r@ == stored_event(id@, *event),
{
    CalendarEvent {
        id: id.to_owned(),
        summary: copy_text(&event.summary),
        description: copy_text(&event.description),
        location: copy_text(&event.location),
        start: copy_time(&event.start),
        end: copy_time(&event.end),
        html_link: None,
        hangout_link: None,
    }
}

/// The CalDAV collection URL stored for an account, or the error shown when
/// there is none (no row, or no URL in it).
pub fn caldav_url_or_error(stored: Option<Option<String>>) -> (r: Result<String, String>)
    ensures
        match stored {
            Some(Some(u)) => r matches Ok(v) && v@ == u@,
            _ => r matches Err(e)
                && e@ == "CalDAV not configured. Calendar requires CalDAV support from your provider."@,
        },
{
    match stored {
        Some(Some(u)) => Ok(u),
        _ => Err("CalDAV not configured. Calendar requires CalDAV support from your provider.".to_owned()),
    }
}

} // verus!
