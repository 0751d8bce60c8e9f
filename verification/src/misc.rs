//! Small command-layer rules: which URLs may be opened, the tail of the
//! log, names for downloaded files, templates, the privacy report, and the
//! records the lists show.

use crate::query::opt_view;
use crate::text::{
    chars_of, has_prefix, join, join_parts, lines_of, lines_spec, push_str, starts_with, string_of,
};
use vstd::prelude::*;

verus! {

/// Whether a URL may be opened: only `http://` and `https://` links.
pub open spec fn openable_url(url: Seq<char>) -> bool {
    has_prefix(url, "http://"@) || has_prefix(url, "https://"@)
}

/// Refuses URLs that are not http or https before opening them.
pub fn validate_external_url(url: &str) -> (r: Result<(), String>)
    ensures
        r is Ok <==> openable_url(url@),
        r matches Err(e) ==> e@ == "Only http and https URLs are allowed"@,
{
    let u = chars_of(url);
    if !starts_with(u.as_slice(), chars_of("http://").as_slice()) && !starts_with(
        u.as_slice(),
        chars_of("https://").as_slice(),
    ) {
        return Err("Only http and https URLs are allowed".to_owned());
    }
    Ok(())
}

/// Whether a file in the log directory is one of the app's logs.
pub fn is_log_file(name: &str) -> (r: bool)
    ensures
        r == has_prefix(name@, "rustymail.log"@),
{
    starts_with(chars_of(name).as_slice(), chars_of("rustymail.log").as_slice())
}

/// The lines shown from a log: the last `n` (all when there are fewer),
/// joined by newlines.
pub open spec fn log_tail(content: Seq<char>, n: nat) -> Seq<char> {
    let ls = lines_spec(content);
    join(
        ls.skip(
            if ls.len() > n {
                ls.len() - n
            } else {
                0
            },
        ),
        "\n"@,
    )
}

/// The last lines of a log; 200 when no count is asked.
pub fn recent_log_lines(content: &str, lines: Option<usize>) -> (r: String)
    ensures
        r@ == log_tail(
            content@,
            match lines {
                Some(n) => n as nat,
                None => 200,
            },
        ),
{
    let n: usize = match lines {
        Some(n) => n,
        None => 200,
    };
    let all = lines_of(chars_of(content).as_slice());
    let ghost lv = all@.map_values(|l: Vec<char>| l@);
    assert(lv == lines_spec(content@));
    let start: usize = if all.len() > n {
        all.len() - n
    } else {
        0
    };
    let mut tail: Vec<Vec<char>> = Vec::new();
    let mut i: usize = start;
    while i < all.len()
        invariant
            start <= i <= all@.len(),
            lv == all@.map_values(|l: Vec<char>| l@),
            tail@.map_values(|l: Vec<char>| l@) == lv.subrange(start as int, i as int),
        decreases all.len() - i,
    {
        let ghost prev = tail@.map_values(|l: Vec<char>| l@);
        tail.push(all[i].clone());
        assert(tail@.map_values(|l: Vec<char>| l@) =~= prev.push(lv[i as int]));
        assert(lv.subrange(start as int, i + 1) =~= lv.subrange(start as int, i as int).push(lv[i as int]));
        i = i + 1;
    }
    assert(lv.subrange(start as int, lv.len() as int) =~= lv.skip(start as int));
    let out = join_parts(&tail, chars_of("\n").as_slice());
    string_of(out.as_slice())
}

/// The stem of a file name, as `Path::file_stem` reads it.
pub uninterp spec fn file_stem_of(name: Seq<char>) -> Option<Seq<char>>;

/// The extension of a file name, as `Path::extension` reads it.
pub uninterp spec fn extension_of(name: Seq<char>) -> Option<Seq<char>>;

/// Calls `Path::file_stem` on a file name and keeps it when it is UTF-8.
#[verifier::external_body]
fn path_stem(name: &str) -> (r: Option<String>)
    ensures
        opt_view(r) == file_stem_of(name@),
{
    std::path::Path::new(name).file_stem().and_then(|s| s.to_str()).map(String::from)
}

/// Calls `Path::extension` on a file name and keeps it when it is UTF-8.
#[verifier::external_body]
fn path_extension(name: &str) -> (r: Option<String>)
    ensures
        opt_view(r) == extension_of(name@),
{
    std::path::Path::new(name).extension().and_then(|s| s.to_str()).map(String::from)
}

/// The character of a decimal digit.
pub open spec fn digit_char(d: nat) -> char {
    if d == 0 {
        '0'
    } else if d == 1 {
        '1'
    } else if d == 2 {
        '2'
    } else if d == 3 {
        '3'
    } else if d == 4 {
        '4'
    } else if d == 5 {
        '5'
    } else if d == 6 {
        '6'
    } else if d == 7 {
        '7'
    } else if d == 8 {
        '8'
    } else {
        '9'
    }
}

/// The decimal digits of a number.
pub open spec fn decimal_text(n: nat) -> Seq<char>
    decreases n,
{
    if n < 10 {
        seq![digit_char(n)]
    } else {
        decimal_text(n / 10) + seq![digit_char(n % 10)]
    }
}

fn digit(d: u64) -> (c: char)
    requires
        d < 10,
    ensures
        c == digit_char(d as nat),
{
    if d == 0 {
        '0'
    } else if d == 1 {
        '1'
    } else if d == 2 {
        '2'
    } else if d == 3 {
        '3'
    } else if d == 4 {
        '4'
    } else if d == 5 {
        '5'
    } else if d == 6 {
        '6'
    } else if d == 7 {
        '7'
    } else if d == 8 {
        '8'
    } else {
        '9'
    }
}

/// The decimal digits of a number.
pub fn decimal_string(n: u64) -> (r: String)
    ensures
        r@ == decimal_text(n as nat),
{
    let mut digits: Vec<char> = Vec::new();
    let mut m = n;
    while m >= 10
        invariant
            decimal_text(n as nat) == decimal_text(m as nat) + digits@,
        decreases m,
    {
        let c = digit(m % 10);
        let mut next: Vec<char> = Vec::new();
        next.push(c);
        crate::text::push_all(&mut next, digits.as_slice());
        assert(decimal_text(m as nat) == decimal_text((m / 10) as nat) + seq![c]);
        assert(next@ =~= seq![c] + digits@);
        digits = next;
        m = m / 10;
    }
    let mut out: Vec<char> = Vec::new();
    out.push(digit(m));
    crate::text::push_all(&mut out, digits.as_slice());
    string_of(out.as_slice())
}

/// The name of the `counter`-th alternative for a downloaded file whose
/// name is taken: "stem (n).ext", or "stem (n)" without an extension; the
/// stem is the whole name when it has none.
pub open spec fn numbered_name(filename: Seq<char>, counter: nat) -> Seq<char> {
    let stem = match file_stem_of(filename) {
        Some(s) => s,
        None => filename,
    };
    match extension_of(filename) {
        Some(e) => stem + " ("@ + decimal_text(counter) + ")."@ + e,
        None => stem + " ("@ + decimal_text(counter) + ")"@,
    }
}

/// Names the `counter`-th alternative for a file name already taken.
pub fn numbered_file_name(filename: &str, counter: u32) -> (r: String)
    ensures
        r@ == numbered_name(filename@, counter as nat),
{
    let stem = match path_stem(filename) {
        Some(s) => s,
        None => filename.to_owned(),
    };
    let mut out = chars_of(stem.as_str());
    push_str(&mut out, " (");
    push_str(&mut out, decimal_string(counter as u64).as_str());
    match path_extension(filename) {
        Some(e) => {
            push_str(&mut out, ").");
            push_str(&mut out, e.as_str());
        },
        None => {
            push_str(&mut out, ")");
        },
    }
    string_of(out.as_slice())
}

/// A message template.
#[derive(Debug)]
pub struct Template {
    pub id: String,
    pub name: String,
    pub subject: String,
    pub body_html: String,
    pub created_at: i64,
    pub updated_at: i64,
}

/// The id of a template created at `now` by process `pid`:
/// "tmpl_{now}_{pid}".
pub fn template_id(now: u64, pid: u32) -> (r: String)
    ensures
        r@ == "tmpl_"@ + decimal_text(now as nat) + "_"@ + decimal_text(pid as nat),
{
    let mut out = chars_of("tmpl_");
    push_str(&mut out, decimal_string(now).as_str());
    push_str(&mut out, "_");
    push_str(&mut out, decimal_string(pid as u64).as_str());
    string_of(out.as_slice())
}

/// A new template, created and updated at `now`.
pub fn new_template(id: String, name: String, subject: String, body_html: String, now: i64) -> (r:
    Template)
    ensures
        r.id@ == id@ && r.name@ == name@ && r.subject@ == subject@ && r.body_html@ == body_html@,
        r.created_at == now && r.updated_at == now,
{
    Template { id, name, subject, body_html, created_at: now, updated_at: now }
}

/// The outcome of a template update that changed `rows_affected` rows.
pub fn template_update_result(rows_affected: u64) -> (r: Result<(), String>)
    ensures
        r is Ok <==> rows_affected > 0,
        r matches Err(e) ==> e@ == "Template not found"@,
{
    if rows_affected == 0 {
        Err("Template not found".to_owned())
    } else {
        Ok(())
    }
}

/// A sender whose messages carried blocked trackers.
#[derive(Debug)]
pub struct TrackerSender {
    pub sender_email: String,
    pub tracker_count: i64,
    pub tracker_types: String,
}

/// Blocked trackers on one day.
#[derive(Debug)]
pub struct TrendPoint {
    pub day: String,
    pub count: i64,
}

/// The privacy report: blocked trackers in all, per sender and per day.
#[derive(Debug)]
pub struct PrivacyReport {
    pub total_blocked: i64,
    pub unique_senders_tracked: i64,
    pub blocked_this_week: i64,
    pub top_trackers: Vec<TrackerSender>,
    pub trend: Vec<TrendPoint>,
}

/// The start of the report's week and of its month (the trend) before
/// `now`.
pub fn report_windows(now: i64) -> (r: (i64, i64))
    requires
        now >= i64::MIN + 30 * 86400,
    ensures
        r.0 == now - 7 * 86400,
        r.1 == now - 30 * 86400,
{
    (now - 7 * 86400, now - 30 * 86400)
}

/// A top tracker row: its tracker types, empty when none were grouped.
pub fn tracker_sender(sender_email: String, tracker_count: i64, tracker_types: Option<String>) -> (r:
    TrackerSender)
    ensures
        r.sender_email@ == sender_email@,
        r.tracker_count == tracker_count,
        r.tracker_types@ == match opt_view(tracker_types) {
            Some(t) => t,
            None => Seq::empty(),
        },
{
    TrackerSender {
        sender_email,
        tracker_count,
        tracker_types: match tracker_types {
            Some(t) => t,
            None => string_of(Vec::<char>::new().as_slice()),
        },
    }
}

/// Whether tracker events are recorded for a message: only when some
/// trackers were found and the message was not recorded before.
pub fn should_record_trackers(tracker_count: usize, already_recorded: bool) -> (r: bool)
    ensures
        r == (tracker_count > 0 && !already_recorded),
{
    tracker_count > 0 && !already_recorded
}

} // verus!
