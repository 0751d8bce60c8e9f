//! Newsletter (subscription) detection scans and unsubscribing.
//!
//! A scan walks messages from the mail server and from the local store,
//! hands each to the detector and records each subscribed sender once. The
//! bookkeeping of a scan, the paging decisions and the unsubscribe decision
//! live here; the detector, the database and the network are driven by the
//! caller.

use crate::numbers::{decimal_value, parse_i32};
use crate::query::opt_view;
use crate::text::{
    chars_of, count_char, join, lemma_count_absent, lemma_count_concat, lemma_count_single,
    push_str, str_eq, string_of,
};
use vstd::prelude::*;

verus! {

/// What the subscription detector reports for one message.
#[derive(Debug)]
pub struct Detection {
    pub is_subscription: bool,
    pub sender_email: String,
    pub sender_name: Option<String>,
    pub methods: Vec<String>,
    pub details: Option<String>,
    pub unsubscribe_url: Option<String>,
    pub unsubscribe_mailto: Option<String>,
    pub supports_one_click: bool,
}

/// The totals a scan reports.
#[derive(Debug)]
pub struct ScanResult {
    pub messages_scanned: i64,
    pub subscriptions_found: i64,
    pub subscriptions_updated: i64,
    pub enriched: i64,
}

/// The values stored for a detected subscription.
#[derive(Debug)]
pub struct SubscriptionRecord {
    pub account_id: String,
    pub sender_email: String,
    pub sender_name: Option<String>,
    pub detection_method: String,
    pub detection_details: Option<String>,
    pub unsubscribe_url: Option<String>,
    pub unsubscribe_mailto: Option<String>,
    pub supports_one_click: i32,
    pub first_seen: i64,
    pub last_seen: i64,
}

/// The messages scanned when the depth setting is missing or unreadable.
pub const DEFAULT_SCAN_DEPTH: i32 = 500;

/// The number of messages a scan reads from the server: the setting read
/// as an `i32`, 500 when that fails.
pub open spec fn scan_depth_of(setting: Seq<char>) -> i32 {
    match decimal_value(setting, true) {
        Some(v) => if i32::MIN <= v <= i32::MAX {
            v as i32
        } else {
            500
        },
        None => 500,
    }
}

/// Reads the scan depth setting.
pub fn scan_depth(setting: &str) -> (r: i32)
    ensures
        r == scan_depth_of(setting@),
{
    match parse_i32(setting) {
        Some(v) => v,
        None => DEFAULT_SCAN_DEPTH,
    }
}

/// The page size asked of the server: the depth, at most 500.
pub fn page_size(depth: i32) -> (r: i32)
    ensures
        r == if depth < 500 {
            depth
        } else {
            500
        },
{
    if depth < 500 {
        depth
    } else {
        500
    }
}

/// Adds one page of Gmail message ids to those collected. Returns the
/// token of the next page when more are wanted: while fewer than `depth`
/// ids are collected and the server offers another page. When the paging
/// ends, the ids beyond `depth` are dropped.
pub fn collect_message_ids(
    collected: &mut Vec<String>,
    page: Vec<String>,
    next_page: Option<String>,
    depth: i32,
) -> (r: Option<String>)
    requires
        depth > 0,
    ensures
        ({
            let all = old(collected)@ + page@;
            let done = all.len() >= depth || next_page is None;
            &&& done ==> r is None && final(collected)@ == all.take(
                if all.len() < depth {
                    all.len() as int
                } else {
                    depth as int
                },
            )
            &&& !done ==> r == next_page && final(collected)@ == all
        }),
{
    let ghost all = collected@ + page@;
    let mut page = page;
    collected.append(&mut page);
    let d = depth as usize;
    if collected.len() >= d || next_page.is_none() {
        if collected.len() > d {
            collected.truncate(d);
        }
        None
    } else {
        next_page
    }
}

/// Whether an Outlook scan goes on, and from which offset: while the
/// server offers more and fewer than `depth` messages were scanned.
pub fn outlook_next_skip(next_skip: Option<i32>, scanned: i64, depth: i32) -> (r: Option<i32>)
    ensures
        r == if next_skip is None || scanned >= depth {
            None
        } else {
            next_skip
        },
{
    match next_skip {
        None => None,
        Some(s) => if scanned >= depth as i64 {
            None
        } else {
            Some(s)
        },
    }
}

/// Whether a server-side progress message is due after `n` messages.
pub fn remote_progress_due(n: i64) -> (r: bool)
    ensures
        r == (n % 100 == 0),
{
    n % 100 == 0
}

/// Whether a local progress message is due after `n` of `total` messages.
pub fn local_progress_due(n: i64, total: i64) -> (r: bool)
    ensures
        r == (n % 50 == 0 || n == total),
{
    n % 50 == 0 || n == total
}

/// The code of a character with ASCII capitals lowered.
pub open spec fn ascii_lower(c: char) -> int {
    if 'A' <= c && c <= 'Z' {
        (c as int) + 32
    } else {
        c as int
    }
}

/// Equality ignoring ASCII case, as `str::eq_ignore_ascii_case`.
pub open spec fn eq_ignore_ascii_case(a: Seq<char>, b: Seq<char>) -> bool {
    a.len() == b.len() && forall|i: int| 0 <= i < a.len() ==> ascii_lower(#[trigger] a[i]) == ascii_lower(b[i])
}

fn lower_ascii(c: char) -> (r: u32)
    ensures
        r == ascii_lower(c),
{
    if 'A' <= c && c <= 'Z' {
        c as u32 + 32
    } else {
        c as u32
    }
}

fn same_ignoring_case(a: &str, b: &str) -> (r: bool)
    ensures
        r == eq_ignore_ascii_case(a@, b@),
{
    let x = chars_of(a);
    let y = chars_of(b);
    if x.len() != y.len() {
        return false;
    }
    let mut i: usize = 0;
    while i < x.len()
        invariant
            x@.len() == y@.len(),
            i <= x@.len(),
            x@ == a@,
            y@ == b@,
            forall|k: int| 0 <= k < i ==> ascii_lower(#[trigger] x@[k]) == ascii_lower(y@[k]),
        decreases x.len() - i,
    {
        if lower_ascii(x[i]) != lower_ascii(y[i]) {
            return false;
        }
        i = i + 1;
    }
    true
}

/// The value of the first header named "From" in any ASCII case, empty when
/// there is none.
pub open spec fn from_header_value(headers: Seq<(Seq<char>, Seq<char>)>) -> Seq<char>
    decreases headers.len(),
{
    if headers.len() == 0 {
        Seq::empty()
    } else if eq_ignore_ascii_case(headers[0].0, "From"@) {
        headers[0].1
    } else {
        from_header_value(headers.drop_first())
    }
}

pub open spec fn header_views(h: Seq<(String, String)>) -> Seq<(Seq<char>, Seq<char>)> {
    h.map_values(|p: (String, String)| (p.0@, p.1@))
}

/// The sender of a message from its headers.
pub fn from_header(headers: &Vec<(String, String)>) -> (r: String)
    ensures
        r@ == from_header_value(header_views(headers@)),
{
    let ghost hv = header_views(headers@);
    assert(hv.skip(0) =~= hv);
    let mut i: usize = 0;
    while i < headers.len()
        invariant
            i <= headers@.len(),
            hv == header_views(headers@),
            from_header_value(hv) == from_header_value(hv.skip(i as int)),
        decreases headers.len() - i,
    {
        assert(hv.skip(i as int).drop_first() =~= hv.skip(i + 1));
        assert(hv.skip(i as int)[0] == hv[i as int]);
        if same_ignoring_case(headers[i].0.as_str(), "From") {
            return headers[i].1.clone();
        }
        i = i + 1;
    }
    string_of(Vec::<char>::new().as_slice())
}

/// The sender line built for an Outlook message: "name <address>", either
/// part empty when missing.
pub fn outlook_sender(name: &Option<String>, address: &Option<String>) -> (r: String)
    ensures
        r@ == match opt_view(*name) {
            Some(n) => n,
            None => Seq::empty(),
        } + " <"@ + match opt_view(*address) {
            Some(a) => a,
            None => Seq::empty(),
        } + ">"@,
{
    let mut out: Vec<char> = Vec::new();
    match name {
        Some(n) => push_str(&mut out, n.as_str()),
        None => {},
    }
    push_str(&mut out, " <");
    match address {
        Some(a) => push_str(&mut out, a.as_str()),
        None => {},
    }
    push_str(&mut out, ">");
    string_of(out.as_slice())
}

/// Whether the stored subscriptions of an account get their missing
/// unsubscribe data from the server: only for Gmail accounts (an account
/// without a provider counts as Gmail).
pub fn enrichment_supported(provider_type: &Option<String>) -> (r: bool)
    ensures
        r == match opt_view(*provider_type) {
            Some(p) => p == "gmail"@,
            None => true,
        },
{
    match provider_type {
        Some(p) => str_eq(p.as_str(), "gmail"),
        None => true,
    }
}

pub open spec fn string_views(v: Seq<String>) -> Seq<Seq<char>> {
    v.map_values(|s: String| s@)
}

/// The row stored for a detected subscription, first and last seen at
/// `date`: the detection methods joined by ", ", one-click support as 1/0.
pub fn subscription_record(account_id: &str, d: &Detection, date: i64) -> (r: SubscriptionRecord)
    ensures
        r.account_id@ == account_id@,
        r.sender_email@ == d.sender_email@,
        opt_view(r.sender_name) == opt_view(d.sender_name),
        r.detection_method@ == join(string_views(d.methods@), ", "@),
        opt_view(r.detection_details) == opt_view(d.details),
        opt_view(r.unsubscribe_url) == opt_view(d.unsubscribe_url),
        opt_view(r.unsubscribe_mailto) == opt_view(d.unsubscribe_mailto),
        r.supports_one_click == (if d.supports_one_click {
            1i32
        } else {
            0i32
        }),
        r.first_seen == date,
        r.last_seen == date,
{
    let ghost views = string_views(d.methods@);
    let mut method: Vec<char> = Vec::new();
    let mut i: usize = 0;
    while i < d.methods.len()
        invariant
            i <= d.methods@.len(),
            views == string_views(d.methods@),
            method@ == join(views.take(i as int), ", "@),
        decreases d.methods.len() - i,
    {
        assert(views.take(i + 1).drop_last() =~= views.take(i as int));
        assert(views.take(i + 1).last() == d.methods@[i as int]@);
        if i > 0 {
            push_str(&mut method, ", ");
        }
        push_str(&mut method, d.methods[i].as_str());
        i = i + 1;
    }
    assert(views.take(views.len() as int) =~= views);
    SubscriptionRecord {
        account_id: account_id.to_owned(),
        sender_email: d.sender_email.clone(),
        sender_name: copy_opt(&d.sender_name),
        detection_method: string_of(method.as_slice()),
        detection_details: copy_opt(&d.details),
        unsubscribe_url: copy_opt(&d.unsubscribe_url),
        unsubscribe_mailto: copy_opt(&d.unsubscribe_mailto),
        supports_one_click: if d.supports_one_click {
            1
        } else {
            0
        },
        first_seen: date,
        last_seen: date,
    }
}

fn copy_opt(o: &Option<String>) -> (r: Option<String>)
    ensures
        opt_view(r) == opt_view(*o),
{
    match o {
        Some(s) => Some(s.clone()),
        None => None,
    }
}

/// Whether no sender occurs twice.
pub open spec fn distinct(s: Seq<Seq<char>>) -> bool {
    forall|i: int, j: int| 0 <= i < j < s.len() ==> s[i] != s[j]
}

/// What a detection does to the senders seen so far: a subscription from a
/// sender not seen yet is recorded (true) and the sender added; anything
/// else is skipped (false).
pub open spec fn record_step(seen: Seq<Seq<char>>, is_subscription: bool, sender: Seq<char>) -> (
    bool,
    Seq<Seq<char>>,
) {
    if is_subscription && !seen.contains(sender) {
        (true, seen.push(sender))
    } else {
        (false, seen)
    }
}

/// The bookkeeping of one subscription scan.
pub struct SubscriptionScan {
    pub seen: Vec<String>,
    pub remote_scanned: i64,
    pub remote_found: i64,
    pub local_scanned: i64,
    pub local_found: i64,
    pub local_updated: i64,
    pub enriched: i64,
    /// A local sender was admitted and its row is still to be stored.
    pub store_pending: bool,
}

impl SubscriptionScan {
    /// The senders recorded so far, in order.
    pub open spec fn seen(&self) -> Seq<Seq<char>> {
        string_views(self.seen@)
    }

    /// The senders recorded so far are distinct, and every row counted as
    /// found or updated (and a store still pending) stands for one of them.
    pub open spec fn wf(&self) -> bool {
        &&& distinct(self.seen())
        &&& 0 <= self.remote_found
        &&& 0 <= self.local_found
        &&& 0 <= self.local_updated
        &&& self.remote_found + self.local_found + self.local_updated + if self.store_pending {
            1int
        } else {
            0int
        } <= self.seen().len()
    }

    /// A scan that has seen nothing.
    pub fn new() -> (r: Self)
        ensures
            r.wf(),
            r.seen() == Seq::<Seq<char>>::empty(),
            r.remote_scanned == 0 && r.remote_found == 0 && r.local_scanned == 0,
            r.local_found == 0 && r.local_updated == 0 && r.enriched == 0,
            !r.store_pending,
    {
        let r = SubscriptionScan {
            seen: Vec::new(),
            remote_scanned: 0,
            remote_found: 0,
            local_scanned: 0,
            local_found: 0,
            local_updated: 0,
            enriched: 0,
            store_pending: false,
        };
        assert(r.seen() =~= Seq::<Seq<char>>::empty());
        r
    }

    fn has_seen(&self, sender: &str) -> (r: bool)
        ensures
            r == self.seen().contains(sender@),
    {
        let mut i: usize = 0;
        while i < self.seen.len()
            invariant
                i <= self.seen@.len(),
                forall|k: int| 0 <= k < i ==> self.seen()[k] != sender@,
            decreases self.seen.len() - i,
        {
            if str_eq(self.seen[i].as_str(), sender) {
                assert(self.seen()[i as int] == sender@);
                return true;
            }
            i = i + 1;
        }
        false
    }

    /// Records the detection of one message against the senders seen:
    /// true when it is a subscription from a new sender, whose row should
    /// then be stored.
    fn admit_sender(&mut self, d: &Detection) -> (r: bool)
        requires
            old(self).wf(),
        ensures
            final(self).wf(),
            (r, final(self).seen()) == record_step(old(self).seen(), d.is_subscription, d.sender_email@),
            final(self).remote_scanned == old(self).remote_scanned,
            final(self).remote_found == old(self).remote_found,
            final(self).local_scanned == old(self).local_scanned,
            final(self).local_found == old(self).local_found,
            final(self).local_updated == old(self).local_updated,
            final(self).enriched == old(self).enriched,
            final(self).store_pending == old(self).store_pending,
    {
        if !d.is_subscription {
            return false;
        }
        if self.has_seen(d.sender_email.as_str()) {
            return false;
        }
        let ghost before = self.seen();
        self.seen.push(d.sender_email.clone());
        assert(self.seen() =~= before.push(d.sender_email@));
        true
    }

    /// Counts one message read from the server.
    pub fn count_remote(&mut self)
        requires
            old(self).remote_scanned < i64::MAX,
        ensures
            final(self).remote_scanned == old(self).remote_scanned + 1,
            final(self).seen() == old(self).seen(),
            final(self).wf() == old(self).wf(),
            final(self).remote_found == old(self).remote_found,
            final(self).local_scanned == old(self).local_scanned,
            final(self).local_found == old(self).local_found,
            final(self).local_updated == old(self).local_updated,
            final(self).enriched == old(self).enriched,
            final(self).store_pending == old(self).store_pending,
    {
        self.remote_scanned = self.remote_scanned + 1;
    }

    /// Takes the detection of a message read from the server; true when
    /// its subscription row should be stored (and it is then counted as
    /// found).
    pub fn admit_remote(&mut self, d: &Detection) -> (r: bool)
        requires
            old(self).wf(),
            old(self).remote_found < i64::MAX,
        ensures
            final(self).wf(),
            (r, final(self).seen()) == record_step(old(self).seen(), d.is_subscription, d.sender_email@),
            final(self).remote_found == old(self).remote_found + if r {
                1int
            } else {
                0int
            },
            final(self).remote_scanned == old(self).remote_scanned,
            final(self).local_scanned == old(self).local_scanned,
            final(self).local_found == old(self).local_found,
            final(self).local_updated == old(self).local_updated,
            final(self).enriched == old(self).enriched,
            final(self).store_pending == old(self).store_pending,
    {
        let ok = self.admit_sender(d);
        if ok {
            self.remote_found = self.remote_found + 1;
        }
        ok
    }

    /// Counts one message read from the local store.
    pub fn count_local(&mut self)
        requires
            old(self).local_scanned < i64::MAX,
        ensures
            final(self).local_scanned == old(self).local_scanned + 1,
            final(self).seen() == old(self).seen(),
            final(self).wf() == old(self).wf(),
            final(self).remote_scanned == old(self).remote_scanned,
            final(self).remote_found == old(self).remote_found,
            final(self).local_found == old(self).local_found,
            final(self).local_updated == old(self).local_updated,
            final(self).enriched == old(self).enriched,
            final(self).store_pending == old(self).store_pending,
    {
        self.local_scanned = self.local_scanned + 1;
    }

    /// Takes the detection of a locally stored message; true when its
    /// subscription row should be stored.
    pub fn admit_local(&mut self, d: &Detection) -> (r: bool)
        requires
            old(self).wf(),
        ensures
            final(self).wf(),
            (r, final(self).seen()) == record_step(old(self).seen(), d.is_subscription, d.sender_email@),
            final(self).remote_scanned == old(self).remote_scanned,
            final(self).remote_found == old(self).remote_found,
            final(self).local_scanned == old(self).local_scanned,
            final(self).local_found == old(self).local_found,
            final(self).local_updated == old(self).local_updated,
            final(self).enriched == old(self).enriched,
            final(self).store_pending == (old(self).store_pending || r),
    {
        let ok = self.admit_sender(d);
        if ok {
            self.store_pending = true;
        }
        ok
    }

    /// Counts the outcome of storing the row of the local sender just
    /// admitted: a new row (rows affected) is found, a merged one updated, a
    /// failed store (`None`) nothing.
    pub fn record_local_store(&mut self, rows_affected: Option<u64>)
        requires
            old(self).wf(),
            old(self).store_pending,
            old(self).local_found < i64::MAX,
            old(self).local_updated < i64::MAX,
        ensures
            final(self).local_found == old(self).local_found + match rows_affected {
                Some(n) => if n > 0 {
                    1int
                } else {
                    0int
                },
                None => 0int,
            },
            final(self).local_updated == old(self).local_updated + match rows_affected {
                Some(n) => if n > 0 {
                    0int
                } else {
                    1int
                },
                None => 0int,
            },
            final(self).seen() == old(self).seen(),
            final(self).wf(),
            !final(self).store_pending,
            final(self).remote_scanned == old(self).remote_scanned,
            final(self).remote_found == old(self).remote_found,
            final(self).local_scanned == old(self).local_scanned,
            final(self).enriched == old(self).enriched,
    {
        match rows_affected {
            Some(n) => if n > 0 {
                self.local_found = self.local_found + 1;
            } else {
                self.local_updated = self.local_updated + 1;
            },
            None => {},
        }
        self.store_pending = false;
    }

    /// Takes the detection made for a stored subscription lacking
    /// unsubscribe data; true (and counted as enriched) when it found a URL
    /// or a mailto, which should then be stored.
    pub fn record_enrichment(&mut self, d: &Detection) -> (r: bool)
        requires
            old(self).enriched < i64::MAX,
        ensures
            r == (d.unsubscribe_url is Some || d.unsubscribe_mailto is Some),
            final(self).enriched == old(self).enriched + if r {
                1int
            } else {
                0int
            },
            final(self).seen() == old(self).seen(),
            final(self).wf() == old(self).wf(),
            final(self).remote_scanned == old(self).remote_scanned,
            final(self).remote_found == old(self).remote_found,
            final(self).local_scanned == old(self).local_scanned,
            final(self).local_found == old(self).local_found,
            final(self).local_updated == old(self).local_updated,
            final(self).store_pending == old(self).store_pending,
    {
        let found = d.unsubscribe_url.is_some() || d.unsubscribe_mailto.is_some();
        if found {
            self.enriched = self.enriched + 1;
        }
        found
    }

    /// The totals of the scan: server and local counts added up.
    pub fn result(&self) -> (r: ScanResult)
        requires
            i64::MIN <= self.remote_scanned + self.local_scanned <= i64::MAX,
            i64::MIN <= self.remote_found + self.local_found <= i64::MAX,
        ensures
            r.messages_scanned == self.remote_scanned + self.local_scanned,
            r.subscriptions_found == self.remote_found + self.local_found,
            r.subscriptions_updated == self.local_updated,
            r.enriched == self.enriched,
            self.wf() ==> r.subscriptions_found + r.subscriptions_updated <= self.seen().len(),
    {
        ScanResult {
            messages_scanned: self.remote_scanned + self.local_scanned,
            subscriptions_found: self.remote_found + self.local_found,
            subscriptions_updated: self.local_updated,
            enriched: self.enriched,
        }
    }
}

/// Within one scan a sender is recorded at most once: once a detection
/// for a sender has been admitted, another detection for the same sender
/// is skipped, and the senders recorded stay distinct.
pub proof fn law_sender_recorded_once(seen: Seq<Seq<char>>, sender: Seq<char>, again: bool)
    requires
        distinct(seen),
    ensures
        distinct(record_step(seen, true, sender).1),
        record_step(seen, true, sender).1.contains(sender),
        !record_step(record_step(seen, true, sender).1, again, sender).0,
{
    let s1 = record_step(seen, true, sender).1;
    if !seen.contains(sender) {
        assert(s1.last() == sender);
        assert forall|i: int, j: int| 0 <= i < j < s1.len() implies s1[i] != s1[j] by {
            if j == s1.len() - 1 {
                assert(seen[i] == s1[i]);
            }
        }
    }
}

/// Within a scan, the rows found and the rows updated together never
/// outnumber the distinct senders admitted.
pub proof fn law_scan_counts_bounded(scan: SubscriptionScan)
    requires
        scan.wf(),
    ensures
        distinct(scan.seen()),
        scan.remote_found + scan.local_found + scan.local_updated <= scan.seen().len(),
{
}

/// A subscription as the unsubscribe command reads it.
#[derive(Debug)]
pub struct UnsubscribeTarget {
    pub unsubscribe_url: Option<String>,
    pub unsubscribe_mailto: Option<String>,
    pub supports_one_click: i32,
}

/// The answer of the unsubscribe command.
#[derive(Debug)]
pub struct UnsubscribeResult {
    pub method: String,
    pub success: bool,
    pub message: String,
    pub opened_browser: bool,
}

/// The next thing the unsubscribe command does.
#[derive(Debug)]
pub enum UnsubscribeStep {
    /// Answer with this result.
    Finish(UnsubscribeResult),
    /// POST a one-click unsubscribe (RFC 8058) to this URL.
    PostOneClick(String),
    /// Open this URL in the browser.
    OpenBrowser(String),
}

/// The step an unsubscribe takes for a subscription, or after a one-click
/// POST that failed (`one_click_tried`).
pub open spec fn unsubscribe_plan(
    url: Option<Seq<char>>,
    mailto: Option<Seq<char>>,
    one_click: bool,
    one_click_tried: bool,
) -> (int, Seq<char>) {
    if one_click && !one_click_tried && url is Some {
        (1, url->0)
    } else if url is Some {
        (2, url->0)
    } else if mailto is Some {
        (3, "Mailto unsubscribe requires manual action"@)
    } else {
        (4, "No unsubscribe method available"@)
    }
}

/// The kind and payload of a step: 1 one-click POST, 2 browser, 3 the
/// mailto answer, 4 the "no method" answer, 0 "not found".
pub open spec fn step_view(s: UnsubscribeStep) -> (int, Seq<char>) {
    match s {
        UnsubscribeStep::PostOneClick(u) => (1, u@),
        UnsubscribeStep::OpenBrowser(u) => (2, u@),
        UnsubscribeStep::Finish(r) => if r.method@ == "mailto"@ {
            (3, r.message@)
        } else if r.message@ == "Subscription not found"@ {
            (0, r.message@)
        } else {
            (4, r.message@)
        },
    }
}

fn failure(method: &str, message: &str) -> (r: UnsubscribeResult)
    ensures
        r.method@ == method@,
        !r.success,
        r.message@ == message@,
        !r.opened_browser,
{
    UnsubscribeResult {
        method: method.to_owned(),
        success: false,
        message: message.to_owned(),
        opened_browser: false,
    }
}

fn fallback_step(t: &UnsubscribeTarget, tried: bool) -> (r: UnsubscribeStep)
    ensures
        step_view(r) == unsubscribe_plan(
            opt_view(t.unsubscribe_url),
            opt_view(t.unsubscribe_mailto),
            t.supports_one_click == 1,
            tried,
        ),
        (r matches UnsubscribeStep::Finish(f) ==> !f.success && !f.opened_browser && (f.method@
            == "mailto"@ || f.method@ == "none"@)),
{
    proof {
        reveal_strlit("mailto");
        reveal_strlit("none");
        reveal_strlit("Subscription not found");
        reveal_strlit("No unsubscribe method available");
        assert("none"@.len() == 4 && "mailto"@.len() == 6);
        assert("No unsubscribe method available"@.len() != "Subscription not found"@.len());
    }
    if t.supports_one_click == 1 && !tried {
        match &t.unsubscribe_url {
            Some(u) => {
                return UnsubscribeStep::PostOneClick(u.clone());
            },
            None => {},
        }
    }
    match &t.unsubscribe_url {
        Some(u) => UnsubscribeStep::OpenBrowser(u.clone()),
        None => match &t.unsubscribe_mailto {
            Some(_) => UnsubscribeStep::Finish(
                failure("mailto", "Mailto unsubscribe requires manual action"),
            ),
            None => UnsubscribeStep::Finish(failure("none", "No unsubscribe method available")),
        },
    }
}

/// The first step of unsubscribing from a subscription (`None`: the
/// subscription does not exist): a one-click POST when the sender supports
/// it and gave a URL, else opening the URL, else the mailto or "no method"
/// answer.
pub fn unsubscribe_start(target: &Option<UnsubscribeTarget>) -> (r: UnsubscribeStep)
    ensures
        match target {
            None => (r matches UnsubscribeStep::Finish(f) && f.method@ == "none"@ && !f.success
                && f.message@ == "Subscription not found"@ && !f.opened_browser),
            Some(t) => step_view(r) == unsubscribe_plan(
                opt_view(t.unsubscribe_url),
                opt_view(t.unsubscribe_mailto),
                t.supports_one_click == 1,
                false,
            ),
        },
        target is Some ==> (r matches UnsubscribeStep::Finish(f) ==> !f.success && !f.opened_browser
            && (f.method@ == "mailto"@ || f.method@ == "none"@)),
{
    match target {
        None => UnsubscribeStep::Finish(failure("none", "Subscription not found")),
        Some(t) => fallback_step(t, false),
    }
}

/// The step after the one-click POST: success ends the command (the
/// subscription is then marked unsubscribed), failure falls back to the
/// browser or the mailto answer.
pub fn unsubscribe_after_post(target: &UnsubscribeTarget, posted: bool) -> (r: UnsubscribeStep)
    ensures
        posted ==> (r matches UnsubscribeStep::Finish(f) && f.method@ == "one_click"@ && f.success
            && f.message@ == "Successfully unsubscribed via one-click"@ && !f.opened_browser),
        !posted ==> step_view(r) == unsubscribe_plan(
            opt_view(target.unsubscribe_url),
            opt_view(target.unsubscribe_mailto),
            target.supports_one_click == 1,
            true,
        ),
        !posted ==> (r matches UnsubscribeStep::Finish(f) ==> !f.success && !f.opened_browser && (
        f.method@ == "mailto"@ || f.method@ == "none"@)),
{
    if posted {
        UnsubscribeStep::Finish(
            UnsubscribeResult {
                method: "one_click".to_owned(),
                success: true,
                message: "Successfully unsubscribed via one-click".to_owned(),
                opened_browser: false,
            },
        )
    } else {
        fallback_step(target, true)
    }
}

/// A one-click POST is tried at most once: after it failed, an unsubscribe
/// with a URL opens it in the browser, and one without a URL answers;
/// a subscription with a URL is never left without a step that uses it.
pub proof fn law_one_click_tried_once(
    url: Option<Seq<char>>,
    mailto: Option<Seq<char>>,
    one_click: bool,
)
    ensures
        unsubscribe_plan(url, mailto, one_click, true).0 != 1,
        url is Some ==> unsubscribe_plan(url, mailto, one_click, true) == (2int, url->0),
        url is Some ==> unsubscribe_plan(url, mailto, one_click, false).0 == 1 || unsubscribe_plan(
            url,
            mailto,
            one_click,
            false,
        ).0 == 2,
{
}

/// The answer after trying to open the unsubscribe URL in the browser.
pub fn unsubscribe_after_open(opened: &Result<(), String>) -> (r: UnsubscribeResult)
    ensures
        r.method@ == "https"@,
        match opened {
            Ok(_) => r.success && r.opened_browser && r.message@ == "Opened unsubscribe URL in browser"@,
            Err(e) => !r.success && !r.opened_browser && r.message@ == "Failed to open URL: "@ + e@,
        },
{
    match opened {
        Ok(_) => UnsubscribeResult {
            method: "https".to_owned(),
            success: true,
            message: "Opened unsubscribe URL in browser".to_owned(),
            opened_browser: true,
        },
        Err(e) => {
            let mut m = chars_of("Failed to open URL: ");
            push_str(&mut m, e.as_str());
            UnsubscribeResult {
                method: "https".to_owned(),
                success: false,
                message: string_of(m.as_slice()),
                opened_browser: false,
            }
        },
    }
}

/// The status a user correction gives a subscription.
pub fn corrected_status(is_subscription: bool) -> (r: &'static str)
    ensures
        r@ == if is_subscription {
            "active"@
        } else {
            "ignored"@
        },
{
    if is_subscription {
        "active"
    } else {
        "ignored"
    }
}

/// The columns of a subscription listing.
pub open spec fn subscriptions_select() -> Seq<char> {
    "SELECT id, account_id, sender_email, sender_name, detection_method, detection_details, unsubscribe_url, unsubscribe_mailto, supports_one_click, status, message_count, read_count, avg_frequency_days, first_seen, last_seen, user_corrected FROM subscriptions"@
}

/// The SQL of a subscription listing with an optional account and status
/// filter.
pub open spec fn subscriptions_sql(account: bool, status: bool) -> Seq<char> {
    subscriptions_select() + if account && status {
        " WHERE account_id = ? AND status = ?"@
    } else if account {
        " WHERE account_id = ?"@
    } else if status {
        " WHERE status = ?"@
    } else {
        Seq::empty()
    }
}

/// Every placeholder of a subscription listing is bound: one per filter
/// given.
pub proof fn law_subscriptions_placeholders(account: bool, status: bool)
    ensures
        count_char(subscriptions_sql(account, status), '?') == (if account {
            1nat
        } else {
            0nat
        }) + if status {
            1nat
        } else {
            0nat
        },
{
    let base = subscriptions_select();
    reveal_strlit("SELECT id, account_id, sender_email, sender_name, detection_method, detection_details, unsubscribe_url, unsubscribe_mailto, supports_one_click, status, message_count, read_count, avg_frequency_days, first_seen, last_seen, user_corrected FROM subscriptions");
    reveal_strlit(" WHERE account_id = ? AND status = ?");
    reveal_strlit(" WHERE account_id = ?");
    reveal_strlit(" WHERE status = ?");
    assert(!base.contains('?'));
    lemma_count_absent(base, '?');
    lemma_count_single('?');
    if account && status {
        let w = " WHERE account_id = ? AND status = ?"@;
        let a = w.take(20);
        let b = w.subrange(21, 35);
        assert(w.len() == 36 && w[20] == '?' && w[35] == '?');
        assert(w =~= a + seq!['?'] + b + seq!['?']);
        assert(!a.contains('?') && !b.contains('?'));
        lemma_count_absent(a, '?');
        lemma_count_absent(b, '?');
        lemma_count_concat(a, seq!['?'], '?');
        lemma_count_concat(a + seq!['?'], b, '?');
        lemma_count_concat(a + seq!['?'] + b, seq!['?'], '?');
        lemma_count_concat(base, w, '?');
    } else if account || status {
        let w = if account {
            " WHERE account_id = ?"@
        } else {
            " WHERE status = ?"@
        };
        assert(w.last() == '?' && !w.drop_last().contains('?'));
        lemma_count_absent(w.drop_last(), '?');
        assert(w =~= w.drop_last() + seq!['?']);
        lemma_count_concat(w.drop_last(), seq!['?'], '?');
        lemma_count_concat(base, w, '?');
    } else {
        assert(base + Seq::<char>::empty() =~= base);
    }
}

/// The subscription listing query for an optional account and status
/// filter, with its bound values.
pub fn subscriptions_query(account_id: &Option<String>, status: &Option<String>) -> (r: (
    String,
    Vec<String>,
))
    ensures
        r.0@ == subscriptions_sql(account_id is Some, status is Some),
        string_views(r.1@) == match (opt_view(*account_id), opt_view(*status)) {
            (Some(a), Some(s)) => seq![a, s],
            (Some(a), None) => seq![a],
            (None, Some(s)) => seq![s],
            (None, None) => Seq::empty(),
        },
{
    let mut sql = chars_of(
        "SELECT id, account_id, sender_email, sender_name, detection_method, detection_details, unsubscribe_url, unsubscribe_mailto, supports_one_click, status, message_count, read_count, avg_frequency_days, first_seen, last_seen, user_corrected FROM subscriptions",
    );
    let mut binds: Vec<String> = Vec::new();
    match (account_id, status) {
        (Some(a), Some(s)) => {
            push_str(&mut sql, " WHERE account_id = ? AND status = ?");
            binds.push(a.clone());
            binds.push(s.clone());
        },
        (Some(a), None) => {
            push_str(&mut sql, " WHERE account_id = ?");
            binds.push(a.clone());
        },
        (None, Some(s)) => {
            push_str(&mut sql, " WHERE status = ?");
            binds.push(s.clone());
        },
        (None, None) => {
            assert(sql@ =~= sql@ + Seq::<char>::empty());
        },
    }
    assert(string_views(binds@) =~= match (opt_view(*account_id), opt_view(*status)) {
        (Some(a), Some(s)) => seq![a, s],
        (Some(a), None) => seq![a],
        (None, Some(s)) => seq![s],
        (None, None) => Seq::<Seq<char>>::empty(),
    });
    (string_of(sql.as_slice()), binds)
}

} // verus!
