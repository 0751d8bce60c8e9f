//! The records the command layer returns, built from stored rows with
//! their defaults filled in.

use crate::misc::{decimal_string, decimal_text, digit_char};
use crate::query::opt_view;
use crate::text::{
    chars_of, count_char, lemma_count_absent, lemma_count_concat, lemma_count_single, push_str,
    string_of,
};
use vstd::prelude::*;

verus! {

/// A label of the mailbox.
#[derive(Debug)]
pub struct LocalLabel {
    pub id: String,
    pub name: String,
    pub label_type: String,
    pub unread_count: i32,
    pub threads_total: i32,
    pub threads_unread: i32,
    pub bg_color: Option<String>,
    pub text_color: Option<String>,
}

/// A stored label row.
#[derive(Debug)]
pub struct LabelRow {
    pub id: String,
    pub name: Option<String>,
    pub label_type: Option<String>,
    pub unread_count: Option<i32>,
    pub threads_total: Option<i32>,
    pub threads_unread: Option<i32>,
    pub bg_color: Option<String>,
    pub text_color: Option<String>,
}

/// A message of a thread.
#[derive(Debug)]
pub struct LocalMessage {
    pub id: String,
    pub thread_id: String,
    pub sender: String,
    pub recipients: String,
    pub subject: String,
    pub snippet: String,
    pub internal_date: i64,
    pub body_html: String,
    pub body_plain: String,
    pub is_draft: bool,
    pub has_attachments: bool,
}

/// A stored message row.
#[derive(Debug)]
pub struct MessageRow {
    pub id: String,
    pub thread_id: Option<String>,
    pub sender: Option<String>,
    pub recipients: Option<String>,
    pub subject: Option<String>,
    pub snippet: Option<String>,
    pub internal_date: Option<i64>,
    pub body_html: Option<String>,
    pub body_plain: Option<String>,
    pub is_draft: bool,
    pub has_attachments: bool,
}

/// An attachment of a message.
#[derive(Debug)]
pub struct Attachment {
    pub id: String,
    pub message_id: String,
    pub filename: String,
    pub mime_type: String,
    pub size: i32,
}

/// A setting.
#[derive(Debug)]
pub struct SettingEntry {
    pub key: String,
    pub value: String,
}

/// What a sync reports: the new inbox messages and threads.
#[derive(Debug)]
pub struct SyncResult {
    pub new_message_ids: Vec<String>,
    pub new_thread_ids: Vec<String>,
}

/// The size of a thread list, and whether the server has more.
#[derive(Debug)]
pub struct ThreadCountResult {
    pub count: i64,
    pub has_more_remote: bool,
}

/// The number of pending action items of a thread.
#[derive(Debug)]
pub struct ThreadActionCount {
    pub thread_id: String,
    pub count: i64,
}

pub open spec fn text_or_empty(o: Option<Seq<char>>) -> Seq<char> {
    match o {
        Some(s) => s,
        None => Seq::empty(),
    }
}

pub open spec fn int_or_zero(o: Option<i32>) -> i32 {
    match o {
        Some(v) => v,
        None => 0,
    }
}

fn text_of(o: Option<String>) -> (r: String)
    ensures
        r@ == text_or_empty(opt_view(o)),
{
    match o {
        Some(s) => s,
        None => string_of(Vec::<char>::new().as_slice()),
    }
}

/// A label from its row: missing names and types empty, missing counts 0.
pub fn label_from_row(r: LabelRow) -> (l: LocalLabel)
    ensures
        l.id@ == r.id@,
        l.name@ == text_or_empty(opt_view(r.name)),
        l.label_type@ == text_or_empty(opt_view(r.label_type)),
        l.unread_count == int_or_zero(r.unread_count),
        l.threads_total == int_or_zero(r.threads_total),
        l.threads_unread == int_or_zero(r.threads_unread),
        opt_view(l.bg_color) == opt_view(r.bg_color),
        opt_view(l.text_color) == opt_view(r.text_color),
{
    LocalLabel {
        id: r.id,
        name: text_of(r.name),
        label_type: text_of(r.label_type),
        unread_count: match r.unread_count {
            Some(v) => v,
            None => 0,
        },
        threads_total: match r.threads_total {
            Some(v) => v,
            None => 0,
        },
        threads_unread: match r.threads_unread {
            Some(v) => v,
            None => 0,
        },
        bg_color: r.bg_color,
        text_color: r.text_color,
    }
}

/// A message from its row: missing texts empty, a missing date 0.
pub fn message_from_row(r: MessageRow) -> (m: LocalMessage)
    ensures
        m.id@ == r.id@,
        m.thread_id@ == text_or_empty(opt_view(r.thread_id)),
        m.sender@ == text_or_empty(opt_view(r.sender)),
        m.recipients@ == text_or_empty(opt_view(r.recipients)),
        m.subject@ == text_or_empty(opt_view(r.subject)),
        m.snippet@ == text_or_empty(opt_view(r.snippet)),
        m.internal_date == match r.internal_date {
            Some(d) => d,
            None => 0,
        },
        m.body_html@ == text_or_empty(opt_view(r.body_html)),
        m.body_plain@ == text_or_empty(opt_view(r.body_plain)),
        m.is_draft == r.is_draft,
        m.has_attachments == r.has_attachments,
{
    LocalMessage {
        id: r.id,
        thread_id: text_of(r.thread_id),
        sender: text_of(r.sender),
        recipients: text_of(r.recipients),
        subject: text_of(r.subject),
        snippet: text_of(r.snippet),
        internal_date: match r.internal_date {
            Some(d) => d,
            None => 0,
        },
        body_html: text_of(r.body_html),
        body_plain: text_of(r.body_plain),
        is_draft: r.is_draft,
        has_attachments: r.has_attachments,
    }
}

/// An attachment from its row: missing name and type empty, a missing
/// size 0.
pub fn attachment_from_row(
    id: String,
    message_id: String,
    filename: Option<String>,
    mime_type: Option<String>,
    size: Option<i32>,
) -> (a: Attachment)
    ensures
        a.id@ == id@,
        a.message_id@ == message_id@,
        a.filename@ == text_or_empty(opt_view(filename)),
        a.mime_type@ == text_or_empty(opt_view(mime_type)),
        a.size == int_or_zero(size),
{
    Attachment {
        id,
        message_id,
        filename: text_of(filename),
        mime_type: text_of(mime_type),
        size: match size {
            Some(s) => s,
            None => 0,
        },
    }
}

/// The value of a setting: empty when it is not stored.
pub fn setting_value(stored: Option<String>) -> (r: String)
    ensures
        r@ == text_or_empty(opt_view(stored)),
{
    text_of(stored)
}

/// The page of the subscriptions feed: offset 0 and 50 threads unless
/// given.
pub fn feed_page(offset: Option<i32>, limit: Option<i32>) -> (r: (i32, i32))
    ensures
        r.0 == match offset {
            Some(o) => o,
            None => 0,
        },
        r.1 == match limit {
            Some(l) => l,
            None => 50,
        },
{
    (
        match offset {
            Some(o) => o,
            None => 0,
        },
        match limit {
            Some(l) => l,
            None => 50,
        },
    )
}

/// The decimal text of a signed number.
pub open spec fn signed_text(n: int) -> Seq<char> {
    if n < 0 {
        "-"@ + decimal_text((-n) as nat)
    } else {
        decimal_text(n as nat)
    }
}

fn signed_string(n: i32) -> (r: String)
    ensures
        r@ == signed_text(n as int),
{
    if n < 0 {
        let m: u64 = (-(n as i64)) as u64;
        let mut out = chars_of("-");
        push_str(&mut out, decimal_string(m).as_str());
        string_of(out.as_slice())
    } else {
        decimal_string(n as u64)
    }
}

/// Numbered placeholders "?1,?2,…,?n".
pub open spec fn numbered_placeholders(n: nat) -> Seq<char>
    decreases n,
{
    if n == 0 {
        Seq::empty()
    } else if n == 1 {
        "?1"@
    } else {
        numbered_placeholders((n - 1) as nat) + ",?"@ + decimal_text(n)
    }
}

/// The SQL of the action-item listing: the optional account and status
/// filters, newest first, and the optional limit.
pub open spec fn action_items_sql(account: bool, status: bool, limit: Option<i32>) -> Seq<char> {
    "SELECT a.id, a.account_id, a.thread_id, a.message_id, a.description, a.assignee, a.deadline, a.confidence, a.status, a.created_at, a.completed_at, t.subject AS thread_subject, t.sender AS thread_sender FROM action_items a LEFT JOIN threads t ON a.thread_id = t.id WHERE 1=1"@
        + (if account {
        " AND a.account_id = ?"@
    } else {
        Seq::empty()
    }) + (if status {
        " AND a.status = ?"@
    } else {
        Seq::empty()
    }) + " ORDER BY a.created_at DESC"@ + match limit {
        Some(l) => " LIMIT "@ + signed_text(l as int),
        None => Seq::empty(),
    }
}

/// The query counting the pending action items of `n` threads.
pub open spec fn action_counts_text(n: nat) -> Seq<char> {
    "SELECT thread_id, COUNT(*) as count FROM action_items WHERE status = 'pending' AND thread_id IN ("@
        + numbered_placeholders(n) + ") GROUP BY thread_id"@
}

proof fn lemma_digits_no_mark(n: nat)
    ensures
        !decimal_text(n).contains('?'),
    decreases n,
{
    if n >= 10 {
        lemma_digits_no_mark(n / 10);
        let d = decimal_text(n / 10);
        let t = decimal_text(n);
        assert(t == d + seq![digit_char(n % 10)]);
        if t.contains('?') {
            let k = choose|k: int| 0 <= k < t.len() && t[k] == '?';
            if k < d.len() {
                assert(d[k] == '?');
            }
        }
    } else {
        assert(decimal_text(n) == seq![digit_char(n)]);
        assert(decimal_text(n)[0] != '?');
    }
}

proof fn lemma_numbered_count(n: nat)
    ensures
        count_char(numbered_placeholders(n), '?') == n,
    decreases n,
{
    reveal_strlit("?1");
    reveal_strlit(",?");
    if n == 1 {
        assert("?1"@ =~= seq!['?'] + seq!['1']);
        lemma_count_single('?');
        assert(!seq!['1'].contains('?'));
        lemma_count_absent(seq!['1'], '?');
        lemma_count_concat(seq!['?'], seq!['1'], '?');
    } else if n > 1 {
        lemma_numbered_count((n - 1) as nat);
        lemma_digits_no_mark(n);
        lemma_count_absent(decimal_text(n), '?');
        assert(",?"@ =~= seq![','] + seq!['?']);
        assert(!seq![','].contains('?'));
        lemma_count_absent(seq![','], '?');
        lemma_count_single('?');
        lemma_count_concat(seq![','], seq!['?'], '?');
        lemma_count_concat(numbered_placeholders((n - 1) as nat), ",?"@, '?');
        lemma_count_concat(numbered_placeholders((n - 1) as nat) + ",?"@, decimal_text(n), '?');
    }
}

/// Every placeholder of the action-item queries is bound: the counting
/// query has one per thread, the listing one per filter given (the limit
/// is written into the text).
pub proof fn law_action_queries_placeholders(n: nat, account: bool, status: bool, limit: Option<i32>)
    ensures
        count_char(action_counts_text(n), '?') == n,
        count_char(action_items_sql(account, status, limit), '?') == (if account {
            1nat
        } else {
            0nat
        }) + if status {
            1nat
        } else {
            0nat
        },
{
    let head = "SELECT thread_id, COUNT(*) as count FROM action_items WHERE status = 'pending' AND thread_id IN ("@;
    let tail = ") GROUP BY thread_id"@;
    reveal_strlit("SELECT thread_id, COUNT(*) as count FROM action_items WHERE status = 'pending' AND thread_id IN (");
    reveal_strlit(") GROUP BY thread_id");
    assert(!head.contains('?') && !tail.contains('?'));
    lemma_count_absent(head, '?');
    lemma_count_absent(tail, '?');
    lemma_numbered_count(n);
    lemma_count_concat(head, numbered_placeholders(n), '?');
    lemma_count_concat(head + numbered_placeholders(n), tail, '?');
    let base = "SELECT a.id, a.account_id, a.thread_id, a.message_id, a.description, a.assignee, a.deadline, a.confidence, a.status, a.created_at, a.completed_at, t.subject AS thread_subject, t.sender AS thread_sender FROM action_items a LEFT JOIN threads t ON a.thread_id = t.id WHERE 1=1"@;
    reveal_strlit("SELECT a.id, a.account_id, a.thread_id, a.message_id, a.description, a.assignee, a.deadline, a.confidence, a.status, a.created_at, a.completed_at, t.subject AS thread_subject, t.sender AS thread_sender FROM action_items a LEFT JOIN threads t ON a.thread_id = t.id WHERE 1=1");
    reveal_strlit(" AND a.account_id = ?");
    reveal_strlit(" AND a.status = ?");
    reveal_strlit(" ORDER BY a.created_at DESC");
    reveal_strlit(" LIMIT ");
    reveal_strlit("-");
    let acc_part = if account {
        " AND a.account_id = ?"@
    } else {
        Seq::<char>::empty()
    };
    let st_part = if status {
        " AND a.status = ?"@
    } else {
        Seq::<char>::empty()
    };
    let order = " ORDER BY a.created_at DESC"@;
    let lim = match limit {
        Some(l) => " LIMIT "@ + signed_text(l as int),
        None => Seq::<char>::empty(),
    };
    assert(!base.contains('?') && !order.contains('?'));
    lemma_count_absent(base, '?');
    lemma_count_absent(order, '?');
    assert(count_char(acc_part, '?') == if account {
        1nat
    } else {
        0nat
    }) by {
        if account {
            assert(acc_part.drop_last().len() == 20 && acc_part.last() == '?');
            assert(!acc_part.drop_last().contains('?'));
            lemma_count_absent(acc_part.drop_last(), '?');
        } else {
            lemma_count_absent(acc_part, '?');
        }
    }
    assert(count_char(st_part, '?') == if status {
        1nat
    } else {
        0nat
    }) by {
        if status {
            assert(st_part.drop_last().len() == 16 && st_part.last() == '?');
            assert(!st_part.drop_last().contains('?'));
            lemma_count_absent(st_part.drop_last(), '?');
        } else {
            lemma_count_absent(st_part, '?');
        }
    }
    assert(count_char(lim, '?') == 0) by {
        match limit {
            Some(l) => {
                let digits = if l < 0 {
                    decimal_text((-(l as int)) as nat)
                } else {
                    decimal_text(l as nat)
                };
                if l < 0 {
                    lemma_digits_no_mark((-(l as int)) as nat);
                } else {
                    lemma_digits_no_mark(l as nat);
                }
                assert(!lim.contains('?')) by {
                    if lim.contains('?') {
                        let k = choose|k: int| 0 <= k < lim.len() && lim[k] == '?';
                        if l < 0 {
                            assert(lim == " LIMIT "@ + "-"@ + digits);
                            if k >= 8 {
                                assert(digits[k - 8] == '?');
                            }
                        } else {
                            assert(lim == " LIMIT "@ + digits);
                            if k >= 7 {
                                assert(digits[k - 7] == '?');
                            }
                        }
                    }
                }
                lemma_count_absent(lim, '?');
            },
            None => {
                lemma_count_absent(lim, '?');
            },
        }
    }
    lemma_count_concat(base, acc_part, '?');
    lemma_count_concat(base + acc_part, st_part, '?');
    lemma_count_concat(base + acc_part + st_part, order, '?');
    lemma_count_concat(base + acc_part + st_part + order, lim, '?');
}

/// The query counting the pending action items of `n` threads.
pub fn action_counts_sql(n: usize) -> (r: String)
    ensures
        r@ == action_counts_text(n as nat),
{
    let mut out = chars_of(
        "SELECT thread_id, COUNT(*) as count FROM action_items WHERE status = 'pending' AND thread_id IN (",
    );
    let ghost start = out@;
    let mut i: usize = 0;
    while i < n
        invariant
            i <= n,
            out@ == start + numbered_placeholders(i as nat),
        decreases n - i,
    {
        if i == 0 {
            push_str(&mut out, "?1");
        } else {
            push_str(&mut out, ",?");
            push_str(&mut out, decimal_string((i + 1) as u64).as_str());
        }
        proof {
            reveal_strlit("?1");
            if i == 0 {
                assert(numbered_placeholders(1) == "?1"@);
            }
        }
        i = i + 1;
    }
    push_str(&mut out, ") GROUP BY thread_id");
    string_of(out.as_slice())
}

/// The action-item listing query for optional account, status and limit
/// filters, newest first, with its bound values.
pub fn action_items_query(account_id: &Option<String>, status: &Option<String>, limit: Option<i32>) -> (r:
    (String, Vec<String>))
    ensures
        r.0@ == action_items_sql(account_id is Some, status is Some, limit),
        r.1@.map_values(|s: String| s@) == match opt_view(*account_id) {
            Some(a) => seq![a],
            None => Seq::empty(),
        } + match opt_view(*status) {
            Some(s) => seq![s],
            None => Seq::empty(),
        },
{
    let mut sql = chars_of(
        "SELECT a.id, a.account_id, a.thread_id, a.message_id, a.description, a.assignee, a.deadline, a.confidence, a.status, a.created_at, a.completed_at, t.subject AS thread_subject, t.sender AS thread_sender FROM action_items a LEFT JOIN threads t ON a.thread_id = t.id WHERE 1=1",
    );
    let ghost s0 = sql@;
    let mut binds: Vec<String> = Vec::new();
    match account_id {
        Some(a) => {
            push_str(&mut sql, " AND a.account_id = ?");
            binds.push(a.clone());
        },
        None => {},
    }
    let ghost s1 = sql@;
    match status {
        Some(s) => {
            push_str(&mut sql, " AND a.status = ?");
            binds.push(s.clone());
        },
        None => {},
    }
    let ghost s2 = sql@;
    push_str(&mut sql, " ORDER BY a.created_at DESC");
    match limit {
        Some(l) => {
            push_str(&mut sql, " LIMIT ");
            push_str(&mut sql, signed_string(l).as_str());
        },
        None => {},
    }
    assert(sql@ =~= action_items_sql(account_id is Some, status is Some, limit));
    assert(binds@.map_values(|s: String| s@) =~= match opt_view(*account_id) {
        Some(a) => seq![a],
        None => Seq::<Seq<char>>::empty(),
    } + match opt_view(*status) {
        Some(s) => seq![s],
        None => Seq::<Seq<char>>::empty(),
    });
    (string_of(sql.as_slice()), binds)
}

} // verus!
