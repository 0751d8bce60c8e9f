//! Thread lists: the categories of the inbox, the rows shown in a list, the
//! keys under which remote paging tokens are kept, and the label changes that
//! starring, reading and archiving make.

use crate::query::opt_view;
use crate::sender::{clean_sender_name, clean_sender_spec};
use crate::text::{
    ascii_text, chars_of, eq_chars, lemma_lowercase_ascii_twice, lowercase, push_all, string_of,
    to_lowercase,
};
use vstd::prelude::*;

verus! {

/// The tabs of the inbox.
#[derive(Clone, Copy, PartialEq, Eq, Debug)]
pub enum ThreadCategory {
    Primary,
    Social,
    Promotions,
    Important,
}

/// The category a name denotes, compared without regard to case.
pub open spec fn category_of(s: Seq<char>) -> Option<ThreadCategory> {
    let l = lowercase(s);
    if l == "primary"@ {
        Some(ThreadCategory::Primary)
    } else if l == "social"@ {
        Some(ThreadCategory::Social)
    } else if l == "promotions"@ {
        Some(ThreadCategory::Promotions)
    } else if l == "important"@ {
        Some(ThreadCategory::Important)
    } else {
        None
    }
}

/// The lowercase name of a category.
pub open spec fn category_name(c: ThreadCategory) -> Seq<char> {
    match c {
        ThreadCategory::Primary => "primary"@,
        ThreadCategory::Social => "social"@,
        ThreadCategory::Promotions => "promotions"@,
        ThreadCategory::Important => "important"@,
    }
}

/// Category names are read without regard to case: a name denotes a
/// category exactly when its lowercase form is one of the four category
/// names, and an ASCII name denotes the same category as its lowercase form.
pub proof fn law_category_names(s: Seq<char>)
    ensures
        category_of(s) is Some <==> (lowercase(s) == "primary"@ || lowercase(s) == "social"@
            || lowercase(s) == "promotions"@ || lowercase(s) == "important"@),
        category_of(s) matches Some(c) ==> lowercase(s) == category_name(c),
        ascii_text(s) ==> category_of(lowercase(s)) == category_of(s),
{
    if ascii_text(s) {
        lemma_lowercase_ascii_twice(s);
    }
}

impl ThreadCategory {
    /// Reads a category name such as `Promotions`; case does not matter.
    pub fn from_str(s: &str) -> (r: Option<ThreadCategory>)
        ensures
            r == category_of(s@),
    {
        let l = to_lowercase(chars_of(s).as_slice());
        if eq_chars(l.as_slice(), chars_of("primary").as_slice()) {
            Some(ThreadCategory::Primary)
        } else if eq_chars(l.as_slice(), chars_of("social").as_slice()) {
            Some(ThreadCategory::Social)
        } else if eq_chars(l.as_slice(), chars_of("promotions").as_slice()) {
            Some(ThreadCategory::Promotions)
        } else if eq_chars(l.as_slice(), chars_of("important").as_slice()) {
            Some(ThreadCategory::Important)
        } else {
            None
        }
    }

    /// The lowercase name of this category.
    pub fn name(&self) -> (r: String)
        ensures
            r@ == category_name(*self),
    {
        match self {
            ThreadCategory::Primary => string_of(chars_of("primary").as_slice()),
            ThreadCategory::Social => string_of(chars_of("social").as_slice()),
            ThreadCategory::Promotions => string_of(chars_of("promotions").as_slice()),
            ThreadCategory::Important => string_of(chars_of("important").as_slice()),
        }
    }
}

/// One thread in a list.
pub struct LocalThread {
    pub id: String,
    pub snippet: String,
    pub history_id: String,
    pub unread: i32,
    pub sender: String,
    pub subject: String,
    pub internal_date: i64,
    pub starred: bool,
    pub star_type: Option<String>,
    pub has_attachments: bool,
    pub important: bool,
    pub account_id: String,
}

/// A thread as the database returns it; absent columns are `None`.
pub struct ThreadRow {
    pub id: String,
    pub snippet: Option<String>,
    pub history_id: Option<String>,
    pub unread: Option<i32>,
    pub sender: Option<String>,
    pub subject: Option<String>,
    pub msg_date: Option<i64>,
    pub starred: Option<i32>,
    pub star_type: Option<String>,
    pub has_attachments: Option<i32>,
    pub important: Option<i32>,
    pub account_id: String,
}

/// A text column, empty when absent.
pub open spec fn or_empty(o: Option<Seq<char>>) -> Seq<char> {
    match o {
        Some(s) => s,
        None => Seq::empty(),
    }
}

/// An optional text column with a fallback.
pub open spec fn or_else(o: Option<Seq<char>>, d: Seq<char>) -> Seq<char> {
    match o {
        Some(s) => s,
        None => d,
    }
}

/// An integer column, zero when absent.
pub open spec fn or_zero_i32(o: Option<i32>) -> i32 {
    match o {
        Some(v) => v,
        None => 0,
    }
}

/// A flag column: set exactly when it holds 1.
pub open spec fn flag(o: Option<i32>) -> bool {
    o == Some(1i32)
}

/// How a database row is shown in a thread list.
pub open spec fn thread_matches_row(t: LocalThread, r: ThreadRow) -> bool {
    &&& t.id@ == r.id@
    &&& t.snippet@ == or_empty(opt_view(r.snippet))
    &&& t.history_id@ == or_empty(opt_view(r.history_id))
    &&& t.unread == or_zero_i32(r.unread)
    &&& t.sender@ == clean_sender_spec(opt_view(r.sender))
    &&& t.subject@ == or_else(opt_view(r.subject), "No Subject"@)
    &&& t.internal_date == (match r.msg_date {
        Some(d) => d,
        None => 0,
    })
    &&& t.starred == flag(r.starred)
    &&& opt_view(t.star_type) == opt_view(r.star_type)
    &&& t.has_attachments == flag(r.has_attachments)
    &&& t.important == flag(r.important)
    &&& t.account_id@ == r.account_id@
}

/// A text column, or the empty string.
pub fn text_or_empty(o: Option<String>) -> (r: String)
    ensures
        r@ == or_empty(opt_view(o)),
{
    match o {
        Some(s) => s,
        None => string_of(Vec::<char>::new().as_slice()),
    }
}

/// A text column, or `fallback`.
pub fn text_or(o: Option<String>, fallback: &str) -> (r: String)
    ensures
        r@ == or_else(opt_view(o), fallback@),
{
    match o {
        Some(s) => s,
        None => string_of(chars_of(fallback).as_slice()),
    }
}

/// Builds the list entry for a thread row.
pub fn thread_from_row(r: ThreadRow) -> (t: LocalThread)
    ensures
        thread_matches_row(t, r),
{
    let ghost r0 = r;
    LocalThread {
        id: r.id,
        snippet: text_or_empty(r.snippet),
        history_id: text_or_empty(r.history_id),
        unread: match r.unread {
            Some(v) => v,
            None => 0,
        },
        sender: clean_sender_name(r.sender),
        subject: text_or(r.subject, "No Subject"),
        internal_date: match r.msg_date {
            Some(d) => d,
            None => 0,
        },
        starred: r.starred == Some(1i32),
        star_type: r.star_type,
        has_attachments: r.has_attachments == Some(1i32),
        important: r.important == Some(1i32),
        account_id: r.account_id,
    }
}

/// Builds the list entries for thread rows, in order.
pub fn threads_from_rows(rows: Vec<ThreadRow>) -> (r: Vec<LocalThread>)
    ensures
        r@.len() == rows@.len(),
        forall|i: int| 0 <= i < rows@.len() ==> thread_matches_row(#[trigger] r@[i], rows@[i]),
{
    let ghost orig = rows@;
    let mut rows = rows;
    let mut out: Vec<LocalThread> = Vec::new();
    let mut rev: Vec<ThreadRow> = Vec::new();
    while rows.len() > 0
        invariant
            rev@.len() + rows@.len() == orig.len(),
            forall|i: int| 0 <= i < rows@.len() ==> rows@[i] == orig[i],
            forall|i: int|
                0 <= i < rev@.len() ==> rev@[i] == orig[orig.len() - 1 - i],
        decreases rows.len(),
    {
        let x = rows.pop().unwrap();
        rev.push(x);
    }
    while rev.len() > 0
        invariant
            out@.len() + rev@.len() == orig.len(),
            forall|i: int|
                0 <= i < rev@.len() ==> rev@[i] == orig[orig.len() - 1 - i],
            forall|i: int| 0 <= i < out@.len() ==> thread_matches_row(#[trigger] out@[i], orig[i]),
        decreases rev.len(),
    {
        let x = rev.pop().unwrap();
        let t = thread_from_row(x);
        out.push(t);
    }
    out
}

/// The key of the remote paging token for a list: per category when one is
/// given, otherwise per label, the inbox when no label is given.
pub open spec fn page_token_key_spec(
    account_id: Seq<char>,
    label_id: Option<Seq<char>>,
    category: Option<ThreadCategory>,
) -> Seq<char> {
    match category {
        Some(c) => account_id + ":category:"@ + category_name(c),
        None => match label_id {
            Some(l) => account_id + ":"@ + l,
            None => account_id + ":INBOX"@,
        },
    }
}

/// The key under which the paging token of a thread list is stored.
pub fn page_token_key(
    account_id: &str,
    label_id: Option<&str>,
    category: Option<ThreadCategory>,
) -> (r: String)
    ensures
        r@ == page_token_key_spec(
            account_id@,
            match label_id {
                Some(l) => Some(l@),
                None => None,
            },
            category,
        ),
{
    let mut out = chars_of(account_id);
    match category {
        Some(c) => {
            push_all(&mut out, chars_of(":category:").as_slice());
            let n = c.name();
            push_all(&mut out, chars_of(n.as_str()).as_slice());
        },
        None => match label_id {
            Some(l) => {
                push_all(&mut out, chars_of(":").as_slice());
                push_all(&mut out, chars_of(l).as_slice());
            },
            None => {
                push_all(&mut out, chars_of(":INBOX").as_slice());
            },
        },
    }
    string_of(out.as_slice())
}

} // verus!
