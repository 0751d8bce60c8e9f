//! Search: suggestions while typing, the recent-search list, and the plan
//! of the local message search.

use crate::query::{opt_view, ParsedQuery, ParsedQueryView};
use crate::sender::{address_name, display_part, recipient_display, sender_display};
use crate::text::{
    chars_of, contains, contains_seq, count_char, count_in_all, join, lemma_count_absent,
    lemma_count_concat, lemma_count_join, lemma_count_single, lowercase, push_all, push_str,
    remove_char, split, split_char, str_eq, string_of, to_lowercase, trim, trim_chars,
    without_char,
};
use vstd::prelude::*;

verus! {

/// A search-box suggestion.
#[derive(Debug)]
pub struct SearchSuggestion {
    pub kind: String,
    pub text: String,
    pub detail: String,
}

/// How many threads of an account are listed and how many have their
/// messages downloaded.
#[derive(Debug)]
pub struct HydrationProgress {
    pub total: usize,
    pub hydrated: usize,
}

/// Abstract suggestion: (kind, text, detail).
pub open spec fn suggestion_view(s: SearchSuggestion) -> (Seq<char>, Seq<char>, Seq<char>) {
    (s.kind@, s.text@, s.detail@)
}

pub open spec fn suggestions_view(v: Seq<SearchSuggestion>) -> Seq<(Seq<char>, Seq<char>, Seq<char>)> {
    v.map_values(|s: SearchSuggestion| suggestion_view(s))
}

pub open spec fn string_views(v: Seq<String>) -> Seq<Seq<char>> {
    v.map_values(|s: String| s@)
}

/// The SQL `LIKE` pattern matching any text that contains `v`.
pub open spec fn like_pattern_of(v: Seq<char>) -> Seq<char> {
    "%"@ + v + "%"@
}

/// Builds the `LIKE` pattern for a text.
pub fn like_pattern(v: &str) -> (r: String)
    ensures
        r@ == like_pattern_of(v@),
{
    let mut out = chars_of("%");
    push_str(&mut out, v);
    push_str(&mut out, "%");
    string_of(out.as_slice())
}

/// The lookups a suggestion request makes.
#[derive(Debug, PartialEq, Eq)]
pub enum SuggestionSource {
    /// Senders matching the typed value (`from:`), at most 8.
    Senders,
    /// Recipient lists matching it (`to:`), at most 20.
    Recipients,
    /// Subjects matching it (`subject:`), at most 8.
    Subjects,
    /// Nothing: an operator with nothing typed after it.
    Nothing,
    /// Recent searches, and, once two bytes are typed, 5 senders and 3
    /// subjects matching the whole query.
    General,
}

/// Which lookups a suggestion request makes.
pub fn suggestion_source(operator: &Option<String>, value: &str) -> (r: SuggestionSource)
    ensures
        r == match opt_view(*operator) {
            Some(op) => if op == "from"@ || op == "to"@ || op == "subject"@ {
                if value@.len() == 0 {
                    SuggestionSource::Nothing
                } else if op == "from"@ {
                    SuggestionSource::Senders
                } else if op == "to"@ {
                    SuggestionSource::Recipients
                } else {
                    SuggestionSource::Subjects
                }
            } else {
                SuggestionSource::General
            },
            None => SuggestionSource::General,
        },
{
    match operator {
        Some(op) => {
            let is_from = str_eq(op.as_str(), "from");
            let is_to = str_eq(op.as_str(), "to");
            let is_subject = str_eq(op.as_str(), "subject");
            if is_from || is_to || is_subject {
                if value.is_empty() {
                    SuggestionSource::Nothing
                } else if is_from {
                    SuggestionSource::Senders
                } else if is_to {
                    SuggestionSource::Recipients
                } else {
                    SuggestionSource::Subjects
                }
            } else {
                SuggestionSource::General
            }
        },
        None => SuggestionSource::General,
    }
}

fn suggestion(kind: &str, text: String, detail: String) -> (r: SearchSuggestion)
    ensures
        suggestion_view(r) == (kind@, text@, detail@),
{
    SearchSuggestion { kind: kind.to_owned(), text, detail }
}

/// `from:` suggestions: each matching sender shown by its name part.
pub open spec fn sender_suggestions_of(senders: Seq<Seq<char>>) -> Seq<(Seq<char>, Seq<char>, Seq<char>)> {
    senders.map_values(|s: Seq<char>| ("contact"@, display_part(s), s))
}

/// Suggests the senders found for a `from:` value.
pub fn sender_suggestions(senders: &Vec<String>) -> (r: Vec<SearchSuggestion>)
    ensures
        suggestions_view(r@) == sender_suggestions_of(string_views(senders@)),
{
    let ghost sv = string_views(senders@);
    let mut out: Vec<SearchSuggestion> = Vec::new();
    let mut i: usize = 0;
    while i < senders.len()
        invariant
            i <= senders@.len(),
            sv == string_views(senders@),
            suggestions_view(out@) == sender_suggestions_of(sv.take(i as int)),
        decreases senders.len() - i,
    {
        let s = &senders[i];
        let cs = chars_of(s.as_str());
        let shown = sender_display(cs.as_slice());
        let ghost prev = suggestions_view(out@);
        out.push(suggestion("contact", string_of(shown.as_slice()), s.clone()));
        assert(suggestions_view(out@) =~= prev.push(("contact"@, display_part(sv[i as int]), sv[i as int])));
        assert(sender_suggestions_of(sv.take(i + 1)) =~= sender_suggestions_of(sv.take(i as int)).push(
            ("contact"@, display_part(sv[i as int]), sv[i as int]),
        ));
        i = i + 1;
    }
    assert(sv.take(sv.len() as int) =~= sv);
    out
}

/// `subject:` suggestions: each matching subject, no detail.
pub open spec fn subject_suggestions_of(subjects: Seq<Seq<char>>) -> Seq<(Seq<char>, Seq<char>, Seq<char>)> {
    subjects.map_values(|s: Seq<char>| ("subject"@, s, Seq::<char>::empty()))
}

/// Suggests the subjects found for a `subject:` value.
pub fn subject_suggestions(subjects: &Vec<String>) -> (r: Vec<SearchSuggestion>)
    ensures
        suggestions_view(r@) == subject_suggestions_of(string_views(subjects@)),
{
    let ghost sv = string_views(subjects@);
    let mut out: Vec<SearchSuggestion> = Vec::new();
    let mut i: usize = 0;
    while i < subjects.len()
        invariant
            i <= subjects@.len(),
            sv == string_views(subjects@),
            suggestions_view(out@) == subject_suggestions_of(sv.take(i as int)),
        decreases subjects.len() - i,
    {
        let ghost prev = suggestions_view(out@);
        out.push(suggestion("subject", subjects[i].clone(), string_of(Vec::<char>::new().as_slice())));
        assert(suggestions_view(out@) =~= prev.push(("subject"@, sv[i as int], Seq::<char>::empty())));
        assert(subject_suggestions_of(sv.take(i + 1)) =~= subject_suggestions_of(sv.take(i as int)).push(
            ("subject"@, sv[i as int], Seq::<char>::empty()),
        ));
        i = i + 1;
    }
    assert(sv.take(sv.len() as int) =~= sv);
    out
}

/// The recipients of the matching recipient lists, in order: each list
/// split at commas.
pub open spec fn recipient_pieces(rows: Seq<Seq<char>>) -> Seq<Seq<char>>
    decreases rows.len(),
{
    if rows.len() == 0 {
        Seq::empty()
    } else {
        recipient_pieces(rows.drop_last()) + split_char(rows.last(), ',')
    }
}

/// One recipient of a `to:` lookup: once 8 suggestions are made nothing
/// more is added; a trimmed recipient that is non-empty, contains the
/// typed value ignoring case and was not suggested yet becomes a
/// suggestion showing its name.
pub open spec fn to_step(
    st: (Seq<Seq<char>>, Seq<(Seq<char>, Seq<char>, Seq<char>)>),
    piece: Seq<char>,
    value: Seq<char>,
) -> (Seq<Seq<char>>, Seq<(Seq<char>, Seq<char>, Seq<char>)>) {
    let p = trim(piece);
    if st.1.len() >= 8 || p.len() == 0 || !contains_seq(lowercase(p), lowercase(value))
        || st.0.contains(p) {
        st
    } else {
        (st.0.push(p), st.1.push(("contact"@, address_name(p), p)))
    }
}

pub open spec fn to_run(pieces: Seq<Seq<char>>, value: Seq<char>) -> (
    Seq<Seq<char>>,
    Seq<(Seq<char>, Seq<char>, Seq<char>)>,
)
    decreases pieces.len(),
{
    if pieces.len() == 0 {
        (Seq::empty(), Seq::empty())
    } else {
        to_step(to_run(pieces.drop_last(), value), pieces.last(), value)
    }
}

/// `to:` suggestions from the matching recipient lists.
pub open spec fn recipient_suggestions_of(rows: Seq<Seq<char>>, value: Seq<char>) -> Seq<
    (Seq<char>, Seq<char>, Seq<char>),
> {
    to_run(recipient_pieces(rows), value).1
}

proof fn lemma_to_run_full(pieces: Seq<Seq<char>>, k: int, value: Seq<char>)
    requires
        0 <= k <= pieces.len(),
        to_run(pieces.take(k), value).1.len() >= 8,
    ensures
        to_run(pieces, value) == to_run(pieces.take(k), value),
    decreases pieces.len() - k,
{
    if k < pieces.len() {
        assert(pieces.take(k + 1).drop_last() =~= pieces.take(k));
        lemma_to_run_full(pieces, k + 1, value);
    } else {
        assert(pieces.take(k) =~= pieces);
    }
}

proof fn lemma_to_run_len(pieces: Seq<Seq<char>>, value: Seq<char>)
    ensures
        to_run(pieces, value).1.len() <= 8,
        to_run(pieces, value).1.len() <= pieces.len(),
    decreases pieces.len(),
{
    if pieces.len() > 0 {
        lemma_to_run_len(pieces.drop_last(), value);
    }
}

/// What every run of `to_step` keeps: the suggested addresses are the
/// details of the suggestions, in order, none twice, each non-empty and
/// containing the typed value without regard to case, each suggestion a
/// contact, and at most eight of them.
proof fn lemma_to_run_props(pieces: Seq<Seq<char>>, value: Seq<char>)
    ensures
        to_run(pieces, value).1.len() == to_run(pieces, value).0.len(),
        to_run(pieces, value).1.len() <= 8,
        forall|i: int|
            0 <= i < to_run(pieces, value).1.len() ==> {
                let sg = #[trigger] to_run(pieces, value).1[i];
                &&& sg.0 == "contact"@
                &&& sg.2 == to_run(pieces, value).0[i]
                &&& sg.2.len() > 0
                &&& contains_seq(lowercase(sg.2), lowercase(value))
            },
        forall|i: int, j: int|
            0 <= i < j < to_run(pieces, value).0.len() ==> to_run(pieces, value).0[i]
                != to_run(pieces, value).0[j],
    decreases pieces.len(),
{
    if pieces.len() > 0 {
        lemma_to_run_props(pieces.drop_last(), value);
        let st = to_run(pieces.drop_last(), value);
        let p = trim(pieces.last());
        let r = to_run(pieces, value);
        if !(st.1.len() >= 8 || p.len() == 0 || !contains_seq(lowercase(p), lowercase(value))
            || st.0.contains(p)) {
            assert(r.0 == st.0.push(p));
            assert(r.1 == st.1.push(("contact"@, address_name(p), p)));
            assert forall|i: int, j: int| 0 <= i < j < r.0.len() implies r.0[i] != r.0[j] by {
                if j == r.0.len() - 1 {
                    assert(st.0[i] == r.0[i]);
                    assert(!st.0.contains(p));
                }
            }
            assert forall|i: int| 0 <= i < r.1.len() implies {
                let sg = #[trigger] r.1[i];
                &&& sg.0 == "contact"@
                &&& sg.2 == r.0[i]
                &&& sg.2.len() > 0
                &&& contains_seq(lowercase(sg.2), lowercase(value))
            } by {
                if i < st.1.len() {
                    assert(r.1[i] == st.1[i]);
                    assert(r.0[i] == st.0[i]);
                }
            }
        }
    }
}

/// Recipient suggestions for a `to:` value: at most eight, each a contact,
/// no address suggested twice, and each address non-empty and containing
/// the typed value without regard to case.
pub proof fn law_recipient_suggestions(rows: Seq<Seq<char>>, value: Seq<char>)
    ensures
        recipient_suggestions_of(rows, value).len() <= 8,
        forall|i: int|
            0 <= i < recipient_suggestions_of(rows, value).len() ==> {
                let sg = #[trigger] recipient_suggestions_of(rows, value)[i];
                &&& sg.0 == "contact"@
                &&& sg.2.len() > 0
                &&& contains_seq(lowercase(sg.2), lowercase(value))
            },
        forall|i: int, j: int|
            0 <= i < j < recipient_suggestions_of(rows, value).len() ==> recipient_suggestions_of(
                rows,
                value,
            )[i].2 != recipient_suggestions_of(rows, value)[j].2,
{
    let pieces = recipient_pieces(rows);
    lemma_to_run_props(pieces, value);
    let r = to_run(pieces, value);
    assert forall|i: int, j: int| 0 <= i < j < r.1.len() implies r.1[i].2 != r.1[j].2 by {
        assert(r.1[i].2 == r.0[i]);
        assert(r.1[j].2 == r.0[j]);
    }
}

fn seen_before(seen: &Vec<Vec<char>>, p: &Vec<char>) -> (r: bool)
    ensures
        r == seen@.map_values(|v: Vec<char>| v@).contains(p@),
{
    let ghost sv = seen@.map_values(|v: Vec<char>| v@);
    let mut i: usize = 0;
    while i < seen.len()
        invariant
            i <= seen@.len(),
            sv == seen@.map_values(|v: Vec<char>| v@),
            forall|k: int| 0 <= k < i ==> sv[k] != p@,
        decreases seen.len() - i,
    {
        if crate::text::eq_chars(seen[i].as_slice(), p.as_slice()) {
            assert(sv[i as int] == p@);
            return true;
        }
        i = i + 1;
    }
    false
}

/// Suggests recipients for a `to:` value from the matching recipient
/// lists.
pub fn recipient_suggestions(rows: &Vec<String>, value: &str) -> (r: Vec<SearchSuggestion>)
    ensures
        suggestions_view(r@) == recipient_suggestions_of(string_views(rows@), value@),
{
    let ghost rv = string_views(rows@);
    let vcs = chars_of(value);
    let lv = to_lowercase(vcs.as_slice());
    let mut seen: Vec<Vec<char>> = Vec::new();
    let mut out: Vec<SearchSuggestion> = Vec::new();
    let mut i: usize = 0;
    while i < rows.len()
        invariant
            i <= rows@.len(),
            rv == string_views(rows@),
            lv@ == lowercase(value@),
            (seen@.map_values(|v: Vec<char>| v@), suggestions_view(out@)) == to_run(
                recipient_pieces(rv.take(i as int)),
                value@,
            ),
        decreases rows.len() - i,
    {
        assert(rv.take(i + 1).drop_last() =~= rv.take(i as int));
        let ghost done = recipient_pieces(rv.take(i as int));
        let rcs = chars_of(rows[i].as_str());
        let pieces = split(rcs.as_slice(), ',');
        let ghost pv = split_char(rv[i as int], ',');
        let mut j: usize = 0;
        while j < pieces.len()
            invariant
                j <= pieces@.len(),
                pieces@.len() == pv.len(),
                forall|k: int| 0 <= k < pieces@.len() ==> #[trigger] pieces@[k]@ == pv[k],
                lv@ == lowercase(value@),
                (seen@.map_values(|v: Vec<char>| v@), suggestions_view(out@)) == to_run(
                    done + pv.take(j as int),
                    value@,
                ),
            decreases pieces.len() - j,
        {
            assert((done + pv.take(j + 1)).drop_last() =~= done + pv.take(j as int));
            assert((done + pv.take(j + 1)).last() == pieces@[j as int]@);
            let p = trim_chars(pieces[j].as_slice());
            if out.len() < 8 && p.len() > 0 {
                let lp = to_lowercase(p.as_slice());
                if contains(lp.as_slice(), lv.as_slice()) && !seen_before(&seen, &p) {
                    let shown = recipient_display(p.as_slice());
                    let detail = string_of(p.as_slice());
                    let ghost prev_seen = seen@.map_values(|v: Vec<char>| v@);
                    let ghost prev_out = suggestions_view(out@);
                    let ghost pp = p@;
                    seen.push(p);
                    out.push(suggestion("contact", string_of(shown.as_slice()), detail));
                    assert(seen@.map_values(|v: Vec<char>| v@) =~= prev_seen.push(pp));
                    assert(suggestions_view(out@) =~= prev_out.push(("contact"@, address_name(pp), pp)));
                }
            }
            j = j + 1;
        }
        assert(pv.take(pv.len() as int) =~= pv);
        i = i + 1;
    }
    assert(rv.take(rv.len() as int) =~= rv);
    out
}

/// The recent-search list kept in the settings, as JSON text.
pub uninterp spec fn json_string_list(text: Seq<char>) -> Option<Seq<Seq<char>>>;

/// The JSON text of a list of strings.
pub uninterp spec fn string_list_json(list: Seq<Seq<char>>) -> Seq<char>;

/// Reads a JSON array of strings with `serde_json::from_str::<Vec<String>>`;
/// none when the text is not one.
#[verifier::external_body]
fn read_string_list(text: &str) -> (r: Option<Vec<String>>)
    ensures
        match r {
            Some(v) => json_string_list(text@) == Some(string_views(v@)),
            None => json_string_list(text@) is None,
        },
{
    serde_json::from_str::<Vec<String>>(text).ok()
}

/// Writes a list of strings with `serde_json::to_string`, which cannot fail
/// for strings; the text reads back as the same list.
#[verifier::external_body]
fn write_string_list(list: &Vec<String>) -> (r: String)
    ensures
        r@ == string_list_json(string_views(list@)),
        json_string_list(r@) == Some(string_views(list@)),
{
    serde_json::to_string(list).unwrap_or_default()
}

/// The recent searches stored in the settings (none stored, or not a
/// list: none).
pub open spec fn recents_of(stored: Option<Seq<char>>) -> Seq<Seq<char>> {
    match stored {
        Some(t) => match json_string_list(t) {
            Some(l) => l,
            None => Seq::empty(),
        },
        None => Seq::empty(),
    }
}

/// Default-mode recent-search suggestions: the first five recent searches
/// that contain the query ignoring case (all five when it is empty).
pub open spec fn recent_suggestions_of(recents: Seq<Seq<char>>, query: Seq<char>) -> Seq<
    (Seq<char>, Seq<char>, Seq<char>),
> {
    recents.take(if recents.len() < 5 {
        recents.len() as int
    } else {
        5
    }).filter(|r: Seq<char>| query.len() == 0 || contains_seq(lowercase(r), lowercase(query))).map_values(
        |r: Seq<char>| ("recent"@, r, "Recent search"@),
    )
}

/// Suggests recent searches for a query.
pub fn recent_suggestions(stored: &Option<String>, query: &str) -> (r: Vec<SearchSuggestion>)
    ensures
        suggestions_view(r@) == recent_suggestions_of(recents_of(opt_view(*stored)), query@),
{
    let recents: Vec<String> = match stored {
        Some(t) => match read_string_list(t.as_str()) {
            Some(l) => l,
            None => Vec::new(),
        },
        None => Vec::new(),
    };
    let ghost rv = string_views(recents@);
    assert(rv == recents_of(opt_view(*stored)));
    let n: usize = if recents.len() < 5 {
        recents.len()
    } else {
        5
    };
    let ghost head = rv.take(n as int);
    let ghost keep = |r: Seq<char>| query@.len() == 0 || contains_seq(lowercase(r), lowercase(query@));
    let qc = chars_of(query);
    let lq = to_lowercase(qc.as_slice());
    let mut out: Vec<SearchSuggestion> = Vec::new();
    let mut i: usize = 0;
    while i < n
        invariant
            n <= recents@.len(),
            i <= n,
            rv == string_views(recents@),
            head == rv.take(n as int),
            lq@ == lowercase(query@),
            qc@ == query@,
            keep == (|r: Seq<char>| query@.len() == 0 || contains_seq(lowercase(r), lowercase(query@))),
            suggestions_view(out@) == head.take(i as int).filter(keep).map_values(
                |r: Seq<char>| ("recent"@, r, "Recent search"@),
            ),
        decreases n - i,
    {
        proof {
            reveal_with_fuel(Seq::<_>::filter, 1);
            assert(head.take(i + 1).drop_last() =~= head.take(i as int));
        }
        let rc = chars_of(recents[i].as_str());
        let lr = to_lowercase(rc.as_slice());
        if qc.len() == 0 || contains(lr.as_slice(), lq.as_slice()) {
            let ghost prev = suggestions_view(out@);
            out.push(suggestion("recent", recents[i].clone(), "Recent search".to_owned()));
            assert(suggestions_view(out@) =~= prev.push(("recent"@, rv[i as int], "Recent search"@)));
            assert(head.take(i + 1).filter(keep) =~= head.take(i as int).filter(keep).push(rv[i as int]));
        } else {
            assert(head.take(i + 1).filter(keep) =~= head.take(i as int).filter(keep));
        }
        i = i + 1;
    }
    assert(head.take(n as int) =~= head);
    out
}

/// Whether a general suggestion request also looks up senders and
/// subjects: once the query is at least two bytes long.
pub fn wants_lookups(full_query: &str) -> (r: bool)
    ensures
        r == (crate::ical::utf8_len(full_query@) >= 2),
{
    full_query.len() >= 2
}

/// General suggestions from the senders and subjects matching the whole
/// query: `from:` and `subject:` queries to complete.
pub open spec fn general_suggestions_of(senders: Seq<Seq<char>>, subjects: Seq<Seq<char>>) -> Seq<
    (Seq<char>, Seq<char>, Seq<char>),
> {
    senders.map_values(|s: Seq<char>| ("contact"@, "from:"@ + display_part(s), s))
        + subjects.map_values(|s: Seq<char>| ("subject"@, "subject:"@ + s, s))
}

/// Suggests `from:` and `subject:` queries from the senders and subjects
/// found for the whole query.
pub fn general_suggestions(senders: &Vec<String>, subjects: &Vec<String>) -> (r: Vec<
    SearchSuggestion,
>)
    ensures
        suggestions_view(r@) == general_suggestions_of(string_views(senders@), string_views(subjects@)),
{
    let ghost sv = string_views(senders@);
    let ghost tv = string_views(subjects@);
    let mut out: Vec<SearchSuggestion> = Vec::new();
    let mut i: usize = 0;
    while i < senders.len()
        invariant
            i <= senders@.len(),
            sv == string_views(senders@),
            suggestions_view(out@) == sv.take(i as int).map_values(
                |s: Seq<char>| ("contact"@, "from:"@ + display_part(s), s),
            ),
        decreases senders.len() - i,
    {
        let cs = chars_of(senders[i].as_str());
        let shown = sender_display(cs.as_slice());
        let mut text = chars_of("from:");
        push_all(&mut text, shown.as_slice());
        let ghost prev = suggestions_view(out@);
        out.push(suggestion("contact", string_of(text.as_slice()), senders[i].clone()));
        assert(suggestions_view(out@) =~= prev.push(("contact"@, "from:"@ + display_part(sv[i as int]), sv[i as int])));
        assert(sv.take(i + 1).map_values(|s: Seq<char>| ("contact"@, "from:"@ + display_part(s), s))
            =~= sv.take(i as int).map_values(|s: Seq<char>| ("contact"@, "from:"@ + display_part(s), s)).push(
            ("contact"@, "from:"@ + display_part(sv[i as int]), sv[i as int]),
        ));
        i = i + 1;
    }
    assert(sv.take(sv.len() as int) =~= sv);
    let ghost mid = suggestions_view(out@);
    let mut j: usize = 0;
    while j < subjects.len()
        invariant
            j <= subjects@.len(),
            tv == string_views(subjects@),
            suggestions_view(out@) == mid + tv.take(j as int).map_values(
                |s: Seq<char>| ("subject"@, "subject:"@ + s, s),
            ),
        decreases subjects.len() - j,
    {
        let mut text = chars_of("subject:");
        push_str(&mut text, subjects[j].as_str());
        let ghost prev = suggestions_view(out@);
        out.push(suggestion("subject", string_of(text.as_slice()), subjects[j].clone()));
        assert(suggestions_view(out@) =~= prev.push(("subject"@, "subject:"@ + tv[j as int], tv[j as int])));
        assert(tv.take(j + 1).map_values(|s: Seq<char>| ("subject"@, "subject:"@ + s, s)) =~= tv.take(
            j as int,
        ).map_values(|s: Seq<char>| ("subject"@, "subject:"@ + s, s)).push(
            ("subject"@, "subject:"@ + tv[j as int], tv[j as int]),
        ));
        j = j + 1;
    }
    assert(tv.take(tv.len() as int) =~= tv);
    out
}

/// The test "is not `q`".
pub open spec fn other_than(q: Seq<char>) -> spec_fn(Seq<char>) -> bool {
    |r: Seq<char>| r != q
}

/// The recent-search list after searching for `query`: the query first,
/// then the earlier searches other than it, at most ten in all.
pub open spec fn recents_after(old: Seq<Seq<char>>, query: Seq<char>) -> Seq<Seq<char>> {
    let l = seq![query] + old.filter(other_than(query));
    l.take(if l.len() < 10 {
        l.len() as int
    } else {
        10
    })
}

/// The settings value that records a search: the updated list as JSON.
pub fn record_recent_search(stored: &Option<String>, query: &str) -> (r: String)
    ensures
        r@ == string_list_json(recents_after(recents_of(opt_view(*stored)), query@)),
        json_string_list(r@) == Some(recents_after(recents_of(opt_view(*stored)), query@)),
{
    let recents: Vec<String> = match stored {
        Some(t) => match read_string_list(t.as_str()) {
            Some(l) => l,
            None => Vec::new(),
        },
        None => Vec::new(),
    };
    let ghost rv = string_views(recents@);
    let ghost keep = other_than(query@);
    let mut out: Vec<String> = Vec::new();
    out.push(query.to_owned());
    let mut i: usize = 0;
    while i < recents.len()
        invariant
            i <= recents@.len(),
            rv == string_views(recents@),
            keep == other_than(query@),
            string_views(out@) == seq![query@] + rv.take(i as int).filter(keep),
        decreases recents.len() - i,
    {
        proof {
            reveal_with_fuel(Seq::<_>::filter, 1);
            assert(rv.take(i + 1).drop_last() =~= rv.take(i as int));
        }
        if !str_eq(recents[i].as_str(), query) {
            let ghost prev = string_views(out@);
            out.push(recents[i].clone());
            assert(string_views(out@) =~= prev.push(rv[i as int]));
        }
        i = i + 1;
    }
    assert(rv.take(rv.len() as int) =~= rv);
    out.truncate(10);
    assert(string_views(out@) =~= recents_after(rv, query@));
    write_string_list(&out)
}

/// Recording a search puts it first, keeps it once, keeps at most ten
/// entries, and keeps the earlier searches other than it in their order.
pub proof fn law_recent_searches(old: Seq<Seq<char>>, query: Seq<char>)
    ensures
        recents_after(old, query).len() <= 10,
        recents_after(old, query)[0] == query,
        forall|i: int| 0 < i < recents_after(old, query).len() ==> recents_after(old, query)[i] != query,
        recents_after(old, query).drop_first() == old.filter(other_than(query)).take(
            recents_after(old, query).len() - 1,
        ),
{
    let f = old.filter(other_than(query));
    let l = seq![query] + f;
    let n: int = if l.len() < 10 {
        l.len() as int
    } else {
        10
    };
    assert(recents_after(old, query) == l.take(n));
    assert forall|i: int| 0 < i < n implies l.take(n)[i] != query by {
        assert(l[i] == f[i - 1]);
        old.lemma_filter_pred(other_than(query), i - 1);
    }
    assert(l.take(n).drop_first() =~= f.take(n - 1));
}

/// What the local search runs for a parsed query.
#[derive(Debug)]
pub struct SearchPlan {
    /// The operator query (SQL and bound values), when the query has
    /// operators.
    pub operator_query: Option<(String, Vec<String>)>,
    /// The full-text query and the `LIKE` pattern, when there is free text.
    pub free_text: Option<(String, String)>,
}

/// The operator conditions of a query and their bound values.
pub open spec fn operator_conditions(q: ParsedQueryView, account_id: Seq<char>) -> (
    Seq<Seq<char>>,
    Seq<Seq<char>>,
) {
    let c0: (Seq<Seq<char>>, Seq<Seq<char>>) = (seq!["m.account_id = ?"@], seq![account_id]);
    let c1 = match q.from {
        Some(f) => (c0.0.push("m.sender LIKE ?"@), c0.1.push(like_pattern_of(f))),
        None => c0,
    };
    let c2 = match q.to {
        Some(t) => (c1.0.push("m.recipients LIKE ?"@), c1.1.push(like_pattern_of(t))),
        None => c1,
    };
    let c3 = match q.subject {
        Some(s) => (c2.0.push("m.subject LIKE ?"@), c2.1.push(like_pattern_of(s))),
        None => c2,
    };
    let c4 = if q.has_attachment {
        (c3.0.push("m.has_attachments = 1"@), c3.1)
    } else {
        c3
    };
    match q.is_unread {
        Some(u) => (c4.0.push("m.is_read = ?"@), c4.1.push(if u {
            "0"@
        } else {
            "1"@
        })),
        None => c4,
    }
}

/// Whether a parsed query has any operator.
pub open spec fn has_operators(q: ParsedQueryView) -> bool {
    q.from is Some || q.to is Some || q.subject is Some || q.has_attachment || q.is_unread is Some
}

/// The SQL of the operator search for some conditions.
pub open spec fn operator_sql(conditions: Seq<Seq<char>>) -> Seq<char> {
    "SELECT DISTINCT m.thread_id FROM messages m WHERE "@ + join(conditions, " AND "@) + " LIMIT 50"@
}

/// The full-text query for free text: without double quotes, as a prefix
/// match.
pub open spec fn fts_query_of(free: Seq<char>) -> Seq<char> {
    remove_char(free, '"') + "*"@
}

proof fn lemma_one_placeholder(cond: Seq<char>)
    requires
        cond.len() > 0,
        cond.last() == '?',
        !cond.drop_last().contains('?'),
    ensures
        count_char(cond, '?') == 1,
{
    lemma_count_absent(cond.drop_last(), '?');
}

/// Every placeholder of the operator search is bound: the query has as
/// many placeholders as bound values.
pub proof fn law_search_plan_placeholders(q: ParsedQueryView, account_id: Seq<char>)
    ensures
        count_char(operator_sql(operator_conditions(q, account_id).0), '?')
            == operator_conditions(q, account_id).1.len(),
{
    let head = "SELECT DISTINCT m.thread_id FROM messages m WHERE "@;
    let tail = " LIMIT 50"@;
    let sep = " AND "@;
    reveal_strlit("SELECT DISTINCT m.thread_id FROM messages m WHERE ");
    reveal_strlit(" LIMIT 50");
    reveal_strlit(" AND ");
    reveal_strlit("m.account_id = ?");
    reveal_strlit("m.sender LIKE ?");
    reveal_strlit("m.recipients LIKE ?");
    reveal_strlit("m.subject LIKE ?");
    reveal_strlit("m.has_attachments = 1");
    reveal_strlit("m.is_read = ?");
    lemma_one_placeholder("m.account_id = ?"@);
    lemma_one_placeholder("m.sender LIKE ?"@);
    lemma_one_placeholder("m.recipients LIKE ?"@);
    lemma_one_placeholder("m.subject LIKE ?"@);
    lemma_one_placeholder("m.is_read = ?"@);
    assert(!"m.has_attachments = 1"@.contains('?'));
    lemma_count_absent("m.has_attachments = 1"@, '?');
    let c0: (Seq<Seq<char>>, Seq<Seq<char>>) = (seq!["m.account_id = ?"@], seq![account_id]);
    assert(count_in_all(c0.0, '?') == c0.1.len()) by {
        assert(c0.0.drop_last() =~= Seq::<Seq<char>>::empty());
        assert(count_in_all(c0.0.drop_last(), '?') == 0);
    }
    let c1 = match q.from {
        Some(f) => (c0.0.push("m.sender LIKE ?"@), c0.1.push(like_pattern_of(f))),
        None => c0,
    };
    assert(count_in_all(c1.0, '?') == c1.1.len()) by {
        if q.from is Some {
            assert(c1.0.drop_last() =~= c0.0);
        }
    }
    let c2 = match q.to {
        Some(t) => (c1.0.push("m.recipients LIKE ?"@), c1.1.push(like_pattern_of(t))),
        None => c1,
    };
    assert(count_in_all(c2.0, '?') == c2.1.len()) by {
        if q.to is Some {
            assert(c2.0.drop_last() =~= c1.0);
        }
    }
    let c3 = match q.subject {
        Some(x) => (c2.0.push("m.subject LIKE ?"@), c2.1.push(like_pattern_of(x))),
        None => c2,
    };
    assert(count_in_all(c3.0, '?') == c3.1.len()) by {
        if q.subject is Some {
            assert(c3.0.drop_last() =~= c2.0);
        }
    }
    let c4 = if q.has_attachment {
        (c3.0.push("m.has_attachments = 1"@), c3.1)
    } else {
        c3
    };
    assert(count_in_all(c4.0, '?') == c4.1.len()) by {
        if q.has_attachment {
            assert(c4.0.drop_last() =~= c3.0);
        }
    }
    let c5 = operator_conditions(q, account_id);
    assert(count_in_all(c5.0, '?') == c5.1.len()) by {
        if q.is_unread is Some {
            assert(c5.0 == c4.0.push("m.is_read = ?"@));
            assert(c5.0.drop_last() =~= c4.0);
        } else {
            assert(c5 == c4);
        }
    }
    assert(!sep.contains('?'));
    lemma_count_join(c5.0, sep, '?');
    assert(!head.contains('?'));
    assert(!tail.contains('?'));
    lemma_count_absent(head, '?');
    lemma_count_absent(tail, '?');
    lemma_count_concat(head, join(c5.0, sep), '?');
    lemma_count_concat(head + join(c5.0, sep), tail, '?');
}

fn push_condition(
    conds: &mut Vec<Vec<char>>,
    binds: &mut Vec<String>,
    cond: &str,
    bind: Option<String>,
)
    ensures
        final(conds)@.map_values(|c: Vec<char>| c@) == old(conds)@.map_values(|c: Vec<char>| c@).push(
            cond@,
        ),
        string_views(final(binds)@) == match bind {
            Some(b) => string_views(old(binds)@).push(b@),
            None => string_views(old(binds)@),
        },
{
    let ghost c0 = conds@.map_values(|c: Vec<char>| c@);
    let ghost b0 = string_views(binds@);
    conds.push(chars_of(cond));
    assert(conds@.map_values(|c: Vec<char>| c@) =~= c0.push(cond@));
    match bind {
        Some(b) => {
            binds.push(b);
            assert(string_views(binds@) =~= b0.push(b@));
        },
        None => {},
    }
}

/// Plans the local search of a parsed query for an account.
pub fn plan_local_search(parsed: &ParsedQuery, account_id: &str) -> (r: SearchPlan)
    ensures
        has_operators(parsed@) ==> (r.operator_query matches Some(q) && q.0@ == operator_sql(
            operator_conditions(parsed@, account_id@).0,
        ) && string_views(q.1@) == operator_conditions(parsed@, account_id@).1),
        !has_operators(parsed@) ==> r.operator_query is None,
        parsed@.free_text.len() > 0 ==> (r.free_text matches Some(f) && f.0@ == fts_query_of(
            parsed@.free_text,
        ) && f.1@ == like_pattern_of(parsed@.free_text)),
        parsed@.free_text.len() == 0 ==> r.free_text is None,
{
    let has_ops = parsed.from.is_some() || parsed.to.is_some() || parsed.subject.is_some()
        || parsed.has_attachment || parsed.is_unread.is_some();
    let operator_query = if has_ops {
        let mut conds: Vec<Vec<char>> = Vec::new();
        let mut binds: Vec<String> = Vec::new();
        push_condition(&mut conds, &mut binds, "m.account_id = ?", Some(account_id.to_owned()));
        match &parsed.from {
            Some(f) => push_condition(&mut conds, &mut binds, "m.sender LIKE ?", Some(like_pattern(f.as_str()))),
            None => {},
        }
        match &parsed.to {
            Some(t) => push_condition(&mut conds, &mut binds, "m.recipients LIKE ?", Some(like_pattern(t.as_str()))),
            None => {},
        }
        match &parsed.subject {
            Some(s) => push_condition(&mut conds, &mut binds, "m.subject LIKE ?", Some(like_pattern(s.as_str()))),
            None => {},
        }
        if parsed.has_attachment {
            push_condition(&mut conds, &mut binds, "m.has_attachments = 1", None);
        }
        match parsed.is_unread {
            Some(u) => push_condition(
                &mut conds,
                &mut binds,
                "m.is_read = ?",
                Some(if u {
                    "0".to_owned()
                } else {
                    "1".to_owned()
                }),
            ),
            None => {},
        }
        let ghost want = operator_conditions(parsed@, account_id@);
        assert(conds@.map_values(|c: Vec<char>| c@) =~= want.0);
        assert(string_views(binds@) =~= want.1);
        let joined = crate::text::join_parts(&conds, chars_of(" AND ").as_slice());
        let mut sql = chars_of("SELECT DISTINCT m.thread_id FROM messages m WHERE ");
        push_all(&mut sql, joined.as_slice());
        push_str(&mut sql, " LIMIT 50");
        Some((string_of(sql.as_slice()), binds))
    } else {
        None
    };
    let free_text = if parsed.free_text.as_str().is_empty() {
        None
    } else {
        let fc = chars_of(parsed.free_text.as_str());
        let mut fts = without_char(fc.as_slice(), '"');
        push_str(&mut fts, "*");
        Some((string_of(fts.as_slice()), like_pattern(parsed.free_text.as_str())))
    };
    SearchPlan { operator_query, free_text }
}

/// `acc` followed by the ids of `ids` it does not hold yet, each once, in
/// order.
pub open spec fn add_new(acc: Seq<Seq<char>>, ids: Seq<Seq<char>>) -> Seq<Seq<char>>
    decreases ids.len(),
{
    if ids.len() == 0 {
        acc
    } else {
        let r = add_new(acc, ids.drop_last());
        if r.contains(ids.last()) {
            r
        } else {
            r.push(ids.last())
        }
    }
}

pub open spec fn opt_string_views(v: Seq<Option<String>>) -> Seq<Option<Seq<char>>> {
    v.map_values(|o: Option<String>| opt_view(o))
}

/// The present ids among optional ones, in order.
pub open spec fn present(v: Seq<Option<Seq<char>>>) -> Seq<Seq<char>>
    decreases v.len(),
{
    if v.len() == 0 {
        Seq::empty()
    } else {
        match v.last() {
            Some(x) => present(v.drop_last()).push(x),
            None => present(v.drop_last()),
        }
    }
}

/// Whether no id occurs twice.
pub open spec fn no_repeats(s: Seq<Seq<char>>) -> bool {
    forall|i: int, j: int| 0 <= i < j < s.len() ==> s[i] != s[j]
}

/// Merging ids keeps a list free of repeats, keeps what it held in front,
/// and leaves every merged id in it.
pub proof fn law_add_new(acc: Seq<Seq<char>>, ids: Seq<Seq<char>>)
    requires
        no_repeats(acc),
    ensures
        no_repeats(add_new(acc, ids)),
        add_new(acc, ids).take(acc.len() as int) == acc,
        acc.len() <= add_new(acc, ids).len(),
        forall|i: int| 0 <= i < ids.len() ==> add_new(acc, ids).contains(#[trigger] ids[i]),
    decreases ids.len(),
{
    if ids.len() > 0 {
        law_add_new(acc, ids.drop_last());
        let r = add_new(acc, ids.drop_last());
        if !r.contains(ids.last()) {
            assert forall|i: int, j: int| 0 <= i < j < r.push(ids.last()).len() implies r.push(
                ids.last(),
            )[i] != r.push(ids.last())[j] by {
                if j == r.len() {
                    assert(r.contains(r[i]));
                }
            }
            assert(r.push(ids.last()).take(acc.len() as int) =~= r.take(acc.len() as int));
        }
        assert forall|i: int| 0 <= i < ids.len() implies add_new(acc, ids).contains(#[trigger] ids[i]) by {
            if i < ids.len() - 1 {
                assert(ids.drop_last()[i] == ids[i]);
                assert(r.contains(ids[i]));
                let k = choose|k: int| 0 <= k < r.len() && r[k] == ids[i];
                if !r.contains(ids.last()) {
                    assert(r.push(ids.last())[k] == ids[i]);
                }
            } else {
                if !r.contains(ids.last()) {
                    assert(r.push(ids.last())[r.len() as int] == ids.last());
                }
            }
        }
    } else {
        assert(acc.take(acc.len() as int) =~= acc);
    }
}

/// Appends to `all` the present ids of `ids` that it does not hold yet,
/// each once, in order.
pub fn append_new_ids(all: &mut Vec<String>, ids: Vec<Option<String>>)
    ensures
        string_views(final(all)@) == add_new(
            string_views(old(all)@),
            present(opt_string_views(ids@)),
        ),
{
    let ghost start = string_views(all@);
    let ghost iv = opt_string_views(ids@);
    let mut i: usize = 0;
    while i < ids.len()
        invariant
            i <= ids@.len(),
            iv == opt_string_views(ids@),
            string_views(all@) == add_new(start, present(iv.take(i as int))),
        decreases ids.len() - i,
    {
        assert(iv.take(i + 1).drop_last() =~= iv.take(i as int));
        match &ids[i] {
            Some(id) => {
                let mut k: usize = 0;
                let mut found = false;
                while k < all.len()
                    invariant
                        k <= all@.len(),
                        !found ==> forall|m: int| 0 <= m < k ==> string_views(all@)[m] != id@,
                        found ==> string_views(all@).contains(id@),
                    decreases all.len() - k,
                {
                    if str_eq(all[k].as_str(), id.as_str()) {
                        found = true;
                        assert(string_views(all@)[k as int] == id@);
                    }
                    k = k + 1;
                }
                assert(present(iv.take(i + 1)) =~= present(iv.take(i as int)).push(id@));
                assert(present(iv.take(i + 1)).drop_last() =~= present(iv.take(i as int)));
                if !found {
                    let ghost prev = string_views(all@);
                    all.push(id.clone());
                    assert(string_views(all@) =~= prev.push(id@));
                }
            },
            None => {
                assert(present(iv.take(i + 1)) =~= present(iv.take(i as int)));
            },
        }
        i = i + 1;
    }
    assert(iv.take(iv.len() as int) =~= iv);
}

} // verus!
