//! Recipient suggestions while composing: stored contacts first, then
//! addresses seen in mail.

use crate::csv::sanitize_fts_query;
use crate::ical::utf8_len;
use crate::query::views;
use crate::sender::{address_email, address_name, split_address};
use crate::text::{
    chars_of, contains, contains_seq, find_char, lowercase, push_str, split, split_char,
    string_of, to_lowercase, trim, trim_chars,
};
use vstd::prelude::*;

verus! {

/// A recipient suggestion: name, address and the text to insert.
#[derive(Debug)]
pub struct ContactSuggestion {
    pub name: String,
    pub email: String,
    pub raw: String,
}

/// Abstract suggestion: (name, email, raw).
pub open spec fn sugg_view(s: ContactSuggestion) -> (Seq<char>, Seq<char>, Seq<char>) {
    (s.name@, s.email@, s.raw@)
}

pub open spec fn suggs_view(v: Seq<ContactSuggestion>) -> Seq<(Seq<char>, Seq<char>, Seq<char>)> {
    v.map_values(|s: ContactSuggestion| sugg_view(s))
}

/// The suggestion for a stored contact address: "name <email>", or the bare
/// address when the contact has no name.
pub open spec fn contact_raw(name: Seq<char>, email: Seq<char>) -> Seq<char> {
    if name.len() == 0 {
        email
    } else {
        name + " <"@ + email + ">"@
    }
}

/// Builds the suggestion for a stored contact address.
pub fn contact_suggestion(name: String, email: String) -> (r: ContactSuggestion)
    ensures
        sugg_view(r) == (name@, email@, contact_raw(name@, email@)),
{
    let raw = if name.as_str().is_empty() {
        email.clone()
    } else {
        let mut out = chars_of(name.as_str());
        push_str(&mut out, " <");
        push_str(&mut out, email.as_str());
        push_str(&mut out, ">");
        string_of(out.as_slice())
    };
    ContactSuggestion { name, email, raw }
}

/// The full-text query for a contact search: the sanitized text quoted, as
/// a prefix match.
pub fn contact_fts_query(query: &str) -> (r: String)
    ensures
        r@ == "\""@ + crate::csv::fts_keep_all(query@) + "\"*"@,
{
    let mut out = chars_of("\"");
    push_str(&mut out, sanitize_fts_query(query).as_str());
    push_str(&mut out, "\"*");
    string_of(out.as_slice())
}

/// The state of an autocomplete: suggestions so far and the lowercased
/// addresses they cover.
pub open spec fn auto_step(
    st: (Seq<(Seq<char>, Seq<char>, Seq<char>)>, Seq<Seq<char>>),
    s: (Seq<char>, Seq<char>, Seq<char>),
) -> (Seq<(Seq<char>, Seq<char>, Seq<char>)>, Seq<Seq<char>>) {
    if st.1.contains(lowercase(s.1)) {
        st
    } else {
        (st.0.push(s), st.1.push(lowercase(s.1)))
    }
}

pub open spec fn auto_run(
    st: (Seq<(Seq<char>, Seq<char>, Seq<char>)>, Seq<Seq<char>>),
    ss: Seq<(Seq<char>, Seq<char>, Seq<char>)>,
) -> (Seq<(Seq<char>, Seq<char>, Seq<char>)>, Seq<Seq<char>>)
    decreases ss.len(),
{
    if ss.len() == 0 {
        st
    } else {
        auto_step(auto_run(st, ss.drop_last()), ss.last())
    }
}

/// Like `auto_run`, but nothing is added once ten suggestions are made.
pub open spec fn auto_run_capped(
    st: (Seq<(Seq<char>, Seq<char>, Seq<char>)>, Seq<Seq<char>>),
    ss: Seq<(Seq<char>, Seq<char>, Seq<char>)>,
) -> (Seq<(Seq<char>, Seq<char>, Seq<char>)>, Seq<Seq<char>>)
    decreases ss.len(),
{
    if ss.len() == 0 {
        st
    } else {
        let prev = auto_run_capped(st, ss.drop_last());
        if prev.0.len() >= 10 {
            prev
        } else {
            auto_step(prev, ss.last())
        }
    }
}

/// A consistent autocomplete state: the covered addresses are the
/// lowercase addresses of the suggestions, none twice.
pub open spec fn auto_consistent(st: (Seq<(Seq<char>, Seq<char>, Seq<char>)>, Seq<Seq<char>>)) -> bool {
    &&& st.1.len() == st.0.len()
    &&& forall|i: int| 0 <= i < st.0.len() ==> #[trigger] st.1[i] == lowercase(st.0[i].1)
    &&& forall|i: int, j: int| 0 <= i < j < st.1.len() ==> st.1[i] != st.1[j]
}

proof fn lemma_auto_step_consistent(
    st: (Seq<(Seq<char>, Seq<char>, Seq<char>)>, Seq<Seq<char>>),
    x: (Seq<char>, Seq<char>, Seq<char>),
)
    requires
        auto_consistent(st),
    ensures
        auto_consistent(auto_step(st, x)),
        auto_step(st, x).0.len() <= st.0.len() + 1,
{
    if !st.1.contains(lowercase(x.1)) {
        let t = auto_step(st, x);
        assert forall|i: int, j: int| 0 <= i < j < t.1.len() implies t.1[i] != t.1[j] by {
            if j == st.1.len() {
                assert(t.1[i] == st.1[i]);
                if st.1[i] == lowercase(x.1) {
                    assert(st.1.contains(lowercase(x.1)));
                }
            } else {
                assert(t.1[i] == st.1[i] && t.1[j] == st.1[j]);
            }
        }
        assert forall|i: int| 0 <= i < t.0.len() implies #[trigger] t.1[i] == lowercase(t.0[i].1) by {
            if i < st.0.len() {
                assert(t.1[i] == st.1[i] && t.0[i] == st.0[i]);
            }
        }
    }
}

/// Suggesting stored contacts and then mail history keeps an autocomplete
/// consistent: each address, ignoring case, is suggested at most once, and
/// history never takes the list past ten suggestions.
pub proof fn law_autocomplete_distinct(
    st: (Seq<(Seq<char>, Seq<char>, Seq<char>)>, Seq<Seq<char>>),
    contacts: Seq<(Seq<char>, Seq<char>, Seq<char>)>,
    history: Seq<(Seq<char>, Seq<char>, Seq<char>)>,
)
    requires
        auto_consistent(st),
    ensures
        auto_consistent(auto_run(st, contacts)),
        auto_consistent(auto_run_capped(auto_run(st, contacts), history)),
        auto_run(st, contacts).0.len() <= 10 ==> auto_run_capped(auto_run(st, contacts), history).0.len()
            <= 10,
    decreases contacts.len() + history.len(),
{
    if contacts.len() > 0 {
        law_autocomplete_distinct(st, contacts.drop_last(), Seq::empty());
        lemma_auto_step_consistent(auto_run(st, contacts.drop_last()), contacts.last());
    }
    if history.len() > 0 {
        law_autocomplete_distinct(st, contacts, history.drop_last());
        let prev = auto_run_capped(auto_run(st, contacts), history.drop_last());
        if prev.0.len() < 10 {
            lemma_auto_step_consistent(prev, history.last());
        }
    }
}

/// An autocomplete in progress: each address (ignoring case) is suggested
/// once.
pub struct Autocomplete {
    pub suggestions: Vec<ContactSuggestion>,
    pub seen: Vec<Vec<char>>,
}

impl Autocomplete {
    /// The suggestions and the covered addresses.
    pub open spec fn state(&self) -> (Seq<(Seq<char>, Seq<char>, Seq<char>)>, Seq<Seq<char>>) {
        (suggs_view(self.suggestions@), views(self.seen@))
    }

    /// An autocomplete with nothing suggested yet.
    pub fn new() -> (r: Self)
        ensures
            r.state().0 == Seq::<(Seq<char>, Seq<char>, Seq<char>)>::empty(),
            r.state().1 == Seq::<Seq<char>>::empty(),
    {
        let r = Autocomplete { suggestions: Vec::new(), seen: Vec::new() };
        assert(r.state().0 =~= Seq::<(Seq<char>, Seq<char>, Seq<char>)>::empty());
        assert(r.state().1 =~= Seq::<Seq<char>>::empty());
        r
    }

    fn covers(&self, lower: &Vec<char>) -> (r: bool)
        ensures
            r == self.state().1.contains(lower@),
    {
        let ghost sv = views(self.seen@);
        let mut i: usize = 0;
        while i < self.seen.len()
            invariant
                i <= self.seen@.len(),
                sv == views(self.seen@),
                forall|k: int| 0 <= k < i ==> sv[k] != lower@,
            decreases self.seen.len() - i,
        {
            if crate::text::eq_chars(self.seen[i].as_slice(), lower.as_slice()) {
                assert(sv[i as int] == lower@);
                return true;
            }
            i = i + 1;
        }
        false
    }

    fn offer(&mut self, s: ContactSuggestion)
        ensures
            final(self).state() == auto_step(old(self).state(), sugg_view(s)),
    {
        let lower = to_lowercase(chars_of(s.email.as_str()).as_slice());
        if !self.covers(&lower) {
            let ghost prev = self.state();
            let ghost sv = sugg_view(s);
            self.suggestions.push(s);
            self.seen.push(lower);
            assert(self.state().0 =~= prev.0.push(sv));
            assert(self.state().1 =~= prev.1.push(lowercase(sv.1)));
        }
    }

    /// Adds stored contact addresses (name, email), each as its
    /// suggestion, skipping addresses already covered.
    pub fn add_contacts(&mut self, rows: Vec<(String, String)>)
        ensures
            final(self).state() == auto_run(
                old(self).state(),
                rows@.map_values(
                    |p: (String, String)| (p.0@, p.1@, contact_raw(p.0@, p.1@)),
                ),
            ),
    {
        let ghost start = self.state();
        let ghost rv = rows@.map_values(|p: (String, String)| (p.0@, p.1@, contact_raw(p.0@, p.1@)));
        let n = rows.len();
        let mut i: usize = 0;
        while i < n
            invariant
                n == rows@.len(),
                i <= n,
                rv == rows@.map_values(|p: (String, String)| (p.0@, p.1@, contact_raw(p.0@, p.1@))),
                self.state() == auto_run(start, rv.take(i as int)),
            decreases n - i,
        {
            assert(rv.take(i + 1).drop_last() =~= rv.take(i as int));
            let name = rows[i].0.clone();
            let email = rows[i].1.clone();
            let s = contact_suggestion(name, email);
            self.offer(s);
            i = i + 1;
        }
        assert(rv.take(n as int) =~= rv);
    }

    /// Whether more suggestions are wanted: fewer than ten so far.
    pub fn wants_more(&self) -> (r: bool)
        ensures
            r == (self.state().0.len() < 10),
    {
        self.suggestions.len() < 10
    }

    /// How many more suggestions are wanted.
    pub fn remaining(&self) -> (r: i64)
        requires
            self.state().0.len() < 10,
        ensures
            r == 10 - self.state().0.len(),
    {
        10 - self.suggestions.len() as i64
    }

    /// Adds suggestions from mail history, skipping covered addresses, until
    /// there are ten.
    pub fn add_history(&mut self, found: Vec<ContactSuggestion>)
        ensures
            final(self).state() == auto_run_capped(old(self).state(), suggs_view(found@)),
    {
        let ghost start = self.state();
        let ghost fv = suggs_view(found@);
        let mut found = crate::text::reversed(found);
        let n = found.len();
        assert(forall|k: int| 0 <= k < n ==> sugg_view(#[trigger] found@[k]) == fv[n - 1 - k]);
        let mut i: usize = 0;
        while i < n
            invariant
                n == found@.len() + i,
                i <= n,
                fv.len() == n,
                forall|k: int| 0 <= k < found@.len() ==> sugg_view(#[trigger] found@[k]) == fv[n - 1 - k],
                self.state() == auto_run_capped(start, fv.take(i as int)),
            decreases n - i,
        {
            assert(fv.take(i + 1).drop_last() =~= fv.take(i as int));
            let s = found.pop().unwrap();
            assert(sugg_view(s) == fv[i as int]);
            if self.suggestions.len() < 10 {
                self.offer(s);
            }
            i = i + 1;
        }
        assert(fv.take(n as int) =~= fv);
    }

    /// The suggestions, at most ten.
    pub fn finish(self) -> (r: Vec<ContactSuggestion>)
        ensures
            suggs_view(r@) == self.state().0.take(
                if self.state().0.len() < 10 {
                    self.state().0.len() as int
                } else {
                    10
                },
            ),
    {
        let mut s = self.suggestions;
        s.truncate(10);
        assert(suggs_view(s@) =~= suggs_view(self.suggestions@).take(
            if self.suggestions@.len() < 10 {
                self.suggestions@.len() as int
            } else {
                10
            },
        ));
        s
    }
}

/// The addresses seen in mail that match a query: each sender or recipient
/// list split at commas and trimmed; non-empty pieces that contain the
/// query ignoring case, each once, as (name, email, piece).
pub open spec fn history_step(
    st: (Seq<Seq<char>>, Seq<(Seq<char>, Seq<char>, Seq<char>)>),
    piece: Seq<char>,
    query: Seq<char>,
) -> (Seq<Seq<char>>, Seq<(Seq<char>, Seq<char>, Seq<char>)>) {
    let p = trim(piece);
    if p.len() == 0 || !contains_seq(lowercase(p), lowercase(query)) || st.0.contains(p) {
        st
    } else {
        (
            st.0.push(p),
            st.1.push(
                (
                    if find_char(p, '<') is Some {
                        address_name(p)
                    } else {
                        Seq::empty()
                    },
                    address_email(p),
                    p,
                ),
            ),
        )
    }
}

pub open spec fn history_run(pieces: Seq<Seq<char>>, query: Seq<char>) -> (
    Seq<Seq<char>>,
    Seq<(Seq<char>, Seq<char>, Seq<char>)>,
)
    decreases pieces.len(),
{
    if pieces.len() == 0 {
        (Seq::empty(), Seq::empty())
    } else {
        history_step(history_run(pieces.drop_last(), query), pieces.last(), query)
    }
}

/// All comma-separated pieces of the rows, in order.
pub open spec fn row_pieces(rows: Seq<Seq<char>>) -> Seq<Seq<char>>
    decreases rows.len(),
{
    if rows.len() == 0 {
        Seq::empty()
    } else {
        row_pieces(rows.drop_last()) + split_char(rows.last(), ',')
    }
}

/// The sort key of a suggestion: the byte length of its address.
pub open spec fn email_key(s: (Seq<char>, Seq<char>, Seq<char>)) -> usize {
    utf8_len(s.1)
}

/// Where `x` goes in a list sorted by key: after every entry whose key is
/// not greater.
pub open spec fn insert_pos(sorted: Seq<(Seq<char>, Seq<char>, Seq<char>)>, x: (
    Seq<char>,
    Seq<char>,
    Seq<char>,
)) -> int
    decreases sorted.len(),
{
    if sorted.len() == 0 {
        0
    } else if email_key(sorted.last()) <= email_key(x) {
        sorted.len() as int
    } else {
        insert_pos(sorted.drop_last(), x)
    }
}

/// The list sorted by address length, entries of equal length in their
/// original order (a stable sort).
pub open spec fn sort_by_email_len(v: Seq<(Seq<char>, Seq<char>, Seq<char>)>) -> Seq<
    (Seq<char>, Seq<char>, Seq<char>),
>
    decreases v.len(),
{
    if v.len() == 0 {
        Seq::empty()
    } else {
        let s = sort_by_email_len(v.drop_last());
        s.insert(insert_pos(s, v.last()), v.last())
    }
}

/// The suggestions from mail history for a query: matching addresses,
/// sorted by address length, the first ten.
pub open spec fn history_suggestions(rows: Seq<Seq<char>>, query: Seq<char>) -> Seq<
    (Seq<char>, Seq<char>, Seq<char>),
> {
    let s = sort_by_email_len(history_run(row_pieces(rows), query).1);
    s.take(
        if s.len() < 10 {
            s.len() as int
        } else {
            10
        },
    )
}

proof fn lemma_insert_pos_bound(sorted: Seq<(Seq<char>, Seq<char>, Seq<char>)>, x: (
    Seq<char>,
    Seq<char>,
    Seq<char>,
))
    ensures
        0 <= insert_pos(sorted, x) <= sorted.len(),
    decreases sorted.len(),
{
    if sorted.len() > 0 && !(email_key(sorted.last()) <= email_key(x)) {
        lemma_insert_pos_bound(sorted.drop_last(), x);
    }
}

/// Whether suggestions are ordered by address length.
pub open spec fn sorted_by_email_len(v: Seq<(Seq<char>, Seq<char>, Seq<char>)>) -> bool {
    forall|i: int, j: int| 0 <= i < j < v.len() ==> email_key(v[i]) <= email_key(v[j])
}

proof fn lemma_insert_pos_split(sorted: Seq<(Seq<char>, Seq<char>, Seq<char>)>, x: (
    Seq<char>,
    Seq<char>,
    Seq<char>,
))
    requires
        sorted_by_email_len(sorted),
    ensures
        forall|k: int| 0 <= k < insert_pos(sorted, x) ==> email_key(#[trigger] sorted[k]) <= email_key(x),
        forall|k: int|
            insert_pos(sorted, x) <= k < sorted.len() ==> email_key(x) < email_key(#[trigger] sorted[k]),
    decreases sorted.len(),
{
    lemma_insert_pos_bound(sorted, x);
    if sorted.len() > 0 && !(email_key(sorted.last()) <= email_key(x)) {
        let front = sorted.drop_last();
        assert(sorted_by_email_len(front));
        lemma_insert_pos_split(front, x);
        assert forall|k: int| insert_pos(sorted, x) <= k < sorted.len() implies email_key(x) < email_key(
            #[trigger] sorted[k],
        ) by {
            if k < sorted.len() - 1 {
                assert(sorted[k] == front[k]);
            }
        }
        assert forall|k: int| 0 <= k < insert_pos(sorted, x) implies email_key(#[trigger] sorted[k])
            <= email_key(x) by {
            assert(sorted[k] == front[k]);
        }
    } else if sorted.len() > 0 {
        assert forall|k: int| 0 <= k < insert_pos(sorted, x) implies email_key(#[trigger] sorted[k])
            <= email_key(x) by {
            if k < sorted.len() - 1 {
                assert(email_key(sorted[k]) <= email_key(sorted[sorted.len() - 1]));
            }
        }
    }
}

proof fn lemma_sort_sorted(v: Seq<(Seq<char>, Seq<char>, Seq<char>)>)
    ensures
        sorted_by_email_len(sort_by_email_len(v)),
        sort_by_email_len(v).len() == v.len(),
    decreases v.len(),
{
    if v.len() > 0 {
        let s = sort_by_email_len(v.drop_last());
        lemma_sort_sorted(v.drop_last());
        let x = v.last();
        let p = insert_pos(s, x);
        lemma_insert_pos_bound(s, x);
        lemma_insert_pos_split(s, x);
        let t = s.insert(p, x);
        assert forall|i: int, j: int| 0 <= i < j < t.len() implies email_key(t[i]) <= email_key(t[j]) by {
            if j < p {
                assert(t[i] == s[i] && t[j] == s[j]);
            } else if j == p {
                assert(t[i] == s[i] && t[j] == x);
            } else if i < p {
                assert(t[i] == s[i] && t[j] == s[j - 1]);
            } else if i == p {
                assert(t[i] == x && t[j] == s[j - 1]);
            } else {
                assert(t[i] == s[i - 1] && t[j] == s[j - 1]);
            }
        }
    }
}

/// The suggestions from mail history come shortest address first.
pub proof fn law_history_sorted(rows: Seq<Seq<char>>, query: Seq<char>)
    ensures
        sorted_by_email_len(history_suggestions(rows, query)),
        history_suggestions(rows, query).len() <= 10,
{
    let s = sort_by_email_len(history_run(row_pieces(rows), query).1);
    lemma_sort_sorted(history_run(row_pieces(rows), query).1);
    let n: int = if s.len() < 10 {
        s.len() as int
    } else {
        10
    };
    assert forall|i: int, j: int| 0 <= i < j < s.take(n).len() implies email_key(s.take(n)[i])
        <= email_key(s.take(n)[j]) by {
        assert(s.take(n)[i] == s[i] && s.take(n)[j] == s[j]);
    }
}

fn find_insert_pos(sorted: &Vec<ContactSuggestion>, x: &ContactSuggestion) -> (r: usize)
    ensures
        r == insert_pos(suggs_view(sorted@), sugg_view(*x)),
        r <= sorted@.len(),
{
    let ghost sv = suggs_view(sorted@);
    let key = x.email.as_str().len();
    let mut k: usize = sorted.len();
    assert(sv.take(sv.len() as int) =~= sv);
    while k > 0
        invariant
            k <= sorted@.len(),
            sv == suggs_view(sorted@),
            key == email_key(sugg_view(*x)),
            insert_pos(sv, sugg_view(*x)) == insert_pos(sv.take(k as int), sugg_view(*x)),
        decreases k,
    {
        assert(sv.take(k as int).last() == sv[k - 1]);
        assert(sv.take(k as int).drop_last() =~= sv.take(k - 1));
        if sorted[k - 1].email.as_str().len() <= key {
            proof {
                lemma_insert_pos_bound(sv, sugg_view(*x));
            }
            return k;
        }
        k = k - 1;
    }
    proof {
        lemma_insert_pos_bound(sv, sugg_view(*x));
    }
    0
}

fn stable_sort_by_email_len(v: Vec<ContactSuggestion>) -> (r: Vec<ContactSuggestion>)
    ensures
        suggs_view(r@) == sort_by_email_len(suggs_view(v@)),
{
    let ghost vv = suggs_view(v@);
    let mut v = crate::text::reversed(v);
    let n = v.len();
    let mut out: Vec<ContactSuggestion> = Vec::new();
    let mut i: usize = 0;
    while i < n
        invariant
            n == v@.len() + i,
            i <= n,
            vv.len() == n,
            forall|k: int| 0 <= k < v@.len() ==> sugg_view(#[trigger] v@[k]) == vv[n - 1 - k],
            suggs_view(out@) == sort_by_email_len(vv.take(i as int)),
        decreases n - i,
    {
        assert(vv.take(i + 1).drop_last() =~= vv.take(i as int));
        let x = v.pop().unwrap();
        assert(sugg_view(x) == vv[i as int]);
        let p = find_insert_pos(&out, &x);
        let ghost prev = suggs_view(out@);
        out.insert(p, x);
        assert(suggs_view(out@) =~= prev.insert(p as int, vv[i as int]));
        i = i + 1;
    }
    assert(vv.take(n as int) =~= vv);
    out
}

/// Suggests addresses seen in mail (senders and recipient lists matching
/// the query): each piece once, sorted by address length, at most ten.
pub fn history_contact_suggestions(rows: &Vec<String>, query: &str) -> (r: Vec<ContactSuggestion>)
    ensures
        suggs_view(r@) == history_suggestions(rows@.map_values(|s: String| s@), query@),
{
    let ghost rv = rows@.map_values(|s: String| s@);
    let lq = to_lowercase(chars_of(query).as_slice());
    let mut seen: Vec<Vec<char>> = Vec::new();
    let mut found: Vec<ContactSuggestion> = Vec::new();
    let mut i: usize = 0;
    while i < rows.len()
        invariant
            i <= rows@.len(),
            rv == rows@.map_values(|s: String| s@),
            lq@ == lowercase(query@),
            (views(seen@), suggs_view(found@)) == history_run(
                row_pieces(rv.take(i as int)),
                query@,
            ),
        decreases rows.len() - i,
    {
        assert(rv.take(i + 1).drop_last() =~= rv.take(i as int));
        let ghost done = row_pieces(rv.take(i as int));
        let pieces = split(chars_of(rows[i].as_str()).as_slice(), ',');
        let ghost pv = split_char(rv[i as int], ',');
        let mut j: usize = 0;
        while j < pieces.len()
            invariant
                j <= pieces@.len(),
                pieces@.len() == pv.len(),
                forall|k: int| 0 <= k < pieces@.len() ==> #[trigger] pieces@[k]@ == pv[k],
                lq@ == lowercase(query@),
                (views(seen@), suggs_view(found@)) == history_run(
                    done + pv.take(j as int),
                    query@,
                ),
            decreases pieces.len() - j,
        {
            assert((done + pv.take(j + 1)).drop_last() =~= done + pv.take(j as int));
            assert((done + pv.take(j + 1)).last() == pieces@[j as int]@);
            let p = trim_chars(pieces[j].as_slice());
            if p.len() > 0 {
                let lp = to_lowercase(p.as_slice());
                if contains(lp.as_slice(), lq.as_slice()) {
                    let mut dup = false;
                    let mut k: usize = 0;
                    while k < seen.len()
                        invariant
                            k <= seen@.len(),
                            !dup ==> forall|m: int| 0 <= m < k ==> seen@[m]@ != p@,
                            dup ==> views(seen@).contains(p@),
                        decreases seen.len() - k,
                    {
                        if crate::text::eq_chars(seen[k].as_slice(), p.as_slice()) {
                            dup = true;
                            assert(views(seen@)[k as int] == p@);
                        }
                        k = k + 1;
                    }
                    if !dup {
                        assert(!views(seen@).contains(p@)) by {
                            if views(seen@).contains(p@) {
                                let m = choose|m: int|
                                    0 <= m < seen@.len() && #[trigger] views(seen@)[m] == p@;
                                assert(seen@[m]@ == p@);
                            }
                        }
                        let (name, email) = split_address(p.as_slice());
                        let ghost pp = p@;
                        let ghost prev_seen = views(seen@);
                        let ghost prev_found = suggs_view(found@);
                        let raw = string_of(p.as_slice());
                        seen.push(p);
                        found.push(
                            ContactSuggestion {
                                name: string_of(name.as_slice()),
                                email: string_of(email.as_slice()),
                                raw,
                            },
                        );
                        assert(views(seen@) =~= prev_seen.push(pp));
                        assert(suggs_view(found@) =~= prev_found.push(
                            (
                                if find_char(pp, '<') is Some {
                                    address_name(pp)
                                } else {
                                    Seq::empty()
                                },
                                address_email(pp),
                                pp,
                            ),
                        ));
                    }
                }
            }
            j = j + 1;
        }
        assert(pv.take(pv.len() as int) =~= pv);
        i = i + 1;
    }
    assert(rv.take(rv.len() as int) =~= rv);
    let mut sorted = stable_sort_by_email_len(found);
    let ghost sv = suggs_view(sorted@);
    sorted.truncate(10);
    assert(suggs_view(sorted@) =~= sv.take(
        if sv.len() < 10 {
            sv.len() as int
        } else {
            10
        },
    ));
    sorted
}

} // verus!
