//! The search box language: `from:`, `to:`, `subject:`, `has:attachment`,
//! `is:unread` / `is:read` and free text, with double quotes grouping words.

use crate::text::{
    chars_of, eq_chars, has_prefix, join, join_parts, lemma_split_nonempty, push_all, slice_chars,
    split_char, starts_with, string_of, trim_char, trim_char_end, trim_char_start, trim_matches,
};
use vstd::prelude::*;

verus! {

/// The views of a vector of character vectors.
pub open spec fn views(v: Seq<Vec<char>>) -> Seq<Seq<char>> {
    v.map_values(|t: Vec<char>| t@)
}

/// Tokenizer state: the tokens so far, the token being read, and whether a
/// double-quoted group is open.
pub type TokState = (Seq<Seq<char>>, Seq<char>, bool);

/// One character of tokenizing: spaces end a token outside quotes, a double
/// quote opens or closes a group and stays part of the token.
pub open spec fn tok_step(st: TokState, c: char) -> TokState {
    let (tokens, cur, quoted) = st;
    if quoted {
        (tokens, cur.push(c), c != '"')
    } else if c == '"' {
        (tokens, cur.push(c), true)
    } else if c == ' ' {
        if cur.len() > 0 {
            (tokens.push(cur), Seq::empty(), false)
        } else {
            (tokens, cur, false)
        }
    } else {
        (tokens, cur.push(c), false)
    }
}

/// Tokenizer state after reading `s`.
pub open spec fn tok_prefix(s: Seq<char>) -> TokState
    decreases s.len(),
{
    if s.len() == 0 {
        (Seq::empty(), Seq::empty(), false)
    } else {
        tok_step(tok_prefix(s.drop_last()), s.last())
    }
}

/// The tokens of a query: split on spaces, double-quoted groups kept whole.
pub open spec fn tokenize(s: Seq<char>) -> Seq<Seq<char>> {
    let st = tok_prefix(s);
    if st.1.len() > 0 {
        st.0.push(st.1)
    } else {
        st.0
    }
}

/// Whether `s` holds no double quote.
pub open spec fn quote_free(s: Seq<char>) -> bool {
    forall|i: int| 0 <= i < s.len() ==> #[trigger] s[i] != '"'
}

/// The non-empty words of `s` between single spaces.
pub open spec fn words(s: Seq<char>) -> Seq<Seq<char>> {
    split_char(s, ' ').filter(|t: Seq<char>| t.len() > 0)
}

/// Reading a text without double quotes: the finished tokens are the
/// non-empty pieces between spaces before the last one, and the token being
/// read is the last piece; no token holds a quote.
proof fn lemma_tok_prefix_quote_free(s: Seq<char>)
    requires
        quote_free(s),
    ensures
        split_char(s, ' ').len() > 0,
        !tok_prefix(s).2,
        tok_prefix(s).1 == split_char(s, ' ').last(),
        tok_prefix(s).0 == split_char(s, ' ').drop_last().filter(|t: Seq<char>| t.len() > 0),
        quote_free(tok_prefix(s).1),
        forall|i: int| 0 <= i < tok_prefix(s).0.len() ==> quote_free(#[trigger] tok_prefix(s).0[i]),
    decreases s.len(),
{
    reveal_with_fuel(Seq::<_>::filter, 1);
    if s.len() > 0 {
        let t = s.drop_last();
        assert forall|i: int| 0 <= i < t.len() implies #[trigger] t[i] != '"' by {
            assert(t[i] == s[i]);
        }
        lemma_tok_prefix_quote_free(t);
        lemma_split_nonempty(t, ' ');
        let c = s.last();
        assert(c == s[s.len() - 1]);
        let pp = split_char(t, ' ');
        let st = tok_prefix(t);
        let nt = tok_prefix(s);
        if c == ' ' {
            assert(split_char(s, ' ') == pp.push(Seq::<char>::empty()));
            assert(split_char(s, ' ').drop_last() =~= pp);
            if st.1.len() > 0 {
                assert(nt.0 == st.0.push(st.1));
                assert forall|i: int| 0 <= i < nt.0.len() implies quote_free(#[trigger] nt.0[i]) by {
                    if i < st.0.len() {
                        assert(nt.0[i] == st.0[i]);
                    }
                }
            }
        } else {
            let np = pp.update(pp.len() - 1, pp.last().push(c));
            assert(split_char(s, ' ') == np);
            assert(np.drop_last() =~= pp.drop_last());
            assert(nt.1 == st.1.push(c));
            assert forall|i: int| 0 <= i < nt.1.len() implies #[trigger] nt.1[i] != '"' by {
                if i < st.1.len() {
                    assert(nt.1[i] == st.1[i]);
                }
            }
        }
    }
}

/// Without double quotes, the tokens of a query are its non-empty words
/// between spaces, and none of them holds a quote.
proof fn lemma_tokens_quote_free(s: Seq<char>)
    requires
        quote_free(s),
    ensures
        tokenize(s) == words(s),
        forall|i: int| 0 <= i < words(s).len() ==> quote_free(#[trigger] words(s)[i]),
{
    reveal_with_fuel(Seq::<_>::filter, 1);
    lemma_tok_prefix_quote_free(s);
    let st = tok_prefix(s);
    let pp = split_char(s, ' ');
    assert(pp.drop_last().push(pp.last()) =~= pp);
    assert(words(s) == tokenize(s));
    assert forall|i: int| 0 <= i < words(s).len() implies quote_free(#[trigger] words(s)[i]) by {
        if st.1.len() > 0 && i == st.0.len() {
        } else {
            assert(words(s)[i] == st.0[i]);
        }
    }
}

/// What a query says, before the free-text words are joined.
pub struct QueryParts {
    pub from: Option<Seq<char>>,
    pub to: Option<Seq<char>>,
    pub subject: Option<Seq<char>>,
    pub has_attachment: bool,
    pub is_unread: Option<bool>,
    pub free: Seq<Seq<char>>,
}

/// The value of an operator token: what follows the prefix, without
/// surrounding double quotes; none when nothing follows the prefix.
pub open spec fn operator_value(t: Seq<char>, n: int) -> Option<Seq<char>> {
    if t.len() > n {
        Some(trim_char(t.skip(n), '"'))
    } else {
        None
    }
}

/// One token of a query. A later `from:`, `to:` or `subject:` overrides an
/// earlier one; an operator with nothing after the colon is dropped; any
/// other token, `has:link`, `before:` and `after:` among them, is free text.
pub open spec fn class_step(q: QueryParts, t: Seq<char>) -> QueryParts {
    if has_prefix(t, "from:"@) {
        match operator_value(t, 5) {
            Some(v) => QueryParts { from: Some(v), ..q },
            None => q,
        }
    } else if has_prefix(t, "to:"@) {
        match operator_value(t, 3) {
            Some(v) => QueryParts { to: Some(v), ..q },
            None => q,
        }
    } else if has_prefix(t, "subject:"@) {
        match operator_value(t, 8) {
            Some(v) => QueryParts { subject: Some(v), ..q },
            None => q,
        }
    } else if t == "has:attachment"@ {
        QueryParts { has_attachment: true, ..q }
    } else if t == "is:unread"@ {
        QueryParts { is_unread: Some(true), ..q }
    } else if t == "is:read"@ {
        QueryParts { is_unread: Some(false), ..q }
    } else {
        QueryParts { free: q.free.push(t), ..q }
    }
}

/// The meaning of a sequence of tokens.
pub open spec fn classify(tokens: Seq<Seq<char>>) -> QueryParts
    decreases tokens.len(),
{
    if tokens.len() == 0 {
        QueryParts {
            from: None,
            to: None,
            subject: None,
            has_attachment: false,
            is_unread: None,
            free: Seq::empty(),
        }
    } else {
        class_step(classify(tokens.drop_last()), tokens.last())
    }
}

/// Whether a token is an operator: `from:`, `to:` or `subject:` followed by
/// anything, or `has:attachment`, `is:unread` or `is:read`.
pub open spec fn is_operator_token(t: Seq<char>) -> bool {
    has_prefix(t, "from:"@) || has_prefix(t, "to:"@) || has_prefix(t, "subject:"@)
        || t == "has:attachment"@ || t == "is:unread"@ || t == "is:read"@
}

/// Whether a token is `from:` with something after the colon.
pub open spec fn from_with_value(t: Seq<char>) -> bool {
    has_prefix(t, "from:"@) && t.len() > 5
}

/// What follows `from:` in the last token that has something after it.
pub open spec fn last_from(ts: Seq<Seq<char>>) -> Option<Seq<char>> {
    let fs = ts.filter(|t: Seq<char>| from_with_value(t));
    if fs.len() == 0 {
        None
    } else {
        Some(fs.last().skip(5))
    }
}

/// Trimming quotes off a text without quotes changes nothing.
proof fn lemma_trim_quote_free(x: Seq<char>)
    requires
        quote_free(x),
    ensures
        trim_char(x, '"') == x,
{
    if x.len() > 0 {
        assert(x[0] != '"');
        assert(x.last() == x[x.len() - 1]);
    }
}

/// What classifying tokens without quotes gives: the free words are the
/// tokens that are not operators, the attachment flag says whether
/// `has:attachment` is among them, and the sender is `last_from`.
proof fn lemma_classify_quote_free(ts: Seq<Seq<char>>)
    requires
        forall|i: int| 0 <= i < ts.len() ==> quote_free(#[trigger] ts[i]),
    ensures
        classify(ts).free == ts.filter(|t: Seq<char>| !is_operator_token(t)),
        classify(ts).has_attachment == ts.contains("has:attachment"@),
        classify(ts).from == last_from(ts),
    decreases ts.len(),
{
    reveal_with_fuel(Seq::<_>::filter, 1);
    if ts.len() > 0 {
        let d = ts.drop_last();
        assert forall|i: int| 0 <= i < d.len() implies quote_free(#[trigger] d[i]) by {
            assert(d[i] == ts[i]);
        }
        lemma_classify_quote_free(d);
        let t = ts.last();
        assert(t == ts[ts.len() - 1]);
        reveal_strlit("from:");
        reveal_strlit("to:");
        reveal_strlit("subject:");
        reveal_strlit("has:attachment");
        if has_prefix(t, "from:"@) || has_prefix(t, "to:"@) || has_prefix(t, "subject:"@) {
            assert(t != "has:attachment"@) by {
                if t == "has:attachment"@ {
                    assert(t[0] == 'h');
                    assert(t.take(2)[0] == t[0]);
                }
            }
        }
        if from_with_value(t) {
            lemma_trim_quote_free(t.skip(5));
            assert forall|i: int| 0 <= i < t.skip(5).len() implies #[trigger] t.skip(5)[i] != '"' by {
                assert(t.skip(5)[i] == t[i + 5]);
            }
        }
        assert(ts.contains("has:attachment"@) <==> (d.contains("has:attachment"@) || t
            == "has:attachment"@)) by {
            if d.contains("has:attachment"@) {
                let k = choose|k: int| 0 <= k < d.len() && d[k] == "has:attachment"@;
                assert(ts[k] == d[k]);
            }
            if ts.contains("has:attachment"@) && t != "has:attachment"@ {
                let k = choose|k: int| 0 <= k < ts.len() && ts[k] == "has:attachment"@;
                assert(k < d.len());
                assert(d[k] == ts[k]);
            }
        }
    }
}

/// A query without double quotes, read with `words` its non-empty words
/// between spaces: its tokens are those words, its free text is the words
/// that are not operators joined by single spaces, it asks for attachments
/// exactly when `has:attachment` is one of the words, and its sender is
/// what follows `from:` in the last word that has something after it.
pub proof fn law_quote_free_query(s: Seq<char>)
    requires
        quote_free(s),
    ensures
        tokenize(s) == words(s),
        parse_query_spec(s).free_text == join(
            words(s).filter(|t: Seq<char>| !is_operator_token(t)),
            " "@,
        ),
        parse_query_spec(s).has_attachment == words(s).contains("has:attachment"@),
        parse_query_spec(s).from == last_from(words(s)),
{
    lemma_tokens_quote_free(s);
    lemma_classify_quote_free(words(s));
}

/// The tokens that set the operator with prefix `p`: those that start with
/// it and have something after it.
pub open spec fn valued_tokens(ts: Seq<Seq<char>>, p: Seq<char>) -> Seq<Seq<char>> {
    ts.filter(|t: Seq<char>| has_prefix(t, p) && t.len() > p.len())
}

/// What the last token setting the operator with prefix `p` gives: the
/// text after the prefix without surrounding double quotes; none when no
/// token sets it.
pub open spec fn last_operator_value(ts: Seq<Seq<char>>, p: Seq<char>) -> Option<Seq<char>> {
    let fs = valued_tokens(ts, p);
    if fs.len() == 0 {
        None
    } else {
        Some(trim_char(fs.last().skip(p.len() as int), '"'))
    }
}

/// Tokens starting with one operator prefix do not start with another.
proof fn lemma_prefixes_apart(t: Seq<char>)
    ensures
        has_prefix(t, "subject:"@) ==> !has_prefix(t, "from:"@) && !has_prefix(t, "to:"@),
        has_prefix(t, "to:"@) ==> !has_prefix(t, "from:"@),
{
    reveal_strlit("from:");
    reveal_strlit("to:");
    reveal_strlit("subject:");
    if has_prefix(t, "subject:"@) {
        assert(t[0] == "subject:"@[0]);
        if has_prefix(t, "from:"@) {
            assert(t[0] == "from:"@[0]);
        }
        if has_prefix(t, "to:"@) {
            assert(t[0] == "to:"@[0]);
        }
    }
    if has_prefix(t, "to:"@) && has_prefix(t, "from:"@) {
        assert(t[0] == "to:"@[0]);
        assert(t[0] == "from:"@[0]);
    }
}

proof fn lemma_classify_operators(ts: Seq<Seq<char>>)
    ensures
        classify(ts).from == last_operator_value(ts, "from:"@),
        classify(ts).to == last_operator_value(ts, "to:"@),
        classify(ts).subject == last_operator_value(ts, "subject:"@),
    decreases ts.len(),
{
    reveal_with_fuel(Seq::<_>::filter, 1);
    reveal_strlit("from:");
    reveal_strlit("to:");
    reveal_strlit("subject:");
    if ts.len() > 0 {
        lemma_classify_operators(ts.drop_last());
        lemma_prefixes_apart(ts.last());
    }
}

/// Removing the double quotes around a text without quotes gives the text.
proof fn lemma_trim_quoted(x: Seq<char>)
    requires
        quote_free(x),
    ensures
        trim_char("\""@ + x + "\""@, '"') == x,
{
    reveal_strlit("\"");
    let q = "\""@ + x + "\""@;
    assert(q[0] == '"');
    assert(q.drop_first() =~= x + "\""@);
    let r = x + "\""@;
    assert(q.len() > 0);
    assert(trim_char_start(q, '"') == trim_char_start(q.drop_first(), '"'));
    if x.len() > 0 {
        assert(r[0] == x[0]);
        assert(r[0] != '"');
        assert(trim_char_start(r, '"') == r);
    } else {
        assert(r.len() == 1 && r[0] == '"');
        assert(trim_char_start(r, '"') == trim_char_start(r.drop_first(), '"'));
        assert(r.drop_first() =~= Seq::<char>::empty());
        assert(x =~= Seq::<char>::empty());
        return;
    }
    assert(r.last() == '"');
    assert(r.drop_last() =~= x);
    assert(x.last() == x[x.len() - 1]);
    assert(trim_char_end(x, '"') == x);
}

/// The `from:`, `to:` and `subject:` filters of a query come from the last
/// token that gives each a value, with surrounding double quotes removed: a
/// query whose last `subject:` token is `subject:"X"`, X without quotes,
/// filters on the subject X, and one whose last `subject:` token carries a
/// value without quotes filters on exactly that value (likewise for
/// `from:` and `to:`). A query with no such token sets no filter.
pub proof fn law_operator_values(s: Seq<char>, p: Seq<char>, x: Seq<char>)
    requires
        p == "from:"@ || p == "to:"@ || p == "subject:"@,
    ensures
        parse_query_spec(s).from == last_operator_value(tokenize(s), "from:"@),
        parse_query_spec(s).to == last_operator_value(tokenize(s), "to:"@),
        parse_query_spec(s).subject == last_operator_value(tokenize(s), "subject:"@),
        valued_tokens(tokenize(s), p).len() == 0 ==> last_operator_value(tokenize(s), p) is None,
        (valued_tokens(tokenize(s), p).len() > 0 && quote_free(x) && valued_tokens(
            tokenize(s),
            p,
        ).last() == p + "\""@ + x + "\""@) ==> last_operator_value(tokenize(s), p) == Some(x),
        (valued_tokens(tokenize(s), p).len() > 0 && quote_free(x) && x.len() > 0 && valued_tokens(
            tokenize(s),
            p,
        ).last() == p + x) ==> last_operator_value(tokenize(s), p) == Some(x),
{
    lemma_classify_operators(tokenize(s));
    let fs = valued_tokens(tokenize(s), p);
    if fs.len() > 0 && quote_free(x) {
        if fs.last() == p + "\""@ + x + "\""@ {
            assert(fs.last().skip(p.len() as int) =~= "\""@ + x + "\""@);
            lemma_trim_quoted(x);
        }
        if x.len() > 0 && fs.last() == p + x {
            assert(fs.last().skip(p.len() as int) =~= x);
            lemma_trim_quote_free(x);
        }
    }
}

/// A parsed search query.
pub struct ParsedQuery {
    pub from: Option<String>,
    pub to: Option<String>,
    pub subject: Option<String>,
    pub has_attachment: bool,
    pub is_unread: Option<bool>,
    pub free_text: String,
}

/// The abstract value of a parsed query.
pub struct ParsedQueryView {
    pub from: Option<Seq<char>>,
    pub to: Option<Seq<char>>,
    pub subject: Option<Seq<char>>,
    pub has_attachment: bool,
    pub is_unread: Option<bool>,
    pub free_text: Seq<char>,
}

pub open spec fn opt_view(o: Option<String>) -> Option<Seq<char>> {
    match o {
        Some(s) => Some(s@),
        None => None,
    }
}

impl View for ParsedQuery {
    type V = ParsedQueryView;

    open spec fn view(&self) -> ParsedQueryView {
        ParsedQueryView {
            from: opt_view(self.from),
            to: opt_view(self.to),
            subject: opt_view(self.subject),
            has_attachment: self.has_attachment,
            is_unread: self.is_unread,
            free_text: self.free_text@,
        }
    }
}

/// The meaning of a query string; free-text words are joined by one space.
pub open spec fn parse_query_spec(s: Seq<char>) -> ParsedQueryView {
    let q = classify(tokenize(s));
    ParsedQueryView {
        from: q.from,
        to: q.to,
        subject: q.subject,
        has_attachment: q.has_attachment,
        is_unread: q.is_unread,
        free_text: join(q.free, " "@),
    }
}

/// Splits a query into tokens.
pub fn tokenize_query(s: &[char]) -> (r: Vec<Vec<char>>)
    ensures
        views(r@) == tokenize(s@),
{
    let mut tokens: Vec<Vec<char>> = Vec::new();
    let mut cur: Vec<char> = Vec::new();
    let mut quoted = false;
    let mut i: usize = 0;
    while i < s.len()
        invariant
            i <= s@.len(),
            (views(tokens@), cur@, quoted) == tok_prefix(s@.take(i as int)),
        decreases s.len() - i,
    {
        let c = s[i];
        proof {
            assert(s@.take(i + 1).drop_last() =~= s@.take(i as int));
            assert(s@.take(i + 1).last() == c);
        }
        if quoted {
            cur.push(c);
            quoted = c != '"';
        } else if c == '"' {
            cur.push(c);
            quoted = true;
        } else if c == ' ' {
            if cur.len() > 0 {
                let t = cur;
                tokens.push(t);
                cur = Vec::new();
                assert(views(tokens@) =~= tok_prefix(s@.take(i as int)).0.push(t@));
            }
        } else {
            cur.push(c);
        }
        i = i + 1;
    }
    assert(s@.take(s@.len() as int) =~= s@);
    if cur.len() > 0 {
        let t = cur;
        tokens.push(t);
        assert(views(tokens@) =~= tok_prefix(s@).0.push(t@));
    }
    tokens
}

/// The value after an operator prefix of length `n`.
fn operator_value_of(t: &[char], n: usize) -> (r: Option<Vec<char>>)
    requires
        n <= t@.len(),
    ensures
        match r {
            Some(v) => operator_value(t@, n as int) == Some(v@),
            None => operator_value(t@, n as int) is None,
        },
{
    if t.len() > n {
        let rest = slice_chars(t, n, t.len());
        assert(rest@ == t@.skip(n as int));
        Some(trim_matches(rest.as_slice(), '"'))
    } else {
        None
    }
}

pub open spec fn opt_chars(o: Option<Vec<char>>) -> Option<Seq<char>> {
    match o {
        Some(v) => Some(v@),
        None => None,
    }
}

fn opt_string(o: Option<Vec<char>>) -> (r: Option<String>)
    ensures
        opt_view(r) == opt_chars(o),
{
    match o {
        Some(v) => Some(string_of(v.as_slice())),
        None => None,
    }
}

/// Parses a search query into its operators and its free text.
pub fn parse_query_operators(query: &str) -> (r: ParsedQuery)
    ensures
        r@ == parse_query_spec(query@),
{
    let s = chars_of(query);
    let tokens = tokenize_query(s.as_slice());
    let p_from = chars_of("from:");
    let p_to = chars_of("to:");
    let p_subject = chars_of("subject:");
    let k_attach = chars_of("has:attachment");
    let k_unread = chars_of("is:unread");
    let k_read = chars_of("is:read");
    proof {
        reveal_strlit("from:");
        reveal_strlit("to:");
        reveal_strlit("subject:");
    }
    let mut from: Option<Vec<char>> = None;
    let mut to: Option<Vec<char>> = None;
    let mut subject: Option<Vec<char>> = None;
    let mut has_attachment = false;
    let mut is_unread: Option<bool> = None;
    let mut free: Vec<Vec<char>> = Vec::new();
    let ghost toks = views(tokens@);
    let mut i: usize = 0;
    while i < tokens.len()
        invariant
            i <= tokens@.len(),
            toks == views(tokens@),
            toks == tokenize(s@),
            s@ == query@,
            p_from@ == "from:"@,
            p_to@ == "to:"@,
            p_subject@ == "subject:"@,
            "from:"@.len() == 5,
            "to:"@.len() == 3,
            "subject:"@.len() == 8,
            k_attach@ == "has:attachment"@,
            k_unread@ == "is:unread"@,
            k_read@ == "is:read"@,
            ({
                let q = classify(toks.take(i as int));
                &&& q.from == opt_chars(from)
                &&& q.to == opt_chars(to)
                &&& q.subject == opt_chars(subject)
                &&& q.has_attachment == has_attachment
                &&& q.is_unread == is_unread
                &&& q.free == views(free@)
            }),
        decreases tokens.len() - i,
    {
        let t = tokens[i].as_slice();
        proof {
            assert(toks.take(i + 1).drop_last() =~= toks.take(i as int));
            assert(toks.take(i + 1).last() == t@);
        }
        if starts_with(t, p_from.as_slice()) {
            let v = operator_value_of(t, 5);
            if v.is_some() {
                from = v;
            }
        } else if starts_with(t, p_to.as_slice()) {
            let v = operator_value_of(t, 3);
            if v.is_some() {
                to = v;
            }
        } else if starts_with(t, p_subject.as_slice()) {
            let v = operator_value_of(t, 8);
            if v.is_some() {
                subject = v;
            }
        } else if eq_chars(t, k_attach.as_slice()) {
            has_attachment = true;
        } else if eq_chars(t, k_unread.as_slice()) {
            is_unread = Some(true);
        } else if eq_chars(t, k_read.as_slice()) {
            is_unread = Some(false);
        } else {
            let mut w: Vec<char> = Vec::new();
            push_all(&mut w, t);
            free.push(w);
            assert(views(free@) =~= classify(toks.take(i as int)).free.push(t@));
        }
        i = i + 1;
    }
    assert(toks.take(toks.len() as int) =~= toks);
    let sp = chars_of(" ");
    let free_chars = join_parts(&free, sp.as_slice());
    ParsedQuery {
        from: opt_string(from),
        to: opt_string(to),
        subject: opt_string(subject),
        has_attachment,
        is_unread,
        free_text: string_of(free_chars.as_slice()),
    }
}

} // verus!
