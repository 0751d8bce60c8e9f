//! Comma-separated values as the contacts import and export read and write
//! them, and the text filter applied to full-text search input.

use crate::text::{
    ascii_char, chars_of, is_ascii_char, is_whitespace, is_ws, join, push_all, string_of, trim,
    trim_chars,
};
use vstd::prelude::*;

verus! {

/// `s` with every double quote doubled.
pub open spec fn double_quotes(s: Seq<char>) -> Seq<char>
    decreases s.len(),
{
    if s.len() == 0 {
        Seq::empty()
    } else {
        let rest = double_quotes(s.drop_last());
        if s.last() == '"' {
            rest.push('"').push('"')
        } else {
            rest.push(s.last())
        }
    }
}

/// A CSV field: the text in double quotes, inner quotes doubled.
pub open spec fn escape_csv_spec(s: Seq<char>) -> Seq<char> {
    seq!['"'] + double_quotes(s) + seq!['"']
}

/// Quotes a value for a CSV line.
pub fn escape_csv_field(s: &str) -> (r: String)
    ensures
        r@ == escape_csv_spec(s@),
{
    let v = chars_of(s);
    let mut out: Vec<char> = Vec::new();
    out.push('"');
    let mut i: usize = 0;
    while i < v.len()
        invariant
            i <= v@.len(),
            out@ == seq!['"'] + double_quotes(v@.take(i as int)),
        decreases v.len() - i,
    {
        assert(v@.take(i + 1).drop_last() =~= v@.take(i as int));
        if v[i] == '"' {
            out.push('"');
            out.push('"');
        } else {
            out.push(v[i]);
        }
        i = i + 1;
    }
    assert(v@.take(v@.len() as int) =~= v@);
    out.push('"');
    string_of(out.as_slice())
}

/// State of reading a CSV line: the fields so far, the field being read,
/// whether a quoted section is open, and whether a quote inside a quoted
/// section was just read (it either closes the section or, doubled, stands
/// for one quote).
pub type CsvState = (Seq<Seq<char>>, Seq<char>, bool, bool);

pub open spec fn csv_plain_step(st: CsvState, c: char) -> CsvState {
    let (fields, cur, in_quotes, _) = st;
    if c == '"' && !in_quotes {
        (fields, cur, true, false)
    } else if c == '"' && in_quotes {
        (fields, cur, true, true)
    } else if c == ',' && !in_quotes {
        (fields.push(trim(cur)), Seq::empty(), false, false)
    } else {
        (fields, cur.push(c), in_quotes, false)
    }
}

pub open spec fn csv_step(st: CsvState, c: char) -> CsvState {
    let (fields, cur, _, pending) = st;
    if pending {
        if c == '"' {
            (fields, cur.push('"'), true, false)
        } else {
            csv_plain_step((fields, cur, false, false), c)
        }
    } else {
        csv_plain_step(st, c)
    }
}

pub open spec fn csv_prefix(s: Seq<char>) -> CsvState
    decreases s.len(),
{
    if s.len() == 0 {
        (Seq::empty(), Seq::empty(), false, false)
    } else {
        csv_step(csv_prefix(s.drop_last()), s.last())
    }
}

/// The trimmed fields of one CSV line.
pub open spec fn parse_csv_spec(s: Seq<char>) -> Seq<Seq<char>> {
    let st = csv_prefix(s);
    st.0.push(trim(st.1))
}

/// Splits one CSV line into its trimmed fields. Double quotes group text
/// that holds commas; a doubled quote inside a group stands for one quote.
pub fn parse_csv_chars(s: &[char]) -> (r: Vec<Vec<char>>)
    ensures
        r@.map_values(|f: Vec<char>| f@) == parse_csv_spec(s@),
{
    let mut fields: Vec<Vec<char>> = Vec::new();
    let mut cur: Vec<char> = Vec::new();
    let mut in_quotes = false;
    let mut pending = false;
    let mut i: usize = 0;
    while i < s.len()
        invariant
            i <= s@.len(),
            (fields@.map_values(|f: Vec<char>| f@), cur@, in_quotes, pending) == csv_prefix(
                s@.take(i as int),
            ),
        decreases s.len() - i,
    {
        let c = s[i];
        proof {
            assert(s@.take(i + 1).drop_last() =~= s@.take(i as int));
        }
        if pending && c == '"' {
            cur.push('"');
            in_quotes = true;
            pending = false;
        } else {
            if pending {
                in_quotes = false;
                pending = false;
            }
            if c == '"' && !in_quotes {
                in_quotes = true;
            } else if c == '"' && in_quotes {
                pending = true;
            } else if c == ',' && !in_quotes {
                let f = trim_chars(cur.as_slice());
                let ghost before = fields@.map_values(|f: Vec<char>| f@);
                fields.push(f);
                assert(fields@.map_values(|f: Vec<char>| f@) =~= before.push(f@));
                cur = Vec::new();
            } else {
                cur.push(c);
            }
        }
        i = i + 1;
    }
    assert(s@.take(s@.len() as int) =~= s@);
    let f = trim_chars(cur.as_slice());
    let ghost before = fields@.map_values(|f: Vec<char>| f@);
    fields.push(f);
    assert(fields@.map_values(|f: Vec<char>| f@) =~= before.push(f@));
    fields
}

/// Reading a CSV line from state `st` onward.
pub open spec fn csv_from(st: CsvState, s: Seq<char>) -> CsvState
    decreases s.len(),
{
    if s.len() == 0 {
        st
    } else {
        csv_step(csv_from(st, s.drop_last()), s.last())
    }
}

proof fn lemma_csv_from_start(s: Seq<char>)
    ensures
        csv_prefix(s) == csv_from((Seq::empty(), Seq::empty(), false, false), s),
    decreases s.len(),
{
    if s.len() > 0 {
        lemma_csv_from_start(s.drop_last());
    }
}

proof fn lemma_csv_from_concat(st: CsvState, a: Seq<char>, b: Seq<char>)
    ensures
        csv_from(st, a + b) == csv_from(csv_from(st, a), b),
    decreases b.len(),
{
    if b.len() == 0 {
        assert(a + b =~= a);
    } else {
        lemma_csv_from_concat(st, a, b.drop_last());
        assert((a + b).drop_last() =~= a + b.drop_last());
        assert((a + b).last() == b.last());
    }
}

proof fn lemma_csv_from_one(st: CsvState, c: char)
    ensures
        csv_from(st, seq![c]) == csv_step(st, c),
{
    let one = seq![c];
    assert(one.drop_last() =~= Seq::<char>::empty());
    assert(one.last() == c);
    assert(csv_from(st, one.drop_last()) == st);
}

/// Inside a quoted section, the doubled-quote text of `s` reads back as `s`.
proof fn lemma_csv_quoted_body(fields: Seq<Seq<char>>, cur: Seq<char>, s: Seq<char>)
    ensures
        csv_from((fields, cur, true, false), double_quotes(s)) == (fields, cur + s, true, false),
    decreases s.len(),
{
    let st = (fields, cur, true, false);
    if s.len() == 0 {
        assert(cur + s =~= cur);
    } else {
        lemma_csv_quoted_body(fields, cur, s.drop_last());
        let rest = double_quotes(s.drop_last());
        let mid = (fields, cur + s.drop_last(), true, false);
        if s.last() == '"' {
            assert(double_quotes(s) =~= rest + seq!['"', '"']);
            lemma_csv_from_concat(st, rest, seq!['"', '"']);
            lemma_csv_from_concat(mid, seq!['"'], seq!['"']);
            assert(seq!['"'] + seq!['"'] =~= seq!['"', '"']);
            lemma_csv_from_one(mid, '"');
            lemma_csv_from_one((fields, cur + s.drop_last(), true, true), '"');
        } else {
            assert(double_quotes(s) =~= rest + seq![s.last()]);
            lemma_csv_from_concat(st, rest, seq![s.last()]);
            lemma_csv_from_one(mid, s.last());
        }
        assert((cur + s.drop_last()).push(s.last()) =~= cur + s);
    }
}

/// A quoted field read from the start of a field ends inside its quotes,
/// right after the closing quote.
proof fn lemma_csv_quoted_field(fields: Seq<Seq<char>>, s: Seq<char>)
    ensures
        csv_from((fields, Seq::empty(), false, false), escape_csv_spec(s)) == (fields, s, true, true),
{
    let st = (fields, Seq::<char>::empty(), false, false);
    let open_q = seq!['"'];
    assert(escape_csv_spec(s) =~= (open_q + double_quotes(s)) + open_q);
    lemma_csv_from_concat(st, open_q + double_quotes(s), open_q);
    lemma_csv_from_concat(st, open_q, double_quotes(s));
    lemma_csv_from_one(st, '"');
    lemma_csv_quoted_body(fields, Seq::empty(), s);
    assert(Seq::<char>::empty() + s =~= s);
    lemma_csv_from_one((fields, s, true, false), '"');
}

/// A CSV line of quoted fields separated by commas.
pub open spec fn csv_row_text(fs: Seq<Seq<char>>) -> Seq<char>
    decreases fs.len(),
{
    if fs.len() == 0 {
        Seq::empty()
    } else if fs.len() == 1 {
        escape_csv_spec(fs[0])
    } else {
        csv_row_text(fs.drop_last()) + seq![','] + escape_csv_spec(fs.last())
    }
}

/// The fields trimmed, as a CSV line gives them back.
pub open spec fn trimmed_fields(fs: Seq<Seq<char>>) -> Seq<Seq<char>> {
    fs.map_values(|f: Seq<char>| trim(f))
}

proof fn lemma_csv_row_state(fs: Seq<Seq<char>>)
    requires
        fs.len() >= 1,
    ensures
        csv_from((Seq::empty(), Seq::empty(), false, false), csv_row_text(fs)) == (
            trimmed_fields(fs.drop_last()),
            fs.last(),
            true,
            true,
        ),
    decreases fs.len(),
{
    let init: CsvState = (Seq::empty(), Seq::empty(), false, false);
    if fs.len() == 1 {
        lemma_csv_quoted_field(Seq::empty(), fs[0]);
        assert(trimmed_fields(fs.drop_last()) =~= Seq::<Seq<char>>::empty());
    } else {
        let front = fs.drop_last();
        lemma_csv_row_state(front);
        let g = trimmed_fields(front.drop_last()).push(trim(front.last()));
        assert(g =~= trimmed_fields(front));
        lemma_csv_from_concat(init, csv_row_text(front) + seq![','], escape_csv_spec(fs.last()));
        lemma_csv_from_concat(init, csv_row_text(front), seq![',']);
        lemma_csv_from_one((trimmed_fields(front.drop_last()), front.last(), true, true), ',');
        assert(csv_from(csv_from(init, csv_row_text(front)), seq![',']) == (
            g,
            Seq::<char>::empty(),
            false,
            false,
        ));
        lemma_csv_quoted_field(g, fs.last());
    }
}

/// Outside quotes, text without quotes or commas adds to the current field.
proof fn lemma_csv_plain(fields: Seq<Seq<char>>, cur: Seq<char>, t: Seq<char>)
    requires
        !t.contains('"'),
        !t.contains(','),
    ensures
        csv_from((fields, cur, false, false), t) == (fields, cur + t, false, false),
    decreases t.len(),
{
    if t.len() == 0 {
        assert(cur + t =~= cur);
    } else {
        let u = t.drop_last();
        assert(!u.contains('"') && !u.contains(',')) by {
            if u.contains('"') {
                let k = choose|k: int| 0 <= k < u.len() && u[k] == '"';
                assert(t[k] == '"');
            }
            if u.contains(',') {
                let k = choose|k: int| 0 <= k < u.len() && u[k] == ',';
                assert(t[k] == ',');
            }
        }
        assert(t.last() != '"' && t.last() != ',') by {
            assert(t[t.len() - 1] == t.last());
        }
        lemma_csv_plain(fields, cur, u);
        assert((cur + u).push(t.last()) =~= cur + t);
    }
}

/// Fields without quotes or commas.
pub open spec fn plain_fields(fs: Seq<Seq<char>>) -> bool {
    forall|i: int| 0 <= i < fs.len() ==> !(#[trigger] fs[i]).contains('"') && !fs[i].contains(',')
}

proof fn lemma_csv_plain_row_state(fs: Seq<Seq<char>>)
    requires
        fs.len() >= 1,
        plain_fields(fs),
    ensures
        csv_from((Seq::empty(), Seq::empty(), false, false), join(fs, ","@)) == (
            trimmed_fields(fs.drop_last()),
            fs.last(),
            false,
            false,
        ),
    decreases fs.len(),
{
    let init: CsvState = (Seq::empty(), Seq::empty(), false, false);
    reveal_strlit(",");
    assert(fs[fs.len() - 1] == fs.last());
    if fs.len() == 1 {
        lemma_csv_plain(Seq::empty(), Seq::empty(), fs[0]);
        assert(Seq::<char>::empty() + fs[0] =~= fs[0]);
        assert(trimmed_fields(fs.drop_last()) =~= Seq::<Seq<char>>::empty());
    } else {
        let front = fs.drop_last();
        assert(plain_fields(front)) by {
            assert forall|i: int| 0 <= i < front.len() implies !(#[trigger] front[i]).contains('"')
                && !front[i].contains(',') by {
                assert(front[i] == fs[i]);
            }
        }
        lemma_csv_plain_row_state(front);
        let g = trimmed_fields(front.drop_last()).push(trim(front.last()));
        assert(g =~= trimmed_fields(front));
        assert(join(fs, ","@) == join(front, ","@) + ","@ + fs.last());
        lemma_csv_from_concat(init, join(front, ","@) + ","@, fs.last());
        lemma_csv_from_concat(init, join(front, ","@), ","@);
        assert(","@ =~= seq![',']);
        lemma_csv_from_one((trimmed_fields(front.drop_last()), front.last(), false, false), ',');
        lemma_csv_plain(g, Seq::empty(), fs.last());
        assert(Seq::<char>::empty() + fs.last() =~= fs.last());
    }
}

/// A line of fields without quotes or commas, joined by commas, reads back
/// as those fields, each trimmed.
pub proof fn lemma_csv_plain_row(fs: Seq<Seq<char>>)
    requires
        fs.len() >= 1,
        plain_fields(fs),
    ensures
        parse_csv_spec(join(fs, ","@)) == trimmed_fields(fs),
{
    lemma_csv_from_start(join(fs, ","@));
    lemma_csv_plain_row_state(fs);
    assert(trimmed_fields(fs.drop_last()).push(trim(fs.last())) =~= trimmed_fields(fs));
}

/// A line of quoted fields has a line break only where a field has one.
pub proof fn lemma_csv_row_text_no_newline(fs: Seq<Seq<char>>)
    requires
        forall|i: int| 0 <= i < fs.len() ==> !(#[trigger] fs[i]).contains('\n'),
    ensures
        !csv_row_text(fs).contains('\n'),
    decreases fs.len(),
{
    if fs.len() >= 1 {
        lemma_double_quotes_no_newline(fs.last());
        assert(!fs.last().contains('\n')) by {
            assert(fs[fs.len() - 1] == fs.last());
        }
        let e = escape_csv_spec(fs.last());
        assert(!e.contains('\n')) by {
            if e.contains('\n') {
                let k = choose|k: int| 0 <= k < e.len() && e[k] == '\n';
                if 0 < k < e.len() - 1 {
                    assert(double_quotes(fs.last())[k - 1] == '\n');
                }
            }
        }
        if fs.len() >= 2 {
            let front = fs.drop_last();
            assert forall|i: int| 0 <= i < front.len() implies !(#[trigger] front[i]).contains('\n') by {
                assert(front[i] == fs[i]);
            }
            lemma_csv_row_text_no_newline(front);
            let t = csv_row_text(front) + seq![','] + e;
            assert(!t.contains('\n')) by {
                if t.contains('\n') {
                    let k = choose|k: int| 0 <= k < t.len() && t[k] == '\n';
                    let n = csv_row_text(front).len();
                    if k < n {
                        assert(csv_row_text(front)[k] == '\n');
                    } else if k > n {
                        assert(e[k - n - 1] == '\n');
                    }
                }
            }
        }
    }
}

proof fn lemma_double_quotes_no_newline(s: Seq<char>)
    requires
        !s.contains('\n'),
    ensures
        !double_quotes(s).contains('\n'),
    decreases s.len(),
{
    if s.len() > 0 {
        let u = s.drop_last();
        assert(!u.contains('\n')) by {
            if u.contains('\n') {
                let k = choose|k: int| 0 <= k < u.len() && u[k] == '\n';
                assert(s[k] == '\n');
            }
        }
        assert(s.last() != '\n') by {
            assert(s[s.len() - 1] == s.last());
        }
        lemma_double_quotes_no_newline(u);
        let d = double_quotes(u);
        assert(!double_quotes(s).contains('\n')) by {
            if double_quotes(s).contains('\n') {
                let k = choose|k: int| 0 <= k < double_quotes(s).len() && double_quotes(s)[k] == '\n';
                if k < d.len() {
                    assert(d[k] == '\n');
                }
            }
        }
    }
}

/// A CSV line written as quoted fields joined by commas (as the contacts
/// export writes each row) is read back as those fields, each trimmed.
pub proof fn law_csv_fields_read_back(fs: Seq<Seq<char>>)
    requires
        fs.len() >= 1,
    ensures
        parse_csv_spec(csv_row_text(fs)) == trimmed_fields(fs),
{
    lemma_csv_from_start(csv_row_text(fs));
    lemma_csv_row_state(fs);
    assert(trimmed_fields(fs.drop_last()).push(trim(fs.last())) =~= trimmed_fields(fs));
}

/// Splits one CSV line into its trimmed fields.
pub fn parse_csv_line(line: &str) -> (r: Vec<String>)
    ensures
        r@.map_values(|f: String| f@) == parse_csv_spec(line@),
{
    let parts = parse_csv_chars(chars_of(line).as_slice());
    let mut out: Vec<String> = Vec::new();
    let mut i: usize = 0;
    while i < parts.len()
        invariant
            i <= parts@.len(),
            out@.len() == i,
            forall|k: int| 0 <= k < i ==> #[trigger] out@[k]@ == parts@[k]@,
        decreases parts.len() - i,
    {
        out.push(string_of(parts[i].as_slice()));
        i = i + 1;
    }
    assert(out@.map_values(|f: String| f@) =~= parts@.map_values(|f: Vec<char>| f@));
    out
}

/// Whether a character is an ASCII letter or digit.
pub open spec fn ascii_alnum(c: char) -> bool {
    ('a' <= c && c <= 'z') || ('A' <= c && c <= 'Z') || ('0' <= c && c <= '9')
}

fn is_ascii_alnum(c: char) -> (r: bool)
    ensures
        r == ascii_alnum(c),
{
    ('a' <= c && c <= 'z') || ('A' <= c && c <= 'Z') || ('0' <= c && c <= '9')
}

/// Whether a character beyond ASCII counts as alphabetic or numeric for
/// Unicode, as `char::is_alphanumeric` decides.
pub uninterp spec fn unicode_alphanumeric(c: char) -> bool;

/// Whether a character is alphabetic or numeric, as
/// `char::is_alphanumeric` decides: among ASCII characters, the letters and
/// digits.
pub open spec fn alphanumeric(c: char) -> bool {
    if ascii_char(c) {
        ascii_alnum(c)
    } else {
        unicode_alphanumeric(c)
    }
}

/// Calls `char::is_alphanumeric` on a character beyond ASCII; the Unicode
/// tables it consults are not restated.
#[verifier::external_body]
fn std_is_alphanumeric(c: char) -> (r: bool)
    ensures
        r == unicode_alphanumeric(c),
{
    c.is_alphanumeric()
}

/// Whether a character is alphabetic or numeric.
fn is_alphanumeric(c: char) -> (r: bool)
    ensures
        r == alphanumeric(c),
{
    if is_ascii_char(c) {
        is_ascii_alnum(c)
    } else {
        std_is_alphanumeric(c)
    }
}

/// Characters kept in full-text search input.
pub open spec fn fts_keeps(c: char) -> bool {
    alphanumeric(c) || is_ws(c) || c == '@' || c == '.' || c == '-' || c == '_'
}

/// A search input with only its letters, digits, whitespace and `@ . - _`.
pub open spec fn fts_keep_all(s: Seq<char>) -> Seq<char> {
    s.filter(|c: char| fts_keeps(c))
}

/// Keeps only letters, digits, whitespace and `@ . - _` of a search input,
/// so that it cannot carry full-text query syntax.
pub fn sanitize_fts_query(query: &str) -> (r: String)
    ensures
        r@ == fts_keep_all(query@),
{
    let s = chars_of(query);
    let mut out: Vec<char> = Vec::new();
    let mut i: usize = 0;
    while i < s.len()
        invariant
            i <= s@.len(),
            out@ == fts_keep_all(s@.take(i as int)),
        decreases s.len() - i,
    {
        proof {
            reveal_with_fuel(Seq::<_>::filter, 1);
            assert(s@.take(i + 1).drop_last() =~= s@.take(i as int));
        }
        let c = s[i];
        if is_alphanumeric(c) || is_whitespace(c) || c == '@' || c == '.' || c == '-' || c == '_' {
            out.push(c);
        }
        i = i + 1;
    }
    assert(s@.take(s@.len() as int) =~= s@);
    string_of(out.as_slice())
}

} // verus!
