//! Reading an event out of iCalendar text.
//!
//! The text is unfolded and parsed into components by the `icalendar`
//! crate; picking the event and decoding its properties happens here.

use crate::calendar::{
    compact_datetime, compact_keeps, law_compact_datetime, opt_event_view, CalendarDateTime,
    CalendarEvent, DateTimeView, EventView,
};
use crate::query::opt_view;
use crate::text::{chars_of, join, push_str, split_seq, str_eq, string_of};
use vstd::prelude::*;
use vstd::utf8::{
    decode_utf8, encode_utf8, encode_utf8_decode_utf8, encode_utf8_valid_utf8, is_char_boundary,
    length_of_first_scalar, pop_first_scalar, valid_utf8,
};

verus! {

/// A property parameter (`KEY=value`, the value optional).
#[derive(Debug)]
pub struct IcalParam {
    pub key: String,
    pub val: Option<String>,
}

/// A content line: name, value and parameters.
#[derive(Debug)]
pub struct IcalProperty {
    pub name: String,
    pub val: String,
    pub params: Vec<IcalParam>,
}

/// A component (`BEGIN:NAME` ... `END:NAME`) with its own properties.
#[derive(Debug)]
pub struct IcalComponent {
    pub name: String,
    pub properties: Vec<IcalProperty>,
}

/// Abstract property: parameters are (key, value) pairs.
pub struct PropView {
    pub name: Seq<char>,
    pub val: Seq<char>,
    pub params: Seq<(Seq<char>, Option<Seq<char>>)>,
}

/// Abstract component.
pub struct CompView {
    pub name: Seq<char>,
    pub properties: Seq<PropView>,
}

impl View for IcalParam {
    type V = (Seq<char>, Option<Seq<char>>);

    open spec fn view(&self) -> (Seq<char>, Option<Seq<char>>) {
        (self.key@, opt_view(self.val))
    }
}

impl View for IcalProperty {
    type V = PropView;

    open spec fn view(&self) -> PropView {
        PropView {
            name: self.name@,
            val: self.val@,
            params: self.params@.map_values(|q: IcalParam| q@),
        }
    }
}

impl View for IcalComponent {
    type V = CompView;

    open spec fn view(&self) -> CompView {
        CompView { name: self.name@, properties: self.properties@.map_values(|p: IcalProperty| p@) }
    }
}

pub open spec fn comps_view(v: Seq<IcalComponent>) -> Seq<CompView> {
    v.map_values(|c: IcalComponent| c@)
}

pub open spec fn opt_comps_view(o: Option<Vec<IcalComponent>>) -> Option<Seq<CompView>> {
    match o {
        Some(v) => Some(comps_view(v@)),
        None => None,
    }
}

/// Every piece of `pieces` split again at `sep`, in order.
pub open spec fn split_each(pieces: Seq<Seq<char>>, sep: Seq<char>) -> Seq<Seq<char>>
    decreases pieces.len(),
{
    if pieces.len() == 0 {
        Seq::empty()
    } else {
        split_each(pieces.drop_last(), sep) + split_seq(pieces.last(), sep)
    }
}

/// iCalendar text with its folded lines joined: the text is split at
/// "\r\n ", the pieces at "\n ", then at "\r\n\t", then at "\n\t", and all
/// pieces are put back together.
pub open spec fn unfolded(text: Seq<char>) -> Seq<char> {
    join(
        split_each(
            split_each(split_each(split_seq(text, "\r\n "@), "\n "@), "\r\n\t"@),
            "\n\t"@,
        ),
        Seq::empty(),
    )
}

/// Calls `icalendar::parser::unfold`, whose source splits the text at
/// "\r\n ", each piece at "\n ", "\r\n\t" and "\n\t" in turn, and collects
/// the pieces into one string.
#[verifier::external_body]
fn unfold_text(text: &str) -> (r: String)
    ensures
        r@ == unfolded(text@),
{
    icalendar::parser::unfold(text)
}

/// The components at the top of a parsed calendar (inside its VCALENDAR
/// when that is the first component), as `icalendar::parser::read_calendar`
/// returns them; `None` when it reports a syntax error.
pub uninterp spec fn calendar_components(text: Seq<char>) -> Option<Seq<CompView>>;

/// Calls `icalendar::parser::read_calendar` and copies the components it
/// returns, with their properties and parameters, into plain strings.
/// Nothing is claimed of the parse beyond its being a function of the text.
#[verifier::external_body]
fn read_components(text: &str) -> (r: Option<Vec<IcalComponent>>)
    ensures
        opt_comps_view(r) == calendar_components(text@),
{
    let cal = icalendar::parser::read_calendar(text).ok()?;
    Some(cal.components.iter().map(|c| IcalComponent {
        name: c.name.to_string(),
        properties: c.properties.iter().map(|p| IcalProperty {
            name: p.name.to_string(),
            val: p.val.to_string(),
            params: p.params.iter().map(|q| IcalParam {
                key: q.key.to_string(),
                val: q.val.as_ref().map(|v| v.to_string()),
            }).collect(),
        }).collect(),
    }).collect())
}

/// The length of `v` in UTF-8 bytes, as `str::len` reports it.
pub open spec fn utf8_len(v: Seq<char>) -> usize {
    encode_utf8(v).len() as usize
}

/// Whether byte offset `k` of `v` starts a character (or is its end).
pub open spec fn cuts_at(v: Seq<char>, k: int) -> bool {
    is_char_boundary(encode_utf8(v), k)
}

/// The characters between byte offsets `i` and `j` of `v`.
pub open spec fn byte_piece(v: Seq<char>, i: int, j: int) -> Seq<char> {
    decode_utf8(encode_utf8(v).subrange(i, j))
}

proof fn lemma_boundary_suffix(b: Seq<u8>, i: int, j: int)
    requires
        valid_utf8(b),
        is_char_boundary(b, i),
        is_char_boundary(b, j),
        i <= j,
    ensures
        valid_utf8(b.subrange(i, b.len() as int)),
        is_char_boundary(b.subrange(i, b.len() as int), j - i),
    decreases b.len(),
{
    if i == 0 {
        assert(b.subrange(0, b.len() as int) =~= b);
    } else {
        let l = length_of_first_scalar(b);
        let t = pop_first_scalar(b);
        assert(0 < i <= b.len());
        assert(valid_utf8(t));
        assert(1 <= l <= b.len());
        assert(is_char_boundary(t, i - l));
        assert(is_char_boundary(t, j - l));
        assert(i - l >= 0);
        lemma_boundary_suffix(t, i - l, j - l);
        assert(t.subrange(i - l, t.len() as int) =~= b.subrange(i, b.len() as int));
    }
}

/// The characters of `s` between two byte offsets that start characters.
pub(crate) fn byte_range(s: &str, i: usize, j: usize) -> (r: String)
    requires
        i <= j,
        i == 0 || cuts_at(s@, i as int),
        cuts_at(s@, j as int),
    ensures
        r@ == byte_piece(s@, i as int, j as int),
{
    proof {
        encode_utf8_valid_utf8(s@);
        assert(cuts_at(s@, 0));
        lemma_boundary_suffix(encode_utf8(s@), i as int, j as int);
    }
    let (_, rest) = s.split_at(i);
    let (mid, _) = rest.split_at(j - i);
    proof {
        assert(encode_utf8(mid@) =~= encode_utf8(s@).subrange(i as int, j as int));
        encode_utf8_decode_utf8(mid@);
    }
    mid.to_owned()
}

/// An all-day value as a date: eight bytes become "YYYY-MM-DD", any other
/// value is kept as it is.
pub open spec fn date_text(v: Seq<char>) -> Seq<char> {
    if utf8_len(v) == 8 {
        byte_piece(v, 0, 4) + "-"@ + byte_piece(v, 4, 6) + "-"@ + byte_piece(v, 6, 8)
    } else {
        v
    }
}

/// Whether the cuts of `date_text` fall between characters.
pub open spec fn date_cuts_ok(v: Seq<char>) -> bool {
    utf8_len(v) == 8 ==> cuts_at(v, 4) && cuts_at(v, 6) && cuts_at(v, 8)
}

/// A compact iCalendar timestamp ("20260415T090000Z") in ISO 8601 form
/// ("2026-04-15T09:00:00Z"): from a value of at least fifteen bytes the
/// date and time fields are taken and a final "Z" is kept; a shorter value
/// is kept as it is.
pub open spec fn iso_text(v: Seq<char>) -> Seq<char> {
    if utf8_len(v) >= 15 {
        byte_piece(v, 0, 4) + "-"@ + byte_piece(v, 4, 6) + "-"@ + byte_piece(v, 6, 8) + "T"@
            + byte_piece(v, 9, 11) + ":"@ + byte_piece(v, 11, 13) + ":"@ + byte_piece(v, 13, 15)
            + if v.len() > 0 && v.last() == 'Z' {
            "Z"@
        } else {
            Seq::empty()
        }
    } else {
        v
    }
}

/// Whether the cuts of `iso_text` fall between characters.
pub open spec fn iso_cuts_ok(v: Seq<char>) -> bool {
    utf8_len(v) >= 15 ==> {
        &&& cuts_at(v, 4)
        &&& cuts_at(v, 6)
        &&& cuts_at(v, 8)
        &&& cuts_at(v, 9)
        &&& cuts_at(v, 11)
        &&& cuts_at(v, 13)
        &&& cuts_at(v, 15)
    }
}

/// Converts a compact iCalendar timestamp to ISO 8601.
pub fn ical_to_iso(val: &str) -> (r: String)
    requires
        iso_cuts_ok(val@),
    ensures
        r@ == iso_text(val@),
{
    let n = val.len();
    if n >= 15 {
        let mut out: Vec<char> = Vec::new();
        push_str(&mut out, byte_range(val, 0, 4).as_str());
        push_str(&mut out, "-");
        push_str(&mut out, byte_range(val, 4, 6).as_str());
        push_str(&mut out, "-");
        push_str(&mut out, byte_range(val, 6, 8).as_str());
        push_str(&mut out, "T");
        push_str(&mut out, byte_range(val, 9, 11).as_str());
        push_str(&mut out, ":");
        push_str(&mut out, byte_range(val, 11, 13).as_str());
        push_str(&mut out, ":");
        push_str(&mut out, byte_range(val, 13, 15).as_str());
        let cs = chars_of(val);
        if cs.len() > 0 && cs[cs.len() - 1] == 'Z' {
            push_str(&mut out, "Z");
        }
        string_of(out.as_slice())
    } else {
        val.to_owned()
    }
}

/// Whether every character of `v` is ASCII.
pub open spec fn all_ascii(v: Seq<char>) -> bool {
    forall|i: int| 0 <= i < v.len() ==> (#[trigger] v[i]) as u32 <= 0x7f
}

/// ASCII text is encoded one byte per character, each byte the character.
proof fn lemma_ascii_encoding(v: Seq<char>)
    requires
        all_ascii(v),
    ensures
        encode_utf8(v).len() == v.len(),
        forall|i: int| 0 <= i < v.len() ==> (#[trigger] encode_utf8(v)[i]) as u32 == v[i] as u32,
    decreases v.len(),
{
    if v.len() > 0 {
        let t = v.drop_first();
        assert forall|i: int| 0 <= i < t.len() implies (#[trigger] t[i]) as u32 <= 0x7f by {
            assert(t[i] == v[i + 1]);
        }
        lemma_ascii_encoding(t);
        let c = v[0] as u32;
        assert(c <= 0x7f);
        assert(c <= 0x7f ==> ((c & 0x7f) as u8) as u32 == c) by (bit_vector);
        let b = vstd::utf8::encode_scalar(c);
        assert(b.len() == 1 && b[0] as u32 == c);
        assert(encode_utf8(v) == b + encode_utf8(t));
        assert forall|i: int| 0 <= i < v.len() implies (#[trigger] encode_utf8(v)[i]) as u32
            == v[i] as u32 by {
            if i > 0 {
                assert(t[i - 1] == v[i]);
            }
        }
    }
}

/// For ASCII text, byte offsets are character offsets: every offset up to
/// the length cuts between characters, and a byte piece is the subrange.
proof fn lemma_ascii_pieces(v: Seq<char>)
    requires
        all_ascii(v),
    ensures
        encode_utf8(v).len() == v.len(),
        forall|k: int| 0 <= k <= v.len() ==> #[trigger] cuts_at(v, k),
        forall|i: int, j: int|
            0 <= i <= j <= v.len() ==> #[trigger] byte_piece(v, i, j) == v.subrange(i, j),
{
    lemma_ascii_encoding(v);
    let b = encode_utf8(v);
    encode_utf8_valid_utf8(v);
    assert forall|k: int| 0 <= k <= v.len() implies #[trigger] cuts_at(v, k) by {
        if k < v.len() {
            vstd::utf8::is_char_boundary_iff_not_is_continuation_byte(b, k);
            assert(b[k] as u32 == v[k] as u32);
        } else {
            vstd::utf8::is_char_boundary_start_end_of_seq(b);
        }
    }
    assert forall|i: int, j: int| 0 <= i <= j <= v.len() implies #[trigger] byte_piece(v, i, j)
        == v.subrange(i, j) by {
        let w = v.subrange(i, j);
        assert forall|k: int| 0 <= k < w.len() implies (#[trigger] w[k]) as u32 <= 0x7f by {
            assert(w[k] == v[i + k]);
        }
        lemma_ascii_encoding(w);
        assert(b.subrange(i, j) =~= encode_utf8(w)) by {
            assert forall|k: int| 0 <= k < w.len() implies #[trigger] b.subrange(i, j)[k]
                == encode_utf8(w)[k] by {
                assert(w[k] == v[i + k]);
                assert(b[i + k] as u32 == v[i + k] as u32);
                assert(encode_utf8(w)[k] as u32 == w[k] as u32);
            }
        }
        encode_utf8_decode_utf8(w);
    }
}

/// Whether `v` is a compact timestamp: eight digits, "T", six digits, and
/// an optional final "Z".
pub open spec fn compact_stamp(v: Seq<char>) -> bool {
    &&& (v.len() == 15 || (v.len() == 16 && v[15] == 'Z'))
    &&& v[8] == 'T'
    &&& forall|i: int| 0 <= i < 15 && i != 8 ==> '0' <= #[trigger] v[i] <= '9'
}

/// Each character of `s` passes `p`, so filtering by `p` keeps all of `s`.
proof fn lemma_filter_keeps_all(s: Seq<char>, p: spec_fn(char) -> bool)
    requires
        forall|i: int| 0 <= i < s.len() ==> p(#[trigger] s[i]),
    ensures
        s.filter(p) == s,
    decreases s.len(),
{
    reveal_with_fuel(Seq::<_>::filter, 1);
    if s.len() > 0 {
        let t = s.drop_last();
        assert forall|i: int| 0 <= i < t.len() implies p(#[trigger] t[i]) by {
            assert(t[i] == s[i]);
        }
        lemma_filter_keeps_all(t, p);
        assert(p(s[s.len() - 1]));
        assert(t.push(s.last()) =~= s);
    }
}

/// The final "Z" of `v`, if it has one.
spec fn z_suffix(v: Seq<char>) -> Seq<char> {
    if v.len() > 0 && v.last() == 'Z' {
        "Z"@
    } else {
        Seq::empty()
    }
}

/// The ISO 8601 form of a compact timestamp, written with subranges.
spec fn iso_parts(v: Seq<char>) -> Seq<char> {
    v.subrange(0, 4) + "-"@ + v.subrange(4, 6) + "-"@ + v.subrange(6, 8) + "T"@ + v.subrange(9, 11)
        + ":"@ + v.subrange(11, 13) + ":"@ + v.subrange(13, 15) + z_suffix(v)
}

proof fn lemma_iso_text_of_stamp(v: Seq<char>)
    requires
        compact_stamp(v),
    ensures
        iso_cuts_ok(v),
        iso_text(v) == iso_parts(v),
{
    assert forall|i: int| 0 <= i < v.len() implies (#[trigger] v[i]) as u32 <= 0x7f by {
        if i != 8 && i != 15 {
            assert('0' <= v[i] <= '9');
        }
    }
    lemma_ascii_pieces(v);
    assert(utf8_len(v) == v.len());
    assert(cuts_at(v, 4) && cuts_at(v, 6) && cuts_at(v, 8) && cuts_at(v, 9));
    assert(cuts_at(v, 11) && cuts_at(v, 13) && cuts_at(v, 15));
    assert(byte_piece(v, 0, 4) == v.subrange(0, 4));
    assert(byte_piece(v, 4, 6) == v.subrange(4, 6));
    assert(byte_piece(v, 6, 8) == v.subrange(6, 8));
    assert(byte_piece(v, 9, 11) == v.subrange(9, 11));
    assert(byte_piece(v, 11, 13) == v.subrange(11, 13));
    assert(byte_piece(v, 13, 15) == v.subrange(13, 15));
}

/// Compacting the ISO layout of six runs that compacting keeps leaves the
/// runs and the "T" between date and time.
proof fn lemma_compact_layout(
    p0: Seq<char>,
    p1: Seq<char>,
    p2: Seq<char>,
    p3: Seq<char>,
    p4: Seq<char>,
    p5: Seq<char>,
    z: Seq<char>,
)
    requires
        p0.filter(|c: char| compact_keeps(c)) == p0,
        p1.filter(|c: char| compact_keeps(c)) == p1,
        p2.filter(|c: char| compact_keeps(c)) == p2,
        p3.filter(|c: char| compact_keeps(c)) == p3,
        p4.filter(|c: char| compact_keeps(c)) == p4,
        p5.filter(|c: char| compact_keeps(c)) == p5,
        z.filter(|c: char| compact_keeps(c)) == z,
    ensures
        (p0 + "-"@ + p1 + "-"@ + p2 + "T"@ + p3 + ":"@ + p4 + ":"@ + p5 + z).filter(
            |c: char| compact_keeps(c),
        ) == p0 + p1 + p2 + "T"@ + p3 + p4 + p5 + z,
{
    let keep = |c: char| compact_keeps(c);
    reveal_strlit("-");
    reveal_strlit(":");
    reveal_strlit("T");
    assert("-"@.filter(keep) =~= Seq::<char>::empty()) by {
        reveal_with_fuel(Seq::<_>::filter, 2);
    }
    assert(":"@.filter(keep) =~= Seq::<char>::empty()) by {
        reveal_with_fuel(Seq::<_>::filter, 2);
    }
    assert("T"@.filter(keep) =~= "T"@) by {
        reveal_with_fuel(Seq::<_>::filter, 2);
    }
    let a1 = p0 + "-"@;
    let a2 = a1 + p1;
    let a3 = a2 + "-"@;
    let a4 = a3 + p2;
    let a5 = a4 + "T"@;
    let a6 = a5 + p3;
    let a7 = a6 + ":"@;
    let a8 = a7 + p4;
    let a9 = a8 + ":"@;
    let a10 = a9 + p5;
    Seq::filter_distributes_over_add(p0, "-"@, keep);
    Seq::filter_distributes_over_add(a1, p1, keep);
    assert(a2.filter(keep) =~= p0 + p1);
    Seq::filter_distributes_over_add(a2, "-"@, keep);
    Seq::filter_distributes_over_add(a3, p2, keep);
    assert(a4.filter(keep) =~= p0 + p1 + p2);
    Seq::filter_distributes_over_add(a4, "T"@, keep);
    Seq::filter_distributes_over_add(a5, p3, keep);
    Seq::filter_distributes_over_add(a6, ":"@, keep);
    Seq::filter_distributes_over_add(a7, p4, keep);
    assert(a8.filter(keep) =~= p0 + p1 + p2 + "T"@ + p3 + p4);
    Seq::filter_distributes_over_add(a8, ":"@, keep);
    Seq::filter_distributes_over_add(a9, p5, keep);
    Seq::filter_distributes_over_add(a10, z, keep);
}

proof fn lemma_compact_iso_parts(v: Seq<char>)
    requires
        compact_stamp(v),
    ensures
        compact_datetime(iso_parts(v)) == v,
{
    law_compact_datetime(iso_parts(v));
    let z = z_suffix(v);
    lemma_digits_kept(v, 0, 4);
    lemma_digits_kept(v, 4, 6);
    lemma_digits_kept(v, 6, 8);
    lemma_digits_kept(v, 9, 11);
    lemma_digits_kept(v, 11, 13);
    lemma_digits_kept(v, 13, 15);
    lemma_z_kept(v);
    lemma_compact_layout(
        v.subrange(0, 4),
        v.subrange(4, 6),
        v.subrange(6, 8),
        v.subrange(9, 11),
        v.subrange(11, 13),
        v.subrange(13, 15),
        z,
    );
    lemma_stamp_rejoined(v);
}

/// Compacting keeps a final "Z".
proof fn lemma_z_kept(v: Seq<char>)
    ensures
        z_suffix(v).filter(|c: char| compact_keeps(c)) == z_suffix(v),
{
    reveal_strlit("Z");
    reveal_with_fuel(Seq::<_>::filter, 2);
    assert(z_suffix(v).filter(|c: char| compact_keeps(c)) =~= z_suffix(v));
}

/// A compact timestamp is its runs put back together around the "T".
proof fn lemma_stamp_rejoined(v: Seq<char>)
    requires
        compact_stamp(v),
    ensures
        v.subrange(0, 4) + v.subrange(4, 6) + v.subrange(6, 8) + "T"@ + v.subrange(9, 11)
            + v.subrange(11, 13) + v.subrange(13, 15) + z_suffix(v) == v,
{
    reveal_strlit("T");
    reveal_strlit("Z");
    assert(v.subrange(0, 4) + v.subrange(4, 6) =~= v.subrange(0, 6));
    assert(v.subrange(0, 6) + v.subrange(6, 8) =~= v.subrange(0, 8));
    assert(v.subrange(0, 8) + "T"@ =~= v.subrange(0, 9));
    assert(v.subrange(0, 9) + v.subrange(9, 11) =~= v.subrange(0, 11));
    assert(v.subrange(0, 11) + v.subrange(11, 13) =~= v.subrange(0, 13));
    assert(v.subrange(0, 13) + v.subrange(13, 15) =~= v.subrange(0, 15));
    assert(v.subrange(0, 15) + z_suffix(v) =~= v);
}

/// A compact timestamp, turned into ISO 8601 form and compacted again, is
/// the timestamp it was.
pub proof fn law_iso_round_trip(v: Seq<char>)
    requires
        compact_stamp(v),
    ensures
        iso_cuts_ok(v),
        compact_datetime(iso_text(v)) == v,
{
    lemma_iso_text_of_stamp(v);
    lemma_compact_iso_parts(v);
}

/// A run of digits has no dash or colon, so compacting keeps all of it.
proof fn lemma_digits_kept(v: Seq<char>, a: int, b: int)
    requires
        0 <= a <= b <= v.len(),
        forall|i: int| a <= i < b ==> '0' <= #[trigger] v[i] <= '9',
    ensures
        v.subrange(a, b).filter(|c: char| compact_keeps(c)) == v.subrange(a, b),
{
    let w = v.subrange(a, b);
    assert forall|i: int| 0 <= i < w.len() implies compact_keeps(#[trigger] w[i]) by {
        assert(w[i] == v[a + i]);
    }
    lemma_filter_keeps_all(w, |c: char| compact_keeps(c));
}

/// Whether a parameter list asks for a date value (`VALUE=DATE`).
pub open spec fn wants_date(params: Seq<(Seq<char>, Option<Seq<char>>)>) -> bool {
    exists|i: int|
        0 <= i < params.len() && #[trigger] params[i].0 == "VALUE"@ && params[i].1 == Some(
            "DATE"@,
        )
}

/// Whether every character of `v` is an ASCII digit.
pub open spec fn all_digits(v: Seq<char>) -> bool {
    forall|i: int| 0 <= i < v.len() ==> '0' <= #[trigger] v[i] <= '9'
}

/// Whether a DTSTART/DTEND property holds a date rather than a timestamp:
/// it says `VALUE=DATE`, or its value is eight digits.
pub open spec fn is_date_value(p: PropView) -> bool {
    wants_date(p.params) || (utf8_len(p.val) == 8 && all_digits(p.val))
}

/// The value of the first `TZID` parameter, if there is one.
pub open spec fn first_tzid(params: Seq<(Seq<char>, Option<Seq<char>>)>) -> Option<Seq<char>>
    decreases params.len(),
{
    if params.len() == 0 {
        None
    } else if params[0].0 == "TZID"@ {
        params[0].1
    } else {
        first_tzid(params.drop_first())
    }
}

/// The start or end time a DTSTART/DTEND property stands for.
pub open spec fn datetime_of(p: PropView) -> DateTimeView {
    if is_date_value(p) {
        DateTimeView { date: Some(date_text(p.val)), date_time: None, time_zone: None }
    } else {
        DateTimeView { date: None, date_time: Some(iso_text(p.val)), time_zone: first_tzid(p.params) }
    }
}

proof fn lemma_first_tzid_at(params: Seq<(Seq<char>, Option<Seq<char>>)>, k: int, z: Seq<char>)
    requires
        0 <= k < params.len(),
        params[k] == ("TZID"@, Some(z)),
        forall|j: int| 0 <= j < k ==> (#[trigger] params[j]).0 != "TZID"@,
    ensures
        first_tzid(params) == Some(z),
    decreases k,
{
    if k > 0 {
        let t = params.drop_first();
        assert forall|j: int| 0 <= j < k - 1 implies (#[trigger] t[j]).0 != "TZID"@ by {
            assert(t[j] == params[j + 1]);
        }
        assert(params[0].0 != "TZID"@);
        lemma_first_tzid_at(t, k - 1, z);
    }
}

proof fn lemma_first_tzid_none(params: Seq<(Seq<char>, Option<Seq<char>>)>)
    requires
        forall|j: int| 0 <= j < params.len() ==> (#[trigger] params[j]).0 != "TZID"@,
    ensures
        first_tzid(params) is None,
    decreases params.len(),
{
    if params.len() > 0 {
        let t = params.drop_first();
        assert forall|j: int| 0 <= j < t.len() implies (#[trigger] t[j]).0 != "TZID"@ by {
            assert(t[j] == params[j + 1]);
        }
        assert(params[0].0 != "TZID"@);
        lemma_first_tzid_none(t);
    }
}

/// A start or end time that is not a date keeps its time zone. For a
/// property with no `VALUE=DATE` parameter and a value other than eight
/// bytes, decoding gives no date, the value in ISO 8601 form, and as zone
/// the value `z` of the first `TZID` parameter, or no zone when the
/// property has no `TZID` parameter.
pub proof fn law_time_zone_kept(p: PropView, k: int, z: Seq<char>)
    requires
        utf8_len(p.val) != 8,
        forall|i: int| 0 <= i < p.params.len() ==> #[trigger] p.params[i] != ("VALUE"@, Some("DATE"@)),
    ensures
        datetime_of(p).date is None,
        datetime_of(p).date_time == Some(iso_text(p.val)),
        (0 <= k < p.params.len() && p.params[k] == ("TZID"@, Some(z)) && forall|j: int|
            0 <= j < k ==> (#[trigger] p.params[j]).0 != "TZID"@) ==> datetime_of(p).time_zone == Some(z),
        (forall|j: int| 0 <= j < p.params.len() ==> (#[trigger] p.params[j]).0 != "TZID"@)
            ==> datetime_of(p).time_zone is None,
{
    assert(!wants_date(p.params)) by {
        if wants_date(p.params) {
            let i = choose|i: int|
                0 <= i < p.params.len() && #[trigger] p.params[i].0 == "VALUE"@ && p.params[i].1
                    == Some("DATE"@);
            assert(p.params[i] == ("VALUE"@, Some("DATE"@)));
        }
    }
    if 0 <= k < p.params.len() && p.params[k] == ("TZID"@, Some(z)) && forall|j: int|
        0 <= j < k ==> (#[trigger] p.params[j]).0 != "TZID"@ {
        lemma_first_tzid_at(p.params, k, z);
    }
    if forall|j: int| 0 <= j < p.params.len() ==> (#[trigger] p.params[j]).0 != "TZID"@ {
        lemma_first_tzid_none(p.params);
    }
}

/// Whether the value of a DTSTART/DTEND property can be cut into its fields
/// without splitting a character.
pub open spec fn datetime_ok(p: PropView) -> bool {
    if is_date_value(p) {
        date_cuts_ok(p.val)
    } else {
        iso_cuts_ok(p.val)
    }
}

fn asks_for_date(params: &Vec<IcalParam>) -> (r: bool)
    ensures
        r == wants_date(params@.map_values(|q: IcalParam| q@)),
{
    let ghost pv = params@.map_values(|q: IcalParam| q@);
    let mut i: usize = 0;
    while i < params.len()
        invariant
            i <= params@.len(),
            pv == params@.map_values(|q: IcalParam| q@),
            forall|k: int|
                0 <= k < i ==> !(pv[k].0 == "VALUE"@ && pv[k].1 == Some("DATE"@)),
        decreases params.len() - i,
    {
        let p = &params[i];
        let is_date = match &p.val {
            Some(v) => str_eq(v.as_str(), "DATE"),
            None => false,
        };
        if str_eq(p.key.as_str(), "VALUE") && is_date {
            assert(pv[i as int].0 == "VALUE"@ && pv[i as int].1 == Some("DATE"@));
            return true;
        }
        i = i + 1;
    }
    false
}

fn digits_only(cs: &Vec<char>) -> (r: bool)
    ensures
        r == all_digits(cs@),
{
    let mut i: usize = 0;
    while i < cs.len()
        invariant
            i <= cs@.len(),
            forall|k: int| 0 <= k < i ==> '0' <= #[trigger] cs@[k] <= '9',
        decreases cs.len() - i,
    {
        if !('0' <= cs[i] && cs[i] <= '9') {
            assert(!('0' <= cs@[i as int] <= '9'));
            return false;
        }
        i = i + 1;
    }
    true
}

fn tzid_of(params: &Vec<IcalParam>) -> (r: Option<String>)
    ensures
        opt_view(r) == first_tzid(params@.map_values(|q: IcalParam| q@)),
{
    let ghost pv = params@.map_values(|q: IcalParam| q@);
    assert(pv.skip(0) =~= pv);
    let mut i: usize = 0;
    while i < params.len()
        invariant
            i <= params@.len(),
            pv == params@.map_values(|q: IcalParam| q@),
            first_tzid(pv) == first_tzid(pv.skip(i as int)),
        decreases params.len() - i,
    {
        assert(pv.skip(i as int).drop_first() =~= pv.skip(i + 1));
        assert(pv.skip(i as int)[0] == pv[i as int]);
        if str_eq(params[i].key.as_str(), "TZID") {
            return match &params[i].val {
                Some(v) => Some(v.clone()),
                None => None,
            };
        }
        i = i + 1;
    }
    None
}

fn is_date_prop(prop: &IcalProperty) -> (r: bool)
    ensures
        r == is_date_value(prop@),
{
    let cs = chars_of(prop.val.as_str());
    asks_for_date(&prop.params) || (prop.val.as_str().len() == 8 && digits_only(&cs))
}

/// Whether a DTSTART/DTEND property can be decoded without cutting a
/// character in two.
pub fn datetime_splits_ok(prop: &IcalProperty) -> (r: bool)
    ensures
        r == datetime_ok(prop@),
{
    let v = prop.val.as_str();
    let n = v.len();
    if is_date_prop(prop) {
        n != 8 || (v.is_char_boundary(4) && v.is_char_boundary(6) && v.is_char_boundary(8))
    } else {
        n < 15 || (v.is_char_boundary(4) && v.is_char_boundary(6) && v.is_char_boundary(8)
            && v.is_char_boundary(9) && v.is_char_boundary(11) && v.is_char_boundary(13)
            && v.is_char_boundary(15))
    }
}

/// Decodes a DTSTART/DTEND property: a date for all-day values, otherwise an
/// ISO 8601 timestamp with the property's time zone.
pub fn parse_ical_datetime(prop: &IcalProperty) -> (r: CalendarDateTime)
    requires
        datetime_ok(prop@),
    ensures
        r@ == datetime_of(prop@),
{
    let v = prop.val.as_str();
    if is_date_prop(prop) {
        let date = if v.len() == 8 {
            let mut d: Vec<char> = Vec::new();
            push_str(&mut d, byte_range(v, 0, 4).as_str());
            push_str(&mut d, "-");
            push_str(&mut d, byte_range(v, 4, 6).as_str());
            push_str(&mut d, "-");
            push_str(&mut d, byte_range(v, 6, 8).as_str());
            string_of(d.as_slice())
        } else {
            v.to_owned()
        };
        CalendarDateTime { date: Some(date), date_time: None, time_zone: None }
    } else {
        CalendarDateTime {
            date: None,
            date_time: Some(ical_to_iso(v)),
            time_zone: tzid_of(&prop.params),
        }
    }
}

/// Index of the last property named `name`.
pub open spec fn last_index(props: Seq<PropView>, name: Seq<char>) -> Option<int>
    decreases props.len(),
{
    if props.len() == 0 {
        None
    } else if props.last().name == name {
        Some(props.len() - 1)
    } else {
        last_index(props.drop_last(), name)
    }
}

/// The value of the last property named `name`.
pub open spec fn last_value(props: Seq<PropView>, name: Seq<char>) -> Option<Seq<char>> {
    match last_index(props, name) {
        Some(i) => Some(props[i].val),
        None => None,
    }
}

/// The time of the last property named `name`.
pub open spec fn last_time(props: Seq<PropView>, name: Seq<char>) -> Option<DateTimeView> {
    match last_index(props, name) {
        Some(i) => Some(datetime_of(props[i])),
        None => None,
    }
}

/// The event a VEVENT component describes. Where a property occurs more
/// than once the last occurrence counts; the id is the resource URL, or the
/// UID (empty if none) when no URL is given.
pub open spec fn event_of(c: CompView, url: Seq<char>) -> EventView {
    let uid = match last_value(c.properties, "UID"@) {
        Some(u) => u,
        None => Seq::empty(),
    };
    EventView {
        id: if url.len() == 0 {
            uid
        } else {
            url
        },
        summary: last_value(c.properties, "SUMMARY"@),
        description: last_value(c.properties, "DESCRIPTION"@),
        location: last_value(c.properties, "LOCATION"@),
        start: last_time(c.properties, "DTSTART"@),
        end: last_time(c.properties, "DTEND"@),
        html_link: None,
        hangout_link: None,
    }
}

proof fn lemma_last_index_at(props: Seq<PropView>, name: Seq<char>, i: int)
    requires
        0 <= i < props.len(),
        props[i].name == name,
        forall|j: int| i < j < props.len() ==> (#[trigger] props[j]).name != name,
    ensures
        last_index(props, name) == Some(i),
    decreases props.len(),
{
    if i < props.len() - 1 {
        let t = props.drop_last();
        assert(props.last() == props[props.len() - 1]);
        assert forall|j: int| i < j < t.len() implies (#[trigger] t[j]).name != name by {
            assert(t[j] == props[j]);
        }
        lemma_last_index_at(t, name, i);
        assert(t[i] == props[i]);
    }
}

/// An event's start and end are its last DTSTART and DTEND properties
/// decoded: with `i` the last DTSTART of the component, the start is the
/// decoding of property `i` (and likewise for DTEND).
pub proof fn law_event_times_from_last(c: CompView, url: Seq<char>, name: Seq<char>, i: int)
    requires
        name == "DTSTART"@ || name == "DTEND"@,
        0 <= i < c.properties.len(),
        c.properties[i].name == name,
        forall|j: int| i < j < c.properties.len() ==> (#[trigger] c.properties[j]).name != name,
    ensures
        name == "DTSTART"@ ==> event_of(c, url).start == Some(datetime_of(c.properties[i])),
        name == "DTEND"@ ==> event_of(c, url).end == Some(datetime_of(c.properties[i])),
{
    lemma_last_index_at(c.properties, name, i);
}

/// Whether a property is a DTSTART or a DTEND.
pub open spec fn is_time_prop(p: PropView) -> bool {
    p.name == "DTSTART"@ || p.name == "DTEND"@
}

/// Whether every DTSTART and DTEND of a component can be decoded.
pub open spec fn times_ok(c: CompView) -> bool {
    forall|i: int|
        0 <= i < c.properties.len() && is_time_prop(#[trigger] c.properties[i]) ==> datetime_ok(
            c.properties[i],
        )
}

/// Index of the first VEVENT component.
pub open spec fn first_event(cs: Seq<CompView>) -> Option<int>
    decreases cs.len(),
{
    if cs.len() == 0 {
        None
    } else if cs[0].name == "VEVENT"@ {
        Some(0)
    } else {
        match first_event(cs.drop_first()) {
            Some(i) => Some(i + 1),
            None => None,
        }
    }
}

/// Whether the first VEVENT (if any) can be decoded.
pub open spec fn components_ok(cs: Seq<CompView>) -> bool {
    match first_event(cs) {
        Some(i) => times_ok(cs[i]),
        None => true,
    }
}

/// The event of the first VEVENT component, if there is one.
pub open spec fn event_from(cs: Seq<CompView>, url: Seq<char>) -> Option<EventView> {
    match first_event(cs) {
        Some(i) => Some(event_of(cs[i], url)),
        None => None,
    }
}

/// The event read from iCalendar text: `None` when the text does not parse,
/// holds no VEVENT, or when a DTSTART/DTEND value of the first VEVENT
/// would have to be cut inside a character.
pub open spec fn ical_event(text: Seq<char>, url: Seq<char>) -> Option<EventView> {
    match calendar_components(unfolded(text)) {
        Some(cs) => if components_ok(cs) {
            event_from(cs, url)
        } else {
            None
        },
        None => None,
    }
}

proof fn property_names_differ()
    ensures
        "UID"@.len() == 3,
        "SUMMARY"@.len() == 7 && "SUMMARY"@[0] == 'S',
        "DESCRIPTION"@.len() == 11,
        "LOCATION"@.len() == 8,
        "DTSTART"@.len() == 7 && "DTSTART"@[0] == 'D',
        "DTEND"@.len() == 5,
{
    reveal_strlit("UID");
    reveal_strlit("SUMMARY");
    reveal_strlit("DESCRIPTION");
    reveal_strlit("LOCATION");
    reveal_strlit("DTSTART");
    reveal_strlit("DTEND");
}

/// Whether an index found at run time is the one `o` names.
pub open spec fn same_index(found: Option<usize>, o: Option<int>) -> bool {
    match (found, o) {
        (Some(a), Some(b)) => a as int == b,
        (None, None) => true,
        _ => false,
    }
}

proof fn lemma_last_index(props: Seq<PropView>, name: Seq<char>)
    ensures
        match last_index(props, name) {
            Some(i) => 0 <= i < props.len() && props[i].name == name,
            None => true,
        },
    decreases props.len(),
{
    if props.len() > 0 && props.last().name != name {
        lemma_last_index(props.drop_last(), name);
    }
}

fn find_event(comps: &Vec<IcalComponent>) -> (r: Option<usize>)
    ensures
        match r {
            Some(i) => first_event(comps_view(comps@)) == Some(i as int) && i < comps@.len(),
            None => first_event(comps_view(comps@)) is None,
        },
{
    let ghost cv = comps_view(comps@);
    let mut i: usize = 0;
    assert(cv.skip(0) =~= cv);
    while i < comps.len()
        invariant
            i <= comps@.len(),
            cv == comps_view(comps@),
            forall|k: int| 0 <= k < i ==> cv[k].name != "VEVENT"@,
            first_event(cv) == match first_event(cv.skip(i as int)) {
                Some(j) => Some(j + i),
                None => None,
            },
        decreases comps.len() - i,
    {
        assert(cv.skip(i as int).drop_first() =~= cv.skip(i + 1));
        assert(cv.skip(i as int)[0] == cv[i as int]);
        if str_eq(comps[i].name.as_str(), "VEVENT") {
            return Some(i);
        }
        i = i + 1;
    }
    None
}

fn value_at(props: &Vec<IcalProperty>, k: Option<usize>, name: Ghost<Seq<char>>) -> (r: Option<String>)
    requires
        same_index(k, last_index(props@.map_values(|p: IcalProperty| p@), name@)),
    ensures
        opt_view(r) == last_value(props@.map_values(|p: IcalProperty| p@), name@),
{
    proof {
        lemma_last_index(props@.map_values(|p: IcalProperty| p@), name@);
    }
    match k {
        Some(i) => Some(props[i].val.clone()),
        None => None,
    }
}

/// Decodes the first VEVENT of parsed components.
pub fn event_from_components(comps: &Vec<IcalComponent>, url: &str) -> (r: Option<CalendarEvent>)
    requires
        components_ok(comps_view(comps@)),
    ensures
        opt_event_view(r) == event_from(comps_view(comps@), url@),
{
    let ghost cv = comps_view(comps@);
    proof {
        reveal_strlit("UID");
        reveal_strlit("SUMMARY");
        reveal_strlit("DESCRIPTION");
        reveal_strlit("LOCATION");
        reveal_strlit("DTSTART");
        reveal_strlit("DTEND");
    }
    let ei = match find_event(comps) {
        Some(i) => i,
        None => return None,
    };
    let props = &comps[ei].properties;
    let ghost pv = props@.map_values(|p: IcalProperty| p@);
    assert(cv[ei as int].properties == pv);
    let mut uid: Option<usize> = None;
    let mut summary: Option<usize> = None;
    let mut description: Option<usize> = None;
    let mut location: Option<usize> = None;
    let mut start: Option<usize> = None;
    let mut end: Option<usize> = None;
    let mut i: usize = 0;
    while i < props.len()
        invariant
            i <= props@.len(),
            pv == props@.map_values(|p: IcalProperty| p@),
            same_index(uid, last_index(pv.take(i as int), "UID"@)),
            same_index(summary, last_index(pv.take(i as int), "SUMMARY"@)),
            same_index(description, last_index(pv.take(i as int), "DESCRIPTION"@)),
            same_index(location, last_index(pv.take(i as int), "LOCATION"@)),
            same_index(start, last_index(pv.take(i as int), "DTSTART"@)),
            same_index(end, last_index(pv.take(i as int), "DTEND"@)),
        decreases props.len() - i,
    {
        proof {
            property_names_differ();
            assert(pv.take(i + 1).drop_last() =~= pv.take(i as int));
            assert(pv.take(i + 1).last() == props@[i as int]@);
        }
        let name = props[i].name.as_str();
        if str_eq(name, "UID") {
            uid = Some(i);
        } else if str_eq(name, "SUMMARY") {
            summary = Some(i);
        } else if str_eq(name, "DESCRIPTION") {
            description = Some(i);
        } else if str_eq(name, "LOCATION") {
            location = Some(i);
        } else if str_eq(name, "DTSTART") {
            start = Some(i);
        } else if str_eq(name, "DTEND") {
            end = Some(i);
        }
        i = i + 1;
    }
    assert(pv.take(pv.len() as int) =~= pv);
    proof {
        lemma_last_index(pv, "UID"@);
        lemma_last_index(pv, "SUMMARY"@);
        lemma_last_index(pv, "DESCRIPTION"@);
        lemma_last_index(pv, "LOCATION"@);
        lemma_last_index(pv, "DTSTART"@);
        lemma_last_index(pv, "DTEND"@);
    }
    let id = if url.is_empty() {
        match value_at(props, uid, Ghost("UID"@)) {
            Some(u) => u,
            None => url.to_owned(),
        }
    } else {
        url.to_owned()
    };
    let start_time = match start {
        Some(k) => {
            assert(pv[k as int].name == "DTSTART"@);
            assert(is_time_prop(pv[k as int]));
            assert(cv[ei as int].properties[k as int] == pv[k as int]);
            Some(parse_ical_datetime(&props[k]))
        },
        None => None,
    };
    let end_time = match end {
        Some(k) => {
            assert(pv[k as int].name == "DTEND"@);
            assert(is_time_prop(pv[k as int]));
            assert(cv[ei as int].properties[k as int] == pv[k as int]);
            Some(parse_ical_datetime(&props[k]))
        },
        None => None,
    };
    let ev = CalendarEvent {
        id,
        summary: value_at(props, summary, Ghost("SUMMARY"@)),
        description: value_at(props, description, Ghost("DESCRIPTION"@)),
        location: value_at(props, location, Ghost("LOCATION"@)),
        start: start_time,
        end: end_time,
        html_link: None,
        hangout_link: None,
    };
    let ghost want = event_of(cv[ei as int], url@);
    assert(ev@.id == want.id);
    assert(ev@.summary == want.summary);
    assert(ev@.start == want.start);
    assert(ev@.end == want.end);
    assert(ev@ == want);
    Some(ev)
}

fn components_decodable(comps: &Vec<IcalComponent>) -> (r: bool)
    ensures
        r == components_ok(comps_view(comps@)),
{
    let ghost cv = comps_view(comps@);
    match find_event(comps) {
        None => true,
        Some(ei) => {
            let props = &comps[ei].properties;
            let ghost pv = props@.map_values(|p: IcalProperty| p@);
            assert(cv[ei as int].properties == pv);
            let mut i: usize = 0;
            while i < props.len()
                invariant
                    i <= props@.len(),
                    pv == props@.map_values(|p: IcalProperty| p@),
                    ei < cv.len(),
                    cv == comps_view(comps@),
                    first_event(cv) == Some(ei as int),
                    cv[ei as int].properties == pv,
                    forall|k: int| 0 <= k < i && is_time_prop(#[trigger] pv[k]) ==> datetime_ok(pv[k]),
                decreases props.len() - i,
            {
                let name = props[i].name.as_str();
                if str_eq(name, "DTSTART") || str_eq(name, "DTEND") {
                    assert(pv[i as int] == props@[i as int]@);
                    if !datetime_splits_ok(&props[i]) {
                        assert(is_time_prop(pv[i as int]));
                        assert(cv[ei as int].properties[i as int] == pv[i as int]);
                        assert(!times_ok(cv[ei as int]));
                        return false;
                    }
                }
                i = i + 1;
            }
            true
        },
    }
}

/// Reads the first event of an iCalendar object. Its id is `resource_url`
/// when that is not empty, otherwise the event's UID.
pub fn parse_ical_event(ical_data: &str, resource_url: &str) -> (r: Option<CalendarEvent>)
    ensures
        opt_event_view(r) == ical_event(ical_data@, resource_url@),
{
    let text = unfold_text(ical_data);
    match read_components(text.as_str()) {
        Some(comps) => {
            if components_decodable(&comps) {
                event_from_components(&comps, resource_url)
            } else {
                None
            }
        },
        None => None,
    }
}

} // verus!
