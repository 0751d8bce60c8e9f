//! Reading contacts out of vCard text.

use crate::text::{
    chars_of, contains, contains_seq, find, find_char, has_prefix, lines_of, lines_spec,
    slice_chars, split, split_char, split_on, split_seq, starts_with, string_of, to_uppercase,
    trim, trim_char_end, trim_chars, uppercase,
};
use vstd::prelude::*;

verus! {

/// An email address given for a new contact.
pub struct EmailInput {
    pub email: String,
    pub email_type: String,
    pub is_primary: bool,
}

/// A phone number given for a new contact.
pub struct PhoneInput {
    pub number: String,
    pub phone_type: String,
}

/// What an import found for one contact.
pub struct ContactDraft {
    pub display_name: String,
    pub given_name: Option<String>,
    pub surname: Option<String>,
    pub company: Option<String>,
    pub job_title: Option<String>,
    pub emails: Vec<EmailInput>,
    pub phones: Vec<PhoneInput>,
}

/// Abstract contact fields: an email is (address, type, primary), a phone
/// is (number, type).
pub struct DraftView {
    pub display_name: Seq<char>,
    pub given_name: Option<Seq<char>>,
    pub surname: Option<Seq<char>>,
    pub company: Option<Seq<char>>,
    pub job_title: Option<Seq<char>>,
    pub emails: Seq<(Seq<char>, Seq<char>, bool)>,
    pub phones: Seq<(Seq<char>, Seq<char>)>,
}

pub open spec fn opt_seq(o: Option<Vec<char>>) -> Option<Seq<char>> {
    match o {
        Some(v) => Some(v@),
        None => None,
    }
}

pub open spec fn opt_str(o: Option<String>) -> Option<Seq<char>> {
    match o {
        Some(v) => Some(v@),
        None => None,
    }
}

pub open spec fn email_views(v: Seq<EmailInput>) -> Seq<(Seq<char>, Seq<char>, bool)> {
    v.map_values(|e: EmailInput| (e.email@, e.email_type@, e.is_primary))
}

pub open spec fn phone_views(v: Seq<PhoneInput>) -> Seq<(Seq<char>, Seq<char>)> {
    v.map_values(|p: PhoneInput| (p.number@, p.phone_type@))
}

impl View for ContactDraft {
    type V = DraftView;

    open spec fn view(&self) -> DraftView {
        DraftView {
            display_name: self.display_name@,
            given_name: opt_str(self.given_name),
            surname: opt_str(self.surname),
            company: opt_str(self.company),
            job_title: opt_str(self.job_title),
            emails: email_views(self.emails@),
            phones: phone_views(self.phones@),
        }
    }
}

/// The type of an `EMAIL` line, read from what precedes its colon.
pub open spec fn email_type_of(prefix: Seq<char>) -> Seq<char> {
    let u = uppercase(prefix);
    if contains_seq(u, "WORK"@) {
        "work"@
    } else if contains_seq(u, "HOME"@) {
        "home"@
    } else {
        "other"@
    }
}

/// The type of a `TEL` line, read from what precedes its colon.
pub open spec fn phone_type_of(prefix: Seq<char>) -> Seq<char> {
    let u = uppercase(prefix);
    if contains_seq(u, "CELL"@) || contains_seq(u, "MOBILE"@) {
        "mobile"@
    } else if contains_seq(u, "WORK"@) {
        "work"@
    } else if contains_seq(u, "HOME"@) {
        "home"@
    } else {
        "other"@
    }
}

/// A text value kept only when it is not empty.
pub open spec fn non_empty(v: Seq<char>, old: Option<Seq<char>>) -> Option<Seq<char>> {
    if v.len() > 0 {
        Some(v)
    } else {
        old
    }
}

/// What one line of a card adds. The first matching rule applies: `FN:`,
/// `N:` (family and given name, the first two `;`-separated parts),
/// a line that mentions `EMAIL` and has a colon, one that mentions `TEL`
/// and has a colon, `ORG:` (trailing `;` removed) and `TITLE:`.
pub open spec fn vcard_line_step(acc: DraftView, line0: Seq<char>) -> DraftView {
    let line = trim_char_end(line0, '\r');
    if has_prefix(line, "FN:"@) {
        DraftView { display_name: line.skip(3), ..acc }
    } else if has_prefix(line, "N:"@) {
        let parts = split_char(line.skip(2), ';');
        if parts.len() >= 2 {
            DraftView {
                surname: non_empty(trim(parts[0]), acc.surname),
                given_name: non_empty(trim(parts[1]), acc.given_name),
                ..acc
            }
        } else {
            acc
        }
    } else if contains_seq(line, "EMAIL"@) && find_char(line, ':') is Some {
        let c = find_char(line, ':')->0;
        DraftView {
            emails: acc.emails.push(
                (trim(line.skip(c + 1)), email_type_of(line.take(c)), acc.emails.len() == 0),
            ),
            ..acc
        }
    } else if contains_seq(line, "TEL"@) && find_char(line, ':') is Some {
        let c = find_char(line, ':')->0;
        DraftView {
            phones: acc.phones.push((trim(line.skip(c + 1)), phone_type_of(line.take(c)))),
            ..acc
        }
    } else if has_prefix(line, "ORG:"@) {
        DraftView { company: non_empty(trim(trim_char_end(line.skip(4), ';')), acc.company), ..acc }
    } else if has_prefix(line, "TITLE:"@) {
        DraftView { job_title: non_empty(trim(line.skip(6)), acc.job_title), ..acc }
    } else {
        acc
    }
}

pub open spec fn empty_draft() -> DraftView {
    DraftView {
        display_name: Seq::empty(),
        given_name: None,
        surname: None,
        company: None,
        job_title: None,
        emails: Seq::empty(),
        phones: Seq::empty(),
    }
}

/// The fields read from a sequence of card lines.
pub open spec fn vcard_lines(lines: Seq<Seq<char>>) -> DraftView
    decreases lines.len(),
{
    if lines.len() == 0 {
        empty_draft()
    } else {
        vcard_line_step(vcard_lines(lines.drop_last()), lines.last())
    }
}

/// The contact one card describes: none for a piece without `BEGIN:VCARD`
/// or without a name and an email. A card without a name is named after
/// its first email.
pub open spec fn vcard_card(raw: Seq<char>) -> Option<DraftView> {
    let card = trim(raw);
    if card.len() == 0 || !contains_seq(card, "BEGIN:VCARD"@) {
        None
    } else {
        let acc = vcard_lines(lines_spec(card));
        let name = if acc.display_name.len() == 0 && acc.emails.len() > 0 {
            acc.emails[0].0
        } else {
            acc.display_name
        };
        if name.len() == 0 && acc.emails.len() == 0 {
            None
        } else {
            Some(DraftView { display_name: name, ..acc })
        }
    }
}

/// The values held by the `Some`s of `s`, in order.
pub open spec fn somes<T>(s: Seq<Option<T>>) -> Seq<T>
    decreases s.len(),
{
    if s.len() == 0 {
        Seq::empty()
    } else {
        match s.last() {
            Some(v) => somes(s.drop_last()).push(v),
            None => somes(s.drop_last()),
        }
    }
}

/// The contacts of a vCard file: the text is cut at each `END:VCARD`.
pub open spec fn vcard_contacts(data: Seq<char>) -> Seq<DraftView> {
    somes(split_seq(data, "END:VCARD"@).map_values(|c: Seq<char>| vcard_card(c)))
}

/// Exec state while reading one card.
struct CardFields {
    display_name: Vec<char>,
    given_name: Option<Vec<char>>,
    surname: Option<Vec<char>>,
    company: Option<Vec<char>>,
    job_title: Option<Vec<char>>,
    emails: Vec<EmailInput>,
    phones: Vec<PhoneInput>,
}

impl View for CardFields {
    type V = DraftView;

    closed spec fn view(&self) -> DraftView {
        DraftView {
            display_name: self.display_name@,
            given_name: opt_seq(self.given_name),
            surname: opt_seq(self.surname),
            company: opt_seq(self.company),
            job_title: opt_seq(self.job_title),
            emails: email_views(self.emails@),
            phones: phone_views(self.phones@),
        }
    }
}

fn keep_non_empty(v: Vec<char>, old: Option<Vec<char>>) -> (r: Option<Vec<char>>)
    ensures
        opt_seq(r) == non_empty(v@, opt_seq(old)),
{
    if v.len() > 0 {
        Some(v)
    } else {
        old
    }
}

fn email_type(prefix: &[char]) -> (r: String)
    ensures
        r@ == email_type_of(prefix@),
{
    let u = to_uppercase(prefix);
    if contains(u.as_slice(), chars_of("WORK").as_slice()) {
        string_of(chars_of("work").as_slice())
    } else if contains(u.as_slice(), chars_of("HOME").as_slice()) {
        string_of(chars_of("home").as_slice())
    } else {
        string_of(chars_of("other").as_slice())
    }
}

fn phone_type(prefix: &[char]) -> (r: String)
    ensures
        r@ == phone_type_of(prefix@),
{
    let u = to_uppercase(prefix);
    if contains(u.as_slice(), chars_of("CELL").as_slice()) || contains(
        u.as_slice(),
        chars_of("MOBILE").as_slice(),
    ) {
        string_of(chars_of("mobile").as_slice())
    } else if contains(u.as_slice(), chars_of("WORK").as_slice()) {
        string_of(chars_of("work").as_slice())
    } else if contains(u.as_slice(), chars_of("HOME").as_slice()) {
        string_of(chars_of("home").as_slice())
    } else {
        string_of(chars_of("other").as_slice())
    }
}

fn trim_end_cr(s: &[char]) -> (r: Vec<char>)
    ensures
        r@ == trim_char_end(s@, '\r'),
{
    let mut hi = s.len();
    assert(s@.take(s@.len() as int) =~= s@);
    while hi > 0 && s[hi - 1] == '\r'
        invariant
            hi <= s@.len(),
            trim_char_end(s@, '\r') == trim_char_end(s@.take(hi as int), '\r'),
        decreases hi,
    {
        assert(s@.take(hi as int).drop_last() =~= s@.take(hi - 1));
        hi = hi - 1;
    }
    assert(s@.take(s@.len() as int) =~= s@);
    assert(s@.subrange(0, hi as int) =~= s@.take(hi as int));
    slice_chars(s, 0, hi)
}

fn apply_line(acc: &mut CardFields, line0: &[char])
    ensures
        final(acc)@ == vcard_line_step(old(acc)@, line0@),
{
    let line = trim_end_cr(line0);
    let l = line.as_slice();
    proof {
        reveal_strlit("FN:");
        reveal_strlit("N:");
        reveal_strlit("ORG:");
        reveal_strlit("TITLE:");
    }
    if starts_with(l, chars_of("FN:").as_slice()) {
        acc.display_name = slice_chars(l, 3, l.len());
        assert(acc.display_name@ =~= line@.skip(3));
    } else if starts_with(l, chars_of("N:").as_slice()) {
        let val = slice_chars(l, 2, l.len());
        assert(val@ =~= line@.skip(2));
        let parts = split(val.as_slice(), ';');
        if parts.len() >= 2 {
            let fam = trim_chars(parts[0].as_slice());
            let giv = trim_chars(parts[1].as_slice());
            let old_s = acc.surname.take();
            acc.surname = keep_non_empty(fam, old_s);
            let old_g = acc.given_name.take();
            acc.given_name = keep_non_empty(giv, old_g);
        }
    } else if contains(l, chars_of("EMAIL").as_slice()) && find(l, ':').is_some() {
        let c = find(l, ':').unwrap();
        let rest = slice_chars(l, c + 1, l.len());
        assert(rest@ =~= line@.skip(c + 1));
        let value = trim_chars(rest.as_slice());
        let prefix = slice_chars(l, 0, c);
        assert(prefix@ =~= line@.take(c as int));
        let is_primary = acc.emails.len() == 0;
        let e = EmailInput {
            email: string_of(value.as_slice()),
            email_type: email_type(prefix.as_slice()),
            is_primary,
        };
        let ghost before = email_views(acc.emails@);
        acc.emails.push(e);
        assert(email_views(acc.emails@) =~= before.push((e.email@, e.email_type@, e.is_primary)));
    } else if contains(l, chars_of("TEL").as_slice()) && find(l, ':').is_some() {
        let c = find(l, ':').unwrap();
        let rest = slice_chars(l, c + 1, l.len());
        assert(rest@ =~= line@.skip(c + 1));
        let value = trim_chars(rest.as_slice());
        let prefix = slice_chars(l, 0, c);
        assert(prefix@ =~= line@.take(c as int));
        let p = PhoneInput { number: string_of(value.as_slice()), phone_type: phone_type(prefix.as_slice()) };
        let ghost before = phone_views(acc.phones@);
        acc.phones.push(p);
        assert(phone_views(acc.phones@) =~= before.push((p.number@, p.phone_type@)));
    } else if starts_with(l, chars_of("ORG:").as_slice()) {
        let rest = slice_chars(l, 4, l.len());
        assert(rest@ =~= line@.skip(4));
        let mut hi = rest.len();
        assert(rest@.take(rest@.len() as int) =~= rest@);
        while hi > 0 && rest[hi - 1] == ';'
            invariant
                hi <= rest@.len(),
                trim_char_end(rest@, ';') == trim_char_end(rest@.take(hi as int), ';'),
            decreases hi,
        {
            assert(rest@.take(hi as int).drop_last() =~= rest@.take(hi - 1));
            hi = hi - 1;
        }
        assert(rest@.take(rest@.len() as int) =~= rest@);
        let cut = slice_chars(rest.as_slice(), 0, hi);
        assert(cut@ =~= rest@.take(hi as int));
        let v = trim_chars(cut.as_slice());
        let old_c = acc.company.take();
        acc.company = keep_non_empty(v, old_c);
    } else if starts_with(l, chars_of("TITLE:").as_slice()) {
        let rest = slice_chars(l, 6, l.len());
        assert(rest@ =~= line@.skip(6));
        let v = trim_chars(rest.as_slice());
        let old_t = acc.job_title.take();
        acc.job_title = keep_non_empty(v, old_t);
    }
}

fn opt_chars_to_string(o: Option<Vec<char>>) -> (r: Option<String>)
    ensures
        opt_str(r) == opt_seq(o),
{
    match o {
        Some(v) => Some(string_of(v.as_slice())),
        None => None,
    }
}

/// Reads one card.
pub fn parse_vcard(raw: &[char]) -> (r: Option<ContactDraft>)
    ensures
        match r {
            Some(d) => vcard_card(raw@) == Some(d@),
            None => vcard_card(raw@) is None,
        },
{
    let card = trim_chars(raw);
    if card.len() == 0 || !contains(card.as_slice(), chars_of("BEGIN:VCARD").as_slice()) {
        return None;
    }
    let lines = lines_of(card.as_slice());
    let ghost lv = lines@.map_values(|v: Vec<char>| v@);
    let mut acc = CardFields {
        display_name: Vec::new(),
        given_name: None,
        surname: None,
        company: None,
        job_title: None,
        emails: Vec::new(),
        phones: Vec::new(),
    };
    assert(acc@.emails =~= Seq::<(Seq<char>, Seq<char>, bool)>::empty());
    assert(acc@.phones =~= Seq::<(Seq<char>, Seq<char>)>::empty());
    assert(acc@.display_name =~= Seq::<char>::empty());
    let mut i: usize = 0;
    while i < lines.len()
        invariant
            i <= lines@.len(),
            lv == lines@.map_values(|v: Vec<char>| v@),
            acc@ == vcard_lines(lv.take(i as int)),
        decreases lines.len() - i,
    {
        assert(lv.take(i + 1).drop_last() =~= lv.take(i as int));
        apply_line(&mut acc, lines[i].as_slice());
        i = i + 1;
    }
    assert(lv.take(lv.len() as int) =~= lv);
    let CardFields { display_name, given_name, surname, company, job_title, emails, phones } = acc;
    let name: String = if display_name.len() == 0 && emails.len() > 0 {
        emails[0].email.clone()
    } else {
        string_of(display_name.as_slice())
    };
    if name.as_str().is_empty() && emails.len() == 0 {
        return None;
    }
    Some(
        ContactDraft {
            display_name: name,
            given_name: opt_chars_to_string(given_name),
            surname: opt_chars_to_string(surname),
            company: opt_chars_to_string(company),
            job_title: opt_chars_to_string(job_title),
            emails,
            phones,
        },
    )
}

/// Reads the contacts of a vCard file, in the order of their cards.
pub fn parse_vcards(data: &str) -> (r: Vec<ContactDraft>)
    ensures
        r@.map_values(|d: ContactDraft| d@) == vcard_contacts(data@),
{
    let sep = chars_of("END:VCARD");
    proof {
        reveal_strlit("END:VCARD");
    }
    let cards = split_on(chars_of(data).as_slice(), sep.as_slice());
    let ghost cv = cards@.map_values(|v: Vec<char>| v@);
    let ghost opts = cv.map_values(|c: Seq<char>| vcard_card(c));
    let mut out: Vec<ContactDraft> = Vec::new();
    let mut i: usize = 0;
    while i < cards.len()
        invariant
            i <= cards@.len(),
            cv == cards@.map_values(|v: Vec<char>| v@),
            opts == cv.map_values(|c: Seq<char>| vcard_card(c)),
            out@.map_values(|d: ContactDraft| d@) == somes(opts.take(i as int)),
        decreases cards.len() - i,
    {
        assert(opts.take(i + 1).drop_last() =~= opts.take(i as int));
        assert(opts.take(i + 1).last() == vcard_card(cards@[i as int]@));
        let ghost before = out@.map_values(|d: ContactDraft| d@);
        match parse_vcard(cards[i].as_slice()) {
            Some(d) => {
                out.push(d);
                assert(out@.map_values(|d: ContactDraft| d@) =~= before.push(d@));
            },
            None => {},
        }
        i = i + 1;
    }
    assert(opts.take(opts.len() as int) =~= opts);
    out
}

} // verus!
