//! Writing contacts out as vCard 3.0 or CSV text.

use crate::contacts::{ContactEmail, ContactWithEmails};
use crate::contact_csv::{column_index, csv_contacts, csv_row, optional_cell, Column};
use crate::csv::{
    csv_row_text, escape_csv_field, escape_csv_spec, law_csv_fields_read_back,
    lemma_csv_plain_row, lemma_csv_row_text_no_newline, parse_csv_spec, plain_fields,
    trimmed_fields,
};
use crate::json::{json_phone_members, parse_phone_members};
use crate::query::opt_view;
use crate::text::{
    ascii_lowercase, ascii_text, ascii_upper_char, ascii_uppercase, chars_of, contains_seq, find_char, has_prefix, is_ws,
    join, lemma_absent_char, lemma_find_char_first, lemma_lowercase_ascii, lemma_uppercase_ascii,
    occurs_at, trim_char_end,
    lemma_split_append_plain, lemma_split_append_sep, lines_spec, lowercase, push_all, push_str,
    split_char, strip_cr, string_of, to_uppercase, trim, trim_end, trim_start, uppercase,
};
use crate::vcard::{phone_type_of, somes, vcard_line_step, DraftView};
use crate::threads::{or_else, or_empty};
use vstd::prelude::*;

verus! {

/// The phone entries (number, type) stored in a contact's JSON phone list;
/// none when the text is not a JSON array.
pub open spec fn phone_members_or_empty(s: Seq<char>) -> Seq<(Option<Seq<char>>, Option<Seq<char>>)> {
    match json_phone_members(s) {
        Some(v) => v,
        None => Seq::empty(),
    }
}

/// The `EMAIL` lines of a card.
pub open spec fn vcard_email_lines(es: Seq<ContactEmail>) -> Seq<char>
    decreases es.len(),
{
    if es.len() == 0 {
        Seq::empty()
    } else {
        vcard_email_lines(es.drop_last()) + "EMAIL;TYPE="@ + uppercase(es.last().email_type@) + ":"@
            + es.last().email@ + "\r\n"@
    }
}

/// The `TEL` lines of a card: one per phone with a number, its type in
/// capitals, `OTHER` when it has none.
pub open spec fn vcard_phone_lines(ps: Seq<(Option<Seq<char>>, Option<Seq<char>>)>) -> Seq<char>
    decreases ps.len(),
{
    if ps.len() == 0 {
        Seq::empty()
    } else {
        let number = or_empty(ps.last().0);
        vcard_phone_lines(ps.drop_last()) + if number.len() > 0 {
            "TEL;TYPE="@ + uppercase(or_else(ps.last().1, "OTHER"@)) + ":"@ + number + "\r\n"@
        } else {
            Seq::empty()
        }
    }
}

/// An optional `KEY:value` line.
pub open spec fn optional_line(key: Seq<char>, v: Option<Seq<char>>) -> Seq<char> {
    match v {
        Some(x) => key + x + "\r\n"@,
        None => Seq::empty(),
    }
}

/// The opening lines of a card: its begin and version lines, the
/// formatted name and the structured name.
pub open spec fn vcard_head(c: ContactWithEmails) -> Seq<char> {
    "BEGIN:VCARD\r\n"@ + "VERSION:3.0\r\n"@ + "FN:"@ + c.contact.display_name@ + "\r\n"@ + "N:"@
        + or_empty(opt_view(c.contact.surname)) + ";"@ + or_empty(opt_view(c.contact.given_name))
        + ";;;\r\n"@
}

/// The card of one contact.
pub open spec fn vcard_entry(c: ContactWithEmails) -> Seq<char> {
    vcard_head(c) + vcard_email_lines(c.emails@) + vcard_phone_lines(
        phone_members_or_empty(c.contact.phones@),
    ) + optional_line("ORG:"@, opt_view(c.contact.company)) + optional_line(
        "TITLE:"@,
        opt_view(c.contact.job_title),
    ) + "END:VCARD\r\n"@
}

/// The cards of some contacts, one after the other.
pub open spec fn vcard_export_spec(cs: Seq<ContactWithEmails>) -> Seq<char>
    decreases cs.len(),
{
    if cs.len() == 0 {
        Seq::empty()
    } else {
        vcard_export_spec(cs.drop_last()) + vcard_entry(cs.last())
    }
}

fn email_lines(out: &mut Vec<char>, es: &Vec<ContactEmail>)
    ensures
        final(out)@ == old(out)@ + vcard_email_lines(es@),
{
    let ghost start = out@;
    let mut i: usize = 0;
    while i < es.len()
        invariant
            i <= es@.len(),
            out@ == start + vcard_email_lines(es@.take(i as int)),
        decreases es.len() - i,
    {
        assert(es@.take(i + 1).drop_last() =~= es@.take(i as int));
        push_str(out, "EMAIL;TYPE=");
        let t = to_uppercase(chars_of(es[i].email_type.as_str()).as_slice());
        push_all(out, t.as_slice());
        push_str(out, ":");
        push_str(out, es[i].email.as_str());
        push_str(out, "\r\n");
        i = i + 1;
    }
    assert(es@.take(es@.len() as int) =~= es@);
}

fn phone_lines(out: &mut Vec<char>, ps: &Vec<(Option<String>, Option<String>)>)
    ensures
        final(out)@ == old(out)@ + vcard_phone_lines(
            ps@.map_values(|p: (Option<String>, Option<String>)| (opt_view(p.0), opt_view(p.1))),
        ),
{
    let ghost pv = ps@.map_values(
        |p: (Option<String>, Option<String>)| (opt_view(p.0), opt_view(p.1)),
    );
    let ghost start = out@;
    let mut i: usize = 0;
    while i < ps.len()
        invariant
            i <= ps@.len(),
            pv == ps@.map_values(
                |p: (Option<String>, Option<String>)| (opt_view(p.0), opt_view(p.1)),
            ),
            out@ == start + vcard_phone_lines(pv.take(i as int)),
        decreases ps.len() - i,
    {
        assert(pv.take(i + 1).drop_last() =~= pv.take(i as int));
        assert(pv.take(i + 1).last() == pv[i as int]);
        let number: Vec<char> = match &ps[i].0 {
            Some(n) => chars_of(n.as_str()),
            None => Vec::new(),
        };
        if number.len() > 0 {
            push_str(out, "TEL;TYPE=");
            let t: Vec<char> = match &ps[i].1 {
                Some(t) => chars_of(t.as_str()),
                None => chars_of("OTHER"),
            };
            let up = to_uppercase(t.as_slice());
            push_all(out, up.as_slice());
            push_str(out, ":");
            push_all(out, number.as_slice());
            push_str(out, "\r\n");
        } else {
            assert(out@ =~= out@ + Seq::<char>::empty());
        }
        i = i + 1;
    }
    assert(pv.take(pv.len() as int) =~= pv);
}

/// The phone entries of a contact's JSON phone list.
fn phone_entries(phones: &str) -> (r: Vec<(Option<String>, Option<String>)>)
    ensures
        r@.map_values(|p: (Option<String>, Option<String>)| (opt_view(p.0), opt_view(p.1)))
            == phone_members_or_empty(phones@),
{
    match parse_phone_members(phones) {
        Some(v) => v,
        None => {
            let v: Vec<(Option<String>, Option<String>)> = Vec::new();
            assert(v@.map_values(
                |p: (Option<String>, Option<String>)| (opt_view(p.0), opt_view(p.1)),
            ) =~= Seq::<(Option<Seq<char>>, Option<Seq<char>>)>::empty());
            v
        },
    }
}

fn push_opt(out: &mut Vec<char>, o: &Option<String>)
    ensures
        final(out)@ == old(out)@ + or_empty(opt_view(*o)),
{
    match o {
        Some(s) => push_str(out, s.as_str()),
        None => {
            assert(out@ =~= out@ + Seq::<char>::empty());
        },
    }
}

fn push_optional_line(out: &mut Vec<char>, key: &str, o: &Option<String>)
    ensures
        final(out)@ == old(out)@ + optional_line(key@, opt_view(*o)),
{
    match o {
        Some(v) => {
            let ghost start = out@;
            push_str(out, key);
            push_str(out, v.as_str());
            push_str(out, "\r\n");
            assert(out@ =~= start + (key@ + v@ + "\r\n"@));
        },
        None => {
            assert(out@ =~= out@ + Seq::<char>::empty());
        },
    }
}

fn vcard_head_lines(out: &mut Vec<char>, c: &ContactWithEmails)
    ensures
        final(out)@ == old(out)@ + vcard_head(*c),
{
    let ghost start = out@;
    push_str(out, "BEGIN:VCARD\r\n");
    push_str(out, "VERSION:3.0\r\n");
    push_str(out, "FN:");
    push_str(out, c.contact.display_name.as_str());
    push_str(out, "\r\n");
    push_str(out, "N:");
    push_opt(out, &c.contact.surname);
    push_str(out, ";");
    push_opt(out, &c.contact.given_name);
    push_str(out, ";;;\r\n");
    assert(out@ =~= start + vcard_head(*c));
}

fn vcard_one(out: &mut Vec<char>, c: &ContactWithEmails)
    ensures
        final(out)@ == old(out)@ + vcard_entry(*c),
{
    let ghost start = out@;
    vcard_head_lines(out, c);
    let ghost o1 = out@;
    email_lines(out, &c.emails);
    let ghost o2 = out@;
    let phones = phone_entries(c.contact.phones.as_str());
    phone_lines(out, &phones);
    let ghost o3 = out@;
    push_optional_line(out, "ORG:", &c.contact.company);
    let ghost o4 = out@;
    push_optional_line(out, "TITLE:", &c.contact.job_title);
    let ghost o5 = out@;
    push_str(out, "END:VCARD\r\n");
    proof {
        reveal_strlit("ORG:");
        reveal_strlit("TITLE:");
    }
    assert(out@ =~= start + vcard_entry(*c));
}

/// Writes contacts as vCard 3.0 text.
pub fn export_vcard(contacts: &Vec<ContactWithEmails>) -> (r: String)
    ensures
        r@ == vcard_export_spec(contacts@),
{
    let mut out: Vec<char> = Vec::new();
    let mut i: usize = 0;
    while i < contacts.len()
        invariant
            i <= contacts@.len(),
            out@ == vcard_export_spec(contacts@.take(i as int)),
        decreases contacts.len() - i,
    {
        assert(contacts@.take(i + 1).drop_last() =~= contacts@.take(i as int));
        vcard_one(&mut out, &contacts[i]);
        i = i + 1;
    }
    assert(contacts@.take(contacts@.len() as int) =~= contacts@);
    string_of(out.as_slice())
}

/// The address a CSV export gives a contact: its first primary address,
/// otherwise its first address, otherwise nothing.
pub open spec fn primary_or_first(es: Seq<ContactEmail>) -> Seq<char> {
    if exists|i: int| 0 <= i < es.len() && es[i].is_primary {
        es[choose|i: int| 0 <= i < es.len() && es[i].is_primary && forall|j: int|
            0 <= j < i ==> !es[j].is_primary].email@
    } else if es.len() > 0 {
        es[0].email@
    } else {
        Seq::empty()
    }
}

/// The number of the first stored phone, empty when there is none.
pub open spec fn first_phone_number(phones: Seq<char>) -> Seq<char> {
    let ps = phone_members_or_empty(phones);
    if ps.len() > 0 {
        or_empty(ps[0].0)
    } else {
        Seq::empty()
    }
}

/// The CSV line of one contact.
pub open spec fn csv_entry(c: ContactWithEmails) -> Seq<char> {
    escape_csv_spec(c.contact.display_name@) + ","@ + escape_csv_spec(primary_or_first(c.emails@))
        + ","@ + escape_csv_spec(first_phone_number(c.contact.phones@)) + ","@ + escape_csv_spec(
        or_empty(opt_view(c.contact.company)),
    ) + ","@ + escape_csv_spec(or_empty(opt_view(c.contact.job_title))) + "\n"@
}

/// The CSV text of some contacts, under a header line.
pub open spec fn csv_export_spec(cs: Seq<ContactWithEmails>) -> Seq<char>
    decreases cs.len(),
{
    if cs.len() == 0 {
        "Name,Email,Phone,Company,Title\n"@
    } else {
        csv_export_spec(cs.drop_last()) + csv_entry(cs.last())
    }
}

fn pick_email(es: &Vec<ContactEmail>) -> (r: String)
    ensures
        r@ == primary_or_first(es@),
{
    let mut i: usize = 0;
    while i < es.len()
        invariant
            i <= es@.len(),
            forall|j: int| 0 <= j < i ==> !es@[j].is_primary,
        decreases es.len() - i,
    {
        if es[i].is_primary {
            let ghost k = choose|k: int|
                0 <= k < es@.len() && es@[k].is_primary && forall|j: int|
                    0 <= j < k ==> !es@[j].is_primary;
            assert(0 <= i < es@.len() && es@[i as int].is_primary && forall|j: int|
                0 <= j < i ==> !es@[j].is_primary);
            assert(k == i) by {
                if k < i {
                    assert(!es@[k].is_primary);
                }
                if k > i {
                    assert(!es@[i as int].is_primary);
                }
            }
            return es[i].email.clone();
        }
        i = i + 1;
    }
    if es.len() > 0 {
        es[0].email.clone()
    } else {
        string_of(Vec::<char>::new().as_slice())
    }
}

fn first_number(phones: &str) -> (r: String)
    ensures
        r@ == first_phone_number(phones@),
{
    let ps = phone_entries(phones);
    if ps.len() > 0 {
        assert(ps@.map_values(|p: (Option<String>, Option<String>)| (opt_view(p.0), opt_view(p.1)))[0]
            == (opt_view(ps@[0].0), opt_view(ps@[0].1)));
        match &ps[0].0 {
            Some(n) => n.clone(),
            None => string_of(Vec::<char>::new().as_slice()),
        }
    } else {
        string_of(Vec::<char>::new().as_slice())
    }
}

fn or_blank(o: &Option<String>) -> (r: String)
    ensures
        r@ == or_empty(opt_view(*o)),
{
    match o {
        Some(s) => s.clone(),
        None => string_of(Vec::<char>::new().as_slice()),
    }
}

/// Writes contacts as CSV with the columns Name, Email, Phone, Company and
/// Title, every value quoted.
pub fn export_csv(contacts: &Vec<ContactWithEmails>) -> (r: String)
    ensures
        r@ == csv_export_spec(contacts@),
{
    let mut out: Vec<char> = chars_of("Name,Email,Phone,Company,Title\n");
    let mut i: usize = 0;
    while i < contacts.len()
        invariant
            i <= contacts@.len(),
            out@ == csv_export_spec(contacts@.take(i as int)),
        decreases contacts.len() - i,
    {
        assert(contacts@.take(i + 1).drop_last() =~= contacts@.take(i as int));
        let c = &contacts[i];
        let ghost start = out@;
        push_str(&mut out, escape_csv_field(c.contact.display_name.as_str()).as_str());
        push_str(&mut out, ",");
        push_str(&mut out, escape_csv_field(pick_email(&c.emails).as_str()).as_str());
        push_str(&mut out, ",");
        push_str(&mut out, escape_csv_field(first_number(c.contact.phones.as_str()).as_str()).as_str());
        push_str(&mut out, ",");
        push_str(&mut out, escape_csv_field(or_blank(&c.contact.company).as_str()).as_str());
        push_str(&mut out, ",");
        push_str(&mut out, escape_csv_field(or_blank(&c.contact.job_title).as_str()).as_str());
        push_str(&mut out, "\n");
        assert(out@ =~= start + csv_entry(*c));
        i = i + 1;
    }
    assert(contacts@.take(contacts@.len() as int) =~= contacts@);
    string_of(out.as_slice())
}


/// The lowercase headers of the CSV export.
pub open spec fn export_headers() -> Seq<Seq<char>> {
    seq!["name"@, "email"@, "phone"@, "company"@, "title"@]
}

/// The five values the CSV export writes for a contact.
pub open spec fn csv_fields_of(c: ContactWithEmails) -> Seq<Seq<char>> {
    seq![
        c.contact.display_name@,
        primary_or_first(c.emails@),
        first_phone_number(c.contact.phones@),
        or_empty(opt_view(c.contact.company)),
        or_empty(opt_view(c.contact.job_title)),
    ]
}

/// What the CSV import makes of the exported line of a contact: its values
/// trimmed; no contact when the name is blank; the address and phone of
/// type `other`.
pub open spec fn reimported(c: ContactWithEmails) -> Option<DraftView> {
    let f = trimmed_fields(csv_fields_of(c));
    if f[0].len() == 0 {
        None
    } else {
        Some(
            DraftView {
                display_name: f[0],
                given_name: None,
                surname: None,
                company: optional_cell(f[3]),
                job_title: optional_cell(f[4]),
                emails: if f[1].len() == 0 {
                    Seq::empty()
                } else {
                    seq![(f[1], "other"@, true)]
                },
                phones: if f[2].len() == 0 {
                    Seq::empty()
                } else {
                    seq![(f[2], "other"@)]
                },
            },
        )
    }
}

proof fn lemma_entry_is_row(c: ContactWithEmails)
    ensures
        csv_entry(c) == csv_row_text(csv_fields_of(c)) + "\n"@,
{
    let fs = csv_fields_of(c);
    assert(fs.drop_last().drop_last().drop_last().drop_last() =~= seq![fs[0]]);
    assert(fs.drop_last().drop_last().drop_last() =~= seq![fs[0], fs[1]]);
    assert(fs.drop_last().drop_last() =~= seq![fs[0], fs[1], fs[2]]);
    assert(fs.drop_last() =~= seq![fs[0], fs[1], fs[2], fs[3]]);
    reveal_with_fuel(csv_row_text, 6);
    assert(csv_row_text(seq![fs[0]]) == escape_csv_spec(fs[0]));
    reveal_strlit(",");
    assert(csv_entry(c) =~= csv_row_text(fs) + "\n"@);
}

/// Each line of the CSV export is read back by the CSV import, under the
/// export's header row, as the contact it was written from: its values
/// trimmed, and no contact when the name is blank.
pub proof fn law_csv_export_read_back(c: ContactWithEmails)
    ensures
        csv_row(export_headers(), csv_entry(c).drop_last()) == reimported(c),
{
    let fs = csv_fields_of(c);
    let line = csv_row_text(fs);
    lemma_entry_is_row(c);
    reveal_strlit("\n");
    assert((line + "\n"@).drop_last() =~= line);
    law_csv_fields_read_back(fs);
    let e0 = escape_csv_spec(fs[0]);
    assert(fs.drop_last().drop_last().drop_last().drop_last() =~= seq![fs[0]]);
    assert(line.len() > 0 && line[0] == '"') by {
        reveal_with_fuel(csv_row_text, 6);
        assert(fs.drop_last().drop_last().drop_last() =~= seq![fs[0], fs[1]]);
        assert(fs.drop_last().drop_last() =~= seq![fs[0], fs[1], fs[2]]);
        assert(fs.drop_last() =~= seq![fs[0], fs[1], fs[2], fs[3]]);
        assert(e0[0] == '"');
    }
    assert(line.last() == '"') by {
        assert(line == csv_row_text(fs.drop_last()) + seq![','] + escape_csv_spec(fs.last()));
    }
    assert(!is_ws(line[0]) && !is_ws(line.last()));
    assert(trim_start(line) == line);
    assert(trim_end(line) == line);
    assert(trim(line) == line);
    let hs = export_headers();
    reveal_strlit("name");
    reveal_strlit("email");
    reveal_strlit("phone");
    reveal_strlit("company");
    reveal_strlit("title");
    reveal_strlit("full name");
    reveal_strlit("display name");
    reveal_strlit("display_name");
    reveal_strlit("e-mail");
    reveal_strlit("email address");
    reveal_strlit("telephone");
    reveal_strlit("mobile");
    reveal_strlit("phone number");
    reveal_strlit("organization");
    reveal_strlit("org");
    reveal_strlit("organisation");
    reveal_strlit("job title");
    reveal_strlit("job_title");
    reveal_strlit("position");
    reveal_with_fuel(column_index, 6);
    let h1 = hs.drop_first();
    let h2 = h1.drop_first();
    let h3 = h2.drop_first();
    let h4 = h3.drop_first();
    assert(h1 =~= seq!["email"@, "phone"@, "company"@, "title"@]);
    assert(h2 =~= seq!["phone"@, "company"@, "title"@]);
    assert(h3 =~= seq!["company"@, "title"@]);
    assert(h4 =~= seq!["title"@]);
    assert("name"@.len() == 4 && "name"@[0] == 'n');
    assert("email"@.len() == 5 && "email"@[0] == 'e');
    assert("phone"@.len() == 5 && "phone"@[0] == 'p');
    assert("company"@.len() == 7 && "company"@[0] == 'c');
    assert("title"@.len() == 5 && "title"@[0] == 't');
    assert("full name"@.len() == 9 && "full name"@[0] == 'f');
    assert("display name"@.len() == 12 && "display name"@[0] == 'd');
    assert("display_name"@.len() == 12 && "display_name"@[0] == 'd');
    assert("e-mail"@.len() == 6 && "e-mail"@[0] == 'e');
    assert("email address"@.len() == 13 && "email address"@[0] == 'e');
    assert("telephone"@.len() == 9 && "telephone"@[0] == 't');
    assert("mobile"@.len() == 6 && "mobile"@[0] == 'm');
    assert("phone number"@.len() == 12 && "phone number"@[0] == 'p');
    assert("organization"@.len() == 12 && "organization"@[0] == 'o');
    assert("org"@.len() == 3 && "org"@[0] == 'o');
    assert("organisation"@.len() == 12 && "organisation"@[0] == 'o');
    assert("job title"@.len() == 9 && "job title"@[0] == 'j');
    assert("job_title"@.len() == 9 && "job_title"@[0] == 'j');
    assert("position"@.len() == 8 && "position"@[0] == 'p');
    assert(column_index(hs, Column::Name) == Some(0int));
    assert(column_index(hs, Column::Email) == Some(1int));
    assert(column_index(hs, Column::Phone) == Some(2int));
    assert(column_index(hs, Column::Company) == Some(3int));
    assert(column_index(hs, Column::Title) == Some(4int));
    let f = trimmed_fields(fs);
    assert(parse_csv_spec(line) == f);
    assert(f.len() == 5);
}


/// The line the CSV export writes for a contact, without its line break.
pub open spec fn row_of(c: ContactWithEmails) -> Seq<char> {
    csv_entry(c).drop_last()
}

pub open spec fn export_rows(cs: Seq<ContactWithEmails>) -> Seq<Seq<char>> {
    cs.map_values(|c: ContactWithEmails| row_of(c))
}

/// The header line of the CSV export.
pub open spec fn export_header() -> Seq<char> {
    "Name,Email,Phone,Company,Title"@
}

/// No value the CSV export writes for these contacts holds a line break.
pub open spec fn single_line_values(cs: Seq<ContactWithEmails>) -> bool {
    forall|i: int, j: int|
        0 <= i < cs.len() && 0 <= j < 5 ==> !(#[trigger] csv_fields_of(cs[i])[j]).contains('\n')
}

proof fn lemma_row_shape(c: ContactWithEmails)
    requires
        forall|j: int| 0 <= j < 5 ==> !(#[trigger] csv_fields_of(c)[j]).contains('\n'),
    ensures
        csv_entry(c) == row_of(c).push('\n'),
        !row_of(c).contains('\n'),
        row_of(c).len() > 0,
        row_of(c).last() == '"',
{
    let fs = csv_fields_of(c);
    lemma_entry_is_row(c);
    reveal_strlit("\n");
    assert(csv_row_text(fs) + "\n"@ =~= csv_row_text(fs).push('\n'));
    assert(row_of(c) =~= csv_row_text(fs));
    assert forall|i: int| 0 <= i < fs.len() implies !(#[trigger] fs[i]).contains('\n') by {}
    lemma_csv_row_text_no_newline(fs);
    assert(fs.drop_last().len() >= 1);
    assert(csv_row_text(fs) == csv_row_text(fs.drop_last()) + seq![','] + escape_csv_spec(fs.last()));
}

proof fn lemma_export_split(cs: Seq<ContactWithEmails>)
    requires
        single_line_values(cs),
    ensures
        split_char(csv_export_spec(cs), '\n') == seq![export_header()] + export_rows(cs) + seq![
            Seq::<char>::empty(),
        ],
    decreases cs.len(),
{
    let h = export_header();
    reveal_strlit("Name,Email,Phone,Company,Title");
    reveal_strlit("Name,Email,Phone,Company,Title\n");
    if cs.len() == 0 {
        assert(!h.contains('\n'));
        lemma_split_append_plain(Seq::empty(), h, '\n');
        assert(Seq::<char>::empty() + h =~= h);
        assert(split_char(Seq::<char>::empty(), '\n') == seq![Seq::<char>::empty()]);
        assert(split_char(h, '\n') =~= seq![h]);
        lemma_split_append_sep(h, '\n');
        assert(csv_export_spec(cs) =~= h.push('\n'));
        assert(export_rows(cs) =~= Seq::<Seq<char>>::empty());
        assert(seq![h] + export_rows(cs) + seq![Seq::<char>::empty()] =~= seq![h].push(Seq::empty()));
    } else {
        let front = cs.drop_last();
        let c = cs.last();
        assert(single_line_values(front)) by {
            assert forall|i: int, j: int| 0 <= i < front.len() && 0 <= j < 5 implies !(
            #[trigger] csv_fields_of(front[i])[j]).contains('\n') by {
                assert(front[i] == cs[i]);
            }
        }
        assert forall|j: int| 0 <= j < 5 implies !(#[trigger] csv_fields_of(c)[j]).contains('\n') by {
            assert(cs[cs.len() - 1] == c);
        }
        lemma_export_split(front);
        lemma_row_shape(c);
        let e0 = csv_export_spec(front);
        let row = row_of(c);
        lemma_split_append_plain(e0, row, '\n');
        let before = seq![h] + export_rows(front) + seq![Seq::<char>::empty()];
        assert(split_char(e0 + row, '\n') =~= seq![h] + export_rows(front) + seq![row]) by {
            assert(before.last() + row =~= row);
        }
        lemma_split_append_sep(e0 + row, '\n');
        assert(csv_export_spec(cs) =~= (e0 + row).push('\n'));
        assert(export_rows(cs) =~= export_rows(front).push(row));
    }
}

proof fn lemma_header_fields()
    ensures
        parse_csv_spec(export_header()).map_values(|h: Seq<char>| lowercase(h)) == export_headers(),
{
    let fs = seq!["Name"@, "Email"@, "Phone"@, "Company"@, "Title"@];
    reveal_strlit("Name,Email,Phone,Company,Title");
    reveal_strlit("Name");
    reveal_strlit("Email");
    reveal_strlit("Phone");
    reveal_strlit("Company");
    reveal_strlit("Title");
    reveal_strlit(",");
    reveal_strlit("name");
    reveal_strlit("email");
    reveal_strlit("phone");
    reveal_strlit("company");
    reveal_strlit("title");
    reveal_with_fuel(join, 6);
    assert(fs.drop_last().drop_last().drop_last().drop_last() =~= seq!["Name"@]);
    assert(fs.drop_last().drop_last().drop_last() =~= seq!["Name"@, "Email"@]);
    assert(fs.drop_last().drop_last() =~= seq!["Name"@, "Email"@, "Phone"@]);
    assert(fs.drop_last() =~= seq!["Name"@, "Email"@, "Phone"@, "Company"@]);
    assert(join(fs, ","@) =~= export_header());
    assert(plain_fields(fs));
    lemma_csv_plain_row(fs);
    assert forall|i: int| 0 <= i < 5 implies trim(#[trigger] fs[i]) == fs[i] by {
        assert(!is_ws(fs[i][0]) && !is_ws(fs[i].last()));
        assert(trim_start(fs[i]) == fs[i]);
        assert(trim_end(fs[i]) == fs[i]);
    }
    assert(trimmed_fields(fs) =~= fs);
    assert forall|i: int| 0 <= i < 5 implies lowercase(#[trigger] fs[i]) == export_headers()[i] by {
        assert(ascii_text(fs[i]));
        lemma_lowercase_ascii(fs[i]);
        assert(ascii_lowercase(fs[i]) =~= export_headers()[i]);
    }
    assert(fs.map_values(|h: Seq<char>| lowercase(h)) =~= export_headers());
}

/// What the CSV export writes, the CSV import reads back: every contact
/// with a non-blank name, in order, with its name, address, phone, company
/// and title trimmed; contacts whose values hold line breaks are left out
/// (their lines would split).
pub proof fn law_csv_export_import(cs: Seq<ContactWithEmails>)
    requires
        single_line_values(cs),
    ensures
        csv_contacts(csv_export_spec(cs)) == somes(cs.map_values(|c: ContactWithEmails| reimported(c))),
{
    let text = csv_export_spec(cs);
    lemma_export_split(cs);
    let parts = split_char(text, '\n');
    let h = export_header();
    reveal_strlit("Name,Email,Phone,Company,Title");
    assert(parts.last() == Seq::<char>::empty());
    assert(parts.drop_last() =~= seq![h] + export_rows(cs));
    assert forall|i: int| 0 <= i < cs.len() implies strip_cr(#[trigger] export_rows(cs)[i]) == export_rows(cs)[i] by {
        assert forall|j: int| 0 <= j < 5 implies !(#[trigger] csv_fields_of(cs[i])[j]).contains('\n') by {}
        lemma_row_shape(cs[i]);
    }
    assert(strip_cr(h) == h) by {
        assert(h.last() == 'e');
    }
    let ls = lines_spec(text);
    assert(ls =~= seq![h] + export_rows(cs)) by {
        assert forall|i: int| 0 <= i < ls.len() implies ls[i] == (seq![h] + export_rows(cs))[i] by {
            if i > 0 {
                assert(strip_cr(export_rows(cs)[i - 1]) == export_rows(cs)[i - 1]);
            }
        }
    }
    lemma_header_fields();
    let headers = parse_csv_spec(ls[0]).map_values(|x: Seq<char>| lowercase(x));
    assert(headers == export_headers());
    let rows = ls.drop_first().map_values(|l: Seq<char>| csv_row(headers, l));
    assert forall|i: int| 0 <= i < cs.len() implies rows[i] == reimported(#[trigger] cs[i]) by {
        law_csv_export_read_back(cs[i]);
        assert(ls.drop_first()[i] == row_of(cs[i]));
    }
    assert(rows =~= cs.map_values(|c: ContactWithEmails| reimported(c)));
}

/// Whether a phone number is written with digits, `+`, `-`, `.`,
/// parentheses and spaces only.
pub open spec fn phone_chars(number: Seq<char>) -> bool {
    forall|i: int|
        0 <= i < number.len() ==> ('0' <= #[trigger] number[i] <= '9' || number[i] == '+'
            || number[i] == '-' || number[i] == '.' || number[i] == '(' || number[i] == ')'
            || number[i] == ' ')
}

/// The `TEL` line written for a phone of type `t`, as it stands in the file
/// before its line feed.
pub open spec fn tel_line(number: Seq<char>, t: Seq<char>) -> Seq<char> {
    "TEL;TYPE="@ + uppercase(t) + ":"@ + number + "\r"@
}

proof fn lemma_type_upper(t: Seq<char>) -> (u: Seq<char>)
    requires
        t == "mobile"@ || t == "work"@ || t == "home"@,
    ensures
        u == uppercase(t),
        t == "mobile"@ ==> u == "MOBILE"@,
        t == "work"@ ==> u == "WORK"@,
        t == "home"@ ==> u == "HOME"@,
        forall|i: int| 0 <= i < u.len() ==> 'A' <= #[trigger] u[i] <= 'Z',
        !contains_seq(u, "A"@),
{
    reveal_strlit("mobile");
    reveal_strlit("work");
    reveal_strlit("home");
    reveal_strlit("MOBILE");
    reveal_strlit("WORK");
    reveal_strlit("HOME");
    reveal_strlit("A");
    assert(ascii_text(t));
    lemma_uppercase_ascii(t);
    let u = ascii_uppercase(t);
    if t == "mobile"@ {
        assert(u =~= "MOBILE"@);
    } else if t == "work"@ {
        assert(u =~= "WORK"@);
    } else {
        assert(u =~= "HOME"@);
    }
    lemma_absent_char(u, "A"@, 0);
    u
}

proof fn lemma_export_tel_line(number: Seq<char>, t: Seq<char>)
    requires
        number.len() > 0,
    ensures
        vcard_phone_lines(seq![(Some(number), Some(t))]) == tel_line(number, t) + "\n"@,
{
    reveal_strlit("\r");
    reveal_strlit("\n");
    reveal_strlit("\r\n");
    let ps = seq![(Some(number), Some(t))];
    assert(ps.drop_last() =~= Seq::<(Option<Seq<char>>, Option<Seq<char>>)>::empty());
    assert(ps.last() == (Some(number), Some(t)));
    assert(or_empty(ps.last().0) == number);
    assert(or_else(ps.last().1, "OTHER"@) == t);
    let l = "TEL;TYPE="@ + uppercase(t) + ":"@ + number;
    assert(ps.drop_last().len() == 0);
    assert(vcard_phone_lines(ps.drop_last()) == Seq::<char>::empty());
    assert(vcard_phone_lines(ps) == vcard_phone_lines(ps.drop_last()) + (l + "\r\n"@));
    assert("\r\n"@ =~= "\r"@ + "\n"@);
    assert(vcard_phone_lines(ps) =~= l + "\r"@ + "\n"@);
}

/// The parameters of an exported `TEL` line name its type.
proof fn lemma_tel_type(t: Seq<char>, u: Seq<char>)
    requires
        t == "mobile"@ || t == "work"@ || t == "home"@,
        t == "mobile"@ ==> u == "MOBILE"@,
        t == "work"@ ==> u == "WORK"@,
        t == "home"@ ==> u == "HOME"@,
        forall|i: int| 0 <= i < u.len() ==> 'A' <= #[trigger] u[i] <= 'Z',
    ensures
        phone_type_of("TEL;TYPE="@ + u) == t,
{
    reveal_strlit("TEL;TYPE=");
    reveal_strlit("CELL");
    reveal_strlit("MOBILE");
    reveal_strlit("WORK");
    reveal_strlit("HOME");
    let pre = "TEL;TYPE="@ + u;
    assert(ascii_text(pre)) by {
        assert forall|i: int| 0 <= i < pre.len() implies #[trigger] pre[i] < '\u{80}' by {
            if i < 9 {
                assert(pre[i] == "TEL;TYPE="@[i]);
            } else {
                assert(pre[i] == u[i - 9]);
            }
        }
    }
    lemma_uppercase_ascii(pre);
    assert(ascii_uppercase(pre) =~= pre) by {
        assert forall|i: int| 0 <= i < pre.len() implies ascii_upper_char(#[trigger] pre[i])
            == pre[i] by {
            if i < 9 {
                assert(pre[i] == "TEL;TYPE="@[i]);
            } else {
                assert(pre[i] == u[i - 9]);
            }
        }
    }
    assert(uppercase(pre) == pre);
    assert(occurs_at(pre, u, 9)) by {
        assert(pre.subrange(9, 9 + u.len() as int) =~= u);
    }
    if t == "mobile"@ {
        assert(contains_seq(pre, "MOBILE"@));
    } else {
        assert forall|i: int| 0 <= i < pre.len() implies #[trigger] pre[i] != "CELL"@[0]
            && pre[i] != "MOBILE"@[2] && (t == "home"@ ==> pre[i] != "WORK"@[0]) by {
            if i < 9 {
                assert(pre[i] == "TEL;TYPE="@[i]);
            } else {
                assert(pre[i] == u[i - 9]);
            }
        }
        lemma_absent_char(pre, "CELL"@, 0);
        lemma_absent_char(pre, "MOBILE"@, 2);
        if t == "work"@ {
            assert(contains_seq(pre, "WORK"@));
        } else {
            lemma_absent_char(pre, "WORK"@, 0);
            assert(contains_seq(pre, "HOME"@));
        }
    }
}

/// How an exported `TEL` line reads: after its carriage return it is the
/// parameters, a colon and the number; it is no name or address line and
/// mentions `TEL`.
proof fn lemma_tel_line_shape(number: Seq<char>, u: Seq<char>)
    requires
        number.len() > 0,
        phone_chars(number),
        forall|i: int| 0 <= i < u.len() ==> 'A' <= #[trigger] u[i] <= 'Z',
        !contains_seq(u, "A"@),
    ensures
        trim_char_end("TEL;TYPE="@ + u + ":"@ + number + "\r"@, '\r') == "TEL;TYPE="@ + u + ":"@
            + number,
        !has_prefix("TEL;TYPE="@ + u + ":"@ + number, "FN:"@),
        !has_prefix("TEL;TYPE="@ + u + ":"@ + number, "N:"@),
        !contains_seq("TEL;TYPE="@ + u + ":"@ + number, "EMAIL"@),
        contains_seq("TEL;TYPE="@ + u + ":"@ + number, "TEL"@),
        find_char("TEL;TYPE="@ + u + ":"@ + number, ':') == Some(9 + u.len() as int),
        ("TEL;TYPE="@ + u + ":"@ + number).take(9 + u.len() as int) == "TEL;TYPE="@ + u,
        ("TEL;TYPE="@ + u + ":"@ + number).skip(10 + u.len() as int) == number,
{
    reveal_strlit("TEL;TYPE=");
    reveal_strlit(":");
    reveal_strlit("\r");
    reveal_strlit("TEL");
    reveal_strlit("FN:");
    reveal_strlit("N:");
    reveal_strlit("EMAIL");
    reveal_strlit("A");
    let pre = "TEL;TYPE="@ + u;
    let line = pre + ":"@ + number;
    assert((line + "\r"@).drop_last() =~= line);
    assert(line.last() == number[number.len() - 1]);
    assert(trim_char_end(line + "\r"@, '\r') == trim_char_end(line, '\r'));
    assert(line[0] == 'T');
    if has_prefix(line, "FN:"@) {
        assert(line.take(3)[0] == line[0]);
    }
    if has_prefix(line, "N:"@) {
        assert(line.take(2)[0] == line[0]);
    }
    assert forall|i: int| 0 <= i < line.len() implies #[trigger] line[i] != "EMAIL"@[2] by {
        if i < 9 {
            assert(line[i] == "TEL;TYPE="@[i]);
        } else if i < 9 + u.len() {
            assert(line[i] == u[i - 9]);
            if u[i - 9] == 'A' {
                assert(occurs_at(u, "A"@, i - 9)) by {
                    assert(u.subrange(i - 9, i - 8) =~= "A"@);
                }
            }
        } else if i == 9 + u.len() {
            assert(line[i] == ':');
        } else {
            assert(line[i] == number[i - 10 - u.len()]);
        }
    }
    lemma_absent_char(line, "EMAIL"@, 2);
    assert(occurs_at(line, "TEL"@, 0)) by {
        assert(line.subrange(0, 3) =~= "TEL"@);
    }
    let c: int = 9 + u.len() as int;
    assert forall|j: int| 0 <= j < c implies line[j] != ':' by {
        if j < 9 {
            assert(line[j] == "TEL;TYPE="@[j]);
        } else {
            assert(line[j] == u[j - 9]);
        }
    }
    assert(line[c] == ':');
    lemma_find_char_first(line, ':', c);
    assert(line.take(c) =~= pre);
    assert(line.skip(c + 1) =~= number);
}

/// A phone exported with type mobile, work or home is read back with that
/// type. The export writes the phone as one `TEL` line; importing that
/// line, as it stands in the file, adds the phone with its (trimmed)
/// number and the same type, and changes nothing else.
pub proof fn law_phone_type_read_back(acc: DraftView, number: Seq<char>, t: Seq<char>)
    requires
        t == "mobile"@ || t == "work"@ || t == "home"@,
        number.len() > 0,
        phone_chars(number),
    ensures
        vcard_phone_lines(seq![(Some(number), Some(t))]) == tel_line(number, t) + "\n"@,
        vcard_line_step(acc, tel_line(number, t)) == (DraftView {
            phones: acc.phones.push((trim(number), t)),
            ..acc
        }),
{
    lemma_export_tel_line(number, t);
    let u = lemma_type_upper(t);
    lemma_tel_type(t, u);
    lemma_tel_line_shape(number, u);
    assert(tel_line(number, t) == "TEL;TYPE="@ + u + ":"@ + number + "\r"@);
}

} // verus!
