//! Reading contacts out of CSV text whose first line names the columns.

use crate::csv::{parse_csv_chars, parse_csv_spec};
use crate::text::{
    chars_of, eq_chars, lines_of, lines_spec, lowercase, string_of, to_lowercase, trim, trim_chars,
};
use crate::vcard::{ContactDraft, DraftView, EmailInput, PhoneInput, somes};
use vstd::prelude::*;

verus! {

/// The columns an import understands.
#[derive(Clone, Copy)]
pub enum Column {
    Name,
    Email,
    Phone,
    Company,
    Title,
}

/// The lowercase header names accepted for each column.
pub open spec fn is_header(h: Seq<char>, c: Column) -> bool {
    match c {
        Column::Name => h == "name"@ || h == "full name"@ || h == "display name"@ || h
            == "display_name"@,
        Column::Email => h == "email"@ || h == "e-mail"@ || h == "email address"@,
        Column::Phone => h == "phone"@ || h == "telephone"@ || h == "mobile"@ || h
            == "phone number"@,
        Column::Company => h == "company"@ || h == "organization"@ || h == "org"@ || h
            == "organisation"@,
        Column::Title => h == "title"@ || h == "job title"@ || h == "job_title"@ || h
            == "position"@,
    }
}

/// The first header that names column `c`.
pub open spec fn column_index(hs: Seq<Seq<char>>, c: Column) -> Option<int>
    decreases hs.len(),
{
    if hs.len() == 0 {
        None
    } else if is_header(hs[0], c) {
        Some(0)
    } else {
        match column_index(hs.drop_first(), c) {
            Some(i) => Some(i + 1),
            None => None,
        }
    }
}

/// The value of a column in a row: empty when the column is unknown or the
/// row is short.
pub open spec fn cell(fields: Seq<Seq<char>>, col: Option<int>) -> Seq<char> {
    match col {
        Some(i) => if 0 <= i < fields.len() {
            fields[i]
        } else {
            Seq::empty()
        },
        None => Seq::empty(),
    }
}

pub open spec fn optional_cell(v: Seq<char>) -> Option<Seq<char>> {
    if v.len() > 0 {
        Some(v)
    } else {
        None
    }
}

/// The contact a data line describes, given the lowercase headers: none
/// for a blank line or a line without a name. A non-empty email becomes
/// the primary address, of type `other`; a non-empty phone, of type `other`.
pub open spec fn csv_row(headers: Seq<Seq<char>>, line0: Seq<char>) -> Option<DraftView> {
    let line = trim(line0);
    if line.len() == 0 {
        None
    } else {
        let fields = parse_csv_spec(line);
        let name = cell(fields, column_index(headers, Column::Name));
        let email = cell(fields, column_index(headers, Column::Email));
        let phone = cell(fields, column_index(headers, Column::Phone));
        if name.len() == 0 {
            None
        } else {
            Some(
                DraftView {
                    display_name: name,
                    given_name: None,
                    surname: None,
                    company: optional_cell(cell(fields, column_index(headers, Column::Company))),
                    job_title: optional_cell(cell(fields, column_index(headers, Column::Title))),
                    emails: if email.len() == 0 {
                        Seq::empty()
                    } else {
                        seq![(email, "other"@, true)]
                    },
                    phones: if phone.len() == 0 {
                        Seq::empty()
                    } else {
                        seq![(phone, "other"@)]
                    },
                },
            )
        }
    }
}

/// The contacts of a CSV file: its first line holds the headers, read
/// without regard to case.
pub open spec fn csv_contacts(data: Seq<char>) -> Seq<DraftView> {
    let ls = lines_spec(data);
    if ls.len() == 0 {
        Seq::empty()
    } else {
        let headers = parse_csv_spec(ls[0]).map_values(|h: Seq<char>| lowercase(h));
        somes(ls.drop_first().map_values(|l: Seq<char>| csv_row(headers, l)))
    }
}

fn header_is(h: &[char], c: Column) -> (r: bool)
    ensures
        r == is_header(h@, c),
{
    match c {
        Column::Name => eq_chars(h, chars_of("name").as_slice()) || eq_chars(
            h,
            chars_of("full name").as_slice(),
        ) || eq_chars(h, chars_of("display name").as_slice()) || eq_chars(
            h,
            chars_of("display_name").as_slice(),
        ),
        Column::Email => eq_chars(h, chars_of("email").as_slice()) || eq_chars(
            h,
            chars_of("e-mail").as_slice(),
        ) || eq_chars(h, chars_of("email address").as_slice()),
        Column::Phone => eq_chars(h, chars_of("phone").as_slice()) || eq_chars(
            h,
            chars_of("telephone").as_slice(),
        ) || eq_chars(h, chars_of("mobile").as_slice()) || eq_chars(
            h,
            chars_of("phone number").as_slice(),
        ),
        Column::Company => eq_chars(h, chars_of("company").as_slice()) || eq_chars(
            h,
            chars_of("organization").as_slice(),
        ) || eq_chars(h, chars_of("org").as_slice()) || eq_chars(
            h,
            chars_of("organisation").as_slice(),
        ),
        Column::Title => eq_chars(h, chars_of("title").as_slice()) || eq_chars(
            h,
            chars_of("job title").as_slice(),
        ) || eq_chars(h, chars_of("job_title").as_slice()) || eq_chars(
            h,
            chars_of("position").as_slice(),
        ),
    }
}

/// Finds the first header naming column `c`.
pub fn find_column(hs: &Vec<Vec<char>>, c: Column) -> (r: Option<usize>)
    ensures
        match r {
            Some(i) => column_index(hs@.map_values(|h: Vec<char>| h@), c) == Some(i as int),
            None => column_index(hs@.map_values(|h: Vec<char>| h@), c) is None,
        },
{
    let ghost hv = hs@.map_values(|h: Vec<char>| h@);
    let mut i: usize = 0;
    assert(hv.skip(0) =~= hv);
    while i < hs.len()
        invariant
            i <= hs@.len(),
            hv == hs@.map_values(|h: Vec<char>| h@),
            column_index(hv, c) == match column_index(hv.skip(i as int), c) {
                Some(k) => Some(k + i),
                None => None,
            },
        decreases hs.len() - i,
    {
        assert(hv.skip(i as int).drop_first() =~= hv.skip(i + 1));
        if header_is(hs[i].as_slice(), c) {
            assert(hv.skip(i as int)[0] == hv[i as int]);
            return Some(i);
        }
        i = i + 1;
    }
    None
}

fn cell_of(fields: &Vec<Vec<char>>, col: Option<usize>) -> (r: Vec<char>)
    ensures
        r@ == cell(
            fields@.map_values(|f: Vec<char>| f@),
            match col {
                Some(i) => Some(i as int),
                None => None,
            },
        ),
{
    match col {
        Some(i) => if i < fields.len() {
            let mut v: Vec<char> = Vec::new();
            crate::text::push_all(&mut v, fields[i].as_slice());
            v
        } else {
            Vec::new()
        },
        None => Vec::new(),
    }
}

fn optional_of(v: Vec<char>) -> (r: Option<String>)
    ensures
        crate::vcard::opt_str(r) == optional_cell(v@),
{
    if v.len() > 0 {
        Some(string_of(v.as_slice()))
    } else {
        None
    }
}

/// Reads one data line.
fn csv_row_exec(
    hs: &Vec<Vec<char>>,
    name_col: Option<usize>,
    email_col: Option<usize>,
    phone_col: Option<usize>,
    company_col: Option<usize>,
    title_col: Option<usize>,
    line0: &[char],
) -> (r: Option<ContactDraft>)
    requires
        ({
            let hv = hs@.map_values(|h: Vec<char>| h@);
            &&& (match name_col {
                Some(i) => column_index(hv, Column::Name) == Some(i as int),
                None => column_index(hv, Column::Name) is None,
            })
            &&& (match email_col {
                Some(i) => column_index(hv, Column::Email) == Some(i as int),
                None => column_index(hv, Column::Email) is None,
            })
            &&& (match phone_col {
                Some(i) => column_index(hv, Column::Phone) == Some(i as int),
                None => column_index(hv, Column::Phone) is None,
            })
            &&& (match company_col {
                Some(i) => column_index(hv, Column::Company) == Some(i as int),
                None => column_index(hv, Column::Company) is None,
            })
            &&& (match title_col {
                Some(i) => column_index(hv, Column::Title) == Some(i as int),
                None => column_index(hv, Column::Title) is None,
            })
        }),
    ensures
        match r {
            Some(d) => csv_row(hs@.map_values(|h: Vec<char>| h@), line0@) == Some(d@),
            None => csv_row(hs@.map_values(|h: Vec<char>| h@), line0@) is None,
        },
{
    let line = trim_chars(line0);
    if line.len() == 0 {
        return None;
    }
    let fields = parse_csv_chars(line.as_slice());
    let name = cell_of(&fields, name_col);
    if name.len() == 0 {
        return None;
    }
    let email = cell_of(&fields, email_col);
    let phone = cell_of(&fields, phone_col);
    let company = optional_of(cell_of(&fields, company_col));
    let job_title = optional_of(cell_of(&fields, title_col));
    let mut emails: Vec<EmailInput> = Vec::new();
    if email.len() > 0 {
        emails.push(
            EmailInput {
                email: string_of(email.as_slice()),
                email_type: string_of(chars_of("other").as_slice()),
                is_primary: true,
            },
        );
    }
    let mut phones: Vec<PhoneInput> = Vec::new();
    if phone.len() > 0 {
        phones.push(
            PhoneInput {
                number: string_of(phone.as_slice()),
                phone_type: string_of(chars_of("other").as_slice()),
            },
        );
    }
    let d = ContactDraft {
        display_name: string_of(name.as_slice()),
        given_name: None,
        surname: None,
        company,
        job_title,
        emails,
        phones,
    };
    proof {
        let dv = csv_row(hs@.map_values(|h: Vec<char>| h@), line0@)->0;
        assert(d@.emails =~= dv.emails);
        assert(d@.phones =~= dv.phones);
    }
    Some(d)
}

/// Reads the contacts of a CSV file, in the order of its lines.
pub fn parse_csv_contacts(data: &str) -> (r: Vec<ContactDraft>)
    ensures
        r@.map_values(|d: ContactDraft| d@) == csv_contacts(data@),
{
    let lines = lines_of(chars_of(data).as_slice());
    let ghost lv = lines@.map_values(|v: Vec<char>| v@);
    if lines.len() == 0 {
        return Vec::new();
    }
    let raw_headers = parse_csv_chars(lines[0].as_slice());
    let mut hs: Vec<Vec<char>> = Vec::new();
    let mut k: usize = 0;
    while k < raw_headers.len()
        invariant
            k <= raw_headers@.len(),
            hs@.len() == k,
            forall|j: int| 0 <= j < k ==> #[trigger] hs@[j]@ == lowercase(raw_headers@[j]@),
        decreases raw_headers.len() - k,
    {
        hs.push(to_lowercase(raw_headers[k].as_slice()));
        k = k + 1;
    }
    let ghost hv = hs@.map_values(|h: Vec<char>| h@);
    assert(hv =~= parse_csv_spec(lv[0]).map_values(|h: Seq<char>| lowercase(h)));
    let name_col = find_column(&hs, Column::Name);
    let email_col = find_column(&hs, Column::Email);
    let phone_col = find_column(&hs, Column::Phone);
    let company_col = find_column(&hs, Column::Company);
    let title_col = find_column(&hs, Column::Title);
    let ghost rows = lv.drop_first().map_values(|l: Seq<char>| csv_row(hv, l));
    let mut out: Vec<ContactDraft> = Vec::new();
    let mut i: usize = 1;
    while i < lines.len()
        invariant
            1 <= i <= lines@.len(),
            lv == lines@.map_values(|v: Vec<char>| v@),
            hv == hs@.map_values(|h: Vec<char>| h@),
            rows == lv.drop_first().map_values(|l: Seq<char>| csv_row(hv, l)),
            match name_col {
                Some(i) => column_index(hv, Column::Name) == Some(i as int),
                None => column_index(hv, Column::Name) is None,
            },
            match email_col {
                Some(i) => column_index(hv, Column::Email) == Some(i as int),
                None => column_index(hv, Column::Email) is None,
            },
            match phone_col {
                Some(i) => column_index(hv, Column::Phone) == Some(i as int),
                None => column_index(hv, Column::Phone) is None,
            },
            match company_col {
                Some(i) => column_index(hv, Column::Company) == Some(i as int),
                None => column_index(hv, Column::Company) is None,
            },
            match title_col {
                Some(i) => column_index(hv, Column::Title) == Some(i as int),
                None => column_index(hv, Column::Title) is None,
            },
            out@.map_values(|d: ContactDraft| d@) == somes(rows.take(i - 1)),
        decreases lines.len() - i,
    {
        assert(rows.take(i as int).drop_last() =~= rows.take(i - 1));
        assert(rows.take(i as int).last() == csv_row(hv, lines@[i as int]@));
        let ghost before = out@.map_values(|d: ContactDraft| d@);
        match csv_row_exec(
            &hs,
            name_col,
            email_col,
            phone_col,
            company_col,
            title_col,
            lines[i].as_slice(),
        ) {
            Some(d) => {
                out.push(d);
                assert(out@.map_values(|d: ContactDraft| d@) =~= before.push(d@));
            },
            None => {},
        }
        i = i + 1;
    }
    assert(rows.take(rows.len() as int) =~= rows);
    out
}

} // verus!
