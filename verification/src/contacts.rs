//! Contact records: building one from a form, applying an edit, and merging
//! two records into one.

use crate::json::{array_text, merge_json_arrays, merge_json_arrays_spec, text_or_empty_array};
use crate::query::opt_view;
use crate::text::{chars_of, has_prefix, has_suffix, lowercase, push_all, string_of, to_lowercase};
use crate::vcard::EmailInput;
use vstd::prelude::*;

verus! {

/// A stored contact. The list fields hold JSON arrays.
pub struct Contact {
    pub id: String,
    pub account_id: String,
    pub display_name: String,
    pub given_name: Option<String>,
    pub surname: Option<String>,
    pub nickname: Option<String>,
    pub company: Option<String>,
    pub job_title: Option<String>,
    pub department: Option<String>,
    pub notes: Option<String>,
    pub birthday: Option<String>,
    pub photo_uri: Option<String>,
    pub phones: String,
    pub addresses: String,
    pub social_profiles: String,
    pub urls: String,
    pub relations: String,
    pub is_starred: bool,
    pub source: String,
    pub created_at: i64,
    pub updated_at: i64,
}

/// A stored email address of a contact.
pub struct ContactEmail {
    pub id: String,
    pub contact_id: String,
    pub email: String,
    pub email_type: String,
    pub is_primary: bool,
}

/// A contact with its addresses and the names of its groups.
pub struct ContactWithEmails {
    pub contact: Contact,
    pub emails: Vec<ContactEmail>,
    pub groups: Vec<String>,
}

/// A group of contacts.
pub struct ContactGroup {
    pub id: String,
    pub account_id: String,
    pub name: String,
    pub color: Option<String>,
    pub remote_id: Option<String>,
    pub created_at: i64,
}

/// The fields of a new contact.
pub struct CreateContactInput {
    pub display_name: String,
    pub given_name: Option<String>,
    pub surname: Option<String>,
    pub nickname: Option<String>,
    pub company: Option<String>,
    pub job_title: Option<String>,
    pub department: Option<String>,
    pub notes: Option<String>,
    pub birthday: Option<String>,
    pub photo_uri: Option<String>,
    pub phones: Vec<serde_json::Value>,
    pub addresses: Vec<serde_json::Value>,
    pub social_profiles: Vec<serde_json::Value>,
    pub urls: Vec<serde_json::Value>,
    pub relations: Vec<serde_json::Value>,
    pub emails: Vec<EmailInput>,
    pub groups: Vec<String>,
}

/// An edit of a contact: a field that is `Some` replaces the stored one.
pub struct UpdateContactInput {
    pub display_name: Option<String>,
    pub given_name: Option<String>,
    pub surname: Option<String>,
    pub nickname: Option<String>,
    pub company: Option<String>,
    pub job_title: Option<String>,
    pub department: Option<String>,
    pub notes: Option<String>,
    pub birthday: Option<String>,
    pub photo_uri: Option<String>,
    pub phones: Option<Vec<serde_json::Value>>,
    pub addresses: Option<Vec<serde_json::Value>>,
    pub social_profiles: Option<Vec<serde_json::Value>>,
    pub urls: Option<Vec<serde_json::Value>>,
    pub relations: Option<Vec<serde_json::Value>>,
    pub is_starred: Option<bool>,
    pub emails: Option<Vec<EmailInput>>,
    pub groups: Option<Vec<String>>,
}

/// The record a new contact is stored as: its list fields written as JSON
/// (`[]` where that fails), its source `local`, not starred, created and
/// updated at `now`.
pub open spec fn contact_from_input_spec(
    c: Contact,
    id: Seq<char>,
    account_id: Seq<char>,
    input: CreateContactInput,
    now: i64,
) -> bool {
    &&& c.id@ == id
    &&& c.account_id@ == account_id
    &&& c.display_name@ == input.display_name@
    &&& opt_view(c.given_name) == opt_view(input.given_name)
    &&& opt_view(c.surname) == opt_view(input.surname)
    &&& opt_view(c.nickname) == opt_view(input.nickname)
    &&& opt_view(c.company) == opt_view(input.company)
    &&& opt_view(c.job_title) == opt_view(input.job_title)
    &&& opt_view(c.department) == opt_view(input.department)
    &&& opt_view(c.notes) == opt_view(input.notes)
    &&& opt_view(c.birthday) == opt_view(input.birthday)
    &&& opt_view(c.photo_uri) == opt_view(input.photo_uri)
    &&& c.phones@ == text_or_empty_array(input.phones@)
    &&& c.addresses@ == text_or_empty_array(input.addresses@)
    &&& c.social_profiles@ == text_or_empty_array(input.social_profiles@)
    &&& c.urls@ == text_or_empty_array(input.urls@)
    &&& c.relations@ == text_or_empty_array(input.relations@)
    &&& !c.is_starred
    &&& c.source@ == "local"@
    &&& c.created_at == now
    &&& c.updated_at == now
}

/// Builds the record of a new contact.
pub fn contact_from_input(id: &str, account_id: &str, input: &CreateContactInput, now: i64) -> (c:
    Contact)
    ensures
        contact_from_input_spec(c, id@, account_id@, *input, now),
{
    Contact {
        id: string_of(chars_of(id).as_slice()),
        account_id: string_of(chars_of(account_id).as_slice()),
        display_name: input.display_name.clone(),
        given_name: input.given_name.clone(),
        surname: input.surname.clone(),
        nickname: input.nickname.clone(),
        company: input.company.clone(),
        job_title: input.job_title.clone(),
        department: input.department.clone(),
        notes: input.notes.clone(),
        birthday: input.birthday.clone(),
        photo_uri: input.photo_uri.clone(),
        phones: array_text(&input.phones),
        addresses: array_text(&input.addresses),
        social_profiles: array_text(&input.social_profiles),
        urls: array_text(&input.urls),
        relations: array_text(&input.relations),
        is_starred: false,
        source: string_of(chars_of("local").as_slice()),
        created_at: now,
        updated_at: now,
    }
}

/// A replacement when given, the old value otherwise.
pub open spec fn replace_opt(new: Option<Seq<char>>, old: Option<Seq<char>>) -> Option<Seq<char>> {
    if new is Some {
        new
    } else {
        old
    }
}

/// A JSON list field after an edit.
pub open spec fn replace_list(new: Option<Seq<serde_json::Value>>, old: Seq<char>) -> Seq<char> {
    match new {
        Some(v) => text_or_empty_array(v),
        None => old,
    }
}

pub open spec fn opt_values(o: Option<Vec<serde_json::Value>>) -> Option<Seq<serde_json::Value>> {
    match o {
        Some(v) => Some(v@),
        None => None,
    }
}

/// The stored record after an edit made at `now`.
pub open spec fn updated_contact_spec(
    c: Contact,
    old: Contact,
    input: UpdateContactInput,
    now: i64,
) -> bool {
    &&& c.id@ == old.id@
    &&& c.account_id@ == old.account_id@
    &&& c.display_name@ == (match input.display_name {
        Some(n) => n@,
        None => old.display_name@,
    })
    &&& opt_view(c.given_name) == replace_opt(opt_view(input.given_name), opt_view(old.given_name))
    &&& opt_view(c.surname) == replace_opt(opt_view(input.surname), opt_view(old.surname))
    &&& opt_view(c.nickname) == replace_opt(opt_view(input.nickname), opt_view(old.nickname))
    &&& opt_view(c.company) == replace_opt(opt_view(input.company), opt_view(old.company))
    &&& opt_view(c.job_title) == replace_opt(opt_view(input.job_title), opt_view(old.job_title))
    &&& opt_view(c.department) == replace_opt(opt_view(input.department), opt_view(old.department))
    &&& opt_view(c.notes) == replace_opt(opt_view(input.notes), opt_view(old.notes))
    &&& opt_view(c.birthday) == replace_opt(opt_view(input.birthday), opt_view(old.birthday))
    &&& opt_view(c.photo_uri) == replace_opt(opt_view(input.photo_uri), opt_view(old.photo_uri))
    &&& c.phones@ == replace_list(opt_values(input.phones), old.phones@)
    &&& c.addresses@ == replace_list(opt_values(input.addresses), old.addresses@)
    &&& c.social_profiles@ == replace_list(opt_values(input.social_profiles), old.social_profiles@)
    &&& c.urls@ == replace_list(opt_values(input.urls), old.urls@)
    &&& c.relations@ == replace_list(opt_values(input.relations), old.relations@)
    &&& c.is_starred == (match input.is_starred {
        Some(b) => b,
        None => old.is_starred,
    })
    &&& c.source@ == old.source@
    &&& c.created_at == old.created_at
    &&& c.updated_at == now
}

fn pick(new: &Option<String>, old: &Option<String>) -> (r: Option<String>)
    ensures
        opt_view(r) == replace_opt(opt_view(*new), opt_view(*old)),
{
    if new.is_some() {
        new.clone()
    } else {
        old.clone()
    }
}

fn pick_list(new: &Option<Vec<serde_json::Value>>, old: &String) -> (r: String)
    ensures
        r@ == replace_list(opt_values(*new), old@),
{
    match new {
        Some(v) => array_text(v),
        None => old.clone(),
    }
}

/// Applies an edit to a stored contact.
pub fn apply_contact_update(old: &Contact, input: &UpdateContactInput, now: i64) -> (c: Contact)
    ensures
        updated_contact_spec(c, *old, *input, now),
{
    Contact {
        id: old.id.clone(),
        account_id: old.account_id.clone(),
        display_name: match &input.display_name {
            Some(n) => n.clone(),
            None => old.display_name.clone(),
        },
        given_name: pick(&input.given_name, &old.given_name),
        surname: pick(&input.surname, &old.surname),
        nickname: pick(&input.nickname, &old.nickname),
        company: pick(&input.company, &old.company),
        job_title: pick(&input.job_title, &old.job_title),
        department: pick(&input.department, &old.department),
        notes: pick(&input.notes, &old.notes),
        birthday: pick(&input.birthday, &old.birthday),
        photo_uri: pick(&input.photo_uri, &old.photo_uri),
        phones: pick_list(&input.phones, &old.phones),
        addresses: pick_list(&input.addresses, &old.addresses),
        social_profiles: pick_list(&input.social_profiles, &old.social_profiles),
        urls: pick_list(&input.urls, &old.urls),
        relations: pick_list(&input.relations, &old.relations),
        is_starred: match input.is_starred {
            Some(b) => b,
            None => old.is_starred,
        },
        source: old.source.clone(),
        created_at: old.created_at,
        updated_at: now,
    }
}

/// Notes of two merged contacts: both, one line apart, when both exist.
pub open spec fn merged_notes(p: Option<Seq<char>>, s: Option<Seq<char>>) -> Option<Seq<char>> {
    match (p, s) {
        (Some(a), Some(b)) => Some(a + seq!['\n'] + b),
        (Some(a), None) => Some(a),
        (None, Some(b)) => Some(b),
        (None, None) => None,
    }
}

/// A field of two merged contacts: the primary's when it has one.
pub open spec fn or_opt(p: Option<Seq<char>>, s: Option<Seq<char>>) -> Option<Seq<char>> {
    if p is Some {
        p
    } else {
        s
    }
}

/// The primary record after `secondary` is merged into it at `now`: text
/// fields are filled from the secondary where the primary has none, notes
/// are joined, list fields concatenated; name, identity and creation stay.
pub open spec fn merged_contact_spec(c: Contact, p: Contact, s: Contact, now: i64) -> bool {
    &&& c.id@ == p.id@
    &&& c.account_id@ == p.account_id@
    &&& c.display_name@ == p.display_name@
    &&& opt_view(c.given_name) == opt_view(p.given_name)
    &&& opt_view(c.surname) == opt_view(p.surname)
    &&& opt_view(c.nickname) == or_opt(opt_view(p.nickname), opt_view(s.nickname))
    &&& opt_view(c.company) == or_opt(opt_view(p.company), opt_view(s.company))
    &&& opt_view(c.job_title) == or_opt(opt_view(p.job_title), opt_view(s.job_title))
    &&& opt_view(c.department) == or_opt(opt_view(p.department), opt_view(s.department))
    &&& opt_view(c.notes) == merged_notes(opt_view(p.notes), opt_view(s.notes))
    &&& opt_view(c.birthday) == or_opt(opt_view(p.birthday), opt_view(s.birthday))
    &&& opt_view(c.photo_uri) == or_opt(opt_view(p.photo_uri), opt_view(s.photo_uri))
    &&& c.phones@ == merge_json_arrays_spec(p.phones@, s.phones@)
    &&& c.addresses@ == merge_json_arrays_spec(p.addresses@, s.addresses@)
    &&& c.social_profiles@ == merge_json_arrays_spec(p.social_profiles@, s.social_profiles@)
    &&& c.urls@ == merge_json_arrays_spec(p.urls@, s.urls@)
    &&& c.relations@ == merge_json_arrays_spec(p.relations@, s.relations@)
    &&& c.is_starred == p.is_starred
    &&& c.source@ == p.source@
    &&& c.created_at == p.created_at
    &&& c.updated_at == now
}

fn first_some(p: &Option<String>, s: &Option<String>) -> (r: Option<String>)
    ensures
        opt_view(r) == or_opt(opt_view(*p), opt_view(*s)),
{
    if p.is_some() {
        p.clone()
    } else {
        s.clone()
    }
}

/// Merging loses no text. The merged notes exist exactly when either
/// contact has notes; they begin with the primary's notes and end with the
/// secondary's, and where only one contact has notes they are exactly those.
/// Every other optional text field is kept from the primary when it has
/// one, and otherwise taken from the secondary.
pub proof fn law_merge_keeps_text(c: Contact, p: Contact, s: Contact, now: i64)
    requires
        merged_contact_spec(c, p, s, now),
    ensures
        (c.notes is Some) <==> (p.notes is Some || s.notes is Some),
        p.notes matches Some(a) ==> (c.notes matches Some(m) && has_prefix(m@, a@)),
        s.notes matches Some(b) ==> (c.notes matches Some(m) && has_suffix(m@, b@)),
        p.notes is None ==> opt_view(c.notes) == opt_view(s.notes),
        s.notes is None ==> opt_view(c.notes) == opt_view(p.notes),
        (p.notes is Some && s.notes is Some) ==> (c.notes matches Some(m) && m@.len()
            == p.notes->0@.len() + 1 + s.notes->0@.len() && m@[p.notes->0@.len() as int] == '\n'),
        (c.company is Some) <==> (p.company is Some || s.company is Some),
        p.company is Some ==> opt_view(c.company) == opt_view(p.company),
        p.company is None ==> opt_view(c.company) == opt_view(s.company),
        p.nickname is Some ==> opt_view(c.nickname) == opt_view(p.nickname),
        p.nickname is None ==> opt_view(c.nickname) == opt_view(s.nickname),
        p.job_title is Some ==> opt_view(c.job_title) == opt_view(p.job_title),
        p.job_title is None ==> opt_view(c.job_title) == opt_view(s.job_title),
        p.department is Some ==> opt_view(c.department) == opt_view(p.department),
        p.department is None ==> opt_view(c.department) == opt_view(s.department),
        p.birthday is Some ==> opt_view(c.birthday) == opt_view(p.birthday),
        p.birthday is None ==> opt_view(c.birthday) == opt_view(s.birthday),
        p.photo_uri is Some ==> opt_view(c.photo_uri) == opt_view(p.photo_uri),
        p.photo_uri is None ==> opt_view(c.photo_uri) == opt_view(s.photo_uri),
{
    match (p.notes, s.notes) {
        (Some(a), Some(b)) => {
            let m = a@ + seq!['\n'] + b@;
            assert(m.take(a@.len() as int) =~= a@);
            assert(m.skip(m.len() - b@.len()) =~= b@);
        },
        (Some(a), None) => {
            assert(a@.take(a@.len() as int) =~= a@);
        },
        (None, Some(b)) => {
            assert(b@.skip(0) =~= b@);
        },
        (None, None) => {},
    }
}

fn join_notes(p: &Option<String>, s: &Option<String>) -> (r: Option<String>)
    ensures
        opt_view(r) == merged_notes(opt_view(*p), opt_view(*s)),
{
    match (p, s) {
        (Some(a), Some(b)) => {
            let mut v = chars_of(a.as_str());
            v.push('\n');
            push_all(&mut v, chars_of(b.as_str()).as_slice());
            Some(string_of(v.as_slice()))
        },
        (Some(a), None) => Some(a.clone()),
        (None, Some(b)) => Some(b.clone()),
        (None, None) => None,
    }
}

/// Merges the fields of `secondary` into `primary`.
pub fn merge_contact_fields(primary: &Contact, secondary: &Contact, now: i64) -> (c: Contact)
    ensures
        merged_contact_spec(c, *primary, *secondary, now),
{
    Contact {
        id: primary.id.clone(),
        account_id: primary.account_id.clone(),
        display_name: primary.display_name.clone(),
        given_name: primary.given_name.clone(),
        surname: primary.surname.clone(),
        nickname: first_some(&primary.nickname, &secondary.nickname),
        company: first_some(&primary.company, &secondary.company),
        job_title: first_some(&primary.job_title, &secondary.job_title),
        department: first_some(&primary.department, &secondary.department),
        notes: join_notes(&primary.notes, &secondary.notes),
        birthday: first_some(&primary.birthday, &secondary.birthday),
        photo_uri: first_some(&primary.photo_uri, &secondary.photo_uri),
        phones: merge_json_arrays(primary.phones.as_str(), secondary.phones.as_str()),
        addresses: merge_json_arrays(primary.addresses.as_str(), secondary.addresses.as_str()),
        social_profiles: merge_json_arrays(
            primary.social_profiles.as_str(),
            secondary.social_profiles.as_str(),
        ),
        urls: merge_json_arrays(primary.urls.as_str(), secondary.urls.as_str()),
        relations: merge_json_arrays(primary.relations.as_str(), secondary.relations.as_str()),
        is_starred: primary.is_starred,
        source: primary.source.clone(),
        created_at: primary.created_at,
        updated_at: now,
    }
}

/// Whether two contacts may be merged: not a contact with itself.
pub fn check_merge_ids(primary_id: &str, secondary_id: &str) -> (r: Result<(), String>)
    ensures
        r is Ok <==> primary_id@ != secondary_id@,
        r matches Err(e) ==> e@ == "Cannot merge a contact with itself"@,
{
    if crate::text::eq_chars(chars_of(primary_id).as_slice(), chars_of(secondary_id).as_slice()) {
        Err(string_of(chars_of("Cannot merge a contact with itself").as_slice()))
    } else {
        Ok(())
    }
}

/// The lowercase forms of some addresses.
pub open spec fn lowered(es: Seq<ContactEmail>) -> Seq<Seq<char>> {
    es.map_values(|e: ContactEmail| lowercase(e.email@))
}

/// The addresses of the secondary contact that a merge moves to the
/// primary: those whose lowercase form is not among the primary's.
pub open spec fn emails_to_move_spec(primary: Seq<ContactEmail>, secondary: Seq<ContactEmail>) -> Seq<
    int,
> {
    Seq::new(secondary.len(), |i: int| i).filter(
        |i: int| !lowered(primary).contains(lowercase(secondary[i].email@)),
    )
}

/// Positions, in order, of the secondary addresses that a merge moves.
pub fn emails_to_move(primary: &Vec<ContactEmail>, secondary: &Vec<ContactEmail>) -> (r: Vec<usize>)
    ensures
        r@.map_values(|i: usize| i as int) == emails_to_move_spec(primary@, secondary@),
{
    let mut lows: Vec<Vec<char>> = Vec::new();
    let mut k: usize = 0;
    while k < primary.len()
        invariant
            k <= primary@.len(),
            lows@.map_values(|l: Vec<char>| l@) == lowered(primary@).take(k as int),
        decreases primary.len() - k,
    {
        let ghost before = lows@.map_values(|l: Vec<char>| l@);
        lows.push(to_lowercase(chars_of(primary[k].email.as_str()).as_slice()));
        assert(lows@.map_values(|l: Vec<char>| l@) =~= before.push(lowercase(primary@[k as int].email@)));
        assert(lowered(primary@).take(k + 1) =~= lowered(primary@).take(k as int).push(
            lowercase(primary@[k as int].email@),
        ));
        k = k + 1;
    }
    assert(lowered(primary@).take(primary@.len() as int) =~= lowered(primary@));
    let ghost lv = lowered(primary@);
    let ghost idx = Seq::new(secondary@.len(), |i: int| i);
    let ghost keep = |i: int| !lv.contains(lowercase(secondary@[i].email@));
    let mut r: Vec<usize> = Vec::new();
    let mut i: usize = 0;
    while i < secondary.len()
        invariant
            i <= secondary@.len(),
            lv == lowered(primary@),
            lows@.map_values(|l: Vec<char>| l@) == lv,
            idx == Seq::new(secondary@.len(), |i: int| i),
            keep == (|i: int| !lv.contains(lowercase(secondary@[i].email@))),
            r@.map_values(|i: usize| i as int) == idx.take(i as int).filter(keep),
        decreases secondary.len() - i,
    {
        let low = to_lowercase(chars_of(secondary[i].email.as_str()).as_slice());
        let mut found = false;
        let mut j: usize = 0;
        while j < lows.len()
            invariant
                j <= lows@.len(),
                lows@.map_values(|l: Vec<char>| l@) == lv,
                found == exists|m: int| 0 <= m < j && lv[m] == low@,
            decreases lows.len() - j,
        {
            assert(lv[j as int] == lows@[j as int]@);
            if crate::text::eq_chars(lows[j].as_slice(), low.as_slice()) {
                found = true;
            }
            assert(found == exists|m: int| 0 <= m < j + 1 && lv[m] == low@) by {
                if lv[j as int] == low@ {
                    assert(0 <= j < j + 1 && lv[j as int] == low@);
                }
            }
            j = j + 1;
        }
        proof {
            reveal_with_fuel(Seq::<_>::filter, 1);
            assert(idx.take(i + 1).drop_last() =~= idx.take(i as int));
            assert(found == lv.contains(low@));
        }
        let ghost before = r@.map_values(|i: usize| i as int);
        if !found {
            r.push(i);
            assert(r@.map_values(|i: usize| i as int) =~= before.push(i as int));
        }
        i = i + 1;
    }
    assert(idx.take(secondary@.len() as int) =~= idx);
    r
}

/// The name and colour of a group after an edit; what is not given stays.
pub fn edited_group(existing: &ContactGroup, name: Option<&str>, color: Option<&str>) -> (g:
    ContactGroup)
    ensures
        g.id@ == existing.id@,
        g.account_id@ == existing.account_id@,
        g.name@ == (match name {
            Some(n) => n@,
            None => existing.name@,
        }),
        opt_view(g.color) == (match color {
            Some(c) => Some(c@),
            None => opt_view(existing.color),
        }),
        opt_view(g.remote_id) == opt_view(existing.remote_id),
        g.created_at == existing.created_at,
{
    ContactGroup {
        id: existing.id.clone(),
        account_id: existing.account_id.clone(),
        name: match name {
            Some(n) => string_of(chars_of(n).as_slice()),
            None => existing.name.clone(),
        },
        color: match color {
            Some(c) => Some(string_of(chars_of(c).as_slice())),
            None => existing.color.clone(),
        },
        remote_id: existing.remote_id.clone(),
        created_at: existing.created_at,
    }
}

} // verus!
