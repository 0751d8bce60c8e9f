//! Reading and writing contacts: merging the ids a search finds, putting
//! contacts together with their addresses and groups, the records of new
//! addresses, imported drafts, and when the address book is synced.

use crate::contacts::{Contact, ContactEmail, ContactWithEmails, CreateContactInput};
use crate::json::{json_phone_object, phone_object};
use crate::query::opt_view;
use crate::search::{add_new, string_views};
use crate::text::{
    chars_of, count_char, lemma_count_absent, lemma_count_concat, lemma_count_single, push_str,
    str_eq, string_of,
};
use crate::vcard::{ContactDraft, EmailInput, PhoneInput};
use vstd::prelude::*;

verus! {

/// The ids a contact search lists: those found by name, then those found
/// by address that are not listed yet, at most `limit` (no cut when the
/// limit is negative).
pub open spec fn merged_ids(by_name: Seq<Seq<char>>, by_email: Seq<Seq<char>>, limit: i64) -> Seq<
    Seq<char>,
> {
    let all = add_new(by_name, by_email);
    if 0 <= limit < all.len() {
        all.take(limit as int)
    } else {
        all
    }
}

/// Merges the ids of a contact search.
pub fn merge_contact_ids(by_name: Vec<String>, by_email: Vec<String>, limit: i64) -> (r: Vec<String>)
    ensures
        string_views(r@) == merged_ids(string_views(by_name@), string_views(by_email@), limit),
{
    let mut all = by_name;
    let ghost start = string_views(all@);
    let ghost ev = string_views(by_email@);
    let mut i: usize = 0;
    while i < by_email.len()
        invariant
            i <= by_email@.len(),
            ev == string_views(by_email@),
            string_views(all@) == add_new(start, ev.take(i as int)),
        decreases by_email.len() - i,
    {
        assert(ev.take(i + 1).drop_last() =~= ev.take(i as int));
        assert(ev.take(i + 1).last() == by_email@[i as int]@);
        let mut found = false;
        let mut k: usize = 0;
        while k < all.len()
            invariant
                i < by_email@.len(),
                k <= all@.len(),
                !found ==> forall|m: int| 0 <= m < k ==> string_views(all@)[m] != by_email@[i as int]@,
                found ==> string_views(all@).contains(by_email@[i as int]@),
            decreases all.len() - k,
        {
            if str_eq(all[k].as_str(), by_email[i].as_str()) {
                found = true;
                assert(string_views(all@)[k as int] == by_email@[i as int]@);
            }
            k = k + 1;
        }
        if !found {
            let ghost prev = string_views(all@);
            all.push(by_email[i].clone());
            assert(string_views(all@) =~= prev.push(by_email@[i as int]@));
        }
        i = i + 1;
    }
    assert(ev.take(ev.len() as int) =~= ev);
    if limit >= 0 && (limit as u64) < (all.len() as u64) {
        let ghost full = string_views(all@);
        all.truncate(limit as usize);
        assert(string_views(all@) =~= full.take(limit as int));
    }
    all
}

/// `n` placeholders separated by commas.
pub open spec fn comma_placeholders(n: nat) -> Seq<char>
    decreases n,
{
    if n == 0 {
        Seq::empty()
    } else if n == 1 {
        "?"@
    } else {
        comma_placeholders((n - 1) as nat) + ",?"@
    }
}

/// The placeholders for `n` ids are `n` question marks.
pub proof fn law_id_placeholders(n: nat)
    ensures
        count_char(comma_placeholders(n), '?') == n,
    decreases n,
{
    reveal_strlit("?");
    reveal_strlit(",?");
    lemma_count_single('?');
    if n == 1 {
        assert("?"@ =~= seq!['?']);
    } else if n > 1 {
        law_id_placeholders((n - 1) as nat);
        assert(",?"@ =~= seq![','] + seq!['?']);
        assert(!seq![','].contains('?'));
        lemma_count_absent(seq![','], '?');
        lemma_count_concat(seq![','], seq!['?'], '?');
        lemma_count_concat(comma_placeholders((n - 1) as nat), ",?"@, '?');
    }
}

/// Placeholders for an `IN (...)` list of `n` ids.
pub fn id_placeholders(n: usize) -> (r: String)
    ensures
        r@ == comma_placeholders(n as nat),
{
    let mut out: Vec<char> = Vec::new();
    let mut i: usize = 0;
    while i < n
        invariant
            i <= n,
            out@ == comma_placeholders(i as nat),
        decreases n - i,
    {
        if i == 0 {
            push_str(&mut out, "?");
        } else {
            push_str(&mut out, ",?");
        }
        proof {
            reveal_strlit("?");
        }
        i = i + 1;
    }
    string_of(out.as_slice())
}

/// Whether two contact records hold the same values.
pub open spec fn same_contact(a: Contact, b: Contact) -> bool {
    &&& a.id@ == b.id@
    &&& a.account_id@ == b.account_id@
    &&& a.display_name@ == b.display_name@
    &&& opt_view(a.given_name) == opt_view(b.given_name)
    &&& opt_view(a.surname) == opt_view(b.surname)
    &&& opt_view(a.nickname) == opt_view(b.nickname)
    &&& opt_view(a.company) == opt_view(b.company)
    &&& opt_view(a.job_title) == opt_view(b.job_title)
    &&& opt_view(a.department) == opt_view(b.department)
    &&& opt_view(a.notes) == opt_view(b.notes)
    &&& opt_view(a.birthday) == opt_view(b.birthday)
    &&& opt_view(a.photo_uri) == opt_view(b.photo_uri)
    &&& a.phones@ == b.phones@
    &&& a.addresses@ == b.addresses@
    &&& a.social_profiles@ == b.social_profiles@
    &&& a.urls@ == b.urls@
    &&& a.relations@ == b.relations@
    &&& a.is_starred == b.is_starred
    &&& a.source@ == b.source@
    &&& a.created_at == b.created_at
    &&& a.updated_at == b.updated_at
}

fn copy_text(o: &Option<String>) -> (r: Option<String>)
    ensures
        opt_view(r) == opt_view(*o),
{
    match o {
        Some(s) => Some(s.clone()),
        None => None,
    }
}

fn copy_contact(c: &Contact) -> (r: Contact)
    ensures
        same_contact(r, *c),
{
    Contact {
        id: c.id.clone(),
        account_id: c.account_id.clone(),
        display_name: c.display_name.clone(),
        given_name: copy_text(&c.given_name),
        surname: copy_text(&c.surname),
        nickname: copy_text(&c.nickname),
        company: copy_text(&c.company),
        job_title: copy_text(&c.job_title),
        department: copy_text(&c.department),
        notes: copy_text(&c.notes),
        birthday: copy_text(&c.birthday),
        photo_uri: copy_text(&c.photo_uri),
        phones: c.phones.clone(),
        addresses: c.addresses.clone(),
        social_profiles: c.social_profiles.clone(),
        urls: c.urls.clone(),
        relations: c.relations.clone(),
        is_starred: c.is_starred,
        source: c.source.clone(),
        created_at: c.created_at,
        updated_at: c.updated_at,
    }
}

/// Abstract stored address: (id, contact id, address, type, primary).
pub open spec fn email_view(e: ContactEmail) -> (Seq<char>, Seq<char>, Seq<char>, Seq<char>, bool) {
    (e.id@, e.contact_id@, e.email@, e.email_type@, e.is_primary)
}

/// The addresses of contact `cid`, in the order given.
pub open spec fn emails_of(es: Seq<ContactEmail>, cid: Seq<char>) -> Seq<
    (Seq<char>, Seq<char>, Seq<char>, Seq<char>, bool),
>
    decreases es.len(),
{
    if es.len() == 0 {
        Seq::empty()
    } else if es.last().contact_id@ == cid {
        emails_of(es.drop_last(), cid).push(email_view(es.last()))
    } else {
        emails_of(es.drop_last(), cid)
    }
}

/// The group names of contact `cid` from (contact id, group name) pairs.
pub open spec fn groups_of(gs: Seq<(Seq<char>, Seq<char>)>, cid: Seq<char>) -> Seq<Seq<char>>
    decreases gs.len(),
{
    if gs.len() == 0 {
        Seq::empty()
    } else if gs.last().0 == cid {
        groups_of(gs.drop_last(), cid).push(gs.last().1)
    } else {
        groups_of(gs.drop_last(), cid)
    }
}

/// The index of the first contact with id `cid`.
pub open spec fn contact_index(cs: Seq<Contact>, cid: Seq<char>) -> Option<int>
    decreases cs.len(),
{
    if cs.len() == 0 {
        None
    } else if cs[0].id@ == cid {
        Some(0)
    } else {
        match contact_index(cs.drop_first(), cid) {
            Some(i) => Some(i + 1),
            None => None,
        }
    }
}

/// For each listed id with a stored contact, in list order: the index of
/// that contact and the id.
pub open spec fn assembly(ids: Seq<Seq<char>>, cs: Seq<Contact>) -> Seq<(int, Seq<char>)>
    decreases ids.len(),
{
    if ids.len() == 0 {
        Seq::empty()
    } else {
        match contact_index(cs, ids.last()) {
            Some(i) => assembly(ids.drop_last(), cs).push((i, ids.last())),
            None => assembly(ids.drop_last(), cs),
        }
    }
}

proof fn lemma_contact_index(cs: Seq<Contact>, cid: Seq<char>)
    ensures
        match contact_index(cs, cid) {
            Some(i) => 0 <= i < cs.len() && cs[i].id@ == cid,
            None => true,
        },
    decreases cs.len(),
{
    if cs.len() > 0 && cs[0].id@ != cid {
        lemma_contact_index(cs.drop_first(), cid);
    }
}

fn find_contact(cs: &Vec<Contact>, cid: &str) -> (r: Option<usize>)
    ensures
        match r {
            Some(i) => contact_index(cs@, cid@) == Some(i as int) && i < cs@.len(),
            None => contact_index(cs@, cid@) is None,
        },
{
    let mut i: usize = 0;
    assert(cs@.skip(0) =~= cs@);
    while i < cs.len()
        invariant
            i <= cs@.len(),
            contact_index(cs@, cid@) == match contact_index(cs@.skip(i as int), cid@) {
                Some(j) => Some(j + i),
                None => None,
            },
        decreases cs.len() - i,
    {
        assert(cs@.skip(i as int).drop_first() =~= cs@.skip(i + 1));
        assert(cs@.skip(i as int)[0] == cs@[i as int]);
        if str_eq(cs[i].id.as_str(), cid) {
            return Some(i);
        }
        i = i + 1;
    }
    None
}

fn copy_email(e: &ContactEmail) -> (r: ContactEmail)
    ensures
        email_view(r) == email_view(*e),
{
    ContactEmail {
        id: e.id.clone(),
        contact_id: e.contact_id.clone(),
        email: e.email.clone(),
        email_type: e.email_type.clone(),
        is_primary: e.is_primary,
    }
}

fn emails_for(es: &Vec<ContactEmail>, cid: &str) -> (r: Vec<ContactEmail>)
    ensures
        r@.map_values(|e: ContactEmail| email_view(e)) == emails_of(es@, cid@),
{
    let mut out: Vec<ContactEmail> = Vec::new();
    let mut i: usize = 0;
    while i < es.len()
        invariant
            i <= es@.len(),
            out@.map_values(|e: ContactEmail| email_view(e)) == emails_of(es@.take(i as int), cid@),
        decreases es.len() - i,
    {
        assert(es@.take(i + 1).drop_last() =~= es@.take(i as int));
        assert(es@.take(i + 1).last() == es@[i as int]);
        if str_eq(es[i].contact_id.as_str(), cid) {
            let ghost prev = out@.map_values(|e: ContactEmail| email_view(e));
            out.push(copy_email(&es[i]));
            assert(out@.map_values(|e: ContactEmail| email_view(e)) =~= prev.push(email_view(es@[i as int])));
        }
        i = i + 1;
    }
    assert(es@.take(es@.len() as int) =~= es@);
    out
}

fn groups_for(gs: &Vec<(String, String)>, cid: &str) -> (r: Vec<String>)
    ensures
        string_views(r@) == groups_of(gs@.map_values(|g: (String, String)| (g.0@, g.1@)), cid@),
{
    let ghost gv = gs@.map_values(|g: (String, String)| (g.0@, g.1@));
    let mut out: Vec<String> = Vec::new();
    let mut i: usize = 0;
    while i < gs.len()
        invariant
            i <= gs@.len(),
            gv == gs@.map_values(|g: (String, String)| (g.0@, g.1@)),
            string_views(out@) == groups_of(gv.take(i as int), cid@),
        decreases gs.len() - i,
    {
        assert(gv.take(i + 1).drop_last() =~= gv.take(i as int));
        assert(gv.take(i + 1).last() == gv[i as int]);
        if str_eq(gs[i].0.as_str(), cid) {
            let ghost prev = string_views(out@);
            out.push(gs[i].1.clone());
            assert(string_views(out@) =~= prev.push(gv[i as int].1));
        }
        i = i + 1;
    }
    assert(gv.take(gv.len() as int) =~= gv);
    out
}

/// Whether an assembled entry is the contact at `k` of the plan with its
/// addresses and groups.
pub open spec fn assembled_entry(
    r: ContactWithEmails,
    step: (int, Seq<char>),
    cs: Seq<Contact>,
    es: Seq<ContactEmail>,
    gs: Seq<(Seq<char>, Seq<char>)>,
) -> bool {
    &&& same_contact(r.contact, cs[step.0])
    &&& r.emails@.map_values(|e: ContactEmail| email_view(e)) == emails_of(es, step.1)
    &&& string_views(r.groups@) == groups_of(gs, step.1)
}

/// Puts the listed contacts together with their addresses and group names,
/// in the order of the ids; ids without a stored contact are skipped.
pub fn assemble_contacts(
    ids: &Vec<String>,
    contacts: &Vec<Contact>,
    emails: &Vec<ContactEmail>,
    groups: &Vec<(String, String)>,
) -> (r: Vec<ContactWithEmails>)
    ensures
        r@.len() == assembly(string_views(ids@), contacts@).len(),
        forall|k: int|
            0 <= k < r@.len() ==> assembled_entry(
                #[trigger] r@[k],
                assembly(string_views(ids@), contacts@)[k],
                contacts@,
                emails@,
                groups@.map_values(|g: (String, String)| (g.0@, g.1@)),
            ),
{
    let ghost iv = string_views(ids@);
    let ghost gv = groups@.map_values(|g: (String, String)| (g.0@, g.1@));
    let mut out: Vec<ContactWithEmails> = Vec::new();
    let mut i: usize = 0;
    while i < ids.len()
        invariant
            i <= ids@.len(),
            iv == string_views(ids@),
            gv == groups@.map_values(|g: (String, String)| (g.0@, g.1@)),
            out@.len() == assembly(iv.take(i as int), contacts@).len(),
            forall|k: int|
                0 <= k < out@.len() ==> assembled_entry(
                    #[trigger] out@[k],
                    assembly(iv.take(i as int), contacts@)[k],
                    contacts@,
                    emails@,
                    gv,
                ),
        decreases ids.len() - i,
    {
        assert(iv.take(i + 1).drop_last() =~= iv.take(i as int));
        assert(iv.take(i + 1).last() == ids@[i as int]@);
        let ghost before = assembly(iv.take(i as int), contacts@);
        match find_contact(contacts, ids[i].as_str()) {
            Some(ci) => {
                proof {
                    lemma_contact_index(contacts@, ids@[i as int]@);
                }
                let entry = ContactWithEmails {
                    contact: copy_contact(&contacts[ci]),
                    emails: emails_for(emails, ids[i].as_str()),
                    groups: groups_for(groups, ids[i].as_str()),
                };
                out.push(entry);
                assert(assembly(iv.take(i + 1), contacts@) == before.push((ci as int, ids@[i as int]@)));
            },
            None => {},
        }
        i = i + 1;
    }
    assert(iv.take(iv.len() as int) =~= iv);
    out
}

/// The stored records of a new contact's addresses, under the given fresh
/// ids.
pub fn email_records(contact_id: &str, inputs: &Vec<EmailInput>, ids: Vec<String>) -> (r: Vec<
    ContactEmail,
>)
    requires
        ids@.len() == inputs@.len(),
    ensures
        r@.len() == inputs@.len(),
        forall|k: int|
            0 <= k < r@.len() ==> email_view(#[trigger] r@[k]) == (
                ids@[k]@,
                contact_id@,
                inputs@[k].email@,
                inputs@[k].email_type@,
                inputs@[k].is_primary,
            ),
{
    let mut out: Vec<ContactEmail> = Vec::new();
    let mut i: usize = 0;
    while i < inputs.len()
        invariant
            i <= inputs@.len(),
            ids@.len() == inputs@.len(),
            out@.len() == i,
            forall|k: int|
                0 <= k < i ==> email_view(#[trigger] out@[k]) == (
                    ids@[k]@,
                    contact_id@,
                    inputs@[k].email@,
                    inputs@[k].email_type@,
                    inputs@[k].is_primary,
                ),
        decreases inputs.len() - i,
    {
        out.push(
            ContactEmail {
                id: ids[i].clone(),
                contact_id: contact_id.to_owned(),
                email: inputs[i].email.clone(),
                email_type: inputs[i].email_type.clone(),
                is_primary: inputs[i].is_primary,
            },
        );
        i = i + 1;
    }
    out
}

/// The error reported when an address is already stored for another
/// contact.
pub fn duplicate_email_error(email: &str) -> (r: String)
    ensures
        r@ == "Email '"@ + email@ + "' already exists for another contact"@,
{
    let mut out = chars_of("Email '");
    push_str(&mut out, email);
    push_str(&mut out, "' already exists for another contact");
    string_of(out.as_slice())
}

/// Whether the address book is synced again: never synced, or the last
/// sync was at least 15 minutes (900 seconds) before `now`.
pub fn contact_sync_due(last_sync: Option<i64>, now: i64) -> (r: bool)
    ensures
        r == match last_sync {
            Some(l) => now - l >= 900,
            None => true,
        },
{
    match last_sync {
        Some(l) => match now.checked_sub(l) {
            Some(d) => d >= 900,
            None => now > l,
        },
        None => true,
    }
}

/// Where an address book is synced from.
#[derive(Debug, PartialEq, Eq)]
pub enum ContactSource {
    Google,
    Outlook,
    /// Not synced (IMAP accounts).
    Unsupported,
}

/// The address book source of a provider.
pub fn contact_source(provider_type: &str) -> (r: ContactSource)
    ensures
        r == if provider_type@ == "gmail"@ {
            ContactSource::Google
        } else if provider_type@ == "outlook"@ {
            ContactSource::Outlook
        } else {
            ContactSource::Unsupported
        },
{
    if str_eq(provider_type, "gmail") {
        ContactSource::Google
    } else if str_eq(provider_type, "outlook") {
        ContactSource::Outlook
    } else {
        ContactSource::Unsupported
    }
}

fn copy_emails(v: &Vec<EmailInput>) -> (r: Vec<EmailInput>)
    ensures
        r@.len() == v@.len(),
        forall|k: int|
            0 <= k < v@.len() ==> (#[trigger] r@[k]).email@ == v@[k].email@ && r@[k].email_type@
                == v@[k].email_type@ && r@[k].is_primary == v@[k].is_primary,
{
    let mut out: Vec<EmailInput> = Vec::new();
    let mut i: usize = 0;
    while i < v.len()
        invariant
            i <= v@.len(),
            out@.len() == i,
            forall|k: int|
                0 <= k < i ==> (#[trigger] out@[k]).email@ == v@[k].email@ && out@[k].email_type@
                    == v@[k].email_type@ && out@[k].is_primary == v@[k].is_primary,
        decreases v.len() - i,
    {
        out.push(
            EmailInput {
                email: v[i].email.clone(),
                email_type: v[i].email_type.clone(),
                is_primary: v[i].is_primary,
            },
        );
        i = i + 1;
    }
    out
}

/// The form an imported contact is created from: its names, company,
/// title and addresses, each phone as a JSON object with its number and
/// type, everything else empty.
pub fn draft_input(d: &ContactDraft) -> (r: CreateContactInput)
    ensures
        r.display_name@ == d.display_name@,
        opt_view(r.given_name) == opt_view(d.given_name),
        opt_view(r.surname) == opt_view(d.surname),
        opt_view(r.company) == opt_view(d.company),
        opt_view(r.job_title) == opt_view(d.job_title),
        r.nickname is None && r.department is None && r.notes is None,
        r.birthday is None && r.photo_uri is None,
        r.phones@ == d.phones@.map_values(
            |p: PhoneInput| json_phone_object(p.number@, p.phone_type@),
        ),
        r.addresses@.len() == 0 && r.social_profiles@.len() == 0 && r.urls@.len() == 0,
        r.relations@.len() == 0 && r.groups@.len() == 0,
        r.emails@.len() == d.emails@.len(),
        forall|k: int|
            0 <= k < d.emails@.len() ==> (#[trigger] r.emails@[k]).email@ == d.emails@[k].email@
                && r.emails@[k].email_type@ == d.emails@[k].email_type@ && r.emails@[k].is_primary
                == d.emails@[k].is_primary,
{
    let mut phones: Vec<serde_json::Value> = Vec::new();
    let mut i: usize = 0;
    while i < d.phones.len()
        invariant
            i <= d.phones@.len(),
            phones@ == d.phones@.take(i as int).map_values(
                |p: PhoneInput| json_phone_object(p.number@, p.phone_type@),
            ),
        decreases d.phones.len() - i,
    {
        let v = phone_object(d.phones[i].number.as_str(), d.phones[i].phone_type.as_str());
        phones.push(v);
        assert(d.phones@.take(i + 1).map_values(
            |p: PhoneInput| json_phone_object(p.number@, p.phone_type@),
        ) =~= d.phones@.take(i as int).map_values(
            |p: PhoneInput| json_phone_object(p.number@, p.phone_type@),
        ).push(json_phone_object(d.phones@[i as int].number@, d.phones@[i as int].phone_type@)));
        i = i + 1;
    }
    assert(d.phones@.take(d.phones@.len() as int) =~= d.phones@);
    CreateContactInput {
        display_name: d.display_name.clone(),
        given_name: copy_text(&d.given_name),
        surname: copy_text(&d.surname),
        nickname: None,
        company: copy_text(&d.company),
        job_title: copy_text(&d.job_title),
        department: None,
        notes: None,
        birthday: None,
        photo_uri: None,
        phones,
        addresses: Vec::new(),
        social_profiles: Vec::new(),
        urls: Vec::new(),
        relations: Vec::new(),
        emails: copy_emails(&d.emails),
        groups: Vec::new(),
    }
}

} // verus!
