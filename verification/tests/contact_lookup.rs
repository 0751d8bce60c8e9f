use rustymail::contact_search::{
    contact_fts_query, contact_suggestion, history_contact_suggestions, Autocomplete,
    ContactSuggestion,
};
use rustymail::contact_store::{
    assemble_contacts, contact_source, contact_sync_due, draft_input, duplicate_email_error,
    email_records, id_placeholders, merge_contact_ids, ContactSource,
};
use rustymail::contacts::{Contact, ContactEmail};
use rustymail::vcard::{parse_vcards, EmailInput};

fn strings(v: &[&str]) -> Vec<String> {
    v.iter().map(|s| s.to_string()).collect()
}

fn contact(id: &str, name: &str) -> Contact {
    Contact {
        id: id.to_string(),
        account_id: "acc1".to_string(),
        display_name: name.to_string(),
        given_name: None,
        surname: None,
        nickname: None,
        company: None,
        job_title: None,
        department: None,
        notes: None,
        birthday: None,
        photo_uri: None,
        phones: "[]".to_string(),
        addresses: "[]".to_string(),
        social_profiles: "[]".to_string(),
        urls: "[]".to_string(),
        relations: "[]".to_string(),
        is_starred: false,
        source: "local".to_string(),
        created_at: 1,
        updated_at: 1,
    }
}

fn sugg(name: &str, email: &str) -> ContactSuggestion {
    contact_suggestion(name.to_string(), email.to_string())
}

#[test]
fn suggestion_text() {
    let s = sugg("Ann", "ann@x.org");
    assert_eq!(s.raw, "Ann <ann@x.org>");
    let s = sugg("", "ann@x.org");
    assert_eq!(s.raw, "ann@x.org");
    assert_eq!(contact_fts_query("ann*; x"), "\"ann x\"*");
}

#[test]
fn autocomplete_suggests_each_address_once() {
    let mut a = Autocomplete::new();
    a.add_contacts(vec![
        ("Ann".to_string(), "ann@x.org".to_string()),
        ("Ann Again".to_string(), "ANN@x.org".to_string()),
        ("Bob".to_string(), "bob@x.org".to_string()),
    ]);
    assert!(a.wants_more());
    assert_eq!(a.remaining(), 8);
    a.add_history(vec![sugg("", "bob@X.org"), sugg("Cat", "cat@x.org")]);
    let r = a.finish();
    let raws: Vec<&str> = r.iter().map(|s| s.raw.as_str()).collect();
    assert_eq!(raws, vec!["Ann <ann@x.org>", "Bob <bob@x.org>", "Cat <cat@x.org>"]);
}

#[test]
fn autocomplete_stops_at_ten() {
    let mut a = Autocomplete::new();
    let rows: Vec<(String, String)> = (0..7).map(|i| (String::new(), format!("c{}@x.org", i))).collect();
    a.add_contacts(rows);
    let found: Vec<ContactSuggestion> = (0..6).map(|i| sugg("", &format!("h{}@x.org", i))).collect();
    a.add_history(found);
    assert!(!a.wants_more());
    let r = a.finish();
    assert_eq!(r.len(), 10);
    assert_eq!(r[9].email, "h2@x.org");
}

#[test]
fn history_suggestions_sorted_by_address_length() {
    let rows = strings(&[
        "Long Name <longer.address@x.org>, ann@x.org",
        "\"Quoted\" <q@x.org>,ann@x.org",
        "bob@y.org",
    ]);
    let r = history_contact_suggestions(&rows, "X.ORG");
    let emails: Vec<&str> = r.iter().map(|s| s.email.as_str()).collect();
    assert_eq!(emails, vec!["q@x.org", "ann@x.org", "longer.address@x.org"]);
    assert_eq!(r[0].name, "Quoted");
    assert_eq!(r[0].raw, "\"Quoted\" <q@x.org>");
    assert_eq!(r[1].name, "");
    let many: Vec<String> = (0..15).map(|i| format!("u{}@x.org", i)).collect();
    assert_eq!(history_contact_suggestions(&many, "u").len(), 10);
}

#[test]
fn contact_ids_merge_and_limit() {
    assert_eq!(
        merge_contact_ids(strings(&["a", "b"]), strings(&["b", "c", "d"]), 3),
        strings(&["a", "b", "c"])
    );
    assert_eq!(
        merge_contact_ids(strings(&["a"]), strings(&["c", "c"]), -1),
        strings(&["a", "c"])
    );
    assert_eq!(id_placeholders(0), "");
    assert_eq!(id_placeholders(3), "?,?,?");
}

#[test]
fn contacts_are_assembled_in_id_order() {
    let contacts = vec![contact("c1", "One"), contact("c2", "Two")];
    let emails = vec![
        ContactEmail { id: "e1".to_string(), contact_id: "c2".to_string(), email: "two@x.org".to_string(), email_type: "work".to_string(), is_primary: true },
        ContactEmail { id: "e2".to_string(), contact_id: "c1".to_string(), email: "one@x.org".to_string(), email_type: "home".to_string(), is_primary: true },
    ];
    let groups = vec![("c1".to_string(), "Friends".to_string()), ("c1".to_string(), "Work".to_string())];
    let r = assemble_contacts(&strings(&["c2", "missing", "c1"]), &contacts, &emails, &groups);
    assert_eq!(r.len(), 2);
    assert_eq!(r[0].contact.display_name, "Two");
    assert_eq!(r[0].emails.len(), 1);
    assert_eq!(r[0].emails[0].email, "two@x.org");
    assert!(r[0].groups.is_empty());
    assert_eq!(r[1].contact.id, "c1");
    assert_eq!(r[1].groups, strings(&["Friends", "Work"]));
}

#[test]
fn email_records_take_given_ids() {
    let inputs = vec![
        EmailInput { email: "a@x.org".to_string(), email_type: "work".to_string(), is_primary: true },
        EmailInput { email: "b@x.org".to_string(), email_type: "home".to_string(), is_primary: false },
    ];
    let r = email_records("c9", &inputs, strings(&["i1", "i2"]));
    assert_eq!(r.len(), 2);
    assert_eq!(r[1].id, "i2");
    assert_eq!(r[1].contact_id, "c9");
    assert_eq!(r[1].email, "b@x.org");
    assert!(!r[1].is_primary);
    assert_eq!(
        duplicate_email_error("a@x.org"),
        "Email 'a@x.org' already exists for another contact"
    );
}

#[test]
fn contact_sync_schedule_and_source() {
    assert!(contact_sync_due(None, 0));
    assert!(contact_sync_due(Some(100), 1000));
    assert!(!contact_sync_due(Some(200), 1000));
    assert_eq!(contact_source("gmail"), ContactSource::Google);
    assert_eq!(contact_source("outlook"), ContactSource::Outlook);
    assert_eq!(contact_source("imap"), ContactSource::Unsupported);
}

#[test]
fn imported_draft_becomes_input() {
    let drafts = parse_vcards("BEGIN:VCARD\nFN:Jo\nEMAIL:jo@x.org\nTEL;TYPE=WORK:123\nEND:VCARD");
    let input = draft_input(&drafts[0]);
    assert_eq!(input.display_name, "Jo");
    assert_eq!(input.emails.len(), 1);
    assert_eq!(input.emails[0].email, "jo@x.org");
    assert_eq!(input.phones.len(), 1);
    assert_eq!(input.phones[0]["number"], "123");
    assert_eq!(input.phones[0]["type"], "work");
    assert!(input.addresses.is_empty());
}

#[test]
fn id_placeholders_count() {
    for n in 0..6 {
        assert_eq!(id_placeholders(n).matches('?').count(), n);
    }
}
