use rustymail::contact_csv::parse_csv_contacts;
use rustymail::contact_export::{export_csv, export_vcard};
use rustymail::contacts::{
    apply_contact_update, check_merge_ids, contact_from_input, edited_group, emails_to_move,
    merge_contact_fields, Contact, ContactEmail, ContactGroup, ContactWithEmails,
    CreateContactInput, UpdateContactInput,
};
use rustymail::csv::{escape_csv_field, parse_csv_line, sanitize_fts_query};
use rustymail::json::merge_json_arrays;
use rustymail::vcard::parse_vcards;

fn contact(id: &str, name: &str) -> Contact {
    Contact {
        id: id.to_string(),
        account_id: "acc1".to_string(),
        display_name: name.to_string(),
        given_name: None,
        surname: None,
        nickname: None,
        company: None,
        job_title: None,
        department: None,
        notes: None,
        birthday: None,
        photo_uri: None,
        phones: "[]".to_string(),
        addresses: "[]".to_string(),
        social_profiles: "[]".to_string(),
        urls: "[]".to_string(),
        relations: "[]".to_string(),
        is_starred: false,
        source: "local".to_string(),
        created_at: 100,
        updated_at: 100,
    }
}

fn email(contact_id: &str, address: &str, kind: &str, primary: bool) -> ContactEmail {
    ContactEmail {
        id: format!("{}-{}", contact_id, address),
        contact_id: contact_id.to_string(),
        email: address.to_string(),
        email_type: kind.to_string(),
        is_primary: primary,
    }
}

#[test]
fn vcard_import_reads_fields() {
    let data = "BEGIN:VCARD\r\nVERSION:3.0\r\nFN:Jane Smith\r\nN:Smith;Jane;;;\r\nEMAIL;TYPE=WORK:jane@smith.com\r\nTEL;TYPE=CELL:+1234567890\r\nORG:SmithCo\r\nTITLE:CEO\r\nEND:VCARD\r\n";
    let drafts = parse_vcards(data);
    assert_eq!(drafts.len(), 1);
    let d = &drafts[0];
    assert_eq!(d.display_name, "Jane Smith");
    assert_eq!(d.company, Some("SmithCo".to_string()));
    assert_eq!(d.job_title, Some("CEO".to_string()));
    assert_eq!(d.surname, Some("Smith".to_string()));
    assert_eq!(d.given_name, Some("Jane".to_string()));
    assert_eq!(d.emails.len(), 1);
    assert_eq!(d.emails[0].email, "jane@smith.com");
    assert_eq!(d.emails[0].email_type, "work");
    assert!(d.emails[0].is_primary);
    assert_eq!(d.phones.len(), 1);
    assert_eq!(d.phones[0].number, "+1234567890");
    assert_eq!(d.phones[0].phone_type, "mobile");
}

#[test]
fn vcard_import_names_card_after_first_email() {
    let data = "BEGIN:VCARD\nEMAIL;TYPE=HOME:a@x.org\nEMAIL:b@x.org\nEND:VCARD\nBEGIN:VCARD\nVERSION:3.0\nEND:VCARD\n";
    let drafts = parse_vcards(data);
    assert_eq!(drafts.len(), 1);
    assert_eq!(drafts[0].display_name, "a@x.org");
    assert_eq!(drafts[0].emails.len(), 2);
    assert_eq!(drafts[0].emails[0].email_type, "home");
    assert!(drafts[0].emails[0].is_primary);
    assert_eq!(drafts[0].emails[1].email_type, "other");
    assert!(!drafts[0].emails[1].is_primary);
}

#[test]
fn vcard_import_of_text_without_cards_is_empty() {
    assert!(parse_vcards("").is_empty());
    assert!(parse_vcards("hello\nworld").is_empty());
}

#[test]
fn csv_import_reads_rows() {
    let data = "Name,Email,Phone,Company,Title\nJohn Doe,john@doe.com,+1111111111,DoeCo,Manager\nJane Roe,jane@roe.com,,RoeCo,";
    let drafts = parse_csv_contacts(data);
    assert_eq!(drafts.len(), 2);
    assert_eq!(drafts[0].display_name, "John Doe");
    assert_eq!(drafts[0].emails[0].email, "john@doe.com");
    assert_eq!(drafts[0].phones[0].number, "+1111111111");
    assert_eq!(drafts[0].company, Some("DoeCo".to_string()));
    assert_eq!(drafts[0].job_title, Some("Manager".to_string()));
    assert_eq!(drafts[1].display_name, "Jane Roe");
    assert!(drafts[1].phones.is_empty());
    assert_eq!(drafts[1].company, Some("RoeCo".to_string()));
    assert_eq!(drafts[1].job_title, None);
}

#[test]
fn csv_import_without_rows_is_empty() {
    assert!(parse_csv_contacts("").is_empty());
    assert!(parse_csv_contacts("Name,Email").is_empty());
}

#[test]
fn csv_field_escaping_doubles_quotes() {
    assert_eq!(escape_csv_field("plain"), "\"plain\"");
    assert_eq!(escape_csv_field("say \"hi\""), "\"say \"\"hi\"\"\"");
    assert_eq!(escape_csv_field(""), "\"\"");
}

#[test]
fn csv_line_splitting_honours_quotes() {
    assert_eq!(parse_csv_line("a, \"b,c\" ,\"d\"\"e\""), vec!["a", "b,c", "d\"e"]);
    assert_eq!(parse_csv_line(""), vec![""]);
    assert_eq!(parse_csv_line("x,,y"), vec!["x", "", "y"]);
}

#[test]
fn fts_query_keeps_only_safe_characters() {
    assert_eq!(sanitize_fts_query("john@doe.com; DROP*"), "john@doe.com DROP");
    assert_eq!(sanitize_fts_query("a_b-c \"q\""), "a_b-c q");
}

#[test]
fn json_arrays_merge_in_order() {
    assert_eq!(merge_json_arrays("[1,2]", "[3]"), "[1,2,3]");
    assert_eq!(merge_json_arrays("not json", "[\"x\"]"), "[\"x\"]");
    assert_eq!(merge_json_arrays("", ""), "[]");
}

#[test]
fn merge_of_a_contact_with_itself_is_refused() {
    assert_eq!(check_merge_ids("a", "a"), Err("Cannot merge a contact with itself".to_string()));
    assert_eq!(check_merge_ids("a", "b"), Ok(()));
}

#[test]
fn merge_keeps_primary_and_fills_gaps() {
    let mut c1 = contact("c1", "John Doe");
    c1.company = Some("Acme".to_string());
    c1.notes = Some("first".to_string());
    c1.phones = "[{\"number\":\"1\"}]".to_string();
    let mut c2 = contact("c2", "J. Doe");
    c2.job_title = Some("Engineer".to_string());
    c2.company = Some("Other".to_string());
    c2.notes = Some("second".to_string());
    c2.phones = "[{\"number\":\"2\"}]".to_string();
    let m = merge_contact_fields(&c1, &c2, 500);
    assert_eq!(m.id, "c1");
    assert_eq!(m.display_name, "John Doe");
    assert_eq!(m.company, Some("Acme".to_string()));
    assert_eq!(m.job_title, Some("Engineer".to_string()));
    assert_eq!(m.notes, Some("first\nsecond".to_string()));
    assert_eq!(m.phones, "[{\"number\":\"1\"},{\"number\":\"2\"}]");
    assert_eq!(m.created_at, 100);
    assert_eq!(m.updated_at, 500);
}

#[test]
fn merge_moves_only_new_addresses() {
    let primary = vec![email("c1", "john@acme.com", "work", true)];
    let secondary = vec![
        email("c2", "JOHN@ACME.COM", "work", true),
        email("c2", "jdoe@personal.com", "personal", false),
    ];
    assert_eq!(emails_to_move(&primary, &secondary), vec![1]);
    assert_eq!(emails_to_move(&Vec::new(), &secondary), vec![0, 1]);
}

#[test]
fn new_contact_record_from_input() {
    let input = CreateContactInput {
        display_name: "New Person".to_string(),
        given_name: Some("New".to_string()),
        surname: None,
        nickname: None,
        company: Some("Co".to_string()),
        job_title: None,
        department: None,
        notes: None,
        birthday: None,
        photo_uri: None,
        phones: vec![serde_json::Value::String("555".to_string())],
        addresses: Vec::new(),
        social_profiles: Vec::new(),
        urls: Vec::new(),
        relations: Vec::new(),
        emails: Vec::new(),
        groups: Vec::new(),
    };
    let c = contact_from_input("id1", "acc1", &input, 42);
    assert_eq!(c.id, "id1");
    assert_eq!(c.account_id, "acc1");
    assert_eq!(c.display_name, "New Person");
    assert_eq!(c.company, Some("Co".to_string()));
    assert_eq!(c.phones, "[\"555\"]");
    assert_eq!(c.addresses, "[]");
    assert_eq!(c.source, "local");
    assert!(!c.is_starred);
    assert_eq!(c.created_at, 42);
    assert_eq!(c.updated_at, 42);
}

#[test]
fn vcard_export_writes_cards() {
    let mut c = contact("c1", "Export Test");
    c.given_name = Some("Export".to_string());
    c.surname = Some("Test".to_string());
    c.company = Some("TestCo".to_string());
    c.phones = "[{\"number\":\"+1\",\"type\":\"mobile\"},{\"number\":\"\"}]".to_string();
    let cs = vec![ContactWithEmails {
        contact: c,
        emails: vec![email("c1", "export@test.com", "work", true)],
        groups: Vec::new(),
    }];
    let out = export_vcard(&cs);
    assert_eq!(
        out,
        "BEGIN:VCARD\r\nVERSION:3.0\r\nFN:Export Test\r\nN:Test;Export;;;\r\nEMAIL;TYPE=WORK:export@test.com\r\nTEL;TYPE=MOBILE:+1\r\nORG:TestCo\r\nEND:VCARD\r\n"
    );
    assert!(out.contains("BEGIN:VCARD"));
    assert!(out.contains("FN:Export Test"));
    assert!(out.contains("EMAIL;TYPE=WORK:export@test.com"));
    assert!(out.contains("ORG:TestCo"));
    assert!(out.contains("END:VCARD"));
    assert_eq!(export_vcard(&Vec::new()), "");
}

#[test]
fn csv_export_writes_rows() {
    let mut c = contact("c1", "CSV User");
    c.company = Some("CSVCo".to_string());
    c.job_title = Some("Dev".to_string());
    let cs = vec![ContactWithEmails {
        contact: c,
        emails: vec![
            email("c1", "other@test.com", "home", false),
            email("c1", "csv@test.com", "work", true),
        ],
        groups: Vec::new(),
    }];
    let out = export_csv(&cs);
    assert!(out.contains("Name,Email,Phone,Company,Title"));
    assert!(out.contains("\"CSV User\",\"csv@test.com\","));
    assert_eq!(
        out,
        "Name,Email,Phone,Company,Title\n\"CSV User\",\"csv@test.com\",\"\",\"CSVCo\",\"Dev\"\n"
    );
    assert_eq!(export_csv(&Vec::new()), "Name,Email,Phone,Company,Title\n");
}

#[test]
fn csv_export_reads_back() {
    let mut c = contact("c1", " Ada, \"The\" Countess ");
    c.company = Some("Analytical".to_string());
    c.phones = "[{\"number\":\"+44 1\"}]".to_string();
    let mut blank = contact("c2", "   ");
    blank.job_title = Some("Ghost".to_string());
    let cs = vec![
        ContactWithEmails {
            contact: c,
            emails: vec![email("c1", "ada@x.org", "work", true)],
            groups: Vec::new(),
        },
        ContactWithEmails { contact: blank, emails: Vec::new(), groups: Vec::new() },
    ];
    let drafts = parse_csv_contacts(&export_csv(&cs));
    assert_eq!(drafts.len(), 1);
    assert_eq!(drafts[0].display_name, "Ada, \"The\" Countess");
    assert_eq!(drafts[0].emails[0].email, "ada@x.org");
    assert_eq!(drafts[0].emails[0].email_type, "other");
    assert_eq!(drafts[0].phones[0].number, "+44 1");
    assert_eq!(drafts[0].company, Some("Analytical".to_string()));
    assert_eq!(drafts[0].job_title, None);
}

#[test]
fn csv_fields_read_back_trimmed() {
    let fields = [" a ", "b,\"c\"", ""];
    let line: Vec<String> = fields.iter().map(|f| escape_csv_field(f)).collect();
    assert_eq!(parse_csv_line(&line.join(",")), vec!["a", "b,\"c\"", ""]);
}

#[test]
fn contact_update_replaces_given_fields() {
    let mut old = contact("c1", "Old Name");
    old.company = Some("OldCo".to_string());
    old.nickname = Some("Nick".to_string());
    let input = UpdateContactInput {
        display_name: Some("New Name".to_string()),
        given_name: None,
        surname: None,
        nickname: None,
        company: Some("NewCo".to_string()),
        job_title: None,
        department: None,
        notes: None,
        birthday: None,
        photo_uri: None,
        phones: Some(vec![serde_json::Value::String("9".to_string())]),
        addresses: None,
        social_profiles: None,
        urls: None,
        relations: None,
        is_starred: Some(true),
        emails: None,
        groups: None,
    };
    let c = apply_contact_update(&old, &input, 777);
    assert_eq!(c.id, "c1");
    assert_eq!(c.display_name, "New Name");
    assert_eq!(c.company, Some("NewCo".to_string()));
    assert_eq!(c.nickname, Some("Nick".to_string()));
    assert_eq!(c.phones, "[\"9\"]");
    assert_eq!(c.addresses, "[]");
    assert!(c.is_starred);
    assert_eq!(c.created_at, 100);
    assert_eq!(c.updated_at, 777);
}

#[test]
fn group_edit_keeps_what_is_not_given() {
    let g = ContactGroup {
        id: "g1".to_string(),
        account_id: "acc1".to_string(),
        name: "Friends".to_string(),
        color: Some("#f00".to_string()),
        remote_id: None,
        created_at: 5,
    };
    let e = edited_group(&g, Some("Pals"), None);
    assert_eq!(e.name, "Pals");
    assert_eq!(e.color, Some("#f00".to_string()));
    let e = edited_group(&g, None, Some("#0f0"));
    assert_eq!(e.name, "Friends");
    assert_eq!(e.color, Some("#0f0".to_string()));
    assert_eq!(e.created_at, 5);
}

#[test]
fn vcard_export_reads_back() {
    let mut c = contact("c1", "Grace Hopper");
    c.given_name = Some("Grace".to_string());
    c.surname = Some("Hopper".to_string());
    c.company = Some("Navy".to_string());
    c.job_title = Some("Rear Admiral".to_string());
    c.phones = "[{\"number\":\"555-1\",\"type\":\"mobile\"},{\"number\":\"555-2\",\"type\":\"work\"}]".to_string();
    let cs = vec![ContactWithEmails {
        contact: c,
        emails: vec![
            email("c1", "grace@navy.mil", "work", true),
            email("c1", "grace@home.org", "home", false),
        ],
        groups: Vec::new(),
    }];
    let drafts = parse_vcards(&export_vcard(&cs));
    assert_eq!(drafts.len(), 1);
    let d = &drafts[0];
    assert_eq!(d.display_name, "Grace Hopper");
    assert_eq!(d.given_name, Some("Grace".to_string()));
    assert_eq!(d.surname, Some("Hopper".to_string()));
    assert_eq!(d.company, Some("Navy".to_string()));
    assert_eq!(d.job_title, Some("Rear Admiral".to_string()));
    assert_eq!(d.emails.len(), 2);
    assert_eq!((d.emails[0].email.as_str(), d.emails[0].email_type.as_str(), d.emails[0].is_primary), ("grace@navy.mil", "work", true));
    assert_eq!((d.emails[1].email.as_str(), d.emails[1].email_type.as_str(), d.emails[1].is_primary), ("grace@home.org", "home", false));
    assert_eq!(d.phones.len(), 2);
    assert_eq!((d.phones[0].number.as_str(), d.phones[0].phone_type.as_str()), ("555-1", "mobile"));
    assert_eq!((d.phones[1].number.as_str(), d.phones[1].phone_type.as_str()), ("555-2", "work"));
}
