use entry_tracker::entry_api::{
    add_entry, add_entry_with, get_entries, message_body, reply_created, reply_listed,
};
use entry_tracker::entry_model::Entry;
use entry_tracker::entry_repo::{EntryRepo, StoreError};
use entry_tracker::json::{entries_json, entry_json};

fn fresh_repo() -> EntryRepo {
    EntryRepo::init("mongodb://localhost:27017".to_string()).unwrap()
}

#[test]
fn entry_json_has_the_exact_expected_value() {
    let e = Entry { id: Some(0), timestamp: "Thu, 01 Jan 2026 00:00:00 +0000".to_string() };
    assert_eq!(
        entry_json(&e),
        b"{\"_id\":0,\"timestamp\":\"Thu, 01 Jan 2026 00:00:00 +0000\"}".to_vec()
    );

    let unsaved = Entry { id: None, timestamp: "now".to_string() };
    assert_eq!(entry_json(&unsaved), b"{\"timestamp\":\"now\"}".to_vec());
}

#[test]
fn entry_json_renders_a_large_identifier() {
    let e = Entry { id: Some(340282366920938463463374607431768211455), timestamp: "t".to_string() };
    assert_eq!(
        entry_json(&e),
        b"{\"_id\":340282366920938463463374607431768211455,\"timestamp\":\"t\"}".to_vec()
    );
}

#[test]
fn entry_json_escapes_quotes_backslashes_and_control_bytes() {
    let e = Entry { id: Some(1), timestamp: "a\"b\\c\nd\u{1f}e".to_string() };
    assert_eq!(
        entry_json(&e),
        b"{\"_id\":1,\"timestamp\":\"a\\\"b\\\\c\\u000ad\\u001fe\"}".to_vec()
    );
}

#[test]
fn entries_json_joins_with_commas() {
    let v = vec![
        Entry { id: Some(1), timestamp: "b".to_string() },
        Entry { id: Some(0), timestamp: "a".to_string() },
    ];
    assert_eq!(
        entries_json(&v),
        b"[{\"_id\":1,\"timestamp\":\"b\"},{\"_id\":0,\"timestamp\":\"a\"}]".to_vec()
    );
}

#[test]
fn reply_created_decides_200_or_500() {
    let ok = reply_created(Ok(Entry { id: Some(0), timestamp: "t".to_string() }));
    assert_eq!(ok.status, 200);
    assert_eq!(ok.body, b"{\"_id\":0,\"timestamp\":\"t\"}".to_vec());

    let err = reply_created(Err(StoreError::WriteError));
    assert_eq!(err.status, 500);
    assert_eq!(err.body, b"error adding new entry".to_vec());
}

#[test]
fn reply_listed_decides_200_or_500() {
    let ok = reply_listed(Ok(Vec::new()));
    assert_eq!(ok.status, 200);
    assert_eq!(ok.body, b"[]".to_vec());

    let err = reply_listed(Err(StoreError::ReadError));
    assert_eq!(err.status, 500);
    assert_eq!(err.body, b"error getting list of entries".to_vec());
}

#[test]
fn message_body_spells_each_error() {
    assert_eq!(
        message_body(StoreError::ConnectionError),
        b"failed to connect to database".to_vec()
    );
    assert_eq!(message_body(StoreError::WriteError), b"error adding new entry".to_vec());
    assert_eq!(message_body(StoreError::ReadError), b"error getting list of entries".to_vec());
}

#[test]
fn end_to_end_empty_then_add_then_one_entry() {
    let mut repo = fresh_repo();

    let first = get_entries(&repo);
    assert_eq!(first.status, 200);
    assert_eq!(first.body, b"[]".to_vec());

    let added = add_entry(&mut repo);
    assert_eq!(added.status, 200);
    let body = String::from_utf8(added.body.clone()).unwrap();
    assert!(body.starts_with("{\"_id\":0,\"timestamp\":\""));
    assert!(body.ends_with("\"}"));
    let stamp = &body["{\"_id\":0,\"timestamp\":\"".len()..body.len() - 2];
    assert!(!stamp.is_empty());
    let parsed = chrono::DateTime::parse_from_rfc2822(stamp).unwrap();
    let skew = chrono::Utc::now().signed_duration_since(parsed.with_timezone(&chrono::Utc));
    assert!(skew.num_seconds().abs() < 10);

    let listed = get_entries(&repo);
    assert_eq!(listed.status, 200);
    let mut expected = Vec::new();
    expected.push(b'[');
    expected.extend_from_slice(&added.body);
    expected.push(b']');
    assert_eq!(listed.body, expected);
}

#[test]
fn three_adds_list_in_descending_timestamp_order() {
    let mut repo = fresh_repo();

    let a = add_entry_with(&mut repo, "Thu, 01 Jan 2026 00:00:00 +0000".to_string());
    let b = add_entry_with(&mut repo, "Thu, 01 Jan 2026 00:00:01 +0000".to_string());
    let c = add_entry_with(&mut repo, "Thu, 01 Jan 2026 00:00:02 +0000".to_string());
    assert_eq!(a.status, 200);
    assert_eq!(b.status, 200);
    assert_eq!(c.status, 200);

    let entries = repo.get_entries().unwrap();
    assert_eq!(entries.len(), 3);
    assert!(entries[0].timestamp > entries[1].timestamp);
    assert!(entries[1].timestamp > entries[2].timestamp);

    let listed = get_entries(&repo);
    assert_eq!(listed.status, 200);
    let mut expected = Vec::new();
    expected.push(b'[');
    expected.extend_from_slice(&c.body);
    expected.push(b',');
    expected.extend_from_slice(&b.body);
    expected.push(b',');
    expected.extend_from_slice(&a.body);
    expected.push(b']');
    assert_eq!(listed.body, expected);
}

#[test]
fn handlers_report_500_on_an_unreachable_store() {
    let mut repo = fresh_repo();
    repo.disconnect();

    let added = add_entry(&mut repo);
    assert_eq!(added.status, 500);
    assert_eq!(added.body, b"error adding new entry".to_vec());

    let listed = get_entries(&repo);
    assert_eq!(listed.status, 500);
    assert_eq!(listed.body, b"error getting list of entries".to_vec());
}
