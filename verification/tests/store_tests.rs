use health_records::api;
use health_records::record::AddRecordRequest;
use health_records::record::StoreError;
use health_records::store::StoredEntry;
use health_records::Owner;
use health_records::RecordStore;

fn owner_of(bytes: &[u8]) -> Owner {
    Owner::from_bytes(bytes.to_vec()).expect("principal bytes fit")
}

fn request(title: &str, record_type: &str, url: &str, file_size: Option<u64>) -> AddRecordRequest {
    AddRecordRequest {
        title: title.to_string(),
        record_type: record_type.to_string(),
        encrypted_url: url.to_string(),
        file_size,
    }
}

#[test]
fn add_and_list_roundtrip() {
    let alice = owner_of(&[1, 2, 3]);
    let mut store = RecordStore::new();
    let response = api::add_record(
        &mut store,
        &alice,
        1000,
        request(" Blood Test ", "Lab Result", "ipfs://abc", Some(1024)),
    );
    assert!(response.success);
    assert_eq!(response.message, "Record added successfully");
    assert!(response.data.is_none());

    let listed = api::get_my_records(&store, &alice);
    assert!(listed.success);
    assert_eq!(listed.message, "Found 1 records");
    let records = listed.data.expect("data present");
    assert_eq!(records.len(), 1);
    let expected_id = format!(
        "{}_{}",
        candid::Principal::from_slice(&[1, 2, 3]).to_text(),
        1000
    );
    assert_eq!(records[0].id, expected_id);
    assert_eq!(records[0].title, "Blood Test");
    assert_eq!(records[0].record_type, "Lab Result");
    assert_eq!(records[0].date, 1000);
    assert_eq!(records[0].created_at, 1000);
    assert_eq!(records[0].encrypted_url, "ipfs://abc");
    assert_eq!(records[0].file_size, Some(1024));
}

#[test]
fn add_anonymous_fails_and_does_not_mutate() {
    let anon = Owner::anonymous();
    let mut store = RecordStore::new();
    let response = api::add_record(
        &mut store,
        &anon,
        5,
        request("Title", "Type", "url", None),
    );
    assert!(!response.success);
    assert_eq!(response.message, "Anonymous users cannot add records");
    assert_eq!(api::get_record_count(&store, &anon), 0);

    let listed = api::get_my_records(&store, &anon);
    assert!(!listed.success);
    assert_eq!(listed.message, "Authentication required");
}

#[test]
fn anonymous_check_precedes_validation() {
    let anon = Owner::anonymous();
    let mut store = RecordStore::new();
    let response = api::add_record(&mut store, &anon, 1, request("", "", "url", None));
    assert!(!response.success);
    assert_eq!(response.message, "Anonymous users cannot add records");
}

#[test]
fn empty_store_lists_zero_records() {
    let alice = owner_of(&[11]);
    let store = RecordStore::new();
    let listed = api::get_my_records(&store, &alice);
    assert!(listed.success);
    assert_eq!(listed.message, "Found 0 records");
    assert_eq!(listed.data.expect("data present").len(), 0);
}

#[test]
fn add_empty_title_fails() {
    let alice = owner_of(&[9]);
    let mut store = RecordStore::new();
    for title in ["", "   ", "\t\n "] {
        let response = api::add_record(
            &mut store,
            &alice,
            1,
            request(title, "Type", "url", None),
        );
        assert!(!response.success);
        assert_eq!(response.message, "Title cannot be empty");
    }
    assert_eq!(api::get_record_count(&store, &alice), 0);
}

#[test]
fn add_empty_record_type_fails() {
    let alice = owner_of(&[9]);
    let mut store = RecordStore::new();
    let response = api::add_record(
        &mut store,
        &alice,
        1,
        request("Title", "  ", "url", None),
    );
    assert!(!response.success);
    assert_eq!(response.message, "Record type cannot be empty");
    assert_eq!(api::get_record_count(&store, &alice), 0);
}

#[test]
fn delete_then_get_not_found() {
    let alice = owner_of(&[7, 7]);
    let mut store = RecordStore::new();
    let added = api::add_record(
        &mut store,
        &alice,
        1000,
        request("Blood Test", "Lab Result", "ipfs://abc", Some(1024)),
    );
    assert!(added.success);
    assert_eq!(api::get_record_count(&store, &alice), 1);

    let id = format!(
        "{}_{}",
        candid::Principal::from_slice(&[7, 7]).to_text(),
        1000
    );
    let deleted = api::delete_record(&mut store, &alice, &id);
    assert!(deleted.success);
    assert_eq!(deleted.message, "Record deleted successfully");

    let fetched = api::get_record_by_id(&store, &alice, &id);
    assert!(!fetched.success);
    assert_eq!(fetched.message, "Record not found or access denied");
    assert_eq!(api::get_record_count(&store, &alice), 0);
}

#[test]
fn delete_missing_id_leaves_store_unchanged() {
    let alice = owner_of(&[5]);
    let mut store = RecordStore::new();
    let added = api::add_record(
        &mut store,
        &alice,
        77,
        request("Kept", "Note", "url", None),
    );
    assert!(added.success);

    let missing = "no-such-id".to_string();
    let response = api::delete_record(&mut store, &alice, &missing);
    assert!(!response.success);
    assert_eq!(response.message, "Record not found or access denied");

    let listed = api::get_my_records(&store, &alice);
    let records = listed.data.expect("data present");
    assert_eq!(records.len(), 1);
    assert_eq!(records[0].title, "Kept");
}

#[test]
fn count_matches_list_length() {
    let alice = owner_of(&[3, 1]);
    let mut store = RecordStore::new();
    for t in [10u64, 20, 30] {
        let response = api::add_record(
            &mut store,
            &alice,
            t,
            request("Title", "Type", "url", None),
        );
        assert!(response.success);
    }
    let listed = api::get_my_records(&store, &alice);
    assert_eq!(listed.message, "Found 3 records");
    let records = listed.data.expect("data present");
    assert_eq!(records.len() as u64, api::get_record_count(&store, &alice));
    assert_eq!(api::get_record_count(&store, &alice), 3);
}

#[test]
fn cross_owner_isolation() {
    let alice = owner_of(&[1]);
    let bob = owner_of(&[2]);
    let mut store = RecordStore::new();
    let added = api::add_record(
        &mut store,
        &alice,
        1000,
        request("Private", "Note", "url", None),
    );
    assert!(added.success);

    assert_eq!(api::get_record_count(&store, &bob), 0);
    let listed = api::get_my_records(&store, &bob);
    assert!(listed.success);
    assert_eq!(listed.data.expect("data present").len(), 0);

    let alice_id = format!("{}_{}", candid::Principal::from_slice(&[1]).to_text(), 1000);
    let fetched = api::get_record_by_id(&store, &bob, &alice_id);
    assert!(!fetched.success);
    assert_eq!(fetched.message, "Record not found or access denied");
}

#[test]
fn restart_roundtrip_keeps_records() {
    let alice = owner_of(&[1]);
    let bob = owner_of(&[2]);
    let mut store = RecordStore::new();
    for t in [100u64, 200] {
        assert!(api::add_record(&mut store, &alice, t, request("A", "T", "u", None)).success);
    }
    assert!(api::add_record(&mut store, &bob, 300, request("B", "T", "u", Some(9))).success);

    let before_alice = api::get_my_records(&store, &alice).data.unwrap();
    let before_bob = api::get_my_records(&store, &bob).data.unwrap();

    let snapshot = store.snapshot();
    let reloaded = RecordStore::restore(snapshot).expect("snapshot is well formed");

    let after_alice = api::get_my_records(&reloaded, &alice).data.unwrap();
    let after_bob = api::get_my_records(&reloaded, &bob).data.unwrap();
    assert_eq!(before_alice.len(), after_alice.len());
    for (b, a) in before_alice.iter().zip(after_alice.iter()) {
        assert_eq!(b.id, a.id);
        assert_eq!(b.title, a.title);
        assert_eq!(b.record_type, a.record_type);
        assert_eq!(b.date, a.date);
        assert_eq!(b.encrypted_url, a.encrypted_url);
        assert_eq!(b.file_size, a.file_size);
        assert_eq!(b.created_at, a.created_at);
    }
    assert_eq!(before_bob.len(), after_bob.len());
    assert_eq!(before_bob[0].id, after_bob[0].id);
}

#[test]
fn restore_rejects_bad_snapshots() {
    assert!(RecordStore::restore(vec![StoredEntry {
        owner_bytes: vec![4],
        records: Vec::new(),
    }])
    .is_none());

    assert!(RecordStore::restore(vec![
        StoredEntry { owner_bytes: vec![1], records: Vec::new() },
        StoredEntry { owner_bytes: vec![1], records: Vec::new() },
    ])
    .is_none());

    assert!(RecordStore::restore(vec![StoredEntry {
        owner_bytes: vec![0; 30],
        records: Vec::new(),
    }])
    .is_none());

    assert!(RecordStore::restore(vec![StoredEntry {
        owner_bytes: vec![1],
        records: Vec::new(),
    }])
    .is_some());
}

#[test]
fn anonymous_sentinel_matches_candid() {
    assert_eq!(candid::Principal::anonymous().as_slice(), &[4]);
    let anon = Owner::from_bytes(vec![4]).expect("one byte fits");
    let mut store = RecordStore::new();
    let response = api::add_record(&mut store, &anon, 1, request("T", "T", "u", None));
    assert!(!response.success);
    assert_eq!(response.message, "Anonymous users cannot add records");
}

#[test]
fn record_id_uses_principal_text() {
    let owner = owner_of(&[1, 2, 3]);
    let id = api::generate_record_id(&owner, 42);
    let expected = format!("{}_42", candid::Principal::from_slice(&[1, 2, 3]).to_text());
    assert_eq!(id, expected);
    assert_ne!(id, "\u{1}\u{2}\u{3}_42");

    let long_id = api::generate_record_id(&owner, 1234567890);
    assert!(long_id.ends_with("_1234567890"));
}

#[test]
fn health_check_message() {
    assert_eq!(api::health_check(), "Health Records Backend is running");
}

#[test]
fn seconds_from_nanos_truncates() {
    assert_eq!(api::seconds_from_nanos(0), 0);
    assert_eq!(api::seconds_from_nanos(999_999_999), 0);
    assert_eq!(api::seconds_from_nanos(1_000_000_000), 1);
    assert_eq!(api::seconds_from_nanos(1_700_000_000_123_456_789), 1_700_000_000);
}

#[test]
fn core_store_error_variants() {
    let anon = Owner::anonymous();
    let alice = owner_of(&[8]);
    let mut store = RecordStore::new();

    let unauth = store.add(&anon, 1, request("T", "T", "u", None));
    assert_eq!(unauth.map(|r| r.id), Err(StoreError::Unauthenticated));

    let invalid = store.add(&alice, 1, request("  ", "T", "u", None));
    assert_eq!(invalid.map(|r| r.id), Err(StoreError::InvalidInput));

    let missing = store.get(&alice, &"nope".to_string());
    assert_eq!(missing.map(|r| r.id), Err(StoreError::NotFound));

    let not_deleted = store.delete(&alice, &"nope".to_string());
    assert_eq!(not_deleted, Err(StoreError::NotFound));

    assert!(store.list(&anon).is_err());
    assert_eq!(store.count(&anon), 0);
}

#[test]
fn delete_removes_first_of_duplicate_ids() {
    let alice = owner_of(&[6]);
    let mut store = RecordStore::new();
    assert!(api::add_record(&mut store, &alice, 1000, request("First", "T", "u", None)).success);
    assert!(api::add_record(&mut store, &alice, 1000, request("Second", "T", "u", None)).success);
    assert_eq!(api::get_record_count(&store, &alice), 2);

    let id = format!("{}_{}", candid::Principal::from_slice(&[6]).to_text(), 1000);
    let fetched = api::get_record_by_id(&store, &alice, &id);
    assert_eq!(fetched.data.expect("data present")[0].title, "First");

    let deleted = api::delete_record(&mut store, &alice, &id);
    assert!(deleted.success);
    assert_eq!(api::get_record_count(&store, &alice), 1);
    let remaining = api::get_my_records(&store, &alice).data.unwrap();
    assert_eq!(remaining[0].title, "Second");
}

#[test]
fn owner_from_bytes_rejects_long_input() {
    assert!(Owner::from_bytes(vec![0; 30]).is_none());
    assert!(Owner::from_bytes(vec![0; 29]).is_some());
    assert!(Owner::from_bytes(Vec::new()).is_some());
}
