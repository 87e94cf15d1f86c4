use mail_capture::mail::Mail;
use mail_capture::response::{empty_response, handle_request, Reply, Status};
use mail_capture::store::{page_from, record_from, MailStore, StoreError};

fn temp_store() -> MailStore {
    MailStore::new(sled::Config::new().temporary(true).open().unwrap())
}

fn mail(id: &str) -> Mail {
    Mail {
        id: id.to_string(),
        from: "a@x".to_string(),
        to: vec!["b@y".to_string(), "c@z".to_string()],
        subject: format!("subject {}", id),
        body: format!("body of {}\nline two", id),
        received_at: 1_700_000_000,
    }
}

fn ids(v: &[Mail]) -> Vec<String> {
    v.iter().map(|m| m.id.clone()).collect()
}

#[test]
fn put_then_get_round_trips() {
    let mut s = temp_store();
    let m = mail("m1");
    s.put(&m).unwrap();
    assert_eq!(s.get("m1"), Ok(Some(mail("m1"))));
    assert_eq!(s.get("m2"), Ok(None));
}

#[test]
fn put_overwrites() {
    let mut s = temp_store();
    s.put(&mail("m1")).unwrap();
    let mut other = mail("m1");
    other.subject = "second".to_string();
    s.put(&other).unwrap();
    assert_eq!(s.get("m1").unwrap().unwrap().subject, "second");
}

#[test]
fn delete_then_get_is_absent() {
    let mut s = temp_store();
    s.put(&mail("m1")).unwrap();
    assert_eq!(s.delete("m1"), Ok(()));
    assert_eq!(s.get("m1"), Ok(None));
}

#[test]
fn delete_of_missing_id_succeeds() {
    let mut s = temp_store();
    assert_eq!(s.delete("nothing"), Ok(()));
    let r = handle_request(&mut s, "DELETE /mails/nothing?k=k HTTP/1.1", "k");
    assert_eq!(r, Reply::Empty(Status::Success));
}

#[test]
fn pagination_window() {
    let mut s = temp_store();
    // Ten keys whose byte order is their numbering.
    let keys: Vec<String> = (1..=10).map(|i| format!("m{:02}", i)).collect();
    for k in keys.iter().rev() {
        s.put(&mail(k)).unwrap();
    }
    let page = s.list(5, 3).unwrap();
    assert_eq!(ids(&page), vec!["m06", "m07", "m08"]);
    assert_eq!(ids(&s.list(8, 3).unwrap()), vec!["m09", "m10"]);
}

#[test]
fn pagination_through_requests() {
    let mut s = temp_store();
    for i in 1..=9 {
        s.put(&mail(&format!("m{}", i))).unwrap();
    }
    match handle_request(&mut s, "GET /mails?limit=3&offset=5&k=k HTTP/1.1", "k") {
        Reply::Many(v) => assert_eq!(ids(&v), vec!["m6", "m7", "m8"]),
        other => panic!("unexpected reply {:?}", other),
    }
}

#[test]
fn small_listing_returns_all_in_key_order() {
    let mut s = temp_store();
    for id in ["d", "b", "a", "c"] {
        s.put(&mail(id)).unwrap();
    }
    let page = s.list(0, 10).unwrap();
    assert_eq!(ids(&page), vec!["a", "b", "c", "d"]);
    assert_eq!(page[0], mail("a"));
}

#[test]
fn listing_past_the_end_is_empty() {
    let mut s = temp_store();
    s.put(&mail("a")).unwrap();
    assert_eq!(s.list(5, 3).unwrap(), vec![]);
    assert_eq!(s.list(0, 0).unwrap(), vec![]);
    assert_eq!(temp_store().list(0, 10).unwrap(), vec![]);
}

#[test]
fn corrupt_record_fails_get_and_listing() {
    let db = sled::Config::new().temporary(true).open().unwrap();
    let mut s = MailStore::new(db.clone());
    s.put(&mail("a")).unwrap();
    s.put(&mail("c")).unwrap();
    db.insert(b"b", vec![1u8, 2, 3]).unwrap();
    assert_eq!(s.get("b"), Err(StoreError::Corrupt));
    assert_eq!(s.list(0, 10), Err(StoreError::Corrupt));
    // A window that leaves the bad value out still lists.
    assert_eq!(ids(&s.list(0, 1).unwrap()), vec!["a"]);
    assert_eq!(ids(&s.list(2, 1).unwrap()), vec!["c"]);
    let r = handle_request(&mut s, "GET /mails/b?k=k HTTP/1.1", "k");
    assert_eq!(r, Reply::Empty(Status::ServerError));
}

#[test]
fn get_through_requests() {
    let mut s = temp_store();
    s.put(&mail("42")).unwrap();
    assert_eq!(handle_request(&mut s, "GET /mails/42?k=k HTTP/1.1", "k"), Reply::One(mail("42")));
    assert_eq!(
        handle_request(&mut s, "GET /mails/43?k=k HTTP/1.1", "k"),
        Reply::Empty(Status::NotFound)
    );
}

#[test]
fn gate_leaves_store_alone() {
    let mut s = temp_store();
    s.put(&mail("42")).unwrap();
    assert_eq!(handle_request(&mut s, "DELETE /mails/42?k=bad HTTP/1.1", "k"), Reply::Silent);
    assert_eq!(handle_request(&mut s, "DELETE /mails/42 HTTP/1.1", "k"), Reply::Silent);
    assert_eq!(s.get("42"), Ok(Some(mail("42"))));
}

#[test]
fn unknown_method_writes_nothing() {
    let mut s = temp_store();
    assert_eq!(handle_request(&mut s, "PATCH /mails HTTP/1.1", "k"), Reply::Silent);
}

#[test]
fn empty_request_line_answers_bad_request() {
    let mut s = temp_store();
    let r = handle_request(&mut s, "", "k");
    assert_eq!(r, Reply::Empty(Status::BadRequest));
    assert_eq!(empty_response(Status::BadRequest), b"HTTP/1.1 400 Bad Request\r\n\r\n".to_vec());
}

#[test]
fn unknown_path_answers_not_found() {
    let mut s = temp_store();
    let r = handle_request(&mut s, "GET /unknown?k=k HTTP/1.1", "k");
    assert_eq!(r, Reply::Empty(Status::NotFound));
    assert_eq!(empty_response(Status::NotFound), b"HTTP/1.1 404 Not Found\r\n\r\n".to_vec());
}

fn encoded(id: &str) -> Vec<u8> {
    let db = sled::Config::new().temporary(true).open().unwrap();
    let mut s = MailStore::new(db.clone());
    s.put(&mail(id)).unwrap();
    db.get(id.as_bytes()).unwrap().unwrap().to_vec()
}

#[test]
fn record_from_found_values() {
    assert_eq!(record_from(None), Ok(None));
    assert_eq!(record_from(Some(encoded("x"))), Ok(Some(mail("x"))));
    assert_eq!(record_from(Some(vec![0u8; 4])), Err(StoreError::Corrupt));
    assert_eq!(record_from(Some(vec![])), Err(StoreError::Corrupt));
}

#[test]
fn page_from_windows_and_fails_fast() {
    let entries: Vec<(Vec<u8>, Vec<u8>)> = ["a", "b", "c", "d"]
        .iter()
        .map(|k| (k.as_bytes().to_vec(), encoded(k)))
        .collect();
    assert_eq!(ids(&page_from(&entries, 1, 2).unwrap()), vec!["b", "c"]);
    assert_eq!(ids(&page_from(&entries, 3, 10).unwrap()), vec!["d"]);
    assert_eq!(page_from(&entries, 9, 10).unwrap(), vec![]);
    let mut bad = entries.clone();
    bad[2].1 = vec![9u8];
    assert_eq!(page_from(&bad, 0, 10), Err(StoreError::Corrupt));
    assert_eq!(ids(&page_from(&bad, 0, 2).unwrap()), vec!["a", "b"]);
    assert_eq!(ids(&page_from(&bad, 3, 1).unwrap()), vec!["d"]);
}

#[test]
fn delete_of_missing_id_keeps_other_records() {
    let mut s = temp_store();
    s.put(&mail("a")).unwrap();
    assert_eq!(s.delete("b"), Ok(()));
    assert_eq!(s.get("a"), Ok(Some(mail("a"))));
}
