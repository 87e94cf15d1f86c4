use mail_capture::request::{decide, Action};
use mail_capture::response::{empty_response, json_response, status_head, Status};

const SECRET: &str = "s3cret";

#[test]
fn missing_secret_closes() {
    assert_eq!(decide("GET /mails HTTP/1.1", SECRET), Action::Close);
    assert_eq!(decide("GET /mails?limit=3 HTTP/1.1", SECRET), Action::Close);
    assert_eq!(decide("GET /unknown HTTP/1.1", SECRET), Action::Close);
}

#[test]
fn wrong_secret_closes() {
    assert_eq!(decide("GET /mails?k=nope HTTP/1.1", SECRET), Action::Close);
    assert_eq!(decide("DELETE /mails/1?k=S3CRET HTTP/1.1", SECRET), Action::Close);
    assert_eq!(decide("GET /mails?k= HTTP/1.1", SECRET), Action::Close);
}

#[test]
fn last_secret_value_wins() {
    assert_eq!(
        decide("GET /mails?k=nope&k=s3cret HTTP/1.1", SECRET),
        Action::ListMails { offset: 0, limit: 10 }
    );
    assert_eq!(decide("GET /mails?k=s3cret&k=nope HTTP/1.1", SECRET), Action::Close);
}

#[test]
fn secret_is_percent_decoded() {
    assert_eq!(
        decide("GET /mails?k=a%20b HTTP/1.1", "a b"),
        Action::ListMails { offset: 0, limit: 10 }
    );
}

#[test]
fn unknown_method_closes() {
    assert_eq!(decide("PATCH /mails?k=s3cret HTTP/1.1", SECRET), Action::Close);
    assert_eq!(decide("PATCH /mails HTTP/1.1", SECRET), Action::Close);
}

#[test]
fn empty_line_is_bad_request() {
    assert_eq!(decide("", SECRET), Action::BadRequest);
    assert_eq!(decide("   ", SECRET), Action::BadRequest);
    assert_eq!(decide("GET", SECRET), Action::BadRequest);
}

#[test]
fn unmatched_route_is_not_found() {
    assert_eq!(decide("GET /unknown?k=s3cret HTTP/1.1", SECRET), Action::NotFound);
    assert_eq!(decide("POST /mails?k=s3cret HTTP/1.1", SECRET), Action::NotFound);
    assert_eq!(decide("PUT /mails/1?k=s3cret HTTP/1.1", SECRET), Action::NotFound);
}

#[test]
fn item_routes_carry_the_id() {
    assert_eq!(decide("GET /mails/42?k=s3cret HTTP/1.1", SECRET), Action::GetMail("42".to_string()));
    assert_eq!(decide("get /mails/42?k=s3cret", SECRET), Action::GetMail("42".to_string()));
    assert_eq!(
        decide("DELETE /mails/abc?k=s3cret HTTP/1.1\r\n", SECRET),
        Action::DeleteMail("abc".to_string())
    );
}

#[test]
fn listing_parameters() {
    assert_eq!(
        decide("GET /mails?k=s3cret&limit=3&offset=5 HTTP/1.1", SECRET),
        Action::ListMails { offset: 5, limit: 3 }
    );
    assert_eq!(
        decide("GET /mails?offset=2&k=s3cret HTTP/1.1", SECRET),
        Action::ListMails { offset: 2, limit: 10 }
    );
    assert_eq!(decide("GET /mails?k=s3cret&limit=x HTTP/1.1", SECRET), Action::BadRequest);
    assert_eq!(decide("GET /mails?k=s3cret&offset=-1 HTTP/1.1", SECRET), Action::BadRequest);
}

#[test]
fn status_lines() {
    assert_eq!(status_head(Status::Success), b"HTTP/1.1 200 OK\r\n".to_vec());
    assert_eq!(empty_response(Status::BadRequest), b"HTTP/1.1 400 Bad Request\r\n\r\n".to_vec());
    assert_eq!(empty_response(Status::NotFound), b"HTTP/1.1 404 Not Found\r\n\r\n".to_vec());
    assert_eq!(
        empty_response(Status::ServerError),
        b"HTTP/1.1 500 Internal Server Error\r\n\r\n".to_vec()
    );
}

#[test]
fn json_response_frames_body() {
    let r = json_response(b"[1,2]");
    assert_eq!(
        r,
        b"HTTP/1.1 200 OK\r\nContent-Type: application/json\r\nContent-Length: 5\r\n\r\n[1,2]".to_vec()
    );
    let r = json_response(b"");
    assert_eq!(
        r,
        b"HTTP/1.1 200 OK\r\nContent-Type: application/json\r\nContent-Length: 0\r\n\r\n".to_vec()
    );
}

#[test]
fn unparsable_target_closes() {
    assert_eq!(decide("GET :abc HTTP/1.1", SECRET), Action::Close);
    assert_eq!(decide("GET :abc?k=nope HTTP/1.1", SECRET), Action::Close);
    assert_eq!(decide("GET :abc?k=s3cret HTTP/1.1", SECRET), Action::Close);
}
