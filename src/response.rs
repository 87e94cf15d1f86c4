//! Carrying out an action against the store, and the bytes of a response.
use vstd::prelude::*;
use vstd::string::StringSliceAdditionalSpecFns;
use crate::mail::{Mail, view_mails};
use crate::num::{decimal_of, push_decimal};
use crate::request::{Action, ActionView, decide, decide_spec};
use crate::mail::{decodes_to, encodes_nothing};
use crate::store::{MailStore, is_listing, key_of, page_of, window_has_corrupt};

verus! {

/// The response statuses this service writes.
#[derive(Debug, Clone, Copy, PartialEq, Eq, Structural)]
pub enum Status {
    Success,
    BadRequest,
    NotFound,
    ServerError,
}

pub open spec fn status_head_spec(s: Status) -> Seq<u8> {
    match s {
        Status::Success => "HTTP/1.1 200 OK\r\n".spec_bytes(),
        Status::BadRequest => "HTTP/1.1 400 Bad Request\r\n".spec_bytes(),
        Status::NotFound => "HTTP/1.1 404 Not Found\r\n".spec_bytes(),
        Status::ServerError => "HTTP/1.1 500 Internal Server Error\r\n".spec_bytes(),
    }
}

/// The status line of `s`, with its line end.
pub fn status_head(s: Status) -> (r: Vec<u8>)
    ensures
        r@ == status_head_spec(s),
{
    let text: &str = match s {
        Status::Success => "HTTP/1.1 200 OK\r\n",
        Status::BadRequest => "HTTP/1.1 400 Bad Request\r\n",
        Status::NotFound => "HTTP/1.1 404 Not Found\r\n",
        Status::ServerError => "HTTP/1.1 500 Internal Server Error\r\n",
    };
    vstd::slice::slice_to_vec(text.as_bytes())
}

/// Appends `b` to `out`.
fn push_bytes(out: &mut Vec<u8>, b: &[u8])
    ensures
        final(out)@ == old(out)@ + b@,
{
    let mut i: usize = 0;
    while i < b.len()
        invariant
            0 <= i <= b@.len(),
            out@ == old(out)@ + b@.subrange(0, i as int),
        decreases b@.len() - i,
    {
        out.push(b[i]);
        assert(b@.subrange(0, i + 1) =~= b@.subrange(0, i as int).push(b@[i as int]));
        i = i + 1;
    }
    assert(b@.subrange(0, b@.len() as int) =~= b@);
}

pub open spec fn line_end() -> Seq<u8> {
    "\r\n".spec_bytes()
}

pub open spec fn json_type_header() -> Seq<u8> {
    "Content-Type: application/json\r\n".spec_bytes()
}

pub open spec fn length_header_name() -> Seq<u8> {
    "Content-Length: ".spec_bytes()
}

/// A response of status `s` with no headers and an empty body.
pub open spec fn empty_response_spec(s: Status) -> Seq<u8> {
    status_head_spec(s) + line_end()
}

/// A success response carrying `body` as JSON, with its type and length.
pub open spec fn json_response_spec(body: Seq<u8>) -> Seq<u8> {
    status_head_spec(Status::Success) + json_type_header() + length_header_name() + decimal_of(
        body.len(),
    ) + line_end() + line_end() + body
}

/// The bytes of a response of status `s` with an empty body.
pub fn empty_response(s: Status) -> (r: Vec<u8>)
    ensures
        r@ == empty_response_spec(s),
{
    let mut r = status_head(s);
    push_bytes(&mut r, "\r\n".as_bytes());
    r
}

/// The bytes of a success response whose body is the JSON text `body`.
pub fn json_response(body: &[u8]) -> (r: Vec<u8>)
    ensures
        r@ == json_response_spec(body@),
{
    let mut r = status_head(Status::Success);
    push_bytes(&mut r, "Content-Type: application/json\r\n".as_bytes());
    push_bytes(&mut r, "Content-Length: ".as_bytes());
    push_decimal(body.len(), &mut r);
    push_bytes(&mut r, "\r\n".as_bytes());
    push_bytes(&mut r, "\r\n".as_bytes());
    push_bytes(&mut r, body);
    assert(r@ =~= json_response_spec(body@));
    r
}

/// What the connection is answered with.
#[derive(Debug, PartialEq, Eq)]
pub enum Reply {
    /// Nothing: the connection is closed.
    Silent,
    /// A status with an empty body.
    Empty(Status),
    /// One record, as the success payload.
    One(Mail),
    /// A list of records, as the success payload.
    Many(Vec<Mail>),
}

/// Carries out `action` against `store`. A failed read of the store, or a
/// stored value that encodes no record, is a server error; a failed delete
/// is answered as not found.
pub fn respond(store: &mut MailStore, action: &Action) -> (r: Reply)
    ensures
        match action@ {
            ActionView::Close => r is Silent && *final(store) == *old(store),
            ActionView::BadRequest => r == Reply::Empty(Status::BadRequest) && *final(store) == *old(store),
            ActionView::NotFound => r == Reply::Empty(Status::NotFound) && *final(store) == *old(store),
            ActionView::GetMail(id) => *final(store) == *old(store) && (old(store).contents().contains_key(
                key_of(id),
            ) && encodes_nothing(old(store).contents()[key_of(id)]) ==> r == Reply::Empty(
                Status::ServerError,
            )) && match r {
                Reply::One(m) => old(store).contents().contains_key(key_of(id)) && decodes_to(
                    old(store).contents()[key_of(id)],
                    m@,
                ),
                Reply::Empty(Status::NotFound) => !old(store).contents().contains_key(key_of(id)),
                Reply::Empty(Status::ServerError) => true,
                _ => false,
            },
            ActionView::DeleteMail(id) => {
                &&& final(store).contents().remove(key_of(id)) == old(store).contents().remove(key_of(id))
                &&& !old(store).contents().contains_key(key_of(id)) ==> final(store).contents() == old(
                    store,
                ).contents()
                &&& match r {
                    Reply::Empty(Status::Success) => final(store).contents() == old(store).contents().remove(
                        key_of(id),
                    ),
                    Reply::Empty(Status::NotFound) => true,
                    _ => false,
                }
            },
            ActionView::ListMails { offset, limit } => *final(store) == *old(store) && ((exists|
                e: Seq<(Seq<u8>, Seq<u8>)>,
            |
                #[trigger] is_listing(old(store).contents(), e) && window_has_corrupt(
                    e,
                    offset as int,
                    limit as int,
                )) ==> r == Reply::Empty(Status::ServerError)) && match r {
                Reply::Many(v) => exists|e: Seq<(Seq<u8>, Seq<u8>)>|
                    #[trigger] is_listing(old(store).contents(), e) && page_of(e, offset as int, limit as int, view_mails(v@)),
                Reply::Empty(Status::ServerError) => true,
                _ => false,
            },
        },
{
    match action {
        Action::Close => Reply::Silent,
        Action::BadRequest => Reply::Empty(Status::BadRequest),
        Action::NotFound => Reply::Empty(Status::NotFound),
        Action::GetMail(id) => match store.get(id.as_str()) {
            Ok(Some(m)) => Reply::One(m),
            Ok(None) => Reply::Empty(Status::NotFound),
            Err(_) => Reply::Empty(Status::ServerError),
        },
        Action::DeleteMail(id) => match store.delete(id.as_str()) {
            Ok(()) => Reply::Empty(Status::Success),
            Err(_) => Reply::Empty(Status::NotFound),
        },
        Action::ListMails { offset, limit } => match store.list(*offset, *limit) {
            Ok(v) => Reply::Many(v),
            Err(_) => Reply::Empty(Status::ServerError),
        },
    }
}

/// Answers one request line: decides on it, then carries the action out.
pub fn handle_request(store: &mut MailStore, line: &str, secret: &str) -> (r: Reply)
    ensures
        decide_spec(line@, secret@) is Close ==> r is Silent && *final(store) == *old(store),
        decide_spec(line@, secret@) is BadRequest ==> r == Reply::Empty(Status::BadRequest),
        decide_spec(line@, secret@) is NotFound ==> r == Reply::Empty(Status::NotFound),
        !(decide_spec(line@, secret@) is DeleteMail) ==> *final(store) == *old(store),
        match decide_spec(line@, secret@) {
            ActionView::GetMail(id) => (old(store).contents().contains_key(key_of(id)) && encodes_nothing(
                old(store).contents()[key_of(id)],
            ) ==> r == Reply::Empty(Status::ServerError)) && match r {
                Reply::One(m) => old(store).contents().contains_key(key_of(id)) && decodes_to(
                    old(store).contents()[key_of(id)],
                    m@,
                ),
                Reply::Empty(Status::NotFound) => !old(store).contents().contains_key(key_of(id)),
                Reply::Empty(Status::ServerError) => true,
                _ => false,
            },
            ActionView::DeleteMail(id) => {
                &&& final(store).contents().remove(key_of(id)) == old(store).contents().remove(key_of(id))
                &&& !old(store).contents().contains_key(key_of(id)) ==> final(store).contents() == old(
                    store,
                ).contents()
                &&& match r {
                    Reply::Empty(Status::Success) => final(store).contents() == old(store).contents().remove(
                        key_of(id),
                    ),
                    Reply::Empty(Status::NotFound) => true,
                    _ => false,
                }
            },
            ActionView::ListMails { offset, limit } => ((exists|e: Seq<(Seq<u8>, Seq<u8>)>|
                #[trigger] is_listing(old(store).contents(), e) && window_has_corrupt(
                    e,
                    offset as int,
                    limit as int,
                )) ==> r == Reply::Empty(Status::ServerError)) && match r {
                Reply::Many(v) => exists|e: Seq<(Seq<u8>, Seq<u8>)>|
                    #[trigger] is_listing(old(store).contents(), e) && page_of(e, offset as int, limit as int, view_mails(v@)),
                Reply::Empty(Status::ServerError) => true,
                _ => false,
            },
            _ => true,
        },
{
    let action = decide(line, secret);
    respond(store, &action)
}

} // verus!
