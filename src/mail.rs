//! The captured mail record and its stored encoding.
use vstd::prelude::*;

verus! {

/// A captured message. Once stored, its fields never change.
#[derive(Debug, PartialEq, Eq)]
pub struct Mail {
    pub id: String,
    pub from: String,
    pub to: Vec<String>,
    pub subject: String,
    pub body: String,
    /// Seconds since the Unix epoch at which the message was received.
    pub received_at: u64,
}

/// A mail record as plain values.
pub struct MailView {
    pub id: Seq<char>,
    pub from: Seq<char>,
    pub to: Seq<Seq<char>>,
    pub subject: Seq<char>,
    pub body: Seq<char>,
    pub received_at: u64,
}

pub open spec fn view_strings(v: Seq<String>) -> Seq<Seq<char>> {
    v.map_values(|s: String| s@)
}

impl View for Mail {
    type V = MailView;

    open spec fn view(&self) -> MailView {
        MailView {
            id: self.id@,
            from: self.from@,
            to: view_strings(self.to@),
            subject: self.subject@,
            body: self.body@,
            received_at: self.received_at,
        }
    }
}

pub open spec fn view_mails(v: Seq<Mail>) -> Seq<MailView> {
    v.map_values(|m: Mail| m@)
}

/// The bytes under which a record is stored: bincode's encoding of its fields
/// in order.
pub uninterp spec fn encoded_mail(m: MailView) -> Seq<u8>;

#[verifier::external_type_specification]
#[verifier::external_body]
pub struct ExBincodeErrorKind(bincode::ErrorKind);

/// Whether `p` is an initial part of `s`.
pub open spec fn is_prefix(p: Seq<u8>, s: Seq<u8>) -> bool {
    p.len() <= s.len() && s.subrange(0, p.len() as int) == p
}

/// `bytes` begin with the encoding of `d`, and of no other record.
pub open spec fn decodes_to(bytes: Seq<u8>, d: MailView) -> bool {
    &&& is_prefix(encoded_mail(d), bytes)
    &&& forall|w: MailView| #[trigger] is_prefix(encoded_mail(w), bytes) ==> w == d
}

/// `bytes` begin with the encoding of no record.
pub open spec fn encodes_nothing(bytes: Seq<u8>) -> bool {
    forall|w: MailView| !#[trigger] is_prefix(encoded_mail(w), bytes)
}

/// Relies on `bincode::serialize` of the record's fields as a tuple, which
/// encodes those values in field order; with no size limit set, strings,
/// string lists and integers always encode.
#[verifier::external_body]
pub(crate) fn encode_mail(m: &Mail) -> (r: Result<Vec<u8>, Box<bincode::ErrorKind>>)
    ensures
        r is Ok,
        r matches Ok(b) ==> b@ == encoded_mail(m@),
{
    bincode::serialize(&(&m.id, &m.from, &m.to, &m.subject, &m.body, m.received_at))
}

/// Relies on `bincode::deserialize` of the same tuple: it reads the record
/// whose encoding starts the bytes (trailing bytes are allowed), and fails
/// where none does.
#[verifier::external_body]
pub(crate) fn decode_mail(b: &[u8]) -> (r: Result<Mail, Box<bincode::ErrorKind>>)
    ensures
        r is Err ==> encodes_nothing(b@),
        r matches Ok(d) ==> decodes_to(b@, d@),
{
    let (id, from, to, subject, body, received_at) = bincode::deserialize::<
        (String, String, Vec<String>, String, String, u64),
    >(b)?;
    Ok(Mail { id, from, to, subject, body, received_at })
}

} // verus!
