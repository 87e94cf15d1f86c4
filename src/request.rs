//! The request engine's decisions: one request line in, one action out.
use vstd::prelude::*;
use crate::method::{Method, method_of};
use crate::num::{decimal_spec, parse_decimal};
use crate::router::{
    Handler, build_routes, find_handler, find_spec, lookup_last, mail_id_name, route_table,
    view_pairs,
};
use crate::text::{chars_of, chars_equal, string_of};

verus! {

#[verifier::external_type_specification]
#[verifier::external_body]
pub struct ExUrlParseError(url::ParseError);

/// What `url::Url::parse` makes of an absolute URL: its path and its query,
/// or `None` where it refuses the text.
pub uninterp spec fn parsed_url(s: Seq<char>) -> Option<(Seq<char>, Option<Seq<char>>)>;

/// The key/value pairs, percent-decoded and in order, that
/// `form_urlencoded::parse` reads from a query.
pub uninterp spec fn form_pairs(q: Seq<char>) -> Seq<(Seq<char>, Seq<char>)>;

/// Relies on `url::Url::parse`, then `Url::path` and `Url::query`.
#[verifier::external_body]
fn parse_url(s: &str) -> (r: Result<(String, Option<String>), url::ParseError>)
    ensures
        r is Ok <==> parsed_url(s@) is Some,
        r matches Ok(p) ==> parsed_url(s@) == Some((p.0@, match p.1 {
            Some(q) => Some(q@),
            None => None,
        })),
{
    let u = url::Url::parse(s)?;
    Ok((u.path().to_string(), u.query().map(|q| q.to_string())))
}

/// Relies on `url::form_urlencoded::parse`: the query's pairs, decoded, in order.
#[verifier::external_body]
fn parse_query(q: &str) -> (r: Vec<(String, String)>)
    ensures
        view_pairs(r@) == form_pairs(q@),
{
    url::form_urlencoded::parse(q.as_bytes()).into_owned().collect()
}

pub open spec fn is_space(c: char) -> bool {
    c == ' ' || c == '\t' || c == '\n' || c == '\r' || c == '\x0b' || c == '\x0c'
}

/// The words of `s` seen so far and the word being read, scanning left to right.
pub open spec fn words_scan(s: Seq<char>) -> (Seq<Seq<char>>, Seq<char>)
    decreases s.len(),
{
    if s.len() == 0 {
        (Seq::empty(), Seq::empty())
    } else {
        let (done, cur) = words_scan(s.drop_last());
        if is_space(s.last()) {
            if cur.len() > 0 {
                (done.push(cur), Seq::empty())
            } else {
                (done, cur)
            }
        } else {
            (done, cur.push(s.last()))
        }
    }
}

/// The maximal runs of non-space characters of `s`, in order.
pub open spec fn words(s: Seq<char>) -> Seq<Seq<char>> {
    let (done, cur) = words_scan(s);
    if cur.len() > 0 {
        done.push(cur)
    } else {
        done
    }
}

pub open spec fn view_words(v: Seq<Vec<char>>) -> Seq<Seq<char>> {
    v.map_values(|x: Vec<char>| x@)
}

/// Splits a line into its space-separated words.
pub fn split_words(s: &[char]) -> (r: Vec<Vec<char>>)
    ensures
        view_words(r@) == words(s@),
{
    let mut done: Vec<Vec<char>> = Vec::new();
    let mut cur: Vec<char> = Vec::new();
    let mut i: usize = 0;
    while i < s.len()
        invariant
            0 <= i <= s@.len(),
            words_scan(s@.subrange(0, i as int)) == (view_words(done@), cur@),
        decreases s@.len() - i,
    {
        let c = s[i];
        assert(s@.subrange(0, i + 1).drop_last() =~= s@.subrange(0, i as int));
        if c == ' ' || c == '\t' || c == '\n' || c == '\r' || c == '\x0b' || c == '\x0c' {
            if cur.len() > 0 {
                let ghost d = done@;
                let w = cur;
                done.push(w);
                cur = Vec::new();
                assert(view_words(done@) =~= view_words(d).push(w@));
            }
        } else {
            cur.push(c);
        }
        i = i + 1;
    }
    assert(s@.subrange(0, s@.len() as int) =~= s@);
    if cur.len() > 0 {
        let ghost d = done@;
        let w = cur;
        done.push(w);
        assert(view_words(done@) =~= view_words(d).push(w@));
    }
    done
}

/// The prefix that makes a request target an absolute URL.
pub open spec fn url_base() -> Seq<char> {
    seq!['h', 't', 't', 'p', ':', '/', '/', 'l', 'o', 'c', 'a', 'l', 'h', 'o', 's', 't']
}

pub open spec fn secret_name() -> Seq<char> {
    seq!['k']
}

pub open spec fn limit_name() -> Seq<char> {
    seq!['l', 'i', 'm', 'i', 't']
}

pub open spec fn offset_name() -> Seq<char> {
    seq!['o', 'f', 'f', 's', 'e', 't']
}

/// The listing size used when a request names none.
pub const DEFAULT_LIMIT: usize = 10;

/// What to do with one request.
#[derive(Debug, PartialEq, Eq)]
pub enum Action {
    /// Close the connection without writing anything.
    Close,
    /// Answer with the bad-request status and an empty body.
    BadRequest,
    /// Answer with the not-found status and an empty body.
    NotFound,
    /// Answer with the record stored under this id.
    GetMail(String),
    /// Delete the record stored under this id.
    DeleteMail(String),
    /// Answer with the records in key order from `offset`, at most `limit`.
    ListMails { offset: usize, limit: usize },
}

/// An [`Action`] as plain values.
pub enum ActionView {
    Close,
    BadRequest,
    NotFound,
    GetMail(Seq<char>),
    DeleteMail(Seq<char>),
    ListMails { offset: usize, limit: usize },
}

impl View for Action {
    type V = ActionView;

    open spec fn view(&self) -> ActionView {
        match self {
            Action::Close => ActionView::Close,
            Action::BadRequest => ActionView::BadRequest,
            Action::NotFound => ActionView::NotFound,
            Action::GetMail(id) => ActionView::GetMail(id@),
            Action::DeleteMail(id) => ActionView::DeleteMail(id@),
            Action::ListMails { offset, limit } => ActionView::ListMails { offset: *offset, limit: *limit },
        }
    }
}

/// A number parameter of the query: `default` where it is absent, `None`
/// where it is present but not a `usize`.
pub open spec fn number_param(pairs: Seq<(Seq<char>, Seq<char>)>, name: Seq<char>, default: usize) -> Option<usize> {
    match lookup_last(pairs, name) {
        None => Some(default),
        Some(v) => decimal_spec(v),
    }
}

/// What the matched handler is asked to do, given the path bindings and
/// the query pairs.
pub open spec fn handler_action(
    h: Handler,
    params: Seq<(Seq<char>, Seq<char>)>,
    pairs: Seq<(Seq<char>, Seq<char>)>,
) -> ActionView {
    match h {
        Handler::GetMail => match lookup_last(params, mail_id_name()) {
            Some(id) => ActionView::GetMail(id),
            None => ActionView::NotFound,
        },
        Handler::DeleteMail => match lookup_last(params, mail_id_name()) {
            Some(id) => ActionView::DeleteMail(id),
            None => ActionView::NotFound,
        },
        Handler::ListMails => match (
            number_param(pairs, limit_name(), DEFAULT_LIMIT),
            number_param(pairs, offset_name(), 0),
        ) {
            (Some(limit), Some(offset)) => ActionView::ListMails { offset, limit },
            _ => ActionView::BadRequest,
        },
    }
}

/// The action for a request line when `secret` is the shared secret: fewer
/// than two words is a bad request; an unknown method closes silently; so
/// does a target that is no URL, whose secret cannot be read, and a query
/// without `k` equal to `secret`; a request no route matches is not found.
pub open spec fn decide_spec(line: Seq<char>, secret: Seq<char>) -> ActionView {
    let w = words(line);
    if w.len() < 2 {
        ActionView::BadRequest
    } else {
        match method_of(w[0]) {
            None => ActionView::Close,
            Some(m) => match parsed_url(url_base() + w[1]) {
                None => ActionView::Close,
                Some(u) => {
                    let pairs = form_pairs(
                        match u.1 {
                            Some(q) => q,
                            None => Seq::empty(),
                        },
                    );
                    if lookup_last(pairs, secret_name()) != Some(secret) {
                        ActionView::Close
                    } else {
                        match find_spec(route_table(), m, u.0) {
                            None => ActionView::NotFound,
                            Some(f) => handler_action(f.0, f.1, pairs),
                        }
                    }
                },
            },
        }
    }
}

/// The value last bound to `key` in `pairs`.
pub fn lookup(pairs: &Vec<(String, String)>, key: &[char]) -> (r: Option<Vec<char>>)
    ensures
        match r {
            Some(v) => lookup_last(view_pairs(pairs@), key@) == Some(v@),
            None => lookup_last(view_pairs(pairs@), key@) is None,
        },
{
    let ghost pv = view_pairs(pairs@);
    let mut i: usize = pairs.len();
    assert(pv.subrange(0, i as int) =~= pv);
    while i > 0
        invariant
            0 <= i <= pairs@.len(),
            pv == view_pairs(pairs@),
            lookup_last(pv, key@) == lookup_last(pv.subrange(0, i as int), key@),
        decreases i,
    {
        let name = chars_of(pairs[i - 1].0.as_str());
        let ghost sub = pv.subrange(0, i as int);
        assert(sub.drop_last() =~= pv.subrange(0, i - 1));
        if chars_equal(&name, key) {
            return Some(chars_of(pairs[i - 1].1.as_str()));
        }
        i = i - 1;
    }
    None
}

fn number_arg(pairs: &Vec<(String, String)>, name: &[char], default: usize) -> (r: Option<usize>)
    ensures
        r == number_param(view_pairs(pairs@), name@, default),
{
    match lookup(pairs, name) {
        None => Some(default),
        Some(v) => parse_decimal(&v),
    }
}

fn action_for(h: Handler, params: &Vec<(String, String)>, pairs: &Vec<(String, String)>) -> (r: Action)
    ensures
        r@ == handler_action(h, view_pairs(params@), view_pairs(pairs@)),
{
    let id_name = vec!['m', 'a', 'i', 'l', '_', 'i', 'd'];
    assert(id_name@ =~= mail_id_name());
    match h {
        Handler::GetMail => match lookup(params, &id_name) {
            Some(id) => Action::GetMail(string_of(&id)),
            None => Action::NotFound,
        },
        Handler::DeleteMail => match lookup(params, &id_name) {
            Some(id) => Action::DeleteMail(string_of(&id)),
            None => Action::NotFound,
        },
        Handler::ListMails => {
            let limit_n = vec!['l', 'i', 'm', 'i', 't'];
            let offset_n = vec!['o', 'f', 'f', 's', 'e', 't'];
            assert(limit_n@ =~= limit_name());
            assert(offset_n@ =~= offset_name());
            match (number_arg(pairs, &limit_n, DEFAULT_LIMIT), number_arg(pairs, &offset_n, 0)) {
                (Some(limit), Some(offset)) => Action::ListMails { offset, limit },
                _ => Action::BadRequest,
            }
        },
    }
}

/// Decides what to do with the request line `line` when the shared secret
/// is `secret`.
pub fn decide(line: &str, secret: &str) -> (r: Action)
    ensures
        r@ == decide_spec(line@, secret@),
{
    let cs = chars_of(line);
    let w = split_words(&cs);
    if w.len() < 2 {
        return Action::BadRequest;
    }
    let method = match Method::from_chars(&w[0]) {
        Some(m) => m,
        None => return Action::Close,
    };
    let mut target = vec!['h', 't', 't', 'p', ':', '/', '/', 'l', 'o', 'c', 'a', 'l', 'h', 'o', 's', 't'];
    assert(target@ =~= url_base());
    let mut rest = w[1].clone();
    target.append(&mut rest);
    let url_text = string_of(&target);
    let (path, query) = match parse_url(url_text.as_str()) {
        Ok(p) => p,
        Err(_) => return Action::Close,
    };
    let pairs = match query {
        Some(q) => parse_query(q.as_str()),
        None => {
            let empty: Vec<char> = Vec::new();
            parse_query(string_of(&empty).as_str())
        },
    };
    let k = vec!['k'];
    assert(k@ =~= secret_name());
    let secret_cs = chars_of(secret);
    match lookup(&pairs, &k) {
        None => return Action::Close,
        Some(given) => {
            if !chars_equal(&given, &secret_cs) {
                return Action::Close;
            }
        },
    }
    let routes = build_routes();
    match find_handler(&routes, method, path.as_str()) {
        None => Action::NotFound,
        Some((h, params)) => action_for(h, &params, &pairs),
    }
}

/// Every request of two words or more that does not carry the shared
/// secret as the last `k` of its query is answered by closing the
/// connection: a target that is no URL carries no secret. Which of the two
/// holds, a missing or a wrong `k`, makes no difference.
pub proof fn law_gate_closes_without_secret(line: Seq<char>, secret: Seq<char>)
    requires
        words(line).len() >= 2,
        match parsed_url(url_base() + words(line)[1]) {
            None => true,
            Some(u) => lookup_last(
                form_pairs(
                    match u.1 {
                        Some(q) => q,
                        None => Seq::empty(),
                    },
                ),
                secret_name(),
            ) != Some(secret),
        },
    ensures
        decide_spec(line, secret) == ActionView::Close,
{
}

/// A request line whose first word names no known method is answered by
/// closing the connection, before its target is even read.
pub proof fn law_unknown_method_closes(line: Seq<char>, secret: Seq<char>)
    requires
        words(line).len() >= 2,
        method_of(words(line)[0]) is None,
    ensures
        decide_spec(line, secret) == ActionView::Close,
{
}

/// A request line of fewer than two words, the empty line among them, is a
/// bad request whatever the secret.
pub proof fn law_short_line_is_bad_request(line: Seq<char>, secret: Seq<char>)
    requires
        words(line).len() < 2,
    ensures
        decide_spec(line, secret) == ActionView::BadRequest,
{
}

/// The empty line has no words.
pub proof fn lemma_empty_line_has_no_words()
    ensures
        words(Seq::<char>::empty()).len() == 0,
{
}

} // verus!
