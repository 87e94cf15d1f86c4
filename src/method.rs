//! The request methods that the request engine recognises.
use vstd::prelude::*;
use crate::text::{chars_of, eq_ignoring_case, equal_ignoring_case};

verus! {

#[allow(non_camel_case_types, clippy::upper_case_acronyms)]
#[derive(Debug, Clone, Copy, PartialEq, Eq, Structural, Hash)]
pub enum Method {
    GET,
    POST,
    PUT,
    DELETE,
}

pub open spec fn get_token() -> Seq<char> {
    seq!['G', 'E', 'T']
}

pub open spec fn post_token() -> Seq<char> {
    seq!['P', 'O', 'S', 'T']
}

pub open spec fn put_token() -> Seq<char> {
    seq!['P', 'U', 'T']
}

pub open spec fn delete_token() -> Seq<char> {
    seq!['D', 'E', 'L', 'E', 'T', 'E']
}

/// The method a token names, its letters compared without regard to case.
pub open spec fn method_of(s: Seq<char>) -> Option<Method> {
    if equal_ignoring_case(s, get_token()) {
        Some(Method::GET)
    } else if equal_ignoring_case(s, post_token()) {
        Some(Method::POST)
    } else if equal_ignoring_case(s, put_token()) {
        Some(Method::PUT)
    } else if equal_ignoring_case(s, delete_token()) {
        Some(Method::DELETE)
    } else {
        None
    }
}

impl Method {
    /// Reads a method token such as `get` or `DELETE`; `None` for any other token.
    #[allow(clippy::should_implement_trait)]
    pub fn from_str(method: &str) -> (r: Option<Method>)
        ensures
            r == method_of(method@),
    {
        let cs = chars_of(method);
        Self::from_chars(&cs)
    }

    pub fn from_chars(cs: &[char]) -> (r: Option<Method>)
        ensures
            r == method_of(cs@),
    {
        let get = ['G', 'E', 'T'];
        let post = ['P', 'O', 'S', 'T'];
        let put = ['P', 'U', 'T'];
        let delete = ['D', 'E', 'L', 'E', 'T', 'E'];
        assert(get@ =~= get_token());
        assert(post@ =~= post_token());
        assert(put@ =~= put_token());
        assert(delete@ =~= delete_token());
        if eq_ignoring_case(cs, &get) {
            Some(Method::GET)
        } else if eq_ignoring_case(cs, &post) {
            Some(Method::POST)
        } else if eq_ignoring_case(cs, &put) {
            Some(Method::PUT)
        } else if eq_ignoring_case(cs, &delete) {
            Some(Method::DELETE)
        } else {
            None
        }
    }
}

} // verus!
