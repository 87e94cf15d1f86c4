//! Character-sequence helpers shared by the protocol engines.
use vstd::prelude::*;

verus! {

/// Relies on `str::chars` collected into a `Vec`: the characters of `s`, in order.
#[verifier::external_body]
pub(crate) fn chars_of(s: &str) -> (r: Vec<char>)
    ensures
        r@ == s@,
{
    s.chars().collect()
}

/// Relies on `String`'s `FromIterator<&char>`: the string made of `cs`, in order.
#[verifier::external_body]
pub(crate) fn string_of(cs: &Vec<char>) -> (r: String)
    ensures
        r@ == cs@,
{
    cs.iter().collect()
}

/// An ASCII letter compares equal to its other case; anything else only to itself.
pub open spec fn same_ignoring_case(c: char, d: char) -> bool {
    c == d || (('a' <= c <= 'z' || 'A' <= c <= 'Z') && ('a' <= d <= 'z' || 'A' <= d <= 'Z')
        && (c as u32 == d as u32 + 32 || d as u32 == c as u32 + 32))
}

/// Two sequences that are equal up to the case of ASCII letters.
pub open spec fn equal_ignoring_case(a: Seq<char>, b: Seq<char>) -> bool {
    a.len() == b.len() && forall|i: int| 0 <= i < a.len() ==> same_ignoring_case(#[trigger] a[i], b[i])
}

pub fn char_eq_ignoring_case(c: char, d: char) -> (r: bool)
    ensures
        r == same_ignoring_case(c, d),
{
    if c == d {
        return true;
    }
    let cl = ('a' <= c && c <= 'z') || ('A' <= c && c <= 'Z');
    let dl = ('a' <= d && d <= 'z') || ('A' <= d && d <= 'Z');
    let cu = c as u32;
    let du = d as u32;
    cl && dl && (cu == du + 32 || du == cu + 32)
}

/// Whether `a` and `b` agree up to the case of ASCII letters.
pub fn eq_ignoring_case(a: &[char], b: &[char]) -> (r: bool)
    ensures
        r == equal_ignoring_case(a@, b@),
{
    if a.len() != b.len() {
        return false;
    }
    let mut i: usize = 0;
    while i < a.len()
        invariant
            a@.len() == b@.len(),
            0 <= i <= a@.len(),
            forall|j: int| 0 <= j < i ==> same_ignoring_case(#[trigger] a@[j], b@[j]),
        decreases a@.len() - i,
    {
        if !char_eq_ignoring_case(a[i], b[i]) {
            return false;
        }
        i = i + 1;
    }
    true
}

/// Whether `a` and `b` are the same sequence.
pub fn chars_equal(a: &[char], b: &[char]) -> (r: bool)
    ensures
        r == (a@ == b@),
{
    if a.len() != b.len() {
        return false;
    }
    let mut i: usize = 0;
    while i < a.len()
        invariant
            a@.len() == b@.len(),
            0 <= i <= a@.len(),
            forall|j: int| 0 <= j < i ==> a@[j] == b@[j],
        decreases a@.len() - i,
    {
        if a[i] != b[i] {
            return false;
        }
        i = i + 1;
    }
    assert(a@ =~= b@);
    true
}

} // verus!
