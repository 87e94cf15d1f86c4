//! The route table: first-match-wins dispatch on method and path pattern,
//! with named path parameters.
use vstd::prelude::*;
use crate::method::Method;
use crate::text::{chars_of, chars_equal, string_of};

verus! {

/// Separates the segments of a path and of a route pattern.
pub open spec fn is_sep(c: char) -> bool {
    c == '/'
}

/// Marks a pattern segment that binds a parameter.
pub open spec fn is_marker(c: char) -> bool {
    c == ':'
}

/// `s` without one trailing separator, if it has one.
pub open spec fn trim_one_sep(s: Seq<char>) -> Seq<char> {
    if s.len() > 0 && is_sep(s.last()) {
        s.drop_last()
    } else {
        s
    }
}

/// The pieces of `s` between separators, empty pieces included; never empty itself.
pub open spec fn segments(s: Seq<char>) -> Seq<Seq<char>>
    decreases s.len(),
{
    if s.len() == 0 {
        seq![Seq::<char>::empty()]
    } else {
        let p = segments(s.drop_last());
        if is_sep(s.last()) {
            p.push(Seq::<char>::empty())
        } else {
            p.update(p.len() - 1, p.last().push(s.last()))
        }
    }
}

/// The parameters bound by matching the first `n` segments of pattern `r`
/// against path segments `p`, in order; `None` where a literal segment differs.
pub open spec fn bind_prefix(r: Seq<Seq<char>>, p: Seq<Seq<char>>, n: nat) -> Option<
    Seq<(Seq<char>, Seq<char>)>,
>
    decreases n,
{
    if n == 0 {
        Some(Seq::empty())
    } else {
        match bind_prefix(r, p, (n - 1) as nat) {
            None => None,
            Some(b) => {
                let rs = r[n - 1];
                if rs.len() > 0 && is_marker(rs[0]) {
                    Some(b.push((rs.drop_first(), p[n - 1])))
                } else if rs == p[n - 1] {
                    Some(b)
                } else {
                    None
                }
            },
        }
    }
}

/// The parameter bindings of path `path` under pattern `pattern`, or `None`
/// where they do not match.
pub open spec fn match_spec(pattern: Seq<char>, path: Seq<char>) -> Option<
    Seq<(Seq<char>, Seq<char>)>,
> {
    let r = segments(trim_one_sep(pattern));
    let p = segments(trim_one_sep(path));
    if r.len() != p.len() {
        None
    } else {
        bind_prefix(r, p, r.len())
    }
}

/// The value bound last to `key` in `pairs`: later bindings win.
pub open spec fn lookup_last(pairs: Seq<(Seq<char>, Seq<char>)>, key: Seq<char>) -> Option<Seq<char>>
    decreases pairs.len(),
{
    if pairs.len() == 0 {
        None
    } else if pairs.last().0 == key {
        Some(pairs.last().1)
    } else {
        lookup_last(pairs.drop_last(), key)
    }
}

/// Once a literal segment differs, no longer prefix matches either.
pub proof fn lemma_bind_none_stable(r: Seq<Seq<char>>, p: Seq<Seq<char>>, n: nat, k: nat)
    requires
        n <= k,
        bind_prefix(r, p, n) is None,
    ensures
        bind_prefix(r, p, k) is None,
    decreases k - n,
{
    if n < k {
        lemma_bind_none_stable(r, p, n, (k - 1) as nat);
    }
}

pub open spec fn view_segs(v: Seq<Vec<char>>) -> Seq<Seq<char>> {
    v.map_values(|x: Vec<char>| x@)
}

pub open spec fn view_pairs(v: Seq<(String, String)>) -> Seq<(Seq<char>, Seq<char>)> {
    v.map_values(|x: (String, String)| (x.0@, x.1@))
}

/// Splits `s` into its segments.
pub fn split_segments(s: &[char]) -> (r: Vec<Vec<char>>)
    ensures
        view_segs(r@) == segments(s@),
{
    let mut done: Vec<Vec<char>> = Vec::new();
    let mut cur: Vec<char> = Vec::new();
    let mut i: usize = 0;
    while i < s.len()
        invariant
            0 <= i <= s@.len(),
            segments(s@.subrange(0, i as int)) == view_segs(done@).push(cur@),
        decreases s@.len() - i,
    {
        let ghost pre = s@.subrange(0, i as int);
        assert(s@.subrange(0, i + 1).drop_last() =~= pre);
        if s[i] == '/' {
            let old_cur = cur;
            done.push(old_cur);
            cur = Vec::new();
            assert(view_segs(done@) =~= view_segs(done@.drop_last()).push(old_cur@));
        } else {
            let ghost old_cur = cur@;
            cur.push(s[i]);
            proof {
                let d = view_segs(done@);
                assert(d.push(cur@) =~= d.push(old_cur).update(
                    d.len() as int,
                    old_cur.push(s@[i as int]),
                ));
            }
        }
        i = i + 1;
    }
    assert(s@.subrange(0, s@.len() as int) =~= s@);
    let ghost d = done@;
    done.push(cur);
    assert(view_segs(done@) =~= view_segs(d).push(cur@));
    done
}

/// Matches `request_path` against `route_path`: equal segment counts after one
/// trailing separator is trimmed from each, literal segments equal, and each
/// `:name` segment binding `name` to the request's segment.
pub fn match_path(route_path: &str, request_path: &str) -> (r: Option<Vec<(String, String)>>)
    ensures
        match r {
            Some(b) => match_spec(route_path@, request_path@) == Some(view_pairs(b@)),
            None => match_spec(route_path@, request_path@) is None,
        },
{
    let rc = chars_of(route_path);
    let pc = chars_of(request_path);
    let rt = trim_sep(&rc);
    let pt = trim_sep(&pc);
    let rs = split_segments(&rt);
    let ps = split_segments(&pt);
    if rs.len() != ps.len() {
        return None;
    }
    let mut params: Vec<(String, String)> = Vec::new();
    let mut i: usize = 0;
    while i < rs.len()
        invariant
            rs@.len() == ps@.len(),
            0 <= i <= rs@.len(),
            view_segs(rs@) == segments(trim_one_sep(route_path@)),
            view_segs(ps@) == segments(trim_one_sep(request_path@)),
            bind_prefix(view_segs(rs@), view_segs(ps@), i as nat) == Some(view_pairs(params@)),
        decreases rs@.len() - i,
    {
        let seg = &rs[i];
        if seg.len() > 0 && seg[0] == ':' {
            let name = drop_first_char(seg);
            let ghost before = params@;
            params.push((string_of(&name), string_of(&ps[i])));
            assert(view_pairs(params@) =~= view_pairs(before).push((name@, ps@[i as int]@)));
        } else if !chars_equal(seg, &ps[i]) {
            proof {
                lemma_bind_none_stable(view_segs(rs@), view_segs(ps@), (i + 1) as nat, rs@.len());
            }
            return None;
        }
        i = i + 1;
    }
    Some(params)
}

fn trim_sep(s: &Vec<char>) -> (r: Vec<char>)
    ensures
        r@ == trim_one_sep(s@),
{
    let mut r = s.clone();
    if r.len() > 0 && r[r.len() - 1] == '/' {
        r.pop();
    }
    assert(s@.len() > 0 && s@.last() == '/' ==> r@ =~= s@.drop_last());
    r
}

fn drop_first_char(s: &Vec<char>) -> (r: Vec<char>)
    requires
        s@.len() > 0,
    ensures
        r@ == s@.drop_first(),
{
    let mut r: Vec<char> = Vec::new();
    let mut i: usize = 1;
    while i < s.len()
        invariant
            1 <= i <= s@.len(),
            r@ == s@.subrange(1, i as int),
        decreases s@.len() - i,
    {
        r.push(s[i]);
        assert(r@ =~= s@.subrange(1, i + 1));
        i = i + 1;
    }
    assert(r@ =~= s@.drop_first());
    r
}

} // verus!

verus! {

/// What a matched route does.
#[derive(Debug, Clone, Copy, PartialEq, Eq, Structural)]
pub enum Handler {
    GetMail,
    DeleteMail,
    ListMails,
}

/// One entry of the route table.
pub struct Route {
    pub method: Method,
    pub pattern: String,
    pub handler: Handler,
}

pub open spec fn mail_item_pattern() -> Seq<char> {
    seq!['/', 'm', 'a', 'i', 'l', 's', '/', ':', 'm', 'a', 'i', 'l', '_', 'i', 'd']
}

pub open spec fn mail_list_pattern() -> Seq<char> {
    seq!['/', 'm', 'a', 'i', 'l', 's']
}

/// The name under which the item routes bind the mail id.
pub open spec fn mail_id_name() -> Seq<char> {
    seq!['m', 'a', 'i', 'l', '_', 'i', 'd']
}

/// The route table in registration order, as (method, pattern, handler).
pub open spec fn route_table() -> Seq<(Method, Seq<char>, Handler)> {
    seq![
        (Method::GET, mail_item_pattern(), Handler::GetMail),
        (Method::DELETE, mail_item_pattern(), Handler::DeleteMail),
        (Method::GET, mail_list_pattern(), Handler::ListMails),
    ]
}

pub open spec fn view_routes(v: Seq<Route>) -> Seq<(Method, Seq<char>, Handler)> {
    v.map_values(|r: Route| (r.method, r.pattern@, r.handler))
}

/// The first of the first `n` routes whose method is `m` and whose pattern
/// matches `path`, with its bindings.
pub open spec fn find_in(
    routes: Seq<(Method, Seq<char>, Handler)>,
    m: Method,
    path: Seq<char>,
    n: nat,
) -> Option<(Handler, Seq<(Seq<char>, Seq<char>)>)>
    decreases n,
{
    if n == 0 {
        None
    } else {
        match find_in(routes, m, path, (n - 1) as nat) {
            Some(found) => Some(found),
            None => {
                let r = routes[n - 1];
                if r.0 == m && match_spec(r.1, path) is Some {
                    Some((r.2, match_spec(r.1, path)->0))
                } else {
                    None
                }
            },
        }
    }
}

/// The route that handles `m` on `path`: the first registered one that matches.
pub open spec fn find_spec(
    routes: Seq<(Method, Seq<char>, Handler)>,
    m: Method,
    path: Seq<char>,
) -> Option<(Handler, Seq<(Seq<char>, Seq<char>)>)> {
    find_in(routes, m, path, routes.len())
}

/// The routes this service answers, in the order they are tried.
pub fn build_routes() -> (r: Vec<Route>)
    ensures
        view_routes(r@) == route_table(),
{
    let item_v = vec!['/', 'm', 'a', 'i', 'l', 's', '/', ':', 'm', 'a', 'i', 'l', '_', 'i', 'd'];
    let list_v = vec!['/', 'm', 'a', 'i', 'l', 's'];
    assert(item_v@ =~= mail_item_pattern());
    assert(list_v@ =~= mail_list_pattern());
    let mut r: Vec<Route> = Vec::new();
    r.push(Route { method: Method::GET, pattern: string_of(&item_v), handler: Handler::GetMail });
    r.push(Route { method: Method::DELETE, pattern: string_of(&item_v), handler: Handler::DeleteMail });
    r.push(Route { method: Method::GET, pattern: string_of(&list_v), handler: Handler::ListMails });
    assert(view_routes(r@) =~= route_table());
    r
}

/// The handler and bindings of the first route in `routes` with method
/// `method` whose pattern matches `request_path`.
pub fn find_handler(routes: &[Route], method: Method, request_path: &str) -> (r: Option<
    (Handler, Vec<(String, String)>),
>)
    ensures
        match r {
            Some(f) => find_spec(view_routes(routes@), method, request_path@) == Some(
                (f.0, view_pairs(f.1@)),
            ),
            None => find_spec(view_routes(routes@), method, request_path@) is None,
        },
{
    let ghost rv = view_routes(routes@);
    let mut i: usize = 0;
    while i < routes.len()
        invariant
            0 <= i <= routes@.len(),
            rv == view_routes(routes@),
            find_in(rv, method, request_path@, i as nat) is None,
        decreases routes@.len() - i,
    {
        let route = &routes[i];
        if route.method == method {
            match match_path(route.pattern.as_str(), request_path) {
                Some(params) => {
                    assert(find_in(rv, method, request_path@, (i + 1) as nat) == Some(
                        (route.handler, view_pairs(params@)),
                    ));
                    proof {
                        lemma_find_in_stable(rv, method, request_path@, (i + 1) as nat, rv.len());
                    }
                    return Some((route.handler, params));
                },
                None => {},
            }
        }
        i = i + 1;
    }
    None
}

/// Once a route is found among the first `n`, looking further finds the same.
pub proof fn lemma_find_in_stable(
    routes: Seq<(Method, Seq<char>, Handler)>,
    m: Method,
    path: Seq<char>,
    n: nat,
    k: nat,
)
    requires
        n <= k,
        find_in(routes, m, path, n) is Some,
    ensures
        find_in(routes, m, path, k) == find_in(routes, m, path, n),
    decreases k - n,
{
    if n < k {
        lemma_find_in_stable(routes, m, path, n, (k - 1) as nat);
    }
}

} // verus!
