use mail_capture::method::Method;
use mail_capture::router::{build_routes, find_handler, match_path, Handler};

fn pair(a: &str, b: &str) -> (String, String) {
    (a.to_string(), b.to_string())
}

#[test]
fn pattern_binds_mail_id() {
    assert_eq!(match_path("/mails/:mail_id", "/mails/42"), Some(vec![pair("mail_id", "42")]));
}

#[test]
fn pattern_rejects_extra_segment() {
    assert_eq!(match_path("/mails/:mail_id", "/mails/42/x"), None);
}

#[test]
fn literal_segments_must_be_equal() {
    assert_eq!(match_path("/mails", "/mails"), Some(vec![]));
    assert_eq!(match_path("/mails", "/mail"), None);
    assert_eq!(match_path("/mails", "/Mails"), None);
}

#[test]
fn one_trailing_separator_is_ignored() {
    assert_eq!(match_path("/mails", "/mails/"), Some(vec![]));
    assert_eq!(match_path("/mails/", "/mails"), Some(vec![]));
    assert_eq!(match_path("/mails/:mail_id", "/mails/7/"), Some(vec![pair("mail_id", "7")]));
}

#[test]
fn several_parameters_bind_in_order() {
    assert_eq!(
        match_path("/a/:x/b/:y", "/a/1/b/2"),
        Some(vec![pair("x", "1"), pair("y", "2")])
    );
}

#[test]
fn method_tokens_ignore_case() {
    assert_eq!(Method::from_str("GET"), Some(Method::GET));
    assert_eq!(Method::from_str("get"), Some(Method::GET));
    assert_eq!(Method::from_str("Post"), Some(Method::POST));
    assert_eq!(Method::from_str("put"), Some(Method::PUT));
    assert_eq!(Method::from_str("dElEtE"), Some(Method::DELETE));
    assert_eq!(Method::from_str("PATCH"), None);
    assert_eq!(Method::from_str(""), None);
    assert_eq!(Method::from_str("GETS"), None);
}

#[test]
fn first_matching_route_wins() {
    let routes = build_routes();
    assert_eq!(routes.len(), 3);
    let found = find_handler(&routes, Method::GET, "/mails/9");
    assert_eq!(found, Some((Handler::GetMail, vec![pair("mail_id", "9")])));
    let found = find_handler(&routes, Method::DELETE, "/mails/9");
    assert_eq!(found, Some((Handler::DeleteMail, vec![pair("mail_id", "9")])));
    let found = find_handler(&routes, Method::GET, "/mails");
    assert_eq!(found, Some((Handler::ListMails, vec![])));
}

#[test]
fn no_route_for_method_or_path() {
    let routes = build_routes();
    assert_eq!(find_handler(&routes, Method::POST, "/mails"), None);
    assert_eq!(find_handler(&routes, Method::DELETE, "/mails"), None);
    assert_eq!(find_handler(&routes, Method::GET, "/unknown"), None);
}
