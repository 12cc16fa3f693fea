use axum::http::{HeaderMap, HeaderValue};
use epoll_router::auth::{
    authenticate, authenticate_text, authorization_header, parse_keys, InvalidToken,
};

fn headers(authorization: &str) -> HeaderMap {
    let mut headers = HeaderMap::new();
    headers.insert("Authorization", HeaderValue::from_str(authorization).unwrap());
    headers
}

fn id_of(token: &str, configured: &str) -> Option<String> {
    authenticate(&headers(&format!("Bearer {token}")), &parse_keys(Some(configured), ""))
}

#[test]
fn configured_keys_are_read() {
    let keys = "client-a:token-a,client-b:token-b";
    assert_eq!(id_of("token-a", keys).as_deref(), Some("client-a"));
    assert_eq!(id_of("token-b", keys).as_deref(), Some("client-b"));
    assert_eq!(id_of("token-c", keys), None);
    assert_eq!(id_of("client-a", keys), None);
}

#[test]
fn the_default_counts_where_nothing_is_configured() {
    let keys = parse_keys(None, "local-client:dev-client-token");
    assert_eq!(authenticate_text("Bearer dev-client-token", &keys).as_deref(), Some("local-client"));
    let keys = parse_keys(Some(""), "local-client:dev-client-token");
    assert_eq!(authenticate_text("Bearer dev-client-token", &keys), None);
}

#[test]
fn entries_are_trimmed_and_those_without_a_colon_skipped() {
    let keys = " a : one , nonsense ,b:two:three,:empty-id,c:";
    assert_eq!(id_of("one", keys).as_deref(), Some("a"));
    assert_eq!(id_of("two:three", keys).as_deref(), Some("b"));
    assert_eq!(id_of("empty-id", keys).as_deref(), Some(""));
    assert_eq!(id_of("", keys).as_deref(), Some("c"));
    assert_eq!(id_of("nonsense", keys), None);
}

#[test]
fn the_later_of_two_entries_with_one_id_counts() {
    let keys = "a:old,b:other,a:new";
    assert_eq!(id_of("old", keys), None);
    assert_eq!(id_of("new", keys).as_deref(), Some("a"));
    assert_eq!(id_of("other", keys).as_deref(), Some("b"));
}

#[test]
fn a_configuration_is_read_back() {
    let listed = [("a", "1"), ("b", "2"), ("a", "3"), ("c d", "x:y")];
    let entries: Vec<String> = listed.iter().map(|(id, token)| format!("{id}:{token}")).collect();
    let keys = parse_keys(Some(&entries.join(",")), "");
    assert_eq!(authenticate_text("Bearer 1", &keys), None);
    assert_eq!(authenticate_text("Bearer 2", &keys).as_deref(), Some("b"));
    assert_eq!(authenticate_text("Bearer 3", &keys).as_deref(), Some("a"));
    assert_eq!(authenticate_text("Bearer x:y", &keys).as_deref(), Some("c d"));
}

#[test]
fn requests_without_a_bearer_token_are_nobodys() {
    let keys = parse_keys(Some("a:t"), "");
    assert_eq!(authenticate(&HeaderMap::new(), &keys), None);
    assert_eq!(authenticate(&headers("t"), &keys), None);
    assert_eq!(authenticate(&headers("Basic t"), &keys), None);
    assert_eq!(authenticate(&headers("bearer t"), &keys), None);
    assert_eq!(authenticate(&headers("Bearer  t"), &keys), None);
    assert_eq!(authenticate(&headers("Bearer t"), &keys).as_deref(), Some("a"));
}

#[test]
fn the_first_of_two_authorization_headers_counts() {
    let keys = parse_keys(Some("a:t,b:u"), "");
    let mut two = headers("Bearer t");
    two.append("authorization", HeaderValue::from_static("Bearer u"));
    assert_eq!(authenticate(&two, &keys).as_deref(), Some("a"));
}

#[test]
fn a_header_that_is_no_visible_ascii_is_nobodys() {
    let keys = parse_keys(Some("a:\u{e9}"), "");
    let mut hidden = HeaderMap::new();
    hidden.insert("authorization", authorization_header("\u{e9}").unwrap());
    assert_eq!(authenticate(&hidden, &keys), None);
    assert_eq!(authenticate_text("Bearer \u{e9}", &keys).as_deref(), Some("a"));
}

#[test]
fn a_header_made_from_a_token_presents_it() {
    let keys = parse_keys(None, "mock-worker:dev-worker-token");
    let value = authorization_header("dev-worker-token").unwrap();
    assert_eq!(value.as_bytes(), b"Bearer dev-worker-token");
    let mut made = HeaderMap::new();
    made.insert("authorization", value);
    assert_eq!(authenticate(&made, &keys).as_deref(), Some("mock-worker"));
}

#[test]
fn a_token_with_a_control_character_makes_no_header() {
    assert_eq!(authorization_header("a\nb").unwrap_err(), InvalidToken);
    assert_eq!(authorization_header("a\u{7f}").unwrap_err(), InvalidToken);
    assert!(authorization_header("a\tb").is_ok());
}
