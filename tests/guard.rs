use rustaceans::auth::{from_credential_text, word_spans, BasicAuth};
use rustaceans::responses::authenticate;

fn parts(header: &str) -> Option<(String, String)> {
    BasicAuth::from_authorization_header(header).map(|a| (a.username, a.password))
}

#[test]
fn well_formed_header_gives_credentials() {
    assert_eq!(parts("Basic dXNlcjpwYXNz"), Some(("user".to_string(), "pass".to_string())));
}

#[test]
fn surrounding_white_space_is_ignored() {
    assert_eq!(
        parts("  Basic \t ZmVycmlzOmNyYWI=  "),
        Some(("ferris".to_string(), "crab".to_string()))
    );
}

#[test]
fn other_scheme_is_rejected() {
    assert_eq!(parts("Bearer dXNlcjpwYXNz"), None);
    assert_eq!(parts("basic dXNlcjpwYXNz"), None);
}

#[test]
fn wrong_word_count_is_rejected() {
    assert_eq!(parts(""), None);
    assert_eq!(parts("Basic"), None);
    assert_eq!(parts("Basic dXNlcjpwYXNz extra"), None);
}

#[test]
fn non_base64_token_is_rejected() {
    assert_eq!(parts("Basic !!!!"), None);
    assert_eq!(parts("Basic dXNlcjpwYXN"), None);
}

#[test]
fn non_utf8_payload_is_rejected() {
    assert_eq!(parts("Basic //46eA=="), None);
}

#[test]
fn colon_count_other_than_one_is_rejected() {
    assert_eq!(parts("Basic dXNlcnBhc3M="), None);
    assert_eq!(parts("Basic YTpiOmM="), None);
}

#[test]
fn lone_colon_gives_empty_credentials() {
    assert_eq!(parts("Basic Og=="), Some((String::new(), String::new())));
}

#[test]
fn credential_text_splits_on_its_colon() {
    let a = from_credential_text("ferris:crab").unwrap();
    assert_eq!(a.username, "ferris");
    assert_eq!(a.password, "crab");
    assert!(from_credential_text("a:b:c").is_none());
    assert!(from_credential_text("abc").is_none());
}

#[test]
fn word_spans_finds_each_word() {
    assert_eq!(word_spans("  ab c "), vec![(2, 4), (5, 6)]);
    assert_eq!(word_spans(""), vec![]);
    assert_eq!(word_spans("\u{3000}x\u{a0}y"), vec![(1, 2), (3, 4)]);
}

#[test]
fn missing_header_is_unauthorized() {
    let e = authenticate(None).err().unwrap();
    assert_eq!(e.code, 401);
    assert_eq!(e.body.status, "error");
    assert_eq!(e.body.reason, "Unauthorized.");
    let e = authenticate(Some("Basic ???")).err().unwrap();
    assert_eq!(e.code, 401);
    let a = authenticate(Some("Basic dXNlcjpwYXNz")).ok().unwrap();
    assert_eq!(a.username, "user");
}
