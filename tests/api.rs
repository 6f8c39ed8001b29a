use rustaceans::handlers::{
    create_rustacean, delete_rustacean, get_rustaceans, update_rustacean, view_rustacean,
};
use rustaceans::models::{NewRustacean, Rustacean};
use rustaceans::repository::{RustaceanRepository, StoreError};
use rustaceans::responses::{
    classify, error_response, not_found, store_error_response, success_code, unauthorized,
    unprocessable_entity, Endpoint, ErrorKind,
};

const CREDENTIALS: &str = "Basic dXNlcjpwYXNz";

fn ferris() -> NewRustacean {
    NewRustacean { name: "Ferris".to_string(), email: "ferris@rust.org".to_string() }
}

#[test]
fn post_with_credentials_creates_a_record() {
    let mut repo = RustaceanRepository::new();
    let made = create_rustacean(Some(CREDENTIALS), &mut repo, ferris(), "2024-05-01 12:00:00".to_string())
        .ok()
        .unwrap();
    assert!(made.id > 0);
    assert_eq!(made.name, "Ferris");
    assert_eq!(made.email, "ferris@rust.org");
    assert!(!made.created_at.is_empty());
}

#[test]
fn post_without_credentials_is_unauthorized() {
    let mut repo = RustaceanRepository::new();
    let e = create_rustacean(None, &mut repo, ferris(), "now".to_string()).err().unwrap();
    assert_eq!(e.code, 401);
    assert_eq!(e.body.status, "error");
    assert_eq!(e.body.reason, "Unauthorized.");
    assert_eq!(repo.find_all(10).len(), 0);
}

#[test]
fn get_of_missing_id_is_not_found() {
    let repo = RustaceanRepository::new();
    let e = view_rustacean(Some(CREDENTIALS), &repo, 42).err().unwrap();
    assert_eq!(e.code, 404);
    assert_eq!(e.body.status, "error");
    assert_eq!(e.body.reason, "Resource was not found.");
}

#[test]
fn endpoints_run_in_sequence() {
    let mut repo = RustaceanRepository::new();
    let made = create_rustacean(Some(CREDENTIALS), &mut repo, ferris(), "now".to_string()).ok().unwrap();
    assert_eq!(get_rustaceans(Some(CREDENTIALS), &repo).ok().unwrap().len(), 1);
    assert_eq!(get_rustaceans(None, &repo).err().unwrap().code, 401);
    let payload = Rustacean { id: 0, name: "F".to_string(), email: "f@x".to_string(), created_at: String::new() };
    let saved = update_rustacean(Some(CREDENTIALS), &mut repo, made.id, payload).ok().unwrap();
    assert_eq!(saved.id, made.id);
    assert_eq!(saved.created_at, "now");
    assert_eq!(view_rustacean(Some(CREDENTIALS), &repo, made.id).ok().unwrap().name, "F");
    assert!(delete_rustacean(Some(CREDENTIALS), &mut repo, made.id).is_ok());
    assert_eq!(delete_rustacean(Some(CREDENTIALS), &mut repo, made.id).err().unwrap().code, 404);
    let payload = Rustacean { id: 0, name: "G".to_string(), email: "g@x".to_string(), created_at: String::new() };
    assert_eq!(update_rustacean(Some(CREDENTIALS), &mut repo, made.id, payload).err().unwrap().code, 404);
}

#[test]
fn error_kinds_map_to_status_and_reason() {
    let r = error_response(ErrorKind::AuthenticationRejected);
    assert_eq!((r.code, r.body.reason.as_str()), (401, "Unauthorized."));
    let r = error_response(ErrorKind::NotFound);
    assert_eq!((r.code, r.body.reason.as_str()), (404, "Resource was not found."));
    let r = error_response(ErrorKind::StorageFailure("disk I/O error".to_string()));
    assert_eq!((r.code, r.body.reason.as_str()), (500, "disk I/O error"));
    let r = error_response(ErrorKind::PayloadInvalid);
    assert_eq!((r.code, r.body.reason.as_str()), (422, "Unprocessable entity."));
    assert_eq!(r.body.status, "error");
}

#[test]
fn store_errors_are_classified() {
    assert!(matches!(classify(StoreError::NotFound), ErrorKind::NotFound));
    assert!(matches!(classify(StoreError::Failure("x".to_string())), ErrorKind::StorageFailure(m) if m == "x"));
    let r = store_error_response(StoreError::Failure("locked".to_string()));
    assert_eq!((r.code, r.body.reason.as_str()), (500, "locked"));
    assert_eq!(store_error_response(StoreError::NotFound).code, 404);
}

#[test]
fn fixed_envelopes() {
    assert_eq!(not_found().reason, "Resource was not found.");
    assert_eq!(unauthorized().reason, "Unauthorized.");
    assert_eq!(unprocessable_entity().reason, "Unprocessable entity.");
    assert_eq!(unauthorized().status, "error");
}

#[test]
fn success_codes() {
    assert_eq!(success_code(Endpoint::Delete), 204);
    assert_eq!(success_code(Endpoint::List), 200);
    assert_eq!(success_code(Endpoint::Create), 200);
}
