use rustaceans::models::{NewRustacean, Rustacean};
use rustaceans::repository::{RustaceanRepository, StoreError};

fn new_one(name: &str, email: &str) -> NewRustacean {
    NewRustacean { name: name.to_string(), email: email.to_string() }
}

#[test]
fn create_then_find_returns_the_same_record() {
    let mut repo = RustaceanRepository::new();
    let made = repo.create(new_one("Ferris", "ferris@rust.org"), "2024-01-01 00:00:00".to_string()).ok().unwrap();
    assert_eq!(made.id, 1);
    let found = repo.find(made.id).ok().unwrap();
    assert_eq!(found.id, made.id);
    assert_eq!(found.name, "Ferris");
    assert_eq!(found.email, "ferris@rust.org");
    assert_eq!(found.created_at, made.created_at);
    let second = repo.create(new_one("Crab", "crab@rust.org"), "t2".to_string()).ok().unwrap();
    assert_eq!(second.id, 2);
}

#[test]
fn find_of_missing_id_is_not_found() {
    let repo = RustaceanRepository::new();
    assert!(matches!(repo.find(7), Err(StoreError::NotFound)));
}

#[test]
fn delete_twice_gives_not_found() {
    let mut repo = RustaceanRepository::new();
    let made = repo.create(new_one("a", "a@x"), "t".to_string()).ok().unwrap();
    let other = repo.create(new_one("b", "b@x"), "t".to_string()).ok().unwrap();
    assert!(repo.delete(made.id).is_ok());
    assert!(matches!(repo.delete(made.id), Err(StoreError::NotFound)));
    assert!(matches!(repo.find(made.id), Err(StoreError::NotFound)));
    assert_eq!(repo.find(other.id).ok().unwrap().name, "b");
    assert_eq!(repo.find_all(10).len(), 1);
}

#[test]
fn find_all_never_exceeds_the_limit() {
    let mut repo = RustaceanRepository::new();
    for i in 0..5 {
        repo.create(new_one(&format!("n{}", i), "e"), "t".to_string()).ok().unwrap();
    }
    let three = repo.find_all(3);
    assert_eq!(three.len(), 3);
    assert_eq!(three[0].name, "n0");
    assert_eq!(three[2].name, "n2");
    assert_eq!(repo.find_all(100).len(), 5);
    assert_eq!(repo.find_all(0).len(), 0);
}

#[test]
fn save_keeps_id_and_creation_time() {
    let mut repo = RustaceanRepository::new();
    let made = repo.create(new_one("old", "old@x"), "created".to_string()).ok().unwrap();
    let payload = Rustacean {
        id: 99,
        name: "new".to_string(),
        email: "new@x".to_string(),
        created_at: "forged".to_string(),
    };
    let saved = repo.save(made.id, payload).ok().unwrap();
    assert_eq!(saved.id, made.id);
    assert_eq!(saved.created_at, "created");
    assert_eq!(saved.name, "new");
    let found = repo.find(made.id).ok().unwrap();
    assert_eq!(found.id, made.id);
    assert_eq!(found.created_at, "created");
    assert_eq!(found.email, "new@x");
    assert!(matches!(repo.find(99), Err(StoreError::NotFound)));
}

#[test]
fn save_of_missing_id_is_not_found() {
    let mut repo = RustaceanRepository::new();
    let payload = Rustacean { id: 1, name: "n".to_string(), email: "e".to_string(), created_at: "c".to_string() };
    assert!(matches!(repo.save(1, payload), Err(StoreError::NotFound)));
    assert_eq!(repo.find_all(10).len(), 0);
}
