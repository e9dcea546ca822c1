use macsvc::db_auth::{create_user, get_user_username, verify, AuthDb};
use macsvc::error::ServiceError;
use macsvc::password::hash_password;

fn register(db: &mut AuthDb, student_id: &str, name: &str, username: &str, password: &str) -> Result<i64, ServiceError> {
    create_user(db, student_id.to_string(), name.to_string(), username.to_string(), password.to_string())
        .map(|user| user.id)
}

#[test]
fn a_registered_user_verifies_with_the_password() {
    let mut db = AuthDb::new();
    assert_eq!(register(&mut db, "100200", "Ada Lovelace", "ada", "correct horse"), Ok(1));
    assert!(verify(&db, "ada", "correct horse"));
    assert!(!verify(&db, "ada", "correct horsf"));
    assert!(!verify(&db, "ada", ""));
    assert!(!verify(&db, "bob", "correct horse"));
}

#[test]
fn the_stored_hash_is_a_salted_argon2_string() {
    let mut db = AuthDb::new();
    register(&mut db, "100200", "Ada Lovelace", "ada", "correct horse").unwrap();
    register(&mut db, "100201", "Bob Builder", "bob", "correct horse").unwrap();
    let ada = get_user_username(&db, "ada").unwrap();
    let bob = get_user_username(&db, "bob").unwrap();
    assert!(ada.pass_hash.starts_with("$argon2id$v=19$"));
    assert_ne!(ada.pass_hash, "correct horse");
    assert_ne!(ada.pass_hash, bob.pass_hash);
    assert_eq!(ada.score, 0);
    assert_eq!(ada.lifetime, 0);
    assert_eq!(ada.full_name, "Ada Lovelace");
    assert_eq!(ada.student_id, "100200");
}

#[test]
fn hashing_twice_gives_two_hashes() {
    let first = hash_password("secret").unwrap();
    let second = hash_password("secret").unwrap();
    assert_ne!(first, second);
    assert_ne!(first, "secret");
}

#[test]
fn an_empty_field_is_weak_input() {
    let mut db = AuthDb::new();
    assert_eq!(register(&mut db, "", "Ada", "ada", "pw"), Err(ServiceError::WeakInput));
    assert_eq!(register(&mut db, "100", "", "ada", "pw"), Err(ServiceError::WeakInput));
    assert_eq!(register(&mut db, "100", "Ada", "", "pw"), Err(ServiceError::WeakInput));
    assert_eq!(register(&mut db, "100", "Ada", "ada", ""), Err(ServiceError::WeakInput));
    assert_eq!(db.rows().len(), 0);
    assert_eq!(db.next_user_id(), 1);
}

#[test]
fn a_taken_username_is_turned_down_at_registration() {
    let mut db = AuthDb::new();
    register(&mut db, "100", "Ada", "ada", "pw").unwrap();
    assert_eq!(register(&mut db, "101", "Eve", "ada", "pw2"), Err(ServiceError::UsernameTaken));
    assert_eq!(register(&mut db, "100", "Eve", "eve", "pw2"), Err(ServiceError::UsernameTaken));
    assert!(verify(&db, "ada", "pw"));
    assert!(!verify(&db, "ada", "pw2"));
    assert_eq!(db.rows().len(), 1);
}

#[test]
fn a_hash_that_is_no_hash_matches_nothing() {
    let mut db = AuthDb::new();
    macsvc::db_auth::create_user_entry(
        &mut db,
        "100".to_string(),
        "ada".to_string(),
        "Ada".to_string(),
        "not a hash".to_string(),
    )
    .unwrap();
    assert!(!verify(&db, "ada", "not a hash"));
}
