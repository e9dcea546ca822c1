use macsvc::db_auth::{create_user, update_points, AuthDb, User};
use macsvc::error::ServiceError;
use macsvc::db_auth::get_user_username;
use macsvc::service::{auth_get_admin, auth_get_whoami, authenticate, delete_account, login, logout};
use macsvc::session::Sessions;

fn member(id: i64, name: &str) -> User {
    User {
        id,
        student_id: format!("{}", 5000 + id),
        username: name.to_string(),
        full_name: "Member".to_string(),
        pass_hash: "hash".to_string(),
        lifetime: 10,
        score: 5,
        data: String::new(),
    }
}

#[test]
fn a_token_resolves_to_the_user_it_was_bound_to() {
    let mut sessions = Sessions::new();
    assert_eq!(sessions.resolve("t1"), Err(ServiceError::Unauthenticated));
    sessions.establish("t1".to_string(), member(1, "ada"));
    sessions.establish("t2".to_string(), member(2, "bob"));
    assert_eq!(sessions.resolve("t1"), Ok(member(1, "ada")));
    assert_eq!(sessions.resolve("t2"), Ok(member(2, "bob")));
    assert_eq!(sessions.resolve("t3"), Err(ServiceError::Unauthenticated));
    assert_eq!(sessions.resolve(""), Err(ServiceError::Unauthenticated));
}

#[test]
fn establishing_again_overwrites() {
    let mut sessions = Sessions::new();
    sessions.establish("t1".to_string(), member(1, "ada"));
    sessions.establish("t2".to_string(), member(2, "bob"));
    sessions.establish("t1".to_string(), member(3, "cy"));
    assert_eq!(sessions.resolve("t1"), Ok(member(3, "cy")));
    assert_eq!(sessions.resolve("t2"), Ok(member(2, "bob")));
}

#[test]
fn a_revoked_token_no_longer_resolves() {
    let mut sessions = Sessions::new();
    sessions.establish("t1".to_string(), member(1, "ada"));
    sessions.establish("t2".to_string(), member(2, "bob"));
    sessions.establish("t3".to_string(), member(3, "cy"));
    sessions.revoke("t2");
    sessions.revoke("unknown");
    assert_eq!(sessions.resolve("t2"), Err(ServiceError::Unauthenticated));
    assert_eq!(sessions.resolve("t1"), Ok(member(1, "ada")));
    assert_eq!(sessions.resolve("t3"), Ok(member(3, "cy")));
    sessions.revoke("t2");
    sessions.revoke("t1");
    assert_eq!(sessions.resolve("t1"), Err(ServiceError::Unauthenticated));
}

#[test]
fn a_request_without_a_token_is_unauthenticated() {
    let mut sessions = Sessions::new();
    sessions.establish("t1".to_string(), member(1, "ada"));
    assert_eq!(authenticate(&sessions, None), Err(ServiceError::Unauthenticated));
    assert_eq!(authenticate(&sessions, Some("t9".to_string())), Err(ServiceError::Unauthenticated));
    assert_eq!(authenticate(&sessions, Some("t1".to_string())), Ok(member(1, "ada")));
}

#[test]
fn login_binds_a_snapshot_that_later_adjustments_do_not_reach() {
    let mut auth = AuthDb::new();
    let ada = create_user(
        &mut auth,
        "100".to_string(),
        "Ada".to_string(),
        "ada".to_string(),
        "pw".to_string(),
    )
    .unwrap();
    let mut sessions = Sessions::new();
    assert_eq!(
        login(&auth, &mut sessions, "t1".to_string(), "ada", "wrong", false),
        Err(ServiceError::Unauthenticated)
    );
    assert_eq!(
        login(&auth, &mut sessions, "t1".to_string(), "eve", "pw", false),
        Err(ServiceError::Unauthenticated)
    );
    assert_eq!(sessions.resolve("t1"), Err(ServiceError::Unauthenticated));
    assert_eq!(
        login(&auth, &mut sessions, "t1".to_string(), "ada", "pw", true),
        Err(ServiceError::Unauthorized)
    );
    assert_eq!(sessions.resolve("t1"), Err(ServiceError::Unauthenticated));
    let user = login(&auth, &mut sessions, "t1".to_string(), "ada", "pw", false).unwrap();
    assert_eq!(user, ada);
    assert_eq!(update_points(&mut auth, ada.id, 25), Ok(true));
    let snapshot = sessions.resolve("t1").unwrap();
    assert_eq!(snapshot.score, 0);
    let now = auth_get_whoami(&auth, &snapshot).unwrap();
    assert_eq!(now.id, ada.id);
    assert_eq!(now.score, 25);
    assert_eq!(now.lifetime, 25);
    logout(&mut sessions, "t1");
    assert_eq!(sessions.resolve("t1"), Err(ServiceError::Unauthenticated));
}

#[test]
fn an_administrator_may_log_in_as_one() {
    let mut boss = member(1, "boss");
    boss.data = "admin".to_string();
    boss.pass_hash = macsvc::password::hash_password("pw").unwrap();
    let auth = AuthDb::from_rows(vec![boss], 2).unwrap();
    let mut sessions = Sessions::new();
    let user = login(&auth, &mut sessions, "t1".to_string(), "boss", "pw", true).unwrap();
    assert!(auth_get_admin(&user));
    assert!(!auth_get_admin(&member(2, "ada")));
    assert_eq!(sessions.resolve("t1").unwrap().username, "boss");
}

#[test]
fn whoami_of_a_deleted_account_is_not_found() {
    let auth = AuthDb::new();
    assert_eq!(auth_get_whoami(&auth, &member(1, "ada")).map(|p| p.id), Err(ServiceError::NotFound));
}

fn two_accounts() -> (AuthDb, Sessions) {
    let mut auth = AuthDb::new();
    create_user(&mut auth, "100".to_string(), "Ada".to_string(), "ada".to_string(), "pw-a".to_string()).unwrap();
    create_user(&mut auth, "200".to_string(), "Bob".to_string(), "bob".to_string(), "pw-b".to_string()).unwrap();
    let mut sessions = Sessions::new();
    login(&auth, &mut sessions, "ta".to_string(), "ada", "pw-a", false).unwrap();
    login(&auth, &mut sessions, "tb".to_string(), "bob", "pw-b", false).unwrap();
    (auth, sessions)
}

#[test]
fn an_account_is_deleted_by_its_owner_with_the_password() {
    let (mut auth, mut sessions) = two_accounts();
    assert_eq!(
        delete_account(&mut auth, &mut sessions, Some("ta".to_string()), "ada", "pw-a"),
        Ok("{\"status\":3206}".to_string())
    );
    assert_eq!(get_user_username(&auth, "ada"), Err(ServiceError::NotFound));
    assert!(get_user_username(&auth, "bob").is_ok());
    assert_eq!(sessions.resolve("ta"), Err(ServiceError::Unauthenticated));
    assert!(sessions.resolve("tb").is_ok());
}

#[test]
fn nobody_else_deletes_an_account() {
    let (mut auth, mut sessions) = two_accounts();
    assert_eq!(
        delete_account(&mut auth, &mut sessions, None, "ada", "pw-a"),
        Err(ServiceError::Unauthenticated)
    );
    assert_eq!(
        delete_account(&mut auth, &mut sessions, Some("tx".to_string()), "ada", "pw-a"),
        Err(ServiceError::Unauthenticated)
    );
    assert_eq!(
        delete_account(&mut auth, &mut sessions, Some("tb".to_string()), "ada", "pw-a"),
        Err(ServiceError::Unauthenticated)
    );
    assert_eq!(
        delete_account(&mut auth, &mut sessions, Some("ta".to_string()), "ada", "pw-b"),
        Err(ServiceError::Unauthenticated)
    );
    assert_eq!(auth.rows().len(), 2);
    assert!(sessions.resolve("ta").is_ok());
    assert!(sessions.resolve("tb").is_ok());
}
