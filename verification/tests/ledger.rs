use macsvc::db_auth::{
    create_user_entry, execute_manage_user, execute_scores, get_user_id, get_user_student_id, get_user_username,
    update_points, AuthData, AuthDb, Role, User,
};
use macsvc::error::ServiceError;

fn ledger_row(id: i64, name: &str, score: i64, lifetime: i64) -> User {
    User {
        id,
        student_id: format!("s{}", id),
        username: name.to_string(),
        full_name: format!("{} Example", name),
        pass_hash: "hash".to_string(),
        lifetime,
        score,
        data: String::new(),
    }
}

fn ledger_with(rows: Vec<User>) -> AuthDb {
    AuthDb::from_rows(rows, 1000).unwrap()
}

#[test]
fn reward_raises_score_and_lifetime() {
    let mut db = ledger_with(vec![ledger_row(1, "ada", 10, 500)]);
    assert_eq!(update_points(&mut db, 1, 20), Ok(true));
    let user = get_user_id(&db, 1).unwrap();
    assert_eq!(user.score, 30);
    assert_eq!(user.lifetime, 520);
}

#[test]
fn spend_lowers_score_and_keeps_lifetime() {
    let mut db = ledger_with(vec![ledger_row(1, "ada", 100, 500)]);
    assert_eq!(update_points(&mut db, 1, -100), Ok(true));
    let user = get_user_id(&db, 1).unwrap();
    assert_eq!(user.score, 0);
    assert_eq!(user.lifetime, 500);
}

#[test]
fn spend_beyond_balance_is_refused() {
    let mut db = ledger_with(vec![ledger_row(1, "ada", 50, 50)]);
    assert_eq!(update_points(&mut db, 1, -100), Ok(false));
    let user = get_user_id(&db, 1).unwrap();
    assert_eq!(user.score, 50);
    assert_eq!(user.lifetime, 50);
}

#[test]
fn adjusting_by_nothing_changes_nothing() {
    let mut db = ledger_with(vec![ledger_row(1, "ada", 50, 70)]);
    assert_eq!(update_points(&mut db, 1, 0), Ok(true));
    assert_eq!(get_user_id(&db, 1).unwrap(), ledger_row(1, "ada", 50, 70));
}

#[test]
fn adjusting_an_unknown_user_is_not_found() {
    let mut db = AuthDb::new();
    assert_eq!(update_points(&mut db, 7, 5), Err(ServiceError::NotFound));
}

#[test]
fn totals_that_cannot_be_stored_are_a_persistence_failure() {
    let mut db = ledger_with(vec![ledger_row(1, "ada", 5, i64::MAX - 3)]);
    assert_eq!(update_points(&mut db, 1, 4), Err(ServiceError::PersistenceFailure));
    assert_eq!(get_user_id(&db, 1).unwrap(), ledger_row(1, "ada", 5, i64::MAX - 3));
    assert_eq!(update_points(&mut db, 1, 3), Ok(true));
    assert_eq!(get_user_id(&db, 1).unwrap().lifetime, i64::MAX);
}

#[test]
fn the_largest_spend_is_refused_without_overflow() {
    let mut db = ledger_with(vec![ledger_row(1, "ada", i64::MAX, i64::MAX)]);
    assert_eq!(update_points(&mut db, 1, i64::MIN), Ok(false));
    assert_eq!(update_points(&mut db, 1, -i64::MAX), Ok(true));
    assert_eq!(get_user_id(&db, 1).unwrap().score, 0);
}

#[test]
fn only_the_named_user_is_adjusted() {
    let mut db = ledger_with(vec![ledger_row(1, "ada", 10, 10), ledger_row(2, "bob", 20, 20)]);
    assert_eq!(update_points(&mut db, 2, 5), Ok(true));
    assert_eq!(get_user_id(&db, 1).unwrap(), ledger_row(1, "ada", 10, 10));
    assert_eq!(get_user_id(&db, 2).unwrap(), ledger_row(2, "bob", 25, 25));
}

#[test]
fn score_stays_at_or_above_zero_and_lifetime_never_falls() {
    let mut db = ledger_with(vec![ledger_row(1, "ada", 0, 0), ledger_row(2, "bob", 3, 9)]);
    let steps: Vec<(i64, i64)> = vec![
        (1, 40), (1, -15), (2, -4), (1, -30), (2, 7), (1, -25), (3, 5), (2, -10), (1, 1), (2, -1000), (1, -1),
    ];
    let mut lifetimes = vec![0i64, 9];
    for (id, delta) in steps {
        let _ = update_points(&mut db, id, delta);
        for (k, user_id) in [1i64, 2].iter().enumerate() {
            let user = get_user_id(&db, *user_id).unwrap();
            assert!(user.score >= 0);
            assert!(user.lifetime >= lifetimes[k]);
            lifetimes[k] = user.lifetime;
        }
    }
    assert_eq!(get_user_id(&db, 1).unwrap().score, 0);
    assert_eq!(get_user_id(&db, 1).unwrap().lifetime, 41);
    assert_eq!(get_user_id(&db, 2).unwrap().score, 0);
    assert_eq!(get_user_id(&db, 2).unwrap().lifetime, 16);
}

#[test]
fn registration_hands_out_rising_ids() {
    let mut db = AuthDb::new();
    let ada = create_user_entry(&mut db, "100".to_string(), "ada".to_string(), "Ada".to_string(), "h1".to_string())
        .unwrap();
    let bob = create_user_entry(&mut db, "200".to_string(), "bob".to_string(), "Bob".to_string(), "h2".to_string())
        .unwrap();
    assert_eq!(ada.id, 1);
    assert_eq!(bob.id, 2);
    assert_eq!(ada.score, 0);
    assert_eq!(ada.lifetime, 0);
    assert_eq!(ada.data, "");
    assert_eq!(ada.pass_hash, "h1");
    assert_eq!(ada.role(), Role::Ordinary);
    assert_eq!(db.next_user_id(), 3);
    assert_eq!(get_user_username(&db, "bob").unwrap(), bob);
    assert_eq!(get_user_student_id(&db, "100").unwrap(), ada);
}

#[test]
fn a_taken_username_or_student_id_is_turned_down() {
    let mut db = AuthDb::new();
    create_user_entry(&mut db, "100".to_string(), "ada".to_string(), "Ada".to_string(), "h".to_string()).unwrap();
    assert_eq!(
        create_user_entry(&mut db, "101".to_string(), "ada".to_string(), "Other".to_string(), "h".to_string()),
        Err(ServiceError::UsernameTaken)
    );
    assert_eq!(
        create_user_entry(&mut db, "100".to_string(), "eve".to_string(), "Other".to_string(), "h".to_string()),
        Err(ServiceError::UsernameTaken)
    );
    assert_eq!(db.rows().len(), 1);
    assert_eq!(db.next_user_id(), 2);
}

#[test]
fn registration_fails_when_no_id_is_left() {
    let mut db = AuthDb::from_rows(Vec::new(), i64::MAX).unwrap();
    assert_eq!(
        create_user_entry(&mut db, "100".to_string(), "ada".to_string(), "Ada".to_string(), "h".to_string()),
        Err(ServiceError::PersistenceFailure)
    );
    assert_eq!(db.rows().len(), 0);
}

#[test]
fn an_id_is_not_handed_out_again_after_a_deletion() {
    let mut db = AuthDb::new();
    let ada = create_user_entry(&mut db, "100".to_string(), "ada".to_string(), "Ada".to_string(), "h".to_string())
        .unwrap();
    assert_eq!(execute_manage_user(&mut db, ada.id), "{\"status\":3206}");
    assert_eq!(get_user_id(&db, ada.id), Err(ServiceError::NotFound));
    let bob = create_user_entry(&mut db, "100".to_string(), "ada".to_string(), "Ada".to_string(), "h".to_string())
        .unwrap();
    assert_eq!(bob.id, 2);
}

#[test]
fn deleting_an_unknown_user_changes_nothing() {
    let mut db = ledger_with(vec![ledger_row(1, "ada", 10, 10), ledger_row(2, "bob", 20, 20)]);
    assert_eq!(execute_manage_user(&mut db, 9), "{\"status\":3206}");
    assert_eq!(db.rows(), vec![ledger_row(1, "ada", 10, 10), ledger_row(2, "bob", 20, 20)]);
    assert_eq!(execute_manage_user(&mut db, 1), "{\"status\":3206}");
    assert_eq!(db.rows(), vec![ledger_row(2, "bob", 20, 20)]);
}

#[test]
fn lookups_of_unknown_users_are_not_found() {
    let db = ledger_with(vec![ledger_row(1, "ada", 10, 10)]);
    assert_eq!(get_user_id(&db, 2), Err(ServiceError::NotFound));
    assert_eq!(get_user_username(&db, "bob"), Err(ServiceError::NotFound));
    assert_eq!(get_user_student_id(&db, "s2"), Err(ServiceError::NotFound));
    assert_eq!(get_user_student_id(&db, "s1").unwrap().id, 1);
}

#[test]
fn stored_rows_that_are_no_valid_table_are_refused() {
    assert!(AuthDb::from_rows(vec![ledger_row(1, "ada", -1, 10)], 5).is_none());
    assert!(AuthDb::from_rows(vec![ledger_row(1, "ada", 1, -10)], 5).is_none());
    assert!(AuthDb::from_rows(vec![ledger_row(5, "ada", 1, 10)], 5).is_none());
    assert!(AuthDb::from_rows(vec![ledger_row(1, "ada", 1, 10), ledger_row(1, "bob", 1, 1)], 5).is_none());
    assert!(AuthDb::from_rows(vec![ledger_row(1, "ada", 1, 10), ledger_row(2, "ada", 1, 1)], 5).is_none());
    let mut twin = ledger_row(2, "bob", 1, 1);
    twin.student_id = "s1".to_string();
    assert!(AuthDb::from_rows(vec![ledger_row(1, "ada", 1, 10), twin], 5).is_none());
    let db = AuthDb::from_rows(vec![ledger_row(1, "ada", 1, 10), ledger_row(4, "bob", 0, 0)], 5).unwrap();
    assert_eq!(db.next_user_id(), 5);
    assert_eq!(db.rows().len(), 2);
}

#[test]
fn the_leaderboard_falls_by_lifetime() {
    let db = ledger_with(vec![
        ledger_row(1, "ada", 10, 50),
        ledger_row(2, "bob", 70, 700),
        ledger_row(3, "cy", 0, 50),
        ledger_row(4, "dee", 5, 120),
    ]);
    let board = execute_scores(&db, AuthData::GetUserScores);
    let ids: Vec<i64> = board.iter().map(|line| line.id).collect();
    assert_eq!(ids, vec![2, 4, 1, 3]);
    assert_eq!(board[0].username, "bob");
    assert_eq!(board[0].lifetime, 700);
    assert_eq!(board[0].score, 70);
    assert_eq!(execute_scores(&AuthDb::new(), AuthData::GetUserScores).len(), 0);
}

#[test]
fn the_word_admin_marks_an_administrator() {
    let mut user = ledger_row(1, "ada", 0, 0);
    assert_eq!(user.role(), Role::Ordinary);
    user.data = "admin".to_string();
    assert_eq!(user.role(), Role::Admin);
    user.data = "Admin".to_string();
    assert_eq!(user.role(), Role::Ordinary);
}
