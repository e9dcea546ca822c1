use macsvc::changes::changed_rows;
use macsvc::db_auth::{create_user, get_user_username, User};
use macsvc::db_auth::AuthDb;
use macsvc::db_main::Ticket;

fn stored(id: i64, name: &str, score: i64) -> User {
    User {
        id,
        student_id: format!("n{}", id),
        username: name.to_string(),
        full_name: "Stored".to_string(),
        pass_hash: "hash".to_string(),
        lifetime: score,
        score,
        data: String::new(),
    }
}

fn slip(id: i64, expended: bool) -> Ticket {
    Ticket { id, event_id: 1, holder_id: id, single_entry: true, expended, creation_date: 9 }
}

#[test]
fn unchanged_tables_need_no_write() {
    let rows = vec![stored(1, "ada", 5), stored(2, "bob", 7)];
    let same = vec![stored(1, "ada", 5), stored(2, "bob", 7)];
    assert_eq!(changed_rows(&rows, &same), (Vec::<i64>::new(), Vec::<User>::new()));
    assert_eq!(changed_rows(&Vec::<User>::new(), &Vec::<User>::new()), (Vec::new(), Vec::new()));
}

#[test]
fn rows_that_left_are_deleted_and_new_or_changed_rows_written() {
    let before = vec![stored(1, "ada", 5), stored(2, "bob", 7), stored(3, "cy", 0), stored(4, "dee", 1)];
    let after = vec![stored(1, "ada", 5), stored(3, "cy", 9), stored(5, "eve", 0)];
    assert_eq!(changed_rows(&before, &after), (vec![2, 4], vec![stored(3, "cy", 9), stored(5, "eve", 0)]));
    assert_eq!(changed_rows(&after, &before).0, vec![5]);
    assert_eq!(
        changed_rows(&after, &before).1,
        vec![stored(2, "bob", 7), stored(3, "cy", 0), stored(4, "dee", 1)]
    );
}

#[test]
fn a_change_in_any_field_is_written() {
    let before = vec![stored(1, "ada", 5)];
    let mut renamed = stored(1, "ada", 5);
    renamed.full_name = "Other".to_string();
    let mut promoted = stored(1, "ada", 5);
    promoted.data = "admin".to_string();
    assert_eq!(changed_rows(&before, &vec![renamed]).1.len(), 1);
    assert_eq!(changed_rows(&before, &vec![promoted]).1.len(), 1);
    assert_eq!(changed_rows(&before, &vec![stored(1, "ada", 5)]).1.len(), 0);
}

#[test]
fn a_redeemed_ticket_is_written_back() {
    let before = vec![slip(1, false), slip(2, false)];
    let after = vec![slip(1, false), slip(2, true), slip(3, false)];
    assert_eq!(changed_rows(&before, &after), (Vec::<i64>::new(), vec![slip(2, true), slip(3, false)]));
    assert_eq!(changed_rows(&after, &Vec::new()), (vec![1, 2, 3], Vec::new()));
}

#[test]
fn ordinary_passwords_are_always_hashed() {
    let mut db = AuthDb::new();
    let long: String = "p\u{e4}ss \u{1f511} ".repeat(2000);
    for (k, password) in ["a", " ", "correct horse battery staple", long.as_str()].iter().enumerate() {
        let name = format!("user{}", k);
        let made = create_user(&mut db, format!("{}", k), "Name".to_string(), name.clone(), password.to_string());
        assert!(made.is_ok());
        let hash = get_user_username(&db, &name).unwrap().pass_hash;
        let salt = hash.split('$').nth(4).unwrap().to_string();
        assert_eq!(salt.len(), 22);
        assert!(salt.chars().all(|c| c.is_ascii_alphanumeric() || c == '+' || c == '/'));
        assert!("AQgw".contains(salt.chars().last().unwrap()));
    }
    assert_eq!(db.rows().len(), 4);
}
