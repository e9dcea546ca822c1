//! Accounts: identity records, the credential store and the points ledger.

use vstd::prelude::*;
use vstd::string::*;
use crate::error::ServiceError;
use crate::order::{falling, falling_by, insert_falling, lemma_falling_by_push, lemma_falling_by_sound};
use crate::password::{argon2_hash, argon2_verify, hash_password, password_fits, salt_shape, verify_hash};

verus! {

/// What a user may do.
#[derive(Clone, Copy, Debug, PartialEq, Eq, Structural)]
pub enum Role {
    Ordinary,
    Admin,
}

/// The role that the `data` field of a user record stands for.
pub open spec fn role_of(data: Seq<char>) -> Role {
    if data == "admin"@ {
        Role::Admin
    } else {
        Role::Ordinary
    }
}

/// An identity record with its point totals.
#[derive(Debug, PartialEq, Eq)]
pub struct User {
    pub id: i64,
    pub student_id: String,
    pub username: String,
    pub full_name: String,
    pub pass_hash: String,
    pub lifetime: i64,
    pub score: i64,
    pub data: String,
}

/// The mathematical value of a [`User`].
pub struct UserView {
    pub id: i64,
    pub student_id: Seq<char>,
    pub username: Seq<char>,
    pub full_name: Seq<char>,
    pub pass_hash: Seq<char>,
    pub lifetime: i64,
    pub score: i64,
    pub data: Seq<char>,
}

impl View for User {
    type V = UserView;

    open spec fn view(&self) -> UserView {
        UserView {
            id: self.id,
            student_id: self.student_id@,
            username: self.username@,
            full_name: self.full_name@,
            pass_hash: self.pass_hash@,
            lifetime: self.lifetime,
            score: self.score,
            data: self.data@,
        }
    }
}

impl Clone for User {
    fn clone(&self) -> (res: Self)
        ensures
            res == *self,
    {
        User {
            id: self.id,
            student_id: self.student_id.clone(),
            username: self.username.clone(),
            full_name: self.full_name.clone(),
            pass_hash: self.pass_hash.clone(),
            lifetime: self.lifetime,
            score: self.score,
            data: self.data.clone(),
        }
    }
}

impl User {
    /// The role of the user: an administrator is marked by the word `admin`.
    pub fn role(&self) -> (role: Role)
        ensures
            role == role_of(self@.data),
    {
        let admin = String::from_str("admin");
        if self.data == admin {
            Role::Admin
        } else {
            Role::Ordinary
        }
    }
}

/// The values of a sequence of records.
pub open spec fn user_views(users: Seq<User>) -> Seq<UserView> {
    users.map_values(|u: User| u@)
}

/// One line of the leaderboard.
#[derive(Debug, PartialEq, Eq)]
pub struct UserPoints {
    pub id: i64,
    pub username: String,
    pub lifetime: i64,
    pub score: i64,
}

/// The mathematical value of a [`UserPoints`].
pub struct UserPointsView {
    pub id: i64,
    pub username: Seq<char>,
    pub lifetime: i64,
    pub score: i64,
}

impl View for UserPoints {
    type V = UserPointsView;

    open spec fn view(&self) -> UserPointsView {
        UserPointsView { id: self.id, username: self.username@, lifetime: self.lifetime, score: self.score }
    }
}

/// The values of a sequence of leaderboard lines.
pub open spec fn points_views(lines: Seq<UserPoints>) -> Seq<UserPointsView> {
    lines.map_values(|p: UserPoints| p@)
}

/// The leaderboard line of a user.
pub open spec fn points_of(row: UserView) -> UserPointsView {
    UserPointsView { id: row.id, username: row.username, lifetime: row.lifetime, score: row.score }
}

/// The handle of a user.
#[derive(Clone, Copy, Debug, PartialEq, Eq, Structural)]
pub struct Id {
    pub id: i64,
}

/// The questions that the leaderboard answers.
#[derive(Clone, Copy, Debug, PartialEq, Eq, Structural)]
pub enum AuthData {
    GetUserScores,
}

/// Whether some row of `rows` carries `id`.
pub open spec fn has_user(rows: Seq<UserView>, id: i64) -> bool {
    exists|i: int| 0 <= i < rows.len() && (#[trigger] rows[i]).id == id
}

/// The position of a row of `rows` that carries `id`.
pub open spec fn user_index(rows: Seq<UserView>, id: i64) -> int {
    choose|i: int| 0 <= i < rows.len() && (#[trigger] rows[i]).id == id
}

/// The row of `rows` that carries `id`.
pub open spec fn user_row(rows: Seq<UserView>, id: i64) -> UserView {
    rows[user_index(rows, id)]
}

/// Whether some row of `rows` carries `username`.
pub open spec fn has_username(rows: Seq<UserView>, username: Seq<char>) -> bool {
    exists|i: int| 0 <= i < rows.len() && (#[trigger] rows[i]).username == username
}

/// The row of `rows` that carries `username`.
pub open spec fn username_row(rows: Seq<UserView>, username: Seq<char>) -> UserView {
    rows[choose|i: int| 0 <= i < rows.len() && (#[trigger] rows[i]).username == username]
}

/// Whether some row of `rows` carries `student_id`.
pub open spec fn has_student_id(rows: Seq<UserView>, student_id: Seq<char>) -> bool {
    exists|i: int| 0 <= i < rows.len() && (#[trigger] rows[i]).student_id == student_id
}

/// The row of `rows` that carries `student_id`.
pub open spec fn student_row(rows: Seq<UserView>, student_id: Seq<char>) -> UserView {
    rows[choose|i: int| 0 <= i < rows.len() && (#[trigger] rows[i]).student_id == student_id]
}

/// What holds of the accounts table at all times: totals are never negative,
/// and ids, usernames and student ids each identify one row.
pub open spec fn accounts_wf(rows: Seq<UserView>) -> bool {
    &&& forall|i: int| 0 <= i < rows.len() ==> (#[trigger] rows[i]).score >= 0
    &&& forall|i: int| 0 <= i < rows.len() ==> (#[trigger] rows[i]).lifetime >= 0
    &&& forall|i: int, j: int|
        0 <= i < j < rows.len() ==> (#[trigger] rows[i]).id != (#[trigger] rows[j]).id
    &&& forall|i: int, j: int|
        0 <= i < j < rows.len() ==> (#[trigger] rows[i]).username != (#[trigger] rows[j]).username
    &&& forall|i: int, j: int|
        0 <= i < j < rows.len() ==> (#[trigger] rows[i]).student_id != (#[trigger] rows[j]).student_id
}

/// Whether every id in `rows` lies below `next_id`.
pub open spec fn ids_below(rows: Seq<UserView>, next_id: i64) -> bool {
    forall|i: int| 0 <= i < rows.len() ==> (#[trigger] rows[i]).id < next_id
}

/// The row after `delta` points were applied to it: the score moves by
/// `delta`, the lifetime total only by a positive `delta`.
pub open spec fn adjusted_row(row: UserView, delta: i64) -> UserView {
    UserView {
        score: (row.score + delta) as i64,
        lifetime: if delta > 0 {
            (row.lifetime + delta) as i64
        } else {
            row.lifetime
        },
        ..row
    }
}

/// Whether the totals that `delta` leads to can be stored.
pub open spec fn totals_fit(row: UserView, delta: i64) -> bool {
    delta > 0 ==> row.score + delta <= i64::MAX && row.lifetime + delta <= i64::MAX
}

/// What an adjustment of user `id` by `delta` answers on the table `rows`.
pub open spec fn adjust_outcome(rows: Seq<UserView>, id: i64, delta: i64) -> Result<bool, ServiceError> {
    if !has_user(rows, id) {
        Err(ServiceError::NotFound)
    } else if !totals_fit(user_row(rows, id), delta) {
        Err(ServiceError::PersistenceFailure)
    } else {
        Ok(user_row(rows, id).score + delta >= 0)
    }
}

/// The table after an adjustment of user `id` by `delta`: the user's row is
/// adjusted where the adjustment goes through, and nothing changes otherwise.
pub open spec fn adjusted_rows(rows: Seq<UserView>, id: i64, delta: i64) -> Seq<UserView> {
    if adjust_outcome(rows, id, delta) == Ok::<bool, ServiceError>(true) {
        rows.map_values(
            |row: UserView|
                if row.id == id {
                    adjusted_row(row, delta)
                } else {
                    row
                },
        )
    } else {
        rows
    }
}

/// Whether a registration is turned down for its fields alone: each of the
/// four must hold something.
pub open spec fn weak_input(
    student_id: Seq<char>,
    full_name: Seq<char>,
    username: Seq<char>,
    password: Seq<char>,
) -> bool {
    student_id.len() == 0 || full_name.len() == 0 || username.len() == 0 || password.len() == 0
}

/// The row of a user who has just been registered.
pub open spec fn fresh_row(
    id: i64,
    student_id: Seq<char>,
    username: Seq<char>,
    full_name: Seq<char>,
    pass_hash: Seq<char>,
) -> UserView {
    UserView { id, student_id, username, full_name, pass_hash, lifetime: 0, score: 0, data: Seq::empty() }
}

/// What the registration of a user with an already hashed password answers
/// on the table `rows`, whose next free id is `next_id`.
pub open spec fn entry_outcome(
    rows: Seq<UserView>,
    next_id: i64,
    student_id: Seq<char>,
    username: Seq<char>,
    full_name: Seq<char>,
    pass_hash: Seq<char>,
) -> Result<UserView, ServiceError> {
    if has_username(rows, username) || has_student_id(rows, student_id) {
        Err(ServiceError::UsernameTaken)
    } else if next_id == i64::MAX {
        Err(ServiceError::PersistenceFailure)
    } else {
        Ok(fresh_row(next_id, student_id, username, full_name, pass_hash))
    }
}

/// The table without the row that carries `id`.
pub open spec fn without_user(rows: Seq<UserView>, id: i64) -> Seq<UserView> {
    if has_user(rows, id) {
        rows.remove(user_index(rows, id))
    } else {
        rows
    }
}

/// Whether `password` is the password of the user registered as `username`.
pub open spec fn login_matches(rows: Seq<UserView>, username: Seq<char>, password: Seq<char>) -> bool {
    has_username(rows, username) && argon2_verify(password, username_row(rows, username).pass_hash)
}

/// The accounts table.
pub struct AuthDb {
    users: Vec<User>,
    next_id: i64,
}

impl View for AuthDb {
    type V = Seq<UserView>;

    closed spec fn view(&self) -> Seq<UserView> {
        user_views(self.users@)
    }
}

impl AuthDb {
    #[verifier::type_invariant]
    spec fn inv(&self) -> bool {
        accounts_wf(self@) && ids_below(self@, self.next_id)
    }

    /// The id that the next registration receives. Ids are never handed out
    /// twice: every id in the table lies below it, and it never falls.
    pub closed spec fn next_id(&self) -> i64 {
        self.next_id
    }

    /// An empty table whose first registration receives id 1.
    pub fn new() -> (db: Self)
        ensures
            db@ == Seq::<UserView>::empty(),
            db.next_id() == 1,
    {
        AuthDb { users: Vec::new(), next_id: 1 }
    }

    /// States what holds of every table.
    pub fn well_formed(&self)
        ensures
            accounts_wf(self@),
            ids_below(self@, self.next_id()),
    {
        proof {
            use_type_invariant(self);
        }
    }

    /// Builds the table from stored rows, if they are a valid table: totals
    /// not negative, no id, username or student id twice, every id below
    /// `next_id`.
    pub fn from_rows(rows: Vec<User>, next_id: i64) -> (res: Option<Self>)
        ensures
            match res {
                Some(db) => db@ == user_views(rows@) && db.next_id() == next_id,
                None => !(accounts_wf(user_views(rows@)) && ids_below(user_views(rows@), next_id)),
            },
    {
        let ghost views = user_views(rows@);
        let mut k: usize = 0;
        while k < rows.len()
            invariant
                k <= rows.len(),
                views == user_views(rows@),
                forall|i: int| 0 <= i < k ==> (#[trigger] views[i]).score >= 0,
                forall|i: int| 0 <= i < k ==> (#[trigger] views[i]).lifetime >= 0,
                forall|i: int| 0 <= i < k ==> (#[trigger] views[i]).id < next_id,
                forall|i: int, j: int| 0 <= i < j < k ==> (#[trigger] views[i]).id != (#[trigger] views[j]).id,
                forall|i: int, j: int|
                    0 <= i < j < k ==> (#[trigger] views[i]).username != (#[trigger] views[j]).username,
                forall|i: int, j: int|
                    0 <= i < j < k ==> (#[trigger] views[i]).student_id != (#[trigger] views[j]).student_id,
            decreases rows.len() - k,
        {
            let row = &rows[k];
            assert(views[k as int] == row@);
            if row.score < 0 || row.lifetime < 0 || row.id >= next_id {
                return None;
            }
            let mut j: usize = 0;
            while j < k
                invariant
                    j <= k < rows.len(),
                    views == user_views(rows@),
                    row == rows@[k as int],
                    forall|i: int| 0 <= i < j ==> (#[trigger] views[i]).id != views[k as int].id,
                    forall|i: int| 0 <= i < j ==> (#[trigger] views[i]).username != views[k as int].username,
                    forall|i: int| 0 <= i < j ==> (#[trigger] views[i]).student_id != views[k as int].student_id,
                decreases k - j,
            {
                let other = &rows[j];
                assert(views[j as int] == other@);
                assert(views[k as int] == row@);
                if other.id == row.id || other.username == row.username || other.student_id == row.student_id {
                    return None;
                }
                j += 1;
            }
            k += 1;
        }
        Some(AuthDb { users: rows, next_id })
    }

    /// The rows of the table, in their order.
    pub fn rows(&self) -> (rows: Vec<User>)
        ensures
            user_views(rows@) == self@,
    {
        let mut rows: Vec<User> = Vec::new();
        let mut k: usize = 0;
        while k < self.users.len()
            invariant
                k <= self.users.len(),
                rows@ == self.users@.take(k as int),
            decreases self.users.len() - k,
        {
            rows.push(self.users[k].clone());
            k += 1;
        }
        rows
    }

    /// The id that the next registration receives.
    pub fn next_user_id(&self) -> (id: i64)
        ensures
            id == self.next_id(),
    {
        self.next_id
    }

    /// Moves the rows out and leaves the table empty.
    fn take_rows(&mut self) -> (users: Vec<User>)
        ensures
            users == old(self).users,
            final(self).users@.len() == 0,
            final(self).next_id == old(self).next_id,
    {
        let mut users: Vec<User> = Vec::new();
        core::mem::swap(&mut self.users, &mut users);
        users
    }

    /// Stores `users` as the rows of the table.
    fn put_rows(&mut self, users: Vec<User>)
        requires
            accounts_wf(user_views(users@)),
            ids_below(user_views(users@), old(self).next_id),
        ensures
            final(self).users == users,
            final(self).next_id == old(self).next_id,
    {
        let mut users = users;
        core::mem::swap(&mut self.users, &mut users);
    }

    fn find(&self, id: i64) -> (res: Option<usize>)
        ensures
            match res {
                Some(i) => i < self@.len() && self@[i as int].id == id && i == user_index(self@, id),
                None => !has_user(self@, id),
            },
    {
        proof {
            use_type_invariant(self);
        }
        let mut i: usize = 0;
        while i < self.users.len()
            invariant
                i <= self.users.len(),
                accounts_wf(self@),
                forall|k: int| 0 <= k < i ==> (#[trigger] self@[k]).id != id,
            decreases self.users.len() - i,
        {
            if self.users[i].id == id {
                assert(self@[i as int].id == id);
                return Some(i);
            }
            i += 1;
        }
        None
    }

    fn find_username(&self, username: &String) -> (res: Option<usize>)
        ensures
            match res {
                Some(i) => i < self@.len() && self@[i as int] == username_row(self@, username@),
                None => true,
            },
            res is Some <==> has_username(self@, username@),
    {
        proof {
            use_type_invariant(self);
        }
        let mut i: usize = 0;
        while i < self.users.len()
            invariant
                i <= self.users.len(),
                accounts_wf(self@),
                forall|k: int| 0 <= k < i ==> (#[trigger] self@[k]).username != username@,
            decreases self.users.len() - i,
        {
            if self.users[i].username == *username {
                assert(self@[i as int].username == username@);
                return Some(i);
            }
            i += 1;
        }
        None
    }

    fn find_student_id(&self, student_id: &String) -> (res: Option<usize>)
        ensures
            match res {
                Some(i) => i < self@.len() && self@[i as int] == student_row(self@, student_id@),
                None => true,
            },
            res is Some <==> has_student_id(self@, student_id@),
    {
        proof {
            use_type_invariant(self);
        }
        let mut i: usize = 0;
        while i < self.users.len()
            invariant
                i <= self.users.len(),
                accounts_wf(self@),
                forall|k: int| 0 <= k < i ==> (#[trigger] self@[k]).student_id != student_id@,
            decreases self.users.len() - i,
        {
            if self.users[i].student_id == *student_id {
                assert(self@[i as int].student_id == student_id@);
                return Some(i);
            }
            i += 1;
        }
        None
    }
}

/// The lifetime total of a leaderboard line.
pub open spec fn lifetime_key() -> spec_fn(UserPointsView) -> i64 {
    |line: UserPointsView| line.lifetime
}

/// The leaderboard lines of `rows`, in table order.
pub open spec fn board_lines(rows: Seq<UserView>) -> Seq<UserPointsView> {
    rows.map_values(|row: UserView| points_of(row))
}

/// The leaderboard of `rows`: one line for every user, in falling order of
/// the lifetime total; users with the same total stand in table order.
pub open spec fn leaderboard(rows: Seq<UserView>) -> Seq<UserPointsView> {
    falling_by(board_lines(rows), lifetime_key())
}

/// The leaderboard lists every user once, and its lifetime totals fall.
pub proof fn leaderboard_is_ordered(rows: Seq<UserView>)
    ensures
        leaderboard(rows).to_multiset() == board_lines(rows).to_multiset(),
        leaderboard(rows).len() == rows.len(),
        forall|i: int, j: int|
            0 <= i <= j < leaderboard(rows).len() ==> (#[trigger] leaderboard(rows)[i]).lifetime >= (
            #[trigger] leaderboard(rows)[j]).lifetime,
{
    lemma_falling_by_sound(board_lines(rows), lifetime_key());
    let keys = leaderboard(rows).map_values(lifetime_key());
    assert forall|i: int, j: int| 0 <= i <= j < leaderboard(rows).len() implies (#[trigger] leaderboard(
        rows,
    )[i]).lifetime >= (#[trigger] leaderboard(rows)[j]).lifetime by {
        assert(keys[i] >= keys[j]);
    }
}

/// The leaderboard: one line for every user, in falling order of the
/// lifetime total.
pub fn execute_scores(db: &AuthDb, query: AuthData) -> (board: Vec<UserPoints>)
    ensures
        points_views(board@) == leaderboard(db@),
{
    let ghost lines = board_lines(db@);
    let mut board: Vec<UserPoints> = Vec::new();
    let mut keys: Vec<i64> = Vec::new();
    let mut k: usize = 0;
    assert(points_views(board@) =~= falling_by(lines.take(0), lifetime_key()));
    assert(keys@ =~= points_views(board@).map_values(lifetime_key()));
    while k < db.users.len()
        invariant
            k <= db.users.len(),
            lines == board_lines(db@),
            board.len() == keys.len(),
            falling(keys@),
            keys@ == points_views(board@).map_values(lifetime_key()),
            points_views(board@) == falling_by(lines.take(k as int), lifetime_key()),
        decreases db.users.len() - k,
    {
        let user = &db.users[k];
        let line = UserPoints {
            id: user.id,
            username: user.username.clone(),
            lifetime: user.lifetime,
            score: user.score,
        };
        let ghost before = board@;
        let at = insert_falling(&mut board, &mut keys, line, user.lifetime);
        proof {
            assert(line@ == lines[k as int]);
            assert(lines.take(k + 1) =~= lines.take(k as int).push(line@));
            lemma_falling_by_push(lines.take(k as int), line@, lifetime_key());
            assert(points_views(board@) =~= points_views(before).insert(at as int, line@));
            assert(keys@ =~= points_views(board@).map_values(lifetime_key()));
        }
        k += 1;
    }
    assert(lines.take(k as int) =~= lines);
    board
}

/// The user with the handle `id`.
pub fn get_user_id(db: &AuthDb, id: i64) -> (res: Result<User, ServiceError>)
    ensures
        match res {
            Ok(user) => has_user(db@, id) && user@ == user_row(db@, id),
            Err(e) => !has_user(db@, id) && e == ServiceError::NotFound,
        },
{
    match db.find(id) {
        Some(i) => Ok(db.users[i].clone()),
        None => Err(ServiceError::NotFound),
    }
}

/// The user registered as `username`.
pub fn get_user_username(db: &AuthDb, username: &str) -> (res: Result<User, ServiceError>)
    ensures
        match res {
            Ok(user) => has_username(db@, username@) && user@ == username_row(db@, username@),
            Err(e) => !has_username(db@, username@) && e == ServiceError::NotFound,
        },
{
    let name = String::from_str(username);
    match db.find_username(&name) {
        Some(i) => Ok(db.users[i].clone()),
        None => Err(ServiceError::NotFound),
    }
}

/// The user whose student id is `student_id`.
pub fn get_user_student_id(db: &AuthDb, student_id: &str) -> (res: Result<User, ServiceError>)
    ensures
        match res {
            Ok(user) => has_student_id(db@, student_id@) && user@ == student_row(db@, student_id@),
            Err(e) => !has_student_id(db@, student_id@) && e == ServiceError::NotFound,
        },
{
    let wanted = String::from_str(student_id);
    match db.find_student_id(&wanted) {
        Some(i) => Ok(db.users[i].clone()),
        None => Err(ServiceError::NotFound),
    }
}

/// Registers a user whose password has been hashed already.
///
/// The user receives the next free id and starts with no points and no role.
/// The registration is turned down, and the table left as it was, where the
/// username or the student id is taken, or where no id is left.
pub fn create_user_entry(
    db: &mut AuthDb,
    student_id: String,
    username: String,
    full_name: String,
    password_hash: String,
) -> (res: Result<User, ServiceError>)
    ensures
        match res {
            Ok(user) => {
                &&& entry_outcome(
                    old(db)@,
                    old(db).next_id(),
                    student_id@,
                    username@,
                    full_name@,
                    password_hash@,
                ) == Ok::<UserView, ServiceError>(user@)
                &&& final(db)@ == old(db)@.push(user@)
                &&& final(db).next_id() == old(db).next_id() + 1
            },
            Err(e) => {
                &&& entry_outcome(
                    old(db)@,
                    old(db).next_id(),
                    student_id@,
                    username@,
                    full_name@,
                    password_hash@,
                ) == Err::<UserView, ServiceError>(e)
                &&& final(db)@ == old(db)@
                &&& final(db).next_id() == old(db).next_id()
            },
        },
{
    proof {
        use_type_invariant(&*db);
    }
    if db.find_username(&username).is_some() || db.find_student_id(&student_id).is_some() {
        return Err(ServiceError::UsernameTaken);
    }
    if db.next_id == i64::MAX {
        return Err(ServiceError::PersistenceFailure);
    }
    let id = db.next_id;
    let user = User {
        id,
        student_id,
        username,
        full_name,
        pass_hash: password_hash,
        lifetime: 0,
        score: 0,
        data: String::new(),
    };
    let mut users = db.take_rows();
    users.push(user.clone());
    assert(user_views(users@) =~= old(db)@.push(user@));
    let mut grown = AuthDb { users, next_id: id + 1 };
    core::mem::swap(db, &mut grown);
    Ok(user)
}

/// Registers a user: hashes the password under a fresh salt and stores the
/// record.
///
/// A registration with an empty field is turned down as weak input before
/// anything else happens. With every field filled, a salt is drawn: where
/// the hasher refuses the password under it, the registration is turned down
/// as weak input and nothing changes; otherwise the answer is that of
/// [`create_user_entry`] for the hash, which the password verifies against.
/// The hasher refuses no password within its length limit, so such a
/// registration goes through exactly if the username and the student id are
/// free and an id is left.
pub fn create_user(
    db: &mut AuthDb,
    student_id: String,
    full_name: String,
    username: String,
    password: String,
) -> (res: Result<User, ServiceError>)
    ensures
        weak_input(student_id@, full_name@, username@, password@) ==> res == Err::<User, ServiceError>(
            ServiceError::WeakInput,
        ),
        !weak_input(student_id@, full_name@, username@, password@) && password_fits(password@) ==> match entry_outcome(
            old(db)@,
            old(db).next_id(),
            student_id@,
            username@,
            full_name@,
            Seq::empty(),
        ) {
            Ok(_) => res is Ok,
            Err(e) => res == Err::<User, ServiceError>(e),
        },
        !weak_input(student_id@, full_name@, username@, password@) ==> exists|salt: Seq<char>|
            salt_shape(salt) && match #[trigger] argon2_hash(password@, salt) {
                None => res == Err::<User, ServiceError>(ServiceError::WeakInput) && final(db)@ == old(db)@,
                Some(h) => match entry_outcome(
                    old(db)@,
                    old(db).next_id(),
                    student_id@,
                    username@,
                    full_name@,
                    h,
                ) {
                    Ok(row) => res is Ok && res->Ok_0@ == row && final(db)@ == old(db)@.push(row),
                    Err(e) => res == Err::<User, ServiceError>(e) && final(db)@ == old(db)@,
                },
            },
        match res {
            Ok(user) => {
                &&& argon2_verify(password@, user@.pass_hash)
                &&& entry_outcome(
                    old(db)@,
                    old(db).next_id(),
                    student_id@,
                    username@,
                    full_name@,
                    user@.pass_hash,
                ) == Ok::<UserView, ServiceError>(user@)
                &&& final(db)@ == old(db)@.push(user@)
                &&& final(db).next_id() == old(db).next_id() + 1
            },
            Err(e) => {
                &&& final(db)@ == old(db)@
                &&& final(db).next_id() == old(db).next_id()
                &&& e == ServiceError::WeakInput || entry_outcome(
                    old(db)@,
                    old(db).next_id(),
                    student_id@,
                    username@,
                    full_name@,
                    Seq::empty(),
                ) == Err::<UserView, ServiceError>(e)
            },
        },
{
    if student_id.as_str().unicode_len() == 0 || full_name.as_str().unicode_len() == 0
        || username.as_str().unicode_len() == 0 || password.as_str().unicode_len() == 0 {
        return Err(ServiceError::WeakInput);
    }
    match hash_password(password.as_str()) {
        None => Err(ServiceError::WeakInput),
        Some(hash) => create_user_entry(db, student_id, username, full_name, hash),
    }
}

/// Whether `password` is the password of the user registered as `username`.
pub fn verify(db: &AuthDb, username: &str, password: &str) -> (ok: bool)
    ensures
        ok == login_matches(db@, username@, password@),
{
    let name = String::from_str(username);
    match db.find_username(&name) {
        Some(i) => verify_hash(password, db.users[i].pass_hash.as_str()),
        None => false,
    }
}

/// Applies `inc` points to user `user_id`.
///
/// A positive `inc` is added to the score and to the lifetime total. A
/// negative `inc` is taken from the score only if the score covers it;
/// otherwise the answer is `Ok(false)` and nothing changes. Totals that the
/// store cannot hold are a persistence failure, and nothing changes.
pub fn update_points(db: &mut AuthDb, user_id: i64, inc: i64) -> (res: Result<bool, ServiceError>)
    ensures
        res == adjust_outcome(old(db)@, user_id, inc),
        final(db)@ == adjusted_rows(old(db)@, user_id, inc),
        final(db).next_id() == old(db).next_id(),
{
    proof {
        use_type_invariant(&*db);
    }
    match db.find(user_id) {
        None => Err(ServiceError::NotFound),
        Some(i) => {
            let score = db.users[i].score;
            let lifetime = db.users[i].lifetime;
            if inc > 0 {
                if score > i64::MAX - inc || lifetime > i64::MAX - inc {
                    return Err(ServiceError::PersistenceFailure);
                }
                let mut users = db.take_rows();
                let mut user = users[i].clone();
                user.score = score + inc;
                user.lifetime = lifetime + inc;
                users.set(i, user);
                assert(user_views(users@) =~= adjusted_rows(old(db)@, user_id, inc));
                db.put_rows(users);
                Ok(true)
            } else if score + inc < 0 {
                Ok(false)
            } else {
                let mut users = db.take_rows();
                let mut user = users[i].clone();
                user.score = score + inc;
                users.set(i, user);
                assert(user_views(users@) =~= adjusted_rows(old(db)@, user_id, inc));
                db.put_rows(users);
                Ok(true)
            }
        },
    }
}

/// Destroys the record of user `user_id`, if there is one, and answers the
/// status line of the deletion.
pub fn execute_manage_user(db: &mut AuthDb, user_id: i64) -> (status: String)
    ensures
        status@ == "{\"status\":3206}"@,
        final(db)@ == without_user(old(db)@, user_id),
        final(db).next_id() == old(db).next_id(),
{
    proof {
        use_type_invariant(&*db);
    }
    match db.find(user_id) {
        None => {},
        Some(i) => {
            let mut users = db.take_rows();
            users.remove(i);
            assert(user_views(users@) =~= old(db)@.remove(i as int));
            db.put_rows(users);
        },
    }
    String::from_str("{\"status\":3206}")
}

/// One adjustment of the ledger.
pub struct Adjustment {
    pub user_id: i64,
    pub delta: i64,
}

/// The accounts after the adjustments `steps` were applied one after the
/// other, each as [`update_points`] applies it.
pub open spec fn ledger_after(rows: Seq<UserView>, steps: Seq<Adjustment>) -> Seq<UserView>
    decreases steps.len(),
{
    if steps.len() == 0 {
        rows
    } else {
        adjusted_rows(ledger_after(rows, steps.drop_last()), steps.last().user_id, steps.last().delta)
    }
}

/// One adjustment keeps the table valid, keeps every row in its place under
/// its id, and lets no lifetime total fall.
pub proof fn adjustment_is_sound(rows: Seq<UserView>, id: i64, delta: i64)
    requires
        accounts_wf(rows),
    ensures
        accounts_wf(adjusted_rows(rows, id, delta)),
        adjusted_rows(rows, id, delta).len() == rows.len(),
        forall|i: int|
            0 <= i < rows.len() ==> {
                &&& (#[trigger] adjusted_rows(rows, id, delta)[i]).id == rows[i].id
                &&& adjusted_rows(rows, id, delta)[i].username == rows[i].username
                &&& adjusted_rows(rows, id, delta)[i].student_id == rows[i].student_id
                &&& adjusted_rows(rows, id, delta)[i].lifetime >= rows[i].lifetime
                &&& adjusted_rows(rows, id, delta)[i].score >= 0
            },
{
    if adjust_outcome(rows, id, delta) == Ok::<bool, ServiceError>(true) {
        let k = user_index(rows, id);
        assert forall|i: int| 0 <= i < rows.len() && (#[trigger] rows[i]).id == id implies i == k by {}
    }
}

/// The score of every user stays at or above zero through every sequence of
/// adjustments, and the table stays valid.
pub proof fn score_never_negative(rows: Seq<UserView>, steps: Seq<Adjustment>)
    requires
        accounts_wf(rows),
    ensures
        accounts_wf(ledger_after(rows, steps)),
        forall|i: int| 0 <= i < ledger_after(rows, steps).len() ==> (#[trigger] ledger_after(rows, steps)[i]).score >= 0,
    decreases steps.len(),
{
    if steps.len() > 0 {
        score_never_negative(rows, steps.drop_last());
        adjustment_is_sound(ledger_after(rows, steps.drop_last()), steps.last().user_id, steps.last().delta);
    }
}

/// The lifetime total of every user never falls through any sequence of
/// adjustments.
pub proof fn lifetime_never_falls(rows: Seq<UserView>, steps: Seq<Adjustment>)
    requires
        accounts_wf(rows),
    ensures
        ledger_after(rows, steps).len() == rows.len(),
        forall|i: int|
            0 <= i < rows.len() ==> (#[trigger] ledger_after(rows, steps)[i]).id == rows[i].id && ledger_after(
                rows,
                steps,
            )[i].lifetime >= rows[i].lifetime,
    decreases steps.len(),
{
    if steps.len() > 0 {
        lifetime_never_falls(rows, steps.drop_last());
        score_never_negative(rows, steps.drop_last());
        adjustment_is_sound(ledger_after(rows, steps.drop_last()), steps.last().user_id, steps.last().delta);
    }
}

/// A reward raises the score and the lifetime total of its user by the same
/// amount and leaves every other account alone.
pub proof fn reward_raises_both(rows: Seq<UserView>, id: i64, delta: i64)
    requires
        accounts_wf(rows),
        delta > 0,
        adjust_outcome(rows, id, delta) == Ok::<bool, ServiceError>(true),
    ensures
        user_row(adjusted_rows(rows, id, delta), id).score == user_row(rows, id).score + delta,
        user_row(adjusted_rows(rows, id, delta), id).lifetime == user_row(rows, id).lifetime + delta,
        forall|i: int|
            0 <= i < rows.len() && rows[i].id != id ==> (#[trigger] adjusted_rows(rows, id, delta)[i]) == rows[i],
{
    adjustment_is_sound(rows, id, delta);
    let after = adjusted_rows(rows, id, delta);
    let k = user_index(rows, id);
    assert(after[k].id == id);
}

/// A spend that the score covers lowers the score by its amount and leaves
/// the lifetime total, and every other account, alone.
pub proof fn spend_lowers_score_only(rows: Seq<UserView>, id: i64, delta: i64)
    requires
        accounts_wf(rows),
        delta <= 0,
        adjust_outcome(rows, id, delta) == Ok::<bool, ServiceError>(true),
    ensures
        user_row(adjusted_rows(rows, id, delta), id).score == user_row(rows, id).score + delta,
        user_row(adjusted_rows(rows, id, delta), id).lifetime == user_row(rows, id).lifetime,
        forall|i: int|
            0 <= i < rows.len() && rows[i].id != id ==> (#[trigger] adjusted_rows(rows, id, delta)[i]) == rows[i],
{
    adjustment_is_sound(rows, id, delta);
    let after = adjusted_rows(rows, id, delta);
    let k = user_index(rows, id);
    assert(after[k].id == id);
}

/// A user who has just been registered with a hash that the password
/// verifies against can log in with that password.
pub proof fn registered_user_can_log_in(rows: Seq<UserView>, row: UserView, password: Seq<char>)
    requires
        accounts_wf(rows.push(row)),
        argon2_verify(password, row.pass_hash),
    ensures
        login_matches(rows.push(row), row.username, password),
{
    assert(rows.push(row)[rows.len() as int].username == row.username);
}

} // verus!
