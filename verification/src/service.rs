//! What each request of the service decides: who may ask, and what is
//! answered from the tables.

use vstd::prelude::*;
use vstd::string::*;
use crate::db_auth::{
    execute_manage_user, execute_scores, get_user_id, get_user_username, has_user, leaderboard, login_matches,
    points_of, points_views, role_of, user_row, username_row, verify, without_user, AuthData, AuthDb, Role, User,
    UserPoints, UserView,
};
use crate::db_main::{
    created_event, delete_event, event_views, events_with_id, execute_events, execute_insert, execute_tickets,
    get_event_by_id, latest_first, selected_events, selected_tickets, without_event, Event, EventCreateData,
    EventQuery, MainDb, Ticket, TicketQuery,
};
use crate::error::ServiceError;
use crate::session::Sessions;

verus! {

/// Whether the user is an administrator.
pub open spec fn is_admin(user: UserView) -> bool {
    role_of(user.data) == Role::Admin
}

/// The user behind a request: the one bound to the token that the request
/// carries. A request without a token, or with one that is not bound, is
/// unauthenticated.
pub fn authenticate(sessions: &Sessions, identity: Option<String>) -> (res: Result<User, ServiceError>)
    ensures
        match res {
            Ok(user) => identity matches Some(token) && sessions@.contains_key(token@) && user@ == sessions@[token@],
            Err(e) => e == ServiceError::Unauthenticated && (identity matches Some(token)
                ==> !sessions@.contains_key(token@)),
        },
{
    match identity {
        Some(token) => sessions.resolve(token.as_str()),
        None => Err(ServiceError::Unauthenticated),
    }
}

/// Logs a user in and binds `token` to the snapshot of the account.
///
/// A username that is not registered, or a password that does not match, is
/// unauthenticated. Where `admin` asks for an administrator, an ordinary
/// user is unauthorized. In both cases the registry stays as it was.
pub fn login(
    auth: &AuthDb,
    sessions: &mut Sessions,
    token: String,
    username: &str,
    password: &str,
    admin: bool,
) -> (res: Result<User, ServiceError>)
    ensures
        match res {
            Ok(user) => {
                &&& login_matches(auth@, username@, password@)
                &&& user@ == username_row(auth@, username@)
                &&& admin ==> is_admin(user@)
                &&& final(sessions)@ == old(sessions)@.insert(token@, user@)
            },
            Err(e) => {
                &&& final(sessions)@ == old(sessions)@
                &&& !login_matches(auth@, username@, password@) ==> e == ServiceError::Unauthenticated
                &&& login_matches(auth@, username@, password@) ==> e == ServiceError::Unauthorized && admin
                    && !is_admin(username_row(auth@, username@))
            },
        },
{
    if !verify(auth, username, password) {
        return Err(ServiceError::Unauthenticated);
    }
    let user = match get_user_username(auth, username) {
        Ok(user) => user,
        Err(_) => {
            return Err(ServiceError::Unauthenticated);
        },
    };
    if admin {
        match user.role() {
            Role::Admin => {},
            Role::Ordinary => {
                return Err(ServiceError::Unauthorized);
            },
        }
    }
    sessions.establish(token, user.clone());
    Ok(user)
}

/// Logs out: the binding of `token` is removed.
pub fn logout(sessions: &mut Sessions, token: &str)
    ensures
        final(sessions)@ == old(sessions)@.remove(token@),
{
    sessions.revoke(token);
}

/// Whether the request that carries `identity` may delete the account
/// `username`: the token is bound to a user of that name, and `password` is
/// the password of the account.
pub open spec fn may_delete_account(
    sessions: Map<Seq<char>, UserView>,
    rows: Seq<UserView>,
    identity: Option<String>,
    username: Seq<char>,
    password: Seq<char>,
) -> bool {
    &&& identity matches Some(token)
    &&& sessions.contains_key(token@)
    &&& sessions[token@].username == username
    &&& login_matches(rows, username, password)
}

/// Deletes the account of the user behind a request, who names the account
/// and gives its password once more.
///
/// Where the request may delete the account, the record is destroyed, the
/// session ends, and the status line of the deletion is answered. Otherwise
/// the request is unauthenticated and nothing changes.
pub fn delete_account(
    auth: &mut AuthDb,
    sessions: &mut Sessions,
    identity: Option<String>,
    username: &str,
    password: &str,
) -> (res: Result<String, ServiceError>)
    ensures
        final(auth).next_id() == old(auth).next_id(),
        match res {
            Ok(status) => {
                &&& may_delete_account(old(sessions)@, old(auth)@, identity, username@, password@)
                &&& status@ == "{\"status\":3206}"@
                &&& final(auth)@ == without_user(old(auth)@, username_row(old(auth)@, username@).id)
                &&& final(sessions)@ == old(sessions)@.remove(identity->0@)
            },
            Err(e) => {
                &&& !may_delete_account(old(sessions)@, old(auth)@, identity, username@, password@)
                &&& e == ServiceError::Unauthenticated
                &&& final(auth)@ == old(auth)@
                &&& final(sessions)@ == old(sessions)@
            },
        },
{
    let token = match identity {
        Some(token) => token,
        None => {
            return Err(ServiceError::Unauthenticated);
        },
    };
    let user = match sessions.resolve(token.as_str()) {
        Ok(user) => user,
        Err(e) => {
            return Err(e);
        },
    };
    let name = String::from_str(username);
    if user.username != name || !verify(auth, username, password) {
        return Err(ServiceError::Unauthenticated);
    }
    let account = match get_user_username(auth, username) {
        Ok(account) => account,
        Err(_) => {
            return Err(ServiceError::Unauthenticated);
        },
    };
    let status = execute_manage_user(auth, account.id);
    sessions.revoke(token.as_str());
    Ok(status)
}

/// Whether the user is an administrator.
pub fn auth_get_admin(user: &User) -> (admin: bool)
    ensures
        admin == is_admin(user@),
{
    match user.role() {
        Role::Admin => true,
        Role::Ordinary => false,
    }
}

/// The point totals of the user as the ledger holds them now, whatever the
/// snapshot of the session says.
pub fn auth_get_whoami(auth: &AuthDb, user: &User) -> (res: Result<UserPoints, ServiceError>)
    ensures
        match res {
            Ok(points) => has_user(auth@, user.id) && points@ == points_of(user_row(auth@, user.id)),
            Err(e) => !has_user(auth@, user.id) && e == ServiceError::NotFound,
        },
{
    match get_user_id(auth, user.id) {
        Ok(current) => Ok(
            UserPoints { id: current.id, username: current.username, lifetime: current.lifetime, score: current.score },
        ),
        Err(e) => Err(e),
    }
}

/// The leaderboard, in falling order of the lifetime total.
pub fn board_get_lifetime_top(auth: &AuthDb) -> (board: Vec<UserPoints>)
    ensures
        points_views(board@) == leaderboard(auth@),
{
    execute_scores(auth, AuthData::GetUserScores)
}

/// The whole catalog, the latest start first, for an administrator.
pub fn events_get_all(main: &MainDb, user: &User) -> (res: Result<Vec<Event>, ServiceError>)
    ensures
        match res {
            Ok(found) => is_admin(user@) && event_views(found@) == latest_first(
                selected_events(main.events(), EventQuery::GetAllEvents, 0),
            ),
            Err(e) => !is_admin(user@) && e == ServiceError::Unauthorized,
        },
{
    if auth_get_admin(user) {
        Ok(execute_events(main, EventQuery::GetAllEvents, 0))
    } else {
        Err(ServiceError::Unauthorized)
    }
}

/// The events that start after `now`, the latest first.
pub fn events_get_future(main: &MainDb, now: u128) -> (found: Vec<Event>)
    ensures
        event_views(found@) == latest_first(selected_events(main.events(), EventQuery::GetFutureEvents, now)),
{
    execute_events(main, EventQuery::GetFutureEvents, now)
}

/// The whole ticket book, for an administrator.
pub fn tickets_get_all(main: &MainDb, user: &User) -> (res: Result<Vec<Ticket>, ServiceError>)
    ensures
        match res {
            Ok(found) => is_admin(user@) && found@ == selected_tickets(main.tickets(), TicketQuery::GetAllTickets),
            Err(e) => !is_admin(user@) && e == ServiceError::Unauthorized,
        },
{
    if auth_get_admin(user) {
        Ok(execute_tickets(main, TicketQuery::GetAllTickets))
    } else {
        Err(ServiceError::Unauthorized)
    }
}

/// The ticket and the event that a pass is made of, for the holder of the
/// ticket. A ticket id that does not name one ticket is an unknown ticket;
/// a user who does not hold the ticket is unauthorized.
pub fn tickets_generate_pass(main: &MainDb, user: &User, ticket_id: i64) -> (res: Result<
    (Ticket, Event),
    ServiceError,
>)
    ensures
        match res {
            Ok((ticket, event)) => {
                &&& selected_tickets(main.tickets(), TicketQuery::GetTicketById(ticket_id)) == seq![ticket]
                &&& ticket.holder_id == user.id
                &&& events_with_id(main.events(), ticket.event_id).len() == 1
                &&& event@ == events_with_id(main.events(), ticket.event_id)[0]
            },
            Err(e) => {
                let found = selected_tickets(main.tickets(), TicketQuery::GetTicketById(ticket_id));
                if found.len() != 1 {
                    e == ServiceError::UnknownTicket
                } else if found[0].holder_id != user.id {
                    e == ServiceError::Unauthorized
                } else {
                    e == ServiceError::UnknownEvent && events_with_id(main.events(), found[0].event_id).len() != 1
                }
            },
        },
{
    let found = execute_tickets(main, TicketQuery::GetTicketById(ticket_id));
    if found.len() != 1 {
        return Err(ServiceError::UnknownTicket);
    }
    let ticket = found[0];
    if ticket.holder_id != user.id {
        return Err(ServiceError::Unauthorized);
    }
    match get_event_by_id(main, ticket.event_id) {
        Ok(event) => Ok((ticket, event)),
        Err(e) => Err(e),
    }
}

/// Takes the entries with the id `event_id` out of the catalog, for an
/// administrator.
pub fn manage_delete_event(main: &mut MainDb, user: &User, event_id: i64) -> (res: Result<String, ServiceError>)
    ensures
        final(main).tickets() == old(main).tickets(),
        final(main).next_event_id() == old(main).next_event_id(),
        match res {
            Ok(status) => is_admin(user@) && status@ == "{\"status\":200}"@ && final(main).events()
                == without_event(old(main).events(), event_id),
            Err(e) => !is_admin(user@) && e == ServiceError::Unauthorized && final(main).events() == old(
                main,
            ).events(),
        },
{
    if auth_get_admin(user) {
        Ok(delete_event(main, event_id))
    } else {
        Err(ServiceError::Unauthorized)
    }
}

/// Adds a catalog entry made from `data`, for an administrator.
pub fn manage_create_event(main: &mut MainDb, user: &User, data: EventCreateData) -> (res: Result<
    String,
    ServiceError,
>)
    ensures
        final(main).tickets() == old(main).tickets(),
        match res {
            Ok(word) => {
                &&& is_admin(user@)
                &&& word@ == "done"@
                &&& final(main).events() == old(main).events().push(created_event(data, old(main).next_event_id()))
                &&& final(main).next_event_id() == old(main).next_event_id() + 1
            },
            Err(e) => {
                &&& final(main).events() == old(main).events()
                &&& final(main).next_event_id() == old(main).next_event_id()
                &&& e == (if !is_admin(user@) {
                    ServiceError::Unauthorized
                } else {
                    ServiceError::PersistenceFailure
                })
                &&& is_admin(user@) ==> old(main).next_event_id() == i64::MAX
            },
        },
{
    if auth_get_admin(user) {
        execute_insert(main, data)
    } else {
        Err(ServiceError::Unauthorized)
    }
}

} // verus!
