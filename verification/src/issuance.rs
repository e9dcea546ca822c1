//! Ticket issuance: turning points into a ticket, once per holder and event.

use vstd::prelude::*;
use crate::db_auth::{
    accounts_wf, adjust_outcome, adjusted_rows, adjustment_is_sound, get_user_student_id, has_student_id, has_user,
    reward_raises_both, role_of, spend_lowers_score_only, student_row, update_points, user_row, AuthDb, Role,
    User, UserView,
};
use crate::db_main::{
    create_ticket, events_with_id, fresh_ticket, get_event_by_id, holds_ticket, selected_tickets, tickets_wf,
    written_ticket_is_the_only_one, EventView, MainDb, Ticket, TicketQuery,
};
use crate::error::ServiceError;

verus! {

/// The adjustment that undoes an adjustment by `delta`.
pub open spec fn reverse_of(delta: i64) -> i64 {
    (-delta) as i64
}

/// Why an issuance is turned down before the ledger is touched, if it is: the
/// event is unknown or ambiguous, its sale is over, or the holder has a
/// ticket for it.
pub open spec fn issue_refusal(
    events: Seq<EventView>,
    tickets: Seq<Ticket>,
    holder_id: i64,
    event_id: i64,
    now: u128,
) -> Option<ServiceError> {
    if events_with_id(events, event_id).len() != 1 {
        Some(ServiceError::UnknownEvent)
    } else if now > events_with_id(events, event_id)[0].sale_deadline {
        Some(ServiceError::SaleClosed)
    } else if holds_ticket(tickets, holder_id, event_id) {
        Some(ServiceError::AlreadyIssued)
    } else {
        None
    }
}

/// The points that the ticket for `event_id` moves on the holder's account.
pub open spec fn issue_delta(events: Seq<EventView>, event_id: i64) -> i64 {
    events_with_id(events, event_id)[0].point_reward
}

/// The accounts after the adjustment for the ticket was made and undone.
pub open spec fn compensated_rows(users: Seq<UserView>, holder_id: i64, delta: i64) -> Seq<UserView> {
    adjusted_rows(adjusted_rows(users, holder_id, delta), holder_id, reverse_of(delta))
}

/// Whether the adjustment that undoes the one for the ticket goes through.
pub open spec fn compensation_succeeds(users: Seq<UserView>, holder_id: i64, delta: i64) -> bool {
    adjust_outcome(adjusted_rows(users, holder_id, delta), holder_id, reverse_of(delta)) == Ok::<
        bool,
        ServiceError,
    >(true)
}

/// What the issuance of a ticket for `event_id` to `holder_id` at `now`
/// answers.
pub open spec fn issue_outcome(
    users: Seq<UserView>,
    events: Seq<EventView>,
    tickets: Seq<Ticket>,
    holder_id: i64,
    event_id: i64,
    now: u128,
) -> Result<Ticket, ServiceError> {
    match issue_refusal(events, tickets, holder_id, event_id, now) {
        Some(e) => Err(e),
        None => match adjust_outcome(users, holder_id, issue_delta(events, event_id)) {
            Err(e) => Err(e),
            Ok(false) => Err(ServiceError::InsufficientBalance),
            Ok(true) => match fresh_ticket(tickets, event_id, holder_id, now) {
                Some(ticket) => Ok(ticket),
                None => Err(
                    ServiceError::IssuancePersistenceFailed {
                        compensated: compensation_succeeds(users, holder_id, issue_delta(events, event_id)),
                    },
                ),
            },
        },
    }
}

/// The accounts after the issuance: adjusted where a ticket was written,
/// adjusted and adjusted back where the write failed, untouched otherwise.
pub open spec fn issue_users(
    users: Seq<UserView>,
    events: Seq<EventView>,
    tickets: Seq<Ticket>,
    holder_id: i64,
    event_id: i64,
    now: u128,
) -> Seq<UserView> {
    match issue_outcome(users, events, tickets, holder_id, event_id, now) {
        Ok(_) => adjusted_rows(users, holder_id, issue_delta(events, event_id)),
        Err(ServiceError::IssuancePersistenceFailed { .. }) => compensated_rows(
            users,
            holder_id,
            issue_delta(events, event_id),
        ),
        Err(_) => users,
    }
}

/// The ticket book after the issuance: one ticket more where one was
/// written, untouched otherwise.
pub open spec fn issue_tickets(
    users: Seq<UserView>,
    events: Seq<EventView>,
    tickets: Seq<Ticket>,
    holder_id: i64,
    event_id: i64,
    now: u128,
) -> Seq<Ticket> {
    match issue_outcome(users, events, tickets, holder_id, event_id, now) {
        Ok(ticket) => tickets.push(ticket),
        Err(_) => tickets,
    }
}

/// What is left to do when the ticket could not be written after the ledger
/// had been adjusted by `delta`: the adjustment is undone, and the issuance
/// fails with a word on whether that went through.
pub fn persistence_failed(auth: &mut AuthDb, holder_id: i64, delta: i64) -> (error: ServiceError)
    requires
        delta > i64::MIN,
    ensures
        error == (ServiceError::IssuancePersistenceFailed {
            compensated: adjust_outcome(old(auth)@, holder_id, reverse_of(delta)) == Ok::<bool, ServiceError>(
                true,
            ),
        }),
        final(auth)@ == adjusted_rows(old(auth)@, holder_id, reverse_of(delta)),
        final(auth).next_id() == old(auth).next_id(),
{
    let compensated = match update_points(auth, holder_id, -delta) {
        Ok(done) => done,
        Err(_) => false,
    };
    ServiceError::IssuancePersistenceFailed { compensated }
}

/// Issues a ticket for `event_id` to `holder_id` at the time `now`.
///
/// The event must be known and its sale open, and the holder must not have a
/// ticket for it yet; then the ledger is adjusted by the event's points, and
/// the ticket is written. Where the balance does not cover the price nothing
/// changes. Where the ticket cannot be written the adjustment is undone.
pub fn issue_ticket(auth: &mut AuthDb, main: &mut MainDb, holder_id: i64, event_id: i64, now: u128) -> (res:
    Result<Ticket, ServiceError>)
    ensures
        res == issue_outcome(old(auth)@, old(main).events(), old(main).tickets(), holder_id, event_id, now),
        final(auth)@ == issue_users(old(auth)@, old(main).events(), old(main).tickets(), holder_id, event_id, now),
        final(main).tickets() == issue_tickets(
            old(auth)@,
            old(main).events(),
            old(main).tickets(),
            holder_id,
            event_id,
            now,
        ),
        final(main).events() == old(main).events(),
        final(main).next_event_id() == old(main).next_event_id(),
        final(auth).next_id() == old(auth).next_id(),
{
    let event = match get_event_by_id(main, event_id) {
        Ok(event) => event,
        Err(e) => {
            return Err(e);
        },
    };
    if event.sale_deadline < 0 || now > event.sale_deadline as u128 {
        return Err(ServiceError::SaleClosed);
    }
    if main.has_ticket_for(holder_id, event_id) {
        return Err(ServiceError::AlreadyIssued);
    }
    let delta = event.point_reward;
    match update_points(auth, holder_id, delta) {
        Err(e) => {
            return Err(e);
        },
        Ok(false) => {
            return Err(ServiceError::InsufficientBalance);
        },
        Ok(true) => {},
    }
    match create_ticket(main, event_id, holder_id, now) {
        Ok(ticket) => Ok(ticket),
        Err(_) => Err(persistence_failed(auth, holder_id, delta)),
    }
}

/// Issues a ticket on behalf of the student `student_id`, as the
/// administrator `actor`.
///
/// An actor who is no administrator is unauthorized, and a student id that
/// no account carries is not found; in both cases nothing changes. Otherwise
/// the issuance is that of [`issue_ticket`] for the student's account.
pub fn tickets_create_ticket(
    auth: &mut AuthDb,
    main: &mut MainDb,
    actor: &User,
    student_id: &str,
    event_id: i64,
    now: u128,
) -> (res: Result<Ticket, ServiceError>)
    ensures
        final(main).events() == old(main).events(),
        final(main).next_event_id() == old(main).next_event_id(),
        final(auth).next_id() == old(auth).next_id(),
        role_of(actor@.data) != Role::Admin ==> res == Err::<Ticket, ServiceError>(ServiceError::Unauthorized)
            && final(auth)@ == old(auth)@ && final(main).tickets() == old(main).tickets(),
        role_of(actor@.data) == Role::Admin && !has_student_id(old(auth)@, student_id@) ==> res == Err::<
            Ticket,
            ServiceError,
        >(ServiceError::NotFound) && final(auth)@ == old(auth)@ && final(main).tickets() == old(main).tickets(),
        role_of(actor@.data) == Role::Admin && has_student_id(old(auth)@, student_id@) ==> {
            let holder_id = student_row(old(auth)@, student_id@).id;
            &&& res == issue_outcome(
                old(auth)@,
                old(main).events(),
                old(main).tickets(),
                holder_id,
                event_id,
                now,
            )
            &&& final(auth)@ == issue_users(
                old(auth)@,
                old(main).events(),
                old(main).tickets(),
                holder_id,
                event_id,
                now,
            )
            &&& final(main).tickets() == issue_tickets(
                old(auth)@,
                old(main).events(),
                old(main).tickets(),
                holder_id,
                event_id,
                now,
            )
        },
{
    match actor.role() {
        Role::Admin => {},
        Role::Ordinary => {
            return Err(ServiceError::Unauthorized);
        },
    }
    let holder = match get_user_student_id(auth, student_id) {
        Ok(holder) => holder,
        Err(e) => {
            return Err(e);
        },
    };
    issue_ticket(auth, main, holder.id, event_id, now)
}

/// Whether an issuance left everything as it was: it was turned down for a
/// reason other than a failed write.
pub open spec fn turned_down_cleanly(outcome: Result<Ticket, ServiceError>) -> bool {
    match outcome {
        Ok(_) => false,
        Err(ServiceError::IssuancePersistenceFailed { .. }) => false,
        Err(_) => true,
    }
}

/// An issuance keeps the accounts and the ticket book valid, lets no score
/// fall below zero and no lifetime total fall, and changes nothing where it
/// is turned down for a business reason.
pub proof fn issuance_is_sound(
    users: Seq<UserView>,
    events: Seq<EventView>,
    tickets: Seq<Ticket>,
    holder_id: i64,
    event_id: i64,
    now: u128,
)
    requires
        accounts_wf(users),
        tickets_wf(tickets),
    ensures
        accounts_wf(issue_users(users, events, tickets, holder_id, event_id, now)),
        tickets_wf(issue_tickets(users, events, tickets, holder_id, event_id, now)),
        issue_users(users, events, tickets, holder_id, event_id, now).len() == users.len(),
        forall|i: int|
            0 <= i < users.len() ==> {
                &&& (#[trigger] issue_users(users, events, tickets, holder_id, event_id, now)[i]).id == users[i].id
                &&& issue_users(users, events, tickets, holder_id, event_id, now)[i].lifetime >= users[i].lifetime
                &&& issue_users(users, events, tickets, holder_id, event_id, now)[i].score >= 0
            },
        turned_down_cleanly(issue_outcome(users, events, tickets, holder_id, event_id, now)) ==> issue_users(
            users,
            events,
            tickets,
            holder_id,
            event_id,
            now,
        ) == users && issue_tickets(users, events, tickets, holder_id, event_id, now) == tickets,
{
    let delta = issue_delta(events, event_id);
    adjustment_is_sound(users, holder_id, delta);
    adjustment_is_sound(adjusted_rows(users, holder_id, delta), holder_id, reverse_of(delta));
    if issue_outcome(users, events, tickets, holder_id, event_id, now) is Ok {
        written_ticket_is_the_only_one(tickets, event_id, holder_id, now);
    }
}

/// An issuance that goes through moves the holder's score by the event's
/// points, once: a reward also raises the lifetime total, a price leaves it.
/// No other account changes, and the holder then has exactly one ticket for
/// the event, which is not expended and names an account and a catalog entry
/// that exist.
pub proof fn issuance_adjusts_once(
    users: Seq<UserView>,
    events: Seq<EventView>,
    tickets: Seq<Ticket>,
    holder_id: i64,
    event_id: i64,
    now: u128,
)
    requires
        accounts_wf(users),
        tickets_wf(tickets),
        issue_outcome(users, events, tickets, holder_id, event_id, now) is Ok,
    ensures
        ({
            let after = issue_users(users, events, tickets, holder_id, event_id, now);
            let book = issue_tickets(users, events, tickets, holder_id, event_id, now);
            let ticket = issue_outcome(users, events, tickets, holder_id, event_id, now)->Ok_0;
            let delta = issue_delta(events, event_id);
            &&& user_row(after, holder_id).score == user_row(users, holder_id).score + delta
            &&& user_row(after, holder_id).lifetime == user_row(users, holder_id).lifetime + (if delta > 0 {
                delta as int
            } else {
                0
            })
            &&& forall|i: int| 0 <= i < users.len() && users[i].id != holder_id ==> (#[trigger] after[i]) == users[i]
            &&& selected_tickets(book, TicketQuery::GetUserEventTickets(holder_id, event_id)) == seq![ticket]
            &&& !ticket.expended
            &&& ticket.holder_id == holder_id && has_user(users, holder_id)
            &&& ticket.event_id == event_id && events_with_id(events, event_id).len() == 1
        }),
{
    let delta = issue_delta(events, event_id);
    if delta > 0 {
        reward_raises_both(users, holder_id, delta);
    } else {
        spend_lowers_score_only(users, holder_id, delta);
    }
    written_ticket_is_the_only_one(tickets, event_id, holder_id, now);
}

/// After an issuance that went through, a further issuance for the same
/// holder and event is turned down and changes nothing: there is never a
/// second ticket, and never a second adjustment. It is turned down as already
/// issued while the sale is open, and as a closed sale afterwards.
pub proof fn second_issuance_is_turned_down(
    users: Seq<UserView>,
    events: Seq<EventView>,
    tickets: Seq<Ticket>,
    holder_id: i64,
    event_id: i64,
    now: u128,
    later: u128,
)
    requires
        accounts_wf(users),
        tickets_wf(tickets),
        issue_outcome(users, events, tickets, holder_id, event_id, now) is Ok,
    ensures
        ({
            let after = issue_users(users, events, tickets, holder_id, event_id, now);
            let book = issue_tickets(users, events, tickets, holder_id, event_id, now);
            &&& issue_outcome(after, events, book, holder_id, event_id, later) == Err::<Ticket, ServiceError>(
                if later > events_with_id(events, event_id)[0].sale_deadline {
                    ServiceError::SaleClosed
                } else {
                    ServiceError::AlreadyIssued
                },
            )
            &&& issue_users(after, events, book, holder_id, event_id, later) == after
            &&& issue_tickets(after, events, book, holder_id, event_id, later) == book
        }),
{
    written_ticket_is_the_only_one(tickets, event_id, holder_id, now);
}

/// The accounts and the ticket book after issuances for `holder_id` and
/// `event_id` were asked for at each of `times`, one after the other.
pub open spec fn after_requests(
    users: Seq<UserView>,
    events: Seq<EventView>,
    tickets: Seq<Ticket>,
    holder_id: i64,
    event_id: i64,
    times: Seq<u128>,
) -> (Seq<UserView>, Seq<Ticket>)
    decreases times.len(),
{
    if times.len() == 0 {
        (users, tickets)
    } else {
        let (accounts, book) = after_requests(users, events, tickets, holder_id, event_id, times.drop_last());
        (
            issue_users(accounts, events, book, holder_id, event_id, times.last()),
            issue_tickets(accounts, events, book, holder_id, event_id, times.last()),
        )
    }
}

/// After an issuance that went through, any number of further requests for
/// the same holder and event leave the accounts and the ticket book as the
/// first one left them: one ticket, one adjustment.
pub proof fn further_requests_change_nothing(
    users: Seq<UserView>,
    events: Seq<EventView>,
    tickets: Seq<Ticket>,
    holder_id: i64,
    event_id: i64,
    now: u128,
    later: Seq<u128>,
)
    requires
        accounts_wf(users),
        tickets_wf(tickets),
        issue_outcome(users, events, tickets, holder_id, event_id, now) is Ok,
    ensures
        after_requests(
            issue_users(users, events, tickets, holder_id, event_id, now),
            events,
            issue_tickets(users, events, tickets, holder_id, event_id, now),
            holder_id,
            event_id,
            later,
        ) == (
            issue_users(users, events, tickets, holder_id, event_id, now),
            issue_tickets(users, events, tickets, holder_id, event_id, now),
        ),
    decreases later.len(),
{
    if later.len() > 0 {
        further_requests_change_nothing(users, events, tickets, holder_id, event_id, now, later.drop_last());
        second_issuance_is_turned_down(users, events, tickets, holder_id, event_id, now, later.last());
    }
}

} // verus!
