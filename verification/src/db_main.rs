//! The event catalog and the ticket book.

use vstd::prelude::*;
use vstd::string::*;
use crate::error::ServiceError;
use crate::text::{
    digits, digits_fit_width, digits_read_back, joined_text_reads_shifted, number_of, padding_reads_the_same,
    pow10, pow10_grows, zero_padded,
};
use crate::order::{falling, falling_by, insert_falling, lemma_falling_by_push, lemma_falling_by_sound};

verus! {

/// A catalog entry.
///
/// `latitude` and `longitude` hold the IEEE 754 bit patterns of the
/// coordinates; the library carries them and never reads them. A positive
/// `point_reward` is granted with the ticket, a negative one is its price.
#[derive(Debug, PartialEq, Eq)]
pub struct Event {
    pub id: i64,
    pub start_time: i64,
    pub end_time: i64,
    pub title: String,
    pub human_location: String,
    pub latitude: u64,
    pub longitude: u64,
    pub details: String,
    pub image: String,
    pub point_reward: i64,
    pub sale_deadline: i64,
}

/// The mathematical value of an [`Event`].
pub struct EventView {
    pub id: i64,
    pub start_time: i64,
    pub end_time: i64,
    pub title: Seq<char>,
    pub human_location: Seq<char>,
    pub latitude: u64,
    pub longitude: u64,
    pub details: Seq<char>,
    pub image: Seq<char>,
    pub point_reward: i64,
    pub sale_deadline: i64,
}

impl View for Event {
    type V = EventView;

    open spec fn view(&self) -> EventView {
        EventView {
            id: self.id,
            start_time: self.start_time,
            end_time: self.end_time,
            title: self.title@,
            human_location: self.human_location@,
            latitude: self.latitude,
            longitude: self.longitude,
            details: self.details@,
            image: self.image@,
            point_reward: self.point_reward,
            sale_deadline: self.sale_deadline,
        }
    }
}

impl Clone for Event {
    fn clone(&self) -> (res: Self)
        ensures
            res == *self,
    {
        Event {
            id: self.id,
            start_time: self.start_time,
            end_time: self.end_time,
            title: self.title.clone(),
            human_location: self.human_location.clone(),
            latitude: self.latitude,
            longitude: self.longitude,
            details: self.details.clone(),
            image: self.image.clone(),
            point_reward: self.point_reward,
            sale_deadline: self.sale_deadline,
        }
    }
}

/// The values of a sequence of catalog entries.
pub open spec fn event_views(events: Seq<Event>) -> Seq<EventView> {
    events.map_values(|e: Event| e@)
}

/// What an administrator hands in to create a catalog entry. The `id` is
/// ignored: the catalog assigns one.
#[derive(Debug, PartialEq, Eq)]
pub struct EventCreateData {
    pub id: i64,
    pub start_time: i64,
    pub end_time: i64,
    pub title: String,
    pub human_location: String,
    pub latitude: u64,
    pub longitude: u64,
    pub details: String,
    pub image: String,
    pub point_reward: i64,
    pub sale_deadline: i64,
}

/// Proof that a ticket was issued.
#[derive(Clone, Copy, Debug, PartialEq, Eq, Structural)]
pub struct Ticket {
    pub id: i64,
    pub event_id: i64,
    pub holder_id: i64,
    pub single_entry: bool,
    pub expended: bool,
    pub creation_date: i64,
}

impl View for Ticket {
    type V = Ticket;

    open spec fn view(&self) -> Ticket {
        *self
    }
}

/// The questions that the catalog answers. The time handed in with the
/// question is the present for `GetFutureEvents` and the wanted id for
/// `GetEventById`.
#[derive(Clone, Copy, Debug, PartialEq, Eq, Structural)]
pub enum EventQuery {
    GetAllEvents,
    GetFutureEvents,
    GetEventById,
}

/// The questions that the ticket book answers: all tickets, the ticket with
/// an id, or the tickets of a holder for an event.
#[derive(Clone, Copy, Debug, PartialEq, Eq, Structural)]
pub enum TicketQuery {
    GetAllTickets,
    GetTicketById(i64),
    GetUserEventTickets(i64, i64),
}

/// Whether `query`, asked with `unix_time`, selects the entry `event`.
pub open spec fn selects_event(query: EventQuery, unix_time: u128, event: EventView) -> bool {
    match query {
        EventQuery::GetAllEvents => true,
        EventQuery::GetFutureEvents => event.start_time > unix_time,
        EventQuery::GetEventById => event.id == unix_time,
    }
}

/// The entries of `events` that `query` selects, in catalog order.
pub open spec fn selected_events(events: Seq<EventView>, query: EventQuery, unix_time: u128) -> Seq<EventView> {
    events.filter(|event: EventView| selects_event(query, unix_time, event))
}

/// The entries of `events` that carry `id`, in catalog order.
pub open spec fn events_with_id(events: Seq<EventView>, id: i64) -> Seq<EventView> {
    events.filter(|event: EventView| event.id == id)
}

/// Whether `query` selects `ticket`.
pub open spec fn selects_ticket(query: TicketQuery, ticket: Ticket) -> bool {
    match query {
        TicketQuery::GetAllTickets => true,
        TicketQuery::GetTicketById(id) => ticket.id == id,
        TicketQuery::GetUserEventTickets(holder_id, event_id) => ticket.holder_id == holder_id && ticket.event_id
            == event_id,
    }
}

/// The tickets of `tickets` that `query` selects, in the order of the book.
pub open spec fn selected_tickets(tickets: Seq<Ticket>, query: TicketQuery) -> Seq<Ticket> {
    tickets.filter(|ticket: Ticket| selects_ticket(query, ticket))
}

/// Whether some ticket of `tickets` carries `id`.
pub open spec fn has_ticket(tickets: Seq<Ticket>, id: i64) -> bool {
    exists|i: int| 0 <= i < tickets.len() && (#[trigger] tickets[i]).id == id
}

/// The position of a ticket of `tickets` that carries `id`.
pub open spec fn ticket_index(tickets: Seq<Ticket>, id: i64) -> int {
    choose|i: int| 0 <= i < tickets.len() && (#[trigger] tickets[i]).id == id
}

/// Whether `holder_id` has a ticket for `event_id` among `tickets`.
pub open spec fn holds_ticket(tickets: Seq<Ticket>, holder_id: i64, event_id: i64) -> bool {
    exists|i: int|
        0 <= i < tickets.len() && (#[trigger] tickets[i]).holder_id == holder_id && tickets[i].event_id == event_id
}

/// What holds of the ticket book at all times: no id twice, and no holder
/// with two tickets for one event.
pub open spec fn tickets_wf(tickets: Seq<Ticket>) -> bool {
    &&& forall|i: int, j: int|
        0 <= i < j < tickets.len() ==> (#[trigger] tickets[i]).id != (#[trigger] tickets[j]).id
    &&& forall|i: int, j: int|
        0 <= i < j < tickets.len() ==> !((#[trigger] tickets[i]).holder_id == (#[trigger] tickets[j]).holder_id
            && tickets[i].event_id == tickets[j].event_id)
}

/// Whether every id in `events` lies below `next_id`.
pub open spec fn event_ids_below(events: Seq<EventView>, next_id: i64) -> bool {
    forall|i: int| 0 <= i < events.len() ==> (#[trigger] events[i]).id < next_id
}

/// The least of `floor`, `10 * floor`, `100 * floor`, ... that lies above
/// `n`. With `floor` a power of ten it is ten to the number of characters
/// that `n` takes when it is written in decimal and padded with zeros to the
/// width of `floor`.
pub open spec fn padded_scale(n: int, floor: int) -> int
    decreases
            (if floor <= n {
                n - floor + 1
            } else {
                0
            }),
{
    if floor <= 0 || n < floor {
        floor
    } else {
        padded_scale(n, 10 * floor)
    }
}

/// The number that is read off when the last three decimal digits of the
/// creation time, the event id padded to six digits and the holder id padded
/// to seven digits are written one after the other.
pub open spec fn ticket_number(event_id: int, user_id: int, creation_date: int) -> int {
    (creation_date % 1000) * (padded_scale(event_id, 1_000_000) * padded_scale(user_id, 10_000_000)) + event_id
        * padded_scale(user_id, 10_000_000) + user_id
}

/// The id of the ticket that `user_id` gets for `event_id` at
/// `creation_date`: the ticket number, where neither id is negative and the
/// number fits.
pub open spec fn ticket_id(event_id: i64, user_id: i64, creation_date: u128) -> Option<i64> {
    if event_id < 0 || user_id < 0 || ticket_number(event_id as int, user_id as int, creation_date as int)
        > i64::MAX {
        None
    } else {
        Some(ticket_number(event_id as int, user_id as int, creation_date as int) as i64)
    }
}

/// The ticket that is written for `user_id` and `event_id` at
/// `creation_date`, where the book `tickets` can take it: the id can be
/// formed and is free, the time can be stored, and the holder has no ticket
/// for the event yet.
pub open spec fn fresh_ticket(tickets: Seq<Ticket>, event_id: i64, user_id: i64, creation_date: u128) -> Option<
    Ticket,
> {
    match ticket_id(event_id, user_id, creation_date) {
        Some(id) => if creation_date > i64::MAX || has_ticket(tickets, id) || holds_ticket(
            tickets,
            user_id,
            event_id,
        ) {
            None
        } else {
            Some(
                Ticket {
                    id,
                    event_id,
                    holder_id: user_id,
                    single_entry: true,
                    expended: false,
                    creation_date: creation_date as i64,
                },
            )
        },
        None => None,
    }
}

/// What the redemption of ticket `id` answers on the book `tickets`.
pub open spec fn redeem_outcome(tickets: Seq<Ticket>, id: i64) -> Result<bool, ServiceError> {
    if !has_ticket(tickets, id) {
        Err(ServiceError::UnknownTicket)
    } else if tickets[ticket_index(tickets, id)].expended {
        Err(ServiceError::AlreadyExpended)
    } else {
        Ok(true)
    }
}

/// The book after the redemption of ticket `id`: the ticket is expended
/// where the redemption goes through, and nothing changes otherwise.
pub open spec fn redeemed(tickets: Seq<Ticket>, id: i64) -> Seq<Ticket> {
    if redeem_outcome(tickets, id) is Ok {
        tickets.update(ticket_index(tickets, id), Ticket { expended: true, ..tickets[ticket_index(tickets, id)] })
    } else {
        tickets
    }
}

/// The catalog entry that is made from `data` under the id `id`.
pub open spec fn created_event(data: EventCreateData, id: i64) -> EventView {
    EventView {
        id,
        start_time: data.start_time,
        end_time: data.end_time,
        title: data.title@,
        human_location: data.human_location@,
        latitude: data.latitude,
        longitude: data.longitude,
        details: data.details@,
        image: data.image@,
        point_reward: data.point_reward,
        sale_deadline: data.sale_deadline,
    }
}

/// The least of `floor`, `10 * floor`, ... above `n`.
fn scale_of(n: i64, floor: u128) -> (scale: u128)
    requires
        0 <= n,
        0 < floor <= 10_000_000,
    ensures
        scale == padded_scale(n as int, floor as int),
        floor <= scale,
        scale <= 10 * n || scale == floor,
{
    let mut scale: u128 = floor;
    while scale <= n as u128
        invariant
            0 <= n,
            0 < floor <= scale,
            scale <= 10 * n || scale == floor,
            padded_scale(n as int, scale as int) == padded_scale(n as int, floor as int),
        decreases
                (if scale <= n {
                    n - scale + 1
                } else {
                    0
                }),
    {
        scale = scale * 10;
    }
    scale
}

/// The id of the ticket that `user_id` gets for `event_id` at
/// `creation_date`, if there is one.
pub fn ticket_id_for(event_id: i64, user_id: i64, creation_date: u128) -> (id: Option<i64>)
    ensures
        id == ticket_id(event_id, user_id, creation_date),
{
    if event_id < 0 || user_id < 0 {
        return None;
    }
    let holder_scale = scale_of(user_id, 10_000_000);
    let event_scale = scale_of(event_id, 1_000_000);
    let millis: u128 = creation_date % 1000;
    let ghost shift = event_scale as int * holder_scale as int;
    let ghost product = event_id as int * holder_scale as int;
    assert(ticket_number(event_id as int, user_id as int, creation_date as int) == millis * shift + product
        + user_id);
    assert(millis * shift >= 0) by (nonlinear_arith)
        requires
            millis >= 0,
            shift >= 0,
    ;
    let low: u128 = match (event_id as u128).checked_mul(holder_scale) {
        Some(below) => {
            if below > i64::MAX as u128 {
                return None;
            }
            below + user_id as u128
        },
        None => {
            return None;
        },
    };
    if low > i64::MAX as u128 {
        return None;
    }
    if millis == 0 {
        assert(millis * shift == 0) by (nonlinear_arith)
            requires
                millis == 0,
        ;
        return Some(low as i64);
    }
    assert(millis * shift >= shift) by (nonlinear_arith)
        requires
            millis >= 1,
            shift >= 0,
    ;
    match event_scale.checked_mul(holder_scale) {
        Some(above) => {
            if above > i64::MAX as u128 {
                return None;
            }
            assert(millis * above <= 999 * above) by (nonlinear_arith)
                requires
                    millis <= 999,
                    above >= 0,
            ;
            let total: u128 = millis * above + low;
            if total > i64::MAX as u128 {
                None
            } else {
                Some(total as i64)
            }
        },
        None => None,
    }
}

/// Selecting from a catalog that has grown by one entry.
proof fn lemma_selected_events_push(events: Seq<EventView>, event: EventView, query: EventQuery, unix_time: u128)
    ensures
        selected_events(events.push(event), query, unix_time) == if selects_event(query, unix_time, event) {
            selected_events(events, query, unix_time).push(event)
        } else {
            selected_events(events, query, unix_time)
        },
{
    events.lemma_filter_push(event, |event: EventView| selects_event(query, unix_time, event));
}

/// Selecting from a book that has grown by one ticket.
proof fn lemma_selected_tickets_push(tickets: Seq<Ticket>, ticket: Ticket, query: TicketQuery)
    ensures
        selected_tickets(tickets.push(ticket), query) == if selects_ticket(query, ticket) {
            selected_tickets(tickets, query).push(ticket)
        } else {
            selected_tickets(tickets, query)
        },
{
    tickets.lemma_filter_push(ticket, |ticket: Ticket| selects_ticket(query, ticket));
}

/// The entries other than those with `id`, from a catalog that has grown by
/// one entry.
proof fn lemma_without_event_push(events: Seq<EventView>, event: EventView, id: i64)
    ensures
        without_event(events.push(event), id) == if event.id != id {
            without_event(events, id).push(event)
        } else {
            without_event(events, id)
        },
{
    events.lemma_filter_push(event, |event: EventView| event.id != id);
}

/// The catalog without the entries that carry `id`.
pub open spec fn without_event(events: Seq<EventView>, id: i64) -> Seq<EventView> {
    events.filter(|event: EventView| event.id != id)
}

/// The event catalog and the ticket book.
pub struct MainDb {
    events: Vec<Event>,
    tickets: Vec<Ticket>,
    next_event_id: i64,
}

impl MainDb {
    #[verifier::type_invariant]
    spec fn inv(&self) -> bool {
        tickets_wf(self.tickets()) && event_ids_below(self.events(), self.next_event_id)
    }

    /// The catalog entries, in catalog order.
    pub closed spec fn events(&self) -> Seq<EventView> {
        event_views(self.events@)
    }

    /// The tickets, in the order in which they were written.
    pub closed spec fn tickets(&self) -> Seq<Ticket> {
        self.tickets@
    }

    /// The id that the next catalog entry receives.
    pub closed spec fn next_event_id(&self) -> i64 {
        self.next_event_id
    }

    /// An empty catalog with an empty book; the first entry receives id 1.
    pub fn new() -> (db: Self)
        ensures
            db.events() == Seq::<EventView>::empty(),
            db.tickets() == Seq::<Ticket>::empty(),
            db.next_event_id() == 1,
    {
        MainDb { events: Vec::new(), tickets: Vec::new(), next_event_id: 1 }
    }

    /// States what holds of every catalog and book.
    pub fn well_formed(&self)
        ensures
            tickets_wf(self.tickets()),
            event_ids_below(self.events(), self.next_event_id()),
    {
        proof {
            use_type_invariant(self);
        }
    }

    /// Builds the catalog and the book from stored rows, if they are valid:
    /// every event id below `next_event_id`, no ticket id twice, no holder
    /// with two tickets for one event.
    pub fn from_rows(events: Vec<Event>, tickets: Vec<Ticket>, next_event_id: i64) -> (res: Option<Self>)
        ensures
            match res {
                Some(db) => db.events() == event_views(events@) && db.tickets() == tickets@ && db.next_event_id()
                    == next_event_id,
                None => !(tickets_wf(tickets@) && event_ids_below(event_views(events@), next_event_id)),
            },
    {
        let ghost views = event_views(events@);
        let mut k: usize = 0;
        while k < events.len()
            invariant
                k <= events.len(),
                views == event_views(events@),
                forall|i: int| 0 <= i < k ==> (#[trigger] views[i]).id < next_event_id,
            decreases events.len() - k,
        {
            assert(views[k as int] == events[k as int]@);
            if events[k].id >= next_event_id {
                return None;
            }
            k += 1;
        }
        let mut k: usize = 0;
        while k < tickets.len()
            invariant
                k <= tickets.len(),
                forall|i: int, j: int| 0 <= i < j < k ==> (#[trigger] tickets[i]).id != (#[trigger] tickets[j]).id,
                forall|i: int, j: int|
                    0 <= i < j < k ==> !((#[trigger] tickets[i]).holder_id == (#[trigger] tickets[j]).holder_id
                        && tickets[i].event_id == tickets[j].event_id),
            decreases tickets.len() - k,
        {
            let ticket = tickets[k];
            let mut j: usize = 0;
            while j < k
                invariant
                    j <= k < tickets.len(),
                    ticket == tickets[k as int],
                    forall|i: int| 0 <= i < j ==> (#[trigger] tickets[i]).id != ticket.id,
                    forall|i: int|
                        0 <= i < j ==> !((#[trigger] tickets[i]).holder_id == ticket.holder_id && tickets[i].event_id
                            == ticket.event_id),
                decreases k - j,
            {
                let other = tickets[j];
                if other.id == ticket.id || (other.holder_id == ticket.holder_id && other.event_id
                    == ticket.event_id) {
                    return None;
                }
                j += 1;
            }
            k += 1;
        }
        Some(MainDb { events, tickets, next_event_id })
    }

    /// The catalog entries, in catalog order.
    pub fn event_rows(&self) -> (rows: Vec<Event>)
        ensures
            event_views(rows@) == self.events(),
    {
        let mut rows: Vec<Event> = Vec::new();
        let mut k: usize = 0;
        while k < self.events.len()
            invariant
                k <= self.events.len(),
                rows@ == self.events@.take(k as int),
            decreases self.events.len() - k,
        {
            rows.push(self.events[k].clone());
            k += 1;
        }
        rows
    }

    /// The tickets, in the order in which they were written.
    pub fn ticket_rows(&self) -> (rows: Vec<Ticket>)
        ensures
            rows@ == self.tickets(),
    {
        self.tickets.clone()
    }

    /// The id that the next catalog entry receives.
    pub fn next_id(&self) -> (id: i64)
        ensures
            id == self.next_event_id(),
    {
        self.next_event_id
    }

    /// Moves the tickets out and leaves the book empty.
    fn take_tickets(&mut self) -> (tickets: Vec<Ticket>)
        ensures
            tickets == old(self).tickets,
            final(self).tickets@.len() == 0,
            final(self).events == old(self).events,
            final(self).next_event_id == old(self).next_event_id,
    {
        proof {
            use_type_invariant(&*self);
        }
        let mut tickets: Vec<Ticket> = Vec::new();
        core::mem::swap(&mut self.tickets, &mut tickets);
        tickets
    }

    /// Stores `tickets` as the book.
    fn put_tickets(&mut self, tickets: Vec<Ticket>)
        requires
            tickets_wf(tickets@),
            event_ids_below(old(self).events(), old(self).next_event_id),
        ensures
            final(self).tickets == tickets,
            final(self).events == old(self).events,
            final(self).next_event_id == old(self).next_event_id,
    {
        let mut tickets = tickets;
        core::mem::swap(&mut self.tickets, &mut tickets);
    }

    /// Moves the entries out and leaves the catalog empty.
    fn take_events(&mut self) -> (events: Vec<Event>)
        ensures
            events == old(self).events,
            final(self).events@.len() == 0,
            final(self).tickets == old(self).tickets,
            final(self).next_event_id == old(self).next_event_id,
    {
        proof {
            use_type_invariant(&*self);
        }
        let mut events: Vec<Event> = Vec::new();
        core::mem::swap(&mut self.events, &mut events);
        events
    }

    /// Stores `events` as the catalog.
    fn put_events(&mut self, events: Vec<Event>)
        requires
            tickets_wf(old(self).tickets()),
            event_ids_below(event_views(events@), old(self).next_event_id),
        ensures
            final(self).events == events,
            final(self).tickets == old(self).tickets,
            final(self).next_event_id == old(self).next_event_id,
    {
        let mut events = events;
        core::mem::swap(&mut self.events, &mut events);
    }

    fn find_ticket(&self, id: i64) -> (res: Option<usize>)
        ensures
            match res {
                Some(i) => i < self.tickets().len() && self.tickets()[i as int].id == id && i == ticket_index(
                    self.tickets(),
                    id,
                ),
                None => !has_ticket(self.tickets(), id),
            },
    {
        proof {
            use_type_invariant(self);
        }
        let mut i: usize = 0;
        while i < self.tickets.len()
            invariant
                i <= self.tickets.len(),
                tickets_wf(self.tickets()),
                forall|k: int| 0 <= k < i ==> (#[trigger] self.tickets()[k]).id != id,
            decreases self.tickets.len() - i,
        {
            if self.tickets[i].id == id {
                return Some(i);
            }
            i += 1;
        }
        None
    }

    /// Whether `holder_id` has a ticket for `event_id`.
    pub fn has_ticket_for(&self, holder_id: i64, event_id: i64) -> (res: bool)
        ensures
            res == holds_ticket(self.tickets(), holder_id, event_id),
    {
        let mut i: usize = 0;
        while i < self.tickets.len()
            invariant
                i <= self.tickets.len(),
                forall|k: int|
                    0 <= k < i ==> !((#[trigger] self.tickets()[k]).holder_id == holder_id && self.tickets()[k].event_id
                        == event_id),
            decreases self.tickets.len() - i,
        {
            if self.tickets[i].holder_id == holder_id && self.tickets[i].event_id == event_id {
                return true;
            }
            i += 1;
        }
        false
    }
}

/// Whether `query`, asked with `unix_time`, selects `event`.
fn event_selected(query: EventQuery, unix_time: u128, event: &Event) -> (res: bool)
    ensures
        res == selects_event(query, unix_time, event@),
{
    match query {
        EventQuery::GetAllEvents => true,
        EventQuery::GetFutureEvents => event.start_time >= 0 && event.start_time as u128 > unix_time,
        EventQuery::GetEventById => event.id >= 0 && event.id as u128 == unix_time,
    }
}

/// Whether `query` selects `ticket`.
fn ticket_selected(query: TicketQuery, ticket: &Ticket) -> (res: bool)
    ensures
        res == selects_ticket(query, *ticket),
{
    match query {
        TicketQuery::GetAllTickets => true,
        TicketQuery::GetTicketById(id) => ticket.id == id,
        TicketQuery::GetUserEventTickets(holder_id, event_id) => ticket.holder_id == holder_id && ticket.event_id
            == event_id,
    }
}

/// The entries with an id, from a catalog that has grown by one entry.
proof fn lemma_events_with_id_push(events: Seq<EventView>, event: EventView, id: i64)
    ensures
        events_with_id(events.push(event), id) == if event.id == id {
            events_with_id(events, id).push(event)
        } else {
            events_with_id(events, id)
        },
{
    events.lemma_filter_push(event, |event: EventView| event.id == id);
}

/// The catalog entry with the id `event_id`. An id that no entry carries, or
/// more than one, is an unknown event.
pub fn get_event_by_id(db: &MainDb, event_id: i64) -> (res: Result<Event, ServiceError>)
    ensures
        match res {
            Ok(event) => events_with_id(db.events(), event_id).len() == 1 && event@ == events_with_id(
                db.events(),
                event_id,
            )[0],
            Err(e) => events_with_id(db.events(), event_id).len() != 1 && e == ServiceError::UnknownEvent,
        },
{
    let ghost all = db.events();
    let mut first: Option<Event> = None;
    let mut count: usize = 0;
    let mut k: usize = 0;
    proof {
        reveal(Seq::filter);
    }
    while k < db.events.len()
        invariant
            k <= db.events.len(),
            all == db.events(),
            count <= k,
            count == events_with_id(all.take(k as int), event_id).len(),
            first is Some <==> count >= 1,
            first matches Some(event) ==> event@ == events_with_id(all.take(k as int), event_id)[0],
        decreases db.events.len() - k,
    {
        let event = &db.events[k];
        proof {
            assert(all.take(k + 1) =~= all.take(k as int).push(event@));
            lemma_events_with_id_push(all.take(k as int), event@, event_id);
        }
        if event.id == event_id {
            if count == 0 {
                first = Some(event.clone());
            }
            count += 1;
        }
        k += 1;
    }
    assert(all.take(k as int) =~= all);
    match first {
        Some(event) => if count == 1 {
            Ok(event)
        } else {
            Err(ServiceError::UnknownEvent)
        },
        None => Err(ServiceError::UnknownEvent),
    }
}

/// The start time of a catalog entry.
pub open spec fn start_key() -> spec_fn(EventView) -> i64 {
    |event: EventView| event.start_time
}

/// `events` with the latest start first; entries that start at the same time
/// stand in the order of `events`.
pub open spec fn latest_first(events: Seq<EventView>) -> Seq<EventView> {
    falling_by(events, start_key())
}

/// Ordering by start keeps every entry, each as often as it stood there, and
/// the start times fall.
pub proof fn latest_first_is_ordered(events: Seq<EventView>)
    ensures
        latest_first(events).to_multiset() == events.to_multiset(),
        latest_first(events).len() == events.len(),
        forall|i: int, j: int|
            0 <= i <= j < latest_first(events).len() ==> (#[trigger] latest_first(events)[i]).start_time >= (
            #[trigger] latest_first(events)[j]).start_time,
{
    lemma_falling_by_sound(events, start_key());
    let keys = latest_first(events).map_values(start_key());
    assert forall|i: int, j: int| 0 <= i <= j < latest_first(events).len() implies (#[trigger] latest_first(
        events,
    )[i]).start_time >= (#[trigger] latest_first(events)[j]).start_time by {
        assert(keys[i] >= keys[j]);
    }
}

/// The catalog entries that `query` selects, the latest start first: all
/// entries, those that start after `unix_time`, or those whose id is
/// `unix_time`.
pub fn execute_events(db: &MainDb, query: EventQuery, unix_time: u128) -> (found: Vec<Event>)
    ensures
        event_views(found@) == latest_first(selected_events(db.events(), query, unix_time)),
{
    let ghost all = db.events();
    let mut found: Vec<Event> = Vec::new();
    let mut keys: Vec<i64> = Vec::new();
    let mut k: usize = 0;
    proof {
        assert(all.take(0) =~= Seq::<EventView>::empty());
        reveal(Seq::filter);
        assert(event_views(found@) =~= latest_first(selected_events(all.take(0), query, unix_time)));
        assert(keys@ =~= event_views(found@).map_values(start_key()));
    }
    while k < db.events.len()
        invariant
            k <= db.events.len(),
            all == db.events(),
            found.len() == keys.len(),
            falling(keys@),
            keys@ == event_views(found@).map_values(start_key()),
            event_views(found@) == latest_first(selected_events(all.take(k as int), query, unix_time)),
        decreases db.events.len() - k,
    {
        let event = &db.events[k];
        proof {
            assert(all.take(k + 1) =~= all.take(k as int).push(event@));
            lemma_selected_events_push(all.take(k as int), event@, query, unix_time);
        }
        if event_selected(query, unix_time, event) {
            let ghost before = found@;
            let copy = event.clone();
            let at = insert_falling(&mut found, &mut keys, copy, event.start_time);
            proof {
                lemma_falling_by_push(selected_events(all.take(k as int), query, unix_time), event@, start_key());
                assert(event_views(found@) =~= event_views(before).insert(at as int, event@));
                assert(keys@ =~= event_views(found@).map_values(start_key()));
            }
        }
        k += 1;
    }
    assert(all.take(k as int) =~= all);
    found
}

/// The tickets that `query` selects, in the order of the book.
pub fn execute_tickets(db: &MainDb, query: TicketQuery) -> (found: Vec<Ticket>)
    ensures
        found@ == selected_tickets(db.tickets(), query),
{
    let ghost all = db.tickets();
    let mut found: Vec<Ticket> = Vec::new();
    let mut k: usize = 0;
    proof {
        reveal(Seq::filter);
    }
    while k < db.tickets.len()
        invariant
            k <= db.tickets.len(),
            all == db.tickets(),
            found@ == selected_tickets(all.take(k as int), query),
        decreases db.tickets.len() - k,
    {
        let ticket = db.tickets[k];
        proof {
            assert(all.take(k + 1) =~= all.take(k as int).push(ticket));
            lemma_selected_tickets_push(all.take(k as int), ticket, query);
        }
        if ticket_selected(query, &ticket) {
            found.push(ticket);
        }
        k += 1;
    }
    assert(all.take(k as int) =~= all);
    found
}

/// Writes the ticket of `user_id` for `event_id` into the book.
///
/// The write is turned down as a persistence failure, and the book left as
/// it was, where no id can be formed for the ticket, the id is in use, the
/// time cannot be stored, or the holder already has a ticket for the event.
pub fn create_ticket(db: &mut MainDb, event_id: i64, user_id: i64, creation_date: u128) -> (res: Result<
    Ticket,
    ServiceError,
>)
    ensures
        match fresh_ticket(old(db).tickets(), event_id, user_id, creation_date) {
            Some(ticket) => res == Ok::<Ticket, ServiceError>(ticket) && final(db).tickets() == old(
                db,
            ).tickets().push(ticket),
            None => res == Err::<Ticket, ServiceError>(ServiceError::PersistenceFailure) && final(db).tickets()
                == old(db).tickets(),
        },
        final(db).events() == old(db).events(),
        final(db).next_event_id() == old(db).next_event_id(),
{
    proof {
        use_type_invariant(&*db);
    }
    let id = match ticket_id_for(event_id, user_id, creation_date) {
        Some(id) => id,
        None => {
            return Err(ServiceError::PersistenceFailure);
        },
    };
    if creation_date > i64::MAX as u128 || db.find_ticket(id).is_some() || db.has_ticket_for(user_id, event_id) {
        return Err(ServiceError::PersistenceFailure);
    }
    let ticket = Ticket {
        id,
        event_id,
        holder_id: user_id,
        single_entry: true,
        expended: false,
        creation_date: creation_date as i64,
    };
    let mut tickets = db.take_tickets();
    tickets.push(ticket);
    db.put_tickets(tickets);
    Ok(ticket)
}

/// Redeems ticket `ticket_id`: marks it expended, once and for good.
pub fn expend_ticket(db: &mut MainDb, ticket_id: i64) -> (res: Result<bool, ServiceError>)
    ensures
        res == redeem_outcome(old(db).tickets(), ticket_id),
        final(db).tickets() == redeemed(old(db).tickets(), ticket_id),
        final(db).events() == old(db).events(),
        final(db).next_event_id() == old(db).next_event_id(),
{
    proof {
        use_type_invariant(&*db);
    }
    match db.find_ticket(ticket_id) {
        None => Err(ServiceError::UnknownTicket),
        Some(i) => {
            let ticket = db.tickets[i];
            if ticket.expended {
                return Err(ServiceError::AlreadyExpended);
            }
            let mut tickets = db.take_tickets();
            tickets.set(i, Ticket { expended: true, ..ticket });
            db.put_tickets(tickets);
            Ok(true)
        },
    }
}

/// Takes the entries with the id `event_id` out of the catalog and answers
/// the status line of the deletion.
pub fn delete_event(db: &mut MainDb, event_id: i64) -> (status: String)
    ensures
        status@ == "{\"status\":200}"@,
        final(db).events() == without_event(old(db).events(), event_id),
        final(db).tickets() == old(db).tickets(),
        final(db).next_event_id() == old(db).next_event_id(),
{
    proof {
        use_type_invariant(&*db);
    }
    let ghost all = db.events();
    let events = db.take_events();
    let mut kept: Vec<Event> = Vec::new();
    let mut k: usize = 0;
    proof {
        reveal(Seq::filter);
    }
    while k < events.len()
        invariant
            k <= events.len(),
            all == event_views(events@),
            event_ids_below(all, db.next_event_id),
            event_views(kept@) == without_event(all.take(k as int), event_id),
            event_ids_below(event_views(kept@), db.next_event_id),
        decreases events.len() - k,
    {
        let event = &events[k];
        proof {
            assert(all[k as int] == event@);
            assert(all.take(k + 1) =~= all.take(k as int).push(event@));
            lemma_without_event_push(all.take(k as int), event@, event_id);
        }
        if event.id != event_id {
            let ghost before = kept@;
            kept.push(event.clone());
            assert(event_views(kept@) =~= event_views(before).push(event@));
        }
        k += 1;
    }
    assert(all.take(k as int) =~= all);
    db.put_events(kept);
    String::from_str("{\"status\":200}")
}

/// Adds a catalog entry made from `data` under the next free id.
///
/// Where no id is left, the entry is turned down as a persistence failure
/// and the catalog stays as it was.
pub fn execute_insert(db: &mut MainDb, data: EventCreateData) -> (res: Result<String, ServiceError>)
    ensures
        match res {
            Ok(word) => {
                &&& old(db).next_event_id() < i64::MAX
                &&& word@ == "done"@
                &&& final(db).events() == old(db).events().push(created_event(data, old(db).next_event_id()))
                &&& final(db).next_event_id() == old(db).next_event_id() + 1
            },
            Err(e) => {
                &&& old(db).next_event_id() == i64::MAX
                &&& e == ServiceError::PersistenceFailure
                &&& final(db).events() == old(db).events()
                &&& final(db).next_event_id() == old(db).next_event_id()
            },
        },
        final(db).tickets() == old(db).tickets(),
{
    proof {
        use_type_invariant(&*db);
    }
    if db.next_event_id == i64::MAX {
        return Err(ServiceError::PersistenceFailure);
    }
    let id = db.next_event_id;
    let event = Event {
        id,
        start_time: data.start_time,
        end_time: data.end_time,
        title: data.title,
        human_location: data.human_location,
        latitude: data.latitude,
        longitude: data.longitude,
        details: data.details,
        image: data.image,
        point_reward: data.point_reward,
        sale_deadline: data.sale_deadline,
    };
    let ghost before = db.events();
    let mut events = db.take_events();
    let tickets = db.take_tickets();
    events.push(event);
    assert(event_views(events@) =~= before.push(created_event(data, id)));
    let mut grown = MainDb { events, tickets, next_event_id: id + 1 };
    core::mem::swap(db, &mut grown);
    Ok(String::from_str("done"))
}

/// A ticket is redeemed once: after a redemption that went through, every
/// further redemption of the same ticket is turned down as already expended
/// and changes nothing.
pub proof fn redemption_happens_once(tickets: Seq<Ticket>, id: i64)
    requires
        tickets_wf(tickets),
        redeem_outcome(tickets, id) is Ok,
    ensures
        redeem_outcome(redeemed(tickets, id), id) == Err::<bool, ServiceError>(ServiceError::AlreadyExpended),
        redeemed(redeemed(tickets, id), id) == redeemed(tickets, id),
{
    let after = redeemed(tickets, id);
    let k = ticket_index(tickets, id);
    assert(after[k].id == id);
}

/// A redemption keeps the book valid, keeps every ticket in its place, and
/// never takes the mark of an expended ticket away.
pub proof fn redemption_is_sound(tickets: Seq<Ticket>, id: i64)
    requires
        tickets_wf(tickets),
    ensures
        tickets_wf(redeemed(tickets, id)),
        redeemed(tickets, id).len() == tickets.len(),
        forall|i: int|
            0 <= i < tickets.len() ==> {
                &&& (#[trigger] redeemed(tickets, id)[i]).id == tickets[i].id
                &&& redeemed(tickets, id)[i].event_id == tickets[i].event_id
                &&& redeemed(tickets, id)[i].holder_id == tickets[i].holder_id
                &&& redeemed(tickets, id)[i].creation_date == tickets[i].creation_date
                &&& tickets[i].expended ==> redeemed(tickets, id)[i].expended
            },
{
}

/// A ticket that is written is valid, belongs to its holder and its event,
/// and joins a book that stays valid: the holder has exactly this one ticket
/// for the event.
pub proof fn written_ticket_is_the_only_one(tickets: Seq<Ticket>, event_id: i64, user_id: i64, creation_date: u128)
    requires
        tickets_wf(tickets),
        fresh_ticket(tickets, event_id, user_id, creation_date) is Some,
    ensures
        ({
            let ticket = fresh_ticket(tickets, event_id, user_id, creation_date)->0;
            &&& !ticket.expended
            &&& ticket.holder_id == user_id
            &&& ticket.event_id == event_id
            &&& tickets_wf(tickets.push(ticket))
            &&& holds_ticket(tickets.push(ticket), user_id, event_id)
            &&& selected_tickets(tickets.push(ticket), TicketQuery::GetUserEventTickets(user_id, event_id))
                == seq![ticket]
        }),
{
    let ticket = fresh_ticket(tickets, event_id, user_id, creation_date)->0;
    let grown = tickets.push(ticket);
    let query = TicketQuery::GetUserEventTickets(user_id, event_id);
    assert(grown[tickets.len() as int] == ticket);
    lemma_selected_tickets_push(tickets, ticket, query);
    lemma_none_selected(tickets, user_id, event_id);
}

/// A holder without a ticket for an event has none selected.
proof fn lemma_none_selected(tickets: Seq<Ticket>, user_id: i64, event_id: i64)
    requires
        !holds_ticket(tickets, user_id, event_id),
    ensures
        selected_tickets(tickets, TicketQuery::GetUserEventTickets(user_id, event_id)) == Seq::<Ticket>::empty(),
    decreases tickets.len(),
{
    let query = TicketQuery::GetUserEventTickets(user_id, event_id);
    if tickets.len() == 0 {
        reveal(Seq::filter);
    } else {
        let front = tickets.drop_last();
        assert forall|i: int| 0 <= i < front.len() implies !((#[trigger] front[i]).holder_id == user_id
            && front[i].event_id == event_id) by {
        }
        lemma_none_selected(front, user_id, event_id);
        assert(tickets =~= front.push(tickets.last()));
        lemma_selected_tickets_push(front, tickets.last(), query);
    }
}

/// The text of a ticket id: the last three decimal digits of the creation
/// time without leading zeros, then the event id padded to six digits, then
/// the holder id padded to seven.
pub open spec fn ticket_text(event_id: nat, user_id: nat, creation_date: nat) -> Seq<char> {
    digits(creation_date % 1000) + zero_padded(digits(event_id), 6) + zero_padded(digits(user_id), 7)
}

/// The scale of a number that is padded to `width` digits is ten to the
/// number of characters that the padded number takes.
proof fn lemma_scale_is_power(n: nat, width: nat)
    requires
        width >= 1,
    ensures
        padded_scale(n as int, pow10(width)) == pow10(zero_padded(digits(n), width).len()),
    decreases
            (if pow10(width) <= n {
                n - pow10(width) + 1
            } else {
                0
            }),
{
    pow10_grows(0, width);
    digits_fit_width(n, width);
    if n >= pow10(width) {
        digits_fit_width(n, width + 1);
        lemma_scale_is_power(n, width + 1);
    }
}

/// The ticket number is the number that the text of the ticket id reads as.
pub proof fn ticket_number_reads_the_text(event_id: nat, user_id: nat, creation_date: nat)
    ensures
        ticket_number(event_id as int, user_id as int, creation_date as int) == number_of(
            ticket_text(event_id, user_id, creation_date),
        ),
{
    let millis = digits(creation_date % 1000);
    let event = zero_padded(digits(event_id), 6);
    let holder = zero_padded(digits(user_id), 7);
    assert(pow10(6) == 1_000_000 && pow10(7) == 10_000_000) by {
        reveal_with_fuel(pow10, 8);
    }
    lemma_scale_is_power(event_id, 6);
    lemma_scale_is_power(user_id, 7);
    digits_read_back(creation_date % 1000);
    digits_read_back(event_id);
    digits_read_back(user_id);
    padding_reads_the_same(digits(event_id), 6);
    padding_reads_the_same(digits(user_id), 7);
    joined_text_reads_shifted(millis, event);
    joined_text_reads_shifted(millis + event, holder);
    let t = (creation_date % 1000) as int;
    let e = event_id as int;
    let u = user_id as int;
    let pe = pow10(event.len());
    let pu = pow10(holder.len());
    assert((t * pe + e) * pu + u == t * (pe * pu) + e * pu + u) by (nonlinear_arith);
}

} // verus!
