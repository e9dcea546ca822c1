//! What a wallet pass shows of a ticket and of its holder.

use vstd::prelude::*;
use vstd::string::*;
use std::time::{Duration, UNIX_EPOCH};
use chrono::{DateTime, Utc};
use openssl::hash::MessageDigest;
use crate::db_auth::{User, UserView};
use crate::db_main::{Event, EventView, Ticket};
use crate::text::{decimal, decimal_text, hex, hex_text, joined};

verus! {

/// The last second that a date can be made of.
pub const LAST_SECOND: u64 = 8_210_266_876_799;

/// The milliseconds of a day.
pub const DAY_MILLIS: i64 = 86_400_000;

/// The date and time at `secs` seconds and `nanos` nanoseconds after the
/// start of 1970, in UTC, as chrono writes it for the format `%+`.
pub uninterp spec fn iso8601_text(secs: u64, nanos: u32) -> Seq<char>;

/// The SHA-1 digest of `data`.
pub uninterp spec fn sha1_digest(data: Seq<u8>) -> Seq<u8>;

/// `DateTime::<Utc>::from` on the system time at `secs` and `nanos` after the
/// epoch, written by `DateTime::format` with `%+`. The text is a function of
/// the two numbers alone. The conversion aborts past the last second that
/// chrono can hold, which the precondition leaves out.
#[verifier::external_body]
fn iso8601(secs: u64, nanos: u32) -> (text: String)
    requires
        secs <= LAST_SECOND,
        nanos < 1_000_000_000,
    ensures
        text@ == iso8601_text(secs, nanos),
{
    let time = UNIX_EPOCH + Duration::new(secs, nanos);
    let date: DateTime<Utc> = time.into();
    format!("{}", date.format("%+"))
}

/// `openssl::hash::hash` with `MessageDigest::sha1()`: where OpenSSL answers,
/// the answer is the SHA-1 digest of the data.
#[verifier::external_body]
fn sha1(data: &[u8]) -> (digest: Option<Vec<u8>>)
    ensures
        digest matches Some(bytes) ==> bytes@ == sha1_digest(data@),
{
    match openssl::hash::hash(MessageDigest::sha1(), data) {
        Ok(bytes) => Some(bytes.to_vec()),
        Err(_) => None,
    }
}

/// The seconds and nanoseconds that `millis` milliseconds come to, where
/// `millis` is not negative.
pub open spec fn split_millis(millis: i64) -> Option<(u64, u32)> {
    if millis < 0 {
        None
    } else {
        Some(((millis / 1000) as u64, ((millis % 1000) * 1_000_000) as u32))
    }
}

/// The date at `millis` milliseconds after the start of 1970, as text, where
/// there is such a date.
pub open spec fn date_text(millis: int) -> Option<Seq<char>> {
    if millis < 0 || millis / 1000 > LAST_SECOND {
        None
    } else {
        Some(iso8601_text((millis / 1000) as u64, ((millis % 1000) * 1_000_000) as u32))
    }
}

/// The point in time `millis` milliseconds after the start of 1970, as
/// seconds and nanoseconds. A negative `millis` is no such point.
pub fn millis_to_system_time(millis: i64) -> (time: Option<(u64, u32)>)
    ensures
        time == split_millis(millis),
{
    if millis < 0 {
        None
    } else {
        Some(((millis / 1000) as u64, ((millis % 1000) * 1_000_000) as u32))
    }
}

/// The date at `millis` milliseconds after the start of 1970, as text, where
/// there is such a date.
pub fn date_of_millis(millis: i64) -> (text: Option<String>)
    ensures
        match text {
            Some(text) => date_text(millis as int) == Some(text@),
            None => date_text(millis as int) is None,
        },
{
    match millis_to_system_time(millis) {
        Some((secs, nanos)) => if secs <= LAST_SECOND {
            Some(iso8601(secs, nanos))
        } else {
            None
        },
        None => None,
    }
}

/// The digest of a file of the pass, as the manifest lists it: the bytes of
/// `digest` in lower-case hexadecimal.
pub fn hex_digest(digest: &[u8]) -> (text: String)
    ensures
        text@ == hex_text(digest@),
{
    hex(digest)
}

/// The SHA-1 digest of `content` in lower-case hexadecimal, where OpenSSL
/// computes one.
pub fn calculate_hash(content: &[u8]) -> (text: Option<String>)
    ensures
        text matches Some(text) ==> text@ == hex_text(sha1_digest(content@)),
{
    match sha1(content) {
        Some(digest) => Some(hex_digest(digest.as_slice())),
        None => None,
    }
}

/// What the pass of a ticket shows.
#[derive(Debug, PartialEq, Eq)]
pub struct TicketPass {
    pub serial_number: String,
    pub relevant_date: String,
    pub expiration_date: String,
    pub latitude: u64,
    pub longitude: u64,
    pub barcode_message: String,
    pub event: String,
    pub date: String,
    pub location: String,
    pub holder: String,
    pub description: String,
    pub creation_date: String,
}

/// The mathematical value of a [`TicketPass`].
pub struct TicketPassView {
    pub serial_number: Seq<char>,
    pub relevant_date: Seq<char>,
    pub expiration_date: Seq<char>,
    pub latitude: u64,
    pub longitude: u64,
    pub barcode_message: Seq<char>,
    pub event: Seq<char>,
    pub date: Seq<char>,
    pub location: Seq<char>,
    pub holder: Seq<char>,
    pub description: Seq<char>,
    pub creation_date: Seq<char>,
}

impl View for TicketPass {
    type V = TicketPassView;

    open spec fn view(&self) -> TicketPassView {
        TicketPassView {
            serial_number: self.serial_number@,
            relevant_date: self.relevant_date@,
            expiration_date: self.expiration_date@,
            latitude: self.latitude,
            longitude: self.longitude,
            barcode_message: self.barcode_message@,
            event: self.event@,
            date: self.date@,
            location: self.location@,
            holder: self.holder@,
            description: self.description@,
            creation_date: self.creation_date@,
        }
    }
}

/// What the identity pass of a user shows.
#[derive(Debug, PartialEq, Eq)]
pub struct IdPass {
    pub serial_number: String,
    pub barcode_message: String,
    pub username: String,
    pub full_name: String,
    pub student_id: String,
    pub account_id: String,
}

/// The mathematical value of an [`IdPass`].
pub struct IdPassView {
    pub serial_number: Seq<char>,
    pub barcode_message: Seq<char>,
    pub username: Seq<char>,
    pub full_name: Seq<char>,
    pub student_id: Seq<char>,
    pub account_id: Seq<char>,
}

impl View for IdPass {
    type V = IdPassView;

    open spec fn view(&self) -> IdPassView {
        IdPassView {
            serial_number: self.serial_number@,
            barcode_message: self.barcode_message@,
            username: self.username@,
            full_name: self.full_name@,
            student_id: self.student_id@,
            account_id: self.account_id@,
        }
    }
}

/// What the pass of `ticket` for `event`, held by `user`, shows: the ticket
/// id as serial number and barcode, the start of the event as the relevant
/// date, the day after its end as the expiry, and the holder as student id
/// and username. There is no pass where one of the two dates does not exist.
pub open spec fn ticket_pass(ticket: Ticket, event: EventView, user: UserView) -> Option<TicketPassView> {
    match (date_text(event.start_time as int), date_text(event.end_time + DAY_MILLIS)) {
        (Some(start), Some(expiry)) => Some(
            TicketPassView {
                serial_number: decimal_text(ticket.id as int),
                relevant_date: start,
                expiration_date: expiry,
                latitude: event.latitude,
                longitude: event.longitude,
                barcode_message: decimal_text(ticket.id as int),
                event: event.title,
                date: start,
                location: event.human_location,
                holder: user.student_id + " - "@ + user.username,
                description: event.details,
                creation_date: decimal_text(ticket.creation_date as int),
            },
        ),
        _ => None,
    }
}

/// What the identity pass of `user` shows: the student id followed by the
/// account id as serial number, and the student id as barcode.
pub open spec fn id_pass(user: UserView) -> IdPassView {
    IdPassView {
        serial_number: user.student_id + decimal_text(user.id as int),
        barcode_message: user.student_id,
        username: user.username,
        full_name: user.full_name,
        student_id: user.student_id,
        account_id: decimal_text(user.id as int),
    }
}

/// What the pass of `ticket` for `event`, held by `user`, shows.
pub fn generate_pass_json(ticket: Ticket, event: Event, user: User) -> (pass: Option<TicketPass>)
    ensures
        match pass {
            Some(pass) => ticket_pass(ticket, event@, user@) == Some(pass@),
            None => ticket_pass(ticket, event@, user@) is None,
        },
{
    let start = match date_of_millis(event.start_time) {
        Some(start) => start,
        None => {
            return None;
        },
    };
    if event.end_time > i64::MAX - DAY_MILLIS {
        return None;
    }
    let expiry = match date_of_millis(event.end_time + DAY_MILLIS) {
        Some(expiry) => expiry,
        None => {
            return None;
        },
    };
    let holder = joined(joined(user.student_id.as_str(), " - ").as_str(), user.username.as_str());
    Some(
        TicketPass {
            serial_number: decimal(ticket.id),
            relevant_date: start.clone(),
            expiration_date: expiry,
            latitude: event.latitude,
            longitude: event.longitude,
            barcode_message: decimal(ticket.id),
            event: event.title,
            date: start,
            location: event.human_location,
            holder,
            description: event.details,
            creation_date: decimal(ticket.creation_date),
        },
    )
}

/// What the identity pass of `user` shows.
pub fn generate_id_json(user: User) -> (pass: IdPass)
    ensures
        pass@ == id_pass(user@),
{
    let account_id = decimal(user.id);
    IdPass {
        serial_number: joined(user.student_id.as_str(), account_id.as_str()),
        barcode_message: user.student_id.clone(),
        username: user.username,
        full_name: user.full_name,
        student_id: user.student_id,
        account_id,
    }
}

} // verus!
