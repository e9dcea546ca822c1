use macsvc::db_auth::User;
use macsvc::db_main::{Event, Ticket};
use macsvc::pass::{
    calculate_hash, date_of_millis, generate_id_json, generate_pass_json, hex_digest, millis_to_system_time,
};
use macsvc::text::{decimal, hex, joined};

fn pass_holder() -> User {
    User {
        id: 42,
        student_id: "100200".to_string(),
        username: "ada".to_string(),
        full_name: "Ada Lovelace".to_string(),
        pass_hash: "hash".to_string(),
        lifetime: 10,
        score: 5,
        data: String::new(),
    }
}

fn pass_event(start: i64, end: i64) -> Event {
    Event {
        id: 23,
        start_time: start,
        end_time: end,
        title: "Winter Concert".to_string(),
        human_location: "Main Hall".to_string(),
        latitude: 37.46f64.to_bits(),
        longitude: (-122.17f64).to_bits(),
        details: "Doors open at seven".to_string(),
        image: "concert.png".to_string(),
        point_reward: -100,
        sale_deadline: start,
    }
}

fn pass_ticket() -> Ticket {
    Ticket {
        id: 1230000230000042,
        event_id: 23,
        holder_id: 42,
        single_entry: true,
        expended: false,
        creation_date: 1_650_000_000_123,
    }
}

#[test]
fn milliseconds_split_into_seconds_and_nanoseconds() {
    assert_eq!(millis_to_system_time(0), Some((0, 0)));
    assert_eq!(millis_to_system_time(1_700_000_000_123), Some((1_700_000_000, 123_000_000)));
    assert_eq!(millis_to_system_time(999), Some((0, 999_000_000)));
    assert_eq!(millis_to_system_time(i64::MAX), Some((9_223_372_036_854_775, 807_000_000)));
    assert_eq!(millis_to_system_time(-1), None);
}

#[test]
fn dates_are_written_in_iso_8601() {
    assert_eq!(date_of_millis(0), Some("1970-01-01T00:00:00+00:00".to_string()));
    assert_eq!(date_of_millis(1_700_000_000_123), Some("2023-11-14T22:13:20.123+00:00".to_string()));
    assert_eq!(date_of_millis(951_782_400_000), Some("2000-02-29T00:00:00+00:00".to_string()));
}

#[test]
fn there_is_no_date_before_1970_or_past_the_last_year() {
    assert_eq!(date_of_millis(-1), None);
    assert_eq!(date_of_millis(i64::MAX), None);
    assert_eq!(date_of_millis(8_210_266_876_800_000), None);
    assert_eq!(date_of_millis(8_210_266_876_799_999), Some("+262142-12-31T23:59:59.999+00:00".to_string()));
}

#[test]
fn numbers_are_written_in_decimal() {
    assert_eq!(decimal(0), "0");
    assert_eq!(decimal(7), "7");
    assert_eq!(decimal(10), "10");
    assert_eq!(decimal(1230000230000042), "1230000230000042");
    assert_eq!(decimal(-45), "-45");
    assert_eq!(decimal(i64::MAX), "9223372036854775807");
    assert_eq!(decimal(i64::MIN), "-9223372036854775808");
}

#[test]
fn bytes_are_written_in_lower_case_hexadecimal() {
    assert_eq!(hex(&[]), "");
    assert_eq!(hex(&[0x00, 0x0f, 0xa0, 0xff, 0x5c]), "000fa0ff5c");
    assert_eq!(hex_digest(&[0xde, 0xad, 0xbe, 0xef]), "deadbeef");
    assert_eq!(joined("ab", "cd"), "abcd");
    assert_eq!(joined("", ""), "");
}

#[test]
fn the_hash_of_a_file_is_its_sha1_in_hexadecimal() {
    assert_eq!(calculate_hash(b"abc"), Some("a9993e364706816aba3e25717850c26c9cd0d89d".to_string()));
    assert_eq!(calculate_hash(b""), Some("da39a3ee5e6b4b0d3255bfef95601890afd80709".to_string()));
}

#[test]
fn the_pass_of_a_ticket_shows_ticket_event_and_holder() {
    let pass = generate_pass_json(pass_ticket(), pass_event(1_700_000_000_000, 1_700_003_600_000), pass_holder())
        .unwrap();
    assert_eq!(pass.serial_number, "1230000230000042");
    assert_eq!(pass.barcode_message, "1230000230000042");
    assert_eq!(pass.relevant_date, "2023-11-14T22:13:20+00:00");
    assert_eq!(pass.date, "2023-11-14T22:13:20+00:00");
    assert_eq!(pass.expiration_date, "2023-11-15T23:13:20+00:00");
    assert_eq!(f64::from_bits(pass.latitude), 37.46);
    assert_eq!(f64::from_bits(pass.longitude), -122.17);
    assert_eq!(pass.event, "Winter Concert");
    assert_eq!(pass.location, "Main Hall");
    assert_eq!(pass.holder, "100200 - ada");
    assert_eq!(pass.description, "Doors open at seven");
    assert_eq!(pass.creation_date, "1650000000123");
}

#[test]
fn there_is_no_pass_for_an_event_without_dates() {
    assert_eq!(generate_pass_json(pass_ticket(), pass_event(-5, 1_700_003_600_000), pass_holder()), None);
    assert_eq!(generate_pass_json(pass_ticket(), pass_event(5, i64::MAX), pass_holder()), None);
    assert_eq!(generate_pass_json(pass_ticket(), pass_event(5, i64::MAX - 86_400_000), pass_holder()), None);
    assert_eq!(generate_pass_json(pass_ticket(), pass_event(5, -86_400_001), pass_holder()), None);
    assert!(generate_pass_json(pass_ticket(), pass_event(5, -86_400_000), pass_holder()).is_some());
}

#[test]
fn the_identity_pass_shows_the_account() {
    let pass = generate_id_json(pass_holder());
    assert_eq!(pass.serial_number, "10020042");
    assert_eq!(pass.barcode_message, "100200");
    assert_eq!(pass.username, "ada");
    assert_eq!(pass.full_name, "Ada Lovelace");
    assert_eq!(pass.student_id, "100200");
    assert_eq!(pass.account_id, "42");
}
