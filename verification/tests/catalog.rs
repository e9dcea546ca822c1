use macsvc::db_main::{
    delete_event, execute_events, execute_insert, get_event_by_id, Event, EventCreateData, EventQuery, MainDb,
};
use macsvc::error::ServiceError;

fn fair(id: i64, start: i64) -> Event {
    Event {
        id,
        start_time: start,
        end_time: start + 3_600_000,
        title: format!("Fair {}", id),
        human_location: "Quad".to_string(),
        latitude: 1.5f64.to_bits(),
        longitude: 2.5f64.to_bits(),
        details: "Bring a friend".to_string(),
        image: "fair.png".to_string(),
        point_reward: 5,
        sale_deadline: start,
    }
}

fn fair_data(start: i64) -> EventCreateData {
    EventCreateData {
        id: 77,
        start_time: start,
        end_time: start + 3_600_000,
        title: "Fair 1".to_string(),
        human_location: "Quad".to_string(),
        latitude: 1.5f64.to_bits(),
        longitude: 2.5f64.to_bits(),
        details: "Bring a friend".to_string(),
        image: "fair.png".to_string(),
        point_reward: 5,
        sale_deadline: start,
    }
}

fn fairs() -> MainDb {
    MainDb::from_rows(vec![fair(1, 300), fair(2, 100), fair(3, 400), fair(4, 200), fair(5, -50)], Vec::new(), 6)
        .unwrap()
}

fn ids_of(events: &Vec<Event>) -> Vec<i64> {
    events.iter().map(|event| event.id).collect()
}

#[test]
fn all_events_come_latest_first() {
    let found = execute_events(&fairs(), EventQuery::GetAllEvents, 0);
    assert_eq!(ids_of(&found), vec![3, 1, 4, 2, 5]);
    assert_eq!(found[0], fair(3, 400));
}

#[test]
fn future_events_start_after_the_present() {
    assert_eq!(ids_of(&execute_events(&fairs(), EventQuery::GetFutureEvents, 200)), vec![3, 1]);
    assert_eq!(ids_of(&execute_events(&fairs(), EventQuery::GetFutureEvents, 0)), vec![3, 1, 4, 2]);
    assert_eq!(ids_of(&execute_events(&fairs(), EventQuery::GetFutureEvents, 400)), Vec::<i64>::new());
    assert_eq!(ids_of(&execute_events(&fairs(), EventQuery::GetFutureEvents, u128::MAX)), Vec::<i64>::new());
}

#[test]
fn an_event_is_found_by_its_id() {
    assert_eq!(execute_events(&fairs(), EventQuery::GetEventById, 4), vec![fair(4, 200)]);
    assert_eq!(execute_events(&fairs(), EventQuery::GetEventById, 9), Vec::<Event>::new());
    assert_eq!(execute_events(&fairs(), EventQuery::GetEventById, u128::MAX), Vec::<Event>::new());
    assert_eq!(get_event_by_id(&fairs(), 4), Ok(fair(4, 200)));
    assert_eq!(get_event_by_id(&fairs(), 9), Err(ServiceError::UnknownEvent));
}

#[test]
fn an_id_that_two_entries_carry_is_unknown() {
    let main = MainDb::from_rows(vec![fair(1, 300), fair(2, 100), fair(1, 50)], Vec::new(), 6).unwrap();
    assert_eq!(get_event_by_id(&main, 1), Err(ServiceError::UnknownEvent));
    assert_eq!(get_event_by_id(&main, 2), Ok(fair(2, 100)));
    assert_eq!(execute_events(&main, EventQuery::GetEventById, 1).len(), 2);
}

#[test]
fn events_with_equal_start_keep_catalog_order() {
    let main = MainDb::from_rows(vec![fair(1, 100), fair(2, 100), fair(3, 100)], Vec::new(), 6).unwrap();
    assert_eq!(ids_of(&execute_events(&main, EventQuery::GetAllEvents, 0)), vec![1, 2, 3]);
}

#[test]
fn a_new_entry_gets_the_next_id() {
    let mut main = MainDb::new();
    assert_eq!(execute_insert(&mut main, fair_data(300)), Ok("done".to_string()));
    assert_eq!(execute_insert(&mut main, fair_data(500)), Ok("done".to_string()));
    assert_eq!(main.event_rows()[0], fair(1, 300));
    assert_eq!(main.event_rows()[1].id, 2);
    assert_eq!(main.next_id(), 3);
}

#[test]
fn a_full_catalog_takes_no_entry() {
    let mut main = MainDb::from_rows(vec![fair(1, 300)], Vec::new(), i64::MAX).unwrap();
    assert_eq!(execute_insert(&mut main, fair_data(300)), Err(ServiceError::PersistenceFailure));
    assert_eq!(main.event_rows(), vec![fair(1, 300)]);
    assert_eq!(main.next_id(), i64::MAX);
}

#[test]
fn deleting_an_event_takes_it_out_of_the_catalog() {
    let mut main = fairs();
    assert_eq!(delete_event(&mut main, 4), "{\"status\":200}");
    assert_eq!(ids_of(&main.event_rows()), vec![1, 2, 3, 5]);
    assert_eq!(delete_event(&mut main, 4), "{\"status\":200}");
    assert_eq!(ids_of(&main.event_rows()), vec![1, 2, 3, 5]);
    assert_eq!(main.next_id(), 6);
}
