use airstrip_ops::ids::fetch_and_increment_id;
use airstrip_ops::message::Message;
use airstrip_ops::state::AppState;

#[test]
fn first_identifier_is_zero() {
    let mut state = AppState::new();
    assert_eq!(state.ids.peek(), 0);
    assert_eq!(fetch_and_increment_id(&mut state.ids), Ok(0));
    assert_eq!(state.ids.peek(), 1);
}

#[test]
fn identifiers_strictly_increase() {
    let mut state = AppState::new();
    let mut last = fetch_and_increment_id(&mut state.ids).unwrap();
    for _ in 0..200 {
        let next = fetch_and_increment_id(&mut state.ids).unwrap();
        assert_eq!(next, last + 1);
        last = next;
    }
    assert_eq!(last, 200);
}

#[test]
fn advance_moves_the_counter_up_only() {
    let mut state = AppState::new();
    state.ids.advance_to(40);
    assert_eq!(state.ids.peek(), 40);
    state.ids.advance_to(7);
    assert_eq!(state.ids.peek(), 40);
    assert_eq!(fetch_and_increment_id(&mut state.ids), Ok(40));
    assert_eq!(fetch_and_increment_id(&mut state.ids), Ok(41));
}

#[test]
fn last_number_is_never_handed_out() {
    let mut state = AppState::new();
    state.ids.advance_to(u64::MAX - 1);
    assert_eq!(fetch_and_increment_id(&mut state.ids), Ok(u64::MAX - 1));
    assert_eq!(
        fetch_and_increment_id(&mut state.ids),
        Err(Message::Fatal("Identifier counter exhausted".to_string()))
    );
    assert_eq!(state.ids.peek(), u64::MAX);
    assert!(fetch_and_increment_id(&mut state.ids).is_err());
}

#[test]
fn identifiers_are_shared_by_all_record_kinds() {
    let mut state = AppState::new();
    let pilot = state
        .register_pilot(airstrip_ops::payload::RegisterPilotPayload {
            name: "Ann".to_string(),
            license_number: "L-1".to_string(),
            experience_years: 4,
            contact: "radio".to_string(),
            email: "ann@example.org".to_string(),
        })
        .unwrap();
    let fuel = state
        .update_fuel_inventory(9, "Jet A".to_string(), 1.5f64.to_bits(), 2.0f64.to_bits(), 5)
        .unwrap();
    assert_eq!(pilot.id, 0);
    assert_eq!(fuel.id, 1);
}

#[test]
fn identifiers_increase_across_other_operations() {
    let mut state = AppState::new();
    let first = fetch_and_increment_id(&mut state.ids).unwrap();
    let pilot = state
        .register_pilot(airstrip_ops::payload::RegisterPilotPayload {
            name: "Ann".to_string(),
            license_number: "L-1".to_string(),
            experience_years: 4,
            contact: "radio".to_string(),
            email: "ann@example.org".to_string(),
        })
        .unwrap();
    assert!(state.cancel_flight(99).is_err());
    assert!(state.schedule_pilot(pilot.id, 99, 1, 2).is_err());
    assert!(state.get_pilot_schedule(pilot.id).is_empty());
    state.ids.advance_to(3);
    let second = fetch_and_increment_id(&mut state.ids).unwrap();
    assert!(first < pilot.id);
    assert!(pilot.id < second);
    assert_eq!((first, pilot.id, second), (0, 1, 3));
}
