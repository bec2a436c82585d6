use airstrip_ops::flight::FlightStatus;
use airstrip_ops::maintenance::MaintenanceStatus;
use airstrip_ops::message::Message;
use airstrip_ops::payload::{
    CreateAirstripPayload, RegisterPilotPayload, ScheduleFlightPayload,
    ScheduleMaintenancePayload,
};
use airstrip_ops::pilot_schedule::ScheduleStatus;
use airstrip_ops::scheduling::CapacityStatus;
use airstrip_ops::state::AppState;

fn airstrip(name: &str, capacity: u64) -> CreateAirstripPayload {
    CreateAirstripPayload {
        name: name.to_string(),
        location: "north".to_string(),
        contact: "tower".to_string(),
        email: "tower@example.org".to_string(),
        runway_length: 1800,
        capacity,
    }
}

fn flight(airstrip_id: u64, number: &str, departure_time: u64, arrival_time: u64) -> ScheduleFlightPayload {
    ScheduleFlightPayload {
        airstrip_id,
        flight_number: number.to_string(),
        destination: "Lodwar".to_string(),
        departure_time,
        arrival_time,
    }
}

fn pilot(name: &str) -> RegisterPilotPayload {
    RegisterPilotPayload {
        name: name.to_string(),
        license_number: "CPL-77".to_string(),
        experience_years: 6,
        contact: "radio".to_string(),
        email: "p@example.org".to_string(),
    }
}

fn not_found(text: &str) -> Message {
    Message::NotFound(text.to_string())
}

fn invalid(text: &str) -> Message {
    Message::InvalidPayload(text.to_string())
}

#[test]
fn new_state_is_blank() {
    let state = AppState::new();
    assert_eq!(state.ids.peek(), 0);
    assert!(state.airstrips.scan().is_empty());
    assert!(state.flights.scan().is_empty());
    assert!(state.pilots.scan().is_empty());
    assert!(state.maintenance_schedules.scan().is_empty());
    assert!(state.pilot_schedules.scan().is_empty());
    assert!(state.emergency_protocols.scan().is_empty());
    assert!(state.fuel_inventories.scan().is_empty());
    assert!(state.revenues.scan().is_empty());
}

#[test]
fn created_airstrip_is_on_record() {
    let mut state = AppState::new();
    let created = state.create_airstrip(airstrip("Wilson", 4), 1234).unwrap();
    assert_eq!(created.id, 0);
    assert_eq!(created.name, "Wilson");
    assert_eq!(created.location, "north");
    assert_eq!(created.runway_length, 1800);
    assert_eq!(created.capacity, 4);
    assert_eq!(created.created_at, 1234);
    assert_eq!(state.get_airstrip_info(0), Ok(created));
    assert_eq!(state.get_airstrip_info(1), Err(not_found("Airstrip not found")));
}

#[test]
fn airstrip_fields_are_checked_in_order() {
    let mut state = AppState::new();
    let mut payload = airstrip(" ", 1);
    payload.contact = String::new();
    payload.email = String::new();
    assert_eq!(
        state.create_airstrip(payload.clone(), 0),
        Err(invalid("Airstrip name cannot be empty"))
    );
    payload.name = "Wilson".to_string();
    assert_eq!(state.create_airstrip(payload.clone(), 0), Err(invalid("Contact cannot be empty")));
    payload.contact = "tower".to_string();
    assert_eq!(state.create_airstrip(payload.clone(), 0), Err(invalid("Email cannot be empty")));
    assert_eq!(state.ids.peek(), 0);
    assert!(state.airstrips.scan().is_empty());
    payload.email = "e".to_string();
    payload.location = String::new();
    assert!(state.create_airstrip(payload, 0).is_ok());
}

#[test]
fn empty_airstrip_has_all_slots_free() {
    let mut state = AppState::new();
    let a = state.create_airstrip(airstrip("Wilson", 2), 0).unwrap();
    assert_eq!(
        state.get_capacity_status(a.id, 1000),
        Ok(CapacityStatus {
            total_capacity: 2,
            current_occupancy: 0,
            scheduled_arrivals: 0,
            scheduled_departures: 0,
            available_slots: 2,
        })
    );
}

#[test]
fn capacity_status_of_unknown_airstrip_is_not_found() {
    let state = AppState::new();
    assert_eq!(state.get_capacity_status(3, 0), Err(not_found("Airstrip not found")));
}

#[test]
fn capacity_status_follows_the_flights() {
    let mut state = AppState::new();
    let a = state.create_airstrip(airstrip("Wilson", 3), 0).unwrap();
    let b = state.create_airstrip(airstrip("Other", 3), 0).unwrap();
    let f1 = state.schedule_flight(flight(a.id, "A1", 50, 150)).unwrap();
    let f2 = state.schedule_flight(flight(a.id, "A2", 150, 250)).unwrap();
    state.schedule_flight(flight(b.id, "B1", 150, 250)).unwrap();
    let status = state.get_capacity_status(a.id, 100).unwrap();
    assert_eq!(status.scheduled_arrivals, 2);
    assert_eq!(status.scheduled_departures, 1);
    assert_eq!(status.current_occupancy, 0);
    assert_eq!(status.available_slots, 2);
    let landed = state.flights.update(f1.id, |mut f| {
        f.status = FlightStatus::Arrived;
        f
    });
    assert_eq!(landed, Ok(()));
    let status = state.get_capacity_status(a.id, 100).unwrap();
    assert_eq!(status.current_occupancy, 1);
    assert_eq!(status.scheduled_arrivals, 1);
    assert_eq!(status.scheduled_departures, 1);
    assert_eq!(status.available_slots, 2);
    state.cancel_flight(f2.id).unwrap();
    let status = state.get_capacity_status(a.id, 100).unwrap();
    assert_eq!(
        status,
        CapacityStatus {
            total_capacity: 3,
            current_occupancy: 1,
            scheduled_arrivals: 0,
            scheduled_departures: 0,
            available_slots: 2,
        }
    );
}

#[test]
fn overfull_airstrip_has_no_slots() {
    let mut state = AppState::new();
    let a = state.create_airstrip(airstrip("Wilson", 1), 0).unwrap();
    for n in 0..3 {
        state.schedule_flight(flight(a.id, &format!("A{}", n), 0, 500)).unwrap();
    }
    let status = state.get_capacity_status(a.id, 100).unwrap();
    assert_eq!(status.scheduled_arrivals, 3);
    assert_eq!(status.scheduled_departures, 0);
    assert_eq!(status.available_slots, 0);
}

#[test]
fn scheduled_flight_is_on_record() {
    let mut state = AppState::new();
    let a = state.create_airstrip(airstrip("Wilson", 2), 0).unwrap();
    let f = state.schedule_flight(flight(a.id, "KQ1", 10, 20)).unwrap();
    assert_eq!(f.id, 1);
    assert_eq!(f.airstrip_id, a.id);
    assert_eq!(f.flight_number, "KQ1");
    assert_eq!(f.destination, "Lodwar");
    assert_eq!(f.departure_time, 10);
    assert_eq!(f.arrival_time, 20);
    assert_eq!(f.status, FlightStatus::Scheduled);
    assert_eq!(state.flights.get(1), Some(f));
}

#[test]
fn flight_at_unknown_airstrip_is_turned_down_without_a_trace() {
    let mut state = AppState::new();
    state.create_airstrip(airstrip("Wilson", 2), 0).unwrap();
    let before = state.ids.peek();
    assert_eq!(
        state.schedule_flight(flight(99, "KQ1", 10, 20)),
        Err(not_found("Airstrip not found"))
    );
    assert_eq!(state.ids.peek(), before);
    assert!(state.flights.scan().is_empty());
    assert_eq!(state.airstrips.scan().len(), 1);
}

#[test]
fn flight_texts_are_checked_before_the_airstrip() {
    let mut state = AppState::new();
    assert_eq!(
        state.schedule_flight(flight(99, "  ", 10, 20)),
        Err(invalid("Flight number cannot be empty"))
    );
    let mut payload = flight(99, "KQ1", 10, 20);
    payload.destination = "\n".to_string();
    assert_eq!(state.schedule_flight(payload), Err(invalid("Destination cannot be empty")));
}

#[test]
fn registered_pilot_is_on_record() {
    let mut state = AppState::new();
    let p = state.register_pilot(pilot("Ann")).unwrap();
    assert_eq!(p.id, 0);
    assert_eq!(p.name, "Ann");
    assert_eq!(p.license_number, "CPL-77");
    assert_eq!(p.experience_years, 6);
    assert_eq!(state.pilots.get(0), Some(p));
}

#[test]
fn pilot_needs_every_text_field() {
    let mut state = AppState::new();
    let mut payload = pilot("");
    payload.license_number = " ".to_string();
    payload.contact = String::new();
    payload.email = "\t".to_string();
    assert_eq!(
        state.register_pilot(payload.clone()),
        Err(invalid("Pilot name cannot be empty"))
    );
    payload.name = "Ann".to_string();
    assert_eq!(
        state.register_pilot(payload.clone()),
        Err(invalid("License number cannot be empty"))
    );
    payload.license_number = "CPL-77".to_string();
    assert_eq!(state.register_pilot(payload.clone()), Err(invalid("Contact cannot be empty")));
    payload.contact = "radio".to_string();
    assert_eq!(state.register_pilot(payload.clone()), Err(invalid("Email cannot be empty")));
    assert_eq!(state.ids.peek(), 0);
    assert!(state.pilots.scan().is_empty());
    payload.email = "ann@example.org".to_string();
    assert_eq!(state.register_pilot(payload).unwrap().id, 0);
}

#[test]
fn pilot_with_blank_contact_leaves_no_trace() {
    let mut state = AppState::new();
    state.register_pilot(pilot("Bob")).unwrap();
    let mut payload = pilot("Ann");
    payload.contact = "  ".to_string();
    assert_eq!(state.register_pilot(payload), Err(invalid("Contact cannot be empty")));
    assert_eq!(state.ids.peek(), 1);
    assert_eq!(state.pilots.scan().len(), 1);
}

#[test]
fn maintenance_needs_a_known_airstrip() {
    let mut state = AppState::new();
    let request = ScheduleMaintenancePayload {
        airstrip_id: 0,
        date: 5,
        description: "paint".to_string(),
    };
    assert_eq!(state.schedule_maintenance(request.clone()), Err(not_found("Airstrip not found")));
    assert!(state.maintenance_schedules.scan().is_empty());
    state.create_airstrip(airstrip("Wilson", 2), 0).unwrap();
    let m = state.schedule_maintenance(request).unwrap();
    assert_eq!(m.id, 1);
    assert_eq!(m.airstrip_id, 0);
    assert_eq!(m.date, 5);
    assert_eq!(m.description, "paint");
    assert_eq!(m.status, MaintenanceStatus::Scheduled);
    assert_eq!(state.maintenance_schedules.get(1), Some(m));
    let blank = ScheduleMaintenancePayload { airstrip_id: 77, date: 5, description: String::new() };
    assert_eq!(
        state.schedule_maintenance(blank),
        Err(invalid("Maintenance description cannot be empty"))
    );
}

fn pilot_and_flights(state: &mut AppState) -> (u64, u64, u64) {
    let a = state.create_airstrip(airstrip("Wilson", 2), 0).unwrap();
    let p = state.register_pilot(pilot("Ann")).unwrap();
    let f = state.schedule_flight(flight(a.id, "F1", 100, 200)).unwrap();
    let f2 = state.schedule_flight(flight(a.id, "F2", 150, 250)).unwrap();
    (p.id, f.id, f2.id)
}

#[test]
fn overlapping_commitment_is_a_conflict() {
    let mut state = AppState::new();
    let (p, f, f2) = pilot_and_flights(&mut state);
    let first = state.schedule_pilot(p, f, 100, 200).unwrap();
    assert_eq!(first.status, ScheduleStatus::Scheduled);
    assert_eq!(first.status.label(), "scheduled");
    assert_eq!(first.pilot_id, p);
    assert_eq!(first.flight_id, f);
    assert_eq!(first.start_time, 100);
    assert_eq!(first.end_time, 200);
    let before = state.ids.peek();
    assert_eq!(
        state.schedule_pilot(p, f2, 150, 250),
        Err(Message::Error("Pilot is not available for this time slot".to_string()))
    );
    assert_eq!(state.ids.peek(), before);
    assert_eq!(state.get_pilot_schedule(p), vec![first]);
}

#[test]
fn touching_commitment_is_accepted() {
    let mut state = AppState::new();
    let (p, f, _) = pilot_and_flights(&mut state);
    let first = state.schedule_pilot(p, f, 100, 200).unwrap();
    let second = state.schedule_pilot(p, f, 200, 300).unwrap();
    assert_eq!(second.status, ScheduleStatus::Scheduled);
    assert_eq!(second.id, first.id + 1);
    let third = state.schedule_pilot(p, f, 50, 100).unwrap();
    assert_eq!(state.get_pilot_schedule(p), vec![first, second, third]);
}

#[test]
fn other_pilots_do_not_conflict() {
    let mut state = AppState::new();
    let (p, f, _) = pilot_and_flights(&mut state);
    let q = state.register_pilot(pilot("Bob")).unwrap().id;
    state.schedule_pilot(p, f, 100, 200).unwrap();
    let other = state.schedule_pilot(q, f, 100, 200).unwrap();
    assert_eq!(state.get_pilot_schedule(q), vec![other]);
    assert_eq!(state.get_pilot_schedule(p).len(), 1);
    assert!(state.get_pilot_schedule(12345).is_empty());
}

#[test]
fn commitment_needs_pilot_then_flight() {
    let mut state = AppState::new();
    let (p, f, _) = pilot_and_flights(&mut state);
    assert_eq!(state.schedule_pilot(77, 88, 0, 1), Err(not_found("Pilot not found")));
    assert_eq!(state.schedule_pilot(77, f, 0, 1), Err(not_found("Pilot not found")));
    assert_eq!(state.schedule_pilot(p, 88, 0, 1), Err(not_found("Flight not found")));
    assert_eq!(state.schedule_pilot(p, p, 0, 1), Err(not_found("Flight not found")));
    assert!(state.pilot_schedules.scan().is_empty());
}

#[test]
fn exhausted_identifiers_stop_every_creation() {
    let mut state = AppState::new();
    let (p, f, _) = pilot_and_flights(&mut state);
    state.ids.advance_to(u64::MAX);
    let fatal = Message::Fatal("Identifier counter exhausted".to_string());
    assert_eq!(state.create_airstrip(airstrip("X", 1), 0), Err(fatal.clone()));
    assert_eq!(state.schedule_flight(flight(0, "X", 1, 2)), Err(fatal.clone()));
    assert_eq!(state.register_pilot(pilot("X")), Err(fatal.clone()));
    assert_eq!(state.schedule_pilot(p, f, 1, 2), Err(fatal.clone()));
    assert_eq!(
        state.schedule_maintenance(ScheduleMaintenancePayload {
            airstrip_id: 0,
            date: 1,
            description: "x".to_string(),
        }),
        Err(fatal.clone())
    );
    assert_eq!(
        state.create_emergency_protocol(0, "t".to_string(), "d".to_string(), vec![], vec![], 0),
        Err(fatal.clone())
    );
    assert_eq!(state.update_fuel_inventory(0, "jet".to_string(), 0, 0, 0), Err(fatal.clone()));
    assert_eq!(state.record_revenue(0, "s".to_string(), 0, "d".to_string(), 0), Err(fatal));
    assert_eq!(state.airstrips.scan().len(), 1);
    assert_eq!(state.flights.scan().len(), 2);
    assert_eq!(state.pilots.scan().len(), 1);
    assert!(state.pilot_schedules.scan().is_empty());
}

#[test]
fn emergency_protocols_are_listed_by_airstrip() {
    let mut state = AppState::new();
    let first = state
        .create_emergency_protocol(
            4,
            "weather".to_string(),
            "close the runway".to_string(),
            vec!["112".to_string()],
            vec!["gate A".to_string(), "gate B".to_string()],
            77,
        )
        .unwrap();
    assert_eq!(first.id, 0);
    assert_eq!(first.created_at, 77);
    assert_eq!(first.contact_numbers, vec!["112".to_string()]);
    assert_eq!(first.evacuation_routes.len(), 2);
    let other = state
        .create_emergency_protocol(5, "medical".to_string(), "call".to_string(), vec![], vec![], 78)
        .unwrap();
    let second = state
        .create_emergency_protocol(4, "security".to_string(), "lock".to_string(), vec![], vec![], 79)
        .unwrap();
    assert_eq!(state.get_emergency_protocols(4), vec![first, second]);
    assert_eq!(state.get_emergency_protocols(5), vec![other]);
    assert!(state.get_emergency_protocols(6).is_empty());
    assert_eq!(
        state.create_emergency_protocol(4, " ".to_string(), "d".to_string(), vec![], vec![], 0),
        Err(invalid("Protocol type cannot be empty"))
    );
    assert_eq!(
        state.create_emergency_protocol(4, "t".to_string(), "".to_string(), vec![], vec![], 0),
        Err(invalid("Description cannot be empty"))
    );
}

#[test]
fn fuel_stocks_are_listed_by_airstrip() {
    let mut state = AppState::new();
    let jet = state
        .update_fuel_inventory(1, "Jet A-1".to_string(), 5000.0f64.to_bits(), 0.9f64.to_bits(), 10)
        .unwrap();
    let avgas = state
        .update_fuel_inventory(1, "Avgas".to_string(), 800.5f64.to_bits(), 1.6f64.to_bits(), 11)
        .unwrap();
    state.update_fuel_inventory(2, "Jet A-1".to_string(), 0, 0, 12).unwrap();
    assert_eq!(f64::from_bits(avgas.quantity_bits), 800.5);
    assert_eq!(f64::from_bits(avgas.unit_price_bits), 1.6);
    assert_eq!(avgas.last_updated, 11);
    assert_eq!(state.get_fuel_inventory(1), vec![jet, avgas]);
    assert_eq!(state.get_fuel_inventory(2).len(), 1);
    assert_eq!(
        state.update_fuel_inventory(1, "\t".to_string(), 0, 0, 0),
        Err(invalid("Fuel type cannot be empty"))
    );
}

#[test]
fn scheduled_flights_are_listed_by_airstrip() {
    let mut state = AppState::new();
    let a = state.create_airstrip(airstrip("Wilson", 2), 0).unwrap();
    let b = state.create_airstrip(airstrip("Other", 2), 0).unwrap();
    let f1 = state.schedule_flight(flight(a.id, "A1", 1, 2)).unwrap();
    let f2 = state.schedule_flight(flight(a.id, "A2", 1, 2)).unwrap();
    let g = state.schedule_flight(flight(b.id, "B1", 1, 2)).unwrap();
    let f3 = state.schedule_flight(flight(a.id, "A3", 1, 2)).unwrap();
    assert_eq!(state.list_scheduled_flights(a.id), vec![f1.clone(), f2.clone(), f3.clone()]);
    assert_eq!(state.list_scheduled_flights(b.id), vec![g]);
    assert_eq!(
        state.cancel_flight(f2.id),
        Ok(Message::Success("Flight successfully cancelled".to_string()))
    );
    assert_eq!(state.list_scheduled_flights(a.id), vec![f1, f3]);
    assert_eq!(state.flights.get(f2.id).unwrap().status, FlightStatus::Cancelled);
    assert_eq!(state.flights.get(f2.id).unwrap().flight_number, "A2");
    assert!(state.list_scheduled_flights(99).is_empty());
}

#[test]
fn cancelling_an_unknown_flight_is_not_found() {
    let mut state = AppState::new();
    assert_eq!(state.cancel_flight(0), Err(not_found("Flight not found")));
    assert!(state.flights.scan().is_empty());
}

#[test]
fn capacity_can_be_changed() {
    let mut state = AppState::new();
    let a = state.create_airstrip(airstrip("Wilson", 2), 9).unwrap();
    assert_eq!(
        state.update_airstrip_capacity(a.id, 0),
        Ok(Message::Success("Airstrip capacity updated successfully".to_string()))
    );
    let now = state.get_airstrip_info(a.id).unwrap();
    assert_eq!(now.capacity, 0);
    assert_eq!(now.name, "Wilson");
    assert_eq!(now.created_at, 9);
    assert_eq!(state.get_capacity_status(a.id, 0).unwrap().available_slots, 0);
    assert_eq!(state.update_airstrip_capacity(5, 1), Err(not_found("Airstrip not found")));
    assert_eq!(state.airstrips.scan().len(), 1);
}
