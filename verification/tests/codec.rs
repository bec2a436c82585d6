use airstrip_ops::airstrip::Airstrip;
use airstrip_ops::codec::{get_tag, get_text, get_texts, get_u64, put_tag, put_text, put_texts, put_u64};
use airstrip_ops::emergency::EmergencyProtocol;
use airstrip_ops::flight::{Flight, FlightStatus};
use airstrip_ops::fuel::FuelInventory;
use airstrip_ops::maintenance::{MaintenanceSchedule, MaintenanceStatus};
use airstrip_ops::pilot::Pilot;
use airstrip_ops::pilot_schedule::{PilotSchedule, ScheduleStatus};
use airstrip_ops::record::Record;
use airstrip_ops::revenue::Revenue;

#[test]
fn number_is_eight_little_endian_bytes() {
    let mut out = vec![];
    put_u64(&mut out, 0x0102_0304_0506_0708);
    assert_eq!(out, vec![8, 7, 6, 5, 4, 3, 2, 1]);
    assert_eq!(get_u64(&out, 0), Some((0x0102_0304_0506_0708, 8)));
}

#[test]
fn number_needs_eight_bytes() {
    assert_eq!(get_u64(&[1, 2, 3, 4, 5, 6, 7], 0), None);
    assert_eq!(get_u64(&[0; 9], 2), None);
    assert_eq!(get_u64(&[0; 9], 1), Some((0, 9)));
}

#[test]
fn tag_is_one_byte() {
    let mut out = vec![9];
    put_tag(&mut out, 3);
    assert_eq!(out, vec![9, 3]);
    assert_eq!(get_tag(&out, 1), Some((3, 2)));
    assert_eq!(get_tag(&out, 2), None);
}

#[test]
fn text_is_length_then_utf8() {
    let mut out = vec![];
    put_text(&mut out, "hé");
    assert_eq!(out, vec![3, 0, 0, 0, 0, 0, 0, 0, b'h', 0xC3, 0xA9]);
    assert_eq!(get_text(&out, 0), Some(("hé".to_string(), 11)));
}

#[test]
fn text_with_bad_utf8_is_refused() {
    let bytes = vec![2, 0, 0, 0, 0, 0, 0, 0, 0xC3, 0x28];
    assert_eq!(get_text(&bytes, 0), None);
}

#[test]
fn text_shorter_than_its_length_is_refused() {
    let bytes = vec![5, 0, 0, 0, 0, 0, 0, 0, b'a', b'b'];
    assert_eq!(get_text(&bytes, 0), None);
    let huge = vec![0xFF, 0xFF, 0xFF, 0xFF, 0xFF, 0xFF, 0xFF, 0xFF, b'a'];
    assert_eq!(get_text(&huge, 0), None);
}

#[test]
fn list_of_texts_reads_back() {
    let items = vec!["112".to_string(), String::new(), "tower ✈".to_string()];
    let mut out = vec![7];
    put_texts(&mut out, &items);
    let end = out.len();
    assert_eq!(get_texts(&out, 1), Some((items, end)));
}

#[test]
fn empty_list_is_just_its_length() {
    let mut out = vec![];
    put_texts(&mut out, &vec![]);
    assert_eq!(out, vec![0; 8]);
    assert_eq!(get_texts(&out, 0), Some((vec![], 8)));
}

#[test]
fn list_with_too_few_items_is_refused() {
    let mut out = vec![];
    put_texts(&mut out, &vec!["a".to_string()]);
    out[0] = 2;
    assert_eq!(get_texts(&out, 0), None);
    out[0] = 0xFF;
    out[7] = 0xFF;
    assert_eq!(get_texts(&out, 0), None);
}

fn sample_airstrip() -> Airstrip {
    Airstrip {
        id: 3,
        name: "Kisumu".to_string(),
        location: "0°05′S 34°43′E".to_string(),
        contact: "+254 700".to_string(),
        email: "ops@kisumu.example".to_string(),
        runway_length: 3000,
        capacity: 12,
        created_at: 1_700_000_000,
    }
}

#[test]
fn airstrip_reads_back() {
    let airstrip = sample_airstrip();
    assert_eq!(Airstrip::decode(&airstrip.encode()), Some(airstrip));
}

#[test]
fn flight_reads_back_in_every_status() {
    for status in [
        FlightStatus::Scheduled,
        FlightStatus::Delayed,
        FlightStatus::Completed,
        FlightStatus::Cancelled,
        FlightStatus::Arrived,
    ] {
        let flight = Flight {
            id: u64::MAX,
            airstrip_id: 0,
            flight_number: "KQ 101".to_string(),
            destination: "Nairobi".to_string(),
            departure_time: 10,
            arrival_time: 20,
            status,
        };
        assert_eq!(Flight::decode(&flight.encode()), Some(flight));
    }
}

#[test]
fn other_records_read_back() {
    let pilot = Pilot {
        id: 1,
        name: "Ann".to_string(),
        license_number: "L-1".to_string(),
        experience_years: 9,
        contact: String::new(),
        email: "ann@example.org".to_string(),
    };
    assert_eq!(Pilot::decode(&pilot.encode()), Some(pilot));
    let schedule = PilotSchedule {
        id: 2,
        pilot_id: 1,
        flight_id: 7,
        start_time: 100,
        end_time: 200,
        status: ScheduleStatus::Cancelled,
    };
    assert_eq!(PilotSchedule::decode(&schedule.encode()), Some(schedule));
    let maintenance = MaintenanceSchedule {
        id: 3,
        airstrip_id: 0,
        date: 77,
        description: "resurface".to_string(),
        status: MaintenanceStatus::Completed,
    };
    assert_eq!(MaintenanceSchedule::decode(&maintenance.encode()), Some(maintenance));
    let protocol = EmergencyProtocol {
        id: 4,
        airstrip_id: 0,
        protocol_type: "weather".to_string(),
        description: "close the runway".to_string(),
        contact_numbers: vec!["112".to_string(), "999".to_string()],
        evacuation_routes: vec![],
        created_at: 5,
    };
    assert_eq!(EmergencyProtocol::decode(&protocol.encode()), Some(protocol));
    let fuel = FuelInventory {
        id: 5,
        airstrip_id: 0,
        fuel_type: "Jet A-1".to_string(),
        quantity_bits: 1234.5f64.to_bits(),
        unit_price_bits: 0.87f64.to_bits(),
        last_updated: 6,
    };
    assert_eq!(FuelInventory::decode(&fuel.encode()), Some(fuel));
    let revenue = Revenue {
        id: 6,
        airstrip_id: 0,
        source: "parking".to_string(),
        amount_bits: (-20.25f64).to_bits(),
        transaction_date: 8,
        description: "overnight".to_string(),
    };
    assert_eq!(Revenue::decode(&revenue.encode()), Some(revenue));
}

#[test]
fn truncated_record_is_refused() {
    let bytes = sample_airstrip().encode();
    for cut in 0..bytes.len() {
        assert_eq!(Airstrip::decode(&bytes[..cut]), None);
    }
}

#[test]
fn record_with_trailing_bytes_is_refused() {
    let mut bytes = sample_airstrip().encode();
    bytes.push(0);
    assert_eq!(Airstrip::decode(&bytes), None);
}

#[test]
fn unknown_status_tag_is_refused() {
    let flight = Flight {
        id: 1,
        airstrip_id: 0,
        flight_number: "X".to_string(),
        destination: "Y".to_string(),
        departure_time: 1,
        arrival_time: 2,
        status: FlightStatus::Arrived,
    };
    let mut bytes = flight.encode();
    assert_eq!(bytes.last(), Some(&4));
    let last = bytes.len() - 1;
    bytes[last] = 5;
    assert_eq!(Flight::decode(&bytes), None);
}

#[test]
fn status_labels_and_tags() {
    assert_eq!(FlightStatus::Scheduled.label(), "scheduled");
    assert_eq!(FlightStatus::Delayed.label(), "delayed");
    assert_eq!(FlightStatus::Completed.label(), "completed");
    assert_eq!(FlightStatus::Cancelled.label(), "cancelled");
    assert_eq!(FlightStatus::Arrived.label(), "arrived");
    assert_eq!(ScheduleStatus::Scheduled.label(), "scheduled");
    assert_eq!(MaintenanceStatus::Completed.label(), "completed");
    assert_eq!(FlightStatus::of_tag(FlightStatus::Delayed.to_tag()), Some(FlightStatus::Delayed));
    assert_eq!(ScheduleStatus::of_tag(3), None);
    assert_eq!(MaintenanceStatus::of_tag(2), None);
}
