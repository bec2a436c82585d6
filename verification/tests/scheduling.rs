use airstrip_ops::flight::{Flight, FlightStatus};
use airstrip_ops::pilot_schedule::{PilotSchedule, ScheduleStatus};
use airstrip_ops::scheduling::{
    assess_capacity, available_slots, has_conflict, intervals_overlap, CapacityStatus,
};

#[test]
fn overlapping_intervals_clash() {
    assert!(intervals_overlap(100, 200, 150, 250));
    assert!(intervals_overlap(150, 250, 100, 200));
    assert!(intervals_overlap(100, 200, 120, 130));
    assert!(intervals_overlap(120, 130, 100, 200));
    assert!(intervals_overlap(100, 200, 100, 200));
}

#[test]
fn touching_intervals_do_not_clash() {
    assert!(!intervals_overlap(100, 200, 200, 300));
    assert!(!intervals_overlap(200, 300, 100, 200));
}

#[test]
fn disjoint_intervals_do_not_clash() {
    assert!(!intervals_overlap(0, 10, 11, 20));
    assert!(!intervals_overlap(11, 20, 0, 10));
}

#[test]
fn overlap_is_symmetric_on_a_grid() {
    for a in 0..6u64 {
        for b in 0..6u64 {
            for c in 0..6u64 {
                for d in 0..6u64 {
                    assert_eq!(intervals_overlap(a, b, c, d), intervals_overlap(c, d, a, b));
                    assert_eq!(intervals_overlap(a, b, c, d), a < d && b > c);
                }
            }
        }
    }
}

fn commitment(id: u64, pilot_id: u64, start_time: u64, end_time: u64) -> (u64, PilotSchedule) {
    (
        id,
        PilotSchedule {
            id,
            pilot_id,
            flight_id: 0,
            start_time,
            end_time,
            status: ScheduleStatus::Scheduled,
        },
    )
}

#[test]
fn conflict_is_per_pilot() {
    let existing = vec![commitment(1, 7, 100, 200), commitment(2, 8, 300, 400)];
    assert!(has_conflict(&existing, 7, 150, 250));
    assert!(!has_conflict(&existing, 8, 150, 250));
    assert!(has_conflict(&existing, 8, 399, 500));
    assert!(!has_conflict(&existing, 7, 200, 300));
    assert!(!has_conflict(&existing, 9, 0, u64::MAX));
    assert!(!has_conflict(&vec![], 7, 0, u64::MAX));
}

#[test]
fn slots_are_capacity_less_net_load() {
    assert_eq!(available_slots(2, 0, 0, 0), 2);
    assert_eq!(available_slots(10, 3, 4, 1), 4);
    assert_eq!(available_slots(10, 3, 4, 7), 10);
    assert_eq!(available_slots(10, 5, 5, 0), 0);
}

#[test]
fn slots_never_go_below_zero() {
    assert_eq!(available_slots(5, 3, 4, 1), 0);
    assert_eq!(available_slots(0, 1, 0, 0), 0);
    assert_eq!(available_slots(1, u64::MAX, u64::MAX, 0), 0);
    assert_eq!(available_slots(u64::MAX, u64::MAX, u64::MAX, u64::MAX), 0);
    assert_eq!(available_slots(u64::MAX, u64::MAX, 1, 2), 1);
}

#[test]
fn departures_beyond_the_load_free_nothing_extra() {
    assert_eq!(available_slots(5, 0, 0, 10), 5);
    assert_eq!(available_slots(5, 1, 1, u64::MAX), 5);
    assert_eq!(available_slots(0, 0, 0, u64::MAX), 0);
}

fn flight(id: u64, airstrip_id: u64, departure_time: u64, arrival_time: u64, status: FlightStatus) -> (u64, Flight) {
    (
        id,
        Flight {
            id,
            airstrip_id,
            flight_number: format!("F{}", id),
            destination: "X".to_string(),
            departure_time,
            arrival_time,
            status,
        },
    )
}

#[test]
fn capacity_counts_by_status_and_time() {
    let flights = vec![
        flight(1, 1, 50, 150, FlightStatus::Scheduled),
        flight(2, 1, 150, 250, FlightStatus::Scheduled),
        flight(3, 1, 10, 20, FlightStatus::Scheduled),
        flight(4, 1, 500, 600, FlightStatus::Arrived),
        flight(5, 1, 500, 600, FlightStatus::Arrived),
        flight(6, 1, 500, 600, FlightStatus::Arrived),
        flight(7, 1, 500, 600, FlightStatus::Cancelled),
        flight(8, 1, 500, 600, FlightStatus::Delayed),
        flight(9, 1, 500, 600, FlightStatus::Completed),
        flight(10, 2, 500, 600, FlightStatus::Scheduled),
        flight(11, 2, 500, 600, FlightStatus::Arrived),
        flight(12, 1, 100, 100, FlightStatus::Scheduled),
    ];
    assert_eq!(
        assess_capacity(10, &flights, 1, 100),
        CapacityStatus {
            total_capacity: 10,
            current_occupancy: 3,
            scheduled_arrivals: 2,
            scheduled_departures: 1,
            available_slots: 6,
        }
    );
}
