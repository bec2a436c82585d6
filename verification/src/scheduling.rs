//! The scheduling rules: when two commitments of a pilot collide, and how many
//! planes an airstrip can still take.

use crate::flight::{Flight, FlightStatus, FlightView};
use crate::pilot_schedule::{PilotSchedule, PilotScheduleView};
use crate::stable::lists_in_key_order;
use crate::store::scan_view;
use vstd::prelude::*;

verus! {

/// Whether the half-open intervals `[start_a, end_a)` and `[start_b, end_b)`
/// share a moment.
pub open spec fn overlaps(start_a: u64, end_a: u64, start_b: u64, end_b: u64) -> bool {
    start_a < end_b && end_a > start_b
}

/// Whether `[start_a, end_a)` and `[start_b, end_b)` share a moment.
pub fn intervals_overlap(start_a: u64, end_a: u64, start_b: u64, end_b: u64) -> (clash: bool)
    ensures
        clash == overlaps(start_a, end_a, start_b, end_b),
{
    start_a < end_b && end_a > start_b
}

/// Which of two intervals is named first makes no difference to whether they
/// overlap.
pub proof fn lemma_overlap_symmetric(start_a: u64, end_a: u64, start_b: u64, end_b: u64)
    ensures
        overlaps(start_a, end_a, start_b, end_b) == overlaps(start_b, end_b, start_a, end_a),
{
}

/// An interval that starts where another ends does not overlap it.
pub proof fn lemma_touching_intervals_do_not_overlap(start_a: u64, meet: u64, end_b: u64)
    ensures
        !overlaps(start_a, meet, meet, end_b),
        !overlaps(meet, end_b, start_a, meet),
{
}

/// Whether `schedule` commits `pilot_id` at some moment of `[start, end)`.
pub open spec fn collides(schedule: PilotScheduleView, pilot_id: u64, start: u64, end: u64) -> bool {
    schedule.pilot_id == pilot_id && overlaps(
        start,
        end,
        schedule.start_time,
        schedule.end_time,
    )
}

/// Whether some stored schedule commits `pilot_id` at some moment of
/// `[start, end)`.
pub open spec fn pilot_is_busy(
    schedules: Map<u64, PilotScheduleView>,
    pilot_id: u64,
    start: u64,
    end: u64,
) -> bool {
    exists|id: u64| #[trigger]
        schedules.contains_key(id) && collides(schedules[id], pilot_id, start, end)
}

/// Whether no pilot is committed twice at the same moment.
pub open spec fn no_double_booking(schedules: Map<u64, PilotScheduleView>) -> bool {
    forall|a: u64, b: u64|
        a != b && #[trigger] schedules.contains_key(a) && #[trigger] schedules.contains_key(b)
            && schedules[a].pilot_id == schedules[b].pilot_id ==> !overlaps(
            schedules[a].start_time,
            schedules[a].end_time,
            schedules[b].start_time,
            schedules[b].end_time,
        )
}

/// Committing a pilot for a time at which the pilot is not busy leaves no
/// pilot committed twice at the same moment.
pub proof fn lemma_free_pilot_stays_single_booked(
    schedules: Map<u64, PilotScheduleView>,
    id: u64,
    schedule: PilotScheduleView,
)
    requires
        no_double_booking(schedules),
        !pilot_is_busy(schedules, schedule.pilot_id, schedule.start_time, schedule.end_time),
    ensures
        no_double_booking(schedules.insert(id, schedule)),
{
    let after = schedules.insert(id, schedule);
    assert forall|a: u64, b: u64|
        a != b && #[trigger] after.contains_key(a) && #[trigger] after.contains_key(b)
            && after[a].pilot_id == after[b].pilot_id implies !overlaps(
        after[a].start_time,
        after[a].end_time,
        after[b].start_time,
        after[b].end_time,
    ) by {
        if a == id {
            assert(schedules.contains_key(b));
            assert(!collides(schedules[b], schedule.pilot_id, schedule.start_time, schedule.end_time));
        } else if b == id {
            assert(schedules.contains_key(a));
            assert(!collides(schedules[a], schedule.pilot_id, schedule.start_time, schedule.end_time));
        } else {
            assert(schedules.contains_key(a) && schedules.contains_key(b));
        }
    }
}

/// Whether one of `existing` commits `pilot_id` at some moment of
/// `[start, end)`.
pub fn has_conflict(existing: &Vec<(u64, PilotSchedule)>, pilot_id: u64, start: u64, end: u64) -> (busy:
    bool)
    ensures
        busy == exists|i: int|
            0 <= i < existing.len() && collides(
                (#[trigger] scan_view(existing@)[i]).1,
                pilot_id,
                start,
                end,
            ),
{
    let mut i: usize = 0;
    while i < existing.len()
        invariant
            i <= existing.len(),
            forall|k: int|
                0 <= k < i ==> !collides(
                    (#[trigger] scan_view(existing@)[k]).1,
                    pilot_id,
                    start,
                    end,
                ),
        decreases existing.len() - i,
    {
        let schedule = &existing[i].1;
        if schedule.pilot_id == pilot_id && intervals_overlap(
            start,
            end,
            schedule.start_time,
            schedule.end_time,
        ) {
            assert(scan_view(existing@)[i as int].1 == schedule@);
            return true;
        }
        assert(scan_view(existing@)[i as int].1 == schedule@);
        i += 1;
    }
    false
}

/// A collision among the listed schedules is a collision among the stored
/// ones, and the other way round.
pub proof fn lemma_busy_by_listing(
    all: Seq<(u64, PilotScheduleView)>,
    schedules: Map<u64, PilotScheduleView>,
    pilot_id: u64,
    start: u64,
    end: u64,
)
    requires
        lists_in_key_order(all, schedules),
    ensures
        pilot_is_busy(schedules, pilot_id, start, end) <==> exists|i: int|
            0 <= i < all.len() && collides((#[trigger] all[i]).1, pilot_id, start, end),
{
    if pilot_is_busy(schedules, pilot_id, start, end) {
        let id = choose|id: u64| #[trigger]
            schedules.contains_key(id) && collides(schedules[id], pilot_id, start, end);
        let i = choose|i: int| 0 <= i < all.len() && (#[trigger] all[i]).0 == id;
        assert(collides(all[i].1, pilot_id, start, end));
    }
    if exists|i: int| 0 <= i < all.len() && collides((#[trigger] all[i]).1, pilot_id, start, end) {
        let i = choose|i: int|
            0 <= i < all.len() && collides((#[trigger] all[i]).1, pilot_id, start, end);
        assert(schedules.contains_key(all[i].0));
    }
}

/// How full an airstrip is at one moment. Computed on demand, never stored.
#[derive(Debug, Clone, Copy, PartialEq, Eq)]
pub struct CapacityStatus {
    pub total_capacity: u64,
    /// Flights on the ground.
    pub current_occupancy: u64,
    /// Scheduled flights still to arrive.
    pub scheduled_arrivals: u64,
    /// Scheduled flights still to leave.
    pub scheduled_departures: u64,
    pub available_slots: u64,
}

pub open spec fn at_least_zero(x: int) -> int {
    if x < 0 {
        0
    } else {
        x
    }
}

/// The slots left at an airstrip: its capacity less the planes it holds or
/// expects beyond those about to leave, and never below zero at either step.
pub open spec fn free_slots(capacity: u64, occupancy: u64, arrivals: u64, departures: u64) -> int {
    at_least_zero(capacity - at_least_zero(occupancy + arrivals - departures))
}

/// The slots left at an airstrip, for any four numbers.
pub fn available_slots(capacity: u64, occupancy: u64, arrivals: u64, departures: u64) -> (slots:
    u64)
    ensures
        slots == free_slots(capacity, occupancy, arrivals, departures),
{
    let expected: u128 = occupancy as u128 + arrivals as u128;
    let net: u128 = if expected > departures as u128 {
        expected - departures as u128
    } else {
        0
    };
    if net >= capacity as u128 {
        0
    } else {
        capacity - net as u64
    }
}

/// No slots are left once the planes held or expected reach the capacity
/// plus the planes about to leave, and never more than the capacity.
pub proof fn lemma_free_slots_saturate(capacity: u64, occupancy: u64, arrivals: u64, departures: u64)
    ensures
        0 <= free_slots(capacity, occupancy, arrivals, departures) <= capacity,
        occupancy + arrivals >= capacity + departures ==> free_slots(
            capacity,
            occupancy,
            arrivals,
            departures,
        ) == 0,
{
}

/// A scheduled flight of the airstrip that arrives after `now`.
pub open spec fn arrives_later(flight: FlightView, airstrip_id: u64, now: u64) -> bool {
    flight.airstrip_id == airstrip_id && flight.status == FlightStatus::Scheduled
        && flight.arrival_time > now
}

/// A scheduled flight of the airstrip that leaves after `now`.
pub open spec fn departs_later(flight: FlightView, airstrip_id: u64, now: u64) -> bool {
    flight.airstrip_id == airstrip_id && flight.status == FlightStatus::Scheduled
        && flight.departure_time > now
}

/// A flight of the airstrip that has arrived.
pub open spec fn on_the_ground(flight: FlightView, airstrip_id: u64) -> bool {
    flight.airstrip_id == airstrip_id && flight.status == FlightStatus::Arrived
}

/// How many of the listed flights `counted` holds of.
pub open spec fn count_flights(
    all: Seq<(u64, FlightView)>,
    counted: spec_fn(FlightView) -> bool,
) -> nat
    decreases all.len(),
{
    if all.len() == 0 {
        0
    } else {
        count_flights(all.drop_last(), counted) + if counted(all.last().1) {
            1nat
        } else {
            0nat
        }
    }
}

/// The capacity status of an airstrip of the given capacity at `now`, with
/// `all` the flights on record.
pub open spec fn capacity_status_of(
    capacity: u64,
    all: Seq<(u64, FlightView)>,
    airstrip_id: u64,
    now: u64,
    status: CapacityStatus,
) -> bool {
    &&& status.total_capacity == capacity
    &&& status.current_occupancy == count_flights(
        all,
        |f: FlightView| on_the_ground(f, airstrip_id),
    )
    &&& status.scheduled_arrivals == count_flights(
        all,
        |f: FlightView| arrives_later(f, airstrip_id, now),
    )
    &&& status.scheduled_departures == count_flights(
        all,
        |f: FlightView| departs_later(f, airstrip_id, now),
    )
    &&& status.available_slots == free_slots(
        capacity,
        status.current_occupancy,
        status.scheduled_arrivals,
        status.scheduled_departures,
    )
}

/// Counts the flights of an airstrip that matter to its capacity at `now`.
pub fn assess_capacity(capacity: u64, flights: &Vec<(u64, Flight)>, airstrip_id: u64, now: u64) -> (status:
    CapacityStatus)
    ensures
        capacity_status_of(capacity, scan_view(flights@), airstrip_id, now, status),
{
    let ghost all = scan_view(flights@);
    let ghost grounded = |f: FlightView| on_the_ground(f, airstrip_id);
    let ghost arriving = |f: FlightView| arrives_later(f, airstrip_id, now);
    let ghost departing = |f: FlightView| departs_later(f, airstrip_id, now);
    let mut occupancy: u64 = 0;
    let mut arrivals: u64 = 0;
    let mut departures: u64 = 0;
    let mut i: usize = 0;
    assert(all.take(0) =~= Seq::empty());
    while i < flights.len()
        invariant
            i <= flights.len(),
            all == scan_view(flights@),
            grounded == |f: FlightView| on_the_ground(f, airstrip_id),
            arriving == |f: FlightView| arrives_later(f, airstrip_id, now),
            departing == |f: FlightView| departs_later(f, airstrip_id, now),
            occupancy == count_flights(all.take(i as int), grounded),
            arrivals == count_flights(all.take(i as int), arriving),
            departures == count_flights(all.take(i as int), departing),
            occupancy <= i,
            arrivals <= i,
            departures <= i,
        decreases flights.len() - i,
    {
        let flight = &flights[i].1;
        proof {
            let upto = all.take(i + 1);
            assert(upto.drop_last() =~= all.take(i as int));
            assert(upto.last().1 == flight@);
        }
        if flight.airstrip_id == airstrip_id {
            match flight.status {
                FlightStatus::Scheduled => {
                    if flight.arrival_time > now {
                        arrivals += 1;
                    }
                    if flight.departure_time > now {
                        departures += 1;
                    }
                },
                FlightStatus::Arrived => {
                    occupancy += 1;
                },
                _ => {},
            }
        }
        i += 1;
    }
    assert(all.take(i as int) =~= all);
    CapacityStatus {
        total_capacity: capacity,
        current_occupancy: occupancy,
        scheduled_arrivals: arrivals,
        scheduled_departures: departures,
        available_slots: available_slots(capacity, occupancy, arrivals, departures),
    }
}

} // verus!
