//! The application state: one store per record kind and the identifier
//! allocator, with the operations on them.

use crate::airstrip::{lemma_capacity_keeps_length, Airstrip, AirstripView};
use crate::analysis::{analysis_of, group_by_source, in_window, RevenueGroup};
use crate::emergency::{EmergencyProtocol, EmergencyProtocolView};
use crate::flight::{lemma_status_keeps_length, Flight, FlightStatus, FlightView};
use crate::fuel::{FuelInventory, FuelInventoryView};
use crate::ids::{exhausted_text, fetch_and_increment_id, issue, IdAllocator};
use crate::maintenance::{MaintenanceSchedule, MaintenanceScheduleView, MaintenanceStatus};
use crate::message::{empty_field_text, validate_string_field, Message, MessageView};
use crate::payload::{
    CreateAirstripPayload, RegisterPilotPayload, ScheduleFlightPayload,
    ScheduleMaintenancePayload,
};
use crate::pilot::{Pilot, PilotView};
use crate::pilot_schedule::{PilotSchedule, PilotScheduleView, ScheduleStatus};
use crate::record::Record;
use crate::revenue::{Revenue, RevenueView};
use crate::scheduling::{
    assess_capacity, capacity_status_of, collides, has_conflict, lemma_busy_by_listing,
    lemma_free_pilot_stays_single_booked, no_double_booking, overlaps, pilot_is_busy,
    CapacityStatus,
};
use crate::stable::regions_open;
use crate::store::{fits, listing, scan_view, select, views, EntityStore};
use crate::text::is_blank;
use vstd::bytes::lemma_auto_spec_u64_to_from_le_bytes;
use vstd::prelude::*;

verus! {

/// Every store and the identifier allocator. Operations take the state
/// explicitly; nothing in this crate is global.
pub struct AppState {
    pub ids: IdAllocator,
    pub airstrips: EntityStore<Airstrip>,
    pub flights: EntityStore<Flight>,
    pub pilots: EntityStore<Pilot>,
    pub maintenance_schedules: EntityStore<MaintenanceSchedule>,
    pub pilot_schedules: EntityStore<PilotSchedule>,
    pub emergency_protocols: EntityStore<EmergencyProtocol>,
    pub fuel_inventories: EntityStore<FuelInventory>,
    pub revenues: EntityStore<Revenue>,
}

/// The region of stable memory that each part of the state lives in.
pub ghost struct Layout {
    pub ids: u8,
    pub airstrips: u8,
    pub flights: u8,
    pub pilots: u8,
    pub maintenance_schedules: u8,
    pub pilot_schedules: u8,
    pub emergency_protocols: u8,
    pub fuel_inventories: u8,
    pub revenues: u8,
}

/// The layout that every state is opened in: the counter in region 0 and the
/// stores in regions 10 to 17, one region each.
pub open spec fn standard_layout() -> Layout {
    Layout {
        ids: 0,
        airstrips: 10,
        flights: 11,
        pilots: 12,
        maintenance_schedules: 13,
        pilot_schedules: 14,
        emergency_protocols: 15,
        fuel_inventories: 16,
        revenues: 17,
    }
}

pub ghost struct StateView {
    pub layout: Layout,
    pub next_id: u64,
    pub airstrips: Map<u64, AirstripView>,
    pub flights: Map<u64, FlightView>,
    pub pilots: Map<u64, PilotView>,
    pub maintenance_schedules: Map<u64, MaintenanceScheduleView>,
    pub pilot_schedules: Map<u64, PilotScheduleView>,
    pub emergency_protocols: Map<u64, EmergencyProtocolView>,
    pub fuel_inventories: Map<u64, FuelInventoryView>,
    pub revenues: Map<u64, RevenueView>,
}

impl View for AppState {
    type V = StateView;

    open spec fn view(&self) -> StateView {
        StateView {
            layout: Layout {
                ids: self.ids.region(),
                airstrips: self.airstrips.region(),
                flights: self.flights.region(),
                pilots: self.pilots.region(),
                maintenance_schedules: self.maintenance_schedules.region(),
                pilot_schedules: self.pilot_schedules.region(),
                emergency_protocols: self.emergency_protocols.region(),
                fuel_inventories: self.fuel_inventories.region(),
                revenues: self.revenues.region(),
            },
            next_id: self.ids.next(),
            airstrips: self.airstrips@,
            flights: self.flights@,
            pilots: self.pilots@,
            maintenance_schedules: self.maintenance_schedules@,
            pilot_schedules: self.pilot_schedules@,
            emergency_protocols: self.emergency_protocols@,
            fuel_inventories: self.fuel_inventories@,
            revenues: self.revenues@,
        }
    }
}

impl StateView {
    /// Whether the records hang together: each is stored under its own
    /// identifier, which the allocator has handed out; flights and
    /// maintenance refer to airstrips on record; commitments refer to pilots
    /// and flights on record; and no pilot is committed twice at the same
    /// moment.
    pub open spec fn consistent(self) -> bool {
        &&& forall|k: u64| #[trigger]
            self.airstrips.contains_key(k) ==> self.airstrips[k].id == k && k < self.next_id
        &&& forall|k: u64| #[trigger]
            self.flights.contains_key(k) ==> self.flights[k].id == k && k < self.next_id
                && self.airstrips.contains_key(self.flights[k].airstrip_id)
        &&& forall|k: u64| #[trigger]
            self.pilots.contains_key(k) ==> self.pilots[k].id == k && k < self.next_id
        &&& forall|k: u64| #[trigger]
            self.maintenance_schedules.contains_key(k) ==> self.maintenance_schedules[k].id == k
                && k < self.next_id && self.airstrips.contains_key(
                self.maintenance_schedules[k].airstrip_id,
            )
        &&& forall|k: u64| #[trigger]
            self.pilot_schedules.contains_key(k) ==> self.pilot_schedules[k].id == k && k
                < self.next_id && self.pilots.contains_key(self.pilot_schedules[k].pilot_id)
                && self.flights.contains_key(self.pilot_schedules[k].flight_id)
        &&& forall|k: u64| #[trigger]
            self.emergency_protocols.contains_key(k) ==> self.emergency_protocols[k].id == k && k
                < self.next_id
        &&& forall|k: u64| #[trigger]
            self.fuel_inventories.contains_key(k) ==> self.fuel_inventories[k].id == k && k
                < self.next_id
        &&& forall|k: u64| #[trigger]
            self.revenues.contains_key(k) ==> self.revenues[k].id == k && k < self.next_id
        &&& no_double_booking(self.pilot_schedules)
    }
}

/// In a state that hangs together, the next identifier is in no store, so a
/// record created under it replaces none.
pub proof fn lemma_next_identifier_is_unused(state: StateView)
    requires
        state.consistent(),
    ensures
        !state.airstrips.contains_key(state.next_id),
        !state.flights.contains_key(state.next_id),
        !state.pilots.contains_key(state.next_id),
        !state.maintenance_schedules.contains_key(state.next_id),
        !state.pilot_schedules.contains_key(state.next_id),
        !state.emergency_protocols.contains_key(state.next_id),
        !state.fuel_inventories.contains_key(state.next_id),
        !state.revenues.contains_key(state.next_id),
{
}

/// A state in the standard layout, without records, whose next identifier
/// is zero.
pub open spec fn blank_state() -> StateView {
    StateView {
        layout: standard_layout(),
        next_id: 0,
        airstrips: Map::empty(),
        flights: Map::empty(),
        pilots: Map::empty(),
        maintenance_schedules: Map::empty(),
        pilot_schedules: Map::empty(),
        emergency_protocols: Map::empty(),
        fuel_inventories: Map::empty(),
        revenues: Map::empty(),
    }
}

/// The complaint about `value` if the field called `name` is blank.
pub open spec fn blank_field(value: Seq<char>, name: Seq<char>) -> Option<MessageView> {
    if is_blank(value) {
        Some(MessageView::InvalidPayload(empty_field_text(name)))
    } else {
        None
    }
}

/// The complaint that something referred to is not on record.
pub open spec fn missing(on_record: bool, text: Seq<char>) -> Option<MessageView> {
    if on_record {
        None
    } else {
        Some(MessageView::NotFound(text))
    }
}

/// The complaint that no identifier is left to hand out.
pub open spec fn out_of_ids(next_id: u64) -> Option<MessageView> {
    if issue(next_id) is None {
        Some(MessageView::Fatal(exhausted_text()))
    } else {
        None
    }
}

/// The first complaint of two.
pub open spec fn or_else(first: Option<MessageView>, second: Option<MessageView>) -> Option<
    MessageView,
> {
    if first is Some {
        first
    } else {
        second
    }
}

/// The complaint that a record takes more bytes than a store keeps.
pub open spec fn too_large<R: Record>(v: R::V) -> Option<MessageView> {
    if fits::<R>(v) {
        None
    } else {
        Some(MessageView::InvalidPayload("Record too large"@))
    }
}

/// The airstrip that a request asks for, under the identifier `id`.
pub open spec fn airstrip_from(id: u64, payload: CreateAirstripPayload, now: u64) -> AirstripView {
    AirstripView {
        id,
        name: payload.name@,
        location: payload.location@,
        contact: payload.contact@,
        email: payload.email@,
        runway_length: payload.runway_length,
        capacity: payload.capacity,
        created_at: now,
    }
}

/// Why a request to create an airstrip is turned down, if it is.
pub open spec fn create_airstrip_rejection(
    state: StateView,
    payload: CreateAirstripPayload,
    now: u64,
) -> Option<MessageView> {
    or_else(
        blank_field(payload.name@, "Airstrip name"@),
        or_else(
            blank_field(payload.contact@, "Contact"@),
            or_else(
                blank_field(payload.email@, "Email"@),
                or_else(
                    too_large::<Airstrip>(airstrip_from(state.next_id, payload, now)),
                    out_of_ids(state.next_id),
                ),
            ),
        ),
    )
}

/// The flight that a request asks for, under the identifier `id`.
pub open spec fn flight_from(id: u64, payload: ScheduleFlightPayload) -> FlightView {
    FlightView {
        id,
        airstrip_id: payload.airstrip_id,
        flight_number: payload.flight_number@,
        destination: payload.destination@,
        departure_time: payload.departure_time,
        arrival_time: payload.arrival_time,
        status: FlightStatus::Scheduled,
    }
}

/// Why a request to schedule a flight is turned down, if it is.
pub open spec fn schedule_flight_rejection(
    state: StateView,
    payload: ScheduleFlightPayload,
) -> Option<MessageView> {
    or_else(
        blank_field(payload.flight_number@, "Flight number"@),
        or_else(
            blank_field(payload.destination@, "Destination"@),
            or_else(
                missing(state.airstrips.contains_key(payload.airstrip_id), "Airstrip not found"@),
                or_else(
                    too_large::<Flight>(flight_from(state.next_id, payload)),
                    out_of_ids(state.next_id),
                ),
            ),
        ),
    )
}

/// A flight for an airstrip that is not on record is always turned down, and
/// for want of the airstrip unless one of its texts is blank.
pub proof fn lemma_unknown_airstrip_is_turned_down(state: StateView, payload: ScheduleFlightPayload)
    requires
        !state.airstrips.contains_key(payload.airstrip_id),
    ensures
        schedule_flight_rejection(state, payload) is Some,
        !is_blank(payload.flight_number@) && !is_blank(payload.destination@)
            ==> schedule_flight_rejection(state, payload) == Some(
            MessageView::NotFound("Airstrip not found"@),
        ),
{
}

/// The pilot that a request asks for, under the identifier `id`.
pub open spec fn pilot_from(id: u64, payload: RegisterPilotPayload) -> PilotView {
    PilotView {
        id,
        name: payload.name@,
        license_number: payload.license_number@,
        experience_years: payload.experience_years,
        contact: payload.contact@,
        email: payload.email@,
    }
}

/// Why a request to register a pilot is turned down, if it is.
pub open spec fn register_pilot_rejection(
    state: StateView,
    payload: RegisterPilotPayload,
) -> Option<MessageView> {
    or_else(
        blank_field(payload.name@, "Pilot name"@),
        or_else(
            blank_field(payload.license_number@, "License number"@),
            or_else(
                blank_field(payload.contact@, "Contact"@),
                or_else(
                    blank_field(payload.email@, "Email"@),
                    or_else(
                        too_large::<Pilot>(pilot_from(state.next_id, payload)),
                        out_of_ids(state.next_id),
                    ),
                ),
            ),
        ),
    )
}

/// The maintenance that a request asks for, under the identifier `id`.
pub open spec fn maintenance_from(
    id: u64,
    payload: ScheduleMaintenancePayload,
) -> MaintenanceScheduleView {
    MaintenanceScheduleView {
        id,
        airstrip_id: payload.airstrip_id,
        date: payload.date,
        description: payload.description@,
        status: MaintenanceStatus::Scheduled,
    }
}

/// Why a request to schedule maintenance is turned down, if it is.
pub open spec fn schedule_maintenance_rejection(
    state: StateView,
    payload: ScheduleMaintenancePayload,
) -> Option<MessageView> {
    or_else(
        blank_field(payload.description@, "Maintenance description"@),
        or_else(
            missing(state.airstrips.contains_key(payload.airstrip_id), "Airstrip not found"@),
            or_else(
                too_large::<MaintenanceSchedule>(maintenance_from(state.next_id, payload)),
                out_of_ids(state.next_id),
            ),
        ),
    )
}

/// The commitment that a request asks for, under the identifier `id`.
pub open spec fn commitment_from(
    id: u64,
    pilot_id: u64,
    flight_id: u64,
    start_time: u64,
    end_time: u64,
) -> PilotScheduleView {
    PilotScheduleView {
        id,
        pilot_id,
        flight_id,
        start_time,
        end_time,
        status: ScheduleStatus::Scheduled,
    }
}

/// The complaint that the pilot is committed elsewhere.
pub open spec fn unavailable(busy: bool) -> Option<MessageView> {
    if busy {
        Some(MessageView::Error("Pilot is not available for this time slot"@))
    } else {
        None
    }
}

/// Why a request to commit a pilot to a flight is turned down, if it is.
pub open spec fn schedule_pilot_rejection(
    state: StateView,
    pilot_id: u64,
    flight_id: u64,
    start_time: u64,
    end_time: u64,
) -> Option<MessageView> {
    or_else(
        missing(state.pilots.contains_key(pilot_id), "Pilot not found"@),
        or_else(
            missing(state.flights.contains_key(flight_id), "Flight not found"@),
            or_else(
                unavailable(pilot_is_busy(state.pilot_schedules, pilot_id, start_time, end_time)),
                out_of_ids(state.next_id),
            ),
        ),
    )
}

/// The state once a pilot is committed to a flight for
/// `[start_time, end_time)`.
pub open spec fn committed(
    state: StateView,
    pilot_id: u64,
    flight_id: u64,
    start_time: u64,
    end_time: u64,
) -> StateView {
    StateView {
        next_id: (state.next_id + 1) as u64,
        pilot_schedules: state.pilot_schedules.insert(
            state.next_id,
            commitment_from(state.next_id, pilot_id, flight_id, start_time, end_time),
        ),
        ..state
    }
}

/// A commitment of a pilot on record to a flight on record is turned down
/// as a conflict exactly when the pilot is busy at some moment of it, and in
/// every other case it is accepted, unless no identifier is left.
pub proof fn lemma_commitment_is_refused_exactly_when_busy(
    state: StateView,
    pilot_id: u64,
    flight_id: u64,
    start_time: u64,
    end_time: u64,
)
    requires
        state.pilots.contains_key(pilot_id),
        state.flights.contains_key(flight_id),
    ensures
        pilot_is_busy(state.pilot_schedules, pilot_id, start_time, end_time)
            <==> schedule_pilot_rejection(state, pilot_id, flight_id, start_time, end_time)
            == Some(MessageView::Error("Pilot is not available for this time slot"@)),
        state.next_id < u64::MAX ==> (!pilot_is_busy(
            state.pilot_schedules,
            pilot_id,
            start_time,
            end_time,
        ) <==> schedule_pilot_rejection(state, pilot_id, flight_id, start_time, end_time)
            is None),
{
}

/// For a pilot without commitments, two commitments asked for one after the
/// other: the first is accepted, and the second is turned down as a conflict
/// exactly when the two intervals overlap, whichever of the two comes first.
/// Two identifiers must be left.
pub proof fn lemma_order_of_commitments_is_immaterial(
    state: StateView,
    pilot_id: u64,
    flight_id: u64,
    start_a: u64,
    end_a: u64,
    start_b: u64,
    end_b: u64,
)
    requires
        state.pilots.contains_key(pilot_id),
        state.flights.contains_key(flight_id),
        forall|id: u64| #[trigger]
            state.pilot_schedules.contains_key(id) ==> state.pilot_schedules[id].pilot_id
                != pilot_id,
        state.next_id + 1 < u64::MAX,
    ensures
        schedule_pilot_rejection(state, pilot_id, flight_id, start_a, end_a) is None,
        schedule_pilot_rejection(state, pilot_id, flight_id, start_b, end_b) is None,
        schedule_pilot_rejection(
            committed(state, pilot_id, flight_id, start_a, end_a),
            pilot_id,
            flight_id,
            start_b,
            end_b,
        ) == unavailable(overlaps(start_a, end_a, start_b, end_b)),
        schedule_pilot_rejection(
            committed(state, pilot_id, flight_id, start_b, end_b),
            pilot_id,
            flight_id,
            start_a,
            end_a,
        ) == unavailable(overlaps(start_a, end_a, start_b, end_b)),
{
    let after_a = committed(state, pilot_id, flight_id, start_a, end_a);
    let after_b = committed(state, pilot_id, flight_id, start_b, end_b);
    assert(after_a.pilot_schedules.contains_key(state.next_id));
    assert(after_b.pilot_schedules.contains_key(state.next_id));
    assert(pilot_is_busy(after_a.pilot_schedules, pilot_id, start_b, end_b) == overlaps(
        start_a,
        end_a,
        start_b,
        end_b,
    )) by {
        if overlaps(start_a, end_a, start_b, end_b) {
            assert(collides(after_a.pilot_schedules[state.next_id], pilot_id, start_b, end_b));
        }
    }
    assert(pilot_is_busy(after_b.pilot_schedules, pilot_id, start_a, end_a) == overlaps(
        start_a,
        end_a,
        start_b,
        end_b,
    )) by {
        if overlaps(start_a, end_a, start_b, end_b) {
            assert(collides(after_b.pilot_schedules[state.next_id], pilot_id, start_a, end_a));
        }
    }
}

/// The emergency protocol that a request asks for, under the identifier `id`.
pub open spec fn protocol_from(
    id: u64,
    airstrip_id: u64,
    protocol_type: Seq<char>,
    description: Seq<char>,
    contact_numbers: Seq<Seq<char>>,
    evacuation_routes: Seq<Seq<char>>,
    now: u64,
) -> EmergencyProtocolView {
    EmergencyProtocolView {
        id,
        airstrip_id,
        protocol_type,
        description,
        contact_numbers,
        evacuation_routes,
        created_at: now,
    }
}

/// Why a request to record an emergency protocol is turned down, if it is.
pub open spec fn create_emergency_protocol_rejection(
    state: StateView,
    protocol: EmergencyProtocolView,
) -> Option<MessageView> {
    or_else(
        blank_field(protocol.protocol_type, "Protocol type"@),
        or_else(
            blank_field(protocol.description, "Description"@),
            or_else(too_large::<EmergencyProtocol>(protocol), out_of_ids(state.next_id)),
        ),
    )
}

/// The fuel stock that a request asks for, under the identifier `id`.
pub open spec fn fuel_from(
    id: u64,
    airstrip_id: u64,
    fuel_type: Seq<char>,
    quantity_bits: u64,
    unit_price_bits: u64,
    now: u64,
) -> FuelInventoryView {
    FuelInventoryView { id, airstrip_id, fuel_type, quantity_bits, unit_price_bits, last_updated: now }
}

/// Why a request to record a fuel stock is turned down, if it is.
pub open spec fn update_fuel_inventory_rejection(
    state: StateView,
    inventory: FuelInventoryView,
) -> Option<MessageView> {
    or_else(
        blank_field(inventory.fuel_type, "Fuel type"@),
        or_else(too_large::<FuelInventory>(inventory), out_of_ids(state.next_id)),
    )
}

/// The payment that a request asks for, under the identifier `id`.
pub open spec fn revenue_from(
    id: u64,
    airstrip_id: u64,
    source: Seq<char>,
    amount_bits: u64,
    description: Seq<char>,
    now: u64,
) -> RevenueView {
    RevenueView { id, airstrip_id, source, amount_bits, transaction_date: now, description }
}

/// Why a request to record a payment is turned down, if it is.
pub open spec fn record_revenue_rejection(state: StateView, revenue: RevenueView) -> Option<
    MessageView,
> {
    or_else(
        blank_field(revenue.source, "Revenue source"@),
        or_else(
            blank_field(revenue.description, "Revenue description"@),
            or_else(too_large::<Revenue>(revenue), out_of_ids(state.next_id)),
        ),
    )
}

/// Scheduled flights of one airstrip.
pub open spec fn scheduled_at(airstrip_id: u64) -> spec_fn(FlightView) -> bool {
    |f: FlightView| f.airstrip_id == airstrip_id && f.status == FlightStatus::Scheduled
}

/// Commitments of one pilot.
pub open spec fn of_pilot(pilot_id: u64) -> spec_fn(PilotScheduleView) -> bool {
    |s: PilotScheduleView| s.pilot_id == pilot_id
}

/// Emergency protocols of one airstrip.
pub open spec fn protocols_at(airstrip_id: u64) -> spec_fn(EmergencyProtocolView) -> bool {
    |p: EmergencyProtocolView| p.airstrip_id == airstrip_id
}

/// Fuel stocks of one airstrip.
pub open spec fn fuel_at(airstrip_id: u64) -> spec_fn(FuelInventoryView) -> bool {
    |i: FuelInventoryView| i.airstrip_id == airstrip_id
}

/// Payments of one airstrip within `[start_time, end_time]`.
pub open spec fn revenue_within(airstrip_id: u64, start_time: u64, end_time: u64) -> spec_fn(
    RevenueView,
) -> bool {
    |r: RevenueView| in_window(r, airstrip_id, start_time, end_time)
}

impl AppState {
    /// A state without records whose first identifier is zero. Stable memory
    /// is laid out afresh, whatever it held.
    ///
    /// At most one state may be open over a memory at a time. Where every
    /// state of a process sits on the same stable memory, a second state
    /// would write to the regions of the first, and nothing said of either
    /// would hold any longer.
    pub fn new() -> (state: Self)
        ensures
            state@ == blank_state(),
            state@.consistent(),
    {
        let regions = regions_open();
        AppState {
            ids: IdAllocator::create(&regions, 0),
            airstrips: EntityStore::create(&regions, 10),
            flights: EntityStore::create(&regions, 11),
            pilots: EntityStore::create(&regions, 12),
            maintenance_schedules: EntityStore::create(&regions, 13),
            pilot_schedules: EntityStore::create(&regions, 14),
            emergency_protocols: EntityStore::create(&regions, 15),
            fuel_inventories: EntityStore::create(&regions, 16),
            revenues: EntityStore::create(&regions, 17),
        }
    }

    /// The state that stable memory holds in the standard layout, or a blank
    /// one where it holds none. The counter and each store are resumed from
    /// the region set aside for them; what they contain depends on the memory
    /// alone. An entry that was not written in this crate's byte layout is
    /// not part of its store.
    ///
    /// At most one state may be open over a memory at a time. Where every
    /// state of a process sits on the same stable memory, a second state
    /// would write to the regions of the first, and nothing said of either
    /// would hold any longer.
    pub fn init() -> (state: Self)
        ensures
            state@.layout == standard_layout(),
    {
        let regions = regions_open();
        AppState {
            ids: IdAllocator::resume(&regions, 0),
            airstrips: EntityStore::resume(&regions, 10),
            flights: EntityStore::resume(&regions, 11),
            pilots: EntityStore::resume(&regions, 12),
            maintenance_schedules: EntityStore::resume(&regions, 13),
            pilot_schedules: EntityStore::resume(&regions, 14),
            emergency_protocols: EntityStore::resume(&regions, 15),
            fuel_inventories: EntityStore::resume(&regions, 16),
            revenues: EntityStore::resume(&regions, 17),
        }
    }

    /// Puts a new airstrip on record, created at `now`.
    pub fn create_airstrip(&mut self, payload: CreateAirstripPayload, now: u64) -> (outcome: Result<
        Airstrip,
        Message,
    >)
        ensures
            old(self)@.consistent() ==> final(self)@.consistent(),
            old(self)@.next_id <= final(self)@.next_id,
            outcome is Err <==> create_airstrip_rejection(old(self)@, payload, now) is Some,
            match outcome {
                Ok(created) => {
                    &&& created@ == airstrip_from(old(self)@.next_id, payload, now)
                    &&& final(self)@ == (StateView {
                        next_id: (old(self)@.next_id + 1) as u64,
                        airstrips: old(self)@.airstrips.insert(created.id, created@),
                        ..old(self)@
                    })
                },
                Err(failure) => {
                    &&& final(self)@ == old(self)@
                    &&& Some(failure@) == create_airstrip_rejection(old(self)@, payload, now)
                },
            },
    {
        if let Err(failure) = validate_string_field(payload.name.as_str(), "Airstrip name") {
            return Err(failure);
        }
        if let Err(failure) = validate_string_field(payload.contact.as_str(), "Contact") {
            return Err(failure);
        }
        if let Err(failure) = validate_string_field(payload.email.as_str(), "Email") {
            return Err(failure);
        }
        let created = Airstrip {
            id: self.ids.peek(),
            name: payload.name,
            location: payload.location,
            contact: payload.contact,
            email: payload.email,
            runway_length: payload.runway_length,
            capacity: payload.capacity,
            created_at: now,
        };
        if !EntityStore::<Airstrip>::accepts(&created) {
            return Err(Message::InvalidPayload("Record too large".to_owned()));
        }
        let id = match fetch_and_increment_id(&mut self.ids) {
            Ok(id) => id,
            Err(failure) => { return Err(failure); },
        };
        let stored = self.airstrips.insert(id, &created);
        assert(stored is Ok);
        Ok(created)
    }

    /// The airstrip on record under `airstrip_id`.
    pub fn get_airstrip_info(&self, airstrip_id: u64) -> (outcome: Result<Airstrip, Message>)
        ensures
            match outcome {
                Ok(airstrip) => self@.airstrips.contains_key(airstrip_id)
                    && self@.airstrips[airstrip_id] == airstrip@,
                Err(failure) => !self@.airstrips.contains_key(airstrip_id) && failure@
                    == MessageView::NotFound("Airstrip not found"@),
            },
    {
        match self.airstrips.get(airstrip_id) {
            Some(airstrip) => Ok(airstrip),
            None => Err(Message::NotFound("Airstrip not found".to_owned())),
        }
    }

    /// Puts a new flight on record, scheduled at an airstrip on record.
    pub fn schedule_flight(&mut self, payload: ScheduleFlightPayload) -> (outcome: Result<
        Flight,
        Message,
    >)
        ensures
            old(self)@.consistent() ==> final(self)@.consistent(),
            old(self)@.next_id <= final(self)@.next_id,
            outcome is Err <==> schedule_flight_rejection(old(self)@, payload) is Some,
            match outcome {
                Ok(created) => {
                    &&& created@ == flight_from(old(self)@.next_id, payload)
                    &&& final(self)@ == (StateView {
                        next_id: (old(self)@.next_id + 1) as u64,
                        flights: old(self)@.flights.insert(created.id, created@),
                        ..old(self)@
                    })
                },
                Err(failure) => {
                    &&& final(self)@ == old(self)@
                    &&& Some(failure@) == schedule_flight_rejection(old(self)@, payload)
                },
            },
    {
        if let Err(failure) = validate_string_field(
            payload.flight_number.as_str(),
            "Flight number",
        ) {
            return Err(failure);
        }
        if let Err(failure) = validate_string_field(payload.destination.as_str(), "Destination") {
            return Err(failure);
        }
        if !self.airstrips.contains(payload.airstrip_id) {
            return Err(Message::NotFound("Airstrip not found".to_owned()));
        }
        let created = Flight {
            id: self.ids.peek(),
            airstrip_id: payload.airstrip_id,
            flight_number: payload.flight_number,
            destination: payload.destination,
            departure_time: payload.departure_time,
            arrival_time: payload.arrival_time,
            status: FlightStatus::Scheduled,
        };
        if !EntityStore::<Flight>::accepts(&created) {
            return Err(Message::InvalidPayload("Record too large".to_owned()));
        }
        let id = match fetch_and_increment_id(&mut self.ids) {
            Ok(id) => id,
            Err(failure) => { return Err(failure); },
        };
        let stored = self.flights.insert(id, &created);
        assert(stored is Ok);
        Ok(created)
    }

    /// Puts a new pilot on record. Name, licence number, contact and email
    /// are all required.
    pub fn register_pilot(&mut self, payload: RegisterPilotPayload) -> (outcome: Result<
        Pilot,
        Message,
    >)
        ensures
            old(self)@.consistent() ==> final(self)@.consistent(),
            old(self)@.next_id <= final(self)@.next_id,
            outcome is Err <==> register_pilot_rejection(old(self)@, payload) is Some,
            match outcome {
                Ok(created) => {
                    &&& created@ == pilot_from(old(self)@.next_id, payload)
                    &&& final(self)@ == (StateView {
                        next_id: (old(self)@.next_id + 1) as u64,
                        pilots: old(self)@.pilots.insert(created.id, created@),
                        ..old(self)@
                    })
                },
                Err(failure) => {
                    &&& final(self)@ == old(self)@
                    &&& Some(failure@) == register_pilot_rejection(old(self)@, payload)
                },
            },
    {
        if let Err(failure) = validate_string_field(payload.name.as_str(), "Pilot name") {
            return Err(failure);
        }
        if let Err(failure) = validate_string_field(
            payload.license_number.as_str(),
            "License number",
        ) {
            return Err(failure);
        }
        if let Err(failure) = validate_string_field(payload.contact.as_str(), "Contact") {
            return Err(failure);
        }
        if let Err(failure) = validate_string_field(payload.email.as_str(), "Email") {
            return Err(failure);
        }
        let created = Pilot {
            id: self.ids.peek(),
            name: payload.name,
            license_number: payload.license_number,
            experience_years: payload.experience_years,
            contact: payload.contact,
            email: payload.email,
        };
        if !EntityStore::<Pilot>::accepts(&created) {
            return Err(Message::InvalidPayload("Record too large".to_owned()));
        }
        let id = match fetch_and_increment_id(&mut self.ids) {
            Ok(id) => id,
            Err(failure) => { return Err(failure); },
        };
        let stored = self.pilots.insert(id, &created);
        assert(stored is Ok);
        Ok(created)
    }

    /// Puts planned maintenance on record for an airstrip on record.
    pub fn schedule_maintenance(&mut self, payload: ScheduleMaintenancePayload) -> (outcome: Result<
        MaintenanceSchedule,
        Message,
    >)
        ensures
            old(self)@.consistent() ==> final(self)@.consistent(),
            old(self)@.next_id <= final(self)@.next_id,
            outcome is Err <==> schedule_maintenance_rejection(old(self)@, payload) is Some,
            match outcome {
                Ok(created) => {
                    &&& created@ == maintenance_from(old(self)@.next_id, payload)
                    &&& final(self)@ == (StateView {
                        next_id: (old(self)@.next_id + 1) as u64,
                        maintenance_schedules: old(self)@.maintenance_schedules.insert(
                            created.id,
                            created@,
                        ),
                        ..old(self)@
                    })
                },
                Err(failure) => {
                    &&& final(self)@ == old(self)@
                    &&& Some(failure@) == schedule_maintenance_rejection(old(self)@, payload)
                },
            },
    {
        if let Err(failure) = validate_string_field(
            payload.description.as_str(),
            "Maintenance description",
        ) {
            return Err(failure);
        }
        if !self.airstrips.contains(payload.airstrip_id) {
            return Err(Message::NotFound("Airstrip not found".to_owned()));
        }
        let created = MaintenanceSchedule {
            id: self.ids.peek(),
            airstrip_id: payload.airstrip_id,
            date: payload.date,
            description: payload.description,
            status: MaintenanceStatus::Scheduled,
        };
        if !EntityStore::<MaintenanceSchedule>::accepts(&created) {
            return Err(Message::InvalidPayload("Record too large".to_owned()));
        }
        let id = match fetch_and_increment_id(&mut self.ids) {
            Ok(id) => id,
            Err(failure) => { return Err(failure); },
        };
        let stored = self.maintenance_schedules.insert(id, &created);
        assert(stored is Ok);
        Ok(created)
    }

    /// How full the airstrip is at `now`, going by the flights on record.
    pub fn get_capacity_status(&self, airstrip_id: u64, now: u64) -> (outcome: Result<
        CapacityStatus,
        Message,
    >)
        ensures
            match outcome {
                Ok(status) => self@.airstrips.contains_key(airstrip_id) && capacity_status_of(
                    self@.airstrips[airstrip_id].capacity,
                    listing(self@.flights),
                    airstrip_id,
                    now,
                    status,
                ),
                Err(failure) => !self@.airstrips.contains_key(airstrip_id) && failure@
                    == MessageView::NotFound("Airstrip not found"@),
            },
    {
        let airstrip = match self.airstrips.get(airstrip_id) {
            Some(airstrip) => airstrip,
            None => { return Err(Message::NotFound("Airstrip not found".to_owned())); },
        };
        let flights = self.flights.scan();
        Ok(assess_capacity(airstrip.capacity, &flights, airstrip_id, now))
    }

    /// Commits a pilot on record to a flight on record for
    /// `[start_time, end_time)`, unless the pilot is committed at some moment
    /// of it already.
    pub fn schedule_pilot(
        &mut self,
        pilot_id: u64,
        flight_id: u64,
        start_time: u64,
        end_time: u64,
    ) -> (outcome: Result<PilotSchedule, Message>)
        ensures
            old(self)@.consistent() ==> final(self)@.consistent(),
            old(self)@.next_id <= final(self)@.next_id,
            outcome is Err <==> schedule_pilot_rejection(
                old(self)@,
                pilot_id,
                flight_id,
                start_time,
                end_time,
            ) is Some,
            match outcome {
                Ok(created) => {
                    &&& created@ == commitment_from(
                        old(self)@.next_id,
                        pilot_id,
                        flight_id,
                        start_time,
                        end_time,
                    )
                    &&& final(self)@ == committed(
                        old(self)@,
                        pilot_id,
                        flight_id,
                        start_time,
                        end_time,
                    )
                },
                Err(failure) => {
                    &&& final(self)@ == old(self)@
                    &&& Some(failure@) == schedule_pilot_rejection(
                        old(self)@,
                        pilot_id,
                        flight_id,
                        start_time,
                        end_time,
                    )
                },
            },
    {
        if !self.pilots.contains(pilot_id) {
            return Err(Message::NotFound("Pilot not found".to_owned()));
        }
        if !self.flights.contains(flight_id) {
            return Err(Message::NotFound("Flight not found".to_owned()));
        }
        let existing = self.pilot_schedules.scan();
        proof {
            lemma_busy_by_listing(
                scan_view(existing@),
                self@.pilot_schedules,
                pilot_id,
                start_time,
                end_time,
            );
        }
        if has_conflict(&existing, pilot_id, start_time, end_time) {
            return Err(Message::Error("Pilot is not available for this time slot".to_owned()));
        }
        let created = PilotSchedule {
            id: self.ids.peek(),
            pilot_id,
            flight_id,
            start_time,
            end_time,
            status: ScheduleStatus::Scheduled,
        };
        proof {
            lemma_auto_spec_u64_to_from_le_bytes();
        }
        let id = match fetch_and_increment_id(&mut self.ids) {
            Ok(id) => id,
            Err(failure) => { return Err(failure); },
        };
        proof {
            if old(self)@.consistent() {
                lemma_free_pilot_stays_single_booked(old(self)@.pilot_schedules, id, created@);
            }
        }
        let stored = self.pilot_schedules.insert(id, &created);
        assert(stored is Ok);
        assert(self@ == (StateView {
            next_id: (old(self)@.next_id + 1) as u64,
            pilot_schedules: old(self)@.pilot_schedules.insert(id, created@),
            ..old(self)@
        }));
        Ok(created)
    }

    /// Puts an emergency protocol on record, created at `now`.
    pub fn create_emergency_protocol(
        &mut self,
        airstrip_id: u64,
        protocol_type: String,
        description: String,
        contact_numbers: Vec<String>,
        evacuation_routes: Vec<String>,
        now: u64,
    ) -> (outcome: Result<EmergencyProtocol, Message>)
        ensures
            old(self)@.consistent() ==> final(self)@.consistent(),
            old(self)@.next_id <= final(self)@.next_id,
            outcome is Err <==> create_emergency_protocol_rejection(
                old(self)@,
                protocol_from(
                    old(self)@.next_id,
                    airstrip_id,
                    protocol_type@,
                    description@,
                    contact_numbers.deep_view(),
                    evacuation_routes.deep_view(),
                    now,
                ),
            ) is Some,
            match outcome {
                Ok(created) => {
                    &&& created@ == protocol_from(
                        old(self)@.next_id,
                        airstrip_id,
                        protocol_type@,
                        description@,
                        contact_numbers.deep_view(),
                        evacuation_routes.deep_view(),
                        now,
                    )
                    &&& final(self)@ == (StateView {
                        next_id: (old(self)@.next_id + 1) as u64,
                        emergency_protocols: old(self)@.emergency_protocols.insert(
                            created.id,
                            created@,
                        ),
                        ..old(self)@
                    })
                },
                Err(failure) => {
                    &&& final(self)@ == old(self)@
                    &&& Some(failure@) == create_emergency_protocol_rejection(
                        old(self)@,
                        protocol_from(
                            old(self)@.next_id,
                            airstrip_id,
                            protocol_type@,
                            description@,
                            contact_numbers.deep_view(),
                            evacuation_routes.deep_view(),
                            now,
                        ),
                    )
                },
            },
    {
        if let Err(failure) = validate_string_field(protocol_type.as_str(), "Protocol type") {
            return Err(failure);
        }
        if let Err(failure) = validate_string_field(description.as_str(), "Description") {
            return Err(failure);
        }
        let created = EmergencyProtocol {
            id: self.ids.peek(),
            airstrip_id,
            protocol_type,
            description,
            contact_numbers,
            evacuation_routes,
            created_at: now,
        };
        if !EntityStore::<EmergencyProtocol>::accepts(&created) {
            return Err(Message::InvalidPayload("Record too large".to_owned()));
        }
        let id = match fetch_and_increment_id(&mut self.ids) {
            Ok(id) => id,
            Err(failure) => { return Err(failure); },
        };
        let stored = self.emergency_protocols.insert(id, &created);
        assert(stored is Ok);
        Ok(created)
    }

    /// Puts a fuel stock on record, as of `now`. Quantity and unit price are
    /// bit patterns of binary64 numbers.
    pub fn update_fuel_inventory(
        &mut self,
        airstrip_id: u64,
        fuel_type: String,
        quantity_bits: u64,
        unit_price_bits: u64,
        now: u64,
    ) -> (outcome: Result<FuelInventory, Message>)
        ensures
            old(self)@.consistent() ==> final(self)@.consistent(),
            old(self)@.next_id <= final(self)@.next_id,
            outcome is Err <==> update_fuel_inventory_rejection(
                old(self)@,
                fuel_from(
                    old(self)@.next_id,
                    airstrip_id,
                    fuel_type@,
                    quantity_bits,
                    unit_price_bits,
                    now,
                ),
            ) is Some,
            match outcome {
                Ok(created) => {
                    &&& created@ == fuel_from(
                        old(self)@.next_id,
                        airstrip_id,
                        fuel_type@,
                        quantity_bits,
                        unit_price_bits,
                        now,
                    )
                    &&& final(self)@ == (StateView {
                        next_id: (old(self)@.next_id + 1) as u64,
                        fuel_inventories: old(self)@.fuel_inventories.insert(
                            created.id,
                            created@,
                        ),
                        ..old(self)@
                    })
                },
                Err(failure) => {
                    &&& final(self)@ == old(self)@
                    &&& Some(failure@) == update_fuel_inventory_rejection(
                        old(self)@,
                        fuel_from(
                            old(self)@.next_id,
                            airstrip_id,
                            fuel_type@,
                            quantity_bits,
                            unit_price_bits,
                            now,
                        ),
                    )
                },
            },
    {
        if let Err(failure) = validate_string_field(fuel_type.as_str(), "Fuel type") {
            return Err(failure);
        }
        let created = FuelInventory {
            id: self.ids.peek(),
            airstrip_id,
            fuel_type,
            quantity_bits,
            unit_price_bits,
            last_updated: now,
        };
        if !EntityStore::<FuelInventory>::accepts(&created) {
            return Err(Message::InvalidPayload("Record too large".to_owned()));
        }
        let id = match fetch_and_increment_id(&mut self.ids) {
            Ok(id) => id,
            Err(failure) => { return Err(failure); },
        };
        let stored = self.fuel_inventories.insert(id, &created);
        assert(stored is Ok);
        Ok(created)
    }

    /// Puts a payment on record, received at `now`. The amount is the bit
    /// pattern of a binary64 number.
    pub fn record_revenue(
        &mut self,
        airstrip_id: u64,
        source: String,
        amount_bits: u64,
        description: String,
        now: u64,
    ) -> (outcome: Result<Revenue, Message>)
        ensures
            old(self)@.consistent() ==> final(self)@.consistent(),
            old(self)@.next_id <= final(self)@.next_id,
            outcome is Err <==> record_revenue_rejection(
                old(self)@,
                revenue_from(
                    old(self)@.next_id,
                    airstrip_id,
                    source@,
                    amount_bits,
                    description@,
                    now,
                ),
            ) is Some,
            match outcome {
                Ok(created) => {
                    &&& created@ == revenue_from(
                        old(self)@.next_id,
                        airstrip_id,
                        source@,
                        amount_bits,
                        description@,
                        now,
                    )
                    &&& final(self)@ == (StateView {
                        next_id: (old(self)@.next_id + 1) as u64,
                        revenues: old(self)@.revenues.insert(created.id, created@),
                        ..old(self)@
                    })
                },
                Err(failure) => {
                    &&& final(self)@ == old(self)@
                    &&& Some(failure@) == record_revenue_rejection(
                        old(self)@,
                        revenue_from(
                            old(self)@.next_id,
                            airstrip_id,
                            source@,
                            amount_bits,
                            description@,
                            now,
                        ),
                    )
                },
            },
    {
        if let Err(failure) = validate_string_field(source.as_str(), "Revenue source") {
            return Err(failure);
        }
        if let Err(failure) = validate_string_field(description.as_str(), "Revenue description") {
            return Err(failure);
        }
        let created = Revenue {
            id: self.ids.peek(),
            airstrip_id,
            source,
            amount_bits,
            transaction_date: now,
            description,
        };
        if !EntityStore::<Revenue>::accepts(&created) {
            return Err(Message::InvalidPayload("Record too large".to_owned()));
        }
        let id = match fetch_and_increment_id(&mut self.ids) {
            Ok(id) => id,
            Err(failure) => { return Err(failure); },
        };
        let stored = self.revenues.insert(id, &created);
        assert(stored is Ok);
        Ok(created)
    }

    /// The payments of an airstrip within `[start_time, end_time]`, grouped by
    /// category, with every amount listed once more under the total key.
    pub fn get_revenue_analysis(&self, airstrip_id: u64, start_time: u64, end_time: u64) -> (outcome:
        Result<Vec<RevenueGroup>, Message>)
        ensures
            outcome is Ok,
            views(outcome->Ok_0@) == analysis_of(
                select(listing(self@.revenues), revenue_within(airstrip_id, start_time, end_time)),
            ),
    {
        let keep = |r: &Revenue| -> (b: bool)
            ensures
                b == in_window(r@, airstrip_id, start_time, end_time),
            { r.airstrip_id == airstrip_id && r.transaction_date >= start_time
                && r.transaction_date <= end_time };
        let matching = self.revenues.select_where(
            keep,
            Ghost(revenue_within(airstrip_id, start_time, end_time)),
        );
        Ok(group_by_source(&matching))
    }

    /// The commitments of a pilot, by ascending identifier.
    pub fn get_pilot_schedule(&self, pilot_id: u64) -> (schedules: Vec<PilotSchedule>)
        ensures
            views(schedules@) == select(listing(self@.pilot_schedules), of_pilot(pilot_id)),
    {
        let keep = |s: &PilotSchedule| -> (b: bool)
            ensures
                b == (s@.pilot_id == pilot_id),
            { s.pilot_id == pilot_id };
        self.pilot_schedules.select_where(keep, Ghost(of_pilot(pilot_id)))
    }

    /// The emergency protocols of an airstrip, by ascending identifier.
    pub fn get_emergency_protocols(&self, airstrip_id: u64) -> (protocols: Vec<EmergencyProtocol>)
        ensures
            views(protocols@) == select(
                listing(self@.emergency_protocols),
                protocols_at(airstrip_id),
            ),
    {
        let keep = |p: &EmergencyProtocol| -> (b: bool)
            ensures
                b == (p@.airstrip_id == airstrip_id),
            { p.airstrip_id == airstrip_id };
        self.emergency_protocols.select_where(keep, Ghost(protocols_at(airstrip_id)))
    }

    /// The fuel stocks of an airstrip, by ascending identifier.
    pub fn get_fuel_inventory(&self, airstrip_id: u64) -> (stocks: Vec<FuelInventory>)
        ensures
            views(stocks@) == select(listing(self@.fuel_inventories), fuel_at(airstrip_id)),
    {
        let keep = |i: &FuelInventory| -> (b: bool)
            ensures
                b == (i@.airstrip_id == airstrip_id),
            { i.airstrip_id == airstrip_id };
        self.fuel_inventories.select_where(keep, Ghost(fuel_at(airstrip_id)))
    }

    /// The scheduled flights of an airstrip, by ascending identifier.
    pub fn list_scheduled_flights(&self, airstrip_id: u64) -> (flights: Vec<Flight>)
        ensures
            views(flights@) == select(listing(self@.flights), scheduled_at(airstrip_id)),
    {
        let keep = |f: &Flight| -> (b: bool)
            ensures
                b == (f@.airstrip_id == airstrip_id && f@.status == FlightStatus::Scheduled),
            {
                f.airstrip_id == airstrip_id && match f.status {
                    FlightStatus::Scheduled => true,
                    _ => false,
                }
            };
        self.flights.select_where(keep, Ghost(scheduled_at(airstrip_id)))
    }

    /// Marks the flight on record under `flight_id` as cancelled.
    pub fn cancel_flight(&mut self, flight_id: u64) -> (outcome: Result<Message, Message>)
        ensures
            old(self)@.consistent() ==> final(self)@.consistent(),
            old(self)@.next_id <= final(self)@.next_id,
            match outcome {
                Ok(notice) => {
                    &&& old(self)@.flights.contains_key(flight_id)
                    &&& notice@ == MessageView::Success("Flight successfully cancelled"@)
                    &&& final(self)@ == (StateView {
                        flights: old(self)@.flights.insert(
                            flight_id,
                            FlightView {
                                status: FlightStatus::Cancelled,
                                ..old(self)@.flights[flight_id]
                            },
                        ),
                        ..old(self)@
                    })
                },
                Err(failure) => {
                    &&& !old(self)@.flights.contains_key(flight_id)
                    &&& failure@ == MessageView::NotFound("Flight not found"@)
                    &&& final(self)@ == old(self)@
                },
            },
    {
        match self.flights.get(flight_id) {
            Some(mut flight) => {
                proof {
                    lemma_status_keeps_length(flight@, FlightStatus::Cancelled);
                }
                flight.status = FlightStatus::Cancelled;
                let stored = self.flights.insert(flight_id, &flight);
                assert(stored is Ok);
                Ok(Message::Success("Flight successfully cancelled".to_owned()))
            },
            None => Err(Message::NotFound("Flight not found".to_owned())),
        }
    }

    /// Sets the capacity of the airstrip on record under `airstrip_id`.
    pub fn update_airstrip_capacity(&mut self, airstrip_id: u64, new_capacity: u64) -> (outcome:
        Result<Message, Message>)
        ensures
            old(self)@.consistent() ==> final(self)@.consistent(),
            old(self)@.next_id <= final(self)@.next_id,
            match outcome {
                Ok(notice) => {
                    &&& old(self)@.airstrips.contains_key(airstrip_id)
                    &&& notice@ == MessageView::Success("Airstrip capacity updated successfully"@)
                    &&& final(self)@ == (StateView {
                        airstrips: old(self)@.airstrips.insert(
                            airstrip_id,
                            AirstripView {
                                capacity: new_capacity,
                                ..old(self)@.airstrips[airstrip_id]
                            },
                        ),
                        ..old(self)@
                    })
                },
                Err(failure) => {
                    &&& !old(self)@.airstrips.contains_key(airstrip_id)
                    &&& failure@ == MessageView::NotFound("Airstrip not found"@)
                    &&& final(self)@ == old(self)@
                },
            },
    {
        match self.airstrips.get(airstrip_id) {
            Some(mut airstrip) => {
                proof {
                    lemma_capacity_keeps_length(airstrip@, new_capacity);
                }
                airstrip.capacity = new_capacity;
                let stored = self.airstrips.insert(airstrip_id, &airstrip);
                assert(stored is Ok);
                Ok(Message::Success("Airstrip capacity updated successfully".to_owned()))
            },
            None => Err(Message::NotFound("Airstrip not found".to_owned())),
        }
    }
}

} // verus!
