//! What callers hand in to create records.

use vstd::prelude::*;

verus! {

#[derive(Debug, Clone, PartialEq, Eq)]
pub struct CreateAirstripPayload {
    pub name: String,
    pub location: String,
    pub contact: String,
    pub email: String,
    pub runway_length: u64,
    pub capacity: u64,
}

#[derive(Debug, Clone, PartialEq, Eq)]
pub struct ScheduleFlightPayload {
    pub airstrip_id: u64,
    pub flight_number: String,
    pub destination: String,
    pub departure_time: u64,
    pub arrival_time: u64,
}

#[derive(Debug, Clone, PartialEq, Eq)]
pub struct RegisterPilotPayload {
    pub name: String,
    pub license_number: String,
    pub experience_years: u64,
    pub contact: String,
    pub email: String,
}

#[derive(Debug, Clone, PartialEq, Eq)]
pub struct ScheduleMaintenancePayload {
    pub airstrip_id: u64,
    pub date: u64,
    pub description: String,
}

} // verus!
