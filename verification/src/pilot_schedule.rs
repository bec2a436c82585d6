//! The times for which pilots are committed to flights.

use crate::codec::{
    enc_tag, enc_u64, get_tag, get_u64, lemma_parse_tag, lemma_parse_u64,
    lemma_parsed_tag, lemma_parsed_u64, parse_tag, parse_u64, put_tag, put_u64, rest_of,
    value_of,
};
use crate::record::Record;
use vstd::prelude::*;

verus! {

/// Where a pilot's commitment stands.
#[derive(Debug, Clone, Copy, PartialEq, Eq)]
pub enum ScheduleStatus {
    Scheduled,
    Completed,
    Cancelled,
}

impl ScheduleStatus {
    /// The byte that stands for the status in a stored record.
    pub open spec fn tag(self) -> u8 {
        match self {
            ScheduleStatus::Scheduled => 0,
            ScheduleStatus::Completed => 1,
            ScheduleStatus::Cancelled => 2,
        }
    }

    /// The status that a byte stands for.
    pub open spec fn from_tag(tag: u8) -> Option<ScheduleStatus> {
        if tag == 0 {
            Some(ScheduleStatus::Scheduled)
        } else if tag == 1 {
            Some(ScheduleStatus::Completed)
        } else if tag == 2 {
            Some(ScheduleStatus::Cancelled)
        } else {
            None
        }
    }

    /// The name of the status as callers write it.
    pub open spec fn label_text(self) -> Seq<char> {
        match self {
            ScheduleStatus::Scheduled => "scheduled"@,
            ScheduleStatus::Completed => "completed"@,
            ScheduleStatus::Cancelled => "cancelled"@,
        }
    }

    /// The byte to store for the status.
    pub fn to_tag(self) -> (tag: u8)
        ensures
            tag == self.tag(),
    {
        match self {
            ScheduleStatus::Scheduled => 0,
            ScheduleStatus::Completed => 1,
            ScheduleStatus::Cancelled => 2,
        }
    }

    /// The status stored as `tag`, if `tag` stands for one.
    pub fn of_tag(tag: u8) -> (status: Option<ScheduleStatus>)
        ensures
            status == Self::from_tag(tag),
    {
        if tag == 0 {
            Some(ScheduleStatus::Scheduled)
        } else if tag == 1 {
            Some(ScheduleStatus::Completed)
        } else if tag == 2 {
            Some(ScheduleStatus::Cancelled)
        } else {
            None
        }
    }

    /// The name of the status as callers write it.
    pub fn label(self) -> (text: &'static str)
        ensures
            text@ == self.label_text(),
    {
        match self {
            ScheduleStatus::Scheduled => "scheduled",
            ScheduleStatus::Completed => "completed",
            ScheduleStatus::Cancelled => "cancelled",
        }
    }
}

/// A pilot committed to a flight from `start_time` up to, not including, `end_time`.
#[derive(Debug, Clone, PartialEq, Eq)]
pub struct PilotSchedule {
    pub id: u64,
    pub pilot_id: u64,
    pub flight_id: u64,
    pub start_time: u64,
    pub end_time: u64,
    pub status: ScheduleStatus,
}

pub ghost struct PilotScheduleView {
    pub id: u64,
    pub pilot_id: u64,
    pub flight_id: u64,
    pub start_time: u64,
    pub end_time: u64,
    pub status: ScheduleStatus,
}

impl View for PilotSchedule {
    type V = PilotScheduleView;

    open spec fn view(&self) -> PilotScheduleView {
        PilotScheduleView {
            id: self.id,
            pilot_id: self.pilot_id,
            flight_id: self.flight_id,
            start_time: self.start_time,
            end_time: self.end_time,
            status: self.status,
        }
    }
}

impl Record for PilotSchedule {
    open spec fn storable(v: PilotScheduleView) -> bool {
        true
    }

    open spec fn encoding(v: PilotScheduleView) -> Seq<u8> {
        enc_u64(v.id) + (
        enc_u64(v.pilot_id) + (
        enc_u64(v.flight_id) + (
        enc_u64(v.start_time) + (
        enc_u64(v.end_time) + (
        enc_tag(v.status.tag()))))))
    }

    open spec fn decoding(bytes: Seq<u8>) -> Option<PilotScheduleView> {
        let id = parse_u64(bytes);
        let pilot_id = parse_u64(rest_of(id));
        let flight_id = parse_u64(rest_of(pilot_id));
        let start_time = parse_u64(rest_of(flight_id));
        let end_time = parse_u64(rest_of(start_time));
        let status = parse_tag(rest_of(end_time));
        if id is Some
            && pilot_id is Some
            && flight_id is Some
            && start_time is Some
            && end_time is Some
            && status is Some
            && ScheduleStatus::from_tag(value_of(status)) is Some
            && rest_of(status).len() == 0 {
            Some(
                PilotScheduleView {
                    id: value_of(id),
                    pilot_id: value_of(pilot_id),
                    flight_id: value_of(flight_id),
                    start_time: value_of(start_time),
                    end_time: value_of(end_time),
                    status: ScheduleStatus::from_tag(value_of(status))->0,
                },
            )
        } else {
            None
        }
    }

    proof fn lemma_round_trip(v: PilotScheduleView) {
        let after_end_time = enc_tag(v.status.tag());
        let after_start_time = enc_u64(v.end_time) + after_end_time;
        let after_flight_id = enc_u64(v.start_time) + after_start_time;
        let after_pilot_id = enc_u64(v.flight_id) + after_flight_id;
        let after_id = enc_u64(v.pilot_id) + after_pilot_id;
        lemma_parse_u64(v.id, after_id);
        lemma_parse_u64(v.pilot_id, after_pilot_id);
        lemma_parse_u64(v.flight_id, after_flight_id);
        lemma_parse_u64(v.start_time, after_start_time);
        lemma_parse_u64(v.end_time, after_end_time);
        lemma_parse_tag(v.status.tag(), Seq::empty());
        assert(after_end_time =~= after_end_time + Seq::<u8>::empty());
    }

    proof fn lemma_one_encoding(bytes: Seq<u8>) {
        let id = parse_u64(bytes);
        let pilot_id = parse_u64(rest_of(id));
        let flight_id = parse_u64(rest_of(pilot_id));
        let start_time = parse_u64(rest_of(flight_id));
        let end_time = parse_u64(rest_of(start_time));
        let status = parse_tag(rest_of(end_time));
        lemma_parsed_u64(bytes);
        lemma_parsed_u64(rest_of(id));
        lemma_parsed_u64(rest_of(pilot_id));
        lemma_parsed_u64(rest_of(flight_id));
        lemma_parsed_u64(rest_of(start_time));
        lemma_parsed_tag(rest_of(end_time));
        assert(rest_of(status) =~= Seq::<u8>::empty());
        assert(rest_of(end_time) =~= enc_tag(value_of(status)));
        assert(bytes =~= Self::encoding(Self::decoding(bytes)->0));
    }

    fn encode(&self) -> (bytes: Vec<u8>) {
        let mut out: Vec<u8> = Vec::new();
        put_u64(&mut out, self.id);
        put_u64(&mut out, self.pilot_id);
        put_u64(&mut out, self.flight_id);
        put_u64(&mut out, self.start_time);
        put_u64(&mut out, self.end_time);
        put_tag(&mut out, self.status.to_tag());
        assert(out@ =~= Self::encoding(self@));
        out
    }

    fn decode(bytes: &[u8]) -> (record: Option<Self>) {
        assert(bytes@.skip(0) =~= bytes@);
        let (id, at) = match get_u64(bytes, 0) {
            Some(read) => read,
            None => { return None; },
        };
        let (pilot_id, at) = match get_u64(bytes, at) {
            Some(read) => read,
            None => { return None; },
        };
        let (flight_id, at) = match get_u64(bytes, at) {
            Some(read) => read,
            None => { return None; },
        };
        let (start_time, at) = match get_u64(bytes, at) {
            Some(read) => read,
            None => { return None; },
        };
        let (end_time, at) = match get_u64(bytes, at) {
            Some(read) => read,
            None => { return None; },
        };
        let (status_tag, at) = match get_tag(bytes, at) {
            Some(read) => read,
            None => { return None; },
        };
        let status = match ScheduleStatus::of_tag(status_tag) {
            Some(known) => known,
            None => { return None; },
        };
        if at != bytes.len() {
            return None;
        }
        Some(PilotSchedule { id, pilot_id, flight_id, start_time, end_time, status })
    }
}

} // verus!
