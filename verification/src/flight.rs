//! Flights and where they stand.

use crate::codec::{
    enc_tag, enc_text, enc_u64, get_tag, get_text, get_u64, lemma_parse_tag,
    lemma_parse_text, lemma_parse_u64, lemma_parsed_tag, lemma_parsed_text,
    lemma_parsed_u64, parse_tag, parse_text, parse_u64, put_tag, put_text, put_u64,
    rest_of, text_fits, value_of,
};
use crate::record::Record;
use vstd::prelude::*;

verus! {

/// Where a flight stands.
#[derive(Debug, Clone, Copy, PartialEq, Eq)]
pub enum FlightStatus {
    Scheduled,
    Delayed,
    Completed,
    Cancelled,
    /// On the ground at its airstrip.
    Arrived,
}

impl FlightStatus {
    /// The byte that stands for the status in a stored record.
    pub open spec fn tag(self) -> u8 {
        match self {
            FlightStatus::Scheduled => 0,
            FlightStatus::Delayed => 1,
            FlightStatus::Completed => 2,
            FlightStatus::Cancelled => 3,
            FlightStatus::Arrived => 4,
        }
    }

    /// The status that a byte stands for.
    pub open spec fn from_tag(tag: u8) -> Option<FlightStatus> {
        if tag == 0 {
            Some(FlightStatus::Scheduled)
        } else if tag == 1 {
            Some(FlightStatus::Delayed)
        } else if tag == 2 {
            Some(FlightStatus::Completed)
        } else if tag == 3 {
            Some(FlightStatus::Cancelled)
        } else if tag == 4 {
            Some(FlightStatus::Arrived)
        } else {
            None
        }
    }

    /// The name of the status as callers write it.
    pub open spec fn label_text(self) -> Seq<char> {
        match self {
            FlightStatus::Scheduled => "scheduled"@,
            FlightStatus::Delayed => "delayed"@,
            FlightStatus::Completed => "completed"@,
            FlightStatus::Cancelled => "cancelled"@,
            FlightStatus::Arrived => "arrived"@,
        }
    }

    /// The byte to store for the status.
    pub fn to_tag(self) -> (tag: u8)
        ensures
            tag == self.tag(),
    {
        match self {
            FlightStatus::Scheduled => 0,
            FlightStatus::Delayed => 1,
            FlightStatus::Completed => 2,
            FlightStatus::Cancelled => 3,
            FlightStatus::Arrived => 4,
        }
    }

    /// The status stored as `tag`, if `tag` stands for one.
    pub fn of_tag(tag: u8) -> (status: Option<FlightStatus>)
        ensures
            status == Self::from_tag(tag),
    {
        if tag == 0 {
            Some(FlightStatus::Scheduled)
        } else if tag == 1 {
            Some(FlightStatus::Delayed)
        } else if tag == 2 {
            Some(FlightStatus::Completed)
        } else if tag == 3 {
            Some(FlightStatus::Cancelled)
        } else if tag == 4 {
            Some(FlightStatus::Arrived)
        } else {
            None
        }
    }

    /// The name of the status as callers write it.
    pub fn label(self) -> (text: &'static str)
        ensures
            text@ == self.label_text(),
    {
        match self {
            FlightStatus::Scheduled => "scheduled",
            FlightStatus::Delayed => "delayed",
            FlightStatus::Completed => "completed",
            FlightStatus::Cancelled => "cancelled",
            FlightStatus::Arrived => "arrived",
        }
    }
}

/// A flight bound to an airstrip.
#[derive(Debug, Clone, PartialEq, Eq)]
pub struct Flight {
    pub id: u64,
    /// The airstrip it was scheduled at; checked when the flight is created.
    pub airstrip_id: u64,
    pub flight_number: String,
    pub destination: String,
    pub departure_time: u64,
    pub arrival_time: u64,
    pub status: FlightStatus,
}

pub ghost struct FlightView {
    pub id: u64,
    pub airstrip_id: u64,
    pub flight_number: Seq<char>,
    pub destination: Seq<char>,
    pub departure_time: u64,
    pub arrival_time: u64,
    pub status: FlightStatus,
}

impl View for Flight {
    type V = FlightView;

    open spec fn view(&self) -> FlightView {
        FlightView {
            id: self.id,
            airstrip_id: self.airstrip_id,
            flight_number: self.flight_number@,
            destination: self.destination@,
            departure_time: self.departure_time,
            arrival_time: self.arrival_time,
            status: self.status,
        }
    }
}

impl Record for Flight {
    open spec fn storable(v: FlightView) -> bool {
        &&& text_fits(v.flight_number)
        &&& text_fits(v.destination)
    }

    open spec fn encoding(v: FlightView) -> Seq<u8> {
        enc_u64(v.id) + (
        enc_u64(v.airstrip_id) + (
        enc_text(v.flight_number) + (
        enc_text(v.destination) + (
        enc_u64(v.departure_time) + (
        enc_u64(v.arrival_time) + (
        enc_tag(v.status.tag())))))))
    }

    open spec fn decoding(bytes: Seq<u8>) -> Option<FlightView> {
        let id = parse_u64(bytes);
        let airstrip_id = parse_u64(rest_of(id));
        let flight_number = parse_text(rest_of(airstrip_id));
        let destination = parse_text(rest_of(flight_number));
        let departure_time = parse_u64(rest_of(destination));
        let arrival_time = parse_u64(rest_of(departure_time));
        let status = parse_tag(rest_of(arrival_time));
        if id is Some
            && airstrip_id is Some
            && flight_number is Some
            && destination is Some
            && departure_time is Some
            && arrival_time is Some
            && status is Some
            && FlightStatus::from_tag(value_of(status)) is Some
            && rest_of(status).len() == 0 {
            Some(
                FlightView {
                    id: value_of(id),
                    airstrip_id: value_of(airstrip_id),
                    flight_number: value_of(flight_number),
                    destination: value_of(destination),
                    departure_time: value_of(departure_time),
                    arrival_time: value_of(arrival_time),
                    status: FlightStatus::from_tag(value_of(status))->0,
                },
            )
        } else {
            None
        }
    }

    proof fn lemma_round_trip(v: FlightView) {
        let after_arrival_time = enc_tag(v.status.tag());
        let after_departure_time = enc_u64(v.arrival_time) + after_arrival_time;
        let after_destination = enc_u64(v.departure_time) + after_departure_time;
        let after_flight_number = enc_text(v.destination) + after_destination;
        let after_airstrip_id = enc_text(v.flight_number) + after_flight_number;
        let after_id = enc_u64(v.airstrip_id) + after_airstrip_id;
        lemma_parse_u64(v.id, after_id);
        lemma_parse_u64(v.airstrip_id, after_airstrip_id);
        lemma_parse_text(v.flight_number, after_flight_number);
        lemma_parse_text(v.destination, after_destination);
        lemma_parse_u64(v.departure_time, after_departure_time);
        lemma_parse_u64(v.arrival_time, after_arrival_time);
        lemma_parse_tag(v.status.tag(), Seq::empty());
        assert(after_arrival_time =~= after_arrival_time + Seq::<u8>::empty());
    }

    proof fn lemma_one_encoding(bytes: Seq<u8>) {
        let id = parse_u64(bytes);
        let airstrip_id = parse_u64(rest_of(id));
        let flight_number = parse_text(rest_of(airstrip_id));
        let destination = parse_text(rest_of(flight_number));
        let departure_time = parse_u64(rest_of(destination));
        let arrival_time = parse_u64(rest_of(departure_time));
        let status = parse_tag(rest_of(arrival_time));
        lemma_parsed_u64(bytes);
        lemma_parsed_u64(rest_of(id));
        lemma_parsed_text(rest_of(airstrip_id));
        lemma_parsed_text(rest_of(flight_number));
        lemma_parsed_u64(rest_of(destination));
        lemma_parsed_u64(rest_of(departure_time));
        lemma_parsed_tag(rest_of(arrival_time));
        assert(rest_of(status) =~= Seq::<u8>::empty());
        assert(rest_of(arrival_time) =~= enc_tag(value_of(status)));
        assert(bytes =~= Self::encoding(Self::decoding(bytes)->0));
    }

    fn encode(&self) -> (bytes: Vec<u8>) {
        let mut out: Vec<u8> = Vec::new();
        put_u64(&mut out, self.id);
        put_u64(&mut out, self.airstrip_id);
        put_text(&mut out, self.flight_number.as_str());
        put_text(&mut out, self.destination.as_str());
        put_u64(&mut out, self.departure_time);
        put_u64(&mut out, self.arrival_time);
        put_tag(&mut out, self.status.to_tag());
        assert(out@ =~= Self::encoding(self@));
        out
    }

    fn decode(bytes: &[u8]) -> (record: Option<Self>) {
        assert(bytes@.skip(0) =~= bytes@);
        let (id, at) = match get_u64(bytes, 0) {
            Some(read) => read,
            None => { return None; },
        };
        let (airstrip_id, at) = match get_u64(bytes, at) {
            Some(read) => read,
            None => { return None; },
        };
        let (flight_number, at) = match get_text(bytes, at) {
            Some(read) => read,
            None => { return None; },
        };
        let (destination, at) = match get_text(bytes, at) {
            Some(read) => read,
            None => { return None; },
        };
        let (departure_time, at) = match get_u64(bytes, at) {
            Some(read) => read,
            None => { return None; },
        };
        let (arrival_time, at) = match get_u64(bytes, at) {
            Some(read) => read,
            None => { return None; },
        };
        let (status_tag, at) = match get_tag(bytes, at) {
            Some(read) => read,
            None => { return None; },
        };
        let status = match FlightStatus::of_tag(status_tag) {
            Some(known) => known,
            None => { return None; },
        };
        if at != bytes.len() {
            return None;
        }
        Some(
            Flight {
                id,
                airstrip_id,
                flight_number,
                destination,
                departure_time,
                arrival_time,
                status,
            },
        )
    }
}

/// A flight takes as many bytes in one status as in another.
pub proof fn lemma_status_keeps_length(flight: FlightView, status: FlightStatus)
    ensures
        Flight::encoding(FlightView { status, ..flight }).len() == Flight::encoding(flight).len(),
{
}

} // verus!
