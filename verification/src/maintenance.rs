//! Maintenance work planned for airstrips.

use crate::codec::{
    enc_tag, enc_text, enc_u64, get_tag, get_text, get_u64, lemma_parse_tag,
    lemma_parse_text, lemma_parse_u64, lemma_parsed_tag, lemma_parsed_text,
    lemma_parsed_u64, parse_tag, parse_text, parse_u64, put_tag, put_text, put_u64,
    rest_of, text_fits, value_of,
};
use crate::record::Record;
use vstd::prelude::*;

verus! {

/// Where planned maintenance stands.
#[derive(Debug, Clone, Copy, PartialEq, Eq)]
pub enum MaintenanceStatus {
    Scheduled,
    Completed,
}

impl MaintenanceStatus {
    /// The byte that stands for the status in a stored record.
    pub open spec fn tag(self) -> u8 {
        match self {
            MaintenanceStatus::Scheduled => 0,
            MaintenanceStatus::Completed => 1,
        }
    }

    /// The status that a byte stands for.
    pub open spec fn from_tag(tag: u8) -> Option<MaintenanceStatus> {
        if tag == 0 {
            Some(MaintenanceStatus::Scheduled)
        } else if tag == 1 {
            Some(MaintenanceStatus::Completed)
        } else {
            None
        }
    }

    /// The name of the status as callers write it.
    pub open spec fn label_text(self) -> Seq<char> {
        match self {
            MaintenanceStatus::Scheduled => "scheduled"@,
            MaintenanceStatus::Completed => "completed"@,
        }
    }

    /// The byte to store for the status.
    pub fn to_tag(self) -> (tag: u8)
        ensures
            tag == self.tag(),
    {
        match self {
            MaintenanceStatus::Scheduled => 0,
            MaintenanceStatus::Completed => 1,
        }
    }

    /// The status stored as `tag`, if `tag` stands for one.
    pub fn of_tag(tag: u8) -> (status: Option<MaintenanceStatus>)
        ensures
            status == Self::from_tag(tag),
    {
        if tag == 0 {
            Some(MaintenanceStatus::Scheduled)
        } else if tag == 1 {
            Some(MaintenanceStatus::Completed)
        } else {
            None
        }
    }

    /// The name of the status as callers write it.
    pub fn label(self) -> (text: &'static str)
        ensures
            text@ == self.label_text(),
    {
        match self {
            MaintenanceStatus::Scheduled => "scheduled",
            MaintenanceStatus::Completed => "completed",
        }
    }
}

/// Maintenance planned at an airstrip.
#[derive(Debug, Clone, PartialEq, Eq)]
pub struct MaintenanceSchedule {
    pub id: u64,
    /// The airstrip concerned; checked when the entry is created.
    pub airstrip_id: u64,
    pub date: u64,
    pub description: String,
    pub status: MaintenanceStatus,
}

pub ghost struct MaintenanceScheduleView {
    pub id: u64,
    pub airstrip_id: u64,
    pub date: u64,
    pub description: Seq<char>,
    pub status: MaintenanceStatus,
}

impl View for MaintenanceSchedule {
    type V = MaintenanceScheduleView;

    open spec fn view(&self) -> MaintenanceScheduleView {
        MaintenanceScheduleView {
            id: self.id,
            airstrip_id: self.airstrip_id,
            date: self.date,
            description: self.description@,
            status: self.status,
        }
    }
}

impl Record for MaintenanceSchedule {
    open spec fn storable(v: MaintenanceScheduleView) -> bool {
        &&& text_fits(v.description)
    }

    open spec fn encoding(v: MaintenanceScheduleView) -> Seq<u8> {
        enc_u64(v.id) + (
        enc_u64(v.airstrip_id) + (
        enc_u64(v.date) + (
        enc_text(v.description) + (
        enc_tag(v.status.tag())))))
    }

    open spec fn decoding(bytes: Seq<u8>) -> Option<MaintenanceScheduleView> {
        let id = parse_u64(bytes);
        let airstrip_id = parse_u64(rest_of(id));
        let date = parse_u64(rest_of(airstrip_id));
        let description = parse_text(rest_of(date));
        let status = parse_tag(rest_of(description));
        if id is Some
            && airstrip_id is Some
            && date is Some
            && description is Some
            && status is Some
            && MaintenanceStatus::from_tag(value_of(status)) is Some
            && rest_of(status).len() == 0 {
            Some(
                MaintenanceScheduleView {
                    id: value_of(id),
                    airstrip_id: value_of(airstrip_id),
                    date: value_of(date),
                    description: value_of(description),
                    status: MaintenanceStatus::from_tag(value_of(status))->0,
                },
            )
        } else {
            None
        }
    }

    proof fn lemma_round_trip(v: MaintenanceScheduleView) {
        let after_description = enc_tag(v.status.tag());
        let after_date = enc_text(v.description) + after_description;
        let after_airstrip_id = enc_u64(v.date) + after_date;
        let after_id = enc_u64(v.airstrip_id) + after_airstrip_id;
        lemma_parse_u64(v.id, after_id);
        lemma_parse_u64(v.airstrip_id, after_airstrip_id);
        lemma_parse_u64(v.date, after_date);
        lemma_parse_text(v.description, after_description);
        lemma_parse_tag(v.status.tag(), Seq::empty());
        assert(after_description =~= after_description + Seq::<u8>::empty());
    }

    proof fn lemma_one_encoding(bytes: Seq<u8>) {
        let id = parse_u64(bytes);
        let airstrip_id = parse_u64(rest_of(id));
        let date = parse_u64(rest_of(airstrip_id));
        let description = parse_text(rest_of(date));
        let status = parse_tag(rest_of(description));
        lemma_parsed_u64(bytes);
        lemma_parsed_u64(rest_of(id));
        lemma_parsed_u64(rest_of(airstrip_id));
        lemma_parsed_text(rest_of(date));
        lemma_parsed_tag(rest_of(description));
        assert(rest_of(status) =~= Seq::<u8>::empty());
        assert(rest_of(description) =~= enc_tag(value_of(status)));
        assert(bytes =~= Self::encoding(Self::decoding(bytes)->0));
    }

    fn encode(&self) -> (bytes: Vec<u8>) {
        let mut out: Vec<u8> = Vec::new();
        put_u64(&mut out, self.id);
        put_u64(&mut out, self.airstrip_id);
        put_u64(&mut out, self.date);
        put_text(&mut out, self.description.as_str());
        put_tag(&mut out, self.status.to_tag());
        assert(out@ =~= Self::encoding(self@));
        out
    }

    fn decode(bytes: &[u8]) -> (record: Option<Self>) {
        assert(bytes@.skip(0) =~= bytes@);
        let (id, at) = match get_u64(bytes, 0) {
            Some(read) => read,
            None => { return None; },
        };
        let (airstrip_id, at) = match get_u64(bytes, at) {
            Some(read) => read,
            None => { return None; },
        };
        let (date, at) = match get_u64(bytes, at) {
            Some(read) => read,
            None => { return None; },
        };
        let (description, at) = match get_text(bytes, at) {
            Some(read) => read,
            None => { return None; },
        };
        let (status_tag, at) = match get_tag(bytes, at) {
            Some(read) => read,
            None => { return None; },
        };
        let status = match MaintenanceStatus::of_tag(status_tag) {
            Some(known) => known,
            None => { return None; },
        };
        if at != bytes.len() {
            return None;
        }
        Some(MaintenanceSchedule { id, airstrip_id, date, description, status })
    }
}

} // verus!
