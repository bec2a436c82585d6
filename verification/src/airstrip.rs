//! Airstrips.

use crate::codec::{
    enc_text, enc_u64, get_text, get_u64, lemma_parse_text, lemma_parse_u64,
    lemma_parsed_text, lemma_parsed_u64, parse_text, parse_u64, put_text, put_u64,
    rest_of, text_fits, value_of,
};
use crate::record::Record;
use vstd::bytes::lemma_auto_spec_u64_to_from_le_bytes;
use vstd::prelude::*;

verus! {

/// A landing site and how many planes it takes at once.
#[derive(Debug, Clone, PartialEq, Eq)]
pub struct Airstrip {
    pub id: u64,
    pub name: String,
    pub location: String,
    pub contact: String,
    pub email: String,
    /// In metres.
    pub runway_length: u64,
    /// The largest number of planes on the ground at once.
    pub capacity: u64,
    pub created_at: u64,
}

pub ghost struct AirstripView {
    pub id: u64,
    pub name: Seq<char>,
    pub location: Seq<char>,
    pub contact: Seq<char>,
    pub email: Seq<char>,
    pub runway_length: u64,
    pub capacity: u64,
    pub created_at: u64,
}

impl View for Airstrip {
    type V = AirstripView;

    open spec fn view(&self) -> AirstripView {
        AirstripView {
            id: self.id,
            name: self.name@,
            location: self.location@,
            contact: self.contact@,
            email: self.email@,
            runway_length: self.runway_length,
            capacity: self.capacity,
            created_at: self.created_at,
        }
    }
}

impl Record for Airstrip {
    open spec fn storable(v: AirstripView) -> bool {
        &&& text_fits(v.name)
        &&& text_fits(v.location)
        &&& text_fits(v.contact)
        &&& text_fits(v.email)
    }

    open spec fn encoding(v: AirstripView) -> Seq<u8> {
        enc_u64(v.id) + (
        enc_text(v.name) + (
        enc_text(v.location) + (
        enc_text(v.contact) + (
        enc_text(v.email) + (
        enc_u64(v.runway_length) + (
        enc_u64(v.capacity) + (
        enc_u64(v.created_at))))))))
    }

    open spec fn decoding(bytes: Seq<u8>) -> Option<AirstripView> {
        let id = parse_u64(bytes);
        let name = parse_text(rest_of(id));
        let location = parse_text(rest_of(name));
        let contact = parse_text(rest_of(location));
        let email = parse_text(rest_of(contact));
        let runway_length = parse_u64(rest_of(email));
        let capacity = parse_u64(rest_of(runway_length));
        let created_at = parse_u64(rest_of(capacity));
        if id is Some
            && name is Some
            && location is Some
            && contact is Some
            && email is Some
            && runway_length is Some
            && capacity is Some
            && created_at is Some
            && rest_of(created_at).len() == 0 {
            Some(
                AirstripView {
                    id: value_of(id),
                    name: value_of(name),
                    location: value_of(location),
                    contact: value_of(contact),
                    email: value_of(email),
                    runway_length: value_of(runway_length),
                    capacity: value_of(capacity),
                    created_at: value_of(created_at),
                },
            )
        } else {
            None
        }
    }

    proof fn lemma_round_trip(v: AirstripView) {
        let after_capacity = enc_u64(v.created_at);
        let after_runway_length = enc_u64(v.capacity) + after_capacity;
        let after_email = enc_u64(v.runway_length) + after_runway_length;
        let after_contact = enc_text(v.email) + after_email;
        let after_location = enc_text(v.contact) + after_contact;
        let after_name = enc_text(v.location) + after_location;
        let after_id = enc_text(v.name) + after_name;
        lemma_parse_u64(v.id, after_id);
        lemma_parse_text(v.name, after_name);
        lemma_parse_text(v.location, after_location);
        lemma_parse_text(v.contact, after_contact);
        lemma_parse_text(v.email, after_email);
        lemma_parse_u64(v.runway_length, after_runway_length);
        lemma_parse_u64(v.capacity, after_capacity);
        lemma_parse_u64(v.created_at, Seq::empty());
        assert(after_capacity =~= after_capacity + Seq::<u8>::empty());
    }

    proof fn lemma_one_encoding(bytes: Seq<u8>) {
        let id = parse_u64(bytes);
        let name = parse_text(rest_of(id));
        let location = parse_text(rest_of(name));
        let contact = parse_text(rest_of(location));
        let email = parse_text(rest_of(contact));
        let runway_length = parse_u64(rest_of(email));
        let capacity = parse_u64(rest_of(runway_length));
        let created_at = parse_u64(rest_of(capacity));
        lemma_parsed_u64(bytes);
        lemma_parsed_text(rest_of(id));
        lemma_parsed_text(rest_of(name));
        lemma_parsed_text(rest_of(location));
        lemma_parsed_text(rest_of(contact));
        lemma_parsed_u64(rest_of(email));
        lemma_parsed_u64(rest_of(runway_length));
        lemma_parsed_u64(rest_of(capacity));
        assert(rest_of(created_at) =~= Seq::<u8>::empty());
        assert(rest_of(capacity) =~= enc_u64(value_of(created_at)));
        assert(bytes =~= Self::encoding(Self::decoding(bytes)->0));
    }

    fn encode(&self) -> (bytes: Vec<u8>) {
        let mut out: Vec<u8> = Vec::new();
        put_u64(&mut out, self.id);
        put_text(&mut out, self.name.as_str());
        put_text(&mut out, self.location.as_str());
        put_text(&mut out, self.contact.as_str());
        put_text(&mut out, self.email.as_str());
        put_u64(&mut out, self.runway_length);
        put_u64(&mut out, self.capacity);
        put_u64(&mut out, self.created_at);
        assert(out@ =~= Self::encoding(self@));
        out
    }

    fn decode(bytes: &[u8]) -> (record: Option<Self>) {
        assert(bytes@.skip(0) =~= bytes@);
        let (id, at) = match get_u64(bytes, 0) {
            Some(read) => read,
            None => { return None; },
        };
        let (name, at) = match get_text(bytes, at) {
            Some(read) => read,
            None => { return None; },
        };
        let (location, at) = match get_text(bytes, at) {
            Some(read) => read,
            None => { return None; },
        };
        let (contact, at) = match get_text(bytes, at) {
            Some(read) => read,
            None => { return None; },
        };
        let (email, at) = match get_text(bytes, at) {
            Some(read) => read,
            None => { return None; },
        };
        let (runway_length, at) = match get_u64(bytes, at) {
            Some(read) => read,
            None => { return None; },
        };
        let (capacity, at) = match get_u64(bytes, at) {
            Some(read) => read,
            None => { return None; },
        };
        let (created_at, at) = match get_u64(bytes, at) {
            Some(read) => read,
            None => { return None; },
        };
        if at != bytes.len() {
            return None;
        }
        Some(Airstrip { id, name, location, contact, email, runway_length, capacity, created_at })
    }
}

/// An airstrip takes as many bytes with one capacity as with another.
pub proof fn lemma_capacity_keeps_length(airstrip: AirstripView, capacity: u64)
    ensures
        Airstrip::encoding(AirstripView { capacity, ..airstrip }).len() == Airstrip::encoding(
            airstrip,
        ).len(),
{
    lemma_auto_spec_u64_to_from_le_bytes();
}

} // verus!
