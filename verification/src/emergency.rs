//! Emergency protocols.

use crate::codec::{
    enc_text, enc_texts, enc_u64, get_text, get_texts, get_u64, lemma_parse_text,
    lemma_parse_texts, lemma_parse_u64, lemma_parsed_text, lemma_parsed_texts,
    lemma_parsed_u64, parse_text, parse_texts, parse_u64, put_text, put_texts, put_u64,
    rest_of, text_fits, texts_fit, value_of,
};
use crate::record::Record;
use vstd::prelude::*;

verus! {

/// What to do at an airstrip in an emergency of one kind.
#[derive(Debug, Clone, PartialEq, Eq)]
pub struct EmergencyProtocol {
    pub id: u64,
    /// The airstrip concerned; not checked against the airstrip store.
    pub airstrip_id: u64,
    /// Such as "weather", "technical", "security" or "medical".
    pub protocol_type: String,
    pub description: String,
    pub contact_numbers: Vec<String>,
    pub evacuation_routes: Vec<String>,
    pub created_at: u64,
}

pub ghost struct EmergencyProtocolView {
    pub id: u64,
    pub airstrip_id: u64,
    pub protocol_type: Seq<char>,
    pub description: Seq<char>,
    pub contact_numbers: Seq<Seq<char>>,
    pub evacuation_routes: Seq<Seq<char>>,
    pub created_at: u64,
}

impl View for EmergencyProtocol {
    type V = EmergencyProtocolView;

    open spec fn view(&self) -> EmergencyProtocolView {
        EmergencyProtocolView {
            id: self.id,
            airstrip_id: self.airstrip_id,
            protocol_type: self.protocol_type@,
            description: self.description@,
            contact_numbers: self.contact_numbers.deep_view(),
            evacuation_routes: self.evacuation_routes.deep_view(),
            created_at: self.created_at,
        }
    }
}

impl Record for EmergencyProtocol {
    open spec fn storable(v: EmergencyProtocolView) -> bool {
        &&& text_fits(v.protocol_type)
        &&& text_fits(v.description)
        &&& texts_fit(v.contact_numbers)
        &&& texts_fit(v.evacuation_routes)
    }

    open spec fn encoding(v: EmergencyProtocolView) -> Seq<u8> {
        enc_u64(v.id) + (
        enc_u64(v.airstrip_id) + (
        enc_text(v.protocol_type) + (
        enc_text(v.description) + (
        enc_texts(v.contact_numbers) + (
        enc_texts(v.evacuation_routes) + (
        enc_u64(v.created_at)))))))
    }

    open spec fn decoding(bytes: Seq<u8>) -> Option<EmergencyProtocolView> {
        let id = parse_u64(bytes);
        let airstrip_id = parse_u64(rest_of(id));
        let protocol_type = parse_text(rest_of(airstrip_id));
        let description = parse_text(rest_of(protocol_type));
        let contact_numbers = parse_texts(rest_of(description));
        let evacuation_routes = parse_texts(rest_of(contact_numbers));
        let created_at = parse_u64(rest_of(evacuation_routes));
        if id is Some
            && airstrip_id is Some
            && protocol_type is Some
            && description is Some
            && contact_numbers is Some
            && evacuation_routes is Some
            && created_at is Some
            && rest_of(created_at).len() == 0 {
            Some(
                EmergencyProtocolView {
                    id: value_of(id),
                    airstrip_id: value_of(airstrip_id),
                    protocol_type: value_of(protocol_type),
                    description: value_of(description),
                    contact_numbers: value_of(contact_numbers),
                    evacuation_routes: value_of(evacuation_routes),
                    created_at: value_of(created_at),
                },
            )
        } else {
            None
        }
    }

    proof fn lemma_round_trip(v: EmergencyProtocolView) {
        let after_evacuation_routes = enc_u64(v.created_at);
        let after_contact_numbers = enc_texts(v.evacuation_routes) + after_evacuation_routes;
        let after_description = enc_texts(v.contact_numbers) + after_contact_numbers;
        let after_protocol_type = enc_text(v.description) + after_description;
        let after_airstrip_id = enc_text(v.protocol_type) + after_protocol_type;
        let after_id = enc_u64(v.airstrip_id) + after_airstrip_id;
        lemma_parse_u64(v.id, after_id);
        lemma_parse_u64(v.airstrip_id, after_airstrip_id);
        lemma_parse_text(v.protocol_type, after_protocol_type);
        lemma_parse_text(v.description, after_description);
        lemma_parse_texts(v.contact_numbers, after_contact_numbers);
        lemma_parse_texts(v.evacuation_routes, after_evacuation_routes);
        lemma_parse_u64(v.created_at, Seq::empty());
        assert(after_evacuation_routes =~= after_evacuation_routes + Seq::<u8>::empty());
    }

    proof fn lemma_one_encoding(bytes: Seq<u8>) {
        let id = parse_u64(bytes);
        let airstrip_id = parse_u64(rest_of(id));
        let protocol_type = parse_text(rest_of(airstrip_id));
        let description = parse_text(rest_of(protocol_type));
        let contact_numbers = parse_texts(rest_of(description));
        let evacuation_routes = parse_texts(rest_of(contact_numbers));
        let created_at = parse_u64(rest_of(evacuation_routes));
        lemma_parsed_u64(bytes);
        lemma_parsed_u64(rest_of(id));
        lemma_parsed_text(rest_of(airstrip_id));
        lemma_parsed_text(rest_of(protocol_type));
        lemma_parsed_texts(rest_of(description));
        lemma_parsed_texts(rest_of(contact_numbers));
        lemma_parsed_u64(rest_of(evacuation_routes));
        assert(rest_of(created_at) =~= Seq::<u8>::empty());
        assert(rest_of(evacuation_routes) =~= enc_u64(value_of(created_at)));
        assert(bytes =~= Self::encoding(Self::decoding(bytes)->0));
    }

    fn encode(&self) -> (bytes: Vec<u8>) {
        let mut out: Vec<u8> = Vec::new();
        put_u64(&mut out, self.id);
        put_u64(&mut out, self.airstrip_id);
        put_text(&mut out, self.protocol_type.as_str());
        put_text(&mut out, self.description.as_str());
        put_texts(&mut out, &self.contact_numbers);
        put_texts(&mut out, &self.evacuation_routes);
        put_u64(&mut out, self.created_at);
        assert(out@ =~= Self::encoding(self@));
        out
    }

    fn decode(bytes: &[u8]) -> (record: Option<Self>) {
        assert(bytes@.skip(0) =~= bytes@);
        let (id, at) = match get_u64(bytes, 0) {
            Some(read) => read,
            None => { return None; },
        };
        let (airstrip_id, at) = match get_u64(bytes, at) {
            Some(read) => read,
            None => { return None; },
        };
        let (protocol_type, at) = match get_text(bytes, at) {
            Some(read) => read,
            None => { return None; },
        };
        let (description, at) = match get_text(bytes, at) {
            Some(read) => read,
            None => { return None; },
        };
        let (contact_numbers, at) = match get_texts(bytes, at) {
            Some(read) => read,
            None => { return None; },
        };
        let (evacuation_routes, at) = match get_texts(bytes, at) {
            Some(read) => read,
            None => { return None; },
        };
        let (created_at, at) = match get_u64(bytes, at) {
            Some(read) => read,
            None => { return None; },
        };
        if at != bytes.len() {
            return None;
        }
        Some(
            EmergencyProtocol {
                id,
                airstrip_id,
                protocol_type,
                description,
                contact_numbers,
                evacuation_routes,
                created_at,
            },
        )
    }
}

} // verus!
