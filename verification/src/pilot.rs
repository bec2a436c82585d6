//! Pilots.

use crate::codec::{
    enc_text, enc_u64, get_text, get_u64, lemma_parse_text, lemma_parse_u64,
    lemma_parsed_text, lemma_parsed_u64, parse_text, parse_u64, put_text, put_u64,
    rest_of, text_fits, value_of,
};
use crate::record::Record;
use vstd::prelude::*;

verus! {

/// A registered pilot.
#[derive(Debug, Clone, PartialEq, Eq)]
pub struct Pilot {
    pub id: u64,
    pub name: String,
    pub license_number: String,
    pub experience_years: u64,
    pub contact: String,
    pub email: String,
}

pub ghost struct PilotView {
    pub id: u64,
    pub name: Seq<char>,
    pub license_number: Seq<char>,
    pub experience_years: u64,
    pub contact: Seq<char>,
    pub email: Seq<char>,
}

impl View for Pilot {
    type V = PilotView;

    open spec fn view(&self) -> PilotView {
        PilotView {
            id: self.id,
            name: self.name@,
            license_number: self.license_number@,
            experience_years: self.experience_years,
            contact: self.contact@,
            email: self.email@,
        }
    }
}

impl Record for Pilot {
    open spec fn storable(v: PilotView) -> bool {
        &&& text_fits(v.name)
        &&& text_fits(v.license_number)
        &&& text_fits(v.contact)
        &&& text_fits(v.email)
    }

    open spec fn encoding(v: PilotView) -> Seq<u8> {
        enc_u64(v.id) + (
        enc_text(v.name) + (
        enc_text(v.license_number) + (
        enc_u64(v.experience_years) + (
        enc_text(v.contact) + (
        enc_text(v.email))))))
    }

    open spec fn decoding(bytes: Seq<u8>) -> Option<PilotView> {
        let id = parse_u64(bytes);
        let name = parse_text(rest_of(id));
        let license_number = parse_text(rest_of(name));
        let experience_years = parse_u64(rest_of(license_number));
        let contact = parse_text(rest_of(experience_years));
        let email = parse_text(rest_of(contact));
        if id is Some
            && name is Some
            && license_number is Some
            && experience_years is Some
            && contact is Some
            && email is Some
            && rest_of(email).len() == 0 {
            Some(
                PilotView {
                    id: value_of(id),
                    name: value_of(name),
                    license_number: value_of(license_number),
                    experience_years: value_of(experience_years),
                    contact: value_of(contact),
                    email: value_of(email),
                },
            )
        } else {
            None
        }
    }

    proof fn lemma_round_trip(v: PilotView) {
        let after_contact = enc_text(v.email);
        let after_experience_years = enc_text(v.contact) + after_contact;
        let after_license_number = enc_u64(v.experience_years) + after_experience_years;
        let after_name = enc_text(v.license_number) + after_license_number;
        let after_id = enc_text(v.name) + after_name;
        lemma_parse_u64(v.id, after_id);
        lemma_parse_text(v.name, after_name);
        lemma_parse_text(v.license_number, after_license_number);
        lemma_parse_u64(v.experience_years, after_experience_years);
        lemma_parse_text(v.contact, after_contact);
        lemma_parse_text(v.email, Seq::empty());
        assert(after_contact =~= after_contact + Seq::<u8>::empty());
    }

    proof fn lemma_one_encoding(bytes: Seq<u8>) {
        let id = parse_u64(bytes);
        let name = parse_text(rest_of(id));
        let license_number = parse_text(rest_of(name));
        let experience_years = parse_u64(rest_of(license_number));
        let contact = parse_text(rest_of(experience_years));
        let email = parse_text(rest_of(contact));
        lemma_parsed_u64(bytes);
        lemma_parsed_text(rest_of(id));
        lemma_parsed_text(rest_of(name));
        lemma_parsed_u64(rest_of(license_number));
        lemma_parsed_text(rest_of(experience_years));
        lemma_parsed_text(rest_of(contact));
        assert(rest_of(email) =~= Seq::<u8>::empty());
        assert(rest_of(contact) =~= enc_text(value_of(email)));
        assert(bytes =~= Self::encoding(Self::decoding(bytes)->0));
    }

    fn encode(&self) -> (bytes: Vec<u8>) {
        let mut out: Vec<u8> = Vec::new();
        put_u64(&mut out, self.id);
        put_text(&mut out, self.name.as_str());
        put_text(&mut out, self.license_number.as_str());
        put_u64(&mut out, self.experience_years);
        put_text(&mut out, self.contact.as_str());
        put_text(&mut out, self.email.as_str());
        assert(out@ =~= Self::encoding(self@));
        out
    }

    fn decode(bytes: &[u8]) -> (record: Option<Self>) {
        assert(bytes@.skip(0) =~= bytes@);
        let (id, at) = match get_u64(bytes, 0) {
            Some(read) => read,
            None => { return None; },
        };
        let (name, at) = match get_text(bytes, at) {
            Some(read) => read,
            None => { return None; },
        };
        let (license_number, at) = match get_text(bytes, at) {
            Some(read) => read,
            None => { return None; },
        };
        let (experience_years, at) = match get_u64(bytes, at) {
            Some(read) => read,
            None => { return None; },
        };
        let (contact, at) = match get_text(bytes, at) {
            Some(read) => read,
            None => { return None; },
        };
        let (email, at) = match get_text(bytes, at) {
            Some(read) => read,
            None => { return None; },
        };
        if at != bytes.len() {
            return None;
        }
        Some(Pilot { id, name, license_number, experience_years, contact, email })
    }
}

} // verus!
