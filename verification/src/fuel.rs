//! Fuel held at airstrips.

use crate::codec::{
    enc_text, enc_u64, get_text, get_u64, lemma_parse_text, lemma_parse_u64,
    lemma_parsed_text, lemma_parsed_u64, parse_text, parse_u64, put_text, put_u64,
    rest_of, text_fits, value_of,
};
use crate::record::Record;
use vstd::prelude::*;

verus! {

/// A stock of one fuel at an airstrip.
#[derive(Debug, Clone, PartialEq, Eq)]
pub struct FuelInventory {
    pub id: u64,
    /// The airstrip concerned; not checked against the airstrip store.
    pub airstrip_id: u64,
    pub fuel_type: String,
    /// The quantity as the bit pattern of a binary64 number; carried, never computed with.
    pub quantity_bits: u64,
    /// The unit price as the bit pattern of a binary64 number; carried, never computed with.
    pub unit_price_bits: u64,
    pub last_updated: u64,
}

pub ghost struct FuelInventoryView {
    pub id: u64,
    pub airstrip_id: u64,
    pub fuel_type: Seq<char>,
    pub quantity_bits: u64,
    pub unit_price_bits: u64,
    pub last_updated: u64,
}

impl View for FuelInventory {
    type V = FuelInventoryView;

    open spec fn view(&self) -> FuelInventoryView {
        FuelInventoryView {
            id: self.id,
            airstrip_id: self.airstrip_id,
            fuel_type: self.fuel_type@,
            quantity_bits: self.quantity_bits,
            unit_price_bits: self.unit_price_bits,
            last_updated: self.last_updated,
        }
    }
}

impl Record for FuelInventory {
    open spec fn storable(v: FuelInventoryView) -> bool {
        &&& text_fits(v.fuel_type)
    }

    open spec fn encoding(v: FuelInventoryView) -> Seq<u8> {
        enc_u64(v.id) + (
        enc_u64(v.airstrip_id) + (
        enc_text(v.fuel_type) + (
        enc_u64(v.quantity_bits) + (
        enc_u64(v.unit_price_bits) + (
        enc_u64(v.last_updated))))))
    }

    open spec fn decoding(bytes: Seq<u8>) -> Option<FuelInventoryView> {
        let id = parse_u64(bytes);
        let airstrip_id = parse_u64(rest_of(id));
        let fuel_type = parse_text(rest_of(airstrip_id));
        let quantity_bits = parse_u64(rest_of(fuel_type));
        let unit_price_bits = parse_u64(rest_of(quantity_bits));
        let last_updated = parse_u64(rest_of(unit_price_bits));
        if id is Some
            && airstrip_id is Some
            && fuel_type is Some
            && quantity_bits is Some
            && unit_price_bits is Some
            && last_updated is Some
            && rest_of(last_updated).len() == 0 {
            Some(
                FuelInventoryView {
                    id: value_of(id),
                    airstrip_id: value_of(airstrip_id),
                    fuel_type: value_of(fuel_type),
                    quantity_bits: value_of(quantity_bits),
                    unit_price_bits: value_of(unit_price_bits),
                    last_updated: value_of(last_updated),
                },
            )
        } else {
            None
        }
    }

    proof fn lemma_round_trip(v: FuelInventoryView) {
        let after_unit_price_bits = enc_u64(v.last_updated);
        let after_quantity_bits = enc_u64(v.unit_price_bits) + after_unit_price_bits;
        let after_fuel_type = enc_u64(v.quantity_bits) + after_quantity_bits;
        let after_airstrip_id = enc_text(v.fuel_type) + after_fuel_type;
        let after_id = enc_u64(v.airstrip_id) + after_airstrip_id;
        lemma_parse_u64(v.id, after_id);
        lemma_parse_u64(v.airstrip_id, after_airstrip_id);
        lemma_parse_text(v.fuel_type, after_fuel_type);
        lemma_parse_u64(v.quantity_bits, after_quantity_bits);
        lemma_parse_u64(v.unit_price_bits, after_unit_price_bits);
        lemma_parse_u64(v.last_updated, Seq::empty());
        assert(after_unit_price_bits =~= after_unit_price_bits + Seq::<u8>::empty());
    }

    proof fn lemma_one_encoding(bytes: Seq<u8>) {
        let id = parse_u64(bytes);
        let airstrip_id = parse_u64(rest_of(id));
        let fuel_type = parse_text(rest_of(airstrip_id));
        let quantity_bits = parse_u64(rest_of(fuel_type));
        let unit_price_bits = parse_u64(rest_of(quantity_bits));
        let last_updated = parse_u64(rest_of(unit_price_bits));
        lemma_parsed_u64(bytes);
        lemma_parsed_u64(rest_of(id));
        lemma_parsed_text(rest_of(airstrip_id));
        lemma_parsed_u64(rest_of(fuel_type));
        lemma_parsed_u64(rest_of(quantity_bits));
        lemma_parsed_u64(rest_of(unit_price_bits));
        assert(rest_of(last_updated) =~= Seq::<u8>::empty());
        assert(rest_of(unit_price_bits) =~= enc_u64(value_of(last_updated)));
        assert(bytes =~= Self::encoding(Self::decoding(bytes)->0));
    }

    fn encode(&self) -> (bytes: Vec<u8>) {
        let mut out: Vec<u8> = Vec::new();
        put_u64(&mut out, self.id);
        put_u64(&mut out, self.airstrip_id);
        put_text(&mut out, self.fuel_type.as_str());
        put_u64(&mut out, self.quantity_bits);
        put_u64(&mut out, self.unit_price_bits);
        put_u64(&mut out, self.last_updated);
        assert(out@ =~= Self::encoding(self@));
        out
    }

    fn decode(bytes: &[u8]) -> (record: Option<Self>) {
        assert(bytes@.skip(0) =~= bytes@);
        let (id, at) = match get_u64(bytes, 0) {
            Some(read) => read,
            None => { return None; },
        };
        let (airstrip_id, at) = match get_u64(bytes, at) {
            Some(read) => read,
            None => { return None; },
        };
        let (fuel_type, at) = match get_text(bytes, at) {
            Some(read) => read,
            None => { return None; },
        };
        let (quantity_bits, at) = match get_u64(bytes, at) {
            Some(read) => read,
            None => { return None; },
        };
        let (unit_price_bits, at) = match get_u64(bytes, at) {
            Some(read) => read,
            None => { return None; },
        };
        let (last_updated, at) = match get_u64(bytes, at) {
            Some(read) => read,
            None => { return None; },
        };
        if at != bytes.len() {
            return None;
        }
        Some(
            FuelInventory {
                id,
                airstrip_id,
                fuel_type,
                quantity_bits,
                unit_price_bits,
                last_updated,
            },
        )
    }
}

} // verus!
