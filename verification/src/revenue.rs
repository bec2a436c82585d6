//! Money taken at airstrips.

use crate::codec::{
    enc_text, enc_u64, get_text, get_u64, lemma_parse_text, lemma_parse_u64,
    lemma_parsed_text, lemma_parsed_u64, parse_text, parse_u64, put_text, put_u64,
    rest_of, text_fits, value_of,
};
use crate::record::Record;
use vstd::prelude::*;

verus! {

/// One payment received at an airstrip.
#[derive(Debug, Clone, PartialEq, Eq)]
pub struct Revenue {
    pub id: u64,
    /// The airstrip concerned; not checked against the airstrip store.
    pub airstrip_id: u64,
    /// The category, such as "landing_fees", "fuel_sales", "parking" or "maintenance".
    pub source: String,
    /// The amount as the bit pattern of a binary64 number; carried, never computed with.
    pub amount_bits: u64,
    pub transaction_date: u64,
    pub description: String,
}

pub ghost struct RevenueView {
    pub id: u64,
    pub airstrip_id: u64,
    pub source: Seq<char>,
    pub amount_bits: u64,
    pub transaction_date: u64,
    pub description: Seq<char>,
}

impl View for Revenue {
    type V = RevenueView;

    open spec fn view(&self) -> RevenueView {
        RevenueView {
            id: self.id,
            airstrip_id: self.airstrip_id,
            source: self.source@,
            amount_bits: self.amount_bits,
            transaction_date: self.transaction_date,
            description: self.description@,
        }
    }
}

impl Record for Revenue {
    open spec fn storable(v: RevenueView) -> bool {
        &&& text_fits(v.source)
        &&& text_fits(v.description)
    }

    open spec fn encoding(v: RevenueView) -> Seq<u8> {
        enc_u64(v.id) + (
        enc_u64(v.airstrip_id) + (
        enc_text(v.source) + (
        enc_u64(v.amount_bits) + (
        enc_u64(v.transaction_date) + (
        enc_text(v.description))))))
    }

    open spec fn decoding(bytes: Seq<u8>) -> Option<RevenueView> {
        let id = parse_u64(bytes);
        let airstrip_id = parse_u64(rest_of(id));
        let source = parse_text(rest_of(airstrip_id));
        let amount_bits = parse_u64(rest_of(source));
        let transaction_date = parse_u64(rest_of(amount_bits));
        let description = parse_text(rest_of(transaction_date));
        if id is Some
            && airstrip_id is Some
            && source is Some
            && amount_bits is Some
            && transaction_date is Some
            && description is Some
            && rest_of(description).len() == 0 {
            Some(
                RevenueView {
                    id: value_of(id),
                    airstrip_id: value_of(airstrip_id),
                    source: value_of(source),
                    amount_bits: value_of(amount_bits),
                    transaction_date: value_of(transaction_date),
                    description: value_of(description),
                },
            )
        } else {
            None
        }
    }

    proof fn lemma_round_trip(v: RevenueView) {
        let after_transaction_date = enc_text(v.description);
        let after_amount_bits = enc_u64(v.transaction_date) + after_transaction_date;
        let after_source = enc_u64(v.amount_bits) + after_amount_bits;
        let after_airstrip_id = enc_text(v.source) + after_source;
        let after_id = enc_u64(v.airstrip_id) + after_airstrip_id;
        lemma_parse_u64(v.id, after_id);
        lemma_parse_u64(v.airstrip_id, after_airstrip_id);
        lemma_parse_text(v.source, after_source);
        lemma_parse_u64(v.amount_bits, after_amount_bits);
        lemma_parse_u64(v.transaction_date, after_transaction_date);
        lemma_parse_text(v.description, Seq::empty());
        assert(after_transaction_date =~= after_transaction_date + Seq::<u8>::empty());
    }

    proof fn lemma_one_encoding(bytes: Seq<u8>) {
        let id = parse_u64(bytes);
        let airstrip_id = parse_u64(rest_of(id));
        let source = parse_text(rest_of(airstrip_id));
        let amount_bits = parse_u64(rest_of(source));
        let transaction_date = parse_u64(rest_of(amount_bits));
        let description = parse_text(rest_of(transaction_date));
        lemma_parsed_u64(bytes);
        lemma_parsed_u64(rest_of(id));
        lemma_parsed_text(rest_of(airstrip_id));
        lemma_parsed_u64(rest_of(source));
        lemma_parsed_u64(rest_of(amount_bits));
        lemma_parsed_text(rest_of(transaction_date));
        assert(rest_of(description) =~= Seq::<u8>::empty());
        assert(rest_of(transaction_date) =~= enc_text(value_of(description)));
        assert(bytes =~= Self::encoding(Self::decoding(bytes)->0));
    }

    fn encode(&self) -> (bytes: Vec<u8>) {
        let mut out: Vec<u8> = Vec::new();
        put_u64(&mut out, self.id);
        put_u64(&mut out, self.airstrip_id);
        put_text(&mut out, self.source.as_str());
        put_u64(&mut out, self.amount_bits);
        put_u64(&mut out, self.transaction_date);
        put_text(&mut out, self.description.as_str());
        assert(out@ =~= Self::encoding(self@));
        out
    }

    fn decode(bytes: &[u8]) -> (record: Option<Self>) {
        assert(bytes@.skip(0) =~= bytes@);
        let (id, at) = match get_u64(bytes, 0) {
            Some(read) => read,
            None => { return None; },
        };
        let (airstrip_id, at) = match get_u64(bytes, at) {
            Some(read) => read,
            None => { return None; },
        };
        let (source, at) = match get_text(bytes, at) {
            Some(read) => read,
            None => { return None; },
        };
        let (amount_bits, at) = match get_u64(bytes, at) {
            Some(read) => read,
            None => { return None; },
        };
        let (transaction_date, at) = match get_u64(bytes, at) {
            Some(read) => read,
            None => { return None; },
        };
        let (description, at) = match get_text(bytes, at) {
            Some(read) => read,
            None => { return None; },
        };
        if at != bytes.len() {
            return None;
        }
        Some(Revenue { id, airstrip_id, source, amount_bits, transaction_date, description })
    }
}

} // verus!
