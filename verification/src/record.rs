//! What a type needs in order to be kept in an entity store.

use vstd::prelude::*;

verus! {

/// A record kind with a byte layout that reads back as what was written.
pub trait Record: View + Sized {
    /// Whether every field of the record fits its place in the layout.
    spec fn storable(v: Self::V) -> bool;

    /// The bytes that stand for the record.
    spec fn encoding(v: Self::V) -> Seq<u8>;

    /// The record that the bytes stand for, if they stand for one.
    spec fn decoding(bytes: Seq<u8>) -> Option<Self::V>;

    /// Reading back what was written gives the same record.
    proof fn lemma_round_trip(v: Self::V)
        requires
            Self::storable(v),
        ensures
            Self::decoding(Self::encoding(v)) == Some(v),
    ;

    /// A record has one encoding: bytes that read back as a record are what
    /// writing that record out gives.
    proof fn lemma_one_encoding(bytes: Seq<u8>)
        requires
            Self::decoding(bytes) is Some,
        ensures
            Self::encoding(Self::decoding(bytes)->0) == bytes,
            Self::storable(Self::decoding(bytes)->0),
    ;

    /// Writes the record out.
    fn encode(&self) -> (bytes: Vec<u8>)
        ensures
            bytes@ == Self::encoding(self@),
            Self::storable(self@),
    ;

    /// Reads a record back; nothing if the bytes stand for none.
    fn decode(bytes: &[u8]) -> (record: Option<Self>)
        ensures
            match record {
                Some(r) => Self::decoding(bytes@) == Some(r@),
                None => Self::decoding(bytes@) is None,
            },
    ;
}

} // verus!
