//! The item contract: what every stored record type must provide.
//!
//! The store is polymorphic over its record type through this trait rather
//! than through any shared base type: a record type plugs in by saying how it
//! serializes, how it deserializes, what a fresh record looks like, and how
//! candidate identifiers are proposed for newly created records.

use vstd::prelude::*;

use crate::errors::StorageError;

verus! {

/// A record type the store can hold.
///
/// The spec functions fix the mathematical meaning of the executable methods:
/// `encode_view` and `decode_view` pin the codec down to the byte, and
/// [`StorageItem::lemma_codec_round_trip`] obliges every implementation to
/// prove that decoding undoes encoding, so nothing saved is ever lost.
pub trait StorageItem: View + Sized {
    /// The bytes `serialize` produces for an item whose view is `v`.
    spec fn encode_view(v: Self::V) -> Seq<u8>;

    /// What `deserialize` recovers from `data`: the view of the decoded
    /// item, or `None` where the bytes are malformed.
    spec fn decode_view(data: Seq<u8>) -> Option<Self::V>;

    /// Views small enough to be encoded at run time. Every item that exists
    /// as a value has a well-formed view; the bound matters only because
    /// views are unbounded mathematical objects.
    spec fn view_wf(v: Self::V) -> bool;

    /// The view of a freshly created item.
    spec fn default_view() -> Self::V;

    /// The candidate identifier proposed after `previous`.
    spec fn next_id_of(previous: Option<u64>) -> u64;

    /// The identifier a textual form denotes, if it denotes one.
    spec fn id_of_text(text: Seq<char>) -> Option<u64>;

    /// Decoding undoes encoding: the codec loses nothing.
    proof fn lemma_codec_round_trip(v: Self::V)
        requires
            Self::view_wf(v),
        ensures
            Self::decode_view(Self::encode_view(v)) == Some(v),
    ;

    /// Serializes the item into the bytes the store persists.
    fn serialize(&self) -> (r: Result<Vec<u8>, StorageError>)
        ensures
            r matches Ok(bytes) && bytes@ == Self::encode_view(self@),
            Self::view_wf(self@),
    ;

    /// Rebuilds an item from stored bytes; malformed bytes are a
    /// `CodecError`, never a panic.
    fn deserialize(data: &[u8]) -> (r: Result<Self, StorageError>)
        ensures
            match r {
                Ok(item) => Self::decode_view(data@) == Some(item@) && Self::view_wf(item@),
                Err(e) => Self::decode_view(data@) is None && e is CodecError,
            },
    ;

    /// A freshly created item, as handed out when a key is locked as new.
    fn new_item() -> (r: Self)
        ensures
            r@ == Self::default_view(),
    ;

    /// Proposes the next candidate identifier, seeded from an optional
    /// previous one. Collision checking is the allocator's affair, not this
    /// function's.
    fn generate_next_id(previous: Option<u64>) -> (r: u64)
        requires
            previous matches Some(p) ==> p < u64::MAX,
        ensures
            r == Self::next_id_of(previous),
    ;

    /// Parses an identifier from its textual form; text that denotes no
    /// identifier is a `CodecError`.
    fn make_id(text: &str) -> (r: Result<u64, StorageError>)
        ensures
            match r {
                Ok(v) => Self::id_of_text(text@) == Some(v),
                Err(e) => Self::id_of_text(text@) is None && e is CodecError,
            },
    ;
}

} // verus!
