//! The record codec: a deterministic, lossless mapping between a paste
//! and the byte sequence stored under its identifier key.
//!
//! The encoded form is the identifier's raw 128 bits (16 bytes,
//! little-endian) followed by the UTF-8 encoding of the body.

use crate::StoreError;
use vstd::bytes::{
    lemma_auto_spec_u128_to_from_le_bytes, spec_u128_from_le_bytes, spec_u128_to_le_bytes,
    u128_from_le_bytes, u128_to_le_bytes,
};
use vstd::prelude::*;
use vstd::slice::{slice_subrange, slice_to_vec};
use vstd::utf8::{
    decode_utf8, decode_utf8_encode_utf8, encode_utf8, encode_utf8_decode_utf8,
    encode_utf8_valid_utf8, valid_utf8,
};

verus! {

/// An immutable text record with a unique identifier.
#[derive(Debug, Clone)]
pub struct Paste {
    /// The 128-bit identifier; assigned by the store at creation time,
    /// never client-supplied.
    pub id: u128,
    /// The text; arbitrary UTF-8, may be empty, immutable after creation.
    pub body: String,
}

/// The mathematical value of a [`Paste`]: its identifier and the
/// characters of its body.
#[verifier::ext_equal]
pub ghost struct PasteModel {
    pub id: u128,
    pub body: Seq<char>,
}

impl View for Paste {
    type V = PasteModel;

    open spec fn view(&self) -> PasteModel {
        PasteModel { id: self.id, body: self.body@ }
    }
}

impl PartialEq for Paste {
    fn eq(&self, other: &Paste) -> (r: bool) {
        self.id == other.id && self.body == other.body
    }
}

impl Eq for Paste {}

impl vstd::std_specs::cmp::PartialEqSpecImpl for Paste {
    open spec fn obeys_eq_spec() -> bool {
        true
    }

    open spec fn eq_spec(&self, other: &Paste) -> bool {
        self@ == other@
    }
}

/// The 16-byte storage key of an identifier: its raw 128 bits.
pub open spec fn spec_key(id: u128) -> Seq<u8> {
    spec_u128_to_le_bytes(id)
}

/// The encoded form of a record: its identifier's key bytes followed by
/// the UTF-8 encoding of its body.
pub open spec fn spec_encode(m: PasteModel) -> Seq<u8> {
    spec_u128_to_le_bytes(m.id) + encode_utf8(m.body)
}

/// Whether a byte sequence is a well-formed encoded record: long enough
/// to hold an identifier, the rest valid UTF-8.
pub open spec fn spec_decodable(b: Seq<u8>) -> bool {
    b.len() >= 16 && valid_utf8(b.skip(16))
}

/// The record that a well-formed byte sequence stands for.
pub open spec fn spec_decode(b: Seq<u8>) -> PasteModel {
    PasteModel { id: spec_u128_from_le_bytes(b.take(16)), body: decode_utf8(b.skip(16)) }
}

/// Whether every value held in a byte map is a well-formed encoded record.
pub open spec fn all_decodable(m: Map<Seq<u8>, Seq<u8>>) -> bool {
    forall|k: Seq<u8>| #[trigger] m.contains_key(k) ==> spec_decodable(m[k])
}

/// Relies on `String::from_utf8`: it succeeds exactly on valid UTF-8
/// input and yields the characters that the bytes encode.
#[verifier::external_body]
fn string_from_utf8(bytes: Vec<u8>) -> (r: Option<String>)
    ensures
        match r {
            Some(s) => valid_utf8(bytes@) && s@ == decode_utf8(bytes@),
            None => !valid_utf8(bytes@),
        },
{
    String::from_utf8(bytes).ok()
}

/// Encode a record into its stored byte form. Total: no failure mode.
pub fn encode(p: &Paste) -> (r: Vec<u8>)
    ensures
        r@ == spec_encode(p@),
{
    let mut out = u128_to_le_bytes(p.id);
    out.extend_from_slice(p.body.as_str().as_bytes());
    proof {
        assert(out@ =~= spec_encode(p@));
    }
    out
}

/// Encode an identifier alone into the 16-byte storage key.
pub fn encode_key(id: u128) -> (r: Vec<u8>)
    ensures
        r@ == spec_key(id),
{
    u128_to_le_bytes(id)
}

/// Decode stored bytes back into a record; fails with `CorruptRecord`
/// exactly when the bytes are not a well-formed encoded record.
pub fn decode(bytes: &Vec<u8>) -> (r: Result<Paste, StoreError>)
    ensures
        match r {
            Ok(p) => spec_decodable(bytes@) && p@ == spec_decode(bytes@),
            Err(e) => e == StoreError::CorruptRecord && !spec_decodable(bytes@),
        },
{
    if bytes.len() < 16 {
        return Err(StoreError::CorruptRecord);
    }
    let id = u128_from_le_bytes(slice_subrange(bytes.as_slice(), 0, 16));
    let rest = slice_to_vec(slice_subrange(bytes.as_slice(), 16, bytes.len()));
    proof {
        assert(rest@ =~= bytes@.skip(16));
        assert(bytes@.subrange(0, 16) =~= bytes@.take(16));
    }
    match string_from_utf8(rest) {
        Some(body) => Ok(Paste { id, body }),
        None => Err(StoreError::CorruptRecord),
    }
}

/// Law (round trip): every record's encoding is well formed and decodes
/// back to the record itself, whatever the body — empty included.
pub proof fn lemma_codec_round_trip(m: PasteModel)
    ensures
        spec_decodable(spec_encode(m)),
        spec_decode(spec_encode(m)) == m,
{
    lemma_auto_spec_u128_to_from_le_bytes();
    let b = spec_encode(m);
    assert(b.take(16) =~= spec_u128_to_le_bytes(m.id));
    assert(b.skip(16) =~= encode_utf8(m.body));
    encode_utf8_valid_utf8(m.body);
    encode_utf8_decode_utf8(m.body);
    assert(spec_decode(b) =~= m);
}

/// Law (losslessness): re-encoding the record that a well-formed byte
/// sequence stands for yields that byte sequence again.
pub proof fn lemma_codec_lossless(b: Seq<u8>)
    requires
        spec_decodable(b),
    ensures
        spec_encode(spec_decode(b)) == b,
{
    lemma_auto_spec_u128_to_from_le_bytes();
    decode_utf8_encode_utf8(b.skip(16));
    assert(spec_encode(spec_decode(b)) =~= b.take(16) + b.skip(16));
    assert(b.take(16) + b.skip(16) =~= b);
}

} // verus!
