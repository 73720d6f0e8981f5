use vstd::prelude::*;

use crate::error::VectorDBError;
use crate::vector::Vector;

verus! {

/// The MessagePack bytes written for a sequence of component bit patterns.
pub uninterp spec fn msgpack_of(v: Seq<u32>) -> Seq<u8>;

/// The component bit patterns that MessagePack decoding reads from bytes,
/// or `None` where the bytes are not such an encoding.
pub uninterp spec fn components_of(b: Seq<u8>) -> Option<Seq<u32>>;

/// Relies on rmp_serde::to_vec: the bytes depend on the sequence alone, and
/// rmp_serde::from_slice reads them back as the same sequence. The array
/// length is written as a `u32`, hence the bound on the length. The writer
/// fails only where memory cannot be reserved, which this library, like every
/// allocation in it, takes not to happen.
#[verifier::external_body]
fn msgpack_encode(v: &[u32]) -> (r: Result<Vec<u8>, String>)
    requires
        v@.len() <= u32::MAX,
    ensures
        r is Ok,
        r->Ok_0@ == msgpack_of(v@),
        components_of(r->Ok_0@) == Some(v@),
{
    match rmp_serde::to_vec(v) {
        Ok(b) => Ok(b),
        Err(e) => Err(e.to_string()),
    }
}

/// Relies on rmp_serde::from_slice: whether the bytes decode, and to what,
/// depends on the bytes alone.
#[verifier::external_body]
fn msgpack_decode(b: &[u8]) -> (r: Result<Vec<u32>, String>)
    ensures
        match r {
            Ok(v) => components_of(b@) == Some(v@),
            Err(_) => components_of(b@) is None,
        },
{
    match rmp_serde::from_slice::<Vec<u32>>(b) {
        Ok(v) => Ok(v),
        Err(e) => Err(e.to_string()),
    }
}

/// What encoding `v` gives: its MessagePack bytes, which decode back to `v`,
/// wherever its length fits the encoding's `u32` count; a serialization
/// error exactly where it does not.
pub open spec fn encode_outcome(v: Seq<u32>, r: Result<Vec<u8>, VectorDBError>) -> bool {
    match r {
        Ok(b) => v.len() <= u32::MAX && b@ == msgpack_of(v) && components_of(b@) == Some(v),
        Err(e) => v.len() > u32::MAX && e is Serialization,
    }
}

/// What decoding `b` gives: the components it encodes, or a serialization
/// error exactly where it encodes none.
pub open spec fn decode_outcome(b: Seq<u8>, r: Result<Vector, VectorDBError>) -> bool {
    match r {
        Ok(v) => components_of(b) == Some(v@),
        Err(e) => components_of(b) is None && e is Serialization,
    }
}

/// Encodes a vector as bytes for storage.
///
/// Succeeds exactly when the number of components fits in a `u32`; the
/// bytes are then the MessagePack encoding of the components, and they decode
/// back to exactly those components. A longer vector is a serialization
/// error.
pub fn encode(v: &Vector) -> (r: Result<Vec<u8>, VectorDBError>)
    ensures
        encode_outcome(v@, r),
{
    if v.dim() > 0xFFFF_FFFFusize {
        return Err(VectorDBError::Serialization("vector too long to encode".to_owned()));
    }
    match msgpack_encode(v.as_slice()) {
        Ok(b) => Ok(b),
        Err(msg) => Err(VectorDBError::Serialization(msg)),
    }
}

/// Decodes stored bytes back to a vector.
///
/// Succeeds exactly when the bytes are a MessagePack encoding of a sequence
/// of components, and then gives those components; corrupt or foreign bytes
/// give a serialization error.
pub fn decode(b: &[u8]) -> (r: Result<Vector, VectorDBError>)
    ensures
        decode_outcome(b@, r),
{
    match msgpack_decode(b) {
        Ok(data) => Ok(Vector::from_vec(data)),
        Err(msg) => Err(VectorDBError::Serialization(msg)),
    }
}

/// Round trip: encoding a vector whose length fits the encoding succeeds, and
/// decoding what it wrote gives a vector with exactly the same components.
pub proof fn lemma_round_trip(
    v: Vector,
    encoded: Result<Vec<u8>, VectorDBError>,
    decoded: Result<Vector, VectorDBError>,
)
    requires
        v@.len() <= u32::MAX,
        encode_outcome(v@, encoded),
        decode_outcome(encoded->Ok_0@, decoded),
    ensures
        encoded is Ok,
        decoded matches Ok(w) && w@ == v@,
{
}

} // verus!
