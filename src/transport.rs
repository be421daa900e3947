use vstd::bytes::{
    spec_u32_from_le_bytes, spec_u32_to_le_bytes, spec_u64_from_le_bytes, spec_u64_to_le_bytes,
    u32_from_le_bytes, u64_from_le_bytes,
};
use vstd::prelude::*;
use vstd::slice::{slice_subrange, slice_to_vec};

use crate::api::ApiError;

verus! {

/// Kind of a message of the push protocol.
#[derive(Clone, Copy, Debug, PartialEq, Eq, Structural)]
pub enum TransportType {
    PrepareText,
    PrepareStaticImage,
    PrepareConditionalImage,
    RenderImage,
}

/// A message of the push protocol: its kind and an opaque payload.
#[derive(Clone, Debug)]
pub struct TransportMessage {
    pub transport_type: TransportType,
    pub data: Vec<u8>,
}

/// Number of the kind on the wire.
pub open spec fn type_tag(t: TransportType) -> u32 {
    match t {
        TransportType::PrepareText => 0,
        TransportType::PrepareStaticImage => 1,
        TransportType::PrepareConditionalImage => 2,
        TransportType::RenderImage => 3,
    }
}

/// Bytes of a message: the kind as a little-endian `u32`, the payload length as a
/// little-endian `u64`, then the payload.
pub open spec fn frame(t: TransportType, data: Seq<u8>) -> Seq<u8> {
    spec_u32_to_le_bytes(type_tag(t)) + spec_u64_to_le_bytes(data.len() as u64) + data
}

/// The header of `b` announces a kind and a length that `b` matches.
pub open spec fn well_framed(b: Seq<u8>) -> bool {
    &&& b.len() >= 12
    &&& spec_u32_from_le_bytes(b.subrange(0, 4)) <= 3
    &&& spec_u64_from_le_bytes(b.subrange(4, 12)) == b.len() - 12
}

fn tag_of(t: TransportType) -> (r: u32)
    ensures
        r == type_tag(t),
{
    match t {
        TransportType::PrepareText => 0,
        TransportType::PrepareStaticImage => 1,
        TransportType::PrepareConditionalImage => 2,
        TransportType::RenderImage => 3,
    }
}

/// Relies on bincode::serialize of the pair `(tag, data)`: bincode 1's default options write
/// fixed-size little-endian integers, so the tag takes 4 bytes and the byte vector its length
/// in 8 bytes followed by its bytes. Writing into a `Vec` with no size limit cannot fail.
#[verifier::external_body]
fn serialize_tagged(tag: u32, data: &Vec<u8>) -> (r: Vec<u8>)
    ensures
        r@ == spec_u32_to_le_bytes(tag) + spec_u64_to_le_bytes(data@.len() as u64) + data@,
{
    bincode::serialize(&(tag, data)).unwrap_or_default()
}

/// Writes a message in its framed form.
pub fn encode_transport_message(message: &TransportMessage) -> (r: Vec<u8>)
    ensures
        r@ == frame(message.transport_type, message.data@),
{
    serialize_tagged(tag_of(message.transport_type), &message.data)
}

/// Reads a framed message; anything but a well-framed message of a known kind is refused with
/// `BadRequest`.
pub fn decode_transport_message(bytes: &Vec<u8>) -> (r: Result<TransportMessage, ApiError>)
    ensures
        r is Ok <==> well_framed(bytes@),
        r matches Ok(m) ==> frame(m.transport_type, m.data@) == bytes@,
        r is Err ==> r matches Err(ApiError::BadRequest(_)),
{
    let b = bytes.as_slice();
    if b.len() < 12 {
        return Err(ApiError::BadRequest(String::from_str("truncated transport message")));
    }
    let tag = u32_from_le_bytes(slice_subrange(b, 0, 4));
    let len = u64_from_le_bytes(slice_subrange(b, 4, 12));
    if len != (b.len() - 12) as u64 {
        return Err(ApiError::BadRequest(String::from_str("transport message length mismatch")));
    }
    let transport_type = if tag == 0 {
        TransportType::PrepareText
    } else if tag == 1 {
        TransportType::PrepareStaticImage
    } else if tag == 2 {
        TransportType::PrepareConditionalImage
    } else if tag == 3 {
        TransportType::RenderImage
    } else {
        return Err(ApiError::BadRequest(String::from_str("unknown transport type")));
    };
    let data = slice_to_vec(slice_subrange(b, 12, b.len()));
    proof {
        vstd::bytes::lemma_auto_spec_u32_to_from_le_bytes();
        vstd::bytes::lemma_auto_spec_u64_to_from_le_bytes();
        assert(spec_u32_to_le_bytes(type_tag(transport_type)) == bytes@.subrange(0, 4));
        assert(spec_u64_to_le_bytes(data@.len() as u64) == bytes@.subrange(4, 12));
        assert(frame(transport_type, data@) =~= bytes@);
    }
    Ok(TransportMessage { transport_type, data })
}

/// Decoding a framed message gives back its kind and payload.
pub proof fn lemma_frame_round_trip(t: TransportType, data: Seq<u8>)
    requires
        data.len() + 12 <= u64::MAX,
    ensures
        well_framed(frame(t, data)),
        forall|t2: TransportType, d2: Seq<u8>| #[trigger] frame(t2, d2) == frame(t, data) ==> t2 == t
            && d2 == data,
{
    vstd::bytes::lemma_auto_spec_u32_to_from_le_bytes();
    vstd::bytes::lemma_auto_spec_u64_to_from_le_bytes();
    let f = frame(t, data);
    assert(f.subrange(0, 4) =~= spec_u32_to_le_bytes(type_tag(t)));
    assert(f.subrange(4, 12) =~= spec_u64_to_le_bytes(data.len() as u64));
    assert forall|t2: TransportType, d2: Seq<u8>| #[trigger] frame(t2, d2) == frame(t, data) implies t2
        == t && d2 == data by {
        let g = frame(t2, d2);
        assert(g.subrange(0, 4) =~= spec_u32_to_le_bytes(type_tag(t2)));
        assert(type_tag(t2) == type_tag(t));
        assert(g.subrange(12, g.len() as int) =~= d2);
        assert(f.subrange(12, f.len() as int) =~= data);
    }
}

} // verus!
