//! Little-endian integer decoding and UTF-8 decoding of raw payload bytes.
use vstd::prelude::*;
use vstd::utf8::{valid_utf8, decode_utf8};

verus! {

/// The value of the first two bytes of `b` read as a little-endian integer.
pub open spec fn le16(b: Seq<u8>) -> int
    recommends
        b.len() >= 2,
{
    b[0] as int + 256 * (b[1] as int)
}

/// The value of the first four bytes of `b` read as a little-endian integer.
pub open spec fn le32(b: Seq<u8>) -> int
    recommends
        b.len() >= 4,
{
    b[0] as int + 256 * (b[1] as int) + 65536 * (b[2] as int) + 16777216 * (b[3] as int)
}

/// Decodes the first two bytes of `bytes` as a little-endian `u16`.
pub fn bytes_as_u16(bytes: &[u8]) -> (r: u16)
    requires
        bytes@.len() >= 2,
    ensures
        r as int == le16(bytes@),
{
    bytes[0] as u16 + 256 * (bytes[1] as u16)
}

/// Decodes the first four bytes of `bytes` as a little-endian `u32`.
pub fn bytes_as_u32(bytes: &[u8]) -> (r: u32)
    requires
        bytes@.len() >= 4,
    ensures
        r as int == le32(bytes@),
{
    bytes[0] as u32 + 256 * (bytes[1] as u32) + 65536 * (bytes[2] as u32) + 16777216
        * (bytes[3] as u32)
}

/// Decodes a four-byte little-endian Unix timestamp.
pub fn to_uinx_timestamp(bytes: &[u8]) -> (r: u32)
    requires
        bytes@.len() >= 4,
    ensures
        r as int == le32(bytes@),
{
    bytes_as_u32(bytes)
}

/// Relies on `String::from_utf8`: it succeeds exactly on valid UTF-8 input
/// and yields the decoded characters.
#[verifier::external_body]
pub(crate) fn try_utf8_string(bytes: &Vec<u8>) -> (r: Option<String>)
    ensures
        r is Some <==> valid_utf8(bytes@),
        r matches Some(s) ==> s@ == decode_utf8(bytes@),
{
    String::from_utf8(bytes.clone()).ok()
}

/// Round-trip law for textual fields: a string payload that decoded
/// successfully re-encodes to exactly the original payload bytes.
pub proof fn lemma_text_field_round_trip(p: Seq<u8>)
    requires
        valid_utf8(p),
    ensures
        vstd::utf8::encode_utf8(decode_utf8(p)) == p,
{
    vstd::utf8::decode_utf8_encode_utf8(p);
}

/// Decodes a string payload, rejecting bytes that are not UTF-8.
pub fn load_string(payload: &[u8]) -> (r: Result<String, crate::pwserrors::PwSafeError>)
    ensures
        match r {
            Ok(s) => valid_utf8(payload@) && s@ == decode_utf8(payload@),
            Err(e) => !valid_utf8(payload@) && e
                == crate::pwserrors::PwSafeError::InvalidUtf8InStringField,
        },
{
    let v = vstd::slice::slice_to_vec(payload);
    match try_utf8_string(&v) {
        Some(s) => Ok(s),
        None => Err(crate::pwserrors::PwSafeError::InvalidUtf8InStringField),
    }
}

/// Decodes `bytes` as UTF-8; callers must know the bytes are valid.
pub fn to_utf8_string(bytes: &Vec<u8>) -> (r: String)
    requires
        valid_utf8(bytes@),
    ensures
        r@ == decode_utf8(bytes@),
{
    match try_utf8_string(bytes) {
        Some(s) => s,
        None => {
            proof {
                assert(false);
            }
            String::new()
        },
    }
}

} // verus!
