//! Outbound frames: the payloads handed to the length-delimited codec.

use crate::ingress::protocol::Fallback;
use bytes::Bytes;
use vstd::prelude::*;

verus! {

/// `bytes::Bytes`, a shared immutable buffer. The library only makes such
/// buffers and hands them on.
#[verifier::external_type_specification]
#[verifier::external_body]
pub struct ExBytes(bytes::Bytes);

/// The bytes that a buffer holds, in order. Nothing is known of it but what
/// `frame_from` states.
pub uninterp spec fn frame_bytes(frame: Bytes) -> Seq<u8>;

/// Calls `Bytes::from` on a `Vec<u8>`. Trusted: the buffer that comes back
/// holds exactly the bytes of the vector, in the same order.
#[verifier::external_body]
pub(crate) fn frame_from(payload: Vec<u8>) -> (frame: Bytes)
    ensures
        frame_bytes(frame) == payload@,
{
    Bytes::from(payload)
}

/// The ASCII text `OK`.
pub open spec fn ok_text() -> Seq<u8> {
    seq![0x4fu8, 0x4bu8]
}

/// The ASCII text `NOTFOUND`.
pub open spec fn not_found_text() -> Seq<u8> {
    seq![0x4eu8, 0x4fu8, 0x54u8, 0x46u8, 0x4fu8, 0x55u8, 0x4eu8, 0x44u8]
}

/// The text of a reply that the ingress writes by itself.
pub open spec fn fallback_text(fallback: Fallback) -> Seq<u8> {
    match fallback {
        Fallback::Acknowledged => ok_text(),
        Fallback::NotFound => not_found_text(),
    }
}

/// Makes the frame of a reply that the ingress writes by itself.
pub fn fallback_frame(fallback: Fallback) -> (frame: Bytes)
    ensures
        frame_bytes(frame) == fallback_text(fallback),
{
    let mut text: Vec<u8> = Vec::new();
    match fallback {
        Fallback::Acknowledged => {
            text.push(0x4f);
            text.push(0x4b);
        },
        Fallback::NotFound => {
            text.push(0x4e);
            text.push(0x4f);
            text.push(0x54);
            text.push(0x46);
            text.push(0x4f);
            text.push(0x55);
            text.push(0x4e);
            text.push(0x44);
        },
    }
    assert(text@ =~= fallback_text(fallback));
    frame_from(text)
}

} // verus!
