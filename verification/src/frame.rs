//! The packet that the motion processor queues, and when it may be read.

use vstd::prelude::*;
use vstd::slice::slice_subrange;

verus! {

/// The length of one motion packet in bytes: a quaternion, then twelve bytes
/// of other motion data that this crate drops.
pub const FRAME_LEN: usize = 28;

/// The length of the quaternion at the head of a packet.
pub const QUATERNION_LEN: usize = 16;

/// Whether `pending` queued bytes hold at least one whole packet. A read is
/// due exactly then: reading earlier would tear a packet across two reads.
pub fn has_full_frame(pending: usize) -> (b: bool)
    ensures
        b <==> pending >= FRAME_LEN,
{
    pending >= FRAME_LEN
}

/// The quaternion bytes of a packet: its first [`QUATERNION_LEN`] bytes.
/// Only a buffer of exactly [`FRAME_LEN`] bytes is a packet.
pub fn quaternion_payload(frame: &[u8]) -> (r: Option<&[u8]>)
    ensures
        r is Some <==> frame@.len() == FRAME_LEN,
        r matches Some(p) ==> p@ == frame@.subrange(0, QUATERNION_LEN as int),
{
    if frame.len() == FRAME_LEN {
        Some(slice_subrange(frame, 0, QUATERNION_LEN))
    } else {
        None
    }
}

} // verus!
