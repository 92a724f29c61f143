//! From quaternion bytes to yaw, pitch and roll.

use crate::frame::QUATERNION_LEN;
use crate::quaternion::{raw_of, DecodeError, RawQuaternion};
use mpu6050_dmp::quaternion::Quaternion;
use mpu6050_dmp::yaw_pitch_roll::YawPitchRoll;
use vstd::prelude::*;

verus! {

/// Yaw, pitch and roll in radians. Each angle is held as the bit pattern of
/// an IEEE 754 single-precision number, so that the value passes through
/// unchanged.
#[derive(Clone, Copy, Debug, PartialEq, Eq, Structural)]
pub struct Orientation {
    pub yaw_bits: u32,
    pub pitch_bits: u32,
    pub roll_bits: u32,
}

/// The angles that the `mpu6050_dmp` crate derives from a quaternion payload
/// of [`QUATERNION_LEN`] bytes. The device sends unit quaternions, and the
/// quaternion is taken as sent, without renormalization. The arithmetic is
/// in floating point and is not modelled here: this name stands for its
/// result.
pub uninterp spec fn euler_angles(payload: Seq<u8>) -> Orientation;

/// Calls `mpu6050_dmp`: `Quaternion::from_bytes` turns the payload into the
/// crate's quaternion, `YawPitchRoll::from` derives the angles from it, and
/// `to_bits` hands each angle on as it is.
///
/// This contract is taken on trust. It claims what the crate's source shows:
/// `from_bytes` returns a quaternion exactly for payloads of 16 bytes, and
/// the angles are then a fixed function of the payload's bytes, computed in
/// IEEE 754 arithmetic that reads nothing else and does not panic.
#[verifier::external_body]
fn driver_angles(payload: &[u8]) -> (r: Option<Orientation>)
    ensures
        r is Some <==> payload@.len() == QUATERNION_LEN,
        r matches Some(o) ==> o == euler_angles(payload@),
{
    match Quaternion::from_bytes(payload) {
        Some(q) => {
            let a = YawPitchRoll::from(q);
            Some(
                Orientation {
                    yaw_bits: a.yaw.to_bits(),
                    pitch_bits: a.pitch.to_bits(),
                    roll_bits: a.roll.to_bits(),
                },
            )
        },
        None => None,
    }
}

/// What [`accept`] returns: the angles stand unless the quaternion they were
/// derived from has magnitude zero.
pub open spec fn accept_spec(raw: RawQuaternion, angles: Orientation) -> Result<
    Orientation,
    DecodeError,
> {
    if raw.norm_squared() == 0 {
        Err(DecodeError::Degenerate)
    } else {
        Ok(angles)
    }
}

/// What [`decode`] returns for each payload.
pub open spec fn decode_spec(payload: Seq<u8>) -> Result<Orientation, DecodeError> {
    if payload.len() != QUATERNION_LEN {
        Err(DecodeError::WrongLength)
    } else {
        accept_spec(raw_of(payload), euler_angles(payload))
    }
}

/// Decides whether angles derived from `raw` are handed on. A quaternion of
/// magnitude zero describes no rotation, and angles derived from it mean
/// nothing: they are refused.
pub fn accept(raw: &RawQuaternion, angles: Orientation) -> (r: Result<Orientation, DecodeError>)
    ensures
        r == accept_spec(*raw, angles),
{
    if raw.is_degenerate() {
        Err(DecodeError::Degenerate)
    } else {
        Ok(angles)
    }
}

/// Decodes the quaternion bytes of one packet into yaw, pitch and roll.
///
/// A payload of any length other than [`QUATERNION_LEN`] is refused as
/// [`DecodeError::WrongLength`], and one that encodes the zero quaternion as
/// [`DecodeError::Degenerate`]. Every other payload decodes, those at the
/// poles of pitch included.
pub fn decode(payload: &[u8]) -> (r: Result<Orientation, DecodeError>)
    ensures
        r == decode_spec(payload@),
{
    match RawQuaternion::from_bytes(payload) {
        Err(e) => Err(e),
        Ok(raw) => match driver_angles(payload) {
            Some(angles) => accept(&raw, angles),
            None => Err(DecodeError::WrongLength),
        },
    }
}

/// Decoding depends on the payload's bytes alone: two payloads of the same
/// length that agree byte for byte decode to the same result.
pub proof fn lemma_decode_deterministic(a: Seq<u8>, b: Seq<u8>)
    requires
        a.len() == b.len(),
        forall|i: int| 0 <= i < a.len() ==> a[i] == b[i],
    ensures
        decode_spec(a) == decode_spec(b),
{
    assert(a =~= b);
}

} // verus!
