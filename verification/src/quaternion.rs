//! The quaternion at the head of a motion packet, as the device encodes it.

use crate::frame::QUATERNION_LEN;
use vstd::prelude::*;

verus! {

/// Why a payload was not decoded.
#[derive(Clone, Copy, Debug, PartialEq, Eq, Structural)]
pub enum DecodeError {
    /// The payload is not exactly [`crate::frame::QUATERNION_LEN`] bytes long.
    WrongLength,
    /// The quaternion has magnitude zero and describes no rotation. In the
    /// fixed-point form this is the only magnitude below one unit.
    Degenerate,
}

/// A quaternion in the device's fixed-point form: each component is a signed
/// 32-bit integer that counts units of 1/16384.
#[derive(Clone, Copy, Debug, PartialEq, Eq, Structural)]
pub struct RawQuaternion {
    pub w: i32,
    pub x: i32,
    pub y: i32,
    pub z: i32,
}

/// The unsigned value of the four bytes of `s` that start at `at`, most
/// significant byte first.
pub open spec fn be_word(s: Seq<u8>, at: int) -> int {
    s[at] * 0x100_0000 + s[at + 1] * 0x1_0000 + s[at + 2] * 0x100 + s[at + 3]
}

/// The same four bytes read as a two's complement number.
pub open spec fn be_i32(s: Seq<u8>, at: int) -> int {
    let u = be_word(s, at);
    if u >= 0x8000_0000 {
        u - 0x1_0000_0000
    } else {
        u
    }
}

/// The quaternion that a payload of [`QUATERNION_LEN`] bytes encodes: w, x,
/// y and z in this order, four bytes each.
pub open spec fn raw_of(payload: Seq<u8>) -> RawQuaternion {
    RawQuaternion {
        w: be_i32(payload, 0) as i32,
        x: be_i32(payload, 4) as i32,
        y: be_i32(payload, 8) as i32,
        z: be_i32(payload, 12) as i32,
    }
}

/// What [`RawQuaternion::from_bytes`] returns for each payload.
pub open spec fn parse_spec(payload: Seq<u8>) -> Result<RawQuaternion, DecodeError> {
    if payload.len() == QUATERNION_LEN {
        Ok(raw_of(payload))
    } else {
        Err(DecodeError::WrongLength)
    }
}

/// A sum of four squares is zero only when each term is.
pub proof fn lemma_norm_zero(q: RawQuaternion)
    ensures
        q.norm_squared() >= 0,
        q.norm_squared() == 0 <==> (q.w == 0 && q.x == 0 && q.y == 0 && q.z == 0),
{
    let (w, x, y, z) = (q.w as int, q.x as int, q.y as int, q.z as int);
    assert(w * w >= 0 && (w * w == 0 <==> w == 0)) by (nonlinear_arith);
    assert(x * x >= 0 && (x * x == 0 <==> x == 0)) by (nonlinear_arith);
    assert(y * y >= 0 && (y * y == 0 <==> y == 0)) by (nonlinear_arith);
    assert(z * z >= 0 && (z * z == 0 <==> z == 0)) by (nonlinear_arith);
}

fn read_be_i32(bytes: &[u8], at: usize) -> (v: i32)
    requires
        at + 4 <= bytes@.len(),
    ensures
        v == be_i32(bytes@, at as int),
{
    let u: i64 = (bytes[at] as i64) * 0x100_0000 + (bytes[at + 1] as i64) * 0x1_0000 + (bytes[at
        + 2] as i64) * 0x100 + (bytes[at + 3] as i64);
    if u >= 0x8000_0000 {
        (u - 0x1_0000_0000) as i32
    } else {
        u as i32
    }
}

impl RawQuaternion {
    /// The squared magnitude, in squared units of 1/16384.
    pub open spec fn norm_squared(self) -> int {
        self.w * self.w + self.x * self.x + self.y * self.y + self.z * self.z
    }

    /// Reads a quaternion from its encoding in [`QUATERNION_LEN`] bytes. Any
    /// other length is refused; every pattern of that length is a
    /// quaternion, and each component is exactly the number that its four
    /// bytes encode.
    pub fn from_bytes(payload: &[u8]) -> (r: Result<RawQuaternion, DecodeError>)
        ensures
            r == parse_spec(payload@),
            r matches Ok(q) ==> {
                &&& q.w == be_i32(payload@, 0)
                &&& q.x == be_i32(payload@, 4)
                &&& q.y == be_i32(payload@, 8)
                &&& q.z == be_i32(payload@, 12)
            },
    {
        if payload.len() != QUATERNION_LEN {
            return Err(DecodeError::WrongLength);
        }
        let w: i32 = read_be_i32(payload, 0);
        let x: i32 = read_be_i32(payload, 4);
        let y: i32 = read_be_i32(payload, 8);
        let z: i32 = read_be_i32(payload, 12);
        Ok(RawQuaternion { w, x, y, z })
    }

    /// Whether the magnitude is zero.
    pub fn is_degenerate(&self) -> (b: bool)
        ensures
            b <==> self.norm_squared() == 0,
    {
        proof {
            lemma_norm_zero(*self);
        }
        self.w == 0 && self.x == 0 && self.y == 0 && self.z == 0
    }
}

} // verus!
