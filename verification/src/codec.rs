//! Decoding of the fixed nine-byte records of the stored-value sibling
//! service: one operation byte, then two big-endian signed 32-bit arguments.

use vstd::prelude::*;

verus! {

/// One decoded request: the operation byte and its two arguments.
pub struct Request {
    pub query: u8,
    pub arg1: i32,
    pub arg2: i32,
}

/// The signed 32-bit value that four big-endian bytes denote, in
/// two's complement.
pub open spec fn be_i32(b0: u8, b1: u8, b2: u8, b3: u8) -> int {
    let v = b0 as int * 0x1000000 + b1 as int * 0x10000 + b2 as int * 0x100 + b3 as int;
    if v >= 0x80000000 {
        v - 0x100000000
    } else {
        v
    }
}

/// Reads a big-endian signed 32-bit integer from four bytes.
pub fn i32_from_be(b0: u8, b1: u8, b2: u8, b3: u8) -> (r: i32)
    ensures
        r as int == be_i32(b0, b1, b2, b3),
{
    let v: i64 = (b0 as i64) * 0x1000000 + (b1 as i64) * 0x10000 + (b2 as i64) * 0x100 + (
    b3 as i64);
    if v >= 0x80000000 {
        (v - 0x100000000) as i32
    } else {
        v as i32
    }
}

impl Request {
    /// Decodes one nine-byte record: the operation byte, then the two
    /// big-endian arguments.
    pub fn from_bytes(raw: [u8; 9]) -> (r: Request)
        ensures
            r.query == raw@[0],
            r.arg1 as int == be_i32(raw@[1], raw@[2], raw@[3], raw@[4]),
            r.arg2 as int == be_i32(raw@[5], raw@[6], raw@[7], raw@[8]),
    {
        let query = raw[0];
        Request {
            query,
            arg1: i32_from_be(raw[1], raw[2], raw[3], raw[4]),
            arg2: i32_from_be(raw[5], raw[6], raw[7], raw[8]),
        }
    }
}

} // verus!
