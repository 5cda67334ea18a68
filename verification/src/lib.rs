//! Captive-portal networking core: a binary DNS message codec with
//! RFC 1035 name-compression defenses, a captive-DNS response policy,
//! and a typed WiFi bring-up state machine with a poll-based connect
//! future driven by driver event callbacks.

use vstd::prelude::*;

pub mod frame;
pub mod header;
pub mod name;
pub mod question;
pub mod connect;
pub mod radio;
pub mod responder;
pub mod wifi;

verus! {

/// Relies on core::mem::replace: it moves `value` into `dest` and returns
/// the value that was in `dest` before.
pub assume_specification<T>[ core::mem::replace ](dest: &mut T, value: T) -> (r: T)
    ensures
        *final(dest) == value,
        r == *old(dest),
;

/// Big-endian high byte of a 16-bit value.
pub fn u16_hi(x: u16) -> (r: u8)
    ensures
        r == x / 256,
{
    (x / 256) as u8
}

/// Big-endian low byte of a 16-bit value.
pub fn u16_lo(x: u16) -> (r: u8)
    ensures
        r == x % 256,
{
    (x % 256) as u8
}

/// The 16-bit value encoded big-endian by two bytes.
pub open spec fn u16_of_bytes(hi: u8, lo: u8) -> u16 {
    (hi * 256 + lo) as u16
}

/// The two big-endian bytes of a 16-bit value.
pub open spec fn spec_u16_be(x: u16) -> Seq<u8> {
    seq![(x / 256) as u8, (x % 256) as u8]
}

/// The four big-endian bytes of a 32-bit value.
pub open spec fn spec_u32_be(x: u32) -> Seq<u8> {
    seq![
        (x / 0x1000000) as u8,
        ((x / 0x10000) % 256) as u8,
        ((x / 256) % 256) as u8,
        (x % 256) as u8,
    ]
}

/// Read a 16-bit value from its big-endian bytes.
pub fn u16_from_bytes(hi: u8, lo: u8) -> (r: u16)
    ensures
        r == u16_of_bytes(hi, lo),
        r / 256 == hi,
        r % 256 == lo,
{
    let r: u16 = (hi as u16) * 256 + (lo as u16);
    r
}

} // verus!
