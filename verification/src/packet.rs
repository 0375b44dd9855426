//! Bounds-checked accessor over raw packet bytes.
//!
//! Every multi-byte field read on the fast path goes through one of these
//! functions, and each read proves `offset + size <= packet length` on its
//! own, regardless of any earlier check: the constrained execution
//! environment rejects any access that is not individually proven in-bounds.

use vstd::prelude::*;

verus! {

/// The big-endian 16-bit value formed by bytes `off` and `off + 1` of `p`.
pub open spec fn be16_at(p: Seq<u8>, off: int) -> u16 {
    (p[off] * 256 + p[off + 1]) as u16
}

/// The big-endian 32-bit value formed by bytes `off` .. `off + 4` of `p`.
pub open spec fn be32_at(p: Seq<u8>, off: int) -> u32 {
    (p[off] * 0x1000000 + p[off + 1] * 0x10000 + p[off + 2] * 256 + p[off + 3]) as u32
}

/// Read one byte, verifying the access is in-bounds.
pub fn read_u8(packet: &Vec<u8>, offset: usize) -> (r: Option<u8>)
    ensures
        r is Some <==> offset + 1 <= packet@.len(),
        r is Some ==> r->0 == packet@[offset as int],
{
    if offset < packet.len() {
        Some(packet[offset])
    } else {
        None
    }
}

/// Read a big-endian `u16`, verifying the two-byte access is in-bounds.
pub fn read_u16_be(packet: &Vec<u8>, offset: usize) -> (r: Option<u16>)
    ensures
        r is Some <==> offset + 2 <= packet@.len(),
        r is Some ==> r->0 == be16_at(packet@, offset as int),
{
    if packet.len() >= 2 && offset <= packet.len() - 2 {
        Some((packet[offset] as u16) * 256 + packet[offset + 1] as u16)
    } else {
        None
    }
}

/// Read a big-endian `u32`, verifying the four-byte access is in-bounds.
pub fn read_u32_be(packet: &Vec<u8>, offset: usize) -> (r: Option<u32>)
    ensures
        r is Some <==> offset + 4 <= packet@.len(),
        r is Some ==> r->0 == be32_at(packet@, offset as int),
{
    if packet.len() >= 4 && offset <= packet.len() - 4 {
        Some(
            (packet[offset] as u32) * 0x1000000 + (packet[offset + 1] as u32) * 0x10000
                + (packet[offset + 2] as u32) * 256 + packet[offset + 3] as u32,
        )
    } else {
        None
    }
}

} // verus!
