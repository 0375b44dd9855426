//! Tests of the bounds-checked accessor.

use breakwater_ebpf::packet::read_u16_be;
use breakwater_ebpf::packet::read_u32_be;
use breakwater_ebpf::packet::read_u8;

#[test]
fn reads_decode_big_endian() {
    let p = vec![0xDE, 0xAD, 0xBE, 0xEF, 0x01];
    assert_eq!(read_u8(&p, 0), Some(0xDE));
    assert_eq!(read_u8(&p, 4), Some(0x01));
    assert_eq!(read_u16_be(&p, 0), Some(0xDEAD));
    assert_eq!(read_u16_be(&p, 3), Some(0xEF01));
    assert_eq!(read_u32_be(&p, 0), Some(0xDEADBEEF));
    assert_eq!(read_u32_be(&p, 1), Some(0xADBEEF01));
}

#[test]
fn reads_past_the_end_are_rejected() {
    let p = vec![0xDE, 0xAD, 0xBE, 0xEF];
    assert_eq!(read_u8(&p, 4), None);
    assert_eq!(read_u16_be(&p, 3), None);
    assert_eq!(read_u32_be(&p, 1), None);
    assert_eq!(read_u16_be(&p, usize::MAX), None);
    let empty: Vec<u8> = Vec::new();
    assert_eq!(read_u8(&empty, 0), None);
    assert_eq!(read_u16_be(&empty, 0), None);
    assert_eq!(read_u32_be(&empty, 0), None);
}
