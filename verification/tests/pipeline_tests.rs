//! End-to-end tests of the classifier and both decoders.

use breakwater_ebpf::canvas::ChunkTable;
use breakwater_ebpf::pipeline::breakwater_ebpf;
use breakwater_ebpf::pipeline::ETH_P_IP4;
use breakwater_ebpf::pipeline::ETH_P_IP6;
use breakwater_ebpf::pipeline::XDP_ABORTED;
use breakwater_ebpf::pipeline::XDP_PASS;

const PORT: u16 = 1234;

/// An Ethernet frame with the given EtherType and body.
fn eth_frame(ethertype: u16, body: &[u8]) -> Vec<u8> {
    let mut p = vec![0u8; 12];
    p.push((ethertype >> 8) as u8);
    p.push((ethertype & 0xff) as u8);
    p.extend_from_slice(body);
    p
}

/// A UDP datagram to `dest_port` behind Ethernet and a minimal IPv4 header.
fn udp_packet(dest_port: u16, payload: &[u8]) -> Vec<u8> {
    let mut ip = vec![0u8; 20];
    ip[0] = 0x45; // version 4, header length 5 words
    ip[9] = 17; // protocol: UDP
    let mut udp = vec![0u8; 8];
    udp[2] = (dest_port >> 8) as u8;
    udp[3] = (dest_port & 0xff) as u8;
    let mut body = ip;
    body.extend_from_slice(&udp);
    body.extend_from_slice(payload);
    eth_frame(ETH_P_IP4, &body)
}

/// An IPv6 packet with the given destination address.
fn ipv6_packet(daddr: [u8; 16]) -> Vec<u8> {
    let mut body = vec![0u8; 24]; // fixed header fields and source address
    body.extend_from_slice(&daddr);
    eth_frame(ETH_P_IP6, &body)
}

fn pixel(table: &ChunkTable, x: u32, y: u32) -> u32 {
    table.pixel_at_index(x + y * 1920)
}

#[test]
fn single_command_sets_pixel() {
    // Command bytes 50 42 00 01 00 02 FF 00 00: x=1, y=2, color red.
    let packet = udp_packet(PORT, &[0x50, 0x42, 0x00, 0x01, 0x00, 0x02, 0xFF, 0x00, 0x00]);
    let mut table = ChunkTable::new();
    let action = breakwater_ebpf(&packet, PORT, &mut table);
    assert_eq!(action, XDP_PASS);
    assert_eq!(pixel(&table, 1, 2), 0xFF000000);
    // The color word keeps its low byte zero.
    assert_eq!(pixel(&table, 1, 2) & 0xFF, 0);
}

#[test]
fn non_ip_packet_passes_and_leaves_canvas() {
    // An ARP frame: neither IPv4 nor IPv6.
    let packet = eth_frame(0x0806, &[0u8; 40]);
    let mut table = ChunkTable::new();
    let action = breakwater_ebpf(&packet, PORT, &mut table);
    assert_eq!(action, XDP_PASS);
    for chunk_index in 0..254usize {
        let chunk = table.chunks[chunk_index].pixels.as_slice();
        assert!(chunk.iter().all(|&v| v == 0));
    }
}

#[test]
fn three_commands_write_three_pixels() {
    let mut payload = Vec::new();
    for (x, y, r) in [(3u16, 4u16, 0x11u8), (5, 6, 0x22), (7, 8, 0x33)] {
        payload.extend_from_slice(&[0x50, 0x42]);
        payload.extend_from_slice(&x.to_be_bytes());
        payload.extend_from_slice(&y.to_be_bytes());
        payload.extend_from_slice(&[r, 0x00, 0x00]);
    }
    let packet = udp_packet(PORT, &payload);
    let mut table = ChunkTable::new();
    let action = breakwater_ebpf(&packet, PORT, &mut table);
    assert_eq!(action, XDP_PASS);
    assert_eq!(pixel(&table, 3, 4), 0x11000000);
    assert_eq!(pixel(&table, 5, 6), 0x22000000);
    assert_eq!(pixel(&table, 7, 8), 0x33000000);
}

#[test]
fn corrupted_magic_stops_after_first_command() {
    let mut payload = vec![0x50, 0x42, 0x00, 0x01, 0x00, 0x02, 0xFF, 0x00, 0x00];
    // A second stride with a corrupted magic tag, then a third valid command
    // that must never be reached.
    payload.extend_from_slice(&[0x00, 0x42, 0x00, 0x03, 0x00, 0x04, 0xAA, 0x00, 0x00]);
    payload.extend_from_slice(&[0x50, 0x42, 0x00, 0x05, 0x00, 0x06, 0xBB, 0x00, 0x00]);
    let packet = udp_packet(PORT, &payload);
    let mut table = ChunkTable::new();
    let action = breakwater_ebpf(&packet, PORT, &mut table);
    assert_eq!(action, XDP_PASS);
    assert_eq!(pixel(&table, 1, 2), 0xFF000000);
    assert_eq!(pixel(&table, 3, 4), 0);
    assert_eq!(pixel(&table, 5, 6), 0);
}

#[test]
fn max_size_datagram_of_out_of_range_commands_is_ignored() {
    // The largest UDP payload, filled with valid repeating commands whose
    // coordinates are out of range: every one is silently ignored, and the
    // scan still terminates within its static iteration cap.
    let mut payload = Vec::with_capacity(65507);
    while payload.len() + 9 <= 65507 {
        payload.extend_from_slice(&[0x50, 0x42, 0xFF, 0xFF, 0xFF, 0xFF, 0xFF, 0xFF, 0xFF]);
    }
    payload.resize(65507, 0x50);
    let packet = udp_packet(PORT, &payload);
    let mut table = ChunkTable::new();
    let action = breakwater_ebpf(&packet, PORT, &mut table);
    assert_eq!(action, XDP_PASS);
    for chunk_index in 0..254usize {
        let chunk = table.chunks[chunk_index].pixels.as_slice();
        assert!(chunk.iter().all(|&v| v == 0));
    }
}

#[test]
fn ipv6_address_encodes_one_pixel() {
    // Destination address bytes 8-15: x=1, y=2, color 0xDEADBEEF.
    let daddr = [0, 0, 0, 0, 0, 0, 0, 0, 0x00, 0x01, 0x00, 0x02, 0xDE, 0xAD, 0xBE, 0xEF];
    let packet = ipv6_packet(daddr);
    let mut table = ChunkTable::new();
    let action = breakwater_ebpf(&packet, PORT, &mut table);
    assert_eq!(action, XDP_PASS);
    assert_eq!(pixel(&table, 1, 2), 0xDEADBEEF);
}

#[test]
fn ipv6_matches_regardless_of_port() {
    let daddr = [0, 0, 0, 0, 0, 0, 0, 0, 0x00, 0x07, 0x00, 0x08, 0x12, 0x34, 0x56, 0x78];
    let packet = ipv6_packet(daddr);
    let mut table = ChunkTable::new();
    let action = breakwater_ebpf(&packet, 9999, &mut table);
    assert_eq!(action, XDP_PASS);
    assert_eq!(pixel(&table, 7, 8), 0x12345678);
}

#[test]
fn wrong_port_passes_without_writes() {
    let packet = udp_packet(4321, &[0x50, 0x42, 0x00, 0x01, 0x00, 0x02, 0xFF, 0x00, 0x00]);
    let mut table = ChunkTable::new();
    let action = breakwater_ebpf(&packet, PORT, &mut table);
    assert_eq!(action, XDP_PASS);
    assert_eq!(pixel(&table, 1, 2), 0);
}

#[test]
fn non_udp_transport_passes() {
    let mut packet = udp_packet(PORT, &[0x50, 0x42, 0x00, 0x01, 0x00, 0x02, 0xFF, 0x00, 0x00]);
    packet[23] = 6; // protocol: TCP
    let mut table = ChunkTable::new();
    let action = breakwater_ebpf(&packet, PORT, &mut table);
    assert_eq!(action, XDP_PASS);
    assert_eq!(pixel(&table, 1, 2), 0);
}

#[test]
fn ipv4_with_options_passes_unexamined() {
    let mut packet = udp_packet(PORT, &[0x50, 0x42, 0x00, 0x01, 0x00, 0x02, 0xFF, 0x00, 0x00]);
    packet[14] = 0x46; // header length 6 words: options present
    let mut table = ChunkTable::new();
    let action = breakwater_ebpf(&packet, PORT, &mut table);
    assert_eq!(action, XDP_PASS);
    assert_eq!(pixel(&table, 1, 2), 0);
}

#[test]
fn truncated_ethernet_header_aborts() {
    let packet = vec![0u8; 13];
    let mut table = ChunkTable::new();
    let action = breakwater_ebpf(&packet, PORT, &mut table);
    assert_eq!(action, XDP_ABORTED);
}

#[test]
fn truncated_ipv4_header_aborts() {
    // EtherType says IPv4 and the header-length byte is present, but the
    // protocol byte is cut off.
    let packet = eth_frame(ETH_P_IP4, &[0x45, 0, 0, 0, 0, 0]);
    let mut table = ChunkTable::new();
    let action = breakwater_ebpf(&packet, PORT, &mut table);
    assert_eq!(action, XDP_ABORTED);
}

#[test]
fn truncated_ipv6_address_aborts() {
    // EtherType says IPv6 but the destination address is cut off.
    let packet = eth_frame(ETH_P_IP6, &[0u8; 30]);
    let mut table = ChunkTable::new();
    let action = breakwater_ebpf(&packet, PORT, &mut table);
    assert_eq!(action, XDP_ABORTED);
}

#[test]
fn empty_payload_passes_without_writes() {
    let packet = udp_packet(PORT, &[]);
    let mut table = ChunkTable::new();
    let action = breakwater_ebpf(&packet, PORT, &mut table);
    assert_eq!(action, XDP_PASS);
    assert_eq!(pixel(&table, 0, 0), 0);
}

#[test]
fn trailing_bytes_after_commands_are_kept_writes() {
    // One valid command followed by four trailing bytes that are not a
    // command: the write is kept and the packet passes.
    let mut payload = vec![0x50, 0x42, 0x00, 0x09, 0x00, 0x09, 0x01, 0x02, 0x03];
    payload.extend_from_slice(&[0x50, 0x42, 0x00, 0x01]);
    let packet = udp_packet(PORT, &payload);
    let mut table = ChunkTable::new();
    let action = breakwater_ebpf(&packet, PORT, &mut table);
    assert_eq!(action, XDP_PASS);
    assert_eq!(pixel(&table, 9, 9), 0x01020300);
}
