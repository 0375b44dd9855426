//! Protocol classifier and per-packet pipeline.
//!
//! One run-to-completion invocation per received packet: the classifier walks
//! the Ethernet/IP/UDP headers through the bounds-checked accessor and either
//! passes the packet through untouched or dispatches it to a decoder. Every
//! branch that does not reach a decoder ends in a pass verdict; only a
//! structural truncation of a header the walk was already committed to
//! reading aborts.
//!
//! The header offsets below are the platform header layout, supplied as
//! constants: Ethernet 14 bytes with the EtherType at offset 12, a minimal
//! IPv4 header of 20 bytes with its protocol byte at offset 9, an 8-byte UDP
//! header with the destination port at offset 2, and a 40-byte IPv6 header
//! with the destination address at offset 24.

use vstd::prelude::*;

use crate::canvas::spec_set_pixel;
use crate::canvas::ChunkTable;
use crate::decode::apply_commands;
use crate::decode::decode_ipv6_address;
use crate::decode::decode_udp_commands;
use crate::decode::ipv6_command;
use crate::decode::parse_commands;
use crate::decode::DrawCommand;
use crate::decode::MAX_COMMANDS;
use crate::packet::be16_at;
use crate::packet::read_u16_be;
use crate::packet::read_u8;

verus! {

/// EtherType of IPv4.
pub const ETH_P_IP4: u16 = 0x0800;

/// EtherType of IPv6.
pub const ETH_P_IP6: u16 = 0x86dd;

/// Length of an Ethernet header.
pub const ETH_HDR_LEN: usize = 14;

/// Packet offset of the EtherType field.
pub const ETH_PROTO_OFFSET: usize = 12;

/// Packet offset of the IPv4 version/header-length byte.
pub const IPV4_VIHL_OFFSET: usize = 14;

/// Packet offset of the IPv4 protocol byte.
pub const IPV4_PROTOCOL_OFFSET: usize = 23;

/// Length of a minimal, option-free IPv4 header.
pub const IPV4_HDR_LEN_MIN: usize = 20;

/// IPv4 header-length field value for a minimal header: five 32-bit words.
pub const IPV4_IHL_MIN: u8 = 5;

/// IP protocol number of UDP.
pub const IPPROTO_UDP: u8 = 17;

/// Packet offset of the UDP destination port.
pub const UDP_DEST_PORT_OFFSET: usize = 36;

/// Length of a UDP header.
pub const UDP_HDR_LEN: usize = 8;

/// Packet offset of the UDP payload behind Ethernet, minimal IPv4, and UDP
/// headers.
pub const UDP_PAYLOAD_OFFSET: usize = 42;

/// Packet offset of the IPv6 destination address.
pub const IPV6_DADDR_OFFSET: usize = 38;

/// Verdict value that forwards the packet unmodified.
pub const XDP_PASS: u32 = 2;

/// Verdict value that aborts processing of the packet.
pub const XDP_ABORTED: u32 = 0;

/// What the classifier decides for one packet.
pub enum Decision {
    /// A header the walk was committed to reading is structurally truncated.
    Abort,
    /// The packet carries no draw commands; forward it untouched.
    Pass,
    /// A UDP datagram to the configured port: scan its payload for commands.
    DecodeUdp,
    /// An IPv6 packet: decode its destination address as one command.
    DecodeIpv6,
}

/// The classifier's decision for packet `p` and configured listening port
/// `port`, walking the headers exactly as the run-time walk does.
pub open spec fn spec_classify(p: Seq<u8>, port: u16) -> Decision {
    if p.len() < ETH_PROTO_OFFSET + 2 {
        Decision::Abort
    } else {
        let ethertype = be16_at(p, ETH_PROTO_OFFSET as int);
        if ethertype == ETH_P_IP4 {
            if p.len() < IPV4_VIHL_OFFSET + 1 {
                Decision::Abort
            } else if p[IPV4_VIHL_OFFSET as int] % 16 != IPV4_IHL_MIN {
                Decision::Pass
            } else if p.len() < IPV4_PROTOCOL_OFFSET + 1 {
                Decision::Abort
            } else if p[IPV4_PROTOCOL_OFFSET as int] != IPPROTO_UDP {
                Decision::Pass
            } else if p.len() < UDP_DEST_PORT_OFFSET + 2 {
                Decision::Abort
            } else if be16_at(p, UDP_DEST_PORT_OFFSET as int) != port {
                Decision::Pass
            } else {
                Decision::DecodeUdp
            }
        } else if ethertype == ETH_P_IP6 {
            if p.len() < IPV6_DADDR_OFFSET + 16 {
                Decision::Abort
            } else {
                Decision::DecodeIpv6
            }
        } else {
            Decision::Pass
        }
    }
}

/// The draw commands packet `p` carries under the classifier's decision:
/// none unless a decoder runs.
pub open spec fn spec_packet_commands(p: Seq<u8>, port: u16) -> Seq<DrawCommand> {
    match spec_classify(p, port) {
        Decision::DecodeUdp => parse_commands(p, UDP_PAYLOAD_OFFSET as int, MAX_COMMANDS as nat),
        Decision::DecodeIpv6 => seq![ipv6_command(p, IPV6_DADDR_OFFSET as int)],
        _ => Seq::empty(),
    }
}

/// Classify one packet: walk the headers through the bounds-checked accessor
/// and decide pass-through versus dispatch. This filter never touches the
/// canvas.
pub fn classify(packet: &Vec<u8>, port: u16) -> (d: Decision)
    ensures
        d == spec_classify(packet@, port),
{
    let ethertype = match read_u16_be(packet, ETH_PROTO_OFFSET) {
        Some(v) => v,
        None => {
            return Decision::Abort;
        },
    };
    if ethertype == ETH_P_IP4 {
        let vihl = match read_u8(packet, IPV4_VIHL_OFFSET) {
            Some(v) => v,
            None => {
                return Decision::Abort;
            },
        };
        if vihl % 16 != IPV4_IHL_MIN {
            // An IPv4 header with options: unhandled, not a failure.
            return Decision::Pass;
        }
        let protocol = match read_u8(packet, IPV4_PROTOCOL_OFFSET) {
            Some(v) => v,
            None => {
                return Decision::Abort;
            },
        };
        if protocol != IPPROTO_UDP {
            return Decision::Pass;
        }
        let dest_port = match read_u16_be(packet, UDP_DEST_PORT_OFFSET) {
            Some(v) => v,
            None => {
                return Decision::Abort;
            },
        };
        if dest_port != port {
            return Decision::Pass;
        }
        Decision::DecodeUdp
    } else if ethertype == ETH_P_IP6 {
        // The decoder will read the last four address bytes at offset 50.
        if packet.len() < IPV6_DADDR_OFFSET + 16 {
            return Decision::Abort;
        }
        Decision::DecodeIpv6
    } else {
        Decision::Pass
    }
}

/// Process one received packet: classify it and, on a match, render its draw
/// commands into the current core's chunk table. `Err` means a structurally
/// truncated header; the canvas is untouched in that case.
pub fn try_breakwater_ebpf(packet: &Vec<u8>, port: u16, table: &mut ChunkTable) -> (r: Result<
    u32,
    (),
>)
    requires
        old(table).wf(),
    ensures
        final(table).wf(),
        r is Ok <==> !(spec_classify(packet@, port) is Abort),
        r is Ok ==> r->Ok_0 == XDP_PASS && final(table)@ == apply_commands(
            old(table)@,
            spec_packet_commands(packet@, port),
        ),
        r is Err ==> final(table)@ == old(table)@,
{
    match classify(packet, port) {
        Decision::Abort => Err(()),
        Decision::Pass => Ok(XDP_PASS),
        Decision::DecodeUdp => {
            decode_udp_commands(packet, UDP_PAYLOAD_OFFSET, table);
            Ok(XDP_PASS)
        },
        Decision::DecodeIpv6 => {
            match decode_ipv6_address(packet, IPV6_DADDR_OFFSET, table) {
                Ok(()) => {
                    proof {
                        let cmds = spec_packet_commands(packet@, port);
                        let cmd = ipv6_command(packet@, IPV6_DADDR_OFFSET as int);
                        assert(cmds == seq![cmd]);
                        assert(cmds.drop_first() =~= Seq::<DrawCommand>::empty());
                        assert(cmds[0] == cmd);
                        assert(apply_commands(
                            spec_set_pixel(old(table)@, cmd.x, cmd.y, cmd.color),
                            Seq::<DrawCommand>::empty(),
                        ) == spec_set_pixel(old(table)@, cmd.x, cmd.y, cmd.color));
                        assert(apply_commands(old(table)@, cmds) == spec_set_pixel(
                            old(table)@,
                            cmd.x,
                            cmd.y,
                            cmd.color,
                        ));
                    }
                    Ok(XDP_PASS)
                },
                Err(()) => Err(()),
            }
        },
    }
}

/// Per-packet entry point: returns the forwarding verdict for one packet and
/// renders any draw commands it carries into the current core's chunk table.
pub fn breakwater_ebpf(packet: &Vec<u8>, port: u16, table: &mut ChunkTable) -> (action: u32)
    requires
        old(table).wf(),
    ensures
        final(table).wf(),
        action == XDP_PASS || action == XDP_ABORTED,
        action == XDP_PASS <==> !(spec_classify(packet@, port) is Abort),
        action == XDP_PASS ==> final(table)@ == apply_commands(
            old(table)@,
            spec_packet_commands(packet@, port),
        ),
        action == XDP_ABORTED ==> final(table)@ == old(table)@,
{
    match try_breakwater_ebpf(packet, port, table) {
        Ok(ret) => ret,
        Err(()) => XDP_ABORTED,
    }
}

/// A packet whose EtherType is neither IPv4 nor IPv6 is passed through and
/// carries no draw commands, so the canvas does not change.
pub proof fn lemma_non_ip_is_passed_unchanged(p: Seq<u8>, port: u16, t: Seq<Seq<u32>>)
    requires
        p.len() >= ETH_PROTO_OFFSET + 2,
        be16_at(p, ETH_PROTO_OFFSET as int) != ETH_P_IP4,
        be16_at(p, ETH_PROTO_OFFSET as int) != ETH_P_IP6,
    ensures
        spec_classify(p, port) is Pass,
        apply_commands(t, spec_packet_commands(p, port)) == t,
{
}

} // verus!
