//! Command decoders.
//!
//! Two independent decoders feed the canvas. The UDP-payload scanner walks a
//! datagram in fixed nine-byte strides under a statically computed iteration
//! cap, decoding back-to-back draw commands until the payload ends or a magic
//! tag mismatches. The IPv6 decoder derives exactly one implicit command from
//! fixed byte offsets of a packet's destination address.

use vstd::prelude::*;

use crate::canvas::spec_set_pixel;
use crate::canvas::ChunkTable;
use crate::packet::be16_at;
use crate::packet::be32_at;
use crate::packet::read_u16_be;
use crate::packet::read_u32_be;

verus! {

/// Wire length of one draw command: two magic bytes, x, y, three color bytes.
pub const COMMAND_LENGTH: u32 = 9;

/// First magic byte of a draw command, the letter `P`.
pub const MAGIC_0: u8 = 0x50;

/// Second magic byte of a draw command, the letter `B`.
pub const MAGIC_1: u8 = 0x42;

/// Largest UDP payload one datagram can carry.
pub const MAX_DATAGRAM_BYTES: u32 = 65507;

/// Static cap on scanner iterations, derived from the maximum datagram size:
/// the execution environment requires every loop to carry a provable static
/// upper bound, so the scanner never relies on the payload alone to stop it.
pub const MAX_COMMANDS: u32 = MAX_DATAGRAM_BYTES / COMMAND_LENGTH + 1;

/// One decoded draw instruction: a single pixel's position and color.
pub struct DrawCommand {
    /// Pixel column.
    pub x: u16,
    /// Pixel row.
    pub y: u16,
    /// 32-bit color word.
    pub color: u32,
}

/// The 32-bit color word for payload color bytes `r`, `g`, `b`: color in the
/// high three bytes, low byte zero.
pub open spec fn spec_color_word(r: u8, g: u8, b: u8) -> u32 {
    (r * 0x1000000 + g * 0x10000 + b * 256) as u32
}

/// Whether a well-formed draw command starts at byte `off` of `p`: the full
/// nine bytes are present and the magic tag matches.
pub open spec fn is_command_at(p: Seq<u8>, off: int) -> bool {
    &&& 0 <= off
    &&& off + COMMAND_LENGTH <= p.len()
    &&& p[off] == MAGIC_0
    &&& p[off + 1] == MAGIC_1
}

/// The draw command encoded at byte `off` of `p`.
pub open spec fn command_at(p: Seq<u8>, off: int) -> DrawCommand {
    DrawCommand {
        x: be16_at(p, off + 2),
        y: be16_at(p, off + 4),
        color: spec_color_word(p[off + 6], p[off + 7], p[off + 8]),
    }
}

/// The commands a payload scan decodes starting at `off` with `fuel`
/// iterations left: commands packed back-to-back, ending at the first
/// position where the bytes run out or the magic tag mismatches, or when the
/// fuel is spent.
pub open spec fn parse_commands(p: Seq<u8>, off: int, fuel: nat) -> Seq<DrawCommand>
    decreases fuel,
{
    if fuel == 0 || !is_command_at(p, off) {
        Seq::empty()
    } else {
        seq![command_at(p, off)] + parse_commands(p, off + COMMAND_LENGTH, (fuel - 1) as nat)
    }
}

/// The chunk table after applying each command in order.
pub open spec fn apply_commands(t: Seq<Seq<u32>>, cmds: Seq<DrawCommand>) -> Seq<Seq<u32>>
    decreases cmds.len(),
{
    if cmds.len() == 0 {
        t
    } else {
        apply_commands(spec_set_pixel(t, cmds[0].x, cmds[0].y, cmds[0].color), cmds.drop_first())
    }
}

/// Applying the commands of one scan step: decoding the command at `off` and
/// going on with the rest is the same as applying the whole parse.
proof fn lemma_apply_parse_step(t: Seq<Seq<u32>>, p: Seq<u8>, off: int, fuel: nat)
    requires
        fuel > 0,
        is_command_at(p, off),
    ensures
        apply_commands(t, parse_commands(p, off, fuel)) == apply_commands(
            spec_set_pixel(t, command_at(p, off).x, command_at(p, off).y, command_at(p, off).color),
            parse_commands(p, off + COMMAND_LENGTH, (fuel - 1) as nat),
        ),
{
    let cmds = parse_commands(p, off, fuel);
    let rest = parse_commands(p, off + COMMAND_LENGTH, (fuel - 1) as nat);
    assert(cmds == seq![command_at(p, off)] + rest);
    assert(cmds[0] == command_at(p, off));
    assert(cmds.drop_first() =~= rest);
}

/// A payload that carries exactly `k` well-formed commands back-to-back from
/// `off` — each of the `k` strides holds the magic tag and its nine bytes,
/// and the stride after them does not — decodes to exactly `k` pixel writes,
/// the `j`-th being the command at stride `j`. Any UDP payload keeps `k`
/// under the static iteration cap, since `k` commands occupy `9 * k` bytes of
/// a datagram of at most `MAX_DATAGRAM_BYTES`.
pub proof fn lemma_scan_of_k_commands_decodes_k(p: Seq<u8>, off: int, k: nat)
    requires
        k < MAX_COMMANDS,
        forall|j: int| 0 <= j < k ==> #[trigger] is_command_at(p, off + j * COMMAND_LENGTH),
        !is_command_at(p, off + k * COMMAND_LENGTH),
    ensures
        parse_commands(p, off, MAX_COMMANDS as nat).len() == k,
        forall|j: int|
            0 <= j < k ==> parse_commands(p, off, MAX_COMMANDS as nat)[j] == command_at(
                p,
                off + j * COMMAND_LENGTH,
            ),
{
    lemma_parse_exact(p, off, k, MAX_COMMANDS as nat);
}

/// Induction core of the scan law, generalized over the remaining fuel.
proof fn lemma_parse_exact(p: Seq<u8>, off: int, k: nat, fuel: nat)
    requires
        k < fuel,
        forall|j: int| 0 <= j < k ==> #[trigger] is_command_at(p, off + j * COMMAND_LENGTH),
        !is_command_at(p, off + k * COMMAND_LENGTH),
    ensures
        parse_commands(p, off, fuel).len() == k,
        forall|j: int|
            0 <= j < k ==> parse_commands(p, off, fuel)[j] == command_at(
                p,
                off + j * COMMAND_LENGTH,
            ),
    decreases k,
{
    if k == 0 {
        assert(off + 0 * COMMAND_LENGTH == off);
        assert(!is_command_at(p, off));
    } else {
        assert(is_command_at(p, off + 0 * COMMAND_LENGTH));
        assert(is_command_at(p, off));
        let rest = parse_commands(p, off + COMMAND_LENGTH, (fuel - 1) as nat);
        assert(parse_commands(p, off, fuel) == seq![command_at(p, off)] + rest);
        assert(forall|j: int|
            0 <= j < k - 1 ==> #[trigger] is_command_at(p, (off + COMMAND_LENGTH) + j * COMMAND_LENGTH)) by {
            assert forall|j: int| 0 <= j < k - 1 implies #[trigger] is_command_at(
                p,
                (off + COMMAND_LENGTH) + j * COMMAND_LENGTH,
            ) by {
                assert(is_command_at(p, off + (j + 1) * COMMAND_LENGTH));
                assert(off + (j + 1) * COMMAND_LENGTH == (off + COMMAND_LENGTH) + j
                    * COMMAND_LENGTH);
            }
        }
        assert((off + COMMAND_LENGTH) + (k - 1) * COMMAND_LENGTH == off + k * COMMAND_LENGTH);
        lemma_parse_exact(p, off + COMMAND_LENGTH, (k - 1) as nat, (fuel - 1) as nat);
        assert forall|j: int| 0 <= j < k implies parse_commands(p, off, fuel)[j] == command_at(
            p,
            off + j * COMMAND_LENGTH,
        ) by {
            if j == 0 {
                assert(off + 0 * COMMAND_LENGTH == off);
            } else {
                assert(rest[j - 1] == command_at(
                    p,
                    (off + COMMAND_LENGTH) + (j - 1) * COMMAND_LENGTH,
                ));
                assert((off + COMMAND_LENGTH) + (j - 1) * COMMAND_LENGTH == off + j
                    * COMMAND_LENGTH);
            }
        }
    }
}

/// Scan a UDP payload for draw commands and render them into this core's
/// chunk table.
///
/// The scan starts at `payload_offset`, advances in `COMMAND_LENGTH` strides,
/// and attempts at most `MAX_COMMANDS` iterations. It stops at the first
/// stride whose bytes would read past the packet end or whose magic tag does
/// not match; pixels already written are kept, and neither case is an error.
pub fn decode_udp_commands(packet: &Vec<u8>, payload_offset: usize, table: &mut ChunkTable)
    requires
        old(table).wf(),
    ensures
        final(table).wf(),
        final(table)@ == apply_commands(
            old(table)@,
            parse_commands(packet@, payload_offset as int, MAX_COMMANDS as nat),
        ),
{
    let ghost target = apply_commands(
        old(table)@,
        parse_commands(packet@, payload_offset as int, MAX_COMMANDS as nat),
    );
    let mut i: u32 = 0;
    let mut off: usize = payload_offset;
    while i < MAX_COMMANDS
        invariant
            i <= MAX_COMMANDS,
            off == payload_offset + i * COMMAND_LENGTH,
            table.wf(),
            target == apply_commands(
                old(table)@,
                parse_commands(packet@, payload_offset as int, MAX_COMMANDS as nat),
            ),
            apply_commands(table@, parse_commands(packet@, off as int, (MAX_COMMANDS - i) as nat))
                == target,
        decreases MAX_COMMANDS - i,
    {
        let ghost fuel = (MAX_COMMANDS - i) as nat;
        if off > packet.len() || packet.len() - off < 9 {
            // The next command would read past the packet end: stop.
            proof {
                assert(!is_command_at(packet@, off as int));
                assert(parse_commands(packet@, off as int, fuel) =~= Seq::<DrawCommand>::empty());
            }
            return;
        }
        let magic = match read_u16_be(packet, off) {
            Some(m) => m,
            None => {
                return;
            },
        };
        if magic != (MAGIC_0 as u16) * 256 + MAGIC_1 as u16 {
            // Trailing bytes that are not a command: stop, not an error.
            proof {
                assert(!is_command_at(packet@, off as int)) by {
                    let o = off as int;
                    assert(be16_at(packet@, o) == packet@[o] * 256 + packet@[o + 1]);
                }
                assert(parse_commands(packet@, off as int, fuel) =~= Seq::<DrawCommand>::empty());
            }
            return;
        }
        assert(is_command_at(packet@, off as int));
        let x = match read_u16_be(packet, off + 2) {
            Some(v) => v,
            None => {
                return;
            },
        };
        let y = match read_u16_be(packet, off + 4) {
            Some(v) => v,
            None => {
                return;
            },
        };
        let r = packet[off + 6];
        let g = packet[off + 7];
        let b = packet[off + 8];
        let color: u32 = (r as u32) * 0x1000000 + (g as u32) * 0x10000 + (b as u32) * 256;
        proof {
            let cmd = command_at(packet@, off as int);
            assert(cmd.x == x && cmd.y == y && cmd.color == color);
            lemma_apply_parse_step(table@, packet@, off as int, fuel);
        }
        table.set_pixel(x, y, color);
        off = off + 9;
        i = i + 1;
    }
}

/// The implicit draw command encoded in the IPv6 destination address that
/// starts at byte `daddr_off`: address bytes 8-9 are x, 10-11 are y, and
/// 12-15 are the full 32-bit color, all big-endian.
pub open spec fn ipv6_command(p: Seq<u8>, daddr_off: int) -> DrawCommand {
    DrawCommand {
        x: be16_at(p, daddr_off + 8),
        y: be16_at(p, daddr_off + 10),
        color: be32_at(p, daddr_off + 12),
    }
}

/// Decode the one draw command carried by an IPv6 destination address and
/// render it into this core's chunk table.
///
/// `daddr_offset` is the packet offset of the 16-byte destination address the
/// classifier located. A read past the packet end is a structural truncation
/// of a header this path was already committed to reading, so it aborts with
/// `Err` and writes nothing.
pub fn decode_ipv6_address(packet: &Vec<u8>, daddr_offset: usize, table: &mut ChunkTable) -> (r:
    Result<(), ()>)
    requires
        old(table).wf(),
        daddr_offset + 16 <= usize::MAX,
    ensures
        final(table).wf(),
        r is Ok <==> daddr_offset + 16 <= packet@.len(),
        r is Ok ==> final(table)@ == {
            let cmd = ipv6_command(packet@, daddr_offset as int);
            spec_set_pixel(old(table)@, cmd.x, cmd.y, cmd.color)
        },
        r is Err ==> final(table)@ == old(table)@,
{
    let x = match read_u16_be(packet, daddr_offset + 8) {
        Some(v) => v,
        None => {
            return Err(());
        },
    };
    let y = match read_u16_be(packet, daddr_offset + 10) {
        Some(v) => v,
        None => {
            return Err(());
        },
    };
    let rgba = match read_u32_be(packet, daddr_offset + 12) {
        Some(v) => v,
        None => {
            return Err(());
        },
    };
    table.set_pixel(x, y, rgba);
    Ok(())
}

} // verus!
