//! Verified core of a pixel-drawing packet pipeline.
//!
//! Packets carrying draw commands — either as a sequence of fixed-length
//! instructions in a UDP payload, or encoded in an IPv6 destination address —
//! are classified, decoded, and rendered into a per-core chunked canvas that a
//! host-side aggregator reads back out and merges into one snapshot.

use vstd::prelude::*;

pub mod aggregator;
pub mod canvas;
pub mod decode;
pub mod packet;
pub mod pipeline;

pub use canvas::ChunkTable;
pub use canvas::FramebufferChunk;

verus! {

/// Canvas width in pixels, fixed for the lifetime of one attachment.
pub const WIDTH: u16 = 1920;

/// Canvas height in pixels, fixed for the lifetime of one attachment.
pub const HEIGHT: u16 = 1080;

/// Total pixels in the canvas: `WIDTH * HEIGHT`.
pub const CANVAS_PIXELS: u32 = 1920 * 1080;

/// Byte size of one canvas chunk. The hosting platform caps the size of one
/// shared-memory slot at 32768 bytes, and a chunk must fit in one slot.
pub const FRAMEBUFFER_CHUNK_SIZE_BYTES: u16 = 32768;

/// Pixels per chunk: one pixel is a 32-bit color word, four bytes.
pub const CHUNK_PIXELS: u32 = 8192;

/// Number of chunks needed to cover the whole canvas: the least count whose
/// combined pixel capacity reaches `WIDTH * HEIGHT`.
pub const TOTAL_CHUNKS: u32 = 254;

/// The chunk constants satisfy the platform constraints: a chunk's byte size
/// is a multiple of four, fills the shared-memory slot exactly, and the chunk
/// count is the least one covering the canvas.
pub proof fn lemma_chunk_constants()
    ensures
        FRAMEBUFFER_CHUNK_SIZE_BYTES % 4 == 0,
        CHUNK_PIXELS * 4 == FRAMEBUFFER_CHUNK_SIZE_BYTES,
        CANVAS_PIXELS == WIDTH * HEIGHT,
        TOTAL_CHUNKS * CHUNK_PIXELS >= CANVAS_PIXELS,
        (TOTAL_CHUNKS - 1) * CHUNK_PIXELS < CANVAS_PIXELS,
{
}

} // verus!
