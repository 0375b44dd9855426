//! Chunked canvas store.
//!
//! The canvas is a `WIDTH x HEIGHT` grid of 32-bit color words, split into
//! fixed-size chunks so that each chunk fits in one shared-memory slot and no
//! whole-canvas copy ever has to pass through a stack-limited buffer. Pixel
//! addressing is one division/modulo pair:
//! `chunk_index = pixel_index / CHUNK_PIXELS`,
//! `offset = pixel_index % CHUNK_PIXELS`.

use vstd::prelude::*;
use vstd::arithmetic::div_mod::lemma_fundamental_div_mod;
use vstd::arithmetic::div_mod::lemma_mod_bound;

use crate::CANVAS_PIXELS;
use crate::CHUNK_PIXELS;
use crate::HEIGHT;
use crate::TOTAL_CHUNKS;
use crate::WIDTH;

verus! {

/// One fixed-size block of consecutive canvas pixels; the unit in which the
/// host reads the canvas back out of shared memory.
pub struct FramebufferChunk {
    /// The chunk's pixels; always exactly `CHUNK_PIXELS` color words.
    pub pixels: Vec<u32>,
}

impl View for FramebufferChunk {
    type V = Seq<u32>;

    open spec fn view(&self) -> Seq<u32> {
        self.pixels@
    }
}

impl FramebufferChunk {
    /// A chunk is well formed when it holds exactly `CHUNK_PIXELS` pixels.
    pub open spec fn wf(&self) -> bool {
        self@.len() == CHUNK_PIXELS
    }

    /// A fresh, all-zero chunk.
    pub fn new() -> (chunk: FramebufferChunk)
        ensures
            chunk.wf(),
            forall|i: int| 0 <= i < CHUNK_PIXELS ==> chunk@[i] == 0u32,
    {
        let mut pixels: Vec<u32> = Vec::new();
        let mut i: u32 = 0;
        while i < CHUNK_PIXELS
            invariant
                i <= CHUNK_PIXELS,
                pixels@.len() == i,
                forall|j: int| 0 <= j < i ==> pixels@[j] == 0u32,
            decreases CHUNK_PIXELS - i,
        {
            pixels.push(0);
            i = i + 1;
        }
        FramebufferChunk { pixels }
    }
}

/// The linear index of pixel `(x, y)` in the canvas.
pub open spec fn spec_pixel_index(x: u16, y: u16) -> int {
    x + y * WIDTH
}

/// A well-formed chunk table covers the whole canvas: `TOTAL_CHUNKS` chunks of
/// `CHUNK_PIXELS` pixels each.
pub open spec fn table_wf(t: Seq<Seq<u32>>) -> bool {
    &&& t.len() == TOTAL_CHUNKS
    &&& forall|i: int| 0 <= i < t.len() ==> (#[trigger] t[i]).len() == CHUNK_PIXELS
}

/// The color of the pixel with linear index `pi` in chunk table `t`.
pub open spec fn table_pixel(t: Seq<Seq<u32>>, pi: int) -> u32 {
    t[pi / (CHUNK_PIXELS as int)][pi % (CHUNK_PIXELS as int)]
}

/// The chunk table after writing `color` at `(x, y)`: out-of-range coordinates
/// and chunk indexes beyond the allocated table are silently ignored.
pub open spec fn spec_set_pixel(t: Seq<Seq<u32>>, x: u16, y: u16, color: u32) -> Seq<Seq<u32>> {
    if x < WIDTH && y < HEIGHT {
        let pi = spec_pixel_index(x, y);
        let ci = pi / (CHUNK_PIXELS as int);
        let off = pi % (CHUNK_PIXELS as int);
        if 0 <= ci < t.len() && 0 <= off < t[ci].len() {
            t.update(ci, t[ci].update(off, color))
        } else {
            t
        }
    } else {
        t
    }
}

/// Chunk indexing tiles the canvas consistently: for every pixel index the
/// division/modulo pair recombines to the index itself, and the chunk index
/// stays inside the allocated table.
pub proof fn lemma_chunk_indexing(pixel_index: int)
    requires
        0 <= pixel_index < WIDTH * HEIGHT,
    ensures
        (pixel_index / (CHUNK_PIXELS as int)) * CHUNK_PIXELS + pixel_index % (CHUNK_PIXELS as int)
            == pixel_index,
        0 <= pixel_index % (CHUNK_PIXELS as int) < CHUNK_PIXELS,
        0 <= pixel_index / (CHUNK_PIXELS as int) < TOTAL_CHUNKS,
{
    lemma_fundamental_div_mod(pixel_index, CHUNK_PIXELS as int);
    lemma_mod_bound(pixel_index, CHUNK_PIXELS as int);
}

/// An in-range write changes exactly one pixel: the written pixel reads back
/// as the written color, every other in-range pixel keeps its value, and the
/// table still tiles the canvas.
pub proof fn lemma_set_pixel_frame(t: Seq<Seq<u32>>, x: u16, y: u16, color: u32)
    requires
        table_wf(t),
        x < WIDTH,
        y < HEIGHT,
    ensures
        table_wf(spec_set_pixel(t, x, y, color)),
        table_pixel(spec_set_pixel(t, x, y, color), spec_pixel_index(x, y)) == color,
        forall|pi: int|
            0 <= pi < WIDTH * HEIGHT && pi != spec_pixel_index(x, y)
                ==> #[trigger] table_pixel(spec_set_pixel(t, x, y, color), pi) == table_pixel(
                t,
                pi,
            ),
{
    let written = spec_pixel_index(x, y);
    lemma_chunk_indexing(written);
    let t2 = spec_set_pixel(t, x, y, color);
    assert forall|pi: int|
        0 <= pi < WIDTH * HEIGHT && pi != written implies #[trigger] table_pixel(t2, pi)
        == table_pixel(t, pi) by {
        lemma_chunk_indexing(pi);
        let ci = pi / (CHUNK_PIXELS as int);
        let off = pi % (CHUNK_PIXELS as int);
        let ci_w = written / (CHUNK_PIXELS as int);
        let off_w = written % (CHUNK_PIXELS as int);
        // Equal chunk and offset would recombine to equal pixel indexes.
        assert(ci * CHUNK_PIXELS + off == pi);
        assert(ci_w * CHUNK_PIXELS + off_w == written);
        assert(!(ci == ci_w && off == off_w));
    }
}

/// A write with an out-of-range coordinate changes nothing.
pub proof fn lemma_set_pixel_out_of_range(t: Seq<Seq<u32>>, x: u16, y: u16, color: u32)
    requires
        x >= WIDTH || y >= HEIGHT,
    ensures
        spec_set_pixel(t, x, y, color) == t,
{
}

/// One core's full chunk table: the ordered sequence of chunks covering the
/// canvas. Each core owns an independent instance, which is what makes
/// concurrent writers lock-free.
pub struct ChunkTable {
    /// The chunks, in canvas order.
    pub chunks: Vec<FramebufferChunk>,
}

impl View for ChunkTable {
    type V = Seq<Seq<u32>>;

    open spec fn view(&self) -> Seq<Seq<u32>> {
        self.chunks@.map_values(|c: FramebufferChunk| c@)
    }
}

impl ChunkTable {
    /// A table is well formed when its chunks tile the whole canvas.
    pub open spec fn wf(&self) -> bool {
        table_wf(self@)
    }

    /// A fresh, all-zero chunk table.
    pub fn new() -> (table: ChunkTable)
        ensures
            table.wf(),
            forall|i: int, j: int|
                0 <= i < TOTAL_CHUNKS && 0 <= j < CHUNK_PIXELS ==> table@[i][j] == 0u32,
    {
        let mut chunks: Vec<FramebufferChunk> = Vec::new();
        let mut i: u32 = 0;
        while i < TOTAL_CHUNKS
            invariant
                i <= TOTAL_CHUNKS,
                chunks@.len() == i,
                forall|k: int| 0 <= k < i ==> (#[trigger] chunks@[k]).wf(),
                forall|k: int, j: int|
                    0 <= k < i && 0 <= j < CHUNK_PIXELS ==> chunks@[k]@[j] == 0u32,
            decreases TOTAL_CHUNKS - i,
        {
            chunks.push(FramebufferChunk::new());
            i = i + 1;
        }
        ChunkTable { chunks }
    }

    /// Write `color` at `(x, y)` in this core's canvas. Out-of-range
    /// coordinates are silently ignored; in range, exactly one pixel of one
    /// chunk changes.
    pub fn set_pixel(&mut self, x: u16, y: u16, color: u32)
        requires
            old(self).wf(),
        ensures
            final(self).wf(),
            final(self)@ == spec_set_pixel(old(self)@, x, y, color),
    {
        if x >= WIDTH || y >= HEIGHT {
            return;
        }
        let pixel_index: u32 = x as u32 + y as u32 * (WIDTH as u32);
        proof {
            lemma_chunk_indexing(pixel_index as int);
        }
        let chunk_index: usize = (pixel_index / CHUNK_PIXELS) as usize;
        if chunk_index >= self.chunks.len() {
            return;
        }
        let offset: usize = (pixel_index % CHUNK_PIXELS) as usize;
        proof {
            assert(self@[chunk_index as int] == self.chunks@[chunk_index as int]@);
            assert(self@[chunk_index as int].len() == CHUNK_PIXELS);
        }
        let chunk = &mut self.chunks[chunk_index];
        chunk.pixels.set(offset, color);
        proof {
            assert(self@ =~= spec_set_pixel(old(self)@, x, y, color));
        }
    }

    /// Read the pixel with linear index `pixel_index` out of this table.
    pub fn pixel_at_index(&self, pixel_index: u32) -> (color: u32)
        requires
            self.wf(),
            pixel_index < CANVAS_PIXELS,
        ensures
            color == table_pixel(self@, pixel_index as int),
    {
        proof {
            lemma_chunk_indexing(pixel_index as int);
        }
        let chunk_index: usize = (pixel_index / CHUNK_PIXELS) as usize;
        let offset: usize = (pixel_index % CHUNK_PIXELS) as usize;
        proof {
            assert(self@[chunk_index as int] == self.chunks@[chunk_index as int]@);
            assert(self@[chunk_index as int].len() == CHUNK_PIXELS);
        }
        let chunk = &self.chunks[chunk_index];
        chunk.pixels[offset]
    }
}

} // verus!
