//! Per-core canvas store and host-side aggregator.
//!
//! Each execution core owns an independent chunk table, so concurrent
//! writers never touch the same memory and need no locks. The host
//! periodically reads every chunk of every core back out of shared memory
//! and merges the per-core canvases into one snapshot. The merge rule is
//! deterministic: for each pixel, the first core in core order whose value is
//! non-zero wins; if every core holds zero, the merged pixel is zero.

use vstd::prelude::*;

use crate::canvas::spec_set_pixel;
use crate::canvas::table_pixel;
use crate::canvas::table_wf;
use crate::canvas::ChunkTable;
use crate::CANVAS_PIXELS;
use crate::CHUNK_PIXELS;
use crate::TOTAL_CHUNKS;

verus! {

/// A well-formed store: every core's chunk table tiles the whole canvas.
pub open spec fn store_wf(s: Seq<Seq<Seq<u32>>>) -> bool {
    forall|c: int| 0 <= c < s.len() ==> table_wf(#[trigger] s[c])
}

/// The merged value of pixel `pi` considering cores `core ..`: the first of
/// those cores holding a non-zero value, else zero.
pub open spec fn merged_from(s: Seq<Seq<Seq<u32>>>, core: int, pi: int) -> u32
    decreases s.len() - core,
{
    if core < 0 || core >= s.len() {
        0u32
    } else if table_pixel(s[core], pi) != 0u32 {
        table_pixel(s[core], pi)
    } else {
        merged_from(s, core + 1, pi)
    }
}

/// The merged value of pixel `pi` over all cores.
pub open spec fn merged_pixel(s: Seq<Seq<Seq<u32>>>, pi: int) -> u32 {
    merged_from(s, 0, pi)
}

/// The per-core sharded canvas: one independent chunk table per execution
/// core, addressable by `(core, chunk_index)`.
pub struct CanvasStore {
    /// One chunk table per core, indexed by core id.
    pub tables: Vec<ChunkTable>,
}

impl View for CanvasStore {
    type V = Seq<Seq<Seq<u32>>>;

    open spec fn view(&self) -> Seq<Seq<Seq<u32>>> {
        self.tables@.map_values(|t: ChunkTable| t@)
    }
}

impl CanvasStore {
    /// A store is well formed when every core's table is.
    pub open spec fn wf(&self) -> bool {
        store_wf(self@)
    }

    /// A fresh store with one zeroed chunk table per core.
    pub fn new(num_cores: usize) -> (store: CanvasStore)
        ensures
            store.wf(),
            store@.len() == num_cores,
            forall|c: int, i: int, j: int|
                0 <= c < num_cores && 0 <= i < TOTAL_CHUNKS && 0 <= j < CHUNK_PIXELS
                    ==> store@[c][i][j] == 0u32,
    {
        let mut tables: Vec<ChunkTable> = Vec::new();
        let mut c: usize = 0;
        while c < num_cores
            invariant
                c <= num_cores,
                tables@.len() == c,
                forall|k: int| 0 <= k < c ==> table_wf(#[trigger] tables@[k]@),
                forall|k: int, i: int, j: int|
                    0 <= k < c && 0 <= i < TOTAL_CHUNKS && 0 <= j < CHUNK_PIXELS
                        ==> tables@[k]@[i][j] == 0u32,
            decreases num_cores - c,
        {
            tables.push(ChunkTable::new());
            c = c + 1;
        }
        CanvasStore { tables }
    }

    /// Write `color` at `(x, y)` in `core`'s shard; no other shard changes.
    pub fn write(&mut self, core: usize, x: u16, y: u16, color: u32)
        requires
            old(self).wf(),
            core < old(self)@.len(),
        ensures
            final(self).wf(),
            final(self)@ == old(self)@.update(
                core as int,
                spec_set_pixel(old(self)@[core as int], x, y, color),
            ),
    {
        proof {
            assert(self@[core as int] == self.tables@[core as int]@);
        }
        let table = &mut self.tables[core];
        table.set_pixel(x, y, color);
        proof {
            assert(self@ =~= old(self)@.update(
                core as int,
                spec_set_pixel(old(self)@[core as int], x, y, color),
            ));
        }
    }

    /// Read one chunk of one core's shard, non-destructively: `None` exactly
    /// when the core or chunk index is out of range.
    pub fn read_chunk(&self, core: usize, chunk_index: usize) -> (r: Option<Vec<u32>>)
        requires
            self.wf(),
        ensures
            r is Some <==> core < self@.len() && chunk_index < TOTAL_CHUNKS,
            r is Some ==> r->0@ == self@[core as int][chunk_index as int],
    {
        if core >= self.tables.len() {
            return None;
        }
        proof {
            assert(self@[core as int] == self.tables@[core as int]@);
            assert(table_wf(self@[core as int]));
        }
        let table = &self.tables[core];
        if chunk_index >= table.chunks.len() {
            return None;
        }
        let chunk = &table.chunks[chunk_index];
        proof {
            assert(table@[chunk_index as int] == table.chunks@[chunk_index as int]@);
        }
        let mut out: Vec<u32> = Vec::new();
        let mut i: usize = 0;
        while i < chunk.pixels.len()
            invariant
                i <= chunk.pixels@.len(),
                out@.len() == i,
                forall|j: int| 0 <= j < i ==> out@[j] == chunk.pixels@[j],
            decreases chunk.pixels@.len() - i,
        {
            out.push(chunk.pixels[i]);
            i = i + 1;
        }
        proof {
            assert(out@ =~= self@[core as int][chunk_index as int]);
        }
        Some(out)
    }

    /// Replace one chunk of one core's shard with contents read back from
    /// shared memory. Returns whether the store changed: an out-of-range core
    /// or chunk index, or contents that are not exactly one chunk, are
    /// ignored.
    pub fn load_chunk(&mut self, core: usize, chunk_index: usize, pixels: &Vec<u32>) -> (loaded:
        bool)
        requires
            old(self).wf(),
        ensures
            final(self).wf(),
            loaded <==> core < old(self)@.len() && chunk_index < TOTAL_CHUNKS && pixels@.len()
                == CHUNK_PIXELS,
            loaded ==> final(self)@ == old(self)@.update(
                core as int,
                old(self)@[core as int].update(chunk_index as int, pixels@),
            ),
            !loaded ==> final(self)@ == old(self)@,
    {
        if core >= self.tables.len() {
            return false;
        }
        proof {
            assert(self@[core as int] == self.tables@[core as int]@);
            assert(table_wf(self@[core as int]));
        }
        let num_chunks = {
            let table = &self.tables[core];
            table.chunks.len()
        };
        if chunk_index >= num_chunks {
            return false;
        }
        if pixels.len() != CHUNK_PIXELS as usize {
            return false;
        }
        let table = &mut self.tables[core];
        proof {
            assert(table@[chunk_index as int] == table.chunks@[chunk_index as int]@);
        }
        let chunk = &mut table.chunks[chunk_index];
        let mut fresh: Vec<u32> = Vec::new();
        let mut i: usize = 0;
        while i < pixels.len()
            invariant
                i <= pixels@.len(),
                fresh@.len() == i,
                forall|j: int| 0 <= j < i ==> fresh@[j] == pixels@[j],
            decreases pixels@.len() - i,
        {
            fresh.push(pixels[i]);
            i = i + 1;
        }
        proof {
            assert(fresh@ =~= pixels@);
        }
        chunk.pixels = fresh;
        proof {
            assert(self@ =~~= old(self)@.update(
                core as int,
                old(self)@[core as int].update(chunk_index as int, pixels@),
            ));
        }
        true
    }

    /// The merged value of one pixel across all cores, by the fixed
    /// core-priority rule.
    pub fn merged_pixel_at(&self, pixel_index: u32) -> (color: u32)
        requires
            self.wf(),
            pixel_index < CANVAS_PIXELS,
        ensures
            color == merged_pixel(self@, pixel_index as int),
    {
        let num_cores = self.tables.len();
        let mut core: usize = 0;
        let mut result: u32 = 0;
        let mut found: bool = false;
        while core < num_cores
            invariant
                self.wf(),
                pixel_index < CANVAS_PIXELS,
                num_cores == self@.len(),
                core <= num_cores,
                !found ==> result == 0 && merged_pixel(self@, pixel_index as int) == merged_from(
                    self@,
                    core as int,
                    pixel_index as int,
                ),
                found ==> result == merged_pixel(self@, pixel_index as int),
            decreases num_cores - core,
        {
            if !found {
                proof {
                    assert(self@[core as int] == self.tables@[core as int]@);
                    assert(table_wf(self@[core as int]));
                }
                let table = &self.tables[core];
                let v = table.pixel_at_index(pixel_index);
                if v != 0 {
                    result = v;
                    found = true;
                }
            }
            core = core + 1;
        }
        result
    }

    /// Produce one merged canvas snapshot: pixel `pi` of the result is the
    /// merged value of pixel `pi` across all cores.
    pub fn merge_canvas(&self) -> (canvas: Vec<u32>)
        requires
            self.wf(),
        ensures
            canvas@.len() == CANVAS_PIXELS,
            forall|pi: int|
                0 <= pi < CANVAS_PIXELS ==> canvas@[pi] == merged_pixel(self@, pi),
    {
        let mut canvas: Vec<u32> = Vec::new();
        let mut pi: u32 = 0;
        while pi < CANVAS_PIXELS
            invariant
                self.wf(),
                pi <= CANVAS_PIXELS,
                canvas@.len() == pi,
                forall|q: int| 0 <= q < pi ==> canvas@[q] == merged_pixel(self@, q),
            decreases CANVAS_PIXELS - pi,
        {
            canvas.push(self.merged_pixel_at(pi));
            pi = pi + 1;
        }
        canvas
    }
}

/// The merge never makes a pixel value up: whatever interleaving of per-core
/// writes produced the store, the merged value of an in-range pixel is some
/// core's value for that pixel, so concurrent writers can only ever surface
/// one of the colors actually written.
pub proof fn lemma_merged_pixel_is_some_cores_value(s: Seq<Seq<Seq<u32>>>, pi: int)
    requires
        s.len() > 0,
    ensures
        exists|c: int| 0 <= c < s.len() && merged_pixel(s, pi) == table_pixel(s[c], pi),
{
    lemma_merged_from_is_some_cores_value(s, 0, pi);
}

/// Helper for the merge lemma: the merged value over cores `core ..` is the
/// pixel value of one of those cores.
proof fn lemma_merged_from_is_some_cores_value(s: Seq<Seq<Seq<u32>>>, core: int, pi: int)
    requires
        0 <= core < s.len(),
    ensures
        exists|c: int| core <= c < s.len() && merged_from(s, core, pi) == table_pixel(s[c], pi),
    decreases s.len() - core,
{
    if table_pixel(s[core], pi) != 0u32 {
        assert(merged_from(s, core, pi) == table_pixel(s[core], pi));
    } else if core + 1 < s.len() {
        lemma_merged_from_is_some_cores_value(s, core + 1, pi);
        assert(merged_from(s, core, pi) == merged_from(s, core + 1, pi));
    } else {
        assert(merged_from(s, core + 1, pi) == 0u32);
        assert(merged_from(s, core, pi) == table_pixel(s[core], pi));
    }
}

} // verus!
