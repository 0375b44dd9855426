//! Tests of the chunked canvas store and the host-side aggregator.

use breakwater_ebpf::aggregator::CanvasStore;
use breakwater_ebpf::canvas::ChunkTable;
use breakwater_ebpf::CANVAS_PIXELS;
use breakwater_ebpf::CHUNK_PIXELS;
use breakwater_ebpf::FRAMEBUFFER_CHUNK_SIZE_BYTES;
use breakwater_ebpf::TOTAL_CHUNKS;

#[test]
fn chunk_constants_tile_the_canvas() {
    assert_eq!(FRAMEBUFFER_CHUNK_SIZE_BYTES % 4, 0);
    assert_eq!(CHUNK_PIXELS * 4, FRAMEBUFFER_CHUNK_SIZE_BYTES as u32);
    assert!(TOTAL_CHUNKS * CHUNK_PIXELS >= CANVAS_PIXELS);
    assert!((TOTAL_CHUNKS - 1) * CHUNK_PIXELS < CANVAS_PIXELS);
}

#[test]
fn chunk_indexing_recombines() {
    for pixel_index in [0u32, 1, 8191, 8192, 8193, 1920 * 1080 - 1] {
        let chunk_index = pixel_index / CHUNK_PIXELS;
        let offset = pixel_index % CHUNK_PIXELS;
        assert_eq!(chunk_index * CHUNK_PIXELS + offset, pixel_index);
        assert!(chunk_index < TOTAL_CHUNKS);
        assert!(offset < CHUNK_PIXELS);
    }
    // The last pixel lands in the last chunk.
    assert_eq!((1920 * 1080 - 1) / CHUNK_PIXELS, TOTAL_CHUNKS - 1);
}

#[test]
fn set_pixel_writes_one_chunk_slot() {
    let mut table = ChunkTable::new();
    table.set_pixel(1, 2, 0xFF000000);
    // pixel_index = 1 + 2 * 1920 = 3841: chunk 0, offset 3841.
    assert_eq!(table.chunks[0].pixels[3841], 0xFF000000);
    assert_eq!(table.pixel_at_index(3841), 0xFF000000);
}

#[test]
fn set_pixel_out_of_range_is_ignored() {
    let mut table = ChunkTable::new();
    table.set_pixel(1920, 0, 0xFF000000);
    table.set_pixel(0, 1080, 0xFF000000);
    table.set_pixel(65535, 65535, 0xFF000000);
    for chunk_index in 0..TOTAL_CHUNKS as usize {
        assert!(table.chunks[chunk_index].pixels.iter().all(|&v| v == 0));
    }
}

#[test]
fn last_in_range_pixel_is_writable() {
    let mut table = ChunkTable::new();
    table.set_pixel(1919, 1079, 0x01020304);
    assert_eq!(table.pixel_at_index(1920 * 1080 - 1), 0x01020304);
}

#[test]
fn read_chunk_returns_chunk_contents() {
    let mut store = CanvasStore::new(2);
    store.write(1, 5, 0, 0xAB000000);
    let chunk = store.read_chunk(1, 0).unwrap();
    assert_eq!(chunk.len(), CHUNK_PIXELS as usize);
    assert_eq!(chunk[5], 0xAB000000);
    // The other core's shard is untouched.
    let other = store.read_chunk(0, 0).unwrap();
    assert!(other.iter().all(|&v| v == 0));
}

#[test]
fn read_chunk_out_of_range_is_none() {
    let store = CanvasStore::new(1);
    assert!(store.read_chunk(1, 0).is_none());
    assert!(store.read_chunk(0, TOTAL_CHUNKS as usize).is_none());
    assert!(store.read_chunk(0, TOTAL_CHUNKS as usize - 1).is_some());
}

#[test]
fn load_chunk_round_trips() {
    let mut store = CanvasStore::new(1);
    let mut contents = store.read_chunk(0, 3).unwrap();
    contents[7] = 0x0BADF00D;
    assert!(store.load_chunk(0, 3, &contents));
    assert_eq!(store.read_chunk(0, 3).unwrap()[7], 0x0BADF00D);
    // Contents that are not exactly one chunk are ignored.
    assert!(!store.load_chunk(0, 3, &vec![0u32; 7]));
    assert!(!store.load_chunk(1, 3, &contents));
    assert_eq!(store.read_chunk(0, 3).unwrap()[7], 0x0BADF00D);
}

#[test]
fn merge_prefers_first_core_with_non_zero_value() {
    let mut store = CanvasStore::new(3);
    store.write(0, 5, 5, 0xAA000000);
    store.write(1, 5, 5, 0xBB000000);
    store.write(2, 9, 5, 0xCC000000);
    let canvas = store.merge_canvas();
    assert_eq!(canvas.len(), CANVAS_PIXELS as usize);
    let merged = canvas[5 + 5 * 1920];
    // Never a value other than one of the written colors.
    assert!(merged == 0xAA000000 || merged == 0xBB000000);
    // The fixed core-priority rule makes the choice deterministic.
    assert_eq!(merged, 0xAA000000);
    // A pixel only one core wrote keeps that core's value.
    assert_eq!(canvas[9 + 5 * 1920], 0xCC000000);
    // A pixel nobody wrote stays zero.
    assert_eq!(canvas[0], 0);
}

#[test]
fn merge_skips_zero_values_of_earlier_cores() {
    let mut store = CanvasStore::new(2);
    store.write(1, 3, 3, 0xDEADBEEF);
    let canvas = store.merge_canvas();
    assert_eq!(canvas[3 + 3 * 1920], 0xDEADBEEF);
}

#[test]
fn fresh_store_merges_to_zero() {
    let store = CanvasStore::new(2);
    let canvas = store.merge_canvas();
    assert!(canvas.iter().all(|&v| v == 0));
}
