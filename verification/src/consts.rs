use vstd::prelude::*;

verus! {

/// Upper bound on the number of chunks that stay active after a cleanup.
pub const MAX_CHUNKS: usize = 32;

/// Number of cells along one side of a chunk.
pub const CHUNK_SIZE: usize = 16;

/// Radius, in chunks, of the disc around the focus chunk that is kept active.
pub const RENDER_DISTANCE: usize = 2;

/// Side of the world, in cells.
pub const WORLD_SIZE: usize = 1024;

/// Side of the backdrop world shown behind the menu, in cells.
pub const MENU_WORLD_SIZE: usize = 48;

/// Side of one cell, in pixels.
pub const TILE_SIZE: usize = 32;

/// Side of one chunk, in pixels.
pub const CHUNK_PIXELS: usize = 512;

/// Capacity of each object pool.
pub const BLOCK_CACHE: usize = 32;

/// Whether a chunk coordinate is small enough for every pixel position inside
/// the chunk to fit in a machine word.
pub open spec fn coord_fits(c: usize) -> bool {
    c * CHUNK_PIXELS + CHUNK_PIXELS <= usize::MAX
}

/// Executable test of [`coord_fits`].
pub fn check_coord(c: usize) -> (ok: bool)
    ensures
        ok == coord_fits(c),
{
    c <= usize::MAX / CHUNK_PIXELS - 1
}

} // verus!
