use vstd::prelude::*;
use crate::block::Block;
use crate::consts::{coord_fits, CHUNK_PIXELS};
use crate::point::Point;
use crate::tile::Tile;

verus! {

/// The pixel rectangle that a chunk covers: its corner nearest the origin and
/// the corner opposite.
pub open spec fn bounds_of(pos: (usize, usize)) -> (Point, Point) {
    (
        Point { x: (pos.0 * CHUNK_PIXELS) as usize, y: (pos.1 * CHUNK_PIXELS) as usize },
        Point {
            x: (pos.0 * CHUNK_PIXELS + CHUNK_PIXELS) as usize,
            y: (pos.1 * CHUNK_PIXELS + CHUNK_PIXELS) as usize,
        },
    )
}

/// Computes [`bounds_of`].
pub fn compute_bounds(pos: (usize, usize)) -> (b: (Point, Point))
    requires
        coord_fits(pos.0),
        coord_fits(pos.1),
    ensures
        b == bounds_of(pos),
{
    let min_x: usize = pos.0 * CHUNK_PIXELS;
    let min_y: usize = pos.1 * CHUNK_PIXELS;
    (Point { x: min_x, y: min_y }, Point { x: min_x + CHUNK_PIXELS, y: min_y + CHUNK_PIXELS })
}

/// A square block of terrain with the objects that stand on it: the unit of
/// generation, streaming and recycling.
#[derive(Debug)]
pub struct Chunk {
    pub tiles: Vec<Tile>,
    pub blocks: Vec<Block>,
    pub pos: (usize, usize),
    pub bounds: (Point, Point),
}

impl Chunk {
    /// The chunk's coordinates are within the machine's reach and its bounds
    /// are those of its coordinates.
    pub open spec fn wf(&self) -> bool {
        &&& coord_fits(self.pos.0)
        &&& coord_fits(self.pos.1)
        &&& self.bounds == bounds_of(self.pos)
    }

    /// Whether the chunk holds neither tiles nor objects.
    pub open spec fn is_vacant(&self) -> bool {
        self.tiles@.len() == 0 && self.blocks@.len() == 0
    }

    /// Whether `self` is `other` emptied of its tiles and objects.
    pub open spec fn vacated_from(&self, other: &Chunk) -> bool {
        &&& self.is_vacant()
        &&& self.pos == other.pos
        &&& self.bounds == other.bounds
    }

    /// An empty chunk at the given chunk coordinates.
    pub fn new(pos: (usize, usize)) -> (chunk: Chunk)
        requires
            coord_fits(pos.0),
            coord_fits(pos.1),
        ensures
            chunk.wf(),
            chunk.is_vacant(),
            chunk.pos == pos,
    {
        Chunk { tiles: Vec::new(), blocks: Vec::new(), pos, bounds: compute_bounds(pos) }
    }

    /// Moves the chunk to other chunk coordinates, bounds included. Its tiles
    /// and objects stay as they are.
    pub fn relocate(&mut self, pos: (usize, usize))
        requires
            coord_fits(pos.0),
            coord_fits(pos.1),
        ensures
            final(self).wf(),
            final(self).pos == pos,
            final(self).tiles == old(self).tiles,
            final(self).blocks == old(self).blocks,
    {
        self.pos = pos;
        self.bounds = compute_bounds(pos);
    }
}

/// A bounded stock of vacated chunks, kept for reuse.
pub struct ChunkPool {
    available: Vec<Chunk>,
    max_size: usize,
}

impl ChunkPool {
    /// The pooled chunks, the next to be handed out last.
    pub closed spec fn chunks(&self) -> Seq<Chunk> {
        self.available@
    }

    /// The most chunks that the pool holds.
    pub closed spec fn capacity(&self) -> usize {
        self.max_size
    }

    /// The pool holds no more chunks than its capacity, and each of them is
    /// vacant.
    pub open spec fn wf(&self) -> bool {
        &&& self.chunks().len() <= self.capacity()
        &&& forall|i: int| 0 <= i < self.chunks().len() ==> (#[trigger] self.chunks()[i]).is_vacant()
    }

    /// What `return_chunk` leaves of a pool holding `before` when `chunk`
    /// comes back: the chunk, vacated, joins at the end while there is room.
    pub open spec fn after_return(
        before: Seq<Chunk>,
        capacity: usize,
        chunk: Chunk,
        after: Seq<Chunk>,
    ) -> bool {
        if before.len() < capacity {
            &&& after.len() == before.len() + 1
            &&& after.drop_last() == before
            &&& after.last().vacated_from(&chunk)
        } else {
            after == before
        }
    }

    /// What returning the chunks of `released`, one after the other, leaves
    /// of a pool holding `before`: the pool keeps what it held, and the
    /// chunks that came back while there was room follow in their order,
    /// each vacated.
    pub open spec fn absorbed(
        before: Seq<Chunk>,
        capacity: usize,
        released: Seq<Chunk>,
        after: Seq<Chunk>,
    ) -> bool {
        let room = capacity - before.len();
        let taken = if released.len() <= room {
            released.len() as int
        } else {
            room
        };
        &&& after.len() == before.len() + taken
        &&& forall|i: int| 0 <= i < before.len() ==> #[trigger] after[i] == before[i]
        &&& forall|j: int|
            0 <= j < taken ==> (#[trigger] after[before.len() + j]).vacated_from(&released[j])
    }

    /// A pool that has absorbed some chunks and then takes back one more has
    /// absorbed them all.
    pub proof fn lemma_absorb_one(
        before: Seq<Chunk>,
        capacity: usize,
        released: Seq<Chunk>,
        mid: Seq<Chunk>,
        chunk: Chunk,
        after: Seq<Chunk>,
    )
        requires
            before.len() <= capacity,
            ChunkPool::absorbed(before, capacity, released, mid),
            ChunkPool::after_return(mid, capacity, chunk, after),
        ensures
            ChunkPool::absorbed(before, capacity, released.push(chunk), after),
    {
        let room = capacity - before.len();
        let all = released.push(chunk);
        if mid.len() < capacity {
            assert(after.drop_last() == mid);
            assert forall|i: int| 0 <= i < before.len() implies #[trigger] after[i]
                == before[i] by {
                assert(after[i] == after.drop_last()[i]);
            }
            assert forall|j: int| 0 <= j < all.len() implies (#[trigger] after[before.len()
                + j]).vacated_from(&all[j]) by {
                if j < released.len() {
                    assert(after[before.len() + j] == after.drop_last()[before.len() + j]);
                    assert(mid[before.len() + j].vacated_from(&released[j]));
                }
            }
        } else {
            assert forall|j: int| 0 <= j < room implies (#[trigger] after[before.len()
                + j]).vacated_from(&all[j]) by {
                assert(mid[before.len() + j].vacated_from(&released[j]));
            }
        }
    }

    /// A pool within its capacity stays within it whatever comes back, and a
    /// full pool stays as it is.
    pub proof fn lemma_pool_stays_bounded(
        before: Seq<Chunk>,
        capacity: usize,
        released: Seq<Chunk>,
        after: Seq<Chunk>,
    )
        requires
            before.len() <= capacity,
            ChunkPool::absorbed(before, capacity, released, after),
        ensures
            after.len() <= capacity,
            before.len() == capacity ==> after == before,
    {
        if before.len() == capacity {
            assert(after =~= before);
        }
    }

    /// An empty pool that will hold up to `max_size` chunks.
    pub fn new(max_size: usize) -> (pool: ChunkPool)
        ensures
            pool.wf(),
            pool.chunks() == Seq::<Chunk>::empty(),
            pool.capacity() == max_size,
    {
        ChunkPool { available: Vec::with_capacity(max_size), max_size }
    }

    /// Takes the most recently pooled chunk, if there is one.
    pub fn get_chunk(&mut self) -> (r: Option<Chunk>)
        requires
            old(self).wf(),
        ensures
            final(self).wf(),
            final(self).capacity() == old(self).capacity(),
            old(self).chunks().len() == 0 ==> r is None
                && final(self).chunks() == old(self).chunks(),
            old(self).chunks().len() > 0 ==> r == Some(old(self).chunks().last())
                && final(self).chunks() == old(self).chunks().drop_last(),
            r matches Some(chunk) ==> chunk.is_vacant(),
    {
        let r = self.available.pop();
        proof {
            if old(self).chunks().len() > 0 {
                assert(self.chunks() =~= old(self).chunks().drop_last());
                assert(old(self).chunks().last().is_vacant());
            }
        }
        r
    }

    /// Takes a chunk back. It is emptied of its tiles and objects; it joins
    /// the pool while the pool has room, and is dropped otherwise.
    pub fn return_chunk(&mut self, chunk: Chunk)
        requires
            old(self).wf(),
        ensures
            final(self).wf(),
            final(self).capacity() == old(self).capacity(),
            ChunkPool::after_return(
                old(self).chunks(),
                old(self).capacity(),
                chunk,
                final(self).chunks(),
            ),
    {
        let mut chunk = chunk;
        chunk.tiles.clear();
        chunk.blocks.clear();
        if self.available.len() < self.max_size {
            self.available.push(chunk);
            proof {
                assert(self.chunks().drop_last() =~= old(self).chunks());
                assert forall|i: int| 0 <= i < self.chunks().len() implies (
                #[trigger] self.chunks()[i]).is_vacant() by {
                    if i < old(self).chunks().len() {
                        assert(old(self).chunks()[i].is_vacant());
                    }
                }
            }
        }
    }

    /// How many chunks are pooled.
    pub fn available_chunks(&self) -> (n: usize)
        ensures
            n == self.chunks().len(),
    {
        self.available.len()
    }

    /// Whether the pool has no room left.
    pub fn is_full(&self) -> (full: bool)
        ensures
            full == (self.chunks().len() >= self.capacity()),
    {
        self.available.len() >= self.max_size
    }
}

} // verus!
