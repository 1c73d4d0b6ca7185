use vstd::prelude::*;
use crate::chunk::{Chunk, ChunkPool};
use crate::consts::{coord_fits, CHUNK_PIXELS, CHUNK_SIZE, MAX_CHUNKS, RENDER_DISTANCE};
use crate::generator::WorldGenerator;
use crate::noise::NoiseType;
use crate::point::Point;
use crate::sample::Sample;
use crate::sorting::{farthest_first, lemma_farthest_first_keeps, sort_farthest_first};

verus! {

/// The square of the straight-line distance between two grid points.
pub open spec fn dist_sq(a: (usize, usize), b: (usize, usize)) -> int {
    (a.0 - b.0) * (a.0 - b.0) + (a.1 - b.1) * (a.1 - b.1)
}

/// Whether `pos` lies within `distance` of `focus`, in a straight line.
pub open spec fn near(pos: (usize, usize), focus: (usize, usize), distance: usize) -> bool {
    dist_sq(pos, focus) <= distance * distance
}

/// The chunks that lie within `distance` of `focus`.
pub open spec fn is_near(focus: (usize, usize), distance: usize) -> spec_fn(Chunk) -> bool {
    |chunk: Chunk| near(chunk.pos, focus, distance)
}

/// The chunks that lie farther than `distance` from `focus`.
pub open spec fn is_far(focus: (usize, usize), distance: usize) -> spec_fn(Chunk) -> bool {
    |chunk: Chunk| !near(chunk.pos, focus, distance)
}

/// Whether one of `chunks` stands at `pos`.
pub open spec fn has_chunk_at(chunks: Seq<Chunk>, pos: (usize, usize)) -> bool {
    exists|i: int| 0 <= i < chunks.len() && (#[trigger] chunks[i]).pos == pos
}

/// Whether no two of `chunks` stand at the same coordinates.
pub open spec fn distinct_positions(chunks: Seq<Chunk>) -> bool {
    forall|i: int, j: int|
        0 <= i < chunks.len() && 0 <= j < chunks.len() && i != j ==> (#[trigger] chunks[i]).pos != (
        #[trigger] chunks[j]).pos
}

/// Grid points whose coordinates are below 2^63 are close enough for the
/// square of their distance to fit in 128 bits.
pub proof fn lemma_dist_sq_fits(a: (usize, usize), b: (usize, usize))
    requires
        a.0 <= 0x8000_0000_0000_0000,
        a.1 <= 0x8000_0000_0000_0000,
        b.0 <= 0x8000_0000_0000_0000,
        b.1 <= 0x8000_0000_0000_0000,
    ensures
        0 <= dist_sq(a, b) <= u128::MAX,
{
    let dx = a.0 - b.0;
    let dy = a.1 - b.1;
    assert(0 <= dx * dx <= 0x8000_0000_0000_0000 * 0x8000_0000_0000_0000) by (nonlinear_arith)
        requires
            -0x8000_0000_0000_0000 <= dx <= 0x8000_0000_0000_0000,
    ;
    assert(0 <= dy * dy <= 0x8000_0000_0000_0000 * 0x8000_0000_0000_0000) by (nonlinear_arith)
        requires
            -0x8000_0000_0000_0000 <= dy <= 0x8000_0000_0000_0000,
    ;
}

/// The square of the straight-line distance between two grid points.
pub fn distance_squared(a: (usize, usize), b: (usize, usize)) -> (d: u128)
    requires
        dist_sq(a, b) <= u128::MAX,
    ensures
        d == dist_sq(a, b),
{
    let dx: u128 = if a.0 >= b.0 {
        (a.0 - b.0) as u128
    } else {
        (b.0 - a.0) as u128
    };
    let dy: u128 = if a.1 >= b.1 {
        (a.1 - b.1) as u128
    } else {
        (b.1 - a.1) as u128
    };
    proof {
        let ex = a.0 - b.0;
        let ey = a.1 - b.1;
        assert(dx * dx == ex * ex && ex * ex >= 0) by (nonlinear_arith)
            requires
                dx == ex || dx == -ex,
        ;
        assert(dy * dy == ey * ey && ey * ey >= 0) by (nonlinear_arith)
            requires
                dy == ey || dy == -ey,
        ;
    }
    dx * dx + dy * dy
}

/// Whether `pos` lies within `distance` of `focus`.
pub fn is_within(pos: (usize, usize), focus: (usize, usize), distance: usize) -> (r: bool)
    requires
        dist_sq(pos, focus) <= u128::MAX,
    ensures
        r == near(pos, focus, distance),
{
    let reach: u128 = distance as u128;
    proof {
        assert(0 <= reach * reach <= 0xFFFF_FFFF_FFFF_FFFF * 0xFFFF_FFFF_FFFF_FFFF)
            by (nonlinear_arith)
            requires
                0 <= reach <= 0xFFFF_FFFF_FFFF_FFFF,
        ;
    }
    distance_squared(pos, focus) <= reach * reach
}

/// Number of chunk coordinates that one materialization pass looks at: the
/// square of five by five around the focus chunk.
pub const NEIGHBOURHOOD: usize = 25;

/// Whether a focus coordinate leaves room for two more chunks beyond it
/// within the machine's reach.
pub open spec fn focus_fits(c: usize) -> bool {
    (c + 2) * CHUNK_PIXELS + CHUNK_PIXELS <= usize::MAX
}

/// The `k`-th coordinate pair of the neighbourhood of `focus`, row by row
/// from two rows above and two columns to the left. A coordinate may be
/// negative here.
pub open spec fn candidate(focus: (usize, usize), k: int) -> (int, int) {
    (focus.0 + k % 5 - 2, focus.1 + k / 5 - 2)
}

/// Whether the `k`-th candidate is wanted: it lies within `distance` of the
/// focus and is on the grid.
pub open spec fn is_wanted(focus: (usize, usize), distance: usize, k: int) -> bool {
    let dx = k % 5 - 2;
    let dy = k / 5 - 2;
    &&& dx * dx + dy * dy <= distance * distance
    &&& focus.0 + dx >= 0
    &&& focus.1 + dy >= 0
}

/// The `k`-th candidate as grid coordinates.
pub open spec fn wanted_pos(focus: (usize, usize), k: int) -> (usize, usize) {
    (candidate(focus, k).0 as usize, candidate(focus, k).1 as usize)
}

/// A pool without the chunk that it would hand out next.
pub open spec fn without_last(pool: Seq<Chunk>) -> Seq<Chunk> {
    if pool.len() > 0 {
        pool.drop_last()
    } else {
        pool
    }
}

/// The chunk that a pixel position lies in.
pub open spec fn chunk_of(pos: Point) -> (usize, usize) {
    (pos.x / CHUNK_PIXELS, pos.y / CHUNK_PIXELS)
}

/// The chunks that a cleanup takes off the end of a run, in the order in
/// which it takes them: the last one first.
pub open spec fn cut_off(run: Seq<Chunk>, keep: int) -> Seq<Chunk> {
    Seq::new((run.len() - keep) as nat, |j: int| run[run.len() - 1 - j])
}

/// A grid point within two of `focus` is one of the candidates around it, and
/// is wanted at distance two.
pub proof fn lemma_near_is_wanted(pos: (usize, usize), focus: (usize, usize)) -> (k: int)
    requires
        near(pos, focus, 2),
    ensures
        0 <= k < NEIGHBOURHOOD,
        is_wanted(focus, 2, k),
        wanted_pos(focus, k) == pos,
{
    let dx = pos.0 - focus.0;
    let dy = pos.1 - focus.1;
    assert(-2 <= dx <= 2 && -2 <= dy <= 2) by (nonlinear_arith)
        requires
            dx * dx + dy * dy <= 4,
    ;
    let k = (dy + 2) * 5 + (dx + 2);
    assert(k % 5 == dx + 2 && k / 5 == dy + 2);
    k
}

/// Chunks at distinct coordinates that all lie within two of one grid point
/// are at most twenty-five.
pub proof fn lemma_near_chunks_are_few(chunks: Seq<Chunk>, focus: (usize, usize))
    requires
        distinct_positions(chunks),
        forall|i: int| 0 <= i < chunks.len() ==> near((#[trigger] chunks[i]).pos, focus, 2),
    ensures
        chunks.len() <= NEIGHBOURHOOD,
{
    let slot = |i: int| (chunks[i].pos.1 - focus.1 + 2) * 5 + (chunks[i].pos.0 - focus.0 + 2);
    let slots = Seq::new(chunks.len(), slot);
    assert forall|i: int| 0 <= i < chunks.len() implies 0 <= #[trigger] slots[i] < 25 && slots[i]
        % 5 == chunks[i].pos.0 - focus.0 + 2 && slots[i] / 5 == chunks[i].pos.1 - focus.1 + 2 by {
        let k = lemma_near_is_wanted(chunks[i].pos, focus);
        let dx = chunks[i].pos.0 - focus.0;
        let dy = chunks[i].pos.1 - focus.1;
        assert(-2 <= dx <= 2 && -2 <= dy <= 2) by (nonlinear_arith)
            requires
                dx * dx + dy * dy <= 4,
        ;
    }
    assert(slots.no_duplicates()) by {
        assert forall|i: int, j: int|
            0 <= i < slots.len() && 0 <= j < slots.len() && i != j implies slots[i]
            != slots[j] by {
            if slots[i] == slots[j] {
                assert(chunks[i].pos.0 == chunks[j].pos.0);
                assert(chunks[i].pos.1 == chunks[j].pos.1);
                assert(chunks[i].pos == chunks[j].pos);
            }
        }
    }
    slots.unique_seq_to_set();
    vstd::set_lib::lemma_int_range(0, 25);
    assert(slots.to_set().subset_of(vstd::set_lib::set_int_range(0, 25))) by {
        assert forall|v: int| slots.to_set().contains(v) implies vstd::set_lib::set_int_range(
            0,
            25,
        ).contains(v) by {
            let i = choose|i: int| 0 <= i < slots.len() && slots[i] == v;
            assert(0 <= slots[i] < 25);
        }
    }
    vstd::set_lib::lemma_len_subset(slots.to_set(), vstd::set_lib::set_int_range(0, 25));
}

/// The active chunks of a world and the pool that vacated chunks go to.
pub struct World {
    pub chunks: Vec<Chunk>,
    pub width: usize,
    pub height: usize,
    pub chunk_pool: ChunkPool,
}

impl World {
    /// Every active chunk is in order, no two stand at the same coordinates,
    /// and the pool is in order.
    pub open spec fn wf(&self) -> bool {
        &&& self.chunk_pool.wf()
        &&& forall|i: int| 0 <= i < self.chunks@.len() ==> (#[trigger] self.chunks@[i]).wf()
        &&& distinct_positions(self.chunks@)
    }

    /// A world of the given size in cells, with no active chunk and an empty
    /// pool for up to [`MAX_CHUNKS`] chunks.
    pub fn new(width: usize, height: usize) -> (world: World)
        ensures
            world.wf(),
            world.width == width,
            world.height == height,
            world.chunks@ == Seq::<Chunk>::empty(),
            world.chunk_pool.chunks() == Seq::<Chunk>::empty(),
            world.chunk_pool.capacity() == MAX_CHUNKS,
    {
        World { chunks: Vec::new(), width, height, chunk_pool: ChunkPool::new(MAX_CHUNKS) }
    }

    /// The point that a cleanup measures distances from: the middle of the
    /// world's width and height.
    pub open spec fn center(&self) -> (usize, usize) {
        (self.width / 2, self.height / 2)
    }

    /// Whether `after` is `self` cut down to [`MAX_CHUNKS`] active chunks.
    /// Where `self` has no more than that, nothing changes. Otherwise the
    /// chunks are ordered farthest from the center first, the first
    /// [`MAX_CHUNKS`] stay, and the others go back to the pool from the end
    /// of the run.
    pub open spec fn cleaned(&self, after: &World) -> bool {
        &&& after.width == self.width
        &&& after.height == self.height
        &&& after.chunk_pool.capacity() == self.chunk_pool.capacity()
        &&& if self.chunks@.len() <= MAX_CHUNKS {
            &&& after.chunks@ == self.chunks@
            &&& after.chunk_pool.chunks() == self.chunk_pool.chunks()
        } else {
            let run = farthest_first(self.chunks@, self.center());
            &&& after.chunks@ == run.take(MAX_CHUNKS as int)
            &&& ChunkPool::absorbed(
                self.chunk_pool.chunks(),
                self.chunk_pool.capacity(),
                cut_off(run, MAX_CHUNKS as int),
                after.chunk_pool.chunks(),
            )
        }
    }

    /// Cuts the active set down to [`MAX_CHUNKS`] chunks, whatever the focus.
    pub fn cleanup_chunks(&mut self)
        requires
            old(self).wf(),
        ensures
            final(self).wf(),
            old(self).cleaned(final(self)),
            final(self).chunks@.len() <= MAX_CHUNKS,
    {
        if self.chunks.len() > MAX_CHUNKS {
            let center = (self.width / 2, self.height / 2);
            let ghost pool0 = self.chunk_pool.chunks();
            let ghost run = farthest_first(self.chunks@, center);
            proof {
                lemma_farthest_first_keeps(self.chunks@, center);
            }
            sort_farthest_first(&mut self.chunks, center);
            proof {
                assert(self.chunks@.take(self.chunks@.len() as int) =~= self.chunks@);
                assert(cut_off(run, run.len() as int) =~= Seq::<Chunk>::empty());
            }
            while self.chunks.len() > MAX_CHUNKS
                invariant
                    self.chunks@.len() >= MAX_CHUNKS,
                    self.chunks@.len() <= run.len(),
                    self.chunks@ == run.take(self.chunks@.len() as int),
                    self.width == old(self).width,
                    self.height == old(self).height,
                    pool0 == old(self).chunk_pool.chunks(),
                    pool0.len() <= old(self).chunk_pool.capacity(),
                    self.chunk_pool.wf(),
                    self.chunk_pool.capacity() == old(self).chunk_pool.capacity(),
                    ChunkPool::absorbed(
                        pool0,
                        self.chunk_pool.capacity(),
                        cut_off(run, self.chunks@.len() as int),
                        self.chunk_pool.chunks(),
                    ),
                decreases self.chunks@.len(),
            {
                let ghost n = self.chunks@.len() as int;
                let ghost mid = self.chunk_pool.chunks();
                let popped = self.chunks.pop();
                match popped {
                    Some(chunk) => {
                        self.chunk_pool.return_chunk(chunk);
                        proof {
                            assert(chunk == run[n - 1]);
                            ChunkPool::lemma_absorb_one(
                                pool0,
                                self.chunk_pool.capacity(),
                                cut_off(run, n),
                                mid,
                                chunk,
                                self.chunk_pool.chunks(),
                            );
                            assert(cut_off(run, n).push(chunk) =~= cut_off(run, n - 1));
                            assert(self.chunks@ =~= run.take(n - 1));
                        }
                    },
                    None => {},
                }
            }
            proof {
                assert forall|i: int| 0 <= i < self.chunks@.len() implies (
                #[trigger] self.chunks@[i]).wf() by {
                    assert(self.chunks@[i] == run[i]);
                }
                assert forall|i: int, j: int|
                    0 <= i < self.chunks@.len() && 0 <= j < self.chunks@.len() && i != j implies (
                #[trigger] self.chunks@[i]).pos != (#[trigger] self.chunks@[j]).pos by {
                    assert(self.chunks@[i] == run[i] && self.chunks@[j] == run[j]);
                }
            }
        }
    }

    /// Whether one of the active chunks stands at `(x, y)`.
    pub fn has_chunk(&self, x: usize, y: usize) -> (r: bool)
        ensures
            r == has_chunk_at(self.chunks@, (x, y)),
    {
        let mut i: usize = 0;
        while i < self.chunks.len()
            invariant
                i <= self.chunks.len(),
                forall|j: int| 0 <= j < i ==> (#[trigger] self.chunks@[j]).pos != (x, y),
            decreases self.chunks.len() - i,
        {
            if self.chunks[i].pos.0 == x && self.chunks[i].pos.1 == y {
                return true;
            }
            i += 1;
        }
        false
    }

    /// Whether `after` and `generator_after` are what `self` and `generator`
    /// become when the chunk at `pos` is materialized. Where a chunk stands
    /// there already, nothing changes. Otherwise a chunk generated for `pos`
    /// joins the active set at its end, and the pool gives up its last chunk,
    /// if it has one, for it.
    pub open spec fn materialized<S: Fn(NoiseType, usize, usize) -> Sample, N: Fn(Sample) -> Sample>(
        &self,
        generator: &WorldGenerator,
        after: &World,
        generator_after: &WorldGenerator,
        sampler: S,
        normalize: N,
        pos: (usize, usize),
    ) -> bool {
        if has_chunk_at(self.chunks@, pos) {
            *after == *self && *generator_after == *generator
        } else {
            &&& after.width == self.width
            &&& after.height == self.height
            &&& after.chunk_pool.capacity() == self.chunk_pool.capacity()
            &&& after.chunk_pool.chunks() == without_last(self.chunk_pool.chunks())
            &&& after.chunks@.len() == self.chunks@.len() + 1
            &&& after.chunks@.drop_last() == self.chunks@
            &&& after.chunks@.last().pos == pos
            &&& after.chunks@.last().wf()
            &&& generator.generated(
                generator_after,
                sampler,
                normalize,
                pos,
                after.chunks@.last().tiles@,
                after.chunks@.last().blocks@,
            )
        }
    }

    /// Makes sure that a chunk stands at `(x, y)`: where none does, one is
    /// taken from the pool and generated anew where it stands, or generated
    /// afresh where the pool is empty, and joins the active set.
    pub fn create_chunk_if_needed<
        S: Fn(NoiseType, usize, usize) -> Sample,
        N: Fn(Sample) -> Sample,
    >(&mut self, x: usize, y: usize, generator: &mut WorldGenerator, sampler: &S, normalize: &N)
        requires
            old(self).wf(),
            old(generator).wf(),
            coord_fits(x),
            coord_fits(y),
            forall|c: NoiseType, a: usize, b: usize| sampler.requires((c, a, b)),
            forall|v: Sample| normalize.requires((v,)),
        ensures
            final(self).wf(),
            final(generator).wf(),
            old(self).materialized(
                old(generator),
                final(self),
                final(generator),
                *sampler,
                *normalize,
                (x, y),
            ),
    {
        if !self.has_chunk(x, y) {
            match self.chunk_pool.get_chunk() {
                Some(pooled) => {
                    let mut chunk = pooled;
                    chunk.relocate((x, y));
                    generator.generate_chunk_data(&mut chunk, sampler, normalize);
                    self.chunks.push(chunk);
                },
                None => {
                    let new_chunk = generator.generate_chunk(x, y, sampler, normalize);
                    self.chunks.push(new_chunk);
                },
            }
            proof {
                assert(self.chunks@.drop_last() =~= old(self).chunks@);
                assert(self.chunk_pool.chunks() == without_last(old(self).chunk_pool.chunks()));
                assert forall|i: int| 0 <= i < self.chunks@.len() implies (
                #[trigger] self.chunks@[i]).wf() by {
                    if i < old(self).chunks@.len() {
                        assert(self.chunks@[i] == old(self).chunks@[i]);
                    }
                }
                assert forall|i: int, j: int|
                    0 <= i < self.chunks@.len() && 0 <= j < self.chunks@.len() && i != j implies (
                #[trigger] self.chunks@[i]).pos != (#[trigger] self.chunks@[j]).pos by {
                    let n = old(self).chunks@.len() as int;
                    if i < n {
                        assert(self.chunks@[i] == old(self).chunks@[i]);
                    }
                    if j < n {
                        assert(self.chunks@[j] == old(self).chunks@[j]);
                    }
                }
            }
        }
    }

    /// Whether `after` and `generator_after` are what `self` and `generator`
    /// become when the `k`-th candidate around `focus` is looked at: it is
    /// materialized where it is wanted, and nothing changes where it is not.
    pub open spec fn looked_at<S: Fn(NoiseType, usize, usize) -> Sample, N: Fn(Sample) -> Sample>(
        &self,
        generator: &WorldGenerator,
        after: &World,
        generator_after: &WorldGenerator,
        sampler: S,
        normalize: N,
        focus: (usize, usize),
        distance: usize,
        k: int,
    ) -> bool {
        if is_wanted(focus, distance, k) {
            self.materialized(
                generator,
                after,
                generator_after,
                sampler,
                normalize,
                wanted_pos(focus, k),
            )
        } else {
            *after == *self && *generator_after == *generator
        }
    }

    /// Whether, in a run of worlds and a run of generators, entry `k + 1` is
    /// what entry `k` becomes when the `k`-th candidate is looked at.
    pub open spec fn step_ok<S: Fn(NoiseType, usize, usize) -> Sample, N: Fn(Sample) -> Sample>(
        worlds: Seq<World>,
        generators: Seq<WorldGenerator>,
        sampler: S,
        normalize: N,
        focus: (usize, usize),
        distance: usize,
        k: int,
    ) -> bool {
        worlds[k].looked_at(
            &generators[k],
            &worlds[k + 1],
            &generators[k + 1],
            sampler,
            normalize,
            focus,
            distance,
            k,
        )
    }

    /// Whether `worlds` and `generators` are the states that a world and a
    /// generator go through while the first `n` candidates around `focus` are
    /// looked at in turn.
    pub open spec fn pass_of<S: Fn(NoiseType, usize, usize) -> Sample, N: Fn(Sample) -> Sample>(
        worlds: Seq<World>,
        generators: Seq<WorldGenerator>,
        sampler: S,
        normalize: N,
        focus: (usize, usize),
        distance: usize,
        n: int,
    ) -> bool {
        &&& worlds.len() == n + 1
        &&& generators.len() == n + 1
        &&& forall|k: int|
            0 <= k < n ==> #[trigger] World::step_ok(
                worlds,
                generators,
                sampler,
                normalize,
                focus,
                distance,
                k,
            )
    }

    /// Whether `after` and `generator_after` are what `self` and `generator`
    /// become when every candidate around `focus` has been looked at in
    /// turn, each wanted one being materialized.
    pub open spec fn nearby_created<
        S: Fn(NoiseType, usize, usize) -> Sample,
        N: Fn(Sample) -> Sample,
    >(
        &self,
        generator: &WorldGenerator,
        after: &World,
        generator_after: &WorldGenerator,
        sampler: S,
        normalize: N,
        focus: (usize, usize),
        distance: usize,
    ) -> bool {
        exists|worlds: Seq<World>, generators: Seq<WorldGenerator>|
            {
                &&& #[trigger] World::pass_of(
                    worlds,
                    generators,
                    sampler,
                    normalize,
                    focus,
                    distance,
                    NEIGHBOURHOOD as int,
                )
                &&& worlds[0] == *self
                &&& generators[0] == *generator
                &&& worlds[NEIGHBOURHOOD as int] == *after
                &&& generators[NEIGHBOURHOOD as int] == *generator_after
            }
    }

    /// Materializes every chunk that is wanted around the focus chunk and is
    /// not active: the candidates of the five-by-five neighbourhood are
    /// looked at row by row, and each one that lies within `distance` of the
    /// focus, on the grid, goes through [`World::create_chunk_if_needed`].
    pub fn create_nearby_chunks<S: Fn(NoiseType, usize, usize) -> Sample, N: Fn(Sample) -> Sample>(
        &mut self,
        player_x: usize,
        player_y: usize,
        distance: usize,
        generator: &mut WorldGenerator,
        sampler: &S,
        normalize: &N,
    )
        requires
            old(self).wf(),
            old(generator).wf(),
            focus_fits(player_x),
            focus_fits(player_y),
            forall|c: NoiseType, a: usize, b: usize| sampler.requires((c, a, b)),
            forall|v: Sample| normalize.requires((v,)),
        ensures
            final(self).wf(),
            final(generator).wf(),
            old(self).nearby_created(
                old(generator),
                final(self),
                final(generator),
                *sampler,
                *normalize,
                (player_x, player_y),
                distance,
            ),
            final(self).width == old(self).width,
            final(self).height == old(self).height,
            final(self).chunk_pool.capacity() == old(self).chunk_pool.capacity(),
            final(self).chunks@.len() >= old(self).chunks@.len(),
            final(self).chunks@.take(old(self).chunks@.len() as int) == old(self).chunks@,
            forall|i: int|
                old(self).chunks@.len() <= i < final(self).chunks@.len() ==> near(
                    (#[trigger] final(self).chunks@[i]).pos,
                    (player_x, player_y),
                    distance,
                ),
            forall|k: int|
                0 <= k < NEIGHBOURHOOD && is_wanted((player_x, player_y), distance, k)
                    ==> has_chunk_at(final(self).chunks@, #[trigger] wanted_pos((player_x, player_y), k)),
    {
        let ghost focus = (player_x, player_y);
        let ghost w0 = *self;
        let ghost g0 = *generator;
        let reach: u128 = distance as u128;
        proof {
            assert(0 <= reach * reach <= 0xFFFF_FFFF_FFFF_FFFF * 0xFFFF_FFFF_FFFF_FFFF)
                by (nonlinear_arith)
                requires
                    0 <= reach <= 0xFFFF_FFFF_FFFF_FFFF,
            ;
            assert(self.chunks@.take(w0.chunks@.len() as int) =~= w0.chunks@);
        }
        let limit: u128 = reach * reach;
        let ghost mut worlds: Seq<World> = seq![*self];
        let ghost mut generators: Seq<WorldGenerator> = seq![*generator];
        let mut k: usize = 0;
        while k < NEIGHBOURHOOD
            invariant
                k <= NEIGHBOURHOOD,
                focus == (player_x, player_y),
                w0 == *old(self),
                g0 == *old(generator),
                limit == distance * distance,
                focus_fits(player_x),
                focus_fits(player_y),
                forall|c: NoiseType, a: usize, b: usize| sampler.requires((c, a, b)),
                forall|v: Sample| normalize.requires((v,)),
                self.wf(),
                generator.wf(),
                World::pass_of(
                    worlds,
                    generators,
                    *sampler,
                    *normalize,
                    focus,
                    distance,
                    k as int,
                ),
                worlds[0] == w0,
                generators[0] == g0,
                worlds[k as int] == *self,
                generators[k as int] == *generator,
                self.width == w0.width,
                self.height == w0.height,
                self.chunk_pool.capacity() == w0.chunk_pool.capacity(),
                self.chunks@.len() >= w0.chunks@.len(),
                self.chunks@.take(w0.chunks@.len() as int) == w0.chunks@,
                forall|i: int|
                    w0.chunks@.len() <= i < self.chunks@.len() ==> near(
                        (#[trigger] self.chunks@[i]).pos,
                        focus,
                        distance,
                    ),
                forall|j: int|
                    0 <= j < k && is_wanted(focus, distance, j) ==> has_chunk_at(
                        self.chunks@,
                        #[trigger] wanted_pos(focus, j),
                    ),
            decreases NEIGHBOURHOOD - k,
        {
            let col: usize = k % 5;
            let row: usize = k / 5;
            let ax: u128 = if col >= 2 {
                (col - 2) as u128
            } else {
                (2 - col) as u128
            };
            let ay: u128 = if row >= 2 {
                (row - 2) as u128
            } else {
                (2 - row) as u128
            };
            let ghost w1 = *self;
            let ghost g1 = *generator;
            proof {
                let dx = k % 5 - 2;
                let dy = k / 5 - 2;
                assert(ax * ax == dx * dx) by (nonlinear_arith)
                    requires
                        ax == dx || ax == -dx,
                ;
                assert(ay * ay == dy * dy) by (nonlinear_arith)
                    requires
                        ay == dy || ay == -dy,
                ;
                assert(ax * ax <= 4 && ay * ay <= 4) by (nonlinear_arith)
                    requires
                        0 <= ax <= 2,
                        0 <= ay <= 2,
                ;
            }
            if ax * ax + ay * ay <= limit && player_x + col >= 2 && player_y + row >= 2 {
                let chunk_x: usize = player_x + col - 2;
                let chunk_y: usize = player_y + row - 2;
                assert((chunk_x, chunk_y) == wanted_pos(focus, k as int));
                assert(is_wanted(focus, distance, k as int));
                self.create_chunk_if_needed(chunk_x, chunk_y, generator, sampler, normalize);
                proof {
                    let pos = (chunk_x, chunk_y);
                    assert(near(pos, focus, distance)) by {
                        let ex = pos.0 - focus.0;
                        let ey = pos.1 - focus.1;
                        assert(ex == k % 5 - 2 && ey == k / 5 - 2);
                    }
                    if has_chunk_at(w1.chunks@, pos) {
                    } else {
                        assert(self.chunks@.drop_last() == w1.chunks@);
                        assert(self.chunks@.take(w0.chunks@.len() as int) =~= w1.chunks@.take(
                            w0.chunks@.len() as int,
                        ));
                        assert forall|i: int|
                            w0.chunks@.len() <= i < self.chunks@.len() implies near(
                            (#[trigger] self.chunks@[i]).pos,
                            focus,
                            distance,
                        ) by {
                            if i < w1.chunks@.len() {
                                assert(self.chunks@[i] == w1.chunks@[i]);
                            }
                        }
                        assert(self.chunks@[self.chunks@.len() - 1].pos == pos);
                        assert(has_chunk_at(self.chunks@, pos));
                    }
                    assert forall|j: int|
                        0 <= j < k + 1 && is_wanted(focus, distance, j) implies has_chunk_at(
                        self.chunks@,
                        #[trigger] wanted_pos(focus, j),
                    ) by {
                        if j < k {
                            assert(has_chunk_at(w1.chunks@, wanted_pos(focus, j)));
                            let i = choose|i: int|
                                0 <= i < w1.chunks@.len() && (#[trigger] w1.chunks@[i]).pos
                                    == wanted_pos(focus, j);
                            if !has_chunk_at(w1.chunks@, pos) {
                                assert(self.chunks@[i] == self.chunks@.drop_last()[i]);
                            }
                            assert(self.chunks@[i].pos == wanted_pos(focus, j));
                        }
                    }
                }
            } else {
                assert(!is_wanted(focus, distance, k as int));
            }
            proof {
                let before_w = worlds;
                let before_g = generators;
                worlds = worlds.push(*self);
                generators = generators.push(*generator);
                assert forall|j: int| 0 <= j < k + 1 implies #[trigger] World::step_ok(
                    worlds,
                    generators,
                    *sampler,
                    *normalize,
                    focus,
                    distance,
                    j,
                ) by {
                    if j < k {
                        assert(World::step_ok(
                            before_w,
                            before_g,
                            *sampler,
                            *normalize,
                            focus,
                            distance,
                            j,
                        ));
                        assert(worlds[j] == before_w[j] && worlds[j + 1] == before_w[j + 1]);
                        assert(generators[j] == before_g[j] && generators[j + 1] == before_g[j
                            + 1]);
                    } else {
                        assert(worlds[j] == w1 && generators[j] == g1);
                    }
                }
            }
            k += 1;
        }
    }

    /// Whether `after` is `self` with the chunks farther than `distance` from
    /// `focus` taken out and returned to the pool, in their order.
    pub open spec fn far_removed(
        &self,
        after: &World,
        focus: (usize, usize),
        distance: usize,
    ) -> bool {
        &&& after.width == self.width
        &&& after.height == self.height
        &&& after.chunks@ == self.chunks@.filter(is_near(focus, distance))
        &&& after.chunk_pool.capacity() == self.chunk_pool.capacity()
        &&& ChunkPool::absorbed(
            self.chunk_pool.chunks(),
            self.chunk_pool.capacity(),
            self.chunks@.filter(is_far(focus, distance)),
            after.chunk_pool.chunks(),
        )
    }

    /// Takes every chunk that lies farther than `distance` from the focus
    /// chunk out of the active set and returns it to the pool.
    pub fn remove_far_chunks(&mut self, player_x: usize, player_y: usize, distance: usize)
        requires
            old(self).wf(),
            coord_fits(player_x),
            coord_fits(player_y),
        ensures
            final(self).wf(),
            old(self).far_removed(final(self), (player_x, player_y), distance),
            forall|i: int|
                0 <= i < final(self).chunks@.len() ==> near(
                    (#[trigger] final(self).chunks@[i]).pos,
                    (player_x, player_y),
                    distance,
                ),
    {
        let ghost focus = (player_x, player_y);
        let ghost all = self.chunks@;
        let ghost pool0 = self.chunk_pool.chunks();
        let ghost keep = is_near(focus, distance);
        let ghost drop = is_far(focus, distance);
        let mut i: usize = 0;
        let ghost mut seen: int = 0;
        proof {
            reveal(Seq::filter);
            assert(all.take(0) =~= Seq::<Chunk>::empty());
            assert(all.skip(0) =~= all);
            assert(all.take(0).filter(keep) + all.skip(0) =~= self.chunks@);
        }
        while i < self.chunks.len()
            invariant
                old(self).wf(),
                coord_fits(player_x),
                coord_fits(player_y),
                focus == (player_x, player_y),
                all == old(self).chunks@,
                pool0 == old(self).chunk_pool.chunks(),
                keep == is_near(focus, distance),
                drop == is_far(focus, distance),
                self.width == old(self).width,
                self.height == old(self).height,
                self.chunk_pool.wf(),
                self.chunk_pool.capacity() == old(self).chunk_pool.capacity(),
                0 <= seen <= all.len(),
                i == all.take(seen).filter(keep).len(),
                self.chunks@ == all.take(seen).filter(keep) + all.skip(seen),
                ChunkPool::absorbed(
                    pool0,
                    self.chunk_pool.capacity(),
                    all.take(seen).filter(drop),
                    self.chunk_pool.chunks(),
                ),
            decreases all.len() - seen,
        {
            proof {
                reveal(Seq::filter);
                assert(self.chunks@[i as int] == all[seen]);
                assert(all[seen].wf());
                assert(all.take(seen + 1).drop_last() =~= all.take(seen));
                assert(all.take(seen + 1).last() == all[seen]);
                lemma_dist_sq_fits(all[seen].pos, focus);
            }
            if is_within(self.chunks[i].pos, (player_x, player_y), distance) {
                proof {
                    assert(keep(all[seen]));
                    assert(!drop(all[seen]));
                    assert(all.take(seen + 1).filter(keep) =~= all.take(seen).filter(keep).push(
                        all[seen],
                    ));
                    assert(all.take(seen + 1).filter(drop) =~= all.take(seen).filter(drop));
                    assert(self.chunks@ =~= all.take(seen + 1).filter(keep) + all.skip(seen + 1));
                    seen = seen + 1;
                }
                i += 1;
            } else {
                let ghost mid = self.chunk_pool.chunks();
                let chunk = self.chunks.remove(i);
                self.chunk_pool.return_chunk(chunk);
                proof {
                    assert(!keep(all[seen]));
                    assert(drop(all[seen]));
                    assert(all.take(seen + 1).filter(keep) =~= all.take(seen).filter(keep));
                    assert(all.take(seen + 1).filter(drop) =~= all.take(seen).filter(drop).push(
                        all[seen],
                    ));
                    assert(self.chunks@ =~= all.take(seen + 1).filter(keep) + all.skip(seen + 1));
                    ChunkPool::lemma_absorb_one(
                        pool0,
                        self.chunk_pool.capacity(),
                        all.take(seen).filter(drop),
                        mid,
                        chunk,
                        self.chunk_pool.chunks(),
                    );
                    seen = seen + 1;
                }
            }
        }
        proof {
            all.take(seen).lemma_filter_len(keep);
            assert(seen == all.len()) by {
                if seen < all.len() {
                    assert(self.chunks@.len() == i + (all.len() - seen));
                }
            }
            assert(all.take(seen) =~= all);
            assert(all.skip(seen) =~= Seq::<Chunk>::empty());
            assert(self.chunks@ =~= all.filter(keep));
            lemma_filter_keeps_order(all, keep);
            assert forall|k: int| 0 <= k < self.chunks@.len() implies near(
                (#[trigger] self.chunks@[k]).pos,
                focus,
                distance,
            ) by {
                all.lemma_filter_pred(keep, k);
            }
        }
    }

    /// Whether `after` and `generator_after` are what `self` and `generator`
    /// become when the world streams to the focus chunk `focus`: first the
    /// chunks farther than [`RENDER_DISTANCE`] from it leave, then the wanted
    /// chunks that are missing are materialized.
    pub open spec fn streamed<S: Fn(NoiseType, usize, usize) -> Sample, N: Fn(Sample) -> Sample>(
        &self,
        generator: &WorldGenerator,
        after: &World,
        generator_after: &WorldGenerator,
        sampler: S,
        normalize: N,
        focus: (usize, usize),
    ) -> bool {
        exists|mid: World|
            {
                &&& #[trigger] self.far_removed(&mid, focus, RENDER_DISTANCE)
                &&& mid.nearby_created(
                    generator,
                    after,
                    generator_after,
                    sampler,
                    normalize,
                    focus,
                    RENDER_DISTANCE,
                )
            }
    }

    /// Streams the world to the chunk that the pixel position `player_pos`
    /// lies in. Afterwards the active chunks are exactly those on the grid
    /// within [`RENDER_DISTANCE`] of that chunk.
    pub fn update_chunks<S: Fn(NoiseType, usize, usize) -> Sample, N: Fn(Sample) -> Sample>(
        &mut self,
        player_pos: Point,
        generator: &mut WorldGenerator,
        sampler: &S,
        normalize: &N,
    )
        requires
            old(self).wf(),
            old(generator).wf(),
            focus_fits(chunk_of(player_pos).0),
            focus_fits(chunk_of(player_pos).1),
            forall|c: NoiseType, a: usize, b: usize| sampler.requires((c, a, b)),
            forall|v: Sample| normalize.requires((v,)),
        ensures
            final(self).wf(),
            final(generator).wf(),
            old(self).streamed(
                old(generator),
                final(self),
                final(generator),
                *sampler,
                *normalize,
                chunk_of(player_pos),
            ),
            final(self).chunks@.len() <= MAX_CHUNKS,
            forall|pos: (usize, usize)|
                has_chunk_at(final(self).chunks@, pos) <==> near(
                    pos,
                    chunk_of(player_pos),
                    RENDER_DISTANCE,
                ),
    {
        let player_chunk_x: usize = player_pos.x / CHUNK_PIXELS;
        let player_chunk_y: usize = player_pos.y / CHUNK_PIXELS;
        let ghost focus = (player_chunk_x, player_chunk_y);
        self.remove_far_chunks(player_chunk_x, player_chunk_y, RENDER_DISTANCE);
        let ghost mid = *self;
        self.create_nearby_chunks(
            player_chunk_x,
            player_chunk_y,
            RENDER_DISTANCE,
            generator,
            sampler,
            normalize,
        );
        proof {
            assert(old(self).far_removed(&mid, focus, RENDER_DISTANCE));
            assert forall|i: int| 0 <= i < self.chunks@.len() implies near(
                (#[trigger] self.chunks@[i]).pos,
                focus,
                2,
            ) by {
                if i < mid.chunks@.len() {
                    assert(self.chunks@[i] == self.chunks@.take(mid.chunks@.len() as int)[i]);
                    assert(near(mid.chunks@[i].pos, focus, RENDER_DISTANCE));
                }
            }
            lemma_near_chunks_are_few(self.chunks@, focus);
            assert forall|pos: (usize, usize)|
                has_chunk_at(self.chunks@, pos) <==> near(pos, focus, RENDER_DISTANCE) by {
                if near(pos, focus, RENDER_DISTANCE) {
                    let k = lemma_near_is_wanted(pos, focus);
                    assert(has_chunk_at(self.chunks@, wanted_pos(focus, k)));
                }
                if has_chunk_at(self.chunks@, pos) {
                    let i = choose|i: int|
                        0 <= i < self.chunks@.len() && (#[trigger] self.chunks@[i]).pos == pos;
                    assert(near(self.chunks@[i].pos, focus, 2));
                }
            }
        }
    }

    /// One streaming tick: the active set is cut down to [`MAX_CHUNKS`], then
    /// the world streams to the chunk that `player_pos` lies in.
    pub fn tick<S: Fn(NoiseType, usize, usize) -> Sample, N: Fn(Sample) -> Sample>(
        &mut self,
        player_pos: Point,
        generator: &mut WorldGenerator,
        sampler: &S,
        normalize: &N,
    )
        requires
            old(self).wf(),
            old(generator).wf(),
            focus_fits(chunk_of(player_pos).0),
            focus_fits(chunk_of(player_pos).1),
            forall|c: NoiseType, a: usize, b: usize| sampler.requires((c, a, b)),
            forall|v: Sample| normalize.requires((v,)),
        ensures
            final(self).wf(),
            final(generator).wf(),
            exists|mid: World|
                {
                    &&& #[trigger] old(self).cleaned(&mid)
                    &&& mid.streamed(
                        old(generator),
                        final(self),
                        final(generator),
                        *sampler,
                        *normalize,
                        chunk_of(player_pos),
                    )
                },
            final(self).chunks@.len() <= MAX_CHUNKS,
            forall|pos: (usize, usize)|
                has_chunk_at(final(self).chunks@, pos) <==> near(
                    pos,
                    chunk_of(player_pos),
                    RENDER_DISTANCE,
                ),
    {
        self.cleanup_chunks();
        let ghost mid = *self;
        self.update_chunks(player_pos, generator, sampler, normalize);
        proof {
            assert(old(self).cleaned(&mid));
        }
    }
}

/// A filtered run of chunks that were in order and stood at distinct
/// coordinates is in order and stands at distinct coordinates.
pub proof fn lemma_filter_keeps_order(chunks: Seq<Chunk>, pred: spec_fn(Chunk) -> bool)
    requires
        forall|i: int| 0 <= i < chunks.len() ==> (#[trigger] chunks[i]).wf(),
        distinct_positions(chunks),
    ensures
        forall|i: int| 0 <= i < chunks.filter(pred).len() ==> (#[trigger] chunks.filter(pred)[i]).wf(),
        distinct_positions(chunks.filter(pred)),
        forall|i: int|
            0 <= i < chunks.filter(pred).len() ==> has_chunk_at(
                chunks,
                (#[trigger] chunks.filter(pred)[i]).pos,
            ),
    decreases chunks.len(),
{
    reveal(Seq::filter);
    if chunks.len() > 0 {
        let front = chunks.drop_last();
        lemma_filter_keeps_order(front, pred);
        let kept = front.filter(pred);
        assert forall|i: int| 0 <= i < kept.len() implies has_chunk_at(
            chunks,
            (#[trigger] kept[i]).pos,
        ) && kept[i].pos != chunks.last().pos by {
            assert(has_chunk_at(front, kept[i].pos));
            let j = choose|j: int| 0 <= j < front.len() && (#[trigger] front[j]).pos == kept[i].pos;
            assert(chunks[j].pos == kept[i].pos);
        }
        if pred(chunks.last()) {
            assert(chunks.filter(pred) =~= kept.push(chunks.last()));
            assert(chunks[chunks.len() - 1].pos == chunks.last().pos);
        } else {
            assert(chunks.filter(pred) =~= kept);
        }
    }
}

} // verus!
