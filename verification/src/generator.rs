use vstd::prelude::*;
use crate::biome::{
    classify, compute_biome, compute_surface, level, surface_of, Biome, BiomeCache, BiomeView,
};
use crate::chunk::Chunk;
use crate::block::{crown_for, Block, BlockCache, BlockTexture, BlockType, Cactus, Tree};
use crate::consts::{coord_fits, BLOCK_CACHE, CHUNK_SIZE, TILE_SIZE};
use crate::mod_content::BiomeMod;
use crate::noise::{NoiseCache, NoiseType};
use crate::point::Point;
use crate::sample::Sample;
use crate::tile::{Tile, TileState, TileStateView, TileView};

verus! {

/// Default distance between neighbouring noise samples: 0.05.
pub const DEFAULT_SCALE: u64 = 0x3FA9_9999_9999_999A;

/// Default distance between neighbouring moisture samples: 0.03.
pub const DEFAULT_MOISTURE_SCALE: u64 = 0x3F9E_B851_EB85_1EB8;

/// Default number of octaves that one noise value sums.
pub const DEFAULT_OCTAVES: usize = 2;

/// Default factor by which each octave's amplitude shrinks: 0.3.
pub const DEFAULT_PERSISTENCE: u64 = 0x3FD3_3333_3333_3333;

/// Default factor by which each octave's frequency grows: 2.0.
pub const DEFAULT_LACUNARITY: u64 = 0x4000_0000_0000_0000;

/// Chance above which a forest cell grows a tree: 0.7.
pub const TREE_CHANCE: u64 = 0x3FE6_6666_6666_6666;

/// Chance above which a desert cell grows a cactus: 0.8.
pub const CACTUS_CHANCE: u64 = 0x3FE9_9999_9999_999A;

/// The elevation, moisture and temperature of one cell, each in `[0, 1]`.
pub type Terrain = (Sample, Sample, Sample);

/// The keys of a noise memo: a channel and a cell.
pub type NoiseKey = (NoiseType, (usize, usize));

/// The cell at offset `(x, y)` inside a chunk.
pub open spec fn cell_of(chunk: (usize, usize), x: int, y: int) -> (usize, usize) {
    ((chunk.0 * CHUNK_SIZE + x) as usize, (chunk.1 * CHUNK_SIZE + y) as usize)
}

/// Whether a cell lies inside a chunk.
pub open spec fn in_chunk(chunk: (usize, usize), cell: (usize, usize)) -> bool {
    &&& chunk.0 * CHUNK_SIZE <= cell.0 < chunk.0 * CHUNK_SIZE + CHUNK_SIZE
    &&& chunk.1 * CHUNK_SIZE <= cell.1 < chunk.1 * CHUNK_SIZE + CHUNK_SIZE
}

/// The place of a cell of a chunk in the chunk's row-major order.
pub open spec fn index_in_chunk(chunk: (usize, usize), cell: (usize, usize)) -> int {
    (cell.1 - chunk.1 * CHUNK_SIZE) * CHUNK_SIZE + (cell.0 - chunk.0 * CHUNK_SIZE)
}

/// Whether `after` is `before` with values added under `keys`: nothing that
/// was stored has changed, every key of `keys` is now stored, and each value
/// that is new is one that `sampler` returned for its key.
pub open spec fn filled<S: Fn(NoiseType, usize, usize) -> Sample>(
    before: Map<NoiseKey, Sample>,
    after: Map<NoiseKey, Sample>,
    sampler: S,
    keys: Set<NoiseKey>,
) -> bool {
    &&& after.dom() =~= before.dom().union(keys)
    &&& forall|k: NoiseKey| #[trigger] before.contains_key(k) ==> after[k] == before[k]
    &&& forall|k: NoiseKey|
        #[trigger] keys.contains(k) && !before.contains_key(k) ==> call_ensures(
            sampler,
            (k.0, k.1.0, k.1.1),
            after[k],
        )
}

/// The keys of the three terrain channels for the cells of a chunk whose
/// place in row-major order is at least `lo` and less than `hi`.
pub open spec fn terrain_keys_between(chunk: (usize, usize), lo: int, hi: int) -> Set<NoiseKey> {
    Set::new(
        |k: NoiseKey|
            k.0 != NoiseType::BlockChance && in_chunk(chunk, k.1) && lo <= index_in_chunk(
                chunk,
                k.1,
            ) < hi,
    )
}

/// The keys of the three terrain channels for one cell.
pub open spec fn cell_keys(cell: (usize, usize)) -> Set<NoiseKey> {
    Set::new(|k: NoiseKey| k.0 != NoiseType::BlockChance && k.1 == cell)
}

/// The keys of the three terrain channels for every cell of a chunk.
pub open spec fn terrain_keys(chunk: (usize, usize)) -> Set<NoiseKey> {
    Set::new(|k: NoiseKey| k.0 != NoiseType::BlockChance && in_chunk(chunk, k.1))
}

/// Whether `values` are what `normalize` made of the three terrain values
/// that `noise` stores for a cell.
pub open spec fn terrain_from<N: Fn(Sample) -> Sample>(
    noise: Map<NoiseKey, Sample>,
    normalize: N,
    cell: (usize, usize),
    values: Terrain,
) -> bool {
    &&& noise.contains_key((NoiseType::Height, cell))
    &&& noise.contains_key((NoiseType::Moisture, cell))
    &&& noise.contains_key((NoiseType::Temperature, cell))
    &&& call_ensures(normalize, (noise[(NoiseType::Height, cell)],), values.0)
    &&& call_ensures(normalize, (noise[(NoiseType::Moisture, cell)],), values.1)
    &&& call_ensures(normalize, (noise[(NoiseType::Temperature, cell)],), values.2)
}

/// Whether a grid has one row per row of a chunk and one entry per cell.
pub open spec fn chunk_shaped(map: Seq<Vec<Terrain>>) -> bool {
    &&& map.len() == CHUNK_SIZE
    &&& forall|y: int| 0 <= y < CHUNK_SIZE ==> (#[trigger] map[y]).len() == CHUNK_SIZE
}

/// Whether `map` is the height map of a chunk: a grid in the chunk's shape
/// whose entry at row `y`, column `x` is made from what `noise` stores for
/// the cell at that offset.
pub open spec fn height_map_of<N: Fn(Sample) -> Sample>(
    noise: Map<NoiseKey, Sample>,
    normalize: N,
    chunk: (usize, usize),
    map: Seq<Vec<Terrain>>,
) -> bool {
    &&& chunk_shaped(map)
    &&& forall|x: int, y: int|
        0 <= x < CHUNK_SIZE && 0 <= y < CHUNK_SIZE ==> terrain_from(
            noise,
            normalize,
            cell_of(chunk, x, y),
            #[trigger] map[y][x],
        )
}

/// Filling a memo in two steps fills it with the keys of both.
pub proof fn lemma_filled_compose<S: Fn(NoiseType, usize, usize) -> Sample>(
    a: Map<NoiseKey, Sample>,
    b: Map<NoiseKey, Sample>,
    c: Map<NoiseKey, Sample>,
    sampler: S,
    k1: Set<NoiseKey>,
    k2: Set<NoiseKey>,
)
    requires
        filled(a, b, sampler, k1),
        filled(b, c, sampler, k2),
    ensures
        filled(a, c, sampler, k1.union(k2)),
{
    assert forall|k: NoiseKey| #[trigger] a.contains_key(k) implies c[k] == a[k] by {
        assert(b.contains_key(k));
    }
    assert forall|k: NoiseKey| #[trigger]
        k1.union(k2).contains(k) && !a.contains_key(k) implies call_ensures(
        sampler,
        (k.0, k.1.0, k.1.1),
        c[k],
    ) by {
        if b.contains_key(k) {
            assert(k1.contains(k));
        } else {
            assert(k2.contains(k));
        }
    }
}

/// Terrain made from a memo is still made from it after the memo has been
/// filled further.
pub proof fn lemma_terrain_kept<S: Fn(NoiseType, usize, usize) -> Sample, N: Fn(Sample) -> Sample>(
    before: Map<NoiseKey, Sample>,
    after: Map<NoiseKey, Sample>,
    sampler: S,
    keys: Set<NoiseKey>,
    normalize: N,
    cell: (usize, usize),
    values: Terrain,
)
    requires
        filled(before, after, sampler, keys),
        terrain_from(before, normalize, cell, values),
    ensures
        terrain_from(after, normalize, cell, values),
{
    assert(before.contains_key((NoiseType::Height, cell)));
    assert(before.contains_key((NoiseType::Moisture, cell)));
    assert(before.contains_key((NoiseType::Temperature, cell)));
    assert(after.dom().contains((NoiseType::Height, cell)));
    assert(after.dom().contains((NoiseType::Moisture, cell)));
    assert(after.dom().contains((NoiseType::Temperature, cell)));
}

/// The number of cells in a chunk.
pub const CHUNK_CELLS: usize = 256;

/// The cell at place `i` of a chunk's row-major order.
pub open spec fn nth_cell(chunk: (usize, usize), i: int) -> (usize, usize) {
    cell_of(chunk, i % (CHUNK_SIZE as int), i / (CHUNK_SIZE as int))
}

/// The entry of a height map for the cell at place `i`.
pub open spec fn terrain_of(map: Seq<Vec<Terrain>>, i: int) -> Terrain {
    map[i / (CHUNK_SIZE as int)][i % (CHUNK_SIZE as int)]
}

/// The pixel position of a cell's corner.
pub open spec fn pixel_of(cell: (usize, usize)) -> Point {
    Point { x: (cell.0 * TILE_SIZE) as usize, y: (cell.1 * TILE_SIZE) as usize }
}

/// The biome of the cell at place `i` of a chunk: the one that `biomes`
/// remembers for the cell, else the one its terrain is classified as.
pub open spec fn biome_at(
    biomes: Map<(usize, usize), BiomeView>,
    customs: Seq<BiomeMod>,
    chunk: (usize, usize),
    map: Seq<Vec<Terrain>>,
    i: int,
) -> BiomeView {
    let cell = nth_cell(chunk, i);
    let values = terrain_of(map, i);
    if biomes.contains_key(cell) {
        biomes[cell]
    } else {
        classify(customs, values.0, values.1, values.2)
    }
}

/// The surface state of a biome: the one that `states` remembers for it,
/// else the one derived from it.
pub open spec fn state_for(
    states: Map<BiomeView, TileStateView>,
    customs: Seq<BiomeMod>,
    biome: BiomeView,
) -> TileStateView {
    if states.contains_key(biome) {
        states[biome]
    } else {
        surface_of(customs, biome)
    }
}

/// The tile generated for the cell at place `i` of a chunk by a generator
/// that remembers `biomes` and `states`.
pub open spec fn tile_at(
    biomes: Map<(usize, usize), BiomeView>,
    states: Map<BiomeView, TileStateView>,
    customs: Seq<BiomeMod>,
    chunk: (usize, usize),
    map: Seq<Vec<Terrain>>,
    i: int,
) -> TileView {
    let biome = biome_at(biomes, customs, chunk, map, i);
    TileView {
        state: state_for(states, customs, biome),
        pos: pixel_of(nth_cell(chunk, i)),
        biome,
        size: TILE_SIZE,
    }
}

/// What a generator remembers of biomes once the first `n` cells of a chunk
/// have been classified: what it remembered before, and the biome of each of
/// those cells that it had not.
pub open spec fn biomes_after(
    biomes: Map<(usize, usize), BiomeView>,
    customs: Seq<BiomeMod>,
    chunk: (usize, usize),
    map: Seq<Vec<Terrain>>,
    n: int,
) -> Map<(usize, usize), BiomeView> {
    Map::new(
        |cell: (usize, usize)|
            biomes.contains_key(cell) || (in_chunk(chunk, cell) && index_in_chunk(chunk, cell)
                < n),
        |cell: (usize, usize)|
            if biomes.contains_key(cell) {
                biomes[cell]
            } else {
                biome_at(biomes, customs, chunk, map, index_in_chunk(chunk, cell))
            },
    )
}

/// Whether `biome` is the biome of one of the first `n` cells of a chunk.
pub open spec fn biome_occurs(
    biomes: Map<(usize, usize), BiomeView>,
    customs: Seq<BiomeMod>,
    chunk: (usize, usize),
    map: Seq<Vec<Terrain>>,
    n: int,
    biome: BiomeView,
) -> bool {
    exists|j: int| 0 <= j < n && #[trigger] biome_at(biomes, customs, chunk, map, j) == biome
}

/// What a generator remembers of surface states once the first `n` tiles of
/// a chunk have been made: what it remembered before, and the state derived
/// for each biome among those tiles that it had none for.
pub open spec fn states_after(
    states: Map<BiomeView, TileStateView>,
    biomes: Map<(usize, usize), BiomeView>,
    customs: Seq<BiomeMod>,
    chunk: (usize, usize),
    map: Seq<Vec<Terrain>>,
    n: int,
) -> Map<BiomeView, TileStateView> {
    Map::new(
        |biome: BiomeView|
            states.contains_key(biome) || biome_occurs(biomes, customs, chunk, map, n, biome),
        |biome: BiomeView| state_for(states, customs, biome),
    )
}

/// The keys of the object-chance channel for the cells of a chunk whose
/// place in row-major order is less than `n`.
pub open spec fn chance_keys_until(chunk: (usize, usize), n: int) -> Set<NoiseKey> {
    Set::new(
        |k: NoiseKey|
            k.0 == NoiseType::BlockChance && in_chunk(chunk, k.1) && index_in_chunk(chunk, k.1)
                < n,
    )
}

/// The keys of the object-chance channel for every cell of a chunk.
pub open spec fn chance_keys(chunk: (usize, usize)) -> Set<NoiseKey> {
    Set::new(|k: NoiseKey| k.0 == NoiseType::BlockChance && in_chunk(chunk, k.1))
}

/// What grows on a cell: a tree in a forest or snow forest where the chance
/// exceeds [`TREE_CHANCE`], a cactus in a desert where it exceeds
/// [`CACTUS_CHANCE`], and nothing anywhere else.
pub open spec fn placement(biome: BiomeView, chance: Sample) -> Option<BlockType> {
    if (biome is Forest || biome is SnowForest) && chance.spec_gt(level(TREE_CHANCE)) {
        Some(BlockType::Tree)
    } else if biome is Desert && chance.spec_gt(level(CACTUS_CHANCE)) {
        Some(BlockType::Cactus)
    } else {
        None
    }
}

/// The texture that an object of a kind is skinned with when it is placed in
/// a biome.
pub open spec fn skin_of(block_type: BlockType, biome: BiomeView) -> BlockTexture {
    match block_type {
        BlockType::Tree => crate::block::crown_of(biome),
        BlockType::Cactus => BlockTexture::Cactus,
    }
}

/// The object placed at `pos`: the pooled one, moved there and re-skinned, or
/// a new one where the pool had none.
pub open spec fn placed_block(
    block_type: BlockType,
    biome: BiomeView,
    pos: Point,
    pooled: Option<Block>,
) -> Block {
    match pooled {
        Some(block) => block.moved_to(pos).skinned(skin_of(block_type, biome)),
        None => match block_type {
            BlockType::Tree => Block::Tree(
                Tree {
                    pos,
                    size: Point { x: TILE_SIZE, y: crate::block::TREE_HEIGHT },
                    texture_bottom: Some(BlockTexture::Tree),
                    texture_top: Some(crate::block::crown_of(biome)),
                },
            ),
            BlockType::Cactus => Block::Cactus(
                Cactus {
                    pos,
                    size: Point { x: TILE_SIZE, y: TILE_SIZE },
                    texture: Some(BlockTexture::Cactus),
                },
            ),
        },
    }
}

/// The last object of a pool, if it has one.
pub open spec fn top_of(pool: Seq<Block>) -> Option<Block> {
    if pool.len() > 0 {
        Some(pool.last())
    } else {
        None
    }
}

/// A pool without its last object.
pub open spec fn without_top(pool: Seq<Block>) -> Seq<Block> {
    if pool.len() > 0 {
        pool.drop_last()
    } else {
        pool
    }
}

/// A cell as the placement of objects sees it: its pixel position, its biome
/// and its object chance.
pub type Site = (Point, BiomeView, Sample);

/// Places objects on a run of cells, in order, drawing on the two pools.
/// Gives the objects placed, and what is left of the pool of trees and of the
/// pool of cacti.
pub open spec fn place_all(sites: Seq<Site>, trees: Seq<Block>, cacti: Seq<Block>) -> (
    Seq<Block>,
    Seq<Block>,
    Seq<Block>,
)
    decreases sites.len(),
{
    if sites.len() == 0 {
        (Seq::empty(), trees, cacti)
    } else {
        let (placed, t, c) = place_all(sites.drop_last(), trees, cacti);
        let (pos, biome, chance) = sites.last();
        match placement(biome, chance) {
            None => (placed, t, c),
            Some(BlockType::Tree) => (
                placed.push(placed_block(BlockType::Tree, biome, pos, top_of(t))),
                without_top(t),
                c,
            ),
            Some(BlockType::Cactus) => (
                placed.push(placed_block(BlockType::Cactus, biome, pos, top_of(c))),
                t,
                without_top(c),
            ),
        }
    }
}

/// The first `n` cells of a chunk as the placement of objects sees them.
pub open spec fn chunk_sites(
    noise: Map<NoiseKey, Sample>,
    biomes: Map<(usize, usize), BiomeView>,
    customs: Seq<BiomeMod>,
    chunk: (usize, usize),
    map: Seq<Vec<Terrain>>,
    n: int,
) -> Seq<Site> {
    Seq::new(
        n as nat,
        |i: int|
            (
                pixel_of(nth_cell(chunk, i)),
                biome_at(biomes, customs, chunk, map, i),
                noise[(NoiseType::BlockChance, nth_cell(chunk, i))],
            ),
    )
}

/// Classifying the cells of a chunk a second time changes nothing: each
/// cell keeps the biome that the first pass remembered for it.
pub proof fn lemma_biomes_settled(
    biomes: Map<(usize, usize), BiomeView>,
    customs: Seq<BiomeMod>,
    chunk: (usize, usize),
    map: Seq<Vec<Terrain>>,
)
    requires
        coord_fits(chunk.0),
        coord_fits(chunk.1),
    ensures
        ({
            let settled = biomes_after(biomes, customs, chunk, map, CHUNK_CELLS as int);
            &&& biomes_after(settled, customs, chunk, map, CHUNK_CELLS as int) == settled
            &&& forall|i: int|
                0 <= i < CHUNK_CELLS ==> #[trigger] biome_at(settled, customs, chunk, map, i)
                    == biome_at(biomes, customs, chunk, map, i)
        }),
{
    let settled = biomes_after(biomes, customs, chunk, map, CHUNK_CELLS as int);
    assert forall|i: int| 0 <= i < CHUNK_CELLS implies #[trigger] biome_at(
        settled,
        customs,
        chunk,
        map,
        i,
    ) == biome_at(biomes, customs, chunk, map, i) by {
        let cell = nth_cell(chunk, i);
        assert(in_chunk(chunk, cell));
        assert(index_in_chunk(chunk, cell) == i);
        assert(settled.contains_key(cell));
    }
    assert(biomes_after(settled, customs, chunk, map, CHUNK_CELLS as int) =~= settled);
}

/// Turns noise into terrain and objects, chunk by chunk, and remembers what
/// it has computed.
pub struct WorldGenerator {
    pub seed: u32,
    pub width: usize,
    pub height: usize,
    pub scale: Sample,
    pub moisture_scale: Sample,
    pub custom_biomes: Vec<BiomeMod>,
    pub noise_cache: NoiseCache,
    pub biome_cache: BiomeCache,
    pub block_cache: BlockCache,
    pub octaves: usize,
    pub persistence: Sample,
    pub lacunarity: Sample,
}

impl WorldGenerator {
    /// The custom biomes registered, in the order of registration.
    pub open spec fn customs(&self) -> Seq<BiomeMod> {
        self.custom_biomes@
    }

    /// The noise values remembered.
    pub open spec fn noise(&self) -> Map<NoiseKey, Sample> {
        self.noise_cache@
    }

    /// The biomes remembered, by cell.
    pub open spec fn biomes(&self) -> Map<(usize, usize), BiomeView> {
        self.biome_cache.biomes_view()
    }

    /// The surface states remembered, by biome.
    pub open spec fn states(&self) -> Map<BiomeView, TileStateView> {
        self.biome_cache.states_view()
    }

    /// The pooled objects of a kind, the next to be reused last.
    pub open spec fn pool(&self, block_type: BlockType) -> Seq<Block> {
        self.block_cache.available(block_type)
    }

    /// The most objects that the pool of each kind holds.
    pub open spec fn pool_capacity(&self) -> usize {
        self.block_cache.capacity()
    }

    /// The number of octaves, the persistence and the lacunarity.
    pub open spec fn octave_settings(&self) -> (usize, Sample, Sample) {
        (self.octaves, self.persistence, self.lacunarity)
    }

    /// The object pools are in order.
    pub open spec fn wf(&self) -> bool {
        self.block_cache.wf()
    }

    /// Whether two generators agree in everything but what they remember and
    /// what they have pooled.
    pub open spec fn same_settings(&self, other: &WorldGenerator) -> bool {
        &&& self.seed == other.seed
        &&& self.width == other.width
        &&& self.height == other.height
        &&& self.scale == other.scale
        &&& self.moisture_scale == other.moisture_scale
        &&& self.customs() == other.customs()
        &&& self.octave_settings() == other.octave_settings()
        &&& self.pool_capacity() == other.pool_capacity()
    }

    /// Whether a generator that was `self` has become `after` by generating
    /// the tiles and objects of a chunk, with `map` as the chunk's height map
    /// and `mid` as the noise memo between the terrain pass and the object
    /// pass.
    pub open spec fn generated_with<S: Fn(NoiseType, usize, usize) -> Sample, N: Fn(Sample) -> Sample>(
        &self,
        after: &WorldGenerator,
        sampler: S,
        normalize: N,
        chunk: (usize, usize),
        tiles: Seq<Tile>,
        blocks: Seq<Block>,
        map: Seq<Vec<Terrain>>,
        mid: Map<NoiseKey, Sample>,
    ) -> bool {
        &&& after.wf()
        &&& after.same_settings(self)
        &&& filled(self.noise(), mid, sampler, terrain_keys(chunk))
        &&& height_map_of(mid, normalize, chunk, map)
        &&& tiles.len() == CHUNK_CELLS
        &&& forall|i: int|
            0 <= i < CHUNK_CELLS ==> (#[trigger] tiles[i])@ == tile_at(
                self.biomes(),
                self.states(),
                self.customs(),
                chunk,
                map,
                i,
            )
        &&& after.biomes() == biomes_after(
            self.biomes(),
            self.customs(),
            chunk,
            map,
            CHUNK_CELLS as int,
        )
        &&& after.states() == states_after(
            self.states(),
            self.biomes(),
            self.customs(),
            chunk,
            map,
            CHUNK_CELLS as int,
        )
        &&& filled(mid, after.noise(), sampler, chance_keys(chunk))
        &&& (blocks, after.pool(BlockType::Tree), after.pool(BlockType::Cactus)) == place_all(
            chunk_sites(
                after.noise(),
                self.biomes(),
                self.customs(),
                chunk,
                map,
                CHUNK_CELLS as int,
            ),
            self.pool(BlockType::Tree),
            self.pool(BlockType::Cactus),
        )
    }

    /// Whether a generator that was `self` has become `after` by generating
    /// `tiles` and `blocks` for a chunk: a height map was made for the chunk
    /// through the noise memo, the tiles were derived from it through the
    /// biome memo, and the objects were placed from it through both memos and
    /// the object pools.
    pub open spec fn generated<S: Fn(NoiseType, usize, usize) -> Sample, N: Fn(Sample) -> Sample>(
        &self,
        after: &WorldGenerator,
        sampler: S,
        normalize: N,
        chunk: (usize, usize),
        tiles: Seq<Tile>,
        blocks: Seq<Block>,
    ) -> bool {
        exists|map: Seq<Vec<Terrain>>, mid: Map<NoiseKey, Sample>|
            self.generated_with(after, sampler, normalize, chunk, tiles, blocks, map, mid)
    }

    /// A generator for the given seed and world size, with the default noise
    /// settings, no custom biomes, and nothing remembered or pooled.
    pub fn new(seed: u32, width: usize, height: usize) -> (g: WorldGenerator)
        ensures
            g.wf(),
            g.seed == seed,
            g.width == width,
            g.height == height,
            g.scale == level(DEFAULT_SCALE),
            g.moisture_scale == level(DEFAULT_MOISTURE_SCALE),
            g.octave_settings() == (
                DEFAULT_OCTAVES,
                level(DEFAULT_PERSISTENCE),
                level(DEFAULT_LACUNARITY),
            ),
            g.customs() == Seq::<BiomeMod>::empty(),
            g.noise() == Map::<NoiseKey, Sample>::empty(),
            g.biomes() == Map::<(usize, usize), BiomeView>::empty(),
            g.states() == Map::<BiomeView, TileStateView>::empty(),
            g.pool_capacity() == BLOCK_CACHE,
            forall|k: BlockType| g.pool(k) == Seq::<Block>::empty(),
    {
        WorldGenerator {
            seed,
            width,
            height,
            scale: Sample { bits: DEFAULT_SCALE },
            moisture_scale: Sample { bits: DEFAULT_MOISTURE_SCALE },
            custom_biomes: Vec::new(),
            noise_cache: NoiseCache::new(),
            biome_cache: BiomeCache::new(),
            block_cache: BlockCache::new(BLOCK_CACHE),
            octaves: DEFAULT_OCTAVES,
            persistence: Sample { bits: DEFAULT_PERSISTENCE },
            lacunarity: Sample { bits: DEFAULT_LACUNARITY },
        }
    }

    /// Registers a custom biome behind those registered before.
    pub fn add_custom_biome(&mut self, biome: BiomeMod)
        ensures
            final(self).customs() == old(self).customs().push(biome),
            final(self).wf() == old(self).wf(),
            final(self).seed == old(self).seed,
            final(self).width == old(self).width,
            final(self).height == old(self).height,
            final(self).scale == old(self).scale,
            final(self).moisture_scale == old(self).moisture_scale,
            final(self).octave_settings() == old(self).octave_settings(),
            final(self).noise() == old(self).noise(),
            final(self).biomes() == old(self).biomes(),
            final(self).states() == old(self).states(),
            final(self).pool_capacity() == old(self).pool_capacity(),
            forall|k: BlockType| final(self).pool(k) == old(self).pool(k),
    {
        self.custom_biomes.push(biome);
    }

    /// Classifies a cell from its elevation, moisture and temperature.
    pub fn get_biome(&self, height: Sample, moisture: Sample, temperature: Sample) -> (r: Biome)
        ensures
            r@ == classify(self.customs(), height, moisture, temperature),
    {
        compute_biome(&self.custom_biomes, height, moisture, temperature)
    }

    /// Derives the surface state of a biome.
    pub fn get_tile_state(&self, biome: Biome) -> (r: TileState)
        ensures
            r@ == surface_of(self.customs(), biome@),
    {
        compute_surface(&self.custom_biomes, &biome)
    }

    /// Whether `other` is this generator with its noise memo replaced.
    pub open spec fn only_noise_differs(&self, other: &WorldGenerator) -> bool {
        &&& self.same_settings(other)
        &&& self.wf() == other.wf()
        &&& self.biomes() == other.biomes()
        &&& self.states() == other.states()
        &&& forall|k: BlockType| self.pool(k) == other.pool(k)
    }

    /// The noise value of a cell on a channel: the remembered one, or else
    /// what `sampler` returns, which is then remembered.
    pub fn sample_cell<S: Fn(NoiseType, usize, usize) -> Sample>(
        &mut self,
        noise_type: NoiseType,
        cell: (usize, usize),
        sampler: &S,
    ) -> (r: Sample)
        requires
            sampler.requires((noise_type, cell.0, cell.1)),
        ensures
            final(self).only_noise_differs(old(self)),
            (r, final(self).noise()) == crate::noise::memo_step(
                old(self).noise(),
                (noise_type, cell),
                r,
            ),
            !old(self).noise().contains_key((noise_type, cell)) ==> sampler.ensures(
                (noise_type, cell.0, cell.1),
                r,
            ),
    {
        let compute = || -> (v: Sample)
            requires
                sampler.requires((noise_type, cell.0, cell.1)),
            ensures
                sampler.ensures((noise_type, cell.0, cell.1), v),
            { sampler(noise_type, cell.0, cell.1) };
        self.noise_cache.get_or_generate(cell, noise_type, compute)
    }

    /// The terrain of one cell: the three terrain channels, each looked up
    /// or sampled, then normalized.
    pub fn terrain_at<S: Fn(NoiseType, usize, usize) -> Sample, N: Fn(Sample) -> Sample>(
        &mut self,
        cell: (usize, usize),
        sampler: &S,
        normalize: &N,
    ) -> (r: Terrain)
        requires
            forall|c: NoiseType, a: usize, b: usize| sampler.requires((c, a, b)),
            forall|v: Sample| normalize.requires((v,)),
        ensures
            final(self).only_noise_differs(old(self)),
            filled(old(self).noise(), final(self).noise(), *sampler, cell_keys(cell)),
            terrain_from(final(self).noise(), *normalize, cell, r),
    {
        let ghost n0 = self.noise();
        let height = self.sample_cell(NoiseType::Height, cell, sampler);
        let ghost n1 = self.noise();
        let moisture = self.sample_cell(NoiseType::Moisture, cell, sampler);
        let ghost n2 = self.noise();
        let temperature = self.sample_cell(NoiseType::Temperature, cell, sampler);
        let ghost n3 = self.noise();
        let r = (normalize(height), normalize(moisture), normalize(temperature));
        proof {
            let kh = Set::<NoiseKey>::empty().insert((NoiseType::Height, cell));
            let km = Set::<NoiseKey>::empty().insert((NoiseType::Moisture, cell));
            let kt = Set::<NoiseKey>::empty().insert((NoiseType::Temperature, cell));
            assert(filled(n0, n1, *sampler, kh));
            assert(filled(n1, n2, *sampler, km));
            assert(filled(n2, n3, *sampler, kt));
            lemma_filled_compose(n0, n1, n2, *sampler, kh, km);
            lemma_filled_compose(n0, n2, n3, *sampler, kh.union(km), kt);
            assert(kh.union(km).union(kt) =~= cell_keys(cell));
        }
        r
    }

    /// One row of a chunk's height map.
    pub fn height_row<S: Fn(NoiseType, usize, usize) -> Sample, N: Fn(Sample) -> Sample>(
        &mut self,
        chunk_x: usize,
        chunk_y: usize,
        y: usize,
        sampler: &S,
        normalize: &N,
    ) -> (row: Vec<Terrain>)
        requires
            coord_fits(chunk_x),
            coord_fits(chunk_y),
            y < CHUNK_SIZE,
            forall|c: NoiseType, a: usize, b: usize| sampler.requires((c, a, b)),
            forall|v: Sample| normalize.requires((v,)),
        ensures
            final(self).only_noise_differs(old(self)),
            filled(
                old(self).noise(),
                final(self).noise(),
                *sampler,
                terrain_keys_between((chunk_x, chunk_y), y * CHUNK_SIZE, y * CHUNK_SIZE + CHUNK_SIZE),
            ),
            row.len() == CHUNK_SIZE,
            forall|x: int|
                0 <= x < CHUNK_SIZE ==> terrain_from(
                    final(self).noise(),
                    *normalize,
                    cell_of((chunk_x, chunk_y), x, y as int),
                    #[trigger] row[x],
                ),
    {
        let ghost chunk = (chunk_x, chunk_y);
        let ghost n0 = self.noise();
        let mut row: Vec<Terrain> = Vec::new();
        let mut x: usize = 0;
        assert(filled(n0, n0, *sampler, terrain_keys_between(chunk, y * CHUNK_SIZE, y * CHUNK_SIZE)));
        while x < CHUNK_SIZE
            invariant
                x <= CHUNK_SIZE,
                y < CHUNK_SIZE,
                chunk == (chunk_x, chunk_y),
                coord_fits(chunk_x),
                coord_fits(chunk_y),
                forall|c: NoiseType, a: usize, b: usize| sampler.requires((c, a, b)),
                forall|v: Sample| normalize.requires((v,)),
                self.only_noise_differs(old(self)),
                n0 == old(self).noise(),
                filled(
                    n0,
                    self.noise(),
                    *sampler,
                    terrain_keys_between(chunk, y * CHUNK_SIZE, y * CHUNK_SIZE + x),
                ),
                row.len() == x,
                forall|j: int|
                    0 <= j < x ==> terrain_from(
                        self.noise(),
                        *normalize,
                        cell_of(chunk, j, y as int),
                        #[trigger] row[j],
                    ),
            decreases CHUNK_SIZE - x,
        {
            let world_x: usize = chunk_x * CHUNK_SIZE + x;
            let world_y: usize = chunk_y * CHUNK_SIZE + y;
            let ghost n1 = self.noise();
            let ghost done = row@;
            let values = self.terrain_at((world_x, world_y), sampler, normalize);
            row.push(values);
            proof {
                let n2 = self.noise();
                let cell = (world_x, world_y);
                let k1 = terrain_keys_between(chunk, y * CHUNK_SIZE, y * CHUNK_SIZE + x);
                lemma_filled_compose(n0, n1, n2, *sampler, k1, cell_keys(cell));
                assert(k1.union(cell_keys(cell)) =~= terrain_keys_between(
                    chunk,
                    y * CHUNK_SIZE,
                    y * CHUNK_SIZE + x + 1,
                ));
                assert forall|j: int| 0 <= j < x + 1 implies terrain_from(
                    n2,
                    *normalize,
                    cell_of(chunk, j, y as int),
                    #[trigger] row[j],
                ) by {
                    if j < x {
                        assert(row[j] == done[j]);
                        lemma_terrain_kept(
                            n1,
                            n2,
                            *sampler,
                            cell_keys(cell),
                            *normalize,
                            cell_of(chunk, j, y as int),
                            done[j],
                        );
                    }
                }
            }
            x += 1;
        }
        row
    }

    /// The height map of a chunk: for every cell, row by row, its elevation,
    /// moisture and temperature. Each is the channel's noise value at the
    /// cell, taken from the memo or sampled and remembered, and then
    /// normalized.
    pub fn generate_chunk_height_map<
        S: Fn(NoiseType, usize, usize) -> Sample,
        N: Fn(Sample) -> Sample,
    >(&mut self, chunk_x: usize, chunk_y: usize, sampler: &S, normalize: &N) -> (map: Vec<
        Vec<Terrain>,
    >)
        requires
            coord_fits(chunk_x),
            coord_fits(chunk_y),
            forall|c: NoiseType, a: usize, b: usize| sampler.requires((c, a, b)),
            forall|v: Sample| normalize.requires((v,)),
        ensures
            final(self).only_noise_differs(old(self)),
            filled(
                old(self).noise(),
                final(self).noise(),
                *sampler,
                terrain_keys((chunk_x, chunk_y)),
            ),
            height_map_of(final(self).noise(), *normalize, (chunk_x, chunk_y), map@),
    {
        let ghost chunk = (chunk_x, chunk_y);
        let ghost n0 = self.noise();
        let mut map: Vec<Vec<Terrain>> = Vec::new();
        let mut y: usize = 0;
        assert(filled(n0, n0, *sampler, terrain_keys_between(chunk, 0, 0)));
        while y < CHUNK_SIZE
            invariant
                y <= CHUNK_SIZE,
                chunk == (chunk_x, chunk_y),
                coord_fits(chunk_x),
                coord_fits(chunk_y),
                forall|c: NoiseType, a: usize, b: usize| sampler.requires((c, a, b)),
                forall|v: Sample| normalize.requires((v,)),
                self.only_noise_differs(old(self)),
                n0 == old(self).noise(),
                filled(n0, self.noise(), *sampler, terrain_keys_between(chunk, 0, y * CHUNK_SIZE)),
                map.len() == y,
                forall|r: int| 0 <= r < y ==> (#[trigger] map[r]).len() == CHUNK_SIZE,
                forall|x: int, r: int|
                    0 <= x < CHUNK_SIZE && 0 <= r < y ==> terrain_from(
                        self.noise(),
                        *normalize,
                        cell_of(chunk, x, r),
                        #[trigger] map[r][x],
                    ),
            decreases CHUNK_SIZE - y,
        {
            let ghost n1 = self.noise();
            let ghost done = map@;
            let row = self.height_row(chunk_x, chunk_y, y, sampler, normalize);
            map.push(row);
            proof {
                let n2 = self.noise();
                let k1 = terrain_keys_between(chunk, 0, y * CHUNK_SIZE);
                let k2 = terrain_keys_between(
                    chunk,
                    y * CHUNK_SIZE,
                    y * CHUNK_SIZE + CHUNK_SIZE,
                );
                lemma_filled_compose(n0, n1, n2, *sampler, k1, k2);
                assert(k1.union(k2) =~= terrain_keys_between(chunk, 0, (y + 1) * CHUNK_SIZE));
                assert forall|x: int, r: int|
                    0 <= x < CHUNK_SIZE && 0 <= r < y + 1 implies terrain_from(
                    n2,
                    *normalize,
                    cell_of(chunk, x, r),
                    #[trigger] map[r][x],
                ) by {
                    if r < y {
                        assert(map[r] == done[r]);
                        lemma_terrain_kept(
                            n1,
                            n2,
                            *sampler,
                            k2,
                            *normalize,
                            cell_of(chunk, x, r),
                            done[r][x],
                        );
                    }
                }
            }
            y += 1;
        }
        proof {
            assert(terrain_keys_between(chunk, 0, CHUNK_SIZE * CHUNK_SIZE) =~= terrain_keys(chunk));
        }
        map
    }

    /// Whether `other` is this generator with its biome memo replaced.
    pub open spec fn only_biome_memo_differs(&self, other: &WorldGenerator) -> bool {
        &&& self.same_settings(other)
        &&& self.wf() == other.wf()
        &&& self.noise() == other.noise()
        &&& forall|k: BlockType| self.pool(k) == other.pool(k)
    }

    /// The tiles of a chunk, row by row, from its height map. Each cell takes
    /// the biome remembered for it, or else is classified; each tile takes
    /// the surface state remembered for its biome, or else the one derived
    /// from it. What is computed is remembered.
    pub fn generate_chunk_tiles(
        &mut self,
        chunk_x: usize,
        chunk_y: usize,
        height_map: &Vec<Vec<Terrain>>,
    ) -> (tiles: Vec<Tile>)
        requires
            coord_fits(chunk_x),
            coord_fits(chunk_y),
            chunk_shaped(height_map@),
        ensures
            final(self).only_biome_memo_differs(old(self)),
            tiles.len() == CHUNK_CELLS,
            forall|i: int|
                0 <= i < CHUNK_CELLS ==> (#[trigger] tiles[i])@ == tile_at(
                    old(self).biomes(),
                    old(self).states(),
                    old(self).customs(),
                    (chunk_x, chunk_y),
                    height_map@,
                    i,
                ),
            final(self).biomes() == biomes_after(
                old(self).biomes(),
                old(self).customs(),
                (chunk_x, chunk_y),
                height_map@,
                CHUNK_CELLS as int,
            ),
            final(self).states() == states_after(
                old(self).states(),
                old(self).biomes(),
                old(self).customs(),
                (chunk_x, chunk_y),
                height_map@,
                CHUNK_CELLS as int,
            ),
    {
        let ghost chunk = (chunk_x, chunk_y);
        let ghost b0 = self.biomes();
        let ghost s0 = self.states();
        let ghost customs = self.customs();
        let ghost map = height_map@;
        let mut tiles: Vec<Tile> = Vec::new();
        let mut i: usize = 0;
        assert(self.biomes() =~= biomes_after(b0, customs, chunk, map, 0));
        assert(self.states() =~= states_after(s0, b0, customs, chunk, map, 0));
        while i < CHUNK_CELLS
            invariant
                i <= CHUNK_CELLS,
                chunk == (chunk_x, chunk_y),
                coord_fits(chunk_x),
                coord_fits(chunk_y),
                chunk_shaped(height_map@),
                map == height_map@,
                b0 == old(self).biomes(),
                s0 == old(self).states(),
                customs == old(self).customs(),
                self.only_biome_memo_differs(old(self)),
                tiles.len() == i,
                forall|j: int|
                    0 <= j < i ==> (#[trigger] tiles[j])@ == tile_at(b0, s0, customs, chunk, map, j),
                self.biomes() == biomes_after(b0, customs, chunk, map, i as int),
                self.states() == states_after(s0, b0, customs, chunk, map, i as int),
            decreases CHUNK_CELLS - i,
        {
            let x: usize = i % CHUNK_SIZE;
            let y: usize = i / CHUNK_SIZE;
            let world_x: usize = chunk_x * CHUNK_SIZE + x;
            let world_y: usize = chunk_y * CHUNK_SIZE + y;
            let (height, moisture, temperature) = height_map[y][x];
            let ghost cell = (world_x, world_y);
            assert(cell == nth_cell(chunk, i as int));
            assert(index_in_chunk(chunk, cell) == i);
            let ghost s1 = self.states();
            let biome = self.biome_cache.get_or_calculate_biome(
                (world_x, world_y),
                height,
                moisture,
                temperature,
                &self.custom_biomes,
            );
            assert(biome@ == biome_at(b0, customs, chunk, map, i as int));
            assert(self.biomes() =~= biomes_after(b0, customs, chunk, map, i + 1));
            let state = self.biome_cache.get_or_calculate_tile_state(
                biome.duplicate(),
                &self.custom_biomes,
            );
            proof {
                assert(state@ == state_for(s0, customs, biome@));
                assert forall|b: BiomeView|
                    biome_occurs(b0, customs, chunk, map, i + 1, b) == (biome_occurs(
                        b0,
                        customs,
                        chunk,
                        map,
                        i as int,
                        b,
                    ) || b == biome@) by {
                    if biome_occurs(b0, customs, chunk, map, i + 1, b) {
                        let j = choose|j: int|
                            0 <= j < i + 1 && #[trigger] biome_at(b0, customs, chunk, map, j) == b;
                        if j < i {
                            assert(biome_occurs(b0, customs, chunk, map, i as int, b));
                        }
                    }
                    if b == biome@ {
                        assert(biome_at(b0, customs, chunk, map, i as int) == b);
                    }
                    if biome_occurs(b0, customs, chunk, map, i as int, b) {
                        let j = choose|j: int|
                            0 <= j < i && #[trigger] biome_at(b0, customs, chunk, map, j) == b;
                        assert(0 <= j < i + 1);
                    }
                }
                assert(self.states() =~= states_after(s0, b0, customs, chunk, map, i + 1));
            }
            let mut tile = Tile::new(world_x * TILE_SIZE, world_y * TILE_SIZE);
            tile.state = state;
            tile.biome = biome;
            tiles.push(tile);
            i += 1;
        }
        tiles
    }

    /// The objects of a chunk, row by row, from its height map. Each cell
    /// takes the biome remembered for it, or else is classified, and its
    /// object chance from the memo or the sampler; what grows there is
    /// decided by [`placement`]. An object is taken from the pool of its kind,
    /// moved and re-skinned, and is made anew only where that pool is empty.
    pub fn generate_chunk_blocks<S: Fn(NoiseType, usize, usize) -> Sample>(
        &mut self,
        chunk_x: usize,
        chunk_y: usize,
        height_map: &Vec<Vec<Terrain>>,
        sampler: &S,
    ) -> (blocks: Vec<Block>)
        requires
            old(self).wf(),
            coord_fits(chunk_x),
            coord_fits(chunk_y),
            chunk_shaped(height_map@),
            forall|c: NoiseType, a: usize, b: usize| sampler.requires((c, a, b)),
        ensures
            final(self).wf(),
            final(self).same_settings(old(self)),
            final(self).states() == old(self).states(),
            final(self).biomes() == biomes_after(
                old(self).biomes(),
                old(self).customs(),
                (chunk_x, chunk_y),
                height_map@,
                CHUNK_CELLS as int,
            ),
            filled(old(self).noise(), final(self).noise(), *sampler, chance_keys((chunk_x, chunk_y))),
            (blocks@, final(self).pool(BlockType::Tree), final(self).pool(BlockType::Cactus))
                == place_all(
                chunk_sites(
                    final(self).noise(),
                    old(self).biomes(),
                    old(self).customs(),
                    (chunk_x, chunk_y),
                    height_map@,
                    CHUNK_CELLS as int,
                ),
                old(self).pool(BlockType::Tree),
                old(self).pool(BlockType::Cactus),
            ),
    {
        let ghost chunk = (chunk_x, chunk_y);
        let ghost n0 = self.noise();
        let ghost b0 = self.biomes();
        let ghost t0 = self.pool(BlockType::Tree);
        let ghost c0 = self.pool(BlockType::Cactus);
        let ghost customs = self.customs();
        let ghost map = height_map@;
        let mut blocks: Vec<Block> = Vec::new();
        let mut i: usize = 0;
        proof {
            assert(self.biomes() =~= biomes_after(b0, customs, chunk, map, 0));
            assert(filled(n0, n0, *sampler, chance_keys_until(chunk, 0)));
            assert(chunk_sites(n0, b0, customs, chunk, map, 0) =~= Seq::<Site>::empty());
        }
        while i < CHUNK_CELLS
            invariant
                i <= CHUNK_CELLS,
                chunk == (chunk_x, chunk_y),
                coord_fits(chunk_x),
                coord_fits(chunk_y),
                chunk_shaped(height_map@),
                forall|c: NoiseType, a: usize, b: usize| sampler.requires((c, a, b)),
                map == height_map@,
                n0 == old(self).noise(),
                b0 == old(self).biomes(),
                t0 == old(self).pool(BlockType::Tree),
                c0 == old(self).pool(BlockType::Cactus),
                customs == old(self).customs(),
                self.wf(),
                self.same_settings(old(self)),
                self.states() == old(self).states(),
                self.biomes() == biomes_after(b0, customs, chunk, map, i as int),
                filled(n0, self.noise(), *sampler, chance_keys_until(chunk, i as int)),
                (blocks@, self.pool(BlockType::Tree), self.pool(BlockType::Cactus)) == place_all(
                    chunk_sites(self.noise(), b0, customs, chunk, map, i as int),
                    t0,
                    c0,
                ),
            decreases CHUNK_CELLS - i,
        {
            let x: usize = i % CHUNK_SIZE;
            let y: usize = i / CHUNK_SIZE;
            let world_x: usize = chunk_x * CHUNK_SIZE + x;
            let world_y: usize = chunk_y * CHUNK_SIZE + y;
            let (height, moisture, temperature) = height_map[y][x];
            let ghost cell = (world_x, world_y);
            assert(cell == nth_cell(chunk, i as int));
            assert(index_in_chunk(chunk, cell) == i);
            let biome = self.biome_cache.get_or_calculate_biome(
                (world_x, world_y),
                height,
                moisture,
                temperature,
                &self.custom_biomes,
            );
            assert(biome@ == biome_at(b0, customs, chunk, map, i as int));
            assert(self.biomes() =~= biomes_after(b0, customs, chunk, map, i + 1));
            let pos = Point::new(world_x * TILE_SIZE, world_y * TILE_SIZE);
            let ghost n1 = self.noise();
            let block_chance = self.sample_cell(NoiseType::BlockChance, (world_x, world_y), sampler);
            let ghost n2 = self.noise();
            let ghost before = chunk_sites(n1, b0, customs, chunk, map, i as int);
            let ghost sites = chunk_sites(n2, b0, customs, chunk, map, i + 1);
            proof {
                let key = (NoiseType::BlockChance, cell);
                let single = Set::<NoiseKey>::empty().insert(key);
                assert(filled(n1, n2, *sampler, single));
                lemma_filled_compose(n0, n1, n2, *sampler, chance_keys_until(chunk, i as int), single);
                assert(chance_keys_until(chunk, i as int).union(single) =~= chance_keys_until(
                    chunk,
                    i + 1,
                ));
                assert forall|j: int| 0 <= j < i implies n2[(
                    NoiseType::BlockChance,
                    nth_cell(chunk, j),
                )] == n1[(NoiseType::BlockChance, nth_cell(chunk, j))] by {
                    let k = (NoiseType::BlockChance, nth_cell(chunk, j));
                    assert(index_in_chunk(chunk, nth_cell(chunk, j)) == j);
                    assert(chance_keys_until(chunk, i as int).contains(k));
                    assert(n1.dom().contains(k));
                }
                assert(sites.drop_last() =~= before);
                assert(sites.last() == (pixel_of(cell), biome@, block_chance));
                assert(pos == pixel_of(cell));
            }
            let ghost prior = (blocks@, self.pool(BlockType::Tree), self.pool(BlockType::Cactus));
            match biome {
                Biome::Forest | Biome::SnowForest => {
                    if block_chance.gt(Sample { bits: TREE_CHANCE }) {
                        match self.block_cache.get_block(BlockType::Tree) {
                            Some(pooled) => {
                                let mut block = pooled;
                                block.set_position(pos);
                                block.set_texture(crown_for(&biome));
                                blocks.push(block);
                            },
                            None => {
                                blocks.push(Block::Tree(Tree::new(pos, &biome)));
                            },
                        }
                    }
                },
                Biome::Desert => {
                    if block_chance.gt(Sample { bits: CACTUS_CHANCE }) {
                        match self.block_cache.get_block(BlockType::Cactus) {
                            Some(pooled) => {
                                let mut block = pooled;
                                block.set_position(pos);
                                block.set_texture(BlockTexture::Cactus);
                                blocks.push(block);
                            },
                            None => {
                                let mut cactus = Cactus::new(pos);
                                cactus.set_texture(BlockTexture::Cactus);
                                blocks.push(Block::Cactus(cactus));
                            },
                        }
                    }
                },
                _ => {},
            }
            proof {
                assert(place_all(sites.drop_last(), t0, c0) == prior);
            }
            i += 1;
        }
        proof {
            assert(chance_keys_until(chunk, CHUNK_CELLS as int) =~= chance_keys(chunk));
        }
        blocks
    }

    /// Generates the tiles and objects of a chunk where it stands, replacing
    /// what it held.
    pub fn generate_chunk_data<S: Fn(NoiseType, usize, usize) -> Sample, N: Fn(Sample) -> Sample>(
        &mut self,
        chunk: &mut Chunk,
        sampler: &S,
        normalize: &N,
    )
        requires
            old(self).wf(),
            old(chunk).wf(),
            forall|c: NoiseType, a: usize, b: usize| sampler.requires((c, a, b)),
            forall|v: Sample| normalize.requires((v,)),
        ensures
            final(chunk).wf(),
            final(chunk).pos == old(chunk).pos,
            old(self).generated(
                final(self),
                *sampler,
                *normalize,
                old(chunk).pos,
                final(chunk).tiles@,
                final(chunk).blocks@,
            ),
    {
        let chunk_x: usize = chunk.pos.0;
        let chunk_y: usize = chunk.pos.1;
        let height_map = self.generate_chunk_height_map(chunk_x, chunk_y, sampler, normalize);
        let ghost mid = self.noise();
        let tiles = self.generate_chunk_tiles(chunk_x, chunk_y, &height_map);
        let blocks = self.generate_chunk_blocks(chunk_x, chunk_y, &height_map, sampler);
        proof {
            lemma_biomes_settled(
                old(self).biomes(),
                old(self).customs(),
                (chunk_x, chunk_y),
                height_map@,
            );
            let settled = biomes_after(
                old(self).biomes(),
                old(self).customs(),
                (chunk_x, chunk_y),
                height_map@,
                CHUNK_CELLS as int,
            );
            assert(chunk_sites(
                self.noise(),
                settled,
                old(self).customs(),
                (chunk_x, chunk_y),
                height_map@,
                CHUNK_CELLS as int,
            ) =~= chunk_sites(
                self.noise(),
                old(self).biomes(),
                old(self).customs(),
                (chunk_x, chunk_y),
                height_map@,
                CHUNK_CELLS as int,
            ));
            assert(old(self).generated_with(
                self,
                *sampler,
                *normalize,
                (chunk_x, chunk_y),
                tiles@,
                blocks@,
                height_map@,
                mid,
            ));
        }
        chunk.tiles = tiles;
        chunk.blocks = blocks;
    }

    /// Generates a new chunk at the given chunk coordinates.
    pub fn generate_chunk<S: Fn(NoiseType, usize, usize) -> Sample, N: Fn(Sample) -> Sample>(
        &mut self,
        chunk_x: usize,
        chunk_y: usize,
        sampler: &S,
        normalize: &N,
    ) -> (chunk: Chunk)
        requires
            old(self).wf(),
            coord_fits(chunk_x),
            coord_fits(chunk_y),
            forall|c: NoiseType, a: usize, b: usize| sampler.requires((c, a, b)),
            forall|v: Sample| normalize.requires((v,)),
        ensures
            chunk.wf(),
            chunk.pos == (chunk_x, chunk_y),
            old(self).generated(
                final(self),
                *sampler,
                *normalize,
                (chunk_x, chunk_y),
                chunk.tiles@,
                chunk.blocks@,
            ),
    {
        let mut chunk = Chunk::new((chunk_x, chunk_y));
        self.generate_chunk_data(&mut chunk, sampler, normalize);
        chunk
    }
}

} // verus!
