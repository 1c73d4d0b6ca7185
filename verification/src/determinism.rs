use vstd::prelude::*;
use crate::biome::BiomeView;
use crate::block::{Block, BlockType};
use crate::consts::coord_fits;
use crate::generator::{
    biome_at, biome_occurs, biomes_after, cell_of, chance_keys, chunk_sites, filled, height_map_of,
    in_chunk, index_in_chunk, nth_cell, place_all, placed_block, placement, states_after,
    terrain_keys, terrain_of, tile_at, top_of, without_top, NoiseKey, Site, Terrain,
    WorldGenerator, CHUNK_CELLS,
};
use crate::mod_content::BiomeMod;
use crate::noise::NoiseType;
use crate::point::Point;
use crate::sample::Sample;
use crate::tile::Tile;

verus! {

/// Whether a sampler gives one value only for each channel and cell.
pub open spec fn sampler_is_function<S: Fn(NoiseType, usize, usize) -> Sample>(sampler: S) -> bool {
    forall|c: NoiseType, x: usize, y: usize, a: Sample, b: Sample|
        #![trigger sampler.ensures((c, x, y), a), sampler.ensures((c, x, y), b)]
        sampler.ensures((c, x, y), a) && sampler.ensures((c, x, y), b) ==> a == b
}

/// Whether normalizing gives one value only for each noise value.
pub open spec fn normalize_is_function<N: Fn(Sample) -> Sample>(normalize: N) -> bool {
    forall|v: Sample, a: Sample, b: Sample|
        #![trigger normalize.ensures((v,), a), normalize.ensures((v,), b)]
        normalize.ensures((v,), a) && normalize.ensures((v,), b) ==> a == b
}

/// Whether every value of a noise memo is one that the sampler gives for its
/// key.
pub open spec fn noise_agrees<S: Fn(NoiseType, usize, usize) -> Sample>(
    noise: Map<NoiseKey, Sample>,
    sampler: S,
) -> bool {
    forall|k: NoiseKey| #[trigger]
        noise.contains_key(k) ==> sampler.ensures((k.0, k.1.0, k.1.1), noise[k])
}

/// The kinds and positions of the objects that grow on a run of cells,
/// whatever the pools hold.
pub open spec fn planned(sites: Seq<Site>) -> Seq<(BlockType, Point)>
    decreases sites.len(),
{
    if sites.len() == 0 {
        Seq::empty()
    } else {
        let rest = planned(sites.drop_last());
        match placement(sites.last().1, sites.last().2) {
            None => rest,
            Some(kind) => rest.push((kind, sites.last().0)),
        }
    }
}

/// Whether every object of a pool is of the pool's kind.
pub open spec fn all_of_kind(pool: Seq<Block>, kind: BlockType) -> bool {
    forall|i: int| 0 <= i < pool.len() ==> (#[trigger] pool[i]).kind() == kind
}

/// Pooling decides which object is reused, not what is placed where: the
/// objects placed on a run of cells have the planned kinds and positions,
/// whatever the pools hold.
pub proof fn lemma_pools_do_not_decide(sites: Seq<Site>, trees: Seq<Block>, cacti: Seq<Block>)
    requires
        all_of_kind(trees, BlockType::Tree),
        all_of_kind(cacti, BlockType::Cactus),
    ensures
        ({
            let (placed, t, c) = place_all(sites, trees, cacti);
            &&& placed.len() == planned(sites).len()
            &&& forall|i: int|
                0 <= i < placed.len() ==> ((#[trigger] placed[i]).kind(), placed[i].position())
                    == planned(sites)[i]
            &&& all_of_kind(t, BlockType::Tree)
            &&& all_of_kind(c, BlockType::Cactus)
        }),
    decreases sites.len(),
{
    if sites.len() > 0 {
        lemma_pools_do_not_decide(sites.drop_last(), trees, cacti);
        let (done, t, c) = place_all(sites.drop_last(), trees, cacti);
        let (pos, biome, chance) = sites.last();
        let (placed, t2, c2) = place_all(sites, trees, cacti);
        match placement(biome, chance) {
            None => {},
            Some(BlockType::Tree) => {
                let block = placed_block(BlockType::Tree, biome, pos, top_of(t));
                if t.len() > 0 {
                    assert(t[t.len() - 1].kind() == BlockType::Tree);
                }
                assert(block.kind() == BlockType::Tree && block.position() == pos);
                assert forall|i: int| 0 <= i < t2.len() implies (#[trigger] t2[i]).kind()
                    == BlockType::Tree by {
                    assert(t2[i] == t[i]);
                }
            },
            Some(BlockType::Cactus) => {
                let block = placed_block(BlockType::Cactus, biome, pos, top_of(c));
                if c.len() > 0 {
                    assert(c[c.len() - 1].kind() == BlockType::Cactus);
                }
                assert(block.kind() == BlockType::Cactus && block.position() == pos);
                assert forall|i: int| 0 <= i < c2.len() implies (#[trigger] c2[i]).kind()
                    == BlockType::Cactus by {
                    assert(c2[i] == c[i]);
                }
            },
        }
    }
}

/// A reused object is placed as a new one would be, but for its size, which
/// it keeps: it stands at the same position and carries the same textures.
pub proof fn lemma_reuse_looks_new(kind: BlockType, biome: BiomeView, pos: Point, pooled: Block)
    requires
        pooled.kind() == kind,
    ensures
        placed_block(kind, biome, pos, Some(pooled)) == resized(
            placed_block(kind, biome, pos, None),
            pooled.extent(),
        ),
{
}

/// An object with its size replaced.
pub open spec fn resized(block: Block, size: Point) -> Block {
    match block {
        Block::Tree(t) => Block::Tree(crate::block::Tree { size, ..t }),
        Block::Cactus(c) => Block::Cactus(crate::block::Cactus { size, ..c }),
    }
}

/// A memo that agreed with the sampler still agrees after it has been filled
/// from the sampler.
pub proof fn lemma_filled_agrees<S: Fn(NoiseType, usize, usize) -> Sample>(
    before: Map<NoiseKey, Sample>,
    after: Map<NoiseKey, Sample>,
    sampler: S,
    keys: Set<NoiseKey>,
)
    requires
        noise_agrees(before, sampler),
        filled(before, after, sampler, keys),
    ensures
        noise_agrees(after, sampler),
        forall|k: NoiseKey| keys.contains(k) ==> #[trigger] after.contains_key(k),
{
    assert forall|k: NoiseKey| #[trigger] after.contains_key(k) implies sampler.ensures(
        (k.0, k.1.0, k.1.1),
        after[k],
    ) by {
        assert(after.dom().contains(k));
        if before.contains_key(k) {
        } else {
            assert(keys.contains(k));
        }
    }
    assert forall|k: NoiseKey| keys.contains(k) implies #[trigger] after.contains_key(k) by {
        assert(before.dom().union(keys).contains(k));
    }
}

/// Generation is a function of the sampler, the custom biomes and the chunk
/// coordinates. Two generators that hold the same custom biomes and the same
/// remembered biomes and surface states, and whose remembered noise came
/// from one sampler that gives one value for each channel and cell, generate
/// for one chunk the same tiles and objects of the same kinds at the same
/// positions, whatever their pools hold. Afterwards they are again two such
/// generators.
pub proof fn lemma_generation_is_deterministic<
    S: Fn(NoiseType, usize, usize) -> Sample,
    N: Fn(Sample) -> Sample,
>(
    first: WorldGenerator,
    first_after: WorldGenerator,
    first_tiles: Seq<Tile>,
    first_blocks: Seq<Block>,
    second: WorldGenerator,
    second_after: WorldGenerator,
    second_tiles: Seq<Tile>,
    second_blocks: Seq<Block>,
    sampler: S,
    normalize: N,
    chunk: (usize, usize),
)
    requires
        sampler_is_function(sampler),
        normalize_is_function(normalize),
        coord_fits(chunk.0),
        coord_fits(chunk.1),
        first.wf(),
        second.wf(),
        first.customs() == second.customs(),
        first.biomes() == second.biomes(),
        first.states() == second.states(),
        noise_agrees(first.noise(), sampler),
        noise_agrees(second.noise(), sampler),
        first.generated(&first_after, sampler, normalize, chunk, first_tiles, first_blocks),
        second.generated(&second_after, sampler, normalize, chunk, second_tiles, second_blocks),
    ensures
        first_tiles.len() == second_tiles.len(),
        forall|i: int| 0 <= i < first_tiles.len() ==> first_tiles[i]@ == second_tiles[i]@,
        first_blocks.len() == second_blocks.len(),
        forall|i: int|
            0 <= i < first_blocks.len() ==> first_blocks[i].kind() == second_blocks[i].kind()
                && first_blocks[i].position() == second_blocks[i].position(),
        first_after.customs() == second_after.customs(),
        first_after.biomes() == second_after.biomes(),
        first_after.states() == second_after.states(),
        noise_agrees(first_after.noise(), sampler),
        noise_agrees(second_after.noise(), sampler),
{
    let (map1, mid1) = choose|map: Seq<Vec<Terrain>>, mid: Map<NoiseKey, Sample>|
        first.generated_with(
            &first_after,
            sampler,
            normalize,
            chunk,
            first_tiles,
            first_blocks,
            map,
            mid,
        );
    let (map2, mid2) = choose|map: Seq<Vec<Terrain>>, mid: Map<NoiseKey, Sample>|
        second.generated_with(
            &second_after,
            sampler,
            normalize,
            chunk,
            second_tiles,
            second_blocks,
            map,
            mid,
        );
    let customs = first.customs();
    let b0 = first.biomes();
    let s0 = first.states();
    let n1 = first_after.noise();
    let n2 = second_after.noise();
    lemma_filled_agrees(first.noise(), mid1, sampler, terrain_keys(chunk));
    lemma_filled_agrees(second.noise(), mid2, sampler, terrain_keys(chunk));
    lemma_filled_agrees(mid1, n1, sampler, chance_keys(chunk));
    lemma_filled_agrees(mid2, n2, sampler, chance_keys(chunk));
    assert forall|i: int| 0 <= i < CHUNK_CELLS implies terrain_of(map1, i) == terrain_of(
        map2,
        i,
    ) by {
        let x = i % 16;
        let y = i / 16;
        let cell = cell_of(chunk, x, y);
        let v1 = map1[y][x];
        let v2 = map2[y][x];
        assert(crate::generator::terrain_from(mid1, normalize, cell, v1));
        assert(crate::generator::terrain_from(mid2, normalize, cell, v2));
        assert(mid1[(NoiseType::Height, cell)] == mid2[(NoiseType::Height, cell)]);
        assert(mid1[(NoiseType::Moisture, cell)] == mid2[(NoiseType::Moisture, cell)]);
        assert(mid1[(NoiseType::Temperature, cell)] == mid2[(NoiseType::Temperature, cell)]);
        assert(v1.0 == v2.0);
        assert(v1.1 == v2.1);
        assert(v1.2 == v2.2);
    }
    assert forall|i: int| 0 <= i < CHUNK_CELLS implies #[trigger] biome_at(
        b0,
        customs,
        chunk,
        map1,
        i,
    ) == biome_at(b0, customs, chunk, map2, i) by {
        assert(terrain_of(map1, i) == terrain_of(map2, i));
    }
    assert forall|i: int| 0 <= i < first_tiles.len() implies first_tiles[i]@
        == second_tiles[i]@ by {
        assert(biome_at(b0, customs, chunk, map1, i) == biome_at(b0, customs, chunk, map2, i));
        assert(first_tiles[i]@ == tile_at(b0, s0, customs, chunk, map1, i));
        assert(second_tiles[i]@ == tile_at(b0, s0, customs, chunk, map2, i));
    }
    assert(biomes_after(b0, customs, chunk, map1, CHUNK_CELLS as int) =~= biomes_after(
        b0,
        customs,
        chunk,
        map2,
        CHUNK_CELLS as int,
    )) by {
        assert forall|cell: (usize, usize)|
            in_chunk(chunk, cell) implies #[trigger] biome_at(
            b0,
            customs,
            chunk,
            map1,
            index_in_chunk(chunk, cell),
        ) == biome_at(b0, customs, chunk, map2, index_in_chunk(chunk, cell)) by {
            let i = index_in_chunk(chunk, cell);
            assert(0 <= i < CHUNK_CELLS);
            assert(terrain_of(map1, i) == terrain_of(map2, i));
        }
    }
    assert(states_after(s0, b0, customs, chunk, map1, CHUNK_CELLS as int) =~= states_after(
        s0,
        b0,
        customs,
        chunk,
        map2,
        CHUNK_CELLS as int,
    )) by {
        assert forall|b: BiomeView|
            biome_occurs(b0, customs, chunk, map1, CHUNK_CELLS as int, b) == biome_occurs(
                b0,
                customs,
                chunk,
                map2,
                CHUNK_CELLS as int,
                b,
            ) by {
            if biome_occurs(b0, customs, chunk, map1, CHUNK_CELLS as int, b) {
                let j = choose|j: int|
                    0 <= j < CHUNK_CELLS && #[trigger] biome_at(b0, customs, chunk, map1, j) == b;
                assert(biome_at(b0, customs, chunk, map2, j) == b);
            }
            if biome_occurs(b0, customs, chunk, map2, CHUNK_CELLS as int, b) {
                let j = choose|j: int|
                    0 <= j < CHUNK_CELLS && #[trigger] biome_at(b0, customs, chunk, map2, j) == b;
                assert(biome_at(b0, customs, chunk, map1, j) == b);
            }
        }
    }
    let sites1 = chunk_sites(n1, b0, customs, chunk, map1, CHUNK_CELLS as int);
    let sites2 = chunk_sites(n2, b0, customs, chunk, map2, CHUNK_CELLS as int);
    assert(sites1 =~= sites2) by {
        assert forall|i: int| 0 <= i < CHUNK_CELLS implies sites1[i] == sites2[i] by {
            let cell = nth_cell(chunk, i);
            let k = (NoiseType::BlockChance, cell);
            assert(in_chunk(chunk, cell));
            assert(chance_keys(chunk).contains(k));
            assert(n1.contains_key(k) && n2.contains_key(k));
            assert(biome_at(b0, customs, chunk, map1, i) == biome_at(b0, customs, chunk, map2, i));
        }
    }
    lemma_pools_do_not_decide(
        sites1,
        first.pool(BlockType::Tree),
        first.pool(BlockType::Cactus),
    );
    lemma_pools_do_not_decide(
        sites2,
        second.pool(BlockType::Tree),
        second.pool(BlockType::Cactus),
    );
    assert forall|i: int| 0 <= i < first_blocks.len() implies first_blocks[i].kind()
        == second_blocks[i].kind() && first_blocks[i].position()
        == second_blocks[i].position() by {
        assert((first_blocks[i].kind(), first_blocks[i].position()) == planned(sites1)[i]);
        assert((second_blocks[i].kind(), second_blocks[i].position()) == planned(sites2)[i]);
    }
}

} // verus!
