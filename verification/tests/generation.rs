use noise::{NoiseFn, Perlin};
use tileworld::biome::{compute_biome, compute_surface, Biome};
use tileworld::block::{Block, BlockTexture, BlockType, Cactus, Tree};
use tileworld::chunk::Chunk;
use tileworld::generator::{
    WorldGenerator, CACTUS_CHANCE, CHUNK_CELLS, DEFAULT_LACUNARITY, DEFAULT_MOISTURE_SCALE,
    DEFAULT_OCTAVES, DEFAULT_PERSISTENCE, DEFAULT_SCALE, TREE_CHANCE,
};
use tileworld::mod_content::{BiomeConditions, BiomeMod};
use tileworld::noise::NoiseType;
use tileworld::point::Point;
use tileworld::sample::Sample;
use tileworld::tile::TileState;

fn s(v: f64) -> Sample {
    Sample::from_bits(v.to_bits())
}

fn number(v: Sample) -> f64 {
    f64::from_bits(v.to_bits())
}

fn octave_noise(perlin: &Perlin, generator_scale: f64, channel: NoiseType, x: usize, y: usize) -> f64 {
    let offset = number(channel.offset());
    let mut amplitude = 1.0;
    let mut frequency = 1.0;
    let mut value = 0.0;
    for _ in 0..2 {
        let sample_x = (x as f64 + offset) * generator_scale * frequency;
        let sample_y = (y as f64 + offset) * generator_scale * frequency;
        value += perlin.get([sample_x, sample_y]) * amplitude;
        amplitude *= 0.3;
        frequency *= 2.0;
    }
    value
}

fn unit(v: Sample) -> Sample {
    s((number(v) + 1.0) / 2.0)
}

fn same(v: Sample) -> Sample {
    v
}

fn outline(blocks: &Vec<Block>) -> Vec<(BlockType, Point)> {
    blocks.iter().map(|b| (b.block_type(), b.get_position())).collect()
}

fn constant_world(
    height: f64,
    moisture: f64,
    temperature: f64,
    chance: f64,
) -> impl Fn(NoiseType, usize, usize) -> Sample {
    move |channel: NoiseType, _x: usize, _y: usize| match channel {
        NoiseType::Height => s(height),
        NoiseType::Moisture => s(moisture),
        NoiseType::Temperature => s(temperature),
        NoiseType::BlockChance => s(chance),
    }
}

#[test]
fn a_new_generator_has_the_default_settings() {
    let generator = WorldGenerator::new(42, 1024, 768);
    assert_eq!(generator.seed, 42);
    assert_eq!(generator.width, 1024);
    assert_eq!(generator.height, 768);
    assert_eq!(generator.scale, s(0.05));
    assert_eq!(generator.moisture_scale, s(0.03));
    assert_eq!(generator.octaves, 2);
    assert_eq!(generator.persistence, s(0.3));
    assert_eq!(generator.lacunarity, s(2.0));
    assert!(generator.custom_biomes.is_empty());
    assert_eq!(DEFAULT_SCALE, 0.05f64.to_bits());
    assert_eq!(DEFAULT_MOISTURE_SCALE, 0.03f64.to_bits());
    assert_eq!(DEFAULT_OCTAVES, 2);
    assert_eq!(DEFAULT_PERSISTENCE, 0.3f64.to_bits());
    assert_eq!(DEFAULT_LACUNARITY, 2.0f64.to_bits());
    assert_eq!(TREE_CHANCE, 0.7f64.to_bits());
    assert_eq!(CACTUS_CHANCE, 0.8f64.to_bits());
    assert_eq!(CHUNK_CELLS, 256);
}

#[test]
fn height_maps_for_seed_42_are_identical_bit_for_bit() {
    let perlin_a = Perlin::new(42);
    let perlin_b = Perlin::new(42);
    let mut first = WorldGenerator::new(42, 1024, 1024);
    let mut second = WorldGenerator::new(42, 1024, 1024);
    let scale = number(first.scale);
    let sampler_a = |c: NoiseType, x: usize, y: usize| s(octave_noise(&perlin_a, scale, c, x, y));
    let sampler_b = |c: NoiseType, x: usize, y: usize| s(octave_noise(&perlin_b, scale, c, x, y));
    let map_a = first.generate_chunk_height_map(0, 0, &sampler_a, &unit);
    let map_b = second.generate_chunk_height_map(0, 0, &sampler_b, &unit);
    assert_eq!(map_a.len(), 16);
    for row in &map_a {
        assert_eq!(row.len(), 16);
    }
    assert_eq!(map_a, map_b);
    let again = first.generate_chunk_height_map(0, 0, &sampler_a, &unit);
    assert_eq!(again, map_a);
    for y in 0..16usize {
        for x in 0..16usize {
            let expected = (
                unit(s(octave_noise(&perlin_a, scale, NoiseType::Height, x, y))),
                unit(s(octave_noise(&perlin_a, scale, NoiseType::Moisture, x, y))),
                unit(s(octave_noise(&perlin_a, scale, NoiseType::Temperature, x, y))),
            );
            assert_eq!(map_a[y][x], expected);
        }
    }
}

#[test]
fn a_height_map_reads_each_cell_of_its_chunk() {
    let mut generator = WorldGenerator::new(1, 64, 64);
    let sampler = |c: NoiseType, x: usize, y: usize| {
        let channel = match c {
            NoiseType::Height => 1.0,
            NoiseType::Moisture => 2.0,
            NoiseType::Temperature => 3.0,
            NoiseType::BlockChance => 4.0,
        };
        s(channel * 1000000.0 + x as f64 * 1000.0 + y as f64)
    };
    let map = generator.generate_chunk_height_map(2, 3, &sampler, &same);
    for y in 0..16usize {
        for x in 0..16usize {
            let wx = (32 + x) as f64;
            let wy = (48 + y) as f64;
            assert_eq!(
                map[y][x],
                (
                    s(1000000.0 + wx * 1000.0 + wy),
                    s(2000000.0 + wx * 1000.0 + wy),
                    s(3000000.0 + wx * 1000.0 + wy)
                )
            );
        }
    }
    assert_eq!(generator.noise_cache.get((32, 48), NoiseType::Height), Some(s(1032048.0)));
    assert_eq!(generator.noise_cache.get((47, 63), NoiseType::Temperature), Some(s(3047063.0)));
    assert_eq!(generator.noise_cache.get((32, 48), NoiseType::BlockChance), None);
    assert_eq!(generator.noise_cache.get((48, 48), NoiseType::Height), None);
}

#[test]
fn a_height_map_takes_remembered_noise_over_new_noise() {
    let mut generator = WorldGenerator::new(1, 64, 64);
    let first = constant_world(0.25, 0.5, 0.75, 0.0);
    let second = constant_world(0.9, 0.9, 0.9, 0.9);
    let map_a = generator.generate_chunk_height_map(0, 0, &first, &same);
    let map_b = generator.generate_chunk_height_map(0, 0, &second, &same);
    assert_eq!(map_a, map_b);
    assert_eq!(map_b[7][9], (s(0.25), s(0.5), s(0.75)));
    let map_c = generator.generate_chunk_height_map(1, 0, &second, &same);
    assert_eq!(map_c[7][9], (s(0.9), s(0.9), s(0.9)));
}

#[test]
fn normalizing_halves_the_distance_to_one() {
    let mut generator = WorldGenerator::new(1, 64, 64);
    let sampler = constant_world(-1.0, 0.0, 1.0, 0.0);
    let map = generator.generate_chunk_height_map(0, 0, &sampler, &unit);
    assert_eq!(map[0][0], (s(0.0), s(0.5), s(1.0)));
    assert_eq!(map[15][15], (s(0.0), s(0.5), s(1.0)));
}

#[test]
fn tiles_come_row_by_row_at_their_pixel_positions() {
    let mut generator = WorldGenerator::new(1, 64, 64);
    let sampler = constant_world(0.5, 0.5, 0.5, 0.0);
    let map = generator.generate_chunk_height_map(2, 1, &sampler, &same);
    let tiles = generator.generate_chunk_tiles(2, 1, &map);
    assert_eq!(tiles.len(), 256);
    for i in 0..256usize {
        let x = i % 16;
        let y = i / 16;
        assert_eq!(tiles[i].pos, Point::new((32 + x) * 32, (16 + y) * 32));
        assert_eq!(tiles[i].size, 32);
        assert_eq!(tiles[i].biome, Biome::Plains);
        assert_eq!(tiles[i].state, TileState::Grass);
    }
    assert_eq!(tiles[0].pos, Point::new(1024, 512));
    assert_eq!(tiles[255].pos, Point::new(1504, 992));
}

#[test]
fn tiles_follow_the_classifier_cell_by_cell() {
    let perlin = Perlin::new(42);
    let mut generator = WorldGenerator::new(42, 1024, 1024);
    let scale = number(generator.scale);
    let sampler = |c: NoiseType, x: usize, y: usize| s(octave_noise(&perlin, scale, c, x, y));
    let map = generator.generate_chunk_height_map(3, 4, &sampler, &unit);
    let tiles = generator.generate_chunk_tiles(3, 4, &map);
    let none = Vec::new();
    for i in 0..256usize {
        let (h, m, t) = map[i / 16][i % 16];
        let biome = compute_biome(&none, h, m, t);
        assert_eq!(tiles[i].state, compute_surface(&none, &biome));
        assert_eq!(tiles[i].biome, biome);
    }
}

#[test]
fn tiles_take_custom_biomes_and_their_surfaces() {
    let mut generator = WorldGenerator::new(1, 64, 64);
    generator.add_custom_biome(BiomeMod {
        id: "marsh".to_string(),
        name: "Marsh".to_string(),
        conditions: BiomeConditions {
            height_range: Some((s(0.4), s(0.6))),
            moisture_range: None,
            temperature_range: None,
        },
        tile_state: "Custom(mud)".to_string(),
    });
    let sampler = |c: NoiseType, x: usize, _y: usize| match c {
        NoiseType::Height => if x % 2 == 0 { s(0.5) } else { s(0.7) },
        _ => s(0.5),
    };
    let map = generator.generate_chunk_height_map(0, 0, &sampler, &same);
    let tiles = generator.generate_chunk_tiles(0, 0, &map);
    for i in 0..256usize {
        if (i % 16) % 2 == 0 {
            assert_eq!(tiles[i].biome, Biome::Custom("marsh".to_string()));
            assert_eq!(tiles[i].state, TileState::Custom("Custom(mud)".to_string()));
        } else {
            assert_eq!(tiles[i].biome, Biome::Plains);
            assert_eq!(tiles[i].state, TileState::Grass);
        }
    }
}

#[test]
fn remembered_biomes_outlive_a_change_of_terrain() {
    let mut generator = WorldGenerator::new(1, 64, 64);
    let wet = vec![vec![(s(0.5), s(0.7), s(0.5)); 16]; 16];
    let dry = vec![vec![(s(0.5), s(0.1), s(0.9)); 16]; 16];
    let first = generator.generate_chunk_tiles(0, 0, &wet);
    assert_eq!(first[0].biome, Biome::Forest);
    let second = generator.generate_chunk_tiles(0, 0, &dry);
    assert_eq!(second[0].biome, Biome::Forest);
    assert_eq!(second[255].biome, Biome::Forest);
    let elsewhere = generator.generate_chunk_tiles(1, 0, &dry);
    assert_eq!(elsewhere[0].biome, Biome::Desert);
    assert_eq!(elsewhere[0].state, TileState::Sand);
}

#[test]
fn a_forest_grows_a_tree_where_the_chance_exceeds_the_threshold() {
    let mut generator = WorldGenerator::new(1, 64, 64);
    let sampler = |c: NoiseType, x: usize, y: usize| match c {
        NoiseType::BlockChance => if x == 3 && y == 2 {
            s(0.71)
        } else if x == 4 && y == 2 {
            s(0.7)
        } else {
            s(0.1)
        },
        _ => s(0.0),
    };
    let map = vec![vec![(s(0.5), s(0.7), s(0.5)); 16]; 16];
    let blocks = generator.generate_chunk_blocks(0, 0, &map, &sampler);
    assert_eq!(blocks, vec![Block::Tree(Tree {
        pos: Point::new(96, 64),
        size: Point::new(32, 64),
        texture_bottom: Some(BlockTexture::Tree),
        texture_top: Some(BlockTexture::TreeTop),
    })]);
}

#[test]
fn a_snow_forest_grows_snowy_trees() {
    let mut generator = WorldGenerator::new(1, 64, 64);
    let sampler = constant_world(0.0, 0.0, 0.0, 0.9);
    let map = vec![vec![(s(0.5), s(0.7), s(0.1)); 16]; 16];
    let blocks = generator.generate_chunk_blocks(1, 1, &map, &sampler);
    assert_eq!(blocks.len(), 256);
    for (i, block) in blocks.iter().enumerate() {
        assert_eq!(*block, Block::Tree(Tree {
            pos: Point::new((16 + i % 16) * 32, (16 + i / 16) * 32),
            size: Point::new(32, 64),
            texture_bottom: Some(BlockTexture::Tree),
            texture_top: Some(BlockTexture::TreeSnowTop),
        }));
    }
}

#[test]
fn a_desert_grows_a_cactus_where_the_chance_exceeds_the_threshold() {
    let mut generator = WorldGenerator::new(1, 64, 64);
    let sampler = |c: NoiseType, x: usize, y: usize| match c {
        NoiseType::BlockChance => if x == 0 && y == 0 {
            s(0.81)
        } else if x == 1 && y == 0 {
            s(0.8)
        } else if x == 2 && y == 0 {
            s(0.75)
        } else {
            s(-0.5)
        },
        _ => s(0.0),
    };
    let map = vec![vec![(s(0.5), s(0.1), s(0.9)); 16]; 16];
    let blocks = generator.generate_chunk_blocks(0, 0, &map, &sampler);
    assert_eq!(blocks, vec![Block::Cactus(Cactus {
        pos: Point::new(0, 0),
        size: Point::new(32, 32),
        texture: Some(BlockTexture::Cactus),
    })]);
}

#[test]
fn nothing_grows_in_the_other_biomes() {
    let sampler = constant_world(0.0, 0.0, 0.0, 0.99);
    for terrain in [
        (s(0.1), s(0.5), s(0.5)),
        (s(0.35), s(0.5), s(0.5)),
        (s(0.5), s(0.5), s(0.5)),
        (s(0.5), s(0.5), s(0.1)),
    ] {
        let mut generator = WorldGenerator::new(1, 64, 64);
        let map = vec![vec![terrain; 16]; 16];
        assert!(generator.generate_chunk_blocks(0, 0, &map, &sampler).is_empty());
    }
}

#[test]
fn pooled_objects_are_reused_before_new_ones_are_made() {
    let mut generator = WorldGenerator::new(1, 64, 64);
    let old_tree = Tree {
        pos: Point::new(9999, 9999),
        size: Point::new(32, 32),
        texture_bottom: None,
        texture_top: Some(BlockTexture::TreeSnowTop),
    };
    generator.block_cache.return_block(Block::Tree(old_tree));
    let sampler = |c: NoiseType, x: usize, y: usize| match c {
        NoiseType::BlockChance => if y == 0 && x < 2 { s(0.9) } else { s(0.0) },
        _ => s(0.0),
    };
    let map = vec![vec![(s(0.5), s(0.7), s(0.5)); 16]; 16];
    let blocks = generator.generate_chunk_blocks(0, 0, &map, &sampler);
    assert_eq!(blocks.len(), 2);
    assert_eq!(blocks[0], Block::Tree(Tree {
        pos: Point::new(0, 0),
        size: Point::new(32, 32),
        texture_bottom: Some(BlockTexture::Tree),
        texture_top: Some(BlockTexture::TreeTop),
    }));
    assert_eq!(blocks[1], Block::Tree(Tree {
        pos: Point::new(32, 0),
        size: Point::new(32, 64),
        texture_bottom: Some(BlockTexture::Tree),
        texture_top: Some(BlockTexture::TreeTop),
    }));
    assert_eq!(generator.block_cache.pooled(BlockType::Tree), 0);
}

#[test]
fn a_pooled_tree_is_skinned_for_the_biome_it_is_placed_in() {
    let mut generator = WorldGenerator::new(1, 64, 64);
    generator.block_cache.return_block(Block::Tree(Tree::new(Point::new(7, 7), &Biome::Forest)));
    generator.block_cache.return_block(Block::Tree(Tree::from_save(
        Tree::new(Point::new(8, 8), &Biome::Forest).to_save(),
    )));
    let sampler = |c: NoiseType, x: usize, y: usize| match c {
        NoiseType::BlockChance => if y == 0 && x < 3 { s(0.9) } else { s(0.0) },
        _ => s(0.0),
    };
    let map = vec![vec![(s(0.5), s(0.7), s(0.1)); 16]; 16];
    let blocks = generator.generate_chunk_blocks(0, 0, &map, &sampler);
    assert_eq!(blocks.len(), 3);
    for (i, block) in blocks.iter().enumerate() {
        assert_eq!(*block, Block::Tree(Tree {
            pos: Point::new(i * 32, 0),
            size: Point::new(32, 64),
            texture_bottom: Some(BlockTexture::Tree),
            texture_top: Some(BlockTexture::TreeSnowTop),
        }));
    }
    assert_eq!(generator.block_cache.pooled(BlockType::Tree), 0);
}

#[test]
fn a_pooled_cactus_is_moved_and_skinned() {
    let mut generator = WorldGenerator::new(1, 64, 64);
    generator.block_cache.return_block(Block::Cactus(Cactus::new(Point::new(7, 7))));
    generator.block_cache.return_block(Block::Tree(Tree::new(Point::new(8, 8), &Biome::Forest)));
    let sampler = |c: NoiseType, x: usize, y: usize| match c {
        NoiseType::BlockChance => if y == 1 && x == 1 { s(0.9) } else { s(0.0) },
        _ => s(0.0),
    };
    let map = vec![vec![(s(0.5), s(0.1), s(0.9)); 16]; 16];
    let blocks = generator.generate_chunk_blocks(0, 0, &map, &sampler);
    assert_eq!(blocks, vec![Block::Cactus(Cactus {
        pos: Point::new(32, 32),
        size: Point::new(32, 32),
        texture: Some(BlockTexture::Cactus),
    })]);
    assert_eq!(generator.block_cache.pooled(BlockType::Cactus), 0);
    assert_eq!(generator.block_cache.pooled(BlockType::Tree), 1);
}

#[test]
fn two_generators_with_one_seed_generate_the_same_chunk() {
    let perlin_a = Perlin::new(42);
    let perlin_b = Perlin::new(42);
    let mut first = WorldGenerator::new(42, 1024, 1024);
    let mut second = WorldGenerator::new(42, 1024, 1024);
    for i in 0..5usize {
        second.block_cache.return_block(Block::Tree(Tree::from_save(
            Tree::new(Point::new(i, i), &Biome::SnowForest).to_save(),
        )));
    }
    let scale = number(first.scale);
    let sampler_a = |c: NoiseType, x: usize, y: usize| s(octave_noise(&perlin_a, scale, c, x, y));
    let sampler_b = |c: NoiseType, x: usize, y: usize| s(octave_noise(&perlin_b, scale, c, x, y));
    for (cx, cy) in [(0usize, 0usize), (1, 0), (7, 3), (20, 31), (0, 0)] {
        let a = first.generate_chunk(cx, cy, &sampler_a, &unit);
        let b = second.generate_chunk(cx, cy, &sampler_b, &unit);
        assert_eq!(a.pos, (cx, cy));
        assert_eq!(b.pos, (cx, cy));
        assert_eq!(a.tiles.len(), 256);
        assert_eq!(a.tiles, b.tiles);
        assert_eq!(outline(&a.blocks), outline(&b.blocks));
    }
}

#[test]
fn another_seed_generates_another_world() {
    let perlin_a = Perlin::new(42);
    let perlin_b = Perlin::new(43);
    let mut first = WorldGenerator::new(42, 1024, 1024);
    let mut second = WorldGenerator::new(43, 1024, 1024);
    let scale = number(first.scale);
    let sampler_a = |c: NoiseType, x: usize, y: usize| s(octave_noise(&perlin_a, scale, c, x, y));
    let sampler_b = |c: NoiseType, x: usize, y: usize| s(octave_noise(&perlin_b, scale, c, x, y));
    let a = first.generate_chunk_height_map(0, 0, &sampler_a, &unit);
    let b = second.generate_chunk_height_map(0, 0, &sampler_b, &unit);
    assert_ne!(a, b);
}

#[test]
fn a_chunk_is_regenerated_where_it_stands() {
    let mut generator = WorldGenerator::new(1, 64, 64);
    let sampler = constant_world(0.5, 0.7, 0.5, 0.9);
    let mut chunk = Chunk::new((2, 2));
    generator.generate_chunk_data(&mut chunk, &sampler, &same);
    assert_eq!(chunk.pos, (2, 2));
    assert_eq!(chunk.tiles.len(), 256);
    assert_eq!(chunk.blocks.len(), 256);
    assert_eq!(chunk.tiles[17].biome, Biome::Forest);
    assert_eq!(chunk.tiles[17].pos, Point::new(33 * 32, 33 * 32));
    assert_eq!(chunk.blocks[17].get_position(), Point::new(33 * 32, 33 * 32));
    assert_eq!(chunk.bounds, (Point::new(1024, 1024), Point::new(1536, 1536)));
    generator.generate_chunk_data(&mut chunk, &sampler, &same);
    assert_eq!(chunk.tiles.len(), 256);
    assert_eq!(chunk.blocks.len(), 256);
}

#[test]
fn object_chances_are_remembered() {
    let mut generator = WorldGenerator::new(1, 64, 64);
    let map = vec![vec![(s(0.5), s(0.7), s(0.5)); 16]; 16];
    let generous = constant_world(0.0, 0.0, 0.0, 0.9);
    let stingy = constant_world(0.0, 0.0, 0.0, 0.0);
    assert_eq!(generator.generate_chunk_blocks(0, 0, &map, &generous).len(), 256);
    assert_eq!(generator.generate_chunk_blocks(0, 0, &map, &stingy).len(), 256);
    assert_eq!(generator.generate_chunk_blocks(0, 1, &map, &stingy).len(), 0);
    assert_eq!(generator.sample_cell(NoiseType::BlockChance, (0, 0), &stingy), s(0.9));
    assert_eq!(generator.sample_cell(NoiseType::BlockChance, (0, 16), &generous), s(0.0));
    assert_eq!(generator.terrain_at((100, 100), &generous, &unit), (s(0.5), s(0.5), s(0.5)));
    let row = generator.height_row(9, 9, 3, &stingy, &same);
    assert_eq!(row, vec![(s(0.0), s(0.0), s(0.0)); 16]);
}
