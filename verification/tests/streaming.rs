use tileworld::chunk::Chunk;
use tileworld::consts::{CHUNK_PIXELS, MAX_CHUNKS, RENDER_DISTANCE};
use tileworld::generator::WorldGenerator;
use tileworld::noise::NoiseType;
use tileworld::point::Point;
use tileworld::sample::Sample;
use tileworld::sorting::sort_farthest_first;
use tileworld::world::{distance_squared, is_within, World, NEIGHBOURHOOD};

fn s(v: f64) -> Sample {
    Sample::from_bits(v.to_bits())
}

fn flat(_channel: NoiseType, _x: usize, _y: usize) -> Sample {
    s(0.5)
}

fn same(v: Sample) -> Sample {
    v
}

fn at_chunk(x: usize, y: usize) -> Point {
    Point::new(x * CHUNK_PIXELS + 17, y * CHUNK_PIXELS + 300)
}

fn positions(world: &World) -> Vec<(usize, usize)> {
    world.chunks.iter().map(|c| c.pos).collect()
}

fn sorted(mut v: Vec<(usize, usize)>) -> Vec<(usize, usize)> {
    v.sort();
    v
}

fn disc(focus: (usize, usize)) -> Vec<(usize, usize)> {
    let mut out = Vec::new();
    for dy in -2i64..=2 {
        for dx in -2i64..=2 {
            let x = focus.0 as i64 + dx;
            let y = focus.1 as i64 + dy;
            if dx * dx + dy * dy <= 4 && x >= 0 && y >= 0 {
                out.push((x as usize, y as usize));
            }
        }
    }
    out
}

#[test]
fn the_limits_are_what_they_are() {
    assert_eq!(MAX_CHUNKS, 32);
    assert_eq!(RENDER_DISTANCE, 2);
    assert_eq!(CHUNK_PIXELS, 512);
    assert_eq!(NEIGHBOURHOOD, 25);
}

#[test]
fn distances_are_squared_exactly() {
    assert_eq!(distance_squared((0, 0), (3, 4)), 25);
    assert_eq!(distance_squared((3, 4), (0, 0)), 25);
    assert_eq!(distance_squared((7, 7), (7, 7)), 0);
    assert_eq!(distance_squared((10, 2), (8, 5)), 13);
    assert_eq!(distance_squared((0, 0), (1 << 40, 0)), 1u128 << 80);
}

#[test]
fn the_render_distance_is_a_straight_line() {
    assert!(is_within((5, 5), (5, 5), 2));
    assert!(is_within((7, 5), (5, 5), 2));
    assert!(is_within((5, 3), (5, 5), 2));
    assert!(is_within((6, 6), (5, 5), 2));
    assert!(!is_within((7, 6), (5, 5), 2));
    assert!(!is_within((7, 7), (5, 5), 2));
    assert!(!is_within((8, 5), (5, 5), 2));
    assert!(is_within((8, 5), (5, 5), 3));
    assert!(!is_within((6, 5), (5, 5), 0));
    assert!(is_within((5, 5), (5, 5), 0));
}

#[test]
fn a_new_world_is_empty() {
    let world = World::new(1024, 512);
    assert_eq!(world.width, 1024);
    assert_eq!(world.height, 512);
    assert!(world.chunks.is_empty());
    assert_eq!(world.chunk_pool.available_chunks(), 0);
    assert!(!world.has_chunk(0, 0));
}

#[test]
fn streaming_activates_the_disc_around_the_focus() {
    let mut world = World::new(1024, 1024);
    let mut generator = WorldGenerator::new(1, 1024, 1024);
    world.update_chunks(at_chunk(5, 5), &mut generator, &flat, &same);
    assert_eq!(world.chunks.len(), 13);
    assert_eq!(positions(&world), disc((5, 5)));
    assert_eq!(positions(&world)[0], (5, 3));
    assert_eq!(positions(&world)[12], (5, 7));
    for chunk in &world.chunks {
        assert_eq!(chunk.tiles.len(), 256);
        assert!(is_within(chunk.pos, (5, 5), 2));
    }
    assert!(world.has_chunk(5, 5));
    assert!(world.has_chunk(7, 5));
    assert!(!world.has_chunk(7, 6));
}

#[test]
fn streaming_stays_on_the_grid() {
    let mut world = World::new(1024, 1024);
    let mut generator = WorldGenerator::new(1, 1024, 1024);
    world.update_chunks(Point::new(0, 0), &mut generator, &flat, &same);
    assert_eq!(positions(&world), vec![(0, 0), (1, 0), (2, 0), (0, 1), (1, 1), (0, 2)]);
    world.update_chunks(Point::new(511, 511), &mut generator, &flat, &same);
    assert_eq!(world.chunks.len(), 6);
    world.update_chunks(Point::new(512, 0), &mut generator, &flat, &same);
    assert_eq!(sorted(positions(&world)), sorted(disc((1, 0))));
    assert_eq!(world.chunks.len(), 8);
}

#[test]
fn streaming_again_at_the_same_focus_changes_nothing() {
    let mut world = World::new(1024, 1024);
    let mut generator = WorldGenerator::new(1, 1024, 1024);
    world.update_chunks(at_chunk(4, 4), &mut generator, &flat, &same);
    let before = positions(&world);
    world.update_chunks(at_chunk(4, 4), &mut generator, &flat, &same);
    assert_eq!(positions(&world), before);
    assert_eq!(world.chunk_pool.available_chunks(), 0);
}

#[test]
fn moving_the_focus_keeps_what_is_near_and_recycles_what_is_far() {
    let mut world = World::new(1024, 1024);
    let mut generator = WorldGenerator::new(1, 1024, 1024);
    world.update_chunks(at_chunk(10, 10), &mut generator, &flat, &same);
    world.remove_far_chunks(11, 10, 2);
    assert_eq!(world.chunks.len(), 8);
    assert_eq!(world.chunk_pool.available_chunks(), 5);
    assert_eq!(
        positions(&world),
        vec![(10, 9), (11, 9), (9, 10), (10, 10), (11, 10), (12, 10), (10, 11), (11, 11)]
    );
    world.create_nearby_chunks(11, 10, 2, &mut generator, &flat, &same);
    assert_eq!(world.chunks.len(), 13);
    assert_eq!(world.chunk_pool.available_chunks(), 0);
    assert_eq!(sorted(positions(&world)), sorted(disc((11, 10))));
    assert_eq!(
        positions(&world)[8..].to_vec(),
        vec![(11, 8), (12, 9), (13, 10), (12, 11), (11, 12)]
    );
    for chunk in &world.chunks {
        assert_eq!(chunk.tiles.len(), 256);
        assert_eq!(chunk.bounds.0, Point::new(chunk.pos.0 * 512, chunk.pos.1 * 512));
        assert_eq!(chunk.tiles[0].pos, Point::new(chunk.pos.0 * 512, chunk.pos.1 * 512));
    }
}

#[test]
fn evicted_chunks_wait_in_the_pool() {
    let mut world = World::new(1024, 1024);
    let mut generator = WorldGenerator::new(1, 1024, 1024);
    world.update_chunks(at_chunk(10, 10), &mut generator, &flat, &same);
    world.update_chunks(Point::new(0, 0), &mut generator, &flat, &same);
    assert_eq!(world.chunks.len(), 6);
    assert_eq!(world.chunk_pool.available_chunks(), 7);
    world.update_chunks(at_chunk(10, 10), &mut generator, &flat, &same);
    assert_eq!(world.chunks.len(), 13);
    assert_eq!(world.chunk_pool.available_chunks(), 0);
}

#[test]
fn forty_moves_never_exceed_the_limits() {
    let mut world = World::new(1024, 1024);
    let mut generator = WorldGenerator::new(42, 1024, 1024);
    let mut visited = Vec::new();
    for step in 0..40usize {
        let focus = (3 * step, (7 * step) % 11);
        assert!(!visited.contains(&focus));
        visited.push(focus);
        let active_before = world.chunks.len();
        let far = world.chunks.iter().filter(|c| !is_within(c.pos, focus, 2)).count();
        let pooled_before = world.chunk_pool.available_chunks();
        world.cleanup_chunks();
        world.remove_far_chunks(focus.0, focus.1, 2);
        assert_eq!(world.chunks.len(), active_before - far);
        assert_eq!(world.chunk_pool.available_chunks(), (pooled_before + far).min(32));
        assert!(world.chunk_pool.available_chunks() <= 32);
        world.create_nearby_chunks(focus.0, focus.1, 2, &mut generator, &flat, &same);
        assert!(world.chunks.len() <= MAX_CHUNKS);
        assert!(world.chunk_pool.available_chunks() <= 32);
        assert_eq!(sorted(positions(&world)), sorted(disc(focus)));
        for chunk in &world.chunks {
            assert!(is_within(chunk.pos, focus, RENDER_DISTANCE));
        }
    }
}

#[test]
fn forty_ticks_never_exceed_the_limits() {
    let mut world = World::new(1024, 1024);
    let mut generator = WorldGenerator::new(42, 1024, 1024);
    for step in 0..40usize {
        let focus = (2 + 5 * step, 2 + (3 * step) % 7);
        world.tick(at_chunk(focus.0, focus.1), &mut generator, &flat, &same);
        assert_eq!(world.chunks.len(), 13);
        assert!(world.chunks.len() <= MAX_CHUNKS);
        assert!(world.chunk_pool.available_chunks() <= MAX_CHUNKS);
        assert_eq!(sorted(positions(&world)), sorted(disc(focus)));
    }
}

#[test]
fn a_chunk_is_created_once() {
    let mut world = World::new(1024, 1024);
    let mut generator = WorldGenerator::new(1, 1024, 1024);
    world.create_chunk_if_needed(3, 4, &mut generator, &flat, &same);
    assert_eq!(positions(&world), vec![(3, 4)]);
    assert_eq!(world.chunks[0].tiles.len(), 256);
    world.create_chunk_if_needed(3, 4, &mut generator, &flat, &same);
    assert_eq!(positions(&world), vec![(3, 4)]);
    world.create_chunk_if_needed(4, 3, &mut generator, &flat, &same);
    assert_eq!(positions(&world), vec![(3, 4), (4, 3)]);
}

#[test]
fn a_pooled_chunk_is_reused_at_its_new_place() {
    let mut world = World::new(1024, 1024);
    let mut generator = WorldGenerator::new(1, 1024, 1024);
    world.chunk_pool.return_chunk(Chunk::new((9, 9)));
    world.create_chunk_if_needed(1, 2, &mut generator, &flat, &same);
    assert_eq!(world.chunk_pool.available_chunks(), 0);
    assert_eq!(world.chunks[0].pos, (1, 2));
    assert_eq!(world.chunks[0].bounds, (Point::new(512, 1024), Point::new(1024, 1536)));
    assert_eq!(world.chunks[0].tiles.len(), 256);
    assert_eq!(world.chunks[0].tiles[0].pos, Point::new(512, 1024));
}

#[test]
fn a_narrow_distance_wants_fewer_chunks() {
    let mut world = World::new(1024, 1024);
    let mut generator = WorldGenerator::new(1, 1024, 1024);
    world.create_nearby_chunks(5, 5, 1, &mut generator, &flat, &same);
    assert_eq!(positions(&world), vec![(5, 4), (4, 5), (5, 5), (6, 5), (5, 6)]);
    world.create_nearby_chunks(5, 5, 0, &mut generator, &flat, &same);
    assert_eq!(world.chunks.len(), 5);
    world.remove_far_chunks(5, 5, 0);
    assert_eq!(positions(&world), vec![(5, 5)]);
    assert_eq!(world.chunk_pool.available_chunks(), 4);
}

#[test]
fn a_wide_distance_wants_the_whole_neighbourhood_and_no_more() {
    let mut world = World::new(1024, 1024);
    let mut generator = WorldGenerator::new(1, 1024, 1024);
    world.create_nearby_chunks(5, 5, 10, &mut generator, &flat, &same);
    assert_eq!(world.chunks.len(), 25);
    assert_eq!(positions(&world)[0], (3, 3));
    assert_eq!(positions(&world)[24], (7, 7));
}

#[test]
fn cleanup_leaves_a_small_world_alone() {
    let mut world = World::new(1024, 1024);
    for i in 0..32usize {
        world.chunks.push(Chunk::new((i, 0)));
    }
    world.cleanup_chunks();
    assert_eq!(world.chunks.len(), 32);
    assert_eq!(positions(&world)[0], (0, 0));
    assert_eq!(positions(&world)[31], (31, 0));
    assert_eq!(world.chunk_pool.available_chunks(), 0);
}

#[test]
fn cleanup_keeps_the_chunks_farthest_from_the_center() {
    let mut world = World::new(1024, 1024);
    for i in 0..40usize {
        world.chunks.push(Chunk::new((39 - i, 0)));
    }
    world.cleanup_chunks();
    assert_eq!(world.chunks.len(), 32);
    let expected: Vec<(usize, usize)> = (0..32usize).map(|i| (i, 0)).collect();
    assert_eq!(positions(&world), expected);
    assert_eq!(world.chunk_pool.available_chunks(), 8);
    assert_eq!(world.chunk_pool.get_chunk().map(|c| c.pos), Some((32, 0)));
    assert_eq!(world.chunk_pool.get_chunk().map(|c| c.pos), Some((33, 0)));
}

#[test]
fn cleanup_overflows_a_pool_that_is_nearly_full() {
    let mut world = World::new(0, 0);
    for i in 0..30usize {
        world.chunk_pool.return_chunk(Chunk::new((100 + i, 100)));
    }
    for i in 0..37usize {
        world.chunks.push(Chunk::new((i, 1)));
    }
    world.cleanup_chunks();
    assert_eq!(world.chunks.len(), 32);
    assert_eq!(positions(&world)[0], (36, 1));
    assert_eq!(positions(&world)[31], (5, 1));
    assert_eq!(world.chunk_pool.available_chunks(), 32);
    assert_eq!(world.chunk_pool.get_chunk().map(|c| c.pos), Some((1, 1)));
    assert_eq!(world.chunk_pool.get_chunk().map(|c| c.pos), Some((0, 1)));
    assert_eq!(world.chunk_pool.get_chunk().map(|c| c.pos), Some((129, 100)));
}

#[test]
fn sorting_puts_the_farthest_first_and_keeps_ties_in_order() {
    let mut chunks = vec![
        Chunk::new((5, 5)),
        Chunk::new((6, 5)),
        Chunk::new((5, 6)),
        Chunk::new((9, 5)),
        Chunk::new((4, 5)),
        Chunk::new((5, 1)),
        Chunk::new((1, 5)),
    ];
    sort_farthest_first(&mut chunks, (5, 5));
    let order: Vec<(usize, usize)> = chunks.iter().map(|c| c.pos).collect();
    assert_eq!(order, vec![(9, 5), (5, 1), (1, 5), (6, 5), (5, 6), (4, 5), (5, 5)]);
    let mut none: Vec<Chunk> = Vec::new();
    sort_farthest_first(&mut none, (0, 0));
    assert!(none.is_empty());
}
