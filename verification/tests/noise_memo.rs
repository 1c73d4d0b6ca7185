use tileworld::noise::{
    key_of, NoiseCache, NoiseType, BLOCK_CHANCE_OFFSET, MOISTURE_OFFSET, TEMPERATURE_OFFSET,
};
use tileworld::sample::Sample;

fn s(v: f64) -> Sample {
    Sample::from_bits(v.to_bits())
}

#[test]
fn a_miss_computes_and_a_hit_does_not() {
    let mut cache = NoiseCache::new();
    assert_eq!(cache.get((1, 2), NoiseType::Height), None);
    let first = cache.get_or_generate((1, 2), NoiseType::Height, || s(0.25));
    assert_eq!(first, s(0.25));
    assert_eq!(cache.get((1, 2), NoiseType::Height), Some(s(0.25)));
    let second = cache.get_or_generate((1, 2), NoiseType::Height, || s(0.75));
    assert_eq!(second, s(0.25));
    assert_eq!(cache.get((1, 2), NoiseType::Height), Some(s(0.25)));
}

#[test]
fn a_hit_returns_what_the_sampler_gave() {
    let sampler = |x: usize, y: usize| s(x as f64 * 0.5 - y as f64 * 0.125);
    let mut cache = NoiseCache::new();
    for y in 0..8usize {
        for x in 0..8usize {
            let miss = cache.get_or_generate((x, y), NoiseType::Moisture, || sampler(x, y));
            assert_eq!(miss, sampler(x, y));
        }
    }
    for y in 0..8usize {
        for x in 0..8usize {
            let hit = cache.get_or_generate((x, y), NoiseType::Moisture, || s(f64::NAN));
            assert_eq!(hit, sampler(x, y));
        }
    }
}

#[test]
fn a_hit_does_not_call_the_computation() {
    let mut cache = NoiseCache::new();
    cache.get_or_generate((5, 5), NoiseType::BlockChance, || s(0.5));
    let value = cache.get_or_generate((5, 5), NoiseType::BlockChance, || -> Sample {
        panic!("the stored value has to be returned")
    });
    assert_eq!(value, s(0.5));
}

#[test]
fn channels_are_kept_apart() {
    let mut cache = NoiseCache::new();
    cache.get_or_generate((1, 1), NoiseType::Height, || s(0.1));
    cache.get_or_generate((1, 1), NoiseType::Moisture, || s(0.2));
    cache.get_or_generate((1, 1), NoiseType::Temperature, || s(0.3));
    cache.get_or_generate((1, 1), NoiseType::BlockChance, || s(0.4));
    assert_eq!(cache.get((1, 1), NoiseType::Height), Some(s(0.1)));
    assert_eq!(cache.get((1, 1), NoiseType::Moisture), Some(s(0.2)));
    assert_eq!(cache.get((1, 1), NoiseType::Temperature), Some(s(0.3)));
    assert_eq!(cache.get((1, 1), NoiseType::BlockChance), Some(s(0.4)));
}

#[test]
fn cells_are_kept_apart() {
    let mut cache = NoiseCache::new();
    cache.get_or_generate((1, 2), NoiseType::Height, || s(0.1));
    cache.get_or_generate((2, 1), NoiseType::Height, || s(0.2));
    assert_eq!(cache.get((1, 2), NoiseType::Height), Some(s(0.1)));
    assert_eq!(cache.get((2, 1), NoiseType::Height), Some(s(0.2)));
    assert_eq!(cache.get((1, 1), NoiseType::Height), None);
}

#[test]
fn keys_hold_both_coordinates() {
    assert_eq!(key_of((0, 0)), 0);
    assert_eq!(key_of((0, 7)), 7);
    assert_eq!(key_of((1, 0)), 1u128 << 64);
    assert_eq!(key_of((3, 5)), (3u128 << 64) + 5);
    assert_eq!(key_of((usize::MAX, usize::MAX)), ((usize::MAX as u128) << 64) + usize::MAX as u128);
    assert_ne!(key_of((1, 2)), key_of((2, 1)));
}

#[test]
fn each_channel_has_its_own_offset() {
    assert_eq!(NoiseType::Height.offset(), s(0.0));
    assert_eq!(NoiseType::Moisture.offset(), s(10000.0));
    assert_eq!(NoiseType::Temperature.offset(), s(20000.0));
    assert_eq!(NoiseType::BlockChance.offset(), s(30000.0));
    assert_eq!(MOISTURE_OFFSET, 10000.0f64.to_bits());
    assert_eq!(TEMPERATURE_OFFSET, 20000.0f64.to_bits());
    assert_eq!(BLOCK_CHANCE_OFFSET, 30000.0f64.to_bits());
}
