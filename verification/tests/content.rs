use std::time::{SystemTime, UNIX_EPOCH};
use tileworld::consts::{
    BLOCK_CACHE, CHUNK_PIXELS, CHUNK_SIZE, MENU_WORLD_SIZE, TILE_SIZE, WORLD_SIZE,
};
use tileworld::generate_seed::{generate_seed, seed_from_clock};
use tileworld::mod_content::{BiomeConditions, BiomeMod, ModConfig, TileMod};
use tileworld::mod_loader::ModLoader;
use tileworld::system::{take_reading, SystemError, SystemInfo};
use tileworld::text::{text_eq, text_starts_with};

fn config(id: &str) -> ModConfig {
    ModConfig {
        id: id.to_string(),
        name: format!("{} pack", id),
        version: "1.0".to_string(),
        author: "nobody".to_string(),
        description: None,
    }
}

fn biome(id: &str) -> BiomeMod {
    BiomeMod {
        id: id.to_string(),
        name: id.to_string(),
        conditions: BiomeConditions {
            height_range: None,
            moisture_range: None,
            temperature_range: None,
        },
        tile_state: "Grass".to_string(),
    }
}

fn skin(id: &str) -> TileMod {
    TileMod { id: id.to_string(), name: id.to_string(), texture_path: format!("{}.png", id) }
}

fn ids(biomes: &Vec<BiomeMod>) -> Vec<String> {
    biomes.iter().map(|b| b.id.clone()).collect()
}

#[test]
fn the_grid_constants_fit_together() {
    assert_eq!(CHUNK_SIZE, 16);
    assert_eq!(TILE_SIZE, 32);
    assert_eq!(CHUNK_PIXELS, CHUNK_SIZE * TILE_SIZE);
    assert_eq!(WORLD_SIZE, 1024);
    assert_eq!(MENU_WORLD_SIZE, 48);
    assert_eq!(BLOCK_CACHE, 32);
}

#[test]
fn texts_compare_by_their_characters() {
    assert!(text_eq("Water", "Water"));
    assert!(!text_eq("Water", "water"));
    assert!(!text_eq("Water", "Wate"));
    assert!(!text_eq("Wate", "Water"));
    assert!(text_eq("", ""));
    assert!(text_eq("gr\u{e4}s", "gr\u{e4}s"));
    assert!(!text_eq("gr\u{e4}s", "gras"));
}

#[test]
fn prefixes_are_found_at_the_start_only() {
    assert!(text_starts_with("Custom(lava)", "Custom("));
    assert!(text_starts_with("Custom(", "Custom("));
    assert!(!text_starts_with("Custom", "Custom("));
    assert!(!text_starts_with("xCustom(lava)", "Custom("));
    assert!(text_starts_with("anything", ""));
    assert!(text_starts_with("", ""));
    assert!(!text_starts_with("", "a"));
    assert!(text_starts_with("\u{e4}\u{f6}\u{fc}", "\u{e4}\u{f6}"));
}

#[test]
fn a_new_loader_has_read_nothing() {
    let loader = ModLoader::new();
    assert!(loader.mods.is_empty());
    assert!(loader.get_biomes().is_empty());
    assert!(loader.get_tiles().is_empty());
}

#[test]
fn packs_add_up_in_the_order_they_come() {
    let mut loader = ModLoader::new();
    loader.register_mod(config("a"), Some(vec![biome("a1"), biome("a2")]), Some(vec![skin("s1")]));
    loader.register_mod(config("b"), None, None);
    loader.register_mod(config("c"), Some(vec![biome("c1")]), None);
    loader.register_mod(config("d"), None, Some(vec![skin("s2"), skin("s3")]));
    assert_eq!(loader.mods.len(), 4);
    assert_eq!(loader.mods[2].id, "c");
    assert_eq!(ids(loader.get_biomes()), vec!["a1", "a2", "c1"]);
    let skins: Vec<String> = loader.get_tiles().iter().map(|t| t.id.clone()).collect();
    assert_eq!(skins, vec!["s1", "s2", "s3"]);
}

#[test]
fn reading_again_forgets_packs_and_biomes_but_not_skins() {
    let mut loader = ModLoader::new();
    loader.register_mod(config("a"), Some(vec![biome("a1")]), Some(vec![skin("s1")]));
    loader.begin_loading();
    assert!(loader.mods.is_empty());
    assert!(loader.get_biomes().is_empty());
    assert_eq!(loader.get_tiles().len(), 1);
    loader.register_mod(config("a"), Some(vec![biome("a1")]), Some(vec![skin("s1")]));
    assert_eq!(loader.get_biomes().len(), 1);
    assert_eq!(loader.get_tiles().len(), 2);
}

#[test]
fn a_seed_is_the_low_half_of_the_seconds() {
    assert_eq!(seed_from_clock(Some(0)), 0);
    assert_eq!(seed_from_clock(Some(1_700_000_000)), 1_700_000_000);
    assert_eq!(seed_from_clock(Some(4_294_967_295)), 4_294_967_295);
    assert_eq!(seed_from_clock(Some(4_294_967_296)), 0);
    assert_eq!(seed_from_clock(Some(4_294_967_296 + 42)), 42);
    assert_eq!(seed_from_clock(Some(u64::MAX)), u32::MAX);
    assert_eq!(seed_from_clock(None), 0);
}

#[test]
fn a_generated_seed_comes_from_the_clock() {
    let before = SystemTime::now().duration_since(UNIX_EPOCH).expect("after 1970").as_secs();
    let seed = generate_seed();
    let after = SystemTime::now().duration_since(UNIX_EPOCH).expect("after 1970").as_secs();
    let candidates: Vec<u32> = (before..=after).map(|secs| secs as u32).collect();
    assert!(candidates.contains(&seed));
}

#[test]
fn a_reading_reports_whole_mebibytes() {
    let load = 12.5f32.to_bits();
    assert_eq!(take_reading(Some((0, load))), Ok((0, load)));
    assert_eq!(take_reading(Some((1_048_575, load))), Ok((0, load)));
    assert_eq!(take_reading(Some((1_048_576, load))), Ok((1, load)));
    assert_eq!(take_reading(Some((300 * 1_048_576 + 5, load))), Ok((300, load)));
    assert_eq!(take_reading(Some((u64::MAX, load))), Ok((17_592_186_044_415, load)));
}

#[test]
fn a_reading_fails_for_a_missing_process_or_a_negative_load() {
    assert_eq!(take_reading(None), Err(SystemError::ProcessNotFound));
    assert_eq!(take_reading(Some((5, (-0.5f32).to_bits()))), Err(SystemError::CpuReadError));
    assert_eq!(take_reading(Some((5, (-1.0e-40f32).to_bits()))), Err(SystemError::CpuReadError));
    assert_eq!(
        take_reading(Some((5, f32::NEG_INFINITY.to_bits()))),
        Err(SystemError::CpuReadError)
    );
    assert_eq!(take_reading(Some((5, (-0.0f32).to_bits()))), Ok((0, (-0.0f32).to_bits())));
    assert_eq!(take_reading(Some((5, 0.0f32.to_bits()))), Ok((0, 0)));
    assert_eq!(take_reading(Some((5, f32::NAN.to_bits()))), Ok((0, f32::NAN.to_bits())));
    assert_eq!(take_reading(Some((5, 0xFFC0_0000))), Ok((0, 0xFFC0_0000)));
}

#[test]
fn frames_are_counted_until_a_second_has_gone_by() {
    let mut info = SystemInfo::new();
    assert_eq!(info, SystemInfo { process_memory: 0, cpu_usage: 0, fps: 0, frames_count: 0 });
    for _ in 0..59 {
        info.update(false, None);
    }
    assert_eq!(info.frames_count, 59);
    assert_eq!(info.fps, 0);
    info.update(true, None);
    assert_eq!(info.fps, 60);
    assert_eq!(info.frames_count, 0);
    info.update(false, None);
    assert_eq!(info.fps, 60);
    assert_eq!(info.frames_count, 1);
}

#[test]
fn messages_replace_or_clear_the_figures() {
    let load = 33.0f32.to_bits();
    let mut info = SystemInfo::new();
    info.update(false, Some(Ok((512, load))));
    assert_eq!(info.process_memory, 512);
    assert_eq!(info.cpu_usage, load);
    info.update(false, None);
    assert_eq!(info.process_memory, 512);
    assert_eq!(info.cpu_usage, load);
    info.update(false, Some(Err(SystemError::MemoryReadError)));
    assert_eq!(info.process_memory, 0);
    assert_eq!(info.cpu_usage, load);
    info.update(false, Some(Ok((7, load))));
    info.update(false, Some(Err(SystemError::CpuReadError)));
    assert_eq!(info.process_memory, 7);
    assert_eq!(info.cpu_usage, 0);
    info.update(false, Some(Ok((7, load))));
    info.update(false, Some(Err(SystemError::ProcessNotFound)));
    assert_eq!(info.process_memory, 0);
    assert_eq!(info.cpu_usage, 0);
    assert_eq!(info.frames_count, 7);
}
