use tileworld::biome::{
    compute_biome, compute_surface, matches_conditions, parse_declared_state, within, Biome,
    BiomeCache, BEACH_ELEVATION, COLD_TEMPERATURE, DRY_MOISTURE, HOT_TEMPERATURE, RIVER_ELEVATION,
    WET_MOISTURE,
};
use tileworld::generator::WorldGenerator;
use tileworld::mod_content::{BiomeConditions, BiomeMod};
use tileworld::sample::Sample;
use tileworld::tile::TileState;

fn s(v: f64) -> Sample {
    Sample::from_bits(v.to_bits())
}

fn range(lo: f64, hi: f64) -> Option<(Sample, Sample)> {
    Some((s(lo), s(hi)))
}

fn custom(id: &str, conditions: BiomeConditions, tile_state: &str) -> BiomeMod {
    BiomeMod {
        id: id.to_string(),
        name: format!("{} biome", id),
        conditions,
        tile_state: tile_state.to_string(),
    }
}

fn anywhere() -> BiomeConditions {
    BiomeConditions { height_range: None, moisture_range: None, temperature_range: None }
}

fn built_in(h: f64, m: f64, t: f64) -> Biome {
    compute_biome(&Vec::new(), s(h), s(m), s(t))
}

#[test]
fn thresholds_are_the_doubles_they_stand_for() {
    assert_eq!(RIVER_ELEVATION, 0.3f64.to_bits());
    assert_eq!(BEACH_ELEVATION, 0.4f64.to_bits());
    assert_eq!(COLD_TEMPERATURE, 0.3f64.to_bits());
    assert_eq!(HOT_TEMPERATURE, 0.8f64.to_bits());
    assert_eq!(WET_MOISTURE, 0.6f64.to_bits());
    assert_eq!(DRY_MOISTURE, 0.3f64.to_bits());
}

#[test]
fn each_built_in_biome_has_its_region() {
    assert_eq!(built_in(0.1, 0.5, 0.5), Biome::River);
    assert_eq!(built_in(0.35, 0.5, 0.5), Biome::Beach);
    assert_eq!(built_in(0.5, 0.7, 0.1), Biome::SnowForest);
    assert_eq!(built_in(0.5, 0.5, 0.1), Biome::SnowPlains);
    assert_eq!(built_in(0.5, 0.1, 0.9), Biome::Desert);
    assert_eq!(built_in(0.5, 0.7, 0.5), Biome::Forest);
    assert_eq!(built_in(0.5, 0.5, 0.5), Biome::Plains);
}

#[test]
fn river_wins_over_every_later_rule() {
    assert_eq!(built_in(0.2, 0.9, 0.1), Biome::River);
    assert_eq!(built_in(0.2, 0.1, 0.9), Biome::River);
    assert_eq!(built_in(0.0, 0.0, 0.0), Biome::River);
}

#[test]
fn elevation_at_the_river_threshold_is_not_river() {
    assert_eq!(built_in(0.3, 0.5, 0.5), Biome::Beach);
    assert_ne!(built_in(0.3, 0.5, 0.1), Biome::River);
    assert_eq!(built_in(0.3, 0.5, 0.1), Biome::SnowPlains);
    assert_eq!(built_in(0.29999999999999993, 0.5, 0.5), Biome::River);
}

#[test]
fn elevation_below_the_beach_threshold_is_beach_when_not_cold() {
    assert_eq!(built_in(0.39, 0.5, 0.31), Biome::Beach);
    assert_eq!(built_in(0.39999999999999997, 0.5, 0.31), Biome::Beach);
}

#[test]
fn elevation_at_the_beach_threshold_is_not_beach() {
    assert_eq!(built_in(0.4, 0.5, 0.31), Biome::Plains);
    assert_eq!(built_in(0.4, 0.7, 0.31), Biome::Forest);
    assert_eq!(built_in(0.4, 0.5, 0.3), Biome::Plains);
    assert_eq!(built_in(0.4, 0.7, 0.3), Biome::Forest);
}

#[test]
fn temperature_at_the_cold_threshold_is_neither_beach_nor_snow() {
    assert_eq!(built_in(0.35, 0.5, 0.3), Biome::Plains);
    assert_eq!(built_in(0.35, 0.7, 0.3), Biome::Forest);
    assert_eq!(built_in(0.35, 0.5, 0.29), Biome::SnowPlains);
    assert_eq!(built_in(0.5, 0.5, 0.3), Biome::Plains);
}

#[test]
fn moisture_and_heat_thresholds_belong_to_the_mild_side() {
    assert_eq!(built_in(0.5, 0.6, 0.5), Biome::Plains);
    assert_eq!(built_in(0.5, 0.6000000000000001, 0.5), Biome::Forest);
    assert_eq!(built_in(0.5, 0.6, 0.1), Biome::SnowPlains);
    assert_eq!(built_in(0.5, 0.1, 0.8), Biome::Plains);
    assert_eq!(built_in(0.5, 0.3, 0.9), Biome::Plains);
    assert_eq!(built_in(0.5, 0.29, 0.9), Biome::Desert);
    assert_eq!(built_in(0.5, 0.7, 0.9), Biome::Forest);
}

#[test]
fn every_cell_of_the_unit_cube_gets_a_built_in_biome() {
    let customs = Vec::new();
    let steps = 20;
    for a in 0..=steps {
        for b in 0..=steps {
            for c in 0..=steps {
                let h = a as f64 / steps as f64;
                let m = b as f64 / steps as f64;
                let t = c as f64 / steps as f64;
                let first = compute_biome(&customs, s(h), s(m), s(t));
                let second = compute_biome(&customs, s(h), s(m), s(t));
                assert_eq!(first, second);
                assert!(!matches!(first, Biome::Custom(_)));
            }
        }
    }
}

#[test]
fn values_that_are_no_numbers_fall_through_to_plains() {
    assert_eq!(built_in(f64::NAN, f64::NAN, f64::NAN), Biome::Plains);
    assert_eq!(built_in(f64::NAN, 0.7, 0.5), Biome::Forest);
}

#[test]
fn a_range_includes_both_its_ends() {
    assert!(within(s(0.2), &range(0.2, 0.5)));
    assert!(within(s(0.5), &range(0.2, 0.5)));
    assert!(within(s(0.3), &range(0.2, 0.5)));
    assert!(!within(s(0.19), &range(0.2, 0.5)));
    assert!(!within(s(0.51), &range(0.2, 0.5)));
    assert!(within(s(123.0), &None));
    assert!(!within(s(f64::NAN), &range(0.0, 1.0)));
}

#[test]
fn conditions_need_all_three_ranges() {
    let c = BiomeConditions {
        height_range: range(0.5, 1.0),
        moisture_range: None,
        temperature_range: range(0.0, 0.2),
    };
    assert!(matches_conditions(&(s(0.6), s(0.9), s(0.1)), &c));
    assert!(!matches_conditions(&(s(0.4), s(0.9), s(0.1)), &c));
    assert!(!matches_conditions(&(s(0.6), s(0.9), s(0.3)), &c));
    assert!(matches_conditions(&(s(0.0), s(0.0), s(0.0)), &anywhere()));
}

#[test]
fn the_first_matching_custom_biome_wins() {
    let customs = vec![
        custom(
            "peak",
            BiomeConditions {
                height_range: range(0.9, 1.0),
                moisture_range: None,
                temperature_range: None,
            },
            "Sand",
        ),
        custom(
            "highland",
            BiomeConditions {
                height_range: range(0.7, 1.0),
                moisture_range: None,
                temperature_range: None,
            },
            "Grass",
        ),
    ];
    assert_eq!(compute_biome(&customs, s(0.95), s(0.5), s(0.5)), Biome::Custom("peak".to_string()));
    assert_eq!(
        compute_biome(&customs, s(0.8), s(0.5), s(0.5)),
        Biome::Custom("highland".to_string())
    );
    assert_eq!(compute_biome(&customs, s(0.5), s(0.5), s(0.5)), Biome::Plains);
    assert_eq!(compute_biome(&customs, s(0.1), s(0.5), s(0.5)), Biome::River);
}

#[test]
fn a_custom_biome_without_ranges_shadows_every_built_in_one() {
    let customs = vec![custom("void", anywhere(), "Water")];
    assert_eq!(compute_biome(&customs, s(0.1), s(0.5), s(0.5)), Biome::Custom("void".to_string()));
    assert_eq!(compute_biome(&customs, s(0.9), s(0.1), s(0.9)), Biome::Custom("void".to_string()));
}

#[test]
fn built_in_biomes_have_fixed_surfaces() {
    let customs = Vec::new();
    assert_eq!(compute_surface(&customs, &Biome::River), TileState::Water);
    assert_eq!(compute_surface(&customs, &Biome::Beach), TileState::Sand);
    assert_eq!(compute_surface(&customs, &Biome::Desert), TileState::Sand);
    assert_eq!(compute_surface(&customs, &Biome::Plains), TileState::Grass);
    assert_eq!(compute_surface(&customs, &Biome::Forest), TileState::Grass);
    assert_eq!(compute_surface(&customs, &Biome::SnowPlains), TileState::SnowGrass);
    assert_eq!(compute_surface(&customs, &Biome::SnowForest), TileState::SnowGrass);
}

#[test]
fn declared_states_are_read_by_name() {
    assert_eq!(parse_declared_state(&"Water".to_string()), TileState::Water);
    assert_eq!(parse_declared_state(&"Sand".to_string()), TileState::Sand);
    assert_eq!(parse_declared_state(&"Grass".to_string()), TileState::Grass);
    assert_eq!(parse_declared_state(&"SnowGrass".to_string()), TileState::SnowGrass);
    assert_eq!(parse_declared_state(&"Tilled".to_string()), TileState::Tilled);
    assert_eq!(parse_declared_state(&"Lava".to_string()), TileState::Custom("Lava".to_string()));
    assert_eq!(parse_declared_state(&"water".to_string()), TileState::Custom("water".to_string()));
    assert_eq!(parse_declared_state(&"".to_string()), TileState::Custom("".to_string()));
    assert_eq!(
        parse_declared_state(&"Custom(lava)".to_string()),
        TileState::Custom("Custom(lava)".to_string())
    );
    assert_eq!(
        parse_declared_state(&"Custom(".to_string()),
        TileState::Custom("Custom(".to_string())
    );
    assert_eq!(
        parse_declared_state(&"Custom".to_string()),
        TileState::Custom("Custom".to_string())
    );
}

#[test]
fn custom_biomes_carry_their_declared_surface() {
    let customs = vec![
        custom("swamp", anywhere(), "Water"),
        custom("lava", anywhere(), "Custom(lava)"),
        custom("swamp", anywhere(), "Sand"),
        custom("odd", anywhere(), "Marble"),
    ];
    assert_eq!(compute_surface(&customs, &Biome::Custom("swamp".to_string())), TileState::Water);
    assert_eq!(
        compute_surface(&customs, &Biome::Custom("lava".to_string())),
        TileState::Custom("Custom(lava)".to_string())
    );
    assert_eq!(
        compute_surface(&customs, &Biome::Custom("odd".to_string())),
        TileState::Custom("Marble".to_string())
    );
    assert_eq!(compute_surface(&customs, &Biome::Custom("unknown".to_string())), TileState::Grass);
}

#[test]
fn the_generator_classifies_with_its_own_custom_biomes() {
    let mut generator = WorldGenerator::new(7, 1024, 1024);
    assert_eq!(generator.get_biome(s(0.95), s(0.5), s(0.5)), Biome::Plains);
    generator.add_custom_biome(custom(
        "peak",
        BiomeConditions {
            height_range: range(0.9, 1.0),
            moisture_range: None,
            temperature_range: None,
        },
        "Custom(rock)",
    ));
    assert_eq!(generator.get_biome(s(0.95), s(0.5), s(0.5)), Biome::Custom("peak".to_string()));
    assert_eq!(generator.get_biome(s(0.5), s(0.5), s(0.5)), Biome::Plains);
    assert_eq!(
        generator.get_tile_state(Biome::Custom("peak".to_string())),
        TileState::Custom("Custom(rock)".to_string())
    );
    assert_eq!(generator.get_tile_state(Biome::River), TileState::Water);
}

#[test]
fn the_biome_memo_answers_from_memory() {
    let mut cache = BiomeCache::new();
    let none = Vec::new();
    let first = cache.get_or_calculate_biome((3, 4), s(0.1), s(0.5), s(0.5), &none);
    assert_eq!(first, Biome::River);
    let again = cache.get_or_calculate_biome((3, 4), s(0.9), s(0.9), s(0.5), &none);
    assert_eq!(again, Biome::River);
    let elsewhere = cache.get_or_calculate_biome((4, 3), s(0.9), s(0.9), s(0.5), &none);
    assert_eq!(elsewhere, Biome::Forest);
}

#[test]
fn the_surface_memo_answers_from_memory() {
    let mut cache = BiomeCache::new();
    let before = vec![custom("swamp", anywhere(), "Water")];
    let after = vec![custom("swamp", anywhere(), "Sand")];
    let swamp = Biome::Custom("swamp".to_string());
    assert_eq!(cache.get_or_calculate_tile_state(swamp.clone(), &before), TileState::Water);
    assert_eq!(cache.get_or_calculate_tile_state(swamp.clone(), &after), TileState::Water);
    assert_eq!(cache.get_or_calculate_tile_state(Biome::Desert, &after), TileState::Sand);
    assert_eq!(cache.get_or_calculate_tile_state(Biome::Desert, &before), TileState::Sand);
}

#[test]
fn biomes_and_states_compare_by_their_names() {
    assert!(Biome::Forest.same(&Biome::Forest));
    assert!(!Biome::Forest.same(&Biome::SnowForest));
    assert!(Biome::Custom("a".to_string()).same(&Biome::Custom("a".to_string())));
    assert!(!Biome::Custom("a".to_string()).same(&Biome::Custom("b".to_string())));
    assert!(!Biome::Custom("River".to_string()).same(&Biome::River));
    assert_eq!(Biome::Custom("a".to_string()).duplicate(), Biome::Custom("a".to_string()));
    assert!(TileState::Water.same(&TileState::Water));
    assert!(!TileState::Water.same(&TileState::Sand));
    assert!(TileState::Custom("x".to_string()).same(&TileState::Custom("x".to_string())));
    assert!(!TileState::Custom("x".to_string()).same(&TileState::Custom("y".to_string())));
    assert_eq!(TileState::Custom("x".to_string()).duplicate(), TileState::Custom("x".to_string()));
}

#[test]
fn an_unknown_declared_name_is_kept_as_a_custom_state() {
    let mut generator = WorldGenerator::new(42, 1024, 1024);
    generator.add_custom_biome(custom("lava", anywhere(), "Lava"));
    assert_eq!(
        generator.get_tile_state(Biome::Custom("lava".to_string())),
        TileState::Custom("Lava".to_string())
    );
    assert_eq!(generator.get_tile_state(Biome::Custom("ash".to_string())), TileState::Grass);
}
