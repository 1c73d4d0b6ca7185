use vstd::prelude::*;
use crate::sample::Sample;

verus! {

/// What a content pack says of itself.
#[derive(Clone, Debug)]
pub struct ModConfig {
    pub id: String,
    pub name: String,
    pub version: String,
    pub author: String,
    pub description: Option<String>,
}

/// The ranges in which a custom biome applies. A range is a pair of its
/// lowest and highest value, both included; an absent range admits every
/// value.
#[derive(Clone, Copy, Debug)]
pub struct BiomeConditions {
    pub height_range: Option<(Sample, Sample)>,
    pub moisture_range: Option<(Sample, Sample)>,
    pub temperature_range: Option<(Sample, Sample)>,
}

/// A biome supplied by a content pack.
#[derive(Clone, Debug)]
pub struct BiomeMod {
    pub id: String,
    pub name: String,
    pub conditions: BiomeConditions,
    pub tile_state: String,
}

/// A tile skin supplied by a content pack. The texture path is handed on to
/// whoever draws; nothing here reads it.
#[derive(Clone, Debug)]
pub struct TileMod {
    pub id: String,
    pub name: String,
    pub texture_path: String,
}

} // verus!
