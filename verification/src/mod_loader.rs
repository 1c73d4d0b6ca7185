use vstd::prelude::*;
use crate::mod_content::{BiomeMod, ModConfig, TileMod};

verus! {

/// What the content packs that were read have brought: their descriptions,
/// their biomes and their tile skins, in the order in which they came.
pub struct ModLoader {
    pub mods: Vec<ModConfig>,
    pub biomes: Vec<BiomeMod>,
    pub tiles: Vec<TileMod>,
}

/// The entries of an optional list; none where the list is absent.
pub open spec fn entries<T>(list: Option<Vec<T>>) -> Seq<T> {
    match list {
        Some(items) => items@,
        None => Seq::empty(),
    }
}

impl ModLoader {
    /// A loader that has read nothing.
    pub fn new() -> (loader: ModLoader)
        ensures
            loader.mods@ == Seq::<ModConfig>::empty(),
            loader.biomes@ == Seq::<BiomeMod>::empty(),
            loader.tiles@ == Seq::<TileMod>::empty(),
    {
        ModLoader { mods: Vec::new(), biomes: Vec::new(), tiles: Vec::new() }
    }

    /// Forgets the packs and biomes read so far, before the packs are read
    /// again. Tile skins stay.
    pub fn begin_loading(&mut self)
        ensures
            final(self).mods@ == Seq::<ModConfig>::empty(),
            final(self).biomes@ == Seq::<BiomeMod>::empty(),
            final(self).tiles@ == old(self).tiles@,
    {
        self.mods.clear();
        self.biomes.clear();
    }

    /// Takes in one pack that was read without fault: its tile skins and its
    /// biomes join those of the packs before it, and its description joins
    /// the list of packs. A pack that could not be read is never handed in,
    /// so it leaves no trace here.
    pub fn register_mod(
        &mut self,
        config: ModConfig,
        biomes: Option<Vec<BiomeMod>>,
        tiles: Option<Vec<TileMod>>,
    )
        ensures
            final(self).mods@ == old(self).mods@.push(config),
            final(self).biomes@ == old(self).biomes@ + entries(biomes),
            final(self).tiles@ == old(self).tiles@ + entries(tiles),
    {
        match tiles {
            Some(mod_tiles) => {
                let mut mod_tiles = mod_tiles;
                self.tiles.append(&mut mod_tiles);
            },
            None => {
                assert(self.tiles@ + Seq::<TileMod>::empty() =~= self.tiles@);
            },
        }
        match biomes {
            Some(mod_biomes) => {
                let mut mod_biomes = mod_biomes;
                self.biomes.append(&mut mod_biomes);
            },
            None => {
                assert(self.biomes@ + Seq::<BiomeMod>::empty() =~= self.biomes@);
            },
        }
        self.mods.push(config);
    }

    /// The biomes read, in their order.
    pub fn get_biomes(&self) -> (biomes: &Vec<BiomeMod>)
        ensures
            biomes@ == self.biomes@,
    {
        &self.biomes
    }

    /// The tile skins read, in their order.
    pub fn get_tiles(&self) -> (tiles: &Vec<TileMod>)
        ensures
            tiles@ == self.tiles@,
    {
        &self.tiles
    }
}

} // verus!
