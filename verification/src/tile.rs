use vstd::prelude::*;
use crate::biome::{Biome, BiomeView};
use crate::consts::TILE_SIZE;
use crate::point::Point;
use crate::text::{text_trimmed, without_prefixes, without_trailing};

verus! {

/// The physical state of a tile's surface.
#[derive(Clone, Debug, PartialEq, Eq)]
pub enum TileState {
    Grass,
    Tilled,
    Sand,
    SnowGrass,
    Water,
    Custom(String),
}

/// A surface state with its name as a sequence of characters.
pub enum TileStateView {
    Grass,
    Tilled,
    Sand,
    SnowGrass,
    Water,
    Custom(Seq<char>),
}

impl View for TileState {
    type V = TileStateView;

    open spec fn view(&self) -> TileStateView {
        match self {
            TileState::Grass => TileStateView::Grass,
            TileState::Tilled => TileStateView::Tilled,
            TileState::Sand => TileStateView::Sand,
            TileState::SnowGrass => TileStateView::SnowGrass,
            TileState::Water => TileStateView::Water,
            TileState::Custom(name) => TileStateView::Custom(name@),
        }
    }
}

impl TileState {
    /// A copy of the state.
    pub fn duplicate(&self) -> (r: TileState)
        ensures
            r == *self,
    {
        match self {
            TileState::Grass => TileState::Grass,
            TileState::Tilled => TileState::Tilled,
            TileState::Sand => TileState::Sand,
            TileState::SnowGrass => TileState::SnowGrass,
            TileState::Water => TileState::Water,
            TileState::Custom(name) => TileState::Custom(name.clone()),
        }
    }

    /// Whether two states are the same, custom names compared by their
    /// characters.
    pub fn same(&self, other: &TileState) -> (r: bool)
        ensures
            r == (self@ == other@),
    {
        match (self, other) {
            (TileState::Grass, TileState::Grass) => true,
            (TileState::Tilled, TileState::Tilled) => true,
            (TileState::Sand, TileState::Sand) => true,
            (TileState::SnowGrass, TileState::SnowGrass) => true,
            (TileState::Water, TileState::Water) => true,
            (TileState::Custom(a), TileState::Custom(b)) => *a == *b,
            _ => false,
        }
    }
}

/// One cell of terrain. `pos` is the pixel position of its corner.
#[derive(Clone, Debug, PartialEq, Eq)]
pub struct Tile {
    pub state: TileState,
    pub pos: Point,
    pub biome: Biome,
    pub size: usize,
}

/// A tile as a plain value.
pub struct TileView {
    pub state: TileStateView,
    pub pos: Point,
    pub biome: BiomeView,
    pub size: usize,
}

impl View for Tile {
    type V = TileView;

    open spec fn view(&self) -> TileView {
        TileView { state: self.state@, pos: self.pos, biome: self.biome@, size: self.size }
    }
}

impl Tile {
    /// A grass tile of the plains at pixel position `(x, y)`.
    pub fn new(x: usize, y: usize) -> (tile: Tile)
        ensures
            tile@ == (TileView {
                state: TileStateView::Grass,
                pos: Point { x, y },
                biome: BiomeView::Plains,
                size: TILE_SIZE,
            }),
    {
        Tile { state: TileState::Grass, pos: Point { x, y }, biome: Biome::Plains, size: TILE_SIZE }
    }

    /// A copy of the tile.
    pub fn duplicate(&self) -> (r: Tile)
        ensures
            r == *self,
    {
        Tile {
            state: self.state.duplicate(),
            pos: self.pos,
            biome: self.biome.duplicate(),
            size: self.size,
        }
    }
}

} // verus!

verus! {

/// The image that a tile is drawn with, by name. A custom image goes by the
/// identifier inside the tile state's `Custom(..)`.
#[derive(Clone, Debug, PartialEq, Eq)]
pub enum TileImage {
    Grass,
    Tilled,
    Sand,
    SnowGrass,
    Water,
    Custom(String),
}

/// A tile image with its name as a sequence of characters.
pub enum TileImageView {
    Grass,
    Tilled,
    Sand,
    SnowGrass,
    Water,
    Custom(Seq<char>),
}

impl View for TileImage {
    type V = TileImageView;

    open spec fn view(&self) -> TileImageView {
        match self {
            TileImage::Grass => TileImageView::Grass,
            TileImage::Tilled => TileImageView::Tilled,
            TileImage::Sand => TileImageView::Sand,
            TileImage::SnowGrass => TileImageView::SnowGrass,
            TileImage::Water => TileImageView::Water,
            TileImage::Custom(id) => TileImageView::Custom(id@),
        }
    }
}

/// The image for a surface state. The name of a custom state loses every
/// leading `Custom(` and then every trailing `)`.
pub open spec fn texture_of(state: TileStateView) -> TileImageView {
    match state {
        TileStateView::Grass => TileImageView::Grass,
        TileStateView::Tilled => TileImageView::Tilled,
        TileStateView::Sand => TileImageView::Sand,
        TileStateView::SnowGrass => TileImageView::SnowGrass,
        TileStateView::Water => TileImageView::Water,
        TileStateView::Custom(name) => TileImageView::Custom(
            without_trailing(without_prefixes(name, "Custom("@), ')'),
        ),
    }
}

/// Whether the tile at pixel position `pos`, of side `size`, in a run of
/// tiles that is `width` tiles wide, has a tilled tile in the row above it
/// while being grass itself. The tile's place in the run is its row times
/// `width` plus its column.
pub open spec fn borders_tilled(tile: Tile, tiles: Seq<Tile>, width: usize) -> bool {
    let x = tile.pos.x / tile.size;
    let y = tile.pos.y / tile.size;
    let index = y * width + x;
    &&& tile.size > 0
    &&& y > 0
    &&& width <= index < tiles.len()
    &&& tiles[index - width].state@ is Tilled
    &&& tile.state@ is Grass
}

impl Tile {
    /// The image that the tile is drawn with.
    pub fn texture(&self) -> (t: TileImage)
        ensures
            t@ == texture_of(self.state@),
    {
        match &self.state {
            TileState::Grass => TileImage::Grass,
            TileState::Tilled => TileImage::Tilled,
            TileState::Sand => TileImage::Sand,
            TileState::SnowGrass => TileImage::SnowGrass,
            TileState::Water => TileImage::Water,
            TileState::Custom(name) => TileImage::Custom(
                text_trimmed(name.as_str(), "Custom(", ')').to_owned(),
            ),
        }
    }

    /// Whether a grass border is drawn at the top of the tile: see
    /// [`borders_tilled`].
    pub fn has_border(&self, tiles: &Vec<Tile>, width: usize) -> (r: bool)
        ensures
            r == borders_tilled(*self, tiles@, width),
    {
        if self.size == 0 {
            return false;
        }
        let x: usize = self.pos.x / self.size;
        let y: usize = self.pos.y / self.size;
        let rows: u128 = y as u128;
        let wide: u128 = width as u128;
        proof {
            assert(0 <= rows * wide <= 0xFFFF_FFFF_FFFF_FFFF * 0xFFFF_FFFF_FFFF_FFFF)
                by (nonlinear_arith)
                requires
                    0 <= rows <= 0xFFFF_FFFF_FFFF_FFFF,
                    0 <= wide <= 0xFFFF_FFFF_FFFF_FFFF,
            ;
        }
        let index: u128 = rows * wide + x as u128;
        if y > 0 && index < tiles.len() as u128 && index >= width as u128 {
            let above: usize = (index - width as u128) as usize;
            match (&tiles[above].state, &self.state) {
                (TileState::Tilled, TileState::Grass) => true,
                _ => false,
            }
        } else {
            false
        }
    }
}

} // verus!
