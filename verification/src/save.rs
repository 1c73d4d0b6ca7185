use vstd::prelude::*;
use crate::biome::Biome;
use crate::block::{
    crown_for, crown_of, footprint_of, Block, BlockTexture, BlockType, Cactus, Tree,
};
use crate::chunk::Chunk;
use crate::consts::{check_coord, coord_fits, MAX_CHUNKS, TILE_SIZE};
use crate::point::Point;
use crate::tile::{Tile, TileState};
use crate::world::World;

verus! {

/// A position as it is persisted.
#[derive(Clone, Copy, Debug, PartialEq, Eq, Structural)]
pub struct Vec2Save {
    pub x: usize,
    pub y: usize,
}

impl From<Point> for Vec2Save {
    fn from(p: Point) -> (r: Vec2Save) {
        Vec2Save { x: p.x, y: p.y }
    }
}

impl vstd::std_specs::convert::FromSpecImpl<Point> for Vec2Save {
    open spec fn obeys_from_spec() -> bool {
        true
    }

    open spec fn from_spec(p: Point) -> Vec2Save {
        Vec2Save { x: p.x, y: p.y }
    }
}

impl From<Vec2Save> for Point {
    fn from(p: Vec2Save) -> (r: Point) {
        Point { x: p.x, y: p.y }
    }
}

impl vstd::std_specs::convert::FromSpecImpl<Vec2Save> for Point {
    open spec fn obeys_from_spec() -> bool {
        true
    }

    open spec fn from_spec(p: Vec2Save) -> Point {
        Point { x: p.x, y: p.y }
    }
}

/// A placed object as it is persisted: where it stands and what it is.
#[derive(Clone, Copy, Debug, PartialEq, Eq)]
pub struct BlockSave {
    pub pos: Vec2Save,
    pub block_type: BlockType,
}

} // verus!

verus! {

/// A tile as it is persisted: its position, its biome and its surface state.
#[derive(Clone, Debug, PartialEq, Eq)]
pub struct TileSave {
    pub pos: Vec2Save,
    pub biome: Biome,
    pub state: TileState,
}

impl From<TileSave> for Tile {
    fn from(save: TileSave) -> (r: Tile) {
        Tile { pos: Point::from(save.pos), biome: save.biome, state: save.state, size: TILE_SIZE }
    }
}

impl vstd::std_specs::convert::FromSpecImpl<TileSave> for Tile {
    open spec fn obeys_from_spec() -> bool {
        true
    }

    open spec fn from_spec(save: TileSave) -> Tile {
        Tile {
            pos: Point { x: save.pos.x, y: save.pos.y },
            biome: save.biome,
            state: save.state,
            size: TILE_SIZE,
        }
    }
}

impl From<&Tile> for TileSave {
    fn from(tile: &Tile) -> (r: TileSave) {
        TileSave {
            pos: Vec2Save::from(tile.pos),
            biome: tile.biome.duplicate(),
            state: tile.state.duplicate(),
        }
    }
}

impl vstd::std_specs::convert::FromSpecImpl<&Tile> for TileSave {
    open spec fn obeys_from_spec() -> bool {
        true
    }

    open spec fn from_spec(tile: &Tile) -> TileSave {
        TileSave {
            pos: Vec2Save { x: tile.pos.x, y: tile.pos.y },
            biome: tile.biome,
            state: tile.state,
        }
    }
}

impl TileSave {
    /// A copy of the record.
    pub fn duplicate(&self) -> (r: TileSave)
        ensures
            r == *self,
    {
        TileSave { pos: self.pos, biome: self.biome.duplicate(), state: self.state.duplicate() }
    }
}

/// A chunk as it is persisted.
#[derive(Debug, PartialEq, Eq)]
pub struct ChunkSave {
    pub pos: (usize, usize),
    pub tiles: Vec<TileSave>,
    pub blocks: Vec<BlockSave>,
}

/// A world as it is persisted: its seed, where the player stood, and every
/// active chunk.
#[derive(Debug, PartialEq, Eq)]
pub struct WorldSave {
    pub seed: u32,
    pub player_pos: Vec2Save,
    pub chunks: Vec<ChunkSave>,
}

/// Why a snapshot could not be loaded.
#[derive(Clone, Copy, Debug, PartialEq, Eq, Structural)]
pub enum SaveError {
    /// The snapshot could not be read from where it is kept.
    SourceUnavailable,
    /// The snapshot was read but does not describe a world.
    ContentUnreadable,
}

/// What came of reading a snapshot from where it is kept.
#[derive(Debug, PartialEq, Eq)]
pub enum SaveSource {
    /// Nothing could be read.
    Unavailable,
    /// Something was read that is no snapshot.
    Unreadable,
    /// A snapshot was read.
    Read(WorldSave),
}

/// The tile that a record restores.
pub open spec fn restored_tile(save: TileSave) -> Tile {
    Tile {
        pos: Point { x: save.pos.x, y: save.pos.y },
        biome: save.biome,
        state: save.state,
        size: TILE_SIZE,
    }
}

/// The record that persists a tile.
pub open spec fn saved_tile(tile: Tile) -> TileSave {
    TileSave { pos: Vec2Save { x: tile.pos.x, y: tile.pos.y }, biome: tile.biome, state: tile.state }
}

/// The record that persists an object.
pub open spec fn saved_block(block: Block) -> BlockSave {
    BlockSave {
        pos: Vec2Save { x: block.position().x, y: block.position().y },
        block_type: block.kind(),
    }
}

/// The index of the first of `tiles` that stands in the column of cells that
/// the pixel column `x` lies in; the number of tiles where none does.
pub open spec fn first_in_column(tiles: Seq<Tile>, from: int, x: usize) -> int
    decreases tiles.len() - from,
{
    if from < 0 || from >= tiles.len() {
        tiles.len() as int
    } else if tiles[from].pos.x / TILE_SIZE == x / TILE_SIZE {
        from
    } else {
        first_in_column(tiles, from + 1, x)
    }
}

/// The crown that a restored tree gets: that of the biome of the first tile
/// in the tree's column of cells, and that of a forest where the chunk has no
/// tile there.
pub open spec fn restored_crown(tiles: Seq<Tile>, x: usize) -> BlockTexture {
    let i = first_in_column(tiles, 0, x);
    if i < tiles.len() {
        crown_of(tiles[i].biome@)
    } else {
        BlockTexture::TreeTop
    }
}

/// The object that a record restores among the tiles of its chunk: one of the
/// recorded kind at the recorded position, with the footprint and the
/// textures of its kind.
pub open spec fn restored_block(save: BlockSave, tiles: Seq<Tile>) -> Block {
    match save.block_type {
        BlockType::Cactus => Block::Cactus(
            Cactus {
                pos: Point { x: save.pos.x, y: save.pos.y },
                size: Point { x: TILE_SIZE, y: TILE_SIZE },
                texture: Some(BlockTexture::Cactus),
            },
        ),
        BlockType::Tree => Block::Tree(
            Tree {
                pos: Point { x: save.pos.x, y: save.pos.y },
                size: footprint_of(BlockType::Tree),
                texture_bottom: Some(BlockTexture::Tree),
                texture_top: Some(restored_crown(tiles, save.pos.x)),
            },
        ),
    }
}

impl ChunkSave {
    /// Whether `self` persists `chunk`: its coordinates, and a record for
    /// each of its tiles and objects, in their order.
    pub open spec fn captures(&self, chunk: &Chunk) -> bool {
        &&& self.pos == chunk.pos
        &&& self.tiles@.len() == chunk.tiles@.len()
        &&& forall|i: int|
            0 <= i < chunk.tiles@.len() ==> #[trigger] self.tiles@[i] == saved_tile(chunk.tiles@[i])
        &&& self.blocks@.len() == chunk.blocks@.len()
        &&& forall|i: int|
            0 <= i < chunk.blocks@.len() ==> #[trigger] self.blocks@[i] == saved_block(
                chunk.blocks@[i],
            )
    }

    /// Whether `chunk` is what `self` restores: a chunk at the recorded
    /// coordinates with the recorded tiles and objects, in their order.
    pub open spec fn restores(&self, chunk: &Chunk) -> bool {
        &&& chunk.wf()
        &&& chunk.pos == self.pos
        &&& chunk.tiles@.len() == self.tiles@.len()
        &&& forall|i: int|
            0 <= i < self.tiles@.len() ==> #[trigger] chunk.tiles@[i] == restored_tile(self.tiles@[i])
        &&& chunk.blocks@.len() == self.blocks@.len()
        &&& forall|i: int|
            0 <= i < self.blocks@.len() ==> #[trigger] chunk.blocks@[i] == restored_block(
                self.blocks@[i],
                chunk.tiles@,
            )
    }

    /// Persists a chunk.
    pub fn capture(chunk: &Chunk) -> (save: ChunkSave)
        ensures
            save.captures(chunk),
    {
        let mut tiles: Vec<TileSave> = Vec::new();
        let mut i: usize = 0;
        while i < chunk.tiles.len()
            invariant
                i <= chunk.tiles@.len(),
                tiles@.len() == i,
                forall|j: int| 0 <= j < i ==> #[trigger] tiles@[j] == saved_tile(chunk.tiles@[j]),
            decreases chunk.tiles@.len() - i,
        {
            tiles.push(TileSave::from(&chunk.tiles[i]));
            i += 1;
        }
        let mut blocks: Vec<BlockSave> = Vec::new();
        let mut k: usize = 0;
        while k < chunk.blocks.len()
            invariant
                k <= chunk.blocks@.len(),
                blocks@.len() == k,
                forall|j: int|
                    0 <= j < k ==> #[trigger] blocks@[j] == saved_block(chunk.blocks@[j]),
            decreases chunk.blocks@.len() - k,
        {
            blocks.push(chunk.blocks[k].to_save());
            k += 1;
        }
        ChunkSave { pos: chunk.pos, tiles, blocks }
    }

    /// The texture for the crown of a restored tree in pixel column `x`.
    pub fn crown_at(tiles: &Vec<Tile>, x: usize) -> (t: BlockTexture)
        ensures
            t == restored_crown(tiles@, x),
    {
        let column: usize = x / TILE_SIZE;
        let mut i: usize = 0;
        while i < tiles.len()
            invariant
                i <= tiles@.len(),
                column == x / TILE_SIZE,
                first_in_column(tiles@, 0, x) == first_in_column(tiles@, i as int, x),
            decreases tiles@.len() - i,
        {
            if tiles[i].pos.x / TILE_SIZE == column {
                return crown_for(&tiles[i].biome);
            }
            i += 1;
        }
        BlockTexture::TreeTop
    }

    /// Restores the chunk that a record describes, without generating
    /// anything. Gives nothing where the recorded coordinates are beyond the
    /// machine's reach.
    pub fn restore(&self) -> (r: Option<Chunk>)
        ensures
            r is Some <==> coord_fits(self.pos.0) && coord_fits(self.pos.1),
            r matches Some(chunk) ==> self.restores(&chunk),
    {
        if !check_coord(self.pos.0) || !check_coord(self.pos.1) {
            return None;
        }
        let mut chunk = Chunk::new((self.pos.0, self.pos.1));
        let mut tiles: Vec<Tile> = Vec::new();
        let mut i: usize = 0;
        while i < self.tiles.len()
            invariant
                i <= self.tiles@.len(),
                tiles@.len() == i,
                forall|j: int| 0 <= j < i ==> #[trigger] tiles@[j] == restored_tile(self.tiles@[j]),
            decreases self.tiles@.len() - i,
        {
            tiles.push(Tile::from(self.tiles[i].duplicate()));
            i += 1;
        }
        let mut blocks: Vec<Block> = Vec::new();
        let mut k: usize = 0;
        while k < self.blocks.len()
            invariant
                k <= self.blocks@.len(),
                blocks@.len() == k,
                forall|j: int|
                    0 <= j < k ==> #[trigger] blocks@[j] == restored_block(self.blocks@[j], tiles@),
            decreases self.blocks@.len() - k,
        {
            let block_save: BlockSave = self.blocks[k];
            let block = match block_save.block_type {
                BlockType::Cactus => {
                    let mut cactus = Cactus::from_save(block_save);
                    cactus.set_texture(BlockTexture::Cactus);
                    Block::Cactus(cactus)
                },
                BlockType::Tree => {
                    let mut tree = Tree::from_save(block_save);
                    tree.set_texture(ChunkSave::crown_at(&tiles, block_save.pos.x));
                    Block::Tree(tree)
                },
            };
            blocks.push(block);
            k += 1;
        }
        chunk.tiles = tiles;
        chunk.blocks = blocks;
        Some(chunk)
    }
}

impl WorldSave {
    /// Whether `self` persists `world` with the given seed and player
    /// position: a record for each active chunk, in their order.
    pub open spec fn captures(&self, seed: u32, player_pos: Point, world: &World) -> bool {
        &&& self.seed == seed
        &&& self.player_pos == (Vec2Save { x: player_pos.x, y: player_pos.y })
        &&& self.chunks@.len() == world.chunks@.len()
        &&& forall|i: int|
            0 <= i < world.chunks@.len() ==> (#[trigger] self.chunks@[i]).captures(
                &world.chunks@[i],
            )
    }

    /// Whether the snapshot describes a world: every chunk's coordinates are
    /// within the machine's reach, and no two chunks share theirs.
    pub open spec fn is_sound(&self) -> bool {
        &&& forall|i: int|
            0 <= i < self.chunks@.len() ==> coord_fits((#[trigger] self.chunks@[i]).pos.0)
                && coord_fits(self.chunks@[i].pos.1)
        &&& forall|i: int, j: int|
            0 <= i < self.chunks@.len() && 0 <= j < self.chunks@.len() && i != j ==> (
            #[trigger] self.chunks@[i]).pos != (#[trigger] self.chunks@[j]).pos
    }

    /// Persists a world.
    pub fn capture(seed: u32, player_pos: Point, world: &World) -> (save: WorldSave)
        ensures
            save.captures(seed, player_pos, world),
    {
        let mut chunks: Vec<ChunkSave> = Vec::new();
        let mut i: usize = 0;
        while i < world.chunks.len()
            invariant
                i <= world.chunks@.len(),
                chunks@.len() == i,
                forall|j: int|
                    0 <= j < i ==> (#[trigger] chunks@[j]).captures(&world.chunks@[j]),
            decreases world.chunks@.len() - i,
        {
            chunks.push(ChunkSave::capture(&world.chunks[i]));
            i += 1;
        }
        WorldSave { seed, player_pos: Vec2Save::from(player_pos), chunks }
    }

    /// Restores the active chunks of a world of the given size from the
    /// snapshot, each as it was persisted; nothing is generated. Fails where
    /// the snapshot does not describe a world.
    pub fn restore(&self, width: usize, height: usize) -> (r: Result<World, SaveError>)
        ensures
            r is Ok <==> self.is_sound(),
            r matches Err(e) ==> e == SaveError::ContentUnreadable,
            r matches Ok(world) ==> {
                &&& world.wf()
                &&& world.width == width
                &&& world.height == height
                &&& world.chunk_pool.chunks() == Seq::<Chunk>::empty()
                &&& world.chunk_pool.capacity() == MAX_CHUNKS
                &&& world.chunks@.len() == self.chunks@.len()
                &&& forall|i: int|
                    0 <= i < self.chunks@.len() ==> (#[trigger] self.chunks@[i]).restores(
                        &world.chunks@[i],
                    )
            },
    {
        let mut world = World::new(width, height);
        let mut i: usize = 0;
        while i < self.chunks.len()
            invariant
                i <= self.chunks@.len(),
                world.wf(),
                world.width == width,
                world.height == height,
                world.chunk_pool.chunks() == Seq::<Chunk>::empty(),
                world.chunk_pool.capacity() == MAX_CHUNKS,
                world.chunks@.len() == i,
                forall|j: int|
                    0 <= j < i ==> (#[trigger] self.chunks@[j]).restores(&world.chunks@[j]),
                forall|j: int|
                    0 <= j < i ==> coord_fits((#[trigger] self.chunks@[j]).pos.0) && coord_fits(
                        self.chunks@[j].pos.1,
                    ),
                forall|a: int, b: int|
                    0 <= a < i && 0 <= b < i && a != b ==> (#[trigger] self.chunks@[a]).pos != (
                    #[trigger] self.chunks@[b]).pos,
            decreases self.chunks@.len() - i,
        {
            let pos = self.chunks[i].pos;
            if world.has_chunk(pos.0, pos.1) {
                proof {
                    let j = choose|j: int|
                        0 <= j < world.chunks@.len() && (#[trigger] world.chunks@[j]).pos == pos;
                    assert(self.chunks@[j].restores(&world.chunks@[j]));
                    assert(self.chunks@[j].pos == self.chunks@[i as int].pos);
                }
                return Err(SaveError::ContentUnreadable);
            }
            match self.chunks[i].restore() {
                None => {
                    return Err(SaveError::ContentUnreadable);
                },
                Some(chunk) => {
                    let ghost before = world.chunks@;
                    world.chunks.push(chunk);
                    proof {
                        assert forall|j: int| 0 <= j < i + 1 implies (
                        #[trigger] self.chunks@[j]).restores(&world.chunks@[j]) by {
                            if j < i {
                                assert(world.chunks@[j] == before[j]);
                            }
                        }
                        assert forall|a: int, b: int|
                            0 <= a < i + 1 && 0 <= b < i + 1 && a != b implies (
                        #[trigger] self.chunks@[a]).pos != (#[trigger] self.chunks@[b]).pos by {
                            if a == i && b < i {
                                assert(self.chunks@[b].restores(&before[b]));
                                assert(before[b].pos != pos);
                            }
                            if b == i && a < i {
                                assert(self.chunks@[a].restores(&before[a]));
                                assert(before[a].pos != pos);
                            }
                        }
                        assert forall|a: int, b: int|
                            0 <= a < world.chunks@.len() && 0 <= b < world.chunks@.len() && a
                                != b implies (#[trigger] world.chunks@[a]).pos != (
                        #[trigger] world.chunks@[b]).pos by {
                            assert(self.chunks@[a].restores(&world.chunks@[a]));
                            assert(self.chunks@[b].restores(&world.chunks@[b]));
                        }
                        assert forall|j: int| 0 <= j < world.chunks@.len() implies (
                        #[trigger] world.chunks@[j]).wf() by {
                            assert(self.chunks@[j].restores(&world.chunks@[j]));
                        }
                    }
                },
            }
            i += 1;
        }
        Ok(world)
    }
}

/// Loads a world of the given size from what came of reading its snapshot.
/// A source that could not be read and content that is no sound snapshot are
/// told apart; a sound snapshot is restored as it was persisted.
pub fn load_world(source: SaveSource, width: usize, height: usize) -> (r: Result<
    (World, u32, Point),
    SaveError,
>)
    ensures
        match source {
            SaveSource::Unavailable => r == Err::<(World, u32, Point), SaveError>(
                SaveError::SourceUnavailable,
            ),
            SaveSource::Unreadable => r == Err::<(World, u32, Point), SaveError>(
                SaveError::ContentUnreadable,
            ),
            SaveSource::Read(save) => if save.is_sound() {
                r matches Ok((world, seed, player_pos)) && {
                    &&& seed == save.seed
                    &&& player_pos == (Point { x: save.player_pos.x, y: save.player_pos.y })
                    &&& world.wf()
                    &&& world.width == width
                    &&& world.height == height
                    &&& world.chunk_pool.chunks() == Seq::<Chunk>::empty()
                    &&& world.chunk_pool.capacity() == MAX_CHUNKS
                    &&& world.chunks@.len() == save.chunks@.len()
                    &&& forall|i: int|
                        0 <= i < save.chunks@.len() ==> (#[trigger] save.chunks@[i]).restores(
                            &world.chunks@[i],
                        )
                }
            } else {
                r == Err::<(World, u32, Point), SaveError>(SaveError::ContentUnreadable)
            },
        },
{
    match source {
        SaveSource::Unavailable => Err(SaveError::SourceUnavailable),
        SaveSource::Unreadable => Err(SaveError::ContentUnreadable),
        SaveSource::Read(save) => match save.restore(width, height) {
            Ok(world) => Ok((world, save.seed, Point::from(save.player_pos))),
            Err(e) => Err(e),
        },
    }
}

/// Whether `after` is the object `before` as it comes back from its record:
/// of the same kind, at the same position, with the footprint of its kind,
/// and so of the same size where `before` had that footprint.
pub open spec fn same_but_textures(before: Block, after: Block) -> bool {
    &&& after.kind() == before.kind()
    &&& after.position() == before.position()
    &&& after.extent() == footprint_of(before.kind())
    &&& before.extent() == footprint_of(before.kind()) ==> after.extent() == before.extent()
}

/// Persisting a world and restoring it gives back every chunk at its
/// coordinates with every tile as it was, and with an object of the same kind
/// at the same position for every object that stood there. A restored object
/// has the footprint of its kind, so an object that had it keeps its size.
/// Textures are not persisted: the restored objects carry the textures of
/// their kind.
pub proof fn lemma_round_trip(
    world: World,
    seed: u32,
    player_pos: Point,
    save: WorldSave,
    restored: World,
)
    requires
        forall|i: int, j: int|
            0 <= i < world.chunks@.len() && 0 <= j < world.chunks@[i].tiles@.len()
                ==> world.chunks@[i].tiles@[j].size == TILE_SIZE,
        save.captures(seed, player_pos, &world),
        restored.chunks@.len() == save.chunks@.len(),
        forall|i: int|
            0 <= i < save.chunks@.len() ==> (#[trigger] save.chunks@[i]).restores(
                &restored.chunks@[i],
            ),
    ensures
        save.seed == seed,
        save.player_pos.x == player_pos.x && save.player_pos.y == player_pos.y,
        restored.chunks@.len() == world.chunks@.len(),
        forall|i: int|
            0 <= i < world.chunks@.len() ==> {
                let before = #[trigger] world.chunks@[i];
                let after = restored.chunks@[i];
                &&& after.pos == before.pos
                &&& after.tiles@ == before.tiles@
                &&& after.blocks@.len() == before.blocks@.len()
                &&& forall|j: int|
                    0 <= j < before.blocks@.len() ==> same_but_textures(
                        before.blocks@[j],
                        #[trigger] after.blocks@[j],
                    )
            },
{
    assert forall|i: int| 0 <= i < world.chunks@.len() implies ({
        let before = #[trigger] world.chunks@[i];
        let after = restored.chunks@[i];
        &&& after.pos == before.pos
        &&& after.tiles@ == before.tiles@
        &&& after.blocks@.len() == before.blocks@.len()
        &&& forall|j: int|
            0 <= j < before.blocks@.len() ==> same_but_textures(
                before.blocks@[j],
                #[trigger] after.blocks@[j],
            )
    }) by {
        let before = world.chunks@[i];
        let after = restored.chunks@[i];
        let record = save.chunks@[i];
        assert(record.captures(&before));
        assert(record.restores(&after));
        assert forall|j: int| 0 <= j < before.tiles@.len() implies after.tiles@[j]
            == before.tiles@[j] by {
            assert(record.tiles@[j] == saved_tile(before.tiles@[j]));
            assert(after.tiles@[j] == restored_tile(record.tiles@[j]));
            assert(before.tiles@[j].size == TILE_SIZE);
        }
        assert(after.tiles@ =~= before.tiles@);
        assert forall|j: int| 0 <= j < before.blocks@.len() implies same_but_textures(
            before.blocks@[j],
            #[trigger] after.blocks@[j],
        ) by {
            assert(record.blocks@[j] == saved_block(before.blocks@[j]));
            assert(after.blocks@[j] == restored_block(record.blocks@[j], after.tiles@));
        }
    }
}

} // verus!
