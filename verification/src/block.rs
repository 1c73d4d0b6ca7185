use vstd::prelude::*;
use crate::biome::{Biome, BiomeView};
use crate::consts::TILE_SIZE;
use crate::point::Point;
use crate::save::{BlockSave, Vec2Save};

verus! {

/// Height of a freshly grown tree, in pixels: two cells.
pub const TREE_HEIGHT: usize = 64;

/// The kinds of object that the generator places.
#[derive(Clone, Copy, Debug, PartialEq, Eq, Hash, Structural)]
pub enum BlockType {
    Cactus,
    Tree,
}

/// The images that an object can be drawn with, by name. Whoever draws maps
/// each name to its pixels.
#[derive(Clone, Copy, Debug, PartialEq, Eq, Hash, Structural)]
pub enum BlockTexture {
    Tree,
    TreeTop,
    TreeSnowTop,
    Cactus,
}

/// A cactus: one cell wide and one cell high.
#[derive(Clone, Copy, Debug, PartialEq, Eq)]
pub struct Cactus {
    pub pos: Point,
    pub size: Point,
    pub texture: Option<BlockTexture>,
}

/// A tree, drawn as a trunk with a crown above it.
#[derive(Clone, Copy, Debug, PartialEq, Eq)]
pub struct Tree {
    pub pos: Point,
    pub size: Point,
    pub texture_bottom: Option<BlockTexture>,
    pub texture_top: Option<BlockTexture>,
}

/// The footprint of a new object of a kind: a tree is one cell wide and two
/// cells high, a cactus one cell in each direction.
pub open spec fn footprint_of(block_type: BlockType) -> Point {
    match block_type {
        BlockType::Tree => Point { x: TILE_SIZE, y: TREE_HEIGHT },
        BlockType::Cactus => Point { x: TILE_SIZE, y: TILE_SIZE },
    }
}

/// The crown of a tree in a biome: snowy in a snow forest, green elsewhere.
pub open spec fn crown_of(biome: BiomeView) -> BlockTexture {
    if biome is SnowForest {
        BlockTexture::TreeSnowTop
    } else {
        BlockTexture::TreeTop
    }
}

/// Computes [`crown_of`].
pub fn crown_for(biome: &Biome) -> (t: BlockTexture)
    ensures
        t == crown_of(biome@),
{
    match biome {
        Biome::SnowForest => BlockTexture::TreeSnowTop,
        _ => BlockTexture::TreeTop,
    }
}

impl Cactus {
    /// A cactus at `pos`, without a texture yet.
    pub fn new(pos: Point) -> (c: Cactus)
        ensures
            c == (Cactus { pos, size: Point { x: TILE_SIZE, y: TILE_SIZE }, texture: None }),
    {
        Cactus { pos, size: Point { x: TILE_SIZE, y: TILE_SIZE }, texture: None }
    }

    /// Where the object stands.
    pub fn get_position(&self) -> (p: Point)
        ensures
            p == self.pos,
    {
        self.pos
    }

    /// How wide and how high the object is.
    pub fn get_size(&self) -> (s: Point)
        ensures
            s == self.size,
    {
        self.size
    }

    /// Gives the cactus its texture.
    pub fn set_texture(&mut self, texture: BlockTexture)
        ensures
            *final(self) == (Cactus { texture: Some(texture), ..*old(self) }),
    {
        self.texture = Some(texture);
    }

    /// Moves the cactus.
    pub fn set_position(&mut self, pos: Point)
        ensures
            *final(self) == (Cactus { pos, ..*old(self) }),
    {
        self.pos = pos;
    }

    /// The record that persists the cactus: its position and its kind.
    pub fn to_save(&self) -> (save: BlockSave)
        ensures
            save == (BlockSave {
                pos: Vec2Save { x: self.pos.x, y: self.pos.y },
                block_type: BlockType::Cactus,
            }),
    {
        BlockSave { pos: Vec2Save::from(self.pos), block_type: BlockType::Cactus }
    }

    /// A cactus at the persisted position, without a texture.
    pub fn from_save(save: BlockSave) -> (c: Cactus)
        ensures
            c == (Cactus {
                pos: Point { x: save.pos.x, y: save.pos.y },
                size: Point { x: TILE_SIZE, y: TILE_SIZE },
                texture: None,
            }),
    {
        Cactus {
            pos: Point::from(save.pos),
            size: Point { x: TILE_SIZE, y: TILE_SIZE },
            texture: None,
        }
    }
}

impl Tree {
    /// A tree at `pos`, one cell wide and two cells high, with the crown that
    /// suits `biome`.
    pub fn new(pos: Point, biome: &Biome) -> (t: Tree)
        ensures
            t == (Tree {
                pos,
                size: Point { x: TILE_SIZE, y: TREE_HEIGHT },
                texture_bottom: Some(BlockTexture::Tree),
                texture_top: Some(crown_of(biome@)),
            }),
    {
        Tree {
            pos,
            size: Point { x: TILE_SIZE, y: TREE_HEIGHT },
            texture_bottom: Some(BlockTexture::Tree),
            texture_top: Some(crown_for(biome)),
        }
    }

    /// Where the object stands.
    pub fn get_position(&self) -> (p: Point)
        ensures
            p == self.pos,
    {
        self.pos
    }

    /// How wide and how high the object is.
    pub fn get_size(&self) -> (s: Point)
        ensures
            s == self.size,
    {
        self.size
    }

    /// Re-skins the tree: the crown takes the given texture and the trunk the
    /// trunk's own.
    pub fn set_texture(&mut self, texture: BlockTexture)
        ensures
            *final(self) == (Tree {
                texture_bottom: Some(BlockTexture::Tree),
                texture_top: Some(texture),
                ..*old(self)
            }),
    {
        self.texture_bottom = Some(BlockTexture::Tree);
        self.texture_top = Some(texture);
    }

    /// Moves the tree.
    pub fn set_position(&mut self, pos: Point)
        ensures
            *final(self) == (Tree { pos, ..*old(self) }),
    {
        self.pos = pos;
    }

    /// The record that persists the tree: its position and its kind.
    pub fn to_save(&self) -> (save: BlockSave)
        ensures
            save == (BlockSave {
                pos: Vec2Save { x: self.pos.x, y: self.pos.y },
                block_type: BlockType::Tree,
            }),
    {
        BlockSave { pos: Vec2Save::from(self.pos), block_type: BlockType::Tree }
    }

    /// A tree at the persisted position, one cell wide and two cells high as a
    /// new tree is, without textures.
    pub fn from_save(save: BlockSave) -> (t: Tree)
        ensures
            t == (Tree {
                pos: Point { x: save.pos.x, y: save.pos.y },
                size: footprint_of(BlockType::Tree),
                texture_bottom: None,
                texture_top: None,
            }),
    {
        Tree {
            pos: Point::from(save.pos),
            size: Point { x: TILE_SIZE, y: TREE_HEIGHT },
            texture_bottom: None,
            texture_top: None,
        }
    }
}

/// An object placed in a chunk.
#[derive(Clone, Copy, Debug, PartialEq, Eq)]
pub enum Block {
    Tree(Tree),
    Cactus(Cactus),
}

impl Block {
    /// What kind of object this is.
    pub open spec fn kind(&self) -> BlockType {
        match self {
            Block::Tree(_) => BlockType::Tree,
            Block::Cactus(_) => BlockType::Cactus,
        }
    }

    /// Where the object stands.
    pub open spec fn position(&self) -> Point {
        match self {
            Block::Tree(t) => t.pos,
            Block::Cactus(c) => c.pos,
        }
    }

    /// How wide and how high the object is.
    pub open spec fn extent(&self) -> Point {
        match self {
            Block::Tree(t) => t.size,
            Block::Cactus(c) => c.size,
        }
    }

    /// The object as [`Block::set_position`] leaves it.
    pub open spec fn moved_to(&self, pos: Point) -> Block {
        match self {
            Block::Tree(t) => Block::Tree(Tree { pos, ..*t }),
            Block::Cactus(c) => Block::Cactus(Cactus { pos, ..*c }),
        }
    }

    /// The object as [`Block::set_texture`] leaves it.
    pub open spec fn skinned(&self, texture: BlockTexture) -> Block {
        match self {
            Block::Tree(t) => Block::Tree(
                Tree {
                    texture_bottom: Some(BlockTexture::Tree),
                    texture_top: Some(texture),
                    ..*t
                },
            ),
            Block::Cactus(c) => Block::Cactus(Cactus { texture: Some(texture), ..*c }),
        }
    }

    /// The object's kind.
    pub fn block_type(&self) -> (k: BlockType)
        ensures
            k == self.kind(),
    {
        match self {
            Block::Tree(_) => BlockType::Tree,
            Block::Cactus(_) => BlockType::Cactus,
        }
    }

    /// Where the object stands.
    pub fn get_position(&self) -> (p: Point)
        ensures
            p == self.position(),
    {
        match self {
            Block::Tree(t) => t.get_position(),
            Block::Cactus(c) => c.get_position(),
        }
    }

    /// How wide and how high the object is.
    pub fn get_size(&self) -> (s: Point)
        ensures
            s == self.extent(),
    {
        match self {
            Block::Tree(t) => t.get_size(),
            Block::Cactus(c) => c.get_size(),
        }
    }

    /// Re-skins the object: a cactus takes the texture, a tree takes it for
    /// its crown and the trunk's own for its trunk.
    pub fn set_texture(&mut self, texture: BlockTexture)
        ensures
            *final(self) == old(self).skinned(texture),
    {
        let next = match *self {
            Block::Tree(t) => {
                let mut t = t;
                t.set_texture(texture);
                Block::Tree(t)
            },
            Block::Cactus(c) => {
                let mut c = c;
                c.set_texture(texture);
                Block::Cactus(c)
            },
        };
        *self = next;
    }

    /// Moves the object.
    pub fn set_position(&mut self, pos: Point)
        ensures
            *final(self) == old(self).moved_to(pos),
    {
        let next = match *self {
            Block::Tree(t) => {
                let mut t = t;
                t.set_position(pos);
                Block::Tree(t)
            },
            Block::Cactus(c) => {
                let mut c = c;
                c.set_position(pos);
                Block::Cactus(c)
            },
        };
        *self = next;
    }

    /// The record that persists the object: its position and its kind.
    pub fn to_save(&self) -> (save: BlockSave)
        ensures
            save == (BlockSave {
                pos: Vec2Save { x: self.position().x, y: self.position().y },
                block_type: self.kind(),
            }),
    {
        match self {
            Block::Tree(t) => t.to_save(),
            Block::Cactus(c) => c.to_save(),
        }
    }

    /// The object that a record describes, without textures.
    pub fn from_save(save: BlockSave) -> (b: Block)
        ensures
            b.kind() == save.block_type,
            b.position() == (Point { x: save.pos.x, y: save.pos.y }),
            b.extent() == footprint_of(save.block_type),
            b == (match save.block_type {
                BlockType::Tree => Block::Tree(
                    Tree {
                        pos: Point { x: save.pos.x, y: save.pos.y },
                        size: footprint_of(BlockType::Tree),
                        texture_bottom: None,
                        texture_top: None,
                    },
                ),
                BlockType::Cactus => Block::Cactus(
                    Cactus {
                        pos: Point { x: save.pos.x, y: save.pos.y },
                        size: Point { x: TILE_SIZE, y: TILE_SIZE },
                        texture: None,
                    },
                ),
            }),
    {
        match save.block_type {
            BlockType::Tree => Block::Tree(Tree::from_save(save)),
            BlockType::Cactus => Block::Cactus(Cactus::from_save(save)),
        }
    }
}

/// Pools of vacated objects, one per kind, each holding at most
/// `max_pool_size` objects.
pub struct BlockCache {
    trees: Vec<Block>,
    cacti: Vec<Block>,
    max_pool_size: usize,
}

impl BlockCache {
    /// The pooled objects of a kind, the next to be handed out last.
    pub closed spec fn available(&self, block_type: BlockType) -> Seq<Block> {
        match block_type {
            BlockType::Tree => self.trees@,
            BlockType::Cactus => self.cacti@,
        }
    }

    /// The most objects that each pool holds.
    pub closed spec fn capacity(&self) -> usize {
        self.max_pool_size
    }

    /// The pool of one kind holds objects of that kind only, and no more
    /// than the capacity.
    pub open spec fn pool_ok(&self, block_type: BlockType) -> bool {
        &&& self.available(block_type).len() <= self.capacity()
        &&& forall|i: int|
            0 <= i < self.available(block_type).len() ==> (#[trigger] self.available(
                block_type,
            )[i]).kind() == block_type
    }

    /// Both pools are in order.
    pub open spec fn wf(&self) -> bool {
        self.pool_ok(BlockType::Tree) && self.pool_ok(BlockType::Cactus)
    }

    /// Two empty pools of the given capacity.
    pub fn new(max_size: usize) -> (cache: BlockCache)
        ensures
            cache.wf(),
            cache.capacity() == max_size,
            forall|k: BlockType| cache.available(k) == Seq::<Block>::empty(),
    {
        BlockCache { trees: Vec::new(), cacti: Vec::new(), max_pool_size: max_size }
    }

    /// How many objects of a kind are pooled.
    pub fn pooled(&self, block_type: BlockType) -> (n: usize)
        ensures
            n == self.available(block_type).len(),
    {
        match block_type {
            BlockType::Tree => self.trees.len(),
            BlockType::Cactus => self.cacti.len(),
        }
    }

    /// Takes the most recently pooled object of a kind, if there is one.
    pub fn get_block(&mut self, block_type: BlockType) -> (r: Option<Block>)
        requires
            old(self).wf(),
        ensures
            final(self).wf(),
            final(self).capacity() == old(self).capacity(),
            forall|k: BlockType|
                k != block_type ==> final(self).available(k) == old(self).available(k),
            old(self).available(block_type).len() == 0 ==> r is None
                && final(self).available(block_type) == old(self).available(block_type),
            old(self).available(block_type).len() > 0 ==> r == Some(
                old(self).available(block_type).last(),
            ) && final(self).available(block_type) == old(self).available(block_type).drop_last(),
            r matches Some(b) ==> b.kind() == block_type,
    {
        let r = match block_type {
            BlockType::Tree => self.trees.pop(),
            BlockType::Cactus => self.cacti.pop(),
        };
        proof {
            assert(old(self).available(block_type).len() > 0 ==> self.available(block_type)
                =~= old(self).available(block_type).drop_last());
        }
        r
    }

    /// Hands a vacated object back. It joins the pool of its kind while that
    /// pool has room, and is dropped otherwise.
    pub fn return_block(&mut self, block: Block)
        requires
            old(self).wf(),
        ensures
            final(self).wf(),
            final(self).capacity() == old(self).capacity(),
            forall|k: BlockType|
                k != block.kind() ==> final(self).available(k) == old(self).available(k),
            final(self).available(block.kind()) == (if old(self).available(block.kind()).len()
                < old(self).capacity() {
                old(self).available(block.kind()).push(block)
            } else {
                old(self).available(block.kind())
            }),
    {
        match block {
            Block::Tree(_) => {
                if self.trees.len() < self.max_pool_size {
                    self.trees.push(block);
                }
            },
            Block::Cactus(_) => {
                if self.cacti.len() < self.max_pool_size {
                    self.cacti.push(block);
                }
            },
        }
    }
}

} // verus!
