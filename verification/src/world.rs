//! The block world: chunks of 16 by 16 by 16 blocks, and the map of the
//! chunks that are loaded.

use vstd::prelude::*;

verus! {

pub const CHUNK_WIDTH: usize = 16;

pub const CHUNK_HEIGHT: usize = 16;

pub const CHUNK_DEPTH: usize = 16;

/// What a block is made of.
#[derive(Clone, Copy, Debug, PartialEq, Eq, Hash, Structural)]
pub enum BlockType {
    Air,
    Grass,
    Dirt,
    Stone,
    RedBlock,
    BlueBlock,
    WhiteBlock,
}

impl Default for BlockType {
    fn default() -> (block: BlockType)
        ensures
            block == BlockType::Air,
    {
        BlockType::Air
    }
}

/// A position on the block grid, or on the grid of chunks.
#[derive(Clone, Copy, Debug, PartialEq, Eq, Hash, Structural)]
pub struct BlockPos {
    pub x: i32,
    pub y: i32,
    pub z: i32,
}

/// The chunk that a block lies in.
pub open spec fn chunk_of(pos: BlockPos) -> BlockPos {
    BlockPos {
        x: (pos.x as int / 16) as i32,
        y: (pos.y as int / 16) as i32,
        z: (pos.z as int / 16) as i32,
    }
}

/// Where a block lies within its chunk: each coordinate from 0 to 15.
pub open spec fn local_of(pos: BlockPos) -> BlockPos {
    BlockPos {
        x: (pos.x as int % 16) as i32,
        y: (pos.y as int % 16) as i32,
        z: (pos.z as int % 16) as i32,
    }
}

/// One coordinate as the chunk it falls in and the place within the chunk.
fn split_coordinate(value: i32) -> (r: (i32, i32))
    ensures
        r.0 == value as int / 16,
        r.1 == value as int % 16,
        0 <= r.1 < 16,
{
    let quotient: i32 = value / 16;
    let remainder: i32 = value % 16;
    if remainder < 0 {
        (quotient - 1, remainder + 16)
    } else {
        (quotient, remainder)
    }
}

/// A chunk and its blocks.
#[derive(Clone, Copy, Debug, PartialEq, Eq)]
pub struct Chunk {
    blocks: [[[BlockType; 16]; 16]; 16],
    dirty: bool,
}

impl Chunk {
    /// The block at a place within the chunk.
    pub closed spec fn block(&self, x: int, y: int, z: int) -> BlockType {
        self.blocks[x][z][y]
    }

    /// Whether the chunk has changed since it was last drawn.
    pub closed spec fn dirty(&self) -> bool {
        self.dirty
    }

    /// A chunk of air.
    pub fn new() -> (chunk: Chunk)
        ensures
            !chunk.dirty(),
            forall|x: int, y: int, z: int|
                0 <= x < 16 && 0 <= y < 16 && 0 <= z < 16 ==> #[trigger] chunk.block(x, y, z)
                    == BlockType::Air,
    {
        Chunk { blocks: [[[BlockType::Air; 16]; 16]; 16], dirty: false }
    }

    /// Sets the block at a place within the chunk. A place outside the
    /// chunk is refused.
    pub fn set_block(&mut self, x: usize, y: usize, z: usize, block_type: BlockType) -> (r: Result<
        (),
        (),
    >)
        ensures
            r is Ok <==> x < CHUNK_WIDTH && y < CHUNK_HEIGHT && z < CHUNK_DEPTH,
            r is Err ==> *final(self) == *old(self),
            final(self).dirty() == old(self).dirty(),
            r is Ok ==> forall|i: int, j: int, k: int|
                0 <= i < 16 && 0 <= j < 16 && 0 <= k < 16 ==> #[trigger] final(self).block(i, j, k)
                    == if i == x && j == y && k == z {
                    block_type
                } else {
                    old(self).block(i, j, k)
                },
    {
        if x < CHUNK_WIDTH && y < CHUNK_HEIGHT && z < CHUNK_DEPTH {
            self.blocks[x][z][y] = block_type;
            return Ok(());
        }
        Err(())
    }

    /// The block at a place within the chunk; air at any place outside it.
    pub fn get_block(&self, x: usize, y: usize, z: usize) -> (block: BlockType)
        ensures
            block == if x < CHUNK_WIDTH && y < CHUNK_HEIGHT && z < CHUNK_DEPTH {
                self.block(x as int, y as int, z as int)
            } else {
                BlockType::Air
            },
    {
        if x < CHUNK_WIDTH && y < CHUNK_HEIGHT && z < CHUNK_DEPTH {
            self.blocks[x][z][y]
        } else {
            BlockType::Air
        }
    }

    pub fn is_dirty(&self) -> (dirty: bool)
        ensures
            dirty == self.dirty(),
    {
        self.dirty
    }

    /// Marks the chunk as changed, or as drawn.
    pub fn set_dirty(&mut self, dirty: bool)
        ensures
            final(self).dirty() == dirty,
            forall|x: int, y: int, z: int| #[trigger]
                final(self).block(x, y, z) == old(self).block(x, y, z),
    {
        self.dirty = dirty;
    }

    /// Whether a block hides what lies behind it: a block within the
    /// chunk that is not air.
    pub fn is_opaque(&self, x: isize, y: isize, z: isize) -> (opaque: bool)
        ensures
            opaque == (0 <= x < 16 && 0 <= y < 16 && 0 <= z < 16 && self.block(
                x as int,
                y as int,
                z as int,
            ) != BlockType::Air),
    {
        if x < 0 || y < 0 || z < 0 || x >= 16 || y >= 16 || z >= 16 {
            return false;
        }
        self.blocks[x as usize][z as usize][y as usize] != BlockType::Air
    }
}

impl Default for Chunk {
    fn default() -> (chunk: Chunk)
        ensures
            !chunk.dirty(),
            forall|x: int, y: int, z: int|
                0 <= x < 16 && 0 <= y < 16 && 0 <= z < 16 ==> #[trigger] chunk.block(x, y, z)
                    == BlockType::Air,
    {
        Chunk::new()
    }
}

/// The place in `entries` of the first chunk at `at`, or the number of
/// entries where there is none.
pub open spec fn first_at(entries: Seq<(BlockPos, Chunk)>, at: BlockPos) -> int
    decreases entries.len(),
{
    if entries.len() == 0 {
        0
    } else if entries[0].0 == at {
        0
    } else {
        1 + first_at(entries.skip(1), at)
    }
}

pub proof fn lemma_first_at(entries: Seq<(BlockPos, Chunk)>, at: BlockPos)
    ensures
        0 <= first_at(entries, at) <= entries.len(),
        first_at(entries, at) < entries.len() ==> entries[first_at(entries, at)].0 == at,
        forall|i: int| 0 <= i < first_at(entries, at) ==> entries[i].0 != at,
    decreases entries.len(),
{
    if entries.len() > 0 && entries[0].0 != at {
        lemma_first_at(entries.skip(1), at);
        assert forall|i: int| 0 <= i < first_at(entries, at) implies entries[i].0 != at by {
            if i > 0 {
                assert(entries[i] == entries.skip(1)[i - 1]);
            }
        }
    }
}

/// The first chunk at `at` is at `i` where `i` holds one and no place
/// before `i` does.
pub proof fn lemma_first_at_is(entries: Seq<(BlockPos, Chunk)>, at: BlockPos, i: int)
    requires
        0 <= i <= entries.len(),
        i < entries.len() ==> entries[i].0 == at,
        forall|j: int| 0 <= j < i ==> entries[j].0 != at,
    ensures
        first_at(entries, at) == i,
{
    lemma_first_at(entries, at);
}

/// The chunks that `entries` hold, each by its position.
pub open spec fn chunks_of(entries: Seq<(BlockPos, Chunk)>) -> Map<BlockPos, Chunk> {
    Map::new(
        |at: BlockPos| first_at(entries, at) < entries.len(),
        |at: BlockPos| entries[first_at(entries, at)].1,
    )
}

/// Putting an entry for `pos` where the first one for `pos` was, or behind
/// all entries where there was none, changes the chunk at `pos` and no
/// other.
pub proof fn lemma_entry_replaced(
    before: Seq<(BlockPos, Chunk)>,
    after: Seq<(BlockPos, Chunk)>,
    entry: (BlockPos, Chunk),
)
    requires
        after == if first_at(before, entry.0) < before.len() {
            before.update(first_at(before, entry.0), entry)
        } else {
            before.push(entry)
        },
    ensures
        chunks_of(after).dom() == chunks_of(before).dom().insert(entry.0),
        chunks_of(after)[entry.0] == entry.1,
        forall|at: BlockPos|
            at != entry.0 && chunks_of(before).dom().contains(at) ==> #[trigger] chunks_of(
                after,
            )[at] == chunks_of(before)[at],
{
    let pos = entry.0;
    let i = first_at(before, pos);
    lemma_first_at(before, pos);
    lemma_first_at_is(after, pos, i);
    assert forall|at: BlockPos| at != pos implies {
        &&& first_at(after, at) < after.len() <==> first_at(before, at) < before.len()
        &&& first_at(before, at) < before.len() ==> first_at(after, at) == first_at(before, at)
    } by {
        let k = first_at(before, at);
        lemma_first_at(before, at);
        if k < before.len() {
            lemma_first_at_is(after, at, k);
        } else {
            lemma_first_at_is(after, at, after.len() as int);
        }
    }
    assert(chunks_of(after).dom() =~= chunks_of(before).dom().insert(pos));
    assert forall|at: BlockPos|
        at != pos && chunks_of(before).dom().contains(at) implies #[trigger] chunks_of(after)[at]
        == chunks_of(before)[at] by {
        let k = first_at(before, at);
        lemma_first_at(before, at);
        lemma_first_at_is(after, at, k);
        assert(after[k] == before[k]);
    }
}

/// The block at `pos` in a world of `chunks`: air where no chunk is.
pub open spec fn block_in(chunks: Map<BlockPos, Chunk>, pos: BlockPos) -> BlockType {
    if chunks.dom().contains(chunk_of(pos)) {
        chunks[chunk_of(pos)].block(
            local_of(pos).x as int,
            local_of(pos).y as int,
            local_of(pos).z as int,
        )
    } else {
        BlockType::Air
    }
}

/// A block position is told by its chunk and its place within the chunk.
pub proof fn lemma_split_injective(a: BlockPos, b: BlockPos)
    requires
        chunk_of(a) == chunk_of(b),
        local_of(a) == local_of(b),
    ensures
        a == b,
{
    assert(a.x as int == 16 * (a.x as int / 16) + a.x as int % 16);
    assert(b.x as int == 16 * (b.x as int / 16) + b.x as int % 16);
    assert(a.y as int == 16 * (a.y as int / 16) + a.y as int % 16);
    assert(b.y as int == 16 * (b.y as int / 16) + b.y as int % 16);
    assert(a.z as int == 16 * (a.z as int / 16) + a.z as int % 16);
    assert(b.z as int == 16 * (b.z as int / 16) + b.z as int % 16);
}

/// The chunks that are loaded.
pub struct ChunkMap {
    chunks: Vec<(BlockPos, Chunk)>,
}

impl View for ChunkMap {
    type V = Map<BlockPos, Chunk>;

    closed spec fn view(&self) -> Map<BlockPos, Chunk> {
        chunks_of(self.chunks@)
    }
}

impl ChunkMap {
    /// The block at `pos`.
    pub open spec fn block(&self, pos: BlockPos) -> BlockType {
        block_in(self@, pos)
    }

    /// A world without chunks.
    pub fn new() -> (map: ChunkMap)
        ensures
            map@ == Map::<BlockPos, Chunk>::empty(),
    {
        let map = ChunkMap { chunks: Vec::new() };
        assert(map@ =~= Map::<BlockPos, Chunk>::empty());
        map
    }

    /// The place of the chunk at `at` among the entries.
    fn find(&self, at: BlockPos) -> (i: usize)
        ensures
            i == first_at(self.chunks@, at),
            i <= self.chunks@.len(),
    {
        let mut i: usize = 0;
        while i < self.chunks.len()
            invariant
                i <= self.chunks@.len(),
                forall|j: int| 0 <= j < i ==> self.chunks@[j].0 != at,
            decreases self.chunks@.len() - i,
        {
            if self.chunks[i].0 == at {
                proof {
                    lemma_first_at_is(self.chunks@, at, i as int);
                }
                return i;
            }
            i += 1;
        }
        proof {
            lemma_first_at_is(self.chunks@, at, i as int);
        }
        i
    }

    /// Loads `chunk` at `pos`, in place of the chunk that was there, and
    /// marks it as changed.
    pub fn insert(&mut self, pos: BlockPos, chunk: Chunk)
        ensures
            final(self)@.dom() == old(self)@.dom().insert(pos),
            forall|at: BlockPos| at != pos && old(self)@.dom().contains(at) ==> final(self)@[at]
                == old(self)@[at],
            final(self)@[pos].dirty(),
            forall|x: int, y: int, z: int| #[trigger]
                final(self)@[pos].block(x, y, z) == chunk.block(x, y, z),
    {
        let mut chunk = chunk;
        chunk.set_dirty(true);
        let i = self.find(pos);
        let ghost before = self.chunks@;
        if i < self.chunks.len() {
            self.chunks[i] = (pos, chunk);
        } else {
            self.chunks.push((pos, chunk));
        }
        proof {
            lemma_entry_replaced(before, self.chunks@, (pos, chunk));
        }
    }

    /// Sets the block at `pos` and marks its chunk as changed. Where no
    /// chunk is loaded nothing is set.
    pub fn set_block(&mut self, pos: BlockPos, block_type: BlockType) -> (r: Result<(), ()>)
        ensures
            r is Ok <==> old(self)@.dom().contains(chunk_of(pos)),
            r is Err ==> final(self)@ == old(self)@,
            final(self)@.dom() == old(self)@.dom(),
            forall|at: BlockPos|
                at != chunk_of(pos) && old(self)@.dom().contains(at) ==> final(self)@[at]
                    == old(self)@[at],
            r is Ok ==> final(self)@[chunk_of(pos)].dirty(),
            forall|other: BlockPos| #[trigger]
                final(self).block(other) == if r is Ok && other == pos {
                    block_type
                } else {
                    old(self).block(other)
                },
    {
        let (chunk_pos, local_pos) = Self::split_pos(pos);
        let i = self.find(chunk_pos);
        let ghost before = self.chunks@;
        proof {
            lemma_first_at(before, chunk_pos);
        }
        if i >= self.chunks.len() {
            return Err(());
        }
        let mut chunk = self.chunks[i].1;
        if chunk.set_block(
            local_pos.x as usize,
            local_pos.y as usize,
            local_pos.z as usize,
            block_type,
        ).is_err() {
            return Err(());
        }
        chunk.set_dirty(true);
        self.chunks[i] = (chunk_pos, chunk);
        proof {
            lemma_entry_replaced(before, self.chunks@, (chunk_pos, chunk));
            assert(self@.dom() =~= old(self)@.dom());
            assert forall|other: BlockPos| #[trigger]
                self.block(other) == if other == pos {
                    block_type
                } else {
                    old(self).block(other)
                } by {
                if other != pos && chunk_of(other) == chunk_pos {
                    if local_of(other) == local_of(pos) {
                        lemma_split_injective(other, pos);
                    }
                }
            }
        }
        Ok(())
    }

    /// The block at `pos`: air where no chunk is loaded.
    pub fn get_block(&self, pos: BlockPos) -> (block: BlockType)
        ensures
            block == self.block(pos),
    {
        let (chunk_pos, local_pos) = Self::split_pos(pos);
        let i = self.find(chunk_pos);
        proof {
            lemma_first_at(self.chunks@, chunk_pos);
        }
        if i < self.chunks.len() {
            return self.chunks[i].1.get_block(
                local_pos.x as usize,
                local_pos.y as usize,
                local_pos.z as usize,
            );
        }
        BlockType::Air
    }

    /// Whether a chunk is loaded at `at`.
    pub fn has_chunk(&self, at: BlockPos) -> (loaded: bool)
        ensures
            loaded == self@.dom().contains(at),
    {
        let i = self.find(at);
        i < self.chunks.len()
    }

    /// A block position as its chunk's position and its place within the
    /// chunk.
    pub fn split_pos(pos: BlockPos) -> (r: (BlockPos, BlockPos))
        ensures
            r.0 == chunk_of(pos),
            r.1 == local_of(pos),
            0 <= r.1.x < 16,
            0 <= r.1.y < 16,
            0 <= r.1.z < 16,
    {
        let (chunk_x, local_x) = split_coordinate(pos.x);
        let (chunk_y, local_y) = split_coordinate(pos.y);
        let (chunk_z, local_z) = split_coordinate(pos.z);
        (
            BlockPos { x: chunk_x, y: chunk_y, z: chunk_z },
            BlockPos { x: local_x, y: local_y, z: local_z },
        )
    }
}

impl Default for ChunkMap {
    fn default() -> (map: ChunkMap)
        ensures
            map@ == Map::<BlockPos, Chunk>::empty(),
    {
        ChunkMap::new()
    }
}

/// Whether a block lies in the goal of `player`: the goals are three
/// blocks wide in each direction, player 0's at negative x and player 1's
/// at positive x.
pub open spec fn in_goal(player: u16, pos: BlockPos) -> bool {
    &&& if player == 0 {
        -27 <= pos.x <= -25
    } else {
        25 <= pos.x <= 27
    }
    &&& -3 <= pos.y <= -1
    &&& -1 <= pos.z <= 1
}

/// Whether a block lies in the goal of `player`.
pub fn is_in_goal(player: u16, pos: BlockPos) -> (inside: bool)
    ensures
        inside == in_goal(player, pos),
{
    let in_x = if player == 0 {
        -27 <= pos.x && pos.x <= -25
    } else {
        25 <= pos.x && pos.x <= 27
    };
    in_x && -3 <= pos.y && pos.y <= -1 && -1 <= pos.z && pos.z <= 1
}

/// The chunks that a new world has loaded.
pub open spec fn initial_chunk(at: BlockPos) -> bool {
    -2 <= at.x <= 2 && -1 <= at.y <= 1 && -1 <= at.z <= 1
}

/// The bridge between the islands: one block wide, nine blocks deep, blue
/// on player 0's side, red on player 1's, white in the middle.
pub open spec fn on_bridge(pos: BlockPos) -> bool {
    -20 <= pos.x <= 20 && -8 <= pos.y <= 0 && pos.z == 0
}

pub open spec fn bridge_block(x: int) -> BlockType {
    if x < 0 {
        BlockType::BlueBlock
    } else if x == 0 {
        BlockType::WhiteBlock
    } else {
        BlockType::RedBlock
    }
}

/// The room that is left free on each island: the goal and the layer of
/// blocks above it, `x` being the distance from the middle.
pub open spec fn in_goal_room(x: int, y: int, z: int) -> bool {
    25 <= x <= 27 && -3 <= y <= 0 && -1 <= z <= 1
}

/// Whether `x`, `y`, `z` is a block of an island, `x` being the distance
/// from the middle.
pub open spec fn island_shape(x: int, y: int, z: int) -> bool {
    21 <= x <= 30 && -5 <= y <= 0 && -5 <= z <= 5 && !in_goal_room(x, y, z)
}

/// The two islands at the ends of the bridge, one the mirror image of the
/// other.
pub open spec fn on_island(pos: BlockPos) -> bool {
    island_shape(
        if pos.x < 0 {
            -pos.x
        } else {
            pos.x as int
        },
        pos.y as int,
        pos.z as int,
    )
}

/// An island is stone below, then dirt, and grass on top.
pub open spec fn island_block(y: int) -> BlockType {
    if y <= -3 {
        BlockType::Stone
    } else if y <= -1 {
        BlockType::Dirt
    } else {
        BlockType::Grass
    }
}

/// The block at `pos` in a new world.
pub open spec fn initial_block(pos: BlockPos) -> BlockType {
    if on_bridge(pos) {
        bridge_block(pos.x as int)
    } else if on_island(pos) {
        island_block(pos.y as int)
    } else {
        BlockType::Air
    }
}

/// Whether `a` comes before `b` where positions are counted by `x`, then
/// `y`, then `z`.
pub open spec fn comes_before(ax: int, ay: int, az: int, bx: int, by: int, bz: int) -> bool {
    ax < bx || (ax == bx && (ay < by || (ay == by && az < bz)))
}

/// The chunks that are loaded once loading has come to `x`, `y`, `z`.
pub open spec fn loaded_before(at: BlockPos, x: int, y: int, z: int) -> bool {
    initial_chunk(at) && comes_before(at.x as int, at.y as int, at.z as int, x, y, z)
}

/// The world while the bridge is built, once building has come to `x`,
/// `y`.
pub open spec fn bridge_before(pos: BlockPos, x: int, y: int) -> BlockType {
    if on_bridge(pos) && comes_before(pos.x as int, pos.y as int, 0, x, y, 0) {
        bridge_block(pos.x as int)
    } else {
        BlockType::Air
    }
}

/// How far `x` lies from the middle towards the island of `side`.
pub open spec fn from_middle(side: i32, x: i32) -> int {
    if side == 0 {
        -x
    } else {
        x as int
    }
}

/// The world while the island of `side` is built, once building has come
/// to `x`, `y`, `z`: the bridge and the islands of the sides before stand.
pub open spec fn island_before(pos: BlockPos, side: i32, x: int, y: int, z: int) -> BlockType {
    if on_bridge(pos) {
        bridge_block(pos.x as int)
    } else if on_island(pos) && ((side == 1 && pos.x < 0) || (from_middle(side, pos.x) > 0
        && comes_before(from_middle(side, pos.x), pos.y as int, pos.z as int, x, y, z))) {
        island_block(pos.y as int)
    } else {
        BlockType::Air
    }
}

/// Loads the chunks of a new world, all of air.
fn load_chunks(map: &mut ChunkMap)
    requires
        old(map)@ == Map::<BlockPos, Chunk>::empty(),
    ensures
        forall|at: BlockPos| #[trigger] final(map)@.dom().contains(at) <==> initial_chunk(at),
        forall|at: BlockPos| final(map)@.dom().contains(at) ==> #[trigger] final(map)@[at].dirty(),
        forall|pos: BlockPos| #[trigger] final(map).block(pos) == BlockType::Air,
{
    let mut x: i32 = -2;
    while x <= 2
        invariant
            -2 <= x <= 3,
            forall|at: BlockPos| #[trigger]
                map@.dom().contains(at) <==> loaded_before(at, x as int, -1, -1),
            forall|at: BlockPos| map@.dom().contains(at) ==> #[trigger] map@[at].dirty(),
            forall|pos: BlockPos| #[trigger] map.block(pos) == BlockType::Air,
        decreases 3 - x,
    {
        let mut y: i32 = -1;
        while y <= 1
            invariant
                -2 <= x <= 2,
                -1 <= y <= 2,
                forall|at: BlockPos| #[trigger]
                    map@.dom().contains(at) <==> loaded_before(at, x as int, y as int, -1),
                forall|at: BlockPos| map@.dom().contains(at) ==> #[trigger] map@[at].dirty(),
                forall|pos: BlockPos| #[trigger] map.block(pos) == BlockType::Air,
            decreases 2 - y,
        {
            let mut z: i32 = -1;
            while z <= 1
                invariant
                    -2 <= x <= 2,
                    -1 <= y <= 1,
                    -1 <= z <= 2,
                    forall|at: BlockPos| #[trigger]
                        map@.dom().contains(at) <==> loaded_before(
                            at,
                            x as int,
                            y as int,
                            z as int,
                        ),
                    forall|at: BlockPos| map@.dom().contains(at) ==> #[trigger] map@[at].dirty(),
                    forall|pos: BlockPos| #[trigger] map.block(pos) == BlockType::Air,
                decreases 2 - z,
            {
                let ghost before = *map;
                let here = BlockPos { x, y, z };
                map.insert(here, Chunk::default());
                proof {
                    assert forall|at: BlockPos| #[trigger]
                        map@.dom().contains(at) <==> loaded_before(
                            at,
                            x as int,
                            y as int,
                            z + 1,
                        ) by {
                        assert(before@.dom().contains(at) <==> loaded_before(
                            at,
                            x as int,
                            y as int,
                            z as int,
                        ));
                        assert(map@.dom().contains(at) <==> at == here || before@.dom().contains(
                            at,
                        ));
                    }
                    assert forall|at: BlockPos| map@.dom().contains(at) implies #[trigger] map@[at]
                        .dirty() by {
                        if at != here {
                            assert(before@.dom().contains(at));
                            assert(before@[at].dirty());
                        }
                    }
                    assert forall|pos: BlockPos| #[trigger] map.block(pos) == BlockType::Air by {
                        assert(before.block(pos) == BlockType::Air);
                    }
                }
                z += 1;
            }
            proof {
                assert forall|at: BlockPos| #[trigger]
                    map@.dom().contains(at) <==> loaded_before(at, x as int, y + 1, -1) by {
                    assert(map@.dom().contains(at) <==> loaded_before(at, x as int, y as int, 2));
                }
            }
            y += 1;
        }
        proof {
            assert forall|at: BlockPos| #[trigger]
                map@.dom().contains(at) <==> loaded_before(at, x + 1, -1, -1) by {
                assert(map@.dom().contains(at) <==> loaded_before(at, x as int, 2, -1));
            }
        }
        x += 1;
    }
    proof {
        assert forall|at: BlockPos| #[trigger] map@.dom().contains(at) <==> initial_chunk(at) by {
            assert(map@.dom().contains(at) <==> loaded_before(at, 3, -1, -1));
        }
    }
}

/// Builds the bridge in a world of air.
fn build_bridge(map: &mut ChunkMap)
    requires
        forall|at: BlockPos| #[trigger] old(map)@.dom().contains(at) <==> initial_chunk(at),
        forall|at: BlockPos| old(map)@.dom().contains(at) ==> #[trigger] old(map)@[at].dirty(),
        forall|pos: BlockPos| #[trigger] old(map).block(pos) == BlockType::Air,
    ensures
        forall|at: BlockPos| #[trigger] final(map)@.dom().contains(at) <==> initial_chunk(at),
        forall|at: BlockPos| final(map)@.dom().contains(at) ==> #[trigger] final(map)@[at].dirty(),
        forall|pos: BlockPos| #[trigger]
            final(map).block(pos) == if on_bridge(pos) {
                bridge_block(pos.x as int)
            } else {
                BlockType::Air
            },
{
    let mut x: i32 = -20;
    proof {
        assert forall|pos: BlockPos| #[trigger] map.block(pos) == bridge_before(pos, -20, -8) by {
            assert(map.block(pos) == BlockType::Air);
        }
    }
    while x <= 20
        invariant
            -20 <= x <= 21,
            forall|at: BlockPos| #[trigger] map@.dom().contains(at) <==> initial_chunk(at),
            forall|at: BlockPos| map@.dom().contains(at) ==> #[trigger] map@[at].dirty(),
            forall|pos: BlockPos| #[trigger] map.block(pos) == bridge_before(pos, x as int, -8),
        decreases 21 - x,
    {
        let mut y: i32 = -8;
        while y <= 0
            invariant
                -20 <= x <= 20,
                -8 <= y <= 1,
                forall|at: BlockPos| #[trigger] map@.dom().contains(at) <==> initial_chunk(at),
                forall|at: BlockPos| map@.dom().contains(at) ==> #[trigger] map@[at].dirty(),
                forall|pos: BlockPos| #[trigger]
                    map.block(pos) == bridge_before(pos, x as int, y as int),
            decreases 1 - y,
        {
            let block_type = if x < 0 {
                BlockType::BlueBlock
            } else if x == 0 {
                BlockType::WhiteBlock
            } else {
                BlockType::RedBlock
            };
            let pos = BlockPos { x, y, z: 0 };
            let ghost before = *map;
            proof {
                assert(initial_chunk(chunk_of(pos)));
                assert(before@.dom().contains(chunk_of(pos)));
            }
            let placed = map.set_block(pos, block_type);
            assert(placed is Ok);
            proof {
                lemma_chunks_stay(before@, map@, chunk_of(pos));
                assert forall|other: BlockPos| #[trigger]
                    map.block(other) == bridge_before(other, x as int, y + 1) by {
                    assert(before.block(other) == bridge_before(other, x as int, y as int));
                }
            }
            y += 1;
        }
        proof {
            assert forall|pos: BlockPos| #[trigger]
                map.block(pos) == bridge_before(pos, x + 1, -8) by {
                assert(map.block(pos) == bridge_before(pos, x as int, 1));
            }
        }
        x += 1;
    }
    proof {
        assert forall|pos: BlockPos| #[trigger]
            map.block(pos) == if on_bridge(pos) {
                bridge_block(pos.x as int)
            } else {
                BlockType::Air
            } by {
            assert(map.block(pos) == bridge_before(pos, 21, -8));
        }
    }
}

/// Where one chunk was changed and marked, the same chunks are loaded and
/// every chunk that was marked is marked.
proof fn lemma_chunks_stay(
    before: Map<BlockPos, Chunk>,
    after: Map<BlockPos, Chunk>,
    changed: BlockPos,
)
    requires
        after.dom() == before.dom(),
        after[changed].dirty(),
        forall|at: BlockPos| at != changed && before.dom().contains(at) ==> after[at] == before[at],
        forall|at: BlockPos| #[trigger] before.dom().contains(at) <==> initial_chunk(at),
        forall|at: BlockPos| before.dom().contains(at) ==> #[trigger] before[at].dirty(),
    ensures
        forall|at: BlockPos| #[trigger] after.dom().contains(at) <==> initial_chunk(at),
        forall|at: BlockPos| after.dom().contains(at) ==> #[trigger] after[at].dirty(),
{
    assert forall|at: BlockPos| after.dom().contains(at) implies #[trigger] after[at].dirty() by {
        if at != changed {
            assert(before.dom().contains(at));
            assert(before[at].dirty());
        }
    }
}

/// Builds the island on one side of a world that holds the bridge and the
/// islands of the sides before it.
fn build_island(map: &mut ChunkMap, side: i32)
    requires
        0 <= side <= 1,
        forall|at: BlockPos| #[trigger] old(map)@.dom().contains(at) <==> initial_chunk(at),
        forall|at: BlockPos| old(map)@.dom().contains(at) ==> #[trigger] old(map)@[at].dirty(),
        forall|pos: BlockPos| #[trigger]
            old(map).block(pos) == island_before(pos, side, 21, -5, -5),
    ensures
        forall|at: BlockPos| #[trigger] final(map)@.dom().contains(at) <==> initial_chunk(at),
        forall|at: BlockPos| final(map)@.dom().contains(at) ==> #[trigger] final(map)@[at].dirty(),
        forall|pos: BlockPos| #[trigger]
            final(map).block(pos) == island_before(pos, side, 31, -5, -5),
{
    let mut x: i32 = 21;
    while x <= 30
        invariant
            0 <= side <= 1,
            21 <= x <= 31,
            forall|at: BlockPos| #[trigger] map@.dom().contains(at) <==> initial_chunk(at),
            forall|at: BlockPos| map@.dom().contains(at) ==> #[trigger] map@[at].dirty(),
            forall|pos: BlockPos| #[trigger]
                map.block(pos) == island_before(pos, side, x as int, -5, -5),
        decreases 31 - x,
    {
        let mut y: i32 = -5;
        while y <= 0
            invariant
                0 <= side <= 1,
                21 <= x <= 30,
                -5 <= y <= 1,
                forall|at: BlockPos| #[trigger] map@.dom().contains(at) <==> initial_chunk(at),
                forall|at: BlockPos| map@.dom().contains(at) ==> #[trigger] map@[at].dirty(),
                forall|pos: BlockPos| #[trigger]
                    map.block(pos) == island_before(pos, side, x as int, y as int, -5),
            decreases 1 - y,
        {
            let mut z: i32 = -5;
            while z <= 5
                invariant
                    0 <= side <= 1,
                    21 <= x <= 30,
                    -5 <= y <= 0,
                    -5 <= z <= 6,
                    forall|at: BlockPos| #[trigger] map@.dom().contains(at) <==> initial_chunk(at),
                    forall|at: BlockPos| map@.dom().contains(at) ==> #[trigger] map@[at].dirty(),
                    forall|pos: BlockPos| #[trigger]
                        map.block(pos) == island_before(pos, side, x as int, y as int, z as int),
                decreases 6 - z,
            {
                let in_room = 25 <= x && x <= 27 && -3 <= y && y <= 0 && -1 <= z && z <= 1;
                let ghost before = *map;
                if !in_room {
                    let block_type = if y <= -3 {
                        BlockType::Stone
                    } else if y <= -1 {
                        BlockType::Dirt
                    } else {
                        BlockType::Grass
                    };
                    let pos = BlockPos { x: if side == 0 { -x } else { x }, y, z };
                    proof {
                        assert(initial_chunk(chunk_of(pos)));
                        assert(before@.dom().contains(chunk_of(pos)));
                    }
                    let placed = map.set_block(pos, block_type);
            assert(placed is Ok);
                    proof {
                        lemma_chunks_stay(before@, map@, chunk_of(pos));
                        assert forall|other: BlockPos| #[trigger]
                            map.block(other) == island_before(
                                other,
                                side,
                                x as int,
                                y as int,
                                z + 1,
                            ) by {
                            assert(before.block(other) == island_before(
                                other,
                                side,
                                x as int,
                                y as int,
                                z as int,
                            ));
                        }
                    }
                } else {
                    proof {
                        assert forall|other: BlockPos| #[trigger]
                            map.block(other) == island_before(
                                other,
                                side,
                                x as int,
                                y as int,
                                z + 1,
                            ) by {
                            assert(map.block(other) == island_before(
                                other,
                                side,
                                x as int,
                                y as int,
                                z as int,
                            ));
                        }
                    }
                }
                z += 1;
            }
            proof {
                assert forall|pos: BlockPos| #[trigger]
                    map.block(pos) == island_before(pos, side, x as int, y + 1, -5) by {
                    assert(map.block(pos) == island_before(pos, side, x as int, y as int, 6));
                }
            }
            y += 1;
        }
        proof {
            assert forall|pos: BlockPos| #[trigger]
                map.block(pos) == island_before(pos, side, x + 1, -5, -5) by {
                assert(map.block(pos) == island_before(pos, side, x as int, 1, -5));
            }
        }
        x += 1;
    }
}

/// A new world: the chunks around the middle, the bridge, and an island
/// with a goal at each end of it. Every chunk is marked as changed.
pub fn init_map() -> (map: ChunkMap)
    ensures
        forall|at: BlockPos| #[trigger] map@.dom().contains(at) <==> initial_chunk(at),
        forall|at: BlockPos| map@.dom().contains(at) ==> #[trigger] map@[at].dirty(),
        forall|pos: BlockPos| #[trigger] map.block(pos) == initial_block(pos),
{
    let mut map = ChunkMap::default();
    load_chunks(&mut map);
    build_bridge(&mut map);
    proof {
        assert forall|pos: BlockPos| #[trigger]
            map.block(pos) == island_before(pos, 0, 21, -5, -5) by {
            assert(map.block(pos) == if on_bridge(pos) {
                bridge_block(pos.x as int)
            } else {
                BlockType::Air
            });
        }
    }
    build_island(&mut map, 0);
    proof {
        assert forall|pos: BlockPos| #[trigger]
            map.block(pos) == island_before(pos, 1, 21, -5, -5) by {
            assert(map.block(pos) == island_before(pos, 0, 31, -5, -5));
        }
    }
    build_island(&mut map, 1);
    proof {
        assert forall|pos: BlockPos| #[trigger] map.block(pos) == initial_block(pos) by {
            assert(map.block(pos) == island_before(pos, 1, 31, -5, -5));
        }
    }
    map
}

} // verus!
