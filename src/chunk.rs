use vstd::prelude::*;
use crate::coord::ChunkCoord;

verus! {

/// Number of cells in a chunk: 32 on each edge.
pub const CHUNK_CELLS: usize = 32768;

/// Kind of block held by a cell.
#[derive(Clone, Copy, Debug, PartialEq, Eq, Hash, Structural)]
pub enum BlockId {
    Air,
    Stone,
    Dirt,
    Grass,
    Bedrock,
}

/// The byte that stores a block kind.
pub open spec fn block_code(b: BlockId) -> u8 {
    match b {
        BlockId::Air => 0,
        BlockId::Stone => 1,
        BlockId::Dirt => 2,
        BlockId::Grass => 3,
        BlockId::Bedrock => 4,
    }
}

/// The block kind a stored byte stands for; unknown bytes read as air.
pub open spec fn block_of(v: u8) -> BlockId {
    if v == 1 {
        BlockId::Stone
    } else if v == 2 {
        BlockId::Dirt
    } else if v == 3 {
        BlockId::Grass
    } else if v == 4 {
        BlockId::Bedrock
    } else {
        BlockId::Air
    }
}

impl BlockId {
    pub fn code(&self) -> (r: u8)
        ensures
            r == block_code(*self),
    {
        match self {
            BlockId::Air => 0,
            BlockId::Stone => 1,
            BlockId::Dirt => 2,
            BlockId::Grass => 3,
            BlockId::Bedrock => 4,
        }
    }

    pub fn from_code(v: u8) -> (r: BlockId)
        ensures
            r == block_of(v),
    {
        if v == 1 {
            BlockId::Stone
        } else if v == 2 {
            BlockId::Dirt
        } else if v == 3 {
            BlockId::Grass
        } else if v == 4 {
            BlockId::Bedrock
        } else {
            BlockId::Air
        }
    }
}

impl Default for BlockId {
    fn default() -> (r: BlockId)
        ensures
            r == BlockId::Air,
    {
        BlockId::Air
    }
}

/// Position of a cell: x fastest, then z, then y.
pub open spec fn cell_index(x: int, y: int, z: int) -> int {
    (y * 32 + z) * 32 + x
}

pub open spec fn in_chunk(x: int, y: int, z: int) -> bool {
    0 <= x < 32 && 0 <= y < 32 && 0 <= z < 32
}

/// A chunk's blocks, its index of solid cells and its dirty flag.
pub struct Chunk {
    pub coord: ChunkCoord,
    pub blocks: Vec<u8>,
    pub solid_blocks: Vec<(u32, u32, u32)>,
    pub dirty: bool,
}

/// Position of a cell in the scan order x, then y, then z.
pub open spec fn scan_key(p: (u32, u32, u32)) -> int {
    (p.0 as int * 32 + p.1 as int) * 32 + p.2 as int
}

proof fn lemma_index_bounds(x: int, y: int, z: int)
    requires
        in_chunk(x, y, z),
    ensures
        0 <= cell_index(x, y, z) < 32768,
{
    assert(0 <= (y * 32 + z) * 32 + x < 32768) by (nonlinear_arith)
        requires
            0 <= x < 32,
            0 <= y < 32,
            0 <= z < 32,
    ;
}

impl Chunk {
    pub open spec fn wf(&self) -> bool {
        self.blocks@.len() == CHUNK_CELLS
    }

    /// The block kind in a cell.
    pub open spec fn block(&self, x: int, y: int, z: int) -> BlockId {
        block_of(self.blocks@[cell_index(x, y, z)])
    }

    /// The solid index lists exactly the non-air cells, each once, in scan
    /// order: x outermost, then y, then z.
    pub open spec fn solid_index_exact(&self) -> bool {
        &&& forall|i: int, j: int| 0 <= i < j < self.solid_blocks@.len() ==> scan_key(#[trigger] self.solid_blocks@[i])
            < scan_key(#[trigger] self.solid_blocks@[j])
        &&& forall|i: int| 0 <= i < self.solid_blocks@.len() ==> {
            let p = #[trigger] self.solid_blocks@[i];
            in_chunk(p.0 as int, p.1 as int, p.2 as int) && self.block(p.0 as int, p.1 as int, p.2 as int)
                != BlockId::Air
        }
        &&& forall|x: u32, y: u32, z: u32| in_chunk(x as int, y as int, z as int) && self.block(x as int, y as int, z as int)
            != BlockId::Air ==> #[trigger] self.solid_blocks@.contains((x, y, z))
    }

    /// A chunk of air at `coord`, marked dirty, with an empty solid index.
    pub fn new(coord: ChunkCoord) -> (r: Chunk)
        ensures
            r.wf(),
            r.coord == coord,
            r.dirty,
            r.solid_blocks@.len() == 0,
            forall|i: int| 0 <= i < CHUNK_CELLS ==> r.blocks@[i] == 0,
    {
        let mut blocks: Vec<u8> = Vec::new();
        let mut i: usize = 0;
        while i < CHUNK_CELLS
            invariant
                i <= CHUNK_CELLS,
                blocks@.len() == i,
                forall|j: int| 0 <= j < i ==> blocks@[j] == 0,
            decreases CHUNK_CELLS - i,
        {
            blocks.push(0);
            i = i + 1;
        }
        Chunk { coord, blocks, solid_blocks: Vec::new(), dirty: true }
    }

    pub fn index(x: u32, y: u32, z: u32) -> (r: usize)
        requires
            in_chunk(x as int, y as int, z as int),
        ensures
            r as int == cell_index(x as int, y as int, z as int),
            r < CHUNK_CELLS,
    {
        proof {
            lemma_index_bounds(x as int, y as int, z as int);
        }
        ((y as usize) * 32 + (z as usize)) * 32 + (x as usize)
    }

    pub fn get_block(&self, x: u32, y: u32, z: u32) -> (r: BlockId)
        requires
            self.wf(),
            in_chunk(x as int, y as int, z as int),
        ensures
            r == self.block(x as int, y as int, z as int),
    {
        let idx = Chunk::index(x, y, z);
        BlockId::from_code(self.blocks[idx])
    }

    /// Writes one cell without touching the solid index and marks the chunk
    /// dirty.
    fn write_cell(&mut self, x: u32, y: u32, z: u32, id: BlockId)
        requires
            old(self).wf(),
            in_chunk(x as int, y as int, z as int),
        ensures
            final(self).wf(),
            final(self).blocks@ == old(self).blocks@.update(cell_index(x as int, y as int, z as int), block_code(id)),
            final(self).dirty,
            final(self).coord == old(self).coord,
            final(self).solid_blocks == old(self).solid_blocks,
    {
        let idx = Chunk::index(x, y, z);
        let code = id.code();
        self.blocks.set(idx, code);
        self.dirty = true;
    }

    /// Writes one cell, marks the chunk dirty, and rebuilds the solid index.
    pub fn set_block(&mut self, x: u32, y: u32, z: u32, id: BlockId)
        requires
            old(self).wf(),
            in_chunk(x as int, y as int, z as int),
        ensures
            final(self).wf(),
            final(self).blocks@ == old(self).blocks@.update(cell_index(x as int, y as int, z as int), block_code(id)),
            final(self).dirty,
            final(self).coord == old(self).coord,
            final(self).solid_index_exact(),
    {
        self.write_cell(x, y, z, id);
        self.compute_solid_blocks();
    }

    /// Rebuilds the solid index from the blocks.
    pub fn compute_solid_blocks(&mut self)
        requires
            old(self).wf(),
        ensures
            final(self).wf(),
            final(self).blocks == old(self).blocks,
            final(self).dirty == old(self).dirty,
            final(self).coord == old(self).coord,
            final(self).solid_index_exact(),
    {
        let mut list: Vec<(u32, u32, u32)> = Vec::new();
        let mut x: u32 = 0;
        while x < 32
            invariant
                self.wf(),
                x <= 32,
                forall|i: int, j: int| 0 <= i < j < list@.len() ==> scan_key(#[trigger] list@[i]) < scan_key(#[trigger] list@[j]),
                forall|i: int| 0 <= i < list@.len() ==> scan_key(#[trigger] list@[i]) < x as int * 1024,
                forall|i: int| 0 <= i < list@.len() ==> {
                    let p = #[trigger] list@[i];
                    in_chunk(p.0 as int, p.1 as int, p.2 as int) && self.block(p.0 as int, p.1 as int, p.2 as int)
                        != BlockId::Air
                },
                forall|a: u32, b: u32, c: u32| a < x && in_chunk(a as int, b as int, c as int) && self.block(a as int, b as int, c as int)
                    != BlockId::Air ==> #[trigger] list@.contains((a, b, c)),
            decreases 32 - x,
        {
            let mut y: u32 = 0;
            while y < 32
                invariant
                    self.wf(),
                    x < 32,
                    y <= 32,
                    forall|i: int, j: int| 0 <= i < j < list@.len() ==> scan_key(#[trigger] list@[i]) < scan_key(#[trigger] list@[j]),
                    forall|i: int| 0 <= i < list@.len() ==> scan_key(#[trigger] list@[i]) < (x as int * 32 + y as int) * 32,
                    forall|i: int| 0 <= i < list@.len() ==> {
                        let p = #[trigger] list@[i];
                        in_chunk(p.0 as int, p.1 as int, p.2 as int) && self.block(p.0 as int, p.1 as int, p.2 as int)
                            != BlockId::Air
                    },
                    forall|a: u32, b: u32, c: u32| (a < x || (a == x && b < y)) && in_chunk(a as int, b as int, c as int)
                        && self.block(a as int, b as int, c as int) != BlockId::Air ==> #[trigger] list@.contains((a, b, c)),
                decreases 32 - y,
            {
                let mut z: u32 = 0;
                while z < 32
                    invariant
                        self.wf(),
                        x < 32,
                        y < 32,
                        z <= 32,
                        forall|i: int, j: int| 0 <= i < j < list@.len() ==> scan_key(#[trigger] list@[i]) < scan_key(#[trigger] list@[j]),
                        forall|i: int| 0 <= i < list@.len() ==> scan_key(#[trigger] list@[i]) < (x as int * 32 + y as int) * 32 + z as int,
                        forall|i: int| 0 <= i < list@.len() ==> {
                            let p = #[trigger] list@[i];
                            in_chunk(p.0 as int, p.1 as int, p.2 as int) && self.block(p.0 as int, p.1 as int, p.2 as int)
                                != BlockId::Air
                        },
                        forall|a: u32, b: u32, c: u32| (a < x || (a == x && b < y) || (a == x && b == y && c < z))
                            && in_chunk(a as int, b as int, c as int) && self.block(a as int, b as int, c as int)
                            != BlockId::Air ==> #[trigger] list@.contains((a, b, c)),
                    decreases 32 - z,
                {
                    let ghost prev = list@;
                    if self.get_block(x, y, z) != BlockId::Air {
                        list.push((x, y, z));
                        proof {
                            assert forall|a: u32, b: u32, c: u32| prev.contains((a, b, c)) implies list@.contains((a, b, c)) by {
                                crate::queues::lemma_push_contains(prev, (x, y, z), (a, b, c));
                            }
                            crate::queues::lemma_push_contains(prev, (x, y, z), (x, y, z));
                        }
                    }
                    proof {
                        assert forall|a: u32, b: u32, c: u32| (a < x || (a == x && b < y) || (a == x && b == y && c < z + 1))
                            && in_chunk(a as int, b as int, c as int) && self.block(a as int, b as int, c as int)
                            != BlockId::Air implies #[trigger] list@.contains((a, b, c)) by {
                            if a == x && b == y && c == z {
                            } else {
                                assert(prev.contains((a, b, c)));
                            }
                        }
                    }
                    z = z + 1;
                }
                y = y + 1;
            }
            x = x + 1;
        }
        self.solid_blocks = list;
    }

    pub fn get_solid_blocks(&self) -> (r: &Vec<(u32, u32, u32)>)
        ensures
            r == &self.solid_blocks,
    {
        &self.solid_blocks
    }

    /// Called by the mesh builder once it has rebuilt the chunk's mesh.
    pub fn clear_dirty(&mut self)
        ensures
            !final(self).dirty,
            final(self).blocks == old(self).blocks,
            final(self).solid_blocks == old(self).solid_blocks,
            final(self).coord == old(self).coord,
    {
        self.dirty = false;
    }
}

} // verus!
