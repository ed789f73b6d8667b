use vstd::prelude::*;

verus! {

/// Edge length of a chunk, in blocks.
pub const CHUNK_EDGE: i32 = 32;

/// Integer position of a chunk in chunk space.
#[derive(Clone, Copy, Debug, PartialEq, Eq, Hash, Structural)]
pub struct ChunkCoord {
    pub x: i32,
    pub y: i32,
    pub z: i32,
}

impl ChunkCoord {
    pub fn new(x: i32, y: i32, z: i32) -> (r: ChunkCoord)
        ensures
            r.x == x && r.y == y && r.z == z,
    {
        ChunkCoord { x, y, z }
    }

    /// The plain tuple under which the chunk map keys this coordinate.
    pub open spec fn key(self) -> (i32, i32, i32) {
        (self.x, self.y, self.z)
    }

    pub fn to_key(&self) -> (r: (i32, i32, i32))
        ensures
            r == self.key(),
    {
        (self.x, self.y, self.z)
    }

    pub open spec fn from_key(k: (i32, i32, i32)) -> ChunkCoord {
        ChunkCoord { x: k.0, y: k.1, z: k.2 }
    }
}

/// Floor division of a block coordinate by the chunk edge.
pub open spec fn chunk_of(w: int) -> int {
    w / (CHUNK_EDGE as int)
}

fn floor_div_edge(w: i32) -> (r: i32)
    ensures
        r as int == chunk_of(w as int),
{
    let e: i64 = CHUNK_EDGE as i64;
    let wl: i64 = w as i64;
    if wl >= 0 {
        let q: i64 = wl / e;
        q as i32
    } else {
        let m: i64 = -wl - 1;
        let q: i64 = m / e;
        proof {
            assert(wl as int / 32 == -(q as int) - 1) by (nonlinear_arith)
                requires
                    m == -wl - 1,
                    q == m / 32,
                    m >= 0,
            ;
        }
        (-q - 1) as i32
    }
}

/// The chunk that holds a block, by floor division of each axis.
pub fn world_pos_to_chunk_coord(wx: i32, wy: i32, wz: i32) -> (r: ChunkCoord)
    ensures
        r.x as int == chunk_of(wx as int),
        r.y as int == chunk_of(wy as int),
        r.z as int == chunk_of(wz as int),
{
    ChunkCoord { x: floor_div_edge(wx), y: floor_div_edge(wy), z: floor_div_edge(wz) }
}

/// A block's position inside a chunk: its world position less the chunk's origin.
pub fn world_pos_to_local_pos(wx: i32, wy: i32, wz: i32, c: ChunkCoord) -> (r: (i64, i64, i64))
    ensures
        r.0 == wx - 32 * c.x,
        r.1 == wy - 32 * c.y,
        r.2 == wz - 32 * c.z,
{
    (wx as i64 - 32 * (c.x as i64), wy as i64 - 32 * (c.y as i64), wz as i64 - 32 * (c.z as i64))
}

} // verus!
