use vstd::prelude::*;
use crate::chunk::{BlockId, Chunk};

verus! {

/// The six faces of a block.
#[derive(Clone, Copy, Debug, PartialEq, Eq, Structural)]
pub enum CubeFace {
    Top,
    Bottom,
    North,
    South,
    East,
    West,
}

pub open spec fn face_normal(f: CubeFace) -> (i32, i32, i32) {
    match f {
        CubeFace::Top => (0, 1, 0),
        CubeFace::Bottom => (0, -1i32, 0),
        CubeFace::North => (0, 0, -1i32),
        CubeFace::South => (0, 0, 1),
        CubeFace::East => (1, 0, 0),
        CubeFace::West => (-1i32, 0, 0),
    }
}

impl CubeFace {
    /// The outward unit normal of the face, as integer axes.
    pub fn normal(&self) -> (r: (i32, i32, i32))
        ensures
            r == face_normal(*self),
    {
        match self {
            CubeFace::Top => (0, 1, 0),
            CubeFace::Bottom => (0, -1, 0),
            CubeFace::North => (0, 0, -1),
            CubeFace::South => (0, 0, 1),
            CubeFace::East => (1, 0, 0),
            CubeFace::West => (-1, 0, 0),
        }
    }
}

pub open spec fn texture_index(b: BlockId) -> int {
    match b {
        BlockId::Air | BlockId::Stone => 0,
        BlockId::Dirt => 1,
        BlockId::Grass => 2,
        BlockId::Bedrock => 3,
    }
}

/// Layer of the block texture atlas that a block kind uses.
pub fn get_texture_index_for_block(b: BlockId) -> (r: usize)
    ensures
        r == texture_index(b),
{
    match b {
        BlockId::Air | BlockId::Stone => 0,
        BlockId::Dirt => 1,
        BlockId::Grass => 2,
        BlockId::Bedrock => 3,
    }
}

/// Whether the cell next to (x, y, z) across a face is air: inside the
/// chunk it is read from the chunk; across the border it is read from the
/// neighbouring chunk, and a missing neighbour counts as open.
#[verifier::opaque]
pub open spec fn open_across(
    chunk: &Chunk,
    nb: Option<&Chunk>,
    at_border: bool,
    inside: (int, int, int),
    across: (int, int, int),
) -> bool {
    if at_border {
        match nb {
            Some(n) => n.block(across.0, across.1, across.2) == BlockId::Air,
            None => true,
        }
    } else {
        chunk.block(inside.0, inside.1, inside.2) == BlockId::Air
    }
}

pub open spec fn face_if(open: bool, f: CubeFace) -> Seq<CubeFace> {
    if open {
        seq![f]
    } else {
        Seq::empty()
    }
}

fn open_check(chunk: &Chunk, nb: Option<&Chunk>, at_border: bool, inside: (u32, u32, u32), across: (u32, u32, u32)) -> (r: bool)
    requires
        chunk.wf(),
        nb.is_some() ==> nb.unwrap().wf(),
        inside.0 < 32 && inside.1 < 32 && inside.2 < 32,
        across.0 < 32 && across.1 < 32 && across.2 < 32,
    ensures
        r == open_across(
            chunk,
            nb,
            at_border,
            (inside.0 as int, inside.1 as int, inside.2 as int),
            (across.0 as int, across.1 as int, across.2 as int),
        ),
{
    reveal(open_across);
    if at_border {
        match nb {
            Some(n) => n.get_block(across.0, across.1, across.2) == BlockId::Air,
            None => true,
        }
    } else {
        chunk.get_block(inside.0, inside.1, inside.2) == BlockId::Air
    }
}

fn open_north(chunk: &Chunk, nb: Option<&Chunk>, x: u32, y: u32, z: u32) -> (r: bool)
    requires
        chunk.wf(),
        nb.is_some() ==> nb.unwrap().wf(),
        x < 32 && y < 32 && z < 32,
    ensures
        r == open_across(chunk, nb, z == 0, (x as int, y as int, z - 1), (x as int, y as int, 31)),
{
    reveal(open_across);
    let zm: u32 = if z == 0 { 0 } else { z - 1 };
    open_check(chunk, nb, z == 0, (x, y, zm), (x, y, 31))
}

fn open_south(chunk: &Chunk, nb: Option<&Chunk>, x: u32, y: u32, z: u32) -> (r: bool)
    requires
        chunk.wf(),
        nb.is_some() ==> nb.unwrap().wf(),
        x < 32 && y < 32 && z < 32,
    ensures
        r == open_across(chunk, nb, z == 31, (x as int, y as int, z + 1), (x as int, y as int, 0)),
{
    reveal(open_across);
    let zp: u32 = if z == 31 { 31 } else { z + 1 };
    open_check(chunk, nb, z == 31, (x, y, zp), (x, y, 0))
}

fn open_west(chunk: &Chunk, nb: Option<&Chunk>, x: u32, y: u32, z: u32) -> (r: bool)
    requires
        chunk.wf(),
        nb.is_some() ==> nb.unwrap().wf(),
        x < 32 && y < 32 && z < 32,
    ensures
        r == open_across(chunk, nb, x == 0, (x - 1, y as int, z as int), (31, y as int, z as int)),
{
    reveal(open_across);
    let xm: u32 = if x == 0 { 0 } else { x - 1 };
    open_check(chunk, nb, x == 0, (xm, y, z), (31, y, z))
}

fn open_east(chunk: &Chunk, nb: Option<&Chunk>, x: u32, y: u32, z: u32) -> (r: bool)
    requires
        chunk.wf(),
        nb.is_some() ==> nb.unwrap().wf(),
        x < 32 && y < 32 && z < 32,
    ensures
        r == open_across(chunk, nb, x == 31, (x + 1, y as int, z as int), (0, y as int, z as int)),
{
    reveal(open_across);
    let xp: u32 = if x == 31 { 31 } else { x + 1 };
    open_check(chunk, nb, x == 31, (xp, y, z), (0, y, z))
}

fn open_top(chunk: &Chunk, nb: Option<&Chunk>, x: u32, y: u32, z: u32) -> (r: bool)
    requires
        chunk.wf(),
        nb.is_some() ==> nb.unwrap().wf(),
        x < 32 && y < 32 && z < 32,
    ensures
        r == open_across(chunk, nb, y == 31, (x as int, y + 1, z as int), (x as int, 0, z as int)),
{
    reveal(open_across);
    let yp: u32 = if y == 31 { 31 } else { y + 1 };
    open_check(chunk, nb, y == 31, (x, yp, z), (x, 0, z))
}

fn open_bottom(chunk: &Chunk, nb: Option<&Chunk>, x: u32, y: u32, z: u32) -> (r: bool)
    requires
        chunk.wf(),
        nb.is_some() ==> nb.unwrap().wf(),
        x < 32 && y < 32 && z < 32,
    ensures
        r == open_across(chunk, nb, y == 0, (x as int, y - 1, z as int), (x as int, 31, z as int)),
{
    reveal(open_across);
    let ym: u32 = if y == 0 { 0 } else { y - 1 };
    open_check(chunk, nb, y == 0, (x, ym, z), (x, 31, z))
}

/// The faces of block (x, y, z) that border air, in the order north,
/// south, west, east, top, bottom. `north` .. `bottom` are the adjacent
/// chunks in those directions, where resident.
#[verifier::rlimit(40)]
pub fn get_visible_faces(
    chunk: &Chunk,
    x: u32,
    y: u32,
    z: u32,
    north: Option<&Chunk>,
    south: Option<&Chunk>,
    west: Option<&Chunk>,
    east: Option<&Chunk>,
    top: Option<&Chunk>,
    bottom: Option<&Chunk>,
) -> (r: Vec<CubeFace>)
    requires
        chunk.wf(),
        x < 32 && y < 32 && z < 32,
        north.is_some() ==> north.unwrap().wf(),
        south.is_some() ==> south.unwrap().wf(),
        west.is_some() ==> west.unwrap().wf(),
        east.is_some() ==> east.unwrap().wf(),
        top.is_some() ==> top.unwrap().wf(),
        bottom.is_some() ==> bottom.unwrap().wf(),
    ensures
        r@ == face_if(open_across(chunk, north, z == 0, (x as int, y as int, z - 1), (x as int, y as int, 31)), CubeFace::North)
            + face_if(open_across(chunk, south, z == 31, (x as int, y as int, z + 1), (x as int, y as int, 0)), CubeFace::South)
            + face_if(open_across(chunk, west, x == 0, (x - 1, y as int, z as int), (31, y as int, z as int)), CubeFace::West)
            + face_if(open_across(chunk, east, x == 31, (x + 1, y as int, z as int), (0, y as int, z as int)), CubeFace::East)
            + face_if(open_across(chunk, top, y == 31, (x as int, y + 1, z as int), (x as int, 0, z as int)), CubeFace::Top)
            + face_if(open_across(chunk, bottom, y == 0, (x as int, y - 1, z as int), (x as int, 31, z as int)), CubeFace::Bottom),
{
    let n_open = open_north(chunk, north, x, y, z);
    let s_open = open_south(chunk, south, x, y, z);
    let w_open = open_west(chunk, west, x, y, z);
    let e_open = open_east(chunk, east, x, y, z);
    let t_open = open_top(chunk, top, x, y, z);
    let b_open = open_bottom(chunk, bottom, x, y, z);
    let mut faces: Vec<CubeFace> = Vec::new();
    if n_open {
        faces.push(CubeFace::North);
    }
    let ghost s1 = faces@;
    if s_open {
        faces.push(CubeFace::South);
    }
    let ghost s2 = faces@;
    if w_open {
        faces.push(CubeFace::West);
    }
    let ghost s3 = faces@;
    if e_open {
        faces.push(CubeFace::East);
    }
    let ghost s4 = faces@;
    if t_open {
        faces.push(CubeFace::Top);
    }
    let ghost s5 = faces@;
    if b_open {
        faces.push(CubeFace::Bottom);
    }
    proof {
        assert(s1 =~= face_if(n_open, CubeFace::North));
        assert(s2 =~= s1 + face_if(s_open, CubeFace::South));
        assert(s3 =~= s2 + face_if(w_open, CubeFace::West));
        assert(s4 =~= s3 + face_if(e_open, CubeFace::East));
        assert(s5 =~= s4 + face_if(t_open, CubeFace::Top));
        assert(faces@ =~= s5 + face_if(b_open, CubeFace::Bottom));
    }
    faces
}

} // verus!
