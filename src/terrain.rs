use vstd::prelude::*;
use crate::chunk::{block_code, BlockId, Chunk, CHUNK_CELLS};

verus! {

/// The integer part of the world generator's settings.
#[derive(Clone, Copy, Debug)]
pub struct TerrainRules {
    pub seed: u32,
    pub sea_level: i32,
    pub max_height: i32,
    pub min_height: i32,
}

impl TerrainRules {
    pub fn default_rules() -> (r: TerrainRules)
        ensures
            r.seed == 12345 && r.sea_level == 64 && r.max_height == 128 && r.min_height == 0,
    {
        TerrainRules { seed: 12345, sea_level: 64, max_height: 128, min_height: 0 }
    }
}

/// Climate zones, each with its own surface block.
#[derive(Clone, Copy, Debug, PartialEq, Eq, Structural)]
pub enum BiomeType {
    Plains,
    Forest,
    Desert,
    Mountains,
    Ocean,
}

pub open spec fn biome_surface(b: BiomeType) -> BlockId {
    match b {
        BiomeType::Plains | BiomeType::Forest => BlockId::Grass,
        BiomeType::Desert | BiomeType::Ocean => BlockId::Dirt,
        BiomeType::Mountains => BlockId::Stone,
    }
}

impl BiomeType {
    pub fn surface_block(&self) -> (r: BlockId)
        ensures
            r == biome_surface(*self),
    {
        match self {
            BiomeType::Plains | BiomeType::Forest => BlockId::Grass,
            BiomeType::Desert | BiomeType::Ocean => BlockId::Dirt,
            BiomeType::Mountains => BlockId::Stone,
        }
    }
}

/// Caves are only carved up to ten blocks above sea level.
pub open spec fn cave_allowed(y: int, rules: TerrainRules) -> bool {
    y <= rules.sea_level + 10
}

/// The block an ore hit leaves at height `y`.
pub open spec fn ore_block(y: int) -> BlockId {
    if y < 16 {
        BlockId::Bedrock
    } else {
        BlockId::Stone
    }
}

/// The block at height `y` of a column whose surface is at `surface`,
/// given whether the cave and ore fields hit there.
pub open spec fn terrain_block(y: int, surface: int, cave_hit: bool, ore_hit: bool, rules: TerrainRules) -> BlockId {
    if y > surface {
        BlockId::Air
    } else if cave_hit && cave_allowed(y, rules) {
        BlockId::Air
    } else if y <= rules.min_height + 2 {
        BlockId::Bedrock
    } else if y == surface {
        if surface > rules.sea_level {
            BlockId::Grass
        } else {
            BlockId::Dirt
        }
    } else if y > surface - 4 {
        BlockId::Dirt
    } else if ore_hit {
        ore_block(y)
    } else {
        BlockId::Stone
    }
}

pub fn generate_block_at(y: i64, surface: i32, cave_hit: bool, ore_hit: bool, rules: &TerrainRules) -> (r: BlockId)
    ensures
        r == terrain_block(y as int, surface as int, cave_hit, ore_hit, *rules),
{
    let s: i64 = surface as i64;
    if y > s {
        BlockId::Air
    } else if cave_hit && y <= rules.sea_level as i64 + 10 {
        BlockId::Air
    } else if y <= rules.min_height as i64 + 2 {
        BlockId::Bedrock
    } else if y == s {
        if surface > rules.sea_level {
            BlockId::Grass
        } else {
            BlockId::Dirt
        }
    } else if y > s - 4 {
        BlockId::Dirt
    } else if ore_hit {
        if y < 16 {
            BlockId::Bedrock
        } else {
            BlockId::Stone
        }
    } else {
        BlockId::Stone
    }
}

/// Column of a cell index: x fastest, then z.
pub open spec fn column_of(i: int) -> int {
    ((i / 32) % 32) * 32 + i % 32
}

/// Layer of a cell index.
pub open spec fn layer_of(i: int) -> int {
    i / 1024
}

/// Fills a chunk from the noise samples of its area: `heights` holds the
/// surface height of each column (index z * 32 + x), `caves` and `ores`
/// whether those fields hit each cell (cell index), then rebuilds the
/// solid index.
pub fn generate_chunk(chunk: &mut Chunk, heights: &Vec<i32>, caves: &Vec<bool>, ores: &Vec<bool>, rules: &TerrainRules)
    requires
        old(chunk).wf(),
        heights@.len() == 1024,
        caves@.len() == CHUNK_CELLS,
        ores@.len() == CHUNK_CELLS,
    ensures
        final(chunk).wf(),
        final(chunk).coord == old(chunk).coord,
        final(chunk).solid_index_exact(),
        forall|i: int| 0 <= i < CHUNK_CELLS ==> #[trigger] final(chunk).blocks@[i] == block_code(terrain_block(
            old(chunk).coord.y * 32 + layer_of(i),
            heights@[column_of(i)] as int,
            caves@[i],
            ores@[i],
            *rules,
        )),
{
    let base: i64 = chunk.coord.y as i64 * 32;
    let ghost c0 = chunk.coord;
    let mut i: usize = 0;
    while i < CHUNK_CELLS
        invariant
            chunk.wf(),
            chunk.coord == c0,
            base == c0.y * 32,
            heights@.len() == 1024,
            caves@.len() == CHUNK_CELLS,
            ores@.len() == CHUNK_CELLS,
            i <= CHUNK_CELLS,
            forall|j: int| 0 <= j < i ==> #[trigger] chunk.blocks@[j] == block_code(terrain_block(
                c0.y * 32 + layer_of(j),
                heights@[column_of(j)] as int,
                caves@[j],
                ores@[j],
                *rules,
            )),
        decreases CHUNK_CELLS - i,
    {
        let col: usize = ((i / 32) % 32) * 32 + i % 32;
        assert(col < 1024) by (nonlinear_arith)
            requires
                col == ((i / 32) % 32) * 32 + i % 32,
                i >= 0,
        ;
        let y: i64 = base + (i / 1024) as i64;
        let b = generate_block_at(y, heights[col], caves[i], ores[i], rules);
        let code = b.code();
        chunk.blocks.set(i, code);
        i = i + 1;
    }
    chunk.compute_solid_blocks();
}

} // verus!
