use vstd::prelude::*;

verus! {

/// Failures of the noise engine.
#[derive(Clone, Debug, PartialEq, Eq)]
pub enum NoiseError {
    GraphValidation(String),
    Sampling(String),
}

/// Seed of a noise field.
#[derive(Clone, Copy, Debug, PartialEq, Eq, Structural)]
pub struct Seed(pub u64);

/// A box of samples: its corner, its size on each axis, and a detail level.
#[derive(Clone, Copy, Debug)]
pub struct RegionRequest {
    pub origin: [i32; 3],
    pub size: [u32; 3],
    pub lod: u8,
}

/// What a sampled channel describes.
#[derive(Clone, Copy, Debug, PartialEq, Eq, Structural)]
pub enum ChannelKind {
    Height2D,
    Biome2D,
    Cave3D,
    Ore3D,
    WaterLevel2D,
    StructureMask3D,
}

pub open spec fn is_planar_kind(k: ChannelKind) -> bool {
    match k {
        ChannelKind::Height2D | ChannelKind::Biome2D | ChannelKind::WaterLevel2D => true,
        _ => false,
    }
}

impl ChannelKind {
    /// Whether the channel is sampled on a plane rather than in a volume.
    pub fn is_planar(&self) -> (r: bool)
        ensures
            r == is_planar_kind(*self),
    {
        match self {
            ChannelKind::Height2D | ChannelKind::Biome2D | ChannelKind::WaterLevel2D => true,
            _ => false,
        }
    }
}

/// One requested channel: a name and a kind.
#[derive(Clone, Debug)]
pub struct ChannelDesc {
    pub name: String,
    pub kind: ChannelKind,
}

/// The channels asked of one sampling call.
#[derive(Clone, Debug)]
pub struct ChannelsSpec(pub Vec<ChannelDesc>);

/// A directed connection between two nodes of a noise graph.
#[derive(Clone, Copy, Debug, PartialEq, Eq, Structural)]
pub struct Edge {
    pub from: u64,
    pub to: u64,
}

/// Number of samples in a region: the product of its sizes, on a plane or
/// in a volume.
pub open spec fn sample_count_spec(size: [u32; 3], planar: bool) -> int {
    if planar {
        size[0] as int * size[1] as int
    } else {
        size[0] as int * size[1] as int * size[2] as int
    }
}

impl RegionRequest {
    pub fn sample_count(&self, kind: ChannelKind) -> (r: u128)
        ensures
            r as int == sample_count_spec(self.size, is_planar_kind(kind)),
    {
        let w = self.size[0] as u128;
        let h = self.size[1] as u128;
        let d = self.size[2] as u128;
        assert(w * h <= 0xFFFF_FFFF_FFFF_FFFF) by (nonlinear_arith)
            requires
                w <= 0xFFFF_FFFF,
                h <= 0xFFFF_FFFF,
        ;
        assert(w * h * d <= 0xFFFF_FFFF_FFFF_FFFF * 0xFFFF_FFFF) by (nonlinear_arith)
            requires
                w * h <= 0xFFFF_FFFF_FFFF_FFFF,
                d <= 0xFFFF_FFFF,
                w >= 0,
                h >= 0,
        ;
        if kind.is_planar() {
            w * h
        } else {
            w * h * d
        }
    }
}

} // verus!
