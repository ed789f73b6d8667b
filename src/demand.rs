use vstd::prelude::*;
use crate::coord::ChunkCoord;
pub use crate::motion::Motion;
use crate::motion::chunk_in_range;
use crate::queues::{ChunkLoadQueue, no_dups, contains_coord};
use crate::ranking::{rank_order, index_present};
use crate::storage::ChunkStorage;

verus! {

/// Largest sphere radius, in chunks, that the loader honours.
pub const MAX_RADIUS: u32 = 32;

/// Largest resident-chunk cap that the loader honours.
pub const MAX_CAP: usize = 1000000000;

/// Cap below ground outside fast travel.
pub const CONSERVATIVE_LIMIT: usize = 500;

/// Cap in the sustained deep-underground mode.
pub const AGGRESSIVE_LIMIT: usize = 50;

/// Headroom over the cap in an emergency, and in fast travel.
pub const EMERGENCY_EXTRA: usize = 200;
pub const FAST_EXTRA: usize = 100;

/// Most chunks the emergency tier adds on one tick.
pub const EMERGENCY_TIER_MAX: usize = 10;

/// Tunable values of the loader, read again on every tick.
#[derive(Clone, Copy, Debug)]
pub struct ChunkLoaderConfig {
    pub max_loaded_chunks: usize,
    pub surface_priority_quota: usize,
    pub sphere_loading_radius: u32,
    pub max_chunks_per_frame: usize,
}

impl ChunkLoaderConfig {
    pub fn default_config() -> (r: ChunkLoaderConfig)
        ensures
            r.max_loaded_chunks == 1000,
            r.surface_priority_quota == 600,
            r.sphere_loading_radius == 12,
            r.max_chunks_per_frame == 3,
    {
        ChunkLoaderConfig {
            max_loaded_chunks: 1000,
            surface_priority_quota: 600,
            sphere_loading_radius: 12,
            max_chunks_per_frame: 3,
        }
    }

    /// The cap on resident chunks, clamped.
    pub open spec fn cap(self) -> int {
        if self.max_loaded_chunks <= MAX_CAP {
            self.max_loaded_chunks as int
        } else {
            MAX_CAP as int
        }
    }

    /// The surface quota, clamped to the cap.
    pub open spec fn quota(self) -> int {
        if self.surface_priority_quota as int <= self.cap() {
            self.surface_priority_quota as int
        } else {
            self.cap()
        }
    }

    /// The sphere radius, clamped.
    pub open spec fn radius(self) -> int {
        if self.sphere_loading_radius <= MAX_RADIUS {
            self.sphere_loading_radius as int
        } else {
            MAX_RADIUS as int
        }
    }

    pub fn clamped_cap(&self) -> (r: usize)
        ensures
            r == self.cap(),
    {
        if self.max_loaded_chunks <= MAX_CAP {
            self.max_loaded_chunks
        } else {
            MAX_CAP
        }
    }

    pub fn clamped_quota(&self) -> (r: usize)
        ensures
            r == self.quota(),
    {
        let cap = self.clamped_cap();
        if self.surface_priority_quota <= cap {
            self.surface_priority_quota
        } else {
            cap
        }
    }

    pub fn clamped_radius(&self) -> (r: u32)
        ensures
            r == self.radius(),
    {
        if self.sphere_loading_radius <= MAX_RADIUS {
            self.sphere_loading_radius
        } else {
            MAX_RADIUS
        }
    }
}

impl Default for ChunkLoaderConfig {
    fn default() -> (r: ChunkLoaderConfig)
        ensures
            r.max_loaded_chunks == 1000,
            r.surface_priority_quota == 600,
            r.sphere_loading_radius == 12,
            r.max_chunks_per_frame == 3,
    {
        ChunkLoaderConfig::default_config()
    }
}

/// At or above the surface threshold.
pub open spec fn near_surface(pc: ChunkCoord) -> bool {
    pc.y >= 0
}

/// The cap on resident chunks for this tick's mode.
pub open spec fn effective_max(cap: int, pc: ChunkCoord, m: Motion) -> int {
    if m.deep_long {
        AGGRESSIVE_LIMIT as int
    } else if !near_surface(pc) && !m.emergency && !m.fast_moving {
        if cap <= CONSERVATIVE_LIMIT {
            cap
        } else {
            CONSERVATIVE_LIMIT as int
        }
    } else if m.emergency {
        cap + EMERGENCY_EXTRA
    } else if m.fast_moving {
        cap + FAST_EXTRA
    } else {
        cap
    }
}

/// Most chunks queued on one tick, by mode.
pub open spec fn per_frame_cap(pc: ChunkCoord, m: Motion) -> int {
    let near = near_surface(pc);
    if m.emergency {
        if near { 64 } else { 32 }
    } else if m.fast_moving {
        if near { 48 } else { 24 }
    } else {
        if near { 16 } else { 8 }
    }
}

pub fn effective_max_of(cap: usize, pc: ChunkCoord, m: Motion) -> (r: usize)
    requires
        cap <= MAX_CAP,
    ensures
        r == effective_max(cap as int, pc, m),
{
    if m.deep_long {
        AGGRESSIVE_LIMIT
    } else if pc.y < 0 && !m.emergency && !m.fast_moving {
        if cap <= CONSERVATIVE_LIMIT { cap } else { CONSERVATIVE_LIMIT }
    } else if m.emergency {
        cap + EMERGENCY_EXTRA
    } else if m.fast_moving {
        cap + FAST_EXTRA
    } else {
        cap
    }
}

fn per_frame_cap_of(pc: ChunkCoord, m: Motion) -> (r: usize)
    ensures
        r == per_frame_cap(pc, m),
{
    let near = pc.y >= 0;
    if m.emergency {
        if near { 64 } else { 32 }
    } else if m.fast_moving {
        if near { 48 } else { 24 }
    } else {
        if near { 16 } else { 8 }
    }
}

pub open spec fn abs(v: int) -> int {
    if v < 0 { -v } else { v }
}

pub open spec fn sq_dist(pc: ChunkCoord, c: ChunkCoord) -> int {
    (c.x - pc.x) * (c.x - pc.x) + (c.y - pc.y) * (c.y - pc.y) + (c.z - pc.z) * (c.z - pc.z)
}

pub open spec fn sq_horizontal(pc: ChunkCoord, c: ChunkCoord) -> int {
    (c.x - pc.x) * (c.x - pc.x) + (c.z - pc.z) * (c.z - pc.z)
}

/// Chunks straight below the player that the critical tier takes.
pub open spec fn critical_depth(m: Motion) -> int {
    if m.falling_fast { 8 } else { 3 }
}

/// The player's chunk and the column under it.
pub open spec fn is_critical(pc: ChunkCoord, m: Motion, c: ChunkCoord) -> bool {
    c.x == pc.x && c.z == pc.z && pc.y - critical_depth(m) <= c.y <= pc.y
}

/// The small cube that the emergency tier takes around the player.
pub open spec fn in_emergency_cube(pc: ChunkCoord, m: Motion, c: ChunkCoord) -> bool {
    let r = if m.falling_fast { 1int } else { 2int };
    m.emergency && abs(c.x - pc.x) <= r && abs(c.z - pc.z) <= r && abs(c.y - pc.y) <= 1
}

/// The surface band: near the player's layer and within 1.2 times the
/// sphere radius horizontally.
pub open spec fn in_surface_band(pc: ChunkCoord, radius: int, c: ChunkCoord) -> bool {
    near_surface(pc) && pc.y - 2 <= c.y <= pc.y + 8 && 25 * sq_horizontal(pc, c) <= 36 * radius * radius
}

/// The player's chunk, its eight horizontal neighbours and three chunks below.
pub open spec fn is_essential(pc: ChunkCoord, c: ChunkCoord) -> bool {
    (c.y == pc.y && abs(c.x - pc.x) <= 1 && abs(c.z - pc.z) <= 1) || (c.x == pc.x && c.z == pc.z && pc.y - 3
        <= c.y <= pc.y)
}

/// The volumetric tier: the sphere near the surface, a thin slab below
/// ground, the essential set in the deep-underground mode.
pub open spec fn in_volume(pc: ChunkCoord, radius: int, m: Motion, c: ChunkCoord) -> bool {
    if near_surface(pc) {
        sq_dist(pc, c) <= radius * radius
    } else if m.deep_long {
        is_essential(pc, c)
    } else {
        let r = if m.fast_moving { 3int } else { 2int };
        abs(c.y - pc.y) <= 1 && sq_dist(pc, c) <= r * r
    }
}

/// Any tier wants the chunk.
pub open spec fn demanded(pc: ChunkCoord, radius: int, m: Motion, c: ChunkCoord) -> bool {
    is_critical(pc, m, c) || in_emergency_cube(pc, m, c) || in_surface_band(pc, radius, c) || in_volume(
        pc,
        radius,
        m,
        c,
    )
}

/// Resident already, or queued or generating.
pub open spec fn excluded(st: &ChunkStorage, q: &ChunkLoadQueue, c: ChunkCoord) -> bool {
    st.resident(c) || q.in_flight(c)
}

#[derive(Clone, Copy, Debug, PartialEq, Eq, Structural)]
pub enum Tier {
    Emergency,
    Surface,
    Volume,
}

pub open spec fn in_tier(t: Tier, pc: ChunkCoord, radius: int, m: Motion, c: ChunkCoord) -> bool {
    match t {
        Tier::Emergency => in_emergency_cube(pc, m, c),
        Tier::Surface => in_surface_band(pc, radius, c),
        Tier::Volume => in_volume(pc, radius, m, c),
    }
}

/// Offsets from the player's chunk are small enough for these checks.
pub open spec fn near_offsets(pc: ChunkCoord, c: ChunkCoord) -> bool {
    abs(c.x - pc.x) <= 64 && abs(c.y - pc.y) <= 64 && abs(c.z - pc.z) <= 64
}

fn tier_check(t: Tier, pc: ChunkCoord, radius: u32, m: Motion, c: ChunkCoord) -> (r: bool)
    requires
        radius <= MAX_RADIUS,
        chunk_in_range(pc),
        near_offsets(pc, c),
    ensures
        r == in_tier(t, pc, radius as int, m, c),
{
    let dx: i64 = c.x as i64 - pc.x as i64;
    let dy: i64 = c.y as i64 - pc.y as i64;
    let dz: i64 = c.z as i64 - pc.z as i64;
    let adx: i64 = if dx < 0 { -dx } else { dx };
    let ady: i64 = if dy < 0 { -dy } else { dy };
    let adz: i64 = if dz < 0 { -dz } else { dz };
    assert(0 <= dx * dx <= 4096 && 0 <= dy * dy <= 4096 && 0 <= dz * dz <= 4096) by (nonlinear_arith)
        requires
            -64 <= dx <= 64,
            -64 <= dy <= 64,
            -64 <= dz <= 64,
    ;
    let h2: i64 = dx * dx + dz * dz;
    let d2: i64 = h2 + dy * dy;
    let rr: i64 = radius as i64;
    assert(0 <= rr * rr <= 1024) by (nonlinear_arith)
        requires
            0 <= rr <= 32,
    ;
    let r2: i64 = rr * rr;
    assert(36 * r2 == 36 * (radius as int) * (radius as int)) by (nonlinear_arith)
        requires
            r2 == rr * rr,
            rr == radius,
    ;
    assert(h2 == sq_horizontal(pc, c));
    assert(d2 == sq_dist(pc, c));
    match t {
        Tier::Emergency => {
            let er: i64 = if m.falling_fast { 1 } else { 2 };
            m.emergency && adx <= er && adz <= er && ady <= 1
        },
        Tier::Surface => {
            pc.y >= 0 && dy >= -2 && dy <= 8 && 25 * h2 <= 36 * r2
        },
        Tier::Volume => {
            if pc.y >= 0 {
                d2 <= r2
            } else if m.deep_long {
                (dy == 0 && adx <= 1 && adz <= 1) || (dx == 0 && dz == 0 && dy >= -3 && dy <= 0)
            } else {
                let ur: i64 = if m.fast_moving { 3 } else { 2 };
                ady <= 1 && d2 <= ur * ur
            }
        },
    }
}

/// `n` is the integer square root of `x`, rounded down.
pub open spec fn is_isqrt(x: int, n: int) -> bool {
    n >= 0 && n * n <= x && x < (n + 1) * (n + 1)
}

/// The integer square root of `x`, rounded down.
pub open spec fn isqrt_spec(x: int) -> int {
    choose|n: int| is_isqrt(x, n)
}

proof fn lemma_isqrt_unique(x: int, n: int)
    requires
        is_isqrt(x, n),
    ensures
        isqrt_spec(x) == n,
{
    let m = isqrt_spec(x);
    assert(is_isqrt(x, m));
    if m < n {
        assert((m + 1) * (m + 1) <= n * n) by (nonlinear_arith)
            requires
                0 <= m + 1 <= n,
        ;
    }
    if n < m {
        assert((n + 1) * (n + 1) <= m * m) by (nonlinear_arith)
            requires
                0 <= n + 1 <= m,
        ;
    }
}

/// Fixed-point steps per chunk of the surface score.
pub const SCORE_SCALE: u64 = 1024;

/// The surface score 2h + |dy| (h the horizontal distance, dy the layer
/// offset, in chunks) in units of 1/1024 of a chunk, rounded down; lower
/// means more urgent, as 1000 - h - 0.5|dy| higher does.
pub open spec fn surface_score(pc: ChunkCoord, c: ChunkCoord) -> int {
    isqrt_spec(4 * (SCORE_SCALE * SCORE_SCALE) as int * sq_horizontal(pc, c)) + SCORE_SCALE as int * abs(c.y - pc.y)
}

fn isqrt(x: u64) -> (n: u64)
    requires
        x < 0x100_0000_0000,
    ensures
        is_isqrt(x as int, n as int),
{
    let mut lo: u64 = 0;
    let mut hi: u64 = 0x10_0000;
    assert(hi * hi == 0x100_0000_0000) by (nonlinear_arith)
        requires
            hi == 0x10_0000,
    ;
    while hi - lo > 1
        invariant
            lo < hi <= 0x10_0000,
            lo * lo <= x,
            x < hi * hi,
        decreases hi - lo,
    {
        let mid: u64 = lo + (hi - lo) / 2;
        assert(mid * mid <= 0x100_0000_0000) by (nonlinear_arith)
            requires
                mid <= 0x10_0000,
        ;
        if mid * mid <= x {
            lo = mid;
        } else {
            hi = mid;
        }
    }
    assert(hi == lo + 1);
    lo
}

/// Sort key within a tier, lower first. The emergency cube and the sphere
/// go nearest first; the surface band by its score 2h + |dy| as
/// `surface_score` gives it; the slab below ground keeps the
/// player's layer first, then nearest first; the essential set has one rank.
pub open spec fn tier_rank_spec(t: Tier, pc: ChunkCoord, m: Motion, c: ChunkCoord) -> int {
    match t {
        Tier::Emergency => sq_dist(pc, c),
        Tier::Surface => surface_score(pc, c),
        Tier::Volume => {
            if near_surface(pc) {
                sq_dist(pc, c)
            } else if m.deep_long {
                0
            } else {
                abs(c.y - pc.y) * 16384 + sq_dist(pc, c)
            }
        },
    }
}

fn tier_rank(t: Tier, pc: ChunkCoord, m: Motion, c: ChunkCoord) -> (r: u128)
    requires
        chunk_in_range(pc),
        near_offsets(pc, c),
    ensures
        r as int == tier_rank_spec(t, pc, m, c),
{
    let dx: i64 = c.x as i64 - pc.x as i64;
    let dy: i64 = c.y as i64 - pc.y as i64;
    let dz: i64 = c.z as i64 - pc.z as i64;
    let ady: i64 = if dy < 0 { -dy } else { dy };
    assert(0 <= dx * dx <= 4096 && 0 <= dy * dy <= 4096 && 0 <= dz * dz <= 4096) by (nonlinear_arith)
        requires
            -64 <= dx <= 64,
            -64 <= dy <= 64,
            -64 <= dz <= 64,
    ;
    let h2: i64 = dx * dx + dz * dz;
    let d2: i64 = h2 + dy * dy;
    assert(h2 == sq_horizontal(pc, c));
    assert(d2 == sq_dist(pc, c));
    match t {
        Tier::Emergency => d2 as u128,
        Tier::Surface => {
            assert(0 <= h2 <= 8192);
            let root = isqrt(4194304 * (h2 as u64));
            proof {
                lemma_isqrt_unique(4194304 * h2, root as int);
            }
            (root as u128) + 1024 * (ady as u128)
        },
        Tier::Volume => {
            if pc.y >= 0 {
                d2 as u128
            } else if m.deep_long {
                0
            } else {
                (ady as u128) * 16384 + (d2 as u128)
            }
        },
    }
}

pub open spec fn in_box(pc: ChunkCoord, half: int, ylo: int, yhi: int, c: ChunkCoord) -> bool {
    pc.x - half <= c.x <= pc.x + half && pc.z - half <= c.z <= pc.z + half && ylo <= c.y <= yhi
}

proof fn lemma_sq_bound(d: int, r: int)
    requires
        r >= 0,
        d * d <= r * r,
    ensures
        -r <= d <= r,
{
    if d > r {
        assert(d * d > r * r) by (nonlinear_arith)
            requires
                d > r,
                r >= 0,
        ;
    }
    if d < -r {
        assert(d * d > r * r) by (nonlinear_arith)
            requires
                d < -r,
                r >= 0,
        ;
    }
}

proof fn lemma_surface_in_box(pc: ChunkCoord, radius: int, half: int, c: ChunkCoord)
    requires
        0 <= radius,
        half >= radius * 6 / 5,
        in_surface_band(pc, radius, c),
    ensures
        in_box(pc, half, pc.y - 2, pc.y + 8, c),
{
    let dx = c.x - pc.x;
    let dz = c.z - pc.z;
    assert(0 <= dx * dx && 0 <= dz * dz) by (nonlinear_arith);
    assert((5 * dx) * (5 * dx) <= (6 * radius) * (6 * radius)) by (nonlinear_arith)
        requires
            25 * (dx * dx + dz * dz) <= 36 * radius * radius,
            0 <= dz * dz,
    ;
    assert((5 * dz) * (5 * dz) <= (6 * radius) * (6 * radius)) by (nonlinear_arith)
        requires
            25 * (dx * dx + dz * dz) <= 36 * radius * radius,
            0 <= dx * dx,
    ;
    lemma_sq_bound(5 * dx, 6 * radius);
    lemma_sq_bound(5 * dz, 6 * radius);
}

proof fn lemma_volume_in_box(pc: ChunkCoord, radius: int, m: Motion, c: ChunkCoord)
    requires
        0 <= radius,
        in_volume(pc, radius, m, c),
    ensures
        near_surface(pc) ==> in_box(pc, radius, pc.y - radius, pc.y + radius, c),
        !near_surface(pc) && m.deep_long ==> in_box(pc, 1, pc.y - 3, pc.y as int, c),
        !near_surface(pc) && !m.deep_long ==> in_box(pc, if m.fast_moving { 3int } else { 2int }, pc.y - 1, pc.y + 1, c),
{
    let dx = c.x - pc.x;
    let dy = c.y - pc.y;
    let dz = c.z - pc.z;
    assert(0 <= dx * dx && 0 <= dy * dy && 0 <= dz * dz) by (nonlinear_arith);
    if near_surface(pc) {
        lemma_sq_bound(dx, radius);
        lemma_sq_bound(dy, radius);
        lemma_sq_bound(dz, radius);
    } else if !m.deep_long {
        let r = if m.fast_moving { 3int } else { 2int };
        lemma_sq_bound(dx, r);
        lemma_sq_bound(dz, r);
    }
}

/// The candidates of one tier inside a box around the player, with their
/// sort keys: exactly those in the box, in the tier and not excluded.
fn collect_tier(
    t: Tier,
    pc: ChunkCoord,
    radius: u32,
    m: Motion,
    half: i32,
    ylo: i32,
    yhi: i32,
    st: &ChunkStorage,
    q: &ChunkLoadQueue,
) -> (r: (Vec<ChunkCoord>, Vec<u128>))
    requires
        radius <= MAX_RADIUS,
        chunk_in_range(pc),
        0 <= half <= 64,
        pc.y - 64 <= ylo,
        yhi <= pc.y + 64,
    ensures
        r.0@.len() == r.1@.len(),
        forall|i: int| 0 <= i < r.0@.len() ==> in_tier(t, pc, radius as int, m, #[trigger] r.0@[i])
            && !excluded(st, q, r.0@[i]),
        forall|i: int| 0 <= i < r.1@.len() ==> #[trigger] r.1@[i] as int == tier_rank_spec(t, pc, m, r.0@[i]),
        forall|c: ChunkCoord| in_box(pc, half as int, ylo as int, yhi as int, c) && in_tier(t, pc, radius as int, m, c)
            && !excluded(st, q, c) ==> #[trigger] r.0@.contains(c),
{
    let mut cands: Vec<ChunkCoord> = Vec::new();
    let mut ranks: Vec<u128> = Vec::new();
    let mut x: i32 = pc.x - half;
    while x <= pc.x + half
        invariant
            chunk_in_range(pc),
            radius <= MAX_RADIUS,
            0 <= half <= 64,
            pc.y - 64 <= ylo,
            yhi <= pc.y + 64,
            pc.x - half <= x <= pc.x + half + 1,
            cands@.len() == ranks@.len(),
            forall|i: int| 0 <= i < ranks@.len() ==> #[trigger] ranks@[i] as int == tier_rank_spec(t, pc, m, cands@[i]),
            forall|i: int| 0 <= i < cands@.len() ==> in_tier(t, pc, radius as int, m, #[trigger] cands@[i])
                && !excluded(st, q, cands@[i]),
            forall|c: ChunkCoord| c.x < x && in_box(pc, half as int, ylo as int, yhi as int, c) && in_tier(t, pc, radius as int, m, c)
                && !excluded(st, q, c) ==> #[trigger] cands@.contains(c),
        decreases pc.x + half + 1 - x,
    {
        let mut z: i32 = pc.z - half;
        while z <= pc.z + half
            invariant
                chunk_in_range(pc),
                radius <= MAX_RADIUS,
                0 <= half <= 64,
                pc.y - 64 <= ylo,
                yhi <= pc.y + 64,
                pc.x - half <= x <= pc.x + half,
                pc.z - half <= z <= pc.z + half + 1,
                cands@.len() == ranks@.len(),
                forall|i: int| 0 <= i < ranks@.len() ==> #[trigger] ranks@[i] as int == tier_rank_spec(t, pc, m, cands@[i]),
                forall|i: int| 0 <= i < cands@.len() ==> in_tier(t, pc, radius as int, m, #[trigger] cands@[i])
                    && !excluded(st, q, cands@[i]),
                forall|c: ChunkCoord| (c.x < x || (c.x == x && c.z < z)) && in_box(pc, half as int, ylo as int, yhi as int, c)
                    && in_tier(t, pc, radius as int, m, c) && !excluded(st, q, c) ==> #[trigger] cands@.contains(c),
            decreases pc.z + half + 1 - z,
        {
            if ylo <= yhi {
                let mut y: i32 = ylo;
                while y <= yhi
                    invariant
                        chunk_in_range(pc),
                        radius <= MAX_RADIUS,
                        0 <= half <= 64,
                        pc.y - 64 <= ylo <= yhi,
                        yhi <= pc.y + 64,
                        pc.x - half <= x <= pc.x + half,
                        pc.z - half <= z <= pc.z + half,
                        ylo <= y <= yhi + 1,
                        cands@.len() == ranks@.len(),
                        forall|i: int| 0 <= i < ranks@.len() ==> #[trigger] ranks@[i] as int == tier_rank_spec(t, pc, m, cands@[i]),
                        forall|i: int| 0 <= i < cands@.len() ==> in_tier(t, pc, radius as int, m, #[trigger] cands@[i])
                            && !excluded(st, q, cands@[i]),
                        forall|c: ChunkCoord| (c.x < x || (c.x == x && c.z < z) || (c.x == x && c.z == z && c.y < y))
                            && in_box(pc, half as int, ylo as int, yhi as int, c) && in_tier(t, pc, radius as int, m, c)
                            && !excluded(st, q, c) ==> #[trigger] cands@.contains(c),
                    decreases yhi + 1 - y,
                {
                    let c = ChunkCoord { x, y, z };
                    let ghost prev = cands@;
                    if tier_check(t, pc, radius, m, c) && !st.contains(&c) && !q.is_in_flight(c) {
                        let k = tier_rank(t, pc, m, c);
                        cands.push(c);
                        ranks.push(k);
                    }
                    proof {
                        assert forall|d: ChunkCoord| (d.x < x || (d.x == x && d.z < z) || (d.x == x && d.z == z && d.y < y + 1))
                            && in_box(pc, half as int, ylo as int, yhi as int, d) && in_tier(t, pc, radius as int, m, d)
                            && !excluded(st, q, d) implies #[trigger] cands@.contains(d) by {
                            if cands@.len() > prev.len() {
                                crate::queues::lemma_push_contains(prev, c, d);
                            }
                            if d.x == x && d.z == z && d.y == y {
                                assert(d == c);
                            }
                        }
                    }
                    y = y + 1;
                }
            }
            z = z + 1;
        }
        x = x + 1;
    }
    (cands, ranks)
}

/// Appends to `out`, lowest rank first, up to `limit` candidates that it
/// does not hold yet; `key` gives each candidate's rank. The added ones
/// come in rank order and are the best: a candidate left out ranks no
/// better than any added one. When fewer than `limit` are added, every
/// candidate ends up in `out`.
fn take_ranked(
    out: &mut Vec<ChunkCoord>,
    cands: &Vec<ChunkCoord>,
    ranks: &Vec<u128>,
    limit: usize,
    key: Ghost<spec_fn(ChunkCoord) -> int>,
)
    requires
        no_dups(old(out)@),
        cands@.len() == ranks@.len(),
        forall|k: int| 0 <= k < ranks@.len() ==> #[trigger] ranks@[k] as int == key@(cands@[k]),
    ensures
        no_dups(final(out)@),
        old(out)@.len() <= final(out)@.len() <= old(out)@.len() + limit,
        forall|i: int| 0 <= i < old(out)@.len() ==> final(out)@[i] == old(out)@[i],
        forall|i: int| old(out)@.len() <= i < final(out)@.len() ==> cands@.contains(#[trigger] final(out)@[i])
            && !old(out)@.contains(final(out)@[i]),
        final(out)@.len() < old(out)@.len() + limit ==> forall|c: ChunkCoord| #[trigger] cands@.contains(c)
            ==> final(out)@.contains(c),
        forall|c: ChunkCoord| old(out)@.contains(c) ==> #[trigger] final(out)@.contains(c),
        forall|i: int, j: int| old(out)@.len() <= i < j < final(out)@.len() ==> key@(#[trigger] final(out)@[i])
            <= key@(#[trigger] final(out)@[j]),
        forall|c: ChunkCoord| #[trigger] cands@.contains(c) && !final(out)@.contains(c) ==> forall|j: int|
            old(out)@.len() <= j < final(out)@.len() ==> key@(#[trigger] final(out)@[j]) <= key@(c),
{
    let order = rank_order(ranks);
    let ghost base = out@.len();
    let ghost mut pos: Seq<int> = Seq::empty();
    let mut added: usize = 0;
    let mut i: usize = 0;
    while i < order.len() && added < limit
        invariant
            no_dups(out@),
            added <= limit,
            i <= order@.len(),
            base == old(out)@.len(),
            order@.len() == ranks@.len() == cands@.len(),
            forall|k: int| 0 <= k < ranks@.len() ==> #[trigger] ranks@[k] as int == key@(cands@[k]),
            forall|k: int| 0 <= k < order@.len() ==> (#[trigger] order@[k]).1 < ranks@.len()
                && order@[k].0 == ranks@[order@[k].1 as int],
            crate::ranking::sorted_pairs(order@),
            forall|k: int| 0 <= k < ranks@.len() ==> #[trigger] index_present(order@, k),
            out@.len() == old(out)@.len() + added,
            forall|j: int| 0 <= j < old(out)@.len() ==> out@[j] == old(out)@[j],
            forall|j: int| old(out)@.len() <= j < out@.len() ==> cands@.contains(#[trigger] out@[j])
                && !old(out)@.contains(out@[j]),
            forall|k: int| 0 <= k < i ==> out@.contains(cands@[(#[trigger] order@[k]).1 as int]),
            pos.len() == added,
            forall|a: int| 0 <= a < pos.len() ==> 0 <= #[trigger] pos[a] < i,
            forall|a: int| 0 <= a < pos.len() ==> out@[base + a] == cands@[order@[#[trigger] pos[a]].1 as int],
            forall|a: int, b: int| 0 <= a < b < pos.len() ==> #[trigger] pos[a] < #[trigger] pos[b],
        decreases order@.len() - i,
    {
        let idx = order[i].1;
        let c = cands[idx];
        let ghost prev = out@;
        let ghost prev_pos = pos;
        if !contains_coord(out, c) {
            proof {
                assert(cands@[idx as int] == c);
                if old(out)@.contains(c) {
                    let j = choose|j: int| 0 <= j < old(out)@.len() && old(out)@[j] == c;
                    assert(out@[j] == c);
                }
            }
            out.push(c);
            added = added + 1;
            proof {
                pos = pos.push(i as int);
                assert forall|a: int| 0 <= a < pos.len() implies out@[base + a] == cands@[order@[#[trigger] pos[a]].1 as int] by {
                    if a < prev_pos.len() {
                        assert(pos[a] == prev_pos[a]);
                        assert(out@[base + a] == prev[base + a]);
                    }
                }
            }
        }
        proof {
            assert forall|k: int| 0 <= k < i + 1 implies out@.contains(cands@[(#[trigger] order@[k]).1 as int]) by {
                if out@.len() > prev.len() {
                    crate::queues::lemma_push_contains(prev, c, cands@[order@[k].1 as int]);
                }
            }
            assert forall|a: int| 0 <= a < pos.len() implies 0 <= #[trigger] pos[a] < i + 1 by {
                if a < prev_pos.len() {
                    assert(pos[a] == prev_pos[a]);
                }
            }
            assert forall|a: int, b: int| 0 <= a < b < pos.len() implies #[trigger] pos[a] < #[trigger] pos[b] by {
                if b < prev_pos.len() {
                    assert(pos[a] == prev_pos[a] && pos[b] == prev_pos[b]);
                } else {
                    assert(pos[a] == prev_pos[a]);
                    assert(prev_pos[a] < i);
                }
            }
        }
        i = i + 1;
    }
    proof {
        assert forall|c: ChunkCoord| old(out)@.contains(c) implies #[trigger] out@.contains(c) by {
            let j = choose|j: int| 0 <= j < old(out)@.len() && old(out)@[j] == c;
            assert(out@[j] == c);
        }
        if out@.len() < old(out)@.len() + limit {
            assert forall|c: ChunkCoord| #[trigger] cands@.contains(c) implies out@.contains(c) by {
                let k = choose|k: int| 0 <= k < cands@.len() && cands@[k] == c;
                assert(index_present(order@, k));
                let q = choose|q: int| 0 <= q < order@.len() && (#[trigger] order@[q]).1 == k;
            }
        }
        assert forall|x: int, y: int| base <= x < y < out@.len() implies key@(#[trigger] out@[x])
            <= key@(#[trigger] out@[y]) by {
            let a = x - base;
            let b = y - base;
            assert(0 <= pos[a] < i && 0 <= pos[b] < i);
            assert(pos[a] < pos[b]);
            assert(crate::ranking::pair_le(order@[pos[a]], order@[pos[b]]));
            assert(out@[x] == cands@[order@[pos[a]].1 as int]);
            assert(out@[y] == cands@[order@[pos[b]].1 as int]);
        }
        assert forall|c: ChunkCoord| #[trigger] cands@.contains(c) && !out@.contains(c) implies forall|j: int|
            base <= j < out@.len() ==> key@(#[trigger] out@[j]) <= key@(c) by {
            let k = choose|k: int| 0 <= k < cands@.len() && cands@[k] == c;
            assert(index_present(order@, k));
            let q = choose|q: int| 0 <= q < order@.len() && (#[trigger] order@[q]).1 == k;
            if q < i {
                assert(out@.contains(cands@[order@[q].1 as int]));
            }
            assert forall|j: int| base <= j < out@.len() implies key@(#[trigger] out@[j]) <= key@(c) by {
                let a = j - base;
                assert(0 <= pos[a] < i);
                assert(crate::ranking::pair_le(order@[pos[a]], order@[q]));
                assert(out@[j] == cands@[order@[pos[a]].1 as int]);
            }
        }
    }
}

/// One tier's step of a plan: collects the tier's candidates in the box,
/// then appends up to `limit` of them, best rank first. `crit` is the
/// critical part at the front of `out`.
fn add_tier(
    out: &mut Vec<ChunkCoord>,
    t: Tier,
    pc: ChunkCoord,
    radius: u32,
    m: Motion,
    half: i32,
    ylo: i32,
    yhi: i32,
    limit: usize,
    st: &ChunkStorage,
    q: &ChunkLoadQueue,
    crit: Ghost<Seq<ChunkCoord>>,
)
    requires
        radius <= MAX_RADIUS,
        chunk_in_range(pc),
        0 <= half <= 64,
        pc.y - 64 <= ylo,
        yhi <= pc.y + 64,
        no_dups(old(out)@),
        forall|c: ChunkCoord| #[trigger] in_tier(t, pc, radius as int, m, c) ==> in_box(pc, half as int, ylo as int, yhi as int, c),
        crit@.len() <= old(out)@.len(),
        forall|i: int| 0 <= i < crit@.len() ==> old(out)@[i] == crit@[i],
        forall|c: ChunkCoord| is_critical(pc, m, c) && !excluded(st, q, c) ==> crit@.contains(c),
    ensures
        no_dups(final(out)@),
        old(out)@.len() <= final(out)@.len() <= old(out)@.len() + limit,
        forall|i: int| 0 <= i < old(out)@.len() ==> final(out)@[i] == old(out)@[i],
        forall|c: ChunkCoord| old(out)@.contains(c) ==> #[trigger] final(out)@.contains(c),
        forall|i: int| old(out)@.len() <= i < final(out)@.len() ==> in_tier(t, pc, radius as int, m, #[trigger] final(out)@[i])
            && !excluded(st, q, final(out)@[i]) && !is_critical(pc, m, final(out)@[i]),
        tier_segment(t, pc, radius as int, m, st, q, final(out)@, old(out)@.len() as int),
        final(out)@.len() < old(out)@.len() + limit ==> forall|c: ChunkCoord| in_tier(t, pc, radius as int, m, c)
            && !excluded(st, q, c) ==> #[trigger] final(out)@.contains(c),
{
    let (cands, ranks) = collect_tier(t, pc, radius, m, half, ylo, yhi, st, q);
    let ghost prev = out@;
    take_ranked(out, &cands, &ranks, limit, Ghost(|c: ChunkCoord| tier_rank_spec(t, pc, m, c)));
    proof {
        assert forall|i: int| prev.len() <= i < out@.len() implies in_tier(t, pc, radius as int, m, #[trigger] out@[i])
            && !excluded(st, q, out@[i]) && !is_critical(pc, m, out@[i]) by {
            let j = choose|j: int| 0 <= j < cands@.len() && cands@[j] == out@[i];
            if is_critical(pc, m, out@[i]) {
                assert(crit@.contains(out@[i]));
                let k = choose|k: int| 0 <= k < crit@.len() && crit@[k] == out@[i];
                assert(prev[k] == out@[i]);
            }
        }
        assert forall|c: ChunkCoord| in_tier(t, pc, radius as int, m, c) && !excluded(st, q, c) && !out@.contains(c)
            implies forall|i: int| prev.len() <= i < out@.len() ==> tier_rank_spec(t, pc, m, #[trigger] out@[i])
            <= #[trigger] tier_rank_spec(t, pc, m, c) by {
            assert(cands@.contains(c));
        }
        if out@.len() < prev.len() + limit {
            assert forall|c: ChunkCoord| in_tier(t, pc, radius as int, m, c) && !excluded(st, q, c)
                implies #[trigger] out@.contains(c) by {
                assert(cands@.contains(c));
            }
        }
    }
}

/// Appends each chunk of the critical column that is neither resident, in
/// flight, nor already in `out`.
fn add_critical(out: &mut Vec<ChunkCoord>, pc: ChunkCoord, m: Motion, st: &ChunkStorage, q: &ChunkLoadQueue)
    requires
        chunk_in_range(pc),
        no_dups(old(out)@),
    ensures
        no_dups(final(out)@),
        old(out)@.len() <= final(out)@.len() <= old(out)@.len() + 9,
        forall|i: int| 0 <= i < old(out)@.len() ==> final(out)@[i] == old(out)@[i],
        forall|i: int| old(out)@.len() <= i < final(out)@.len() ==> is_critical(pc, m, #[trigger] final(out)@[i])
            && !excluded(st, q, final(out)@[i]),
        forall|c: ChunkCoord| is_critical(pc, m, c) && !excluded(st, q, c) ==> final(out)@.contains(c),
{
    let depth: i32 = if m.falling_fast { 8 } else { 3 };
    let mut k: i32 = 0;
    while k <= depth
        invariant
            chunk_in_range(pc),
            depth == critical_depth(m),
            0 <= k <= depth + 1,
            no_dups(out@),
            old(out)@.len() <= out@.len() <= old(out)@.len() + k,
            forall|i: int| 0 <= i < old(out)@.len() ==> out@[i] == old(out)@[i],
            forall|i: int| old(out)@.len() <= i < out@.len() ==> is_critical(pc, m, #[trigger] out@[i])
                && !excluded(st, q, out@[i]),
            forall|c: ChunkCoord| is_critical(pc, m, c) && pc.y - k < c.y && !excluded(st, q, c) ==> out@.contains(c),
        decreases depth + 1 - k,
    {
        let c = ChunkCoord { x: pc.x, y: pc.y - k, z: pc.z };
        let ghost prev = out@;
        if !st.contains(&c) && !q.is_in_flight(c) && !contains_coord(out, c) {
            out.push(c);
            proof {
                assert(out@[out@.len() - 1] == c);
            }
        }
        proof {
            assert forall|d: ChunkCoord| is_critical(pc, m, d) && pc.y - (k + 1) < d.y && !excluded(st, q, d)
                implies out@.contains(d) by {
                crate::queues::lemma_push_contains(prev, c, d);
                if d.y == pc.y - k {
                    assert(d == c);
                }
            }
        }
        k = k + 1;
    }
}

/// One tier's part of a plan: `p` is the plan up to the end of the part,
/// which starts at `lo`. Each chunk of the part is in the tier, they come
/// in rank order, and no chunk of the tier that is neither excluded nor
/// already planned ranks better than one the part holds.
pub open spec fn tier_segment(
    t: Tier,
    pc: ChunkCoord,
    radius: int,
    m: Motion,
    st: &ChunkStorage,
    q: &ChunkLoadQueue,
    p: Seq<ChunkCoord>,
    lo: int,
) -> bool {
    &&& 0 <= lo <= p.len()
    &&& forall|i: int| lo <= i < p.len() ==> in_tier(t, pc, radius, m, #[trigger] p[i])
    &&& forall|i: int, j: int| lo <= i < j < p.len() ==> tier_rank_spec(t, pc, m, #[trigger] p[i]) <= tier_rank_spec(
        t,
        pc,
        m,
        #[trigger] p[j],
    )
    &&& forall|c: ChunkCoord| in_tier(t, pc, radius, m, c) && !excluded(st, q, c) && !p.contains(c) ==> forall|i: int|
        lo <= i < p.len() ==> tier_rank_spec(t, pc, m, #[trigger] p[i]) <= #[trigger] tier_rank_spec(t, pc, m, c)
}

/// The tier layout of a plan `r`: the critical chunks up to `ce`, then the
/// emergency cube up to `ee` (at most ten, only in an emergency), then the
/// surface band up to `se` (within the quota, only near the surface), then
/// the volumetric tier; each part as `tier_segment` says.
pub open spec fn tiers_ordered(
    pc: ChunkCoord,
    cfg: &ChunkLoaderConfig,
    m: Motion,
    st: &ChunkStorage,
    q: &ChunkLoadQueue,
    r: Seq<ChunkCoord>,
    ce: int,
    ee: int,
    se: int,
) -> bool {
    &&& 0 <= ce <= ee <= se <= r.len()
    &&& forall|i: int| 0 <= i < ce ==> is_critical(pc, m, #[trigger] r[i])
    &&& forall|i: int| ce <= i < r.len() ==> !is_critical(pc, m, #[trigger] r[i])
    &&& !m.emergency ==> ee == ce
    &&& ee - ce <= EMERGENCY_TIER_MAX
    &&& tier_segment(Tier::Emergency, pc, cfg.radius(), m, st, q, r.subrange(0, ee), ce)
    &&& !near_surface(pc) ==> se == ee
    &&& se - ee <= cfg.quota()
    &&& tier_segment(Tier::Surface, pc, cfg.radius(), m, st, q, r.subrange(0, se), ee)
    &&& tier_segment(Tier::Volume, pc, cfg.radius(), m, st, q, r, se)
}

/// A plan of chunks to load and where each tier's part ends.
pub struct LoadPlan {
    pub coords: Vec<ChunkCoord>,
    pub critical_end: usize,
    pub emergency_end: usize,
    pub surface_end: usize,
}

/// Room for new chunks on one tick: what the mode's cap leaves, within the
/// per-tick limit.
pub open spec fn load_budget(cfg: &ChunkLoaderConfig, pc: ChunkCoord, m: Motion, resident_count: int) -> int {
    let avail = effective_max(cfg.cap(), pc, m) - resident_count;
    if avail < per_frame_cap(pc, m) {
        avail
    } else {
        per_frame_cap(pc, m)
    }
}

/// The chunks to queue on one tick, highest priority first: the critical
/// column always; then, while the resident count is under this mode's cap,
/// the emergency cube, the surface band up to its quota and the volumetric
/// tier, each in its own order and within the per-tick limit.
#[verifier::rlimit(50)]
pub fn plan_loads(
    pc: ChunkCoord,
    m: Motion,
    cfg: &ChunkLoaderConfig,
    resident_count: usize,
    st: &ChunkStorage,
    q: &ChunkLoadQueue,
) -> (r: LoadPlan)
    requires
        chunk_in_range(pc),
    ensures
        no_dups(r.coords@),
        forall|i: int| 0 <= i < r.coords@.len() ==> demanded(pc, cfg.radius(), m, #[trigger] r.coords@[i]) && !excluded(
            st,
            q,
            r.coords@[i],
        ),
        forall|c: ChunkCoord| is_critical(pc, m, c) && !excluded(st, q, c) ==> r.coords@.contains(c),
        tiers_ordered(
            pc,
            cfg,
            m,
            st,
            q,
            r.coords@,
            r.critical_end as int,
            r.emergency_end as int,
            r.surface_end as int,
        ),
        resident_count >= effective_max(cfg.cap(), pc, m) ==> r.coords@.len() == r.critical_end,
        resident_count < effective_max(cfg.cap(), pc, m) ==> r.coords@.len() - r.critical_end <= load_budget(
            cfg,
            pc,
            m,
            resident_count as int,
        ),
        resident_count < effective_max(cfg.cap(), pc, m) && r.coords@.len() < load_budget(cfg, pc, m, resident_count as int)
            && cfg.quota() >= load_budget(cfg, pc, m, resident_count as int) ==> forall|c: ChunkCoord|
            (in_surface_band(pc, cfg.radius(), c) || in_volume(pc, cfg.radius(), m, c)) && !excluded(st, q, c)
                ==> #[trigger] r.coords@.contains(c),
{
    let radius = cfg.clamped_radius();
    let cap = cfg.clamped_cap();
    let mut out: Vec<ChunkCoord> = Vec::new();
    add_critical(&mut out, pc, m, st, q);
    let ce = out.len();
    let eff = effective_max_of(cap, pc, m);
    if resident_count >= eff {
        proof {
            assert(out@.subrange(0, ce as int) =~= out@);
        }
        return LoadPlan { coords: out, critical_end: ce, emergency_end: ce, surface_end: ce };
    }
    let budget: usize = {
        let avail = eff - resident_count;
        let pf = per_frame_cap_of(pc, m);
        if avail < pf { avail } else { pf }
    };
    let mut remaining: usize = if out.len() < budget { budget - out.len() } else { 0 };
    let ghost crit_out = out@;
    proof {
        assert forall|c: ChunkCoord| is_critical(pc, m, c) && !excluded(st, q, c) implies crit_out.contains(c) by {}
    }
    if m.emergency {
        let er: i32 = if m.falling_fast { 1 } else { 2 };
        let lim: usize = if remaining < EMERGENCY_TIER_MAX { remaining } else { EMERGENCY_TIER_MAX };
        let before = out.len();
        add_tier(&mut out, Tier::Emergency, pc, radius, m, er, pc.y - 1, pc.y + 1, lim, st, q, Ghost(crit_out));
        remaining = remaining - (out.len() - before);
    }
    let ee = out.len();
    let ghost out_e = out@;
    let ghost mut surf_cover: bool = !near_surface(pc);
    if pc.y >= 0 {
        let half: i32 = if m.fast_moving { (radius * 3 / 2) as i32 } else { (radius * 6 / 5) as i32 };
        let quota = cfg.clamped_quota();
        let lim: usize = if remaining < quota { remaining } else { quota };
        let before = out.len();
        proof {
            assert(radius * 3 / 2 >= radius * 6 / 5);
            assert forall|c: ChunkCoord| #[trigger] in_tier(Tier::Surface, pc, radius as int, m, c) implies in_box(
                pc,
                half as int,
                pc.y - 2,
                pc.y + 8,
                c,
            ) by {
                lemma_surface_in_box(pc, radius as int, half as int, c);
            }
        }
        add_tier(&mut out, Tier::Surface, pc, radius, m, half, pc.y - 2, pc.y + 8, lim, st, q, Ghost(crit_out));
        remaining = remaining - (out.len() - before);
        proof {
            surf_cover = out@.len() < before + lim;
        }
    }
    let se = out.len();
    let ghost out_s = out@;
    let (half, ylo, yhi): (i32, i32, i32) = if pc.y >= 0 {
        (radius as i32, pc.y - radius as i32, pc.y + radius as i32)
    } else if m.deep_long {
        (1, pc.y - 3, pc.y)
    } else {
        let ur: i32 = if m.fast_moving { 3 } else { 2 };
        (ur, pc.y - 1, pc.y + 1)
    };
    let before = out.len();
    let lim_v = remaining;
    proof {
        assert forall|c: ChunkCoord| #[trigger] in_tier(Tier::Volume, pc, radius as int, m, c) implies in_box(
            pc,
            half as int,
            ylo as int,
            yhi as int,
            c,
        ) by {
            lemma_volume_in_box(pc, radius as int, m, c);
        }
    }
    add_tier(&mut out, Tier::Volume, pc, radius, m, half, ylo, yhi, remaining, st, q, Ghost(crit_out));
    proof {
        assert(out@.subrange(0, se as int) =~= out_s);
        assert(out@.subrange(0, ee as int) =~= out_e);
        assert forall|i: int| 0 <= i < out@.len() implies demanded(pc, cfg.radius(), m, #[trigger] out@[i])
            && !excluded(st, q, out@[i]) by {
            if i >= se {
            } else if i >= ee {
                assert(out_s[i] == out@[i]);
            } else if i >= ce {
                assert(out_e[i] == out@[i]);
            } else {
                assert(crit_out[i] == out@[i]);
            }
        }
        assert forall|i: int| ce <= i < out@.len() implies !is_critical(pc, m, #[trigger] out@[i]) by {
            if i >= se {
            } else if i >= ee {
                assert(out_s[i] == out@[i]);
            } else {
                assert(out_e[i] == out@[i]);
            }
        }
        assert forall|i: int| 0 <= i < ce implies is_critical(pc, m, #[trigger] out@[i]) by {
            assert(crit_out[i] == out@[i]);
        }
        if surf_cover && near_surface(pc) {
            assert forall|c: ChunkCoord| in_surface_band(pc, cfg.radius(), c) && !excluded(st, q, c)
                implies #[trigger] out@.contains(c) by {
                assert(in_tier(Tier::Surface, pc, radius as int, m, c));
                assert(out_s.contains(c));
            }
        }
        if out@.len() < before + lim_v {
            assert forall|c: ChunkCoord| in_volume(pc, cfg.radius(), m, c) && !excluded(st, q, c)
                implies #[trigger] out@.contains(c) by {
                assert(in_tier(Tier::Volume, pc, radius as int, m, c));
            }
        }
    }
    LoadPlan { coords: out, critical_end: ce, emergency_end: ee, surface_end: se }
}

} // verus!
