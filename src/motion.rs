use vstd::prelude::*;
use crate::coord::ChunkCoord;

verus! {

/// Largest magnitude of a position coordinate, in thousandths of a block.
pub const POS_LIMIT: i64 = 1099511627776;

/// Largest clock reading, in milliseconds.
pub const TIME_LIMIT: u64 = 1125899906842624;

/// Length of a chunk edge in thousandths of a block.
pub const MILLI_PER_CHUNK: i64 = 32000;

/// Speed above which the player counts as travelling fast, in blocks per second.
pub const FAST_SPEED: u64 = 30;

/// Drop between two samples beyond which the player counts as travelling
/// fast, in thousandths of a block.
pub const FAST_DROP_MILLI: i64 = 10000;

/// Downward speed beyond which the player counts as falling fast, in blocks per second.
pub const FALL_SPEED: i64 = 5;

/// Time after which the demand estimator looks again without a chunk change, in ms.
pub const DEMAND_INTERVAL_MS: u64 = 500;

/// Time spent with every horizontal neighbour below ground after which the
/// aggressive mode starts, in ms.
pub const DEEP_UNDERGROUND_MS: u64 = 30000;

/// Time between eviction sweeps, in ms, at normal speed and in fast travel.
pub const EVICT_INTERVAL_MS: u64 = 1000;
pub const EVICT_INTERVAL_FAST_MS: u64 = 10000;

/// A point in the world, each axis in thousandths of a block.
#[derive(Clone, Copy, Debug, PartialEq, Eq, Structural)]
pub struct WorldPos {
    pub x: i64,
    pub y: i64,
    pub z: i64,
}

impl WorldPos {
    pub open spec fn valid(self) -> bool {
        -POS_LIMIT <= self.x <= POS_LIMIT && -POS_LIMIT <= self.y <= POS_LIMIT && -POS_LIMIT <= self.z
            <= POS_LIMIT
    }
}

pub open spec fn chunk_axis(p: int) -> int {
    p / (MILLI_PER_CHUNK as int)
}

/// The chunk that holds a point.
pub open spec fn chunk_at(p: WorldPos) -> ChunkCoord {
    ChunkCoord { x: chunk_axis(p.x as int) as i32, y: chunk_axis(p.y as int) as i32, z: chunk_axis(p.z as int) as i32 }
}

/// Largest magnitude of a chunk coordinate that a valid position reaches.
pub const CHUNK_LIMIT: i32 = 34359739;

pub open spec fn chunk_in_range(c: ChunkCoord) -> bool {
    -CHUNK_LIMIT <= c.x <= CHUNK_LIMIT && -CHUNK_LIMIT <= c.y <= CHUNK_LIMIT && -CHUNK_LIMIT <= c.z
        <= CHUNK_LIMIT
}

fn floor_div_chunk(w: i64) -> (r: i32)
    requires
        -POS_LIMIT <= w <= POS_LIMIT,
    ensures
        r as int == chunk_axis(w as int),
        -CHUNK_LIMIT <= r <= CHUNK_LIMIT,
{
    if w >= 0 {
        let q: i64 = w / MILLI_PER_CHUNK;
        q as i32
    } else {
        let m: i64 = -w - 1;
        let q: i64 = m / MILLI_PER_CHUNK;
        proof {
            assert(w as int / 32000 == -(q as int) - 1) by (nonlinear_arith)
                requires
                    m == -w - 1,
                    q == m / 32000,
                    m >= 0,
            ;
        }
        (-q - 1) as i32
    }
}

/// The chunk that holds a point, by floor division of each axis.
pub fn chunk_of_pos(p: WorldPos) -> (r: ChunkCoord)
    requires
        p.valid(),
    ensures
        r == chunk_at(p),
        chunk_in_range(r),
{
    ChunkCoord { x: floor_div_chunk(p.x), y: floor_div_chunk(p.y), z: floor_div_chunk(p.z) }
}

pub open spec fn dist2(a: WorldPos, b: WorldPos) -> int {
    (b.x - a.x) * (b.x - a.x) + (b.y - a.y) * (b.y - a.y) + (b.z - a.z) * (b.z - a.z)
}

pub open spec fn elapsed(now: u64, then: u64) -> int {
    if now >= then {
        now - then
    } else {
        0
    }
}

/// Travelling fast: over the speed limit, or a drop beyond the limit since
/// the last sample.
pub open spec fn fast_between(a: WorldPos, b: WorldPos, dt: int) -> bool {
    (dt > 0 && dist2(a, b) > (FAST_SPEED * FAST_SPEED) as int * dt * dt) || b.y - a.y < -FAST_DROP_MILLI
}

/// Falling fast: a downward speed over the limit since the last sample, or
/// a drop beyond the fast-travel drop between the two samples.
pub open spec fn falling_between(a: WorldPos, b: WorldPos, dt: int) -> bool {
    (dt > 0 && b.y - a.y < -FALL_SPEED * dt) || b.y - a.y < -FAST_DROP_MILLI
}

/// What the estimator makes of the player's motion on one tick.
#[derive(Clone, Copy, Debug, PartialEq, Eq, Structural)]
pub struct Motion {
    pub should_update: bool,
    pub fast_moving: bool,
    pub emergency: bool,
    pub falling_fast: bool,
    pub deep_long: bool,
}

/// The estimator's last look at the player.
#[derive(Clone, Copy, Debug, PartialEq, Eq, Structural)]
pub struct Sample {
    pub time_ms: u64,
    pub chunk: ChunkCoord,
    pub pos: WorldPos,
}

fn fast_check(a: WorldPos, b: WorldPos, dt: u64) -> (r: bool)
    requires
        a.valid(),
        b.valid(),
        dt <= TIME_LIMIT,
    ensures
        r == fast_between(a, b, dt as int),
{
    let dx: i128 = b.x as i128 - a.x as i128;
    let dy: i128 = b.y as i128 - a.y as i128;
    let dz: i128 = b.z as i128 - a.z as i128;
    assert(0 <= dx * dx <= 4 * POS_LIMIT * POS_LIMIT) by (nonlinear_arith)
        requires
            -2 * POS_LIMIT <= dx <= 2 * POS_LIMIT,
    ;
    assert(0 <= dy * dy <= 4 * POS_LIMIT * POS_LIMIT) by (nonlinear_arith)
        requires
            -2 * POS_LIMIT <= dy <= 2 * POS_LIMIT,
    ;
    assert(0 <= dz * dz <= 4 * POS_LIMIT * POS_LIMIT) by (nonlinear_arith)
        requires
            -2 * POS_LIMIT <= dz <= 2 * POS_LIMIT,
    ;
    let d2: i128 = dx * dx + dy * dy + dz * dz;
    let t: i128 = dt as i128;
    assert(0 <= t * t <= TIME_LIMIT * TIME_LIMIT) by (nonlinear_arith)
        requires
            0 <= t <= TIME_LIMIT,
    ;
    let lim: i128 = (FAST_SPEED * FAST_SPEED) as i128 * (t * t);
    assert(lim == (FAST_SPEED * FAST_SPEED) as int * (dt as int) * (dt as int)) by (nonlinear_arith)
        requires
            lim == 900 * (t * t),
            t == dt,
    ;
    (dt > 0 && d2 > lim) || b.y - a.y < -FAST_DROP_MILLI
}

/// The estimator's memory between ticks: its last sample and when the
/// player was first seen with every horizontal neighbour below ground.
#[derive(Clone, Copy, Debug, PartialEq, Eq, Structural)]
pub struct DemandClock {
    pub last: Option<Sample>,
    pub deep_since: Option<u64>,
}

/// One tick of the estimator's clock: the motion seen and the memory kept.
pub open spec fn demand_observe(clock: DemandClock, now: u64, pos: WorldPos) -> (DemandClock, Motion) {
    let chunk = chunk_at(pos);
    let (update, fast, emergency, falling) = match clock.last {
        None => (true, false, false, false),
        Some(s) => {
            let dt = elapsed(now, s.time_ms);
            let moved = s.chunk != chunk;
            let fast = fast_between(s.pos, pos, dt);
            let emergency = fast && moved;
            (dt > DEMAND_INTERVAL_MS || moved || emergency, fast, emergency, falling_between(s.pos, pos, dt))
        },
    };
    if !update {
        (clock, Motion { should_update: false, fast_moving: fast, emergency, falling_fast: falling, deep_long: false })
    } else {
        let last = Some(Sample { time_ms: now, chunk, pos });
        let underground = chunk.y < 0;
        let deep_since = if !underground {
            None
        } else {
            match clock.deep_since {
                None => Some(now),
                Some(t) => Some(t),
            }
        };
        let deep_long = underground && match clock.deep_since {
            None => false,
            Some(t) => elapsed(now, t) >= DEEP_UNDERGROUND_MS,
        };
        (
            DemandClock { last, deep_since },
            Motion { should_update: true, fast_moving: fast, emergency, falling_fast: falling, deep_long },
        )
    }
}

impl DemandClock {
    pub fn new() -> (r: DemandClock)
        ensures
            r.last.is_none() && r.deep_since.is_none(),
    {
        DemandClock { last: None, deep_since: None }
    }

    /// Takes in the player's position at `now` and says what the estimator
    /// makes of it.
    pub fn observe(&mut self, now: u64, pos: WorldPos) -> (r: Motion)
        requires
            pos.valid(),
            now <= TIME_LIMIT,
            old(self).last.is_some() ==> old(self).last.unwrap().pos.valid(),
        ensures
            (*final(self), r) == demand_observe(*old(self), now, pos),
            final(self).last.is_some() ==> final(self).last.unwrap().pos.valid(),
    {
        let chunk = chunk_of_pos(pos);
        let mut update = true;
        let mut fast = false;
        let mut emergency = false;
        let mut falling = false;
        match self.last {
            None => {},
            Some(s) => {
                let dt: u64 = if now >= s.time_ms { now - s.time_ms } else { 0 };
                let moved = s.chunk != chunk;
                fast = fast_check(s.pos, pos, dt);
                emergency = fast && moved;
                falling = (dt > 0 && (pos.y - s.pos.y) < -FALL_SPEED * (dt as i64)) || (pos.y - s.pos.y)
                    < -FAST_DROP_MILLI;
                update = dt > DEMAND_INTERVAL_MS || moved || emergency;
            },
        }
        if !update {
            return Motion { should_update: false, fast_moving: fast, emergency, falling_fast: falling, deep_long: false };
        }
        let underground = chunk.y < 0;
        let mut deep_long = false;
        let old_since = self.deep_since;
        if !underground {
            self.deep_since = None;
        } else {
            match old_since {
                None => {
                    self.deep_since = Some(now);
                },
                Some(t) => {
                    let d: u64 = if now >= t { now - t } else { 0 };
                    deep_long = d >= DEEP_UNDERGROUND_MS;
                },
            }
        }
        self.last = Some(Sample { time_ms: now, chunk, pos });
        Motion { should_update: true, fast_moving: fast, emergency, falling_fast: falling, deep_long }
    }
}

/// The eviction detector's memory between ticks: when and where it last swept.
#[derive(Clone, Copy, Debug)]
pub struct EvictionClock {
    pub last: Option<(u64, WorldPos)>,
}

/// Whether the detector sweeps at `now`, whether the player is travelling
/// fast, and the memory kept.
pub open spec fn eviction_observe(clock: EvictionClock, now: u64, pos: WorldPos) -> (EvictionClock, bool, bool) {
    match clock.last {
        None => (EvictionClock { last: Some((now, pos)) }, true, false),
        Some((t, p)) => {
            let dt = elapsed(now, t);
            let fast = fast_between(p, pos, dt);
            let interval = if fast { EVICT_INTERVAL_FAST_MS } else { EVICT_INTERVAL_MS };
            if dt > interval {
                (EvictionClock { last: Some((now, pos)) }, true, fast)
            } else {
                (clock, false, fast)
            }
        },
    }
}

impl EvictionClock {
    pub fn new() -> (r: EvictionClock)
        ensures
            r.last.is_none(),
    {
        EvictionClock { last: None }
    }

    /// Takes in the player's position at `now`: whether to sweep, and
    /// whether the player travels fast.
    pub fn observe(&mut self, now: u64, pos: WorldPos) -> (r: (bool, bool))
        requires
            pos.valid(),
            now <= TIME_LIMIT,
            old(self).last.is_some() ==> old(self).last.unwrap().1.valid(),
        ensures
            (*final(self), r.0, r.1) == eviction_observe(*old(self), now, pos),
            final(self).last.is_some() ==> final(self).last.unwrap().1.valid(),
    {
        match self.last {
            None => {
                self.last = Some((now, pos));
                (true, false)
            },
            Some((t, p)) => {
                let dt: u64 = if now >= t { now - t } else { 0 };
                let fast = fast_check(p, pos, dt);
                let interval = if fast { EVICT_INTERVAL_FAST_MS } else { EVICT_INTERVAL_MS };
                if dt > interval {
                    self.last = Some((now, pos));
                    (true, fast)
                } else {
                    (false, fast)
                }
            },
        }
    }
}

} // verus!
