use vstd::prelude::*;
use crate::coord::ChunkCoord;
use crate::demand::{ChunkLoaderConfig, Motion, abs, effective_max, effective_max_of, is_essential, sq_dist, sq_horizontal, MAX_CAP, MAX_RADIUS};
use crate::queues::{ChunkUnloadQueue, coords_of};
use crate::ranking::{rank_order, pair_le, index_present};

verus! {

/// Offset of the class part in an eviction key; above any squared distance.
pub const CLASS_STEP: u128 = 1180591620717411303424;

/// The estimator's view of the detector's mode: fast travel as the
/// detector saw it, no emergency, and the deep-underground mode.
pub open spec fn sweep_motion(fast: bool, deep_long: bool) -> Motion {
    Motion { should_update: true, fast_moving: fast, emergency: false, falling_fast: false, deep_long }
}

/// The resident budget a sweep works towards: the estimator's effective
/// max for the same mode.
pub open spec fn unload_budget(cap: int, pc: ChunkCoord, fast: bool, deep_long: bool) -> int {
    effective_max(cap, pc, sweep_motion(fast, deep_long))
}

/// Sweep threshold for this tick's mode: eviction runs at or above it. At
/// normal speed above ground it sweeps early, at 90% of the cap; otherwise
/// at the budget itself, so it never lets the count stay over the budget.
pub open spec fn unload_threshold(cap: int, pc: ChunkCoord, fast: bool, deep_long: bool) -> int {
    if !deep_long && pc.y >= 0 && !fast {
        cap * 9 / 10
    } else {
        unload_budget(cap, pc, fast, deep_long)
    }
}

/// How many chunks one sweep selects: a few in fast travel, down to 90% of
/// the budget on overflow, five percent on a preventive sweep.
pub open spec fn unload_target(budget: int, count: int, fast: bool) -> int {
    if fast {
        if count / 200 >= 1 { count / 200 } else { 1 }
    } else if count >= budget {
        count - budget * 9 / 10
    } else {
        if count / 20 >= 1 { count / 20 } else { 1 }
    }
}

/// Within the band of layers that the surface tier loads.
pub open spec fn in_surface_layers(pc: ChunkCoord, c: ChunkCoord) -> bool {
    pc.y - 2 <= c.y <= pc.y + 8
}

/// Eviction class: non-surface chunks go first, then surface chunks
/// outside the surface radius, then the rest.
pub open spec fn evict_class(pc: ChunkCoord, radius: int, c: ChunkCoord) -> int {
    if !in_surface_layers(pc, c) {
        0
    } else if 25 * sq_horizontal(pc, c) > 36 * radius * radius {
        1
    } else {
        2
    }
}

/// Eviction order key, lowest first: by class, then farthest first.
pub open spec fn evict_key(pc: ChunkCoord, radius: int, c: ChunkCoord) -> int {
    evict_class(pc, radius, c) * CLASS_STEP + (CLASS_STEP - 1 - sq_dist(pc, c))
}

/// Chunks that a sweep never selects: the essential set in the
/// deep-underground mode, else a cube round the player that widens in fast
/// travel, and the column of three chunks under the player.
pub open spec fn protected(pc: ChunkCoord, fast: bool, deep_long: bool, c: ChunkCoord) -> bool {
    if deep_long {
        is_essential(pc, c)
    } else {
        let r = if fast { 6int } else { 2int };
        c == pc || (abs(c.x - pc.x) <= r && abs(c.y - pc.y) <= r && abs(c.z - pc.z) <= r) || (c.x == pc.x && c.z
            == pc.z && pc.y - 3 <= c.y <= pc.y)
    }
}

pub open spec fn evictable(
    pc: ChunkCoord,
    fast: bool,
    deep_long: bool,
    uq: &ChunkUnloadQueue,
    c: ChunkCoord,
) -> bool {
    !protected(pc, fast, deep_long, c) && !uq.in_flight(c)
}

pub fn unload_budget_of(cap: usize, pc: ChunkCoord, fast: bool, deep_long: bool) -> (r: usize)
    requires
        cap <= MAX_CAP,
    ensures
        r == unload_budget(cap as int, pc, fast, deep_long),
        r <= MAX_CAP + 200,
{
    let m = Motion { should_update: true, fast_moving: fast, emergency: false, falling_fast: false, deep_long };
    effective_max_of(cap, pc, m)
}

pub fn unload_threshold_of(cap: usize, pc: ChunkCoord, fast: bool, deep_long: bool) -> (r: usize)
    requires
        cap <= MAX_CAP,
    ensures
        r == unload_threshold(cap as int, pc, fast, deep_long),
{
    if !deep_long && pc.y >= 0 && !fast {
        ((cap as u64) * 9 / 10) as usize
    } else {
        unload_budget_of(cap, pc, fast, deep_long)
    }
}

pub fn unload_target_of(budget: usize, count: usize, fast: bool) -> (r: usize)
    requires
        budget <= MAX_CAP + 200,
    ensures
        r == unload_target(budget as int, count as int, fast),
{
    if fast {
        if count / 200 >= 1 { count / 200 } else { 1 }
    } else if count >= budget {
        let keep: u64 = (budget as u64) * 9 / 10;
        assert(keep <= budget) by (nonlinear_arith)
            requires
                budget >= 0,
                keep == budget * 9 / 10,
        ;
        count - keep as usize
    } else {
        if count / 20 >= 1 { count / 20 } else { 1 }
    }
}

fn evict_key_of(pc: ChunkCoord, radius: u32, c: ChunkCoord) -> (r: u128)
    requires
        radius <= MAX_RADIUS,
    ensures
        r as int == evict_key(pc, radius as int, c),
{
    let dx: i128 = c.x as i128 - pc.x as i128;
    let dy: i128 = c.y as i128 - pc.y as i128;
    let dz: i128 = c.z as i128 - pc.z as i128;
    assert(0 <= dx * dx <= 0x1_0000_0000_0000_0000 && 0 <= dy * dy <= 0x1_0000_0000_0000_0000 && 0 <= dz * dz
        <= 0x1_0000_0000_0000_0000) by (nonlinear_arith)
        requires
            -0x1_0000_0000 <= dx <= 0x1_0000_0000,
            -0x1_0000_0000 <= dy <= 0x1_0000_0000,
            -0x1_0000_0000 <= dz <= 0x1_0000_0000,
    ;
    let h2: i128 = dx * dx + dz * dz;
    let d2: i128 = h2 + dy * dy;
    let rr: i128 = radius as i128;
    assert(0 <= rr * rr <= 1024) by (nonlinear_arith)
        requires
            0 <= rr <= 32,
    ;
    let r2: i128 = rr * rr;
    assert(36 * r2 == 36 * (radius as int) * (radius as int)) by (nonlinear_arith)
        requires
            r2 == rr * rr,
            rr == radius,
    ;
    assert(h2 == sq_horizontal(pc, c));
    assert(d2 == sq_dist(pc, c));
    let class: u128 = if !(pc.y as i64 - 2 <= c.y as i64 && c.y as i64 <= pc.y as i64 + 8) {
        0
    } else if 25 * h2 > 36 * r2 {
        1
    } else {
        2
    };
    class * CLASS_STEP + (CLASS_STEP - 1 - d2 as u128)
}

fn is_protected(pc: ChunkCoord, fast: bool, deep_long: bool, c: ChunkCoord) -> (r: bool)
    ensures
        r == protected(pc, fast, deep_long, c),
{
    let dx: i64 = c.x as i64 - pc.x as i64;
    let dy: i64 = c.y as i64 - pc.y as i64;
    let dz: i64 = c.z as i64 - pc.z as i64;
    let adx: i64 = if dx < 0 { -dx } else { dx };
    let ady: i64 = if dy < 0 { -dy } else { dy };
    let adz: i64 = if dz < 0 { -dz } else { dz };
    if deep_long {
        (dy == 0 && adx <= 1 && adz <= 1) || (dx == 0 && dz == 0 && dy >= -3 && dy <= 0)
    } else {
        let r: i64 = if fast { 6 } else { 2 };
        c == pc || (adx <= r && ady <= r && adz <= r) || (dx == 0 && dz == 0 && dy >= -3 && dy <= 0)
    }
}

fn selected_contains(sel: &Vec<(u64, ChunkCoord)>, c: ChunkCoord) -> (r: bool)
    ensures
        r == coords_of(sel@).contains(c),
{
    let mut i: usize = 0;
    while i < sel.len()
        invariant
            i <= sel@.len(),
            forall|j: int| 0 <= j < i ==> sel@[j].1 != c,
        decreases sel@.len() - i,
    {
        if sel[i].1 == c {
            proof {
                assert(coords_of(sel@)[i as int] == c);
            }
            return true;
        }
        i = i + 1;
    }
    proof {
        if coords_of(sel@).contains(c) {
            let j = choose|j: int| 0 <= j < coords_of(sel@).len() && coords_of(sel@)[j] == c;
            assert(sel@[j].1 == c);
        }
    }
    false
}

/// The resident chunks that one sweep hands to the unload queue, first to
/// go first. `entries` lists the resident chunks with their handles, and
/// `pc` is the player's chunk.
pub fn plan_evictions(
    pc: ChunkCoord,
    fast: bool,
    deep_long: bool,
    cfg: &ChunkLoaderConfig,
    entries: &Vec<(ChunkCoord, u64)>,
    uq: &ChunkUnloadQueue,
) -> (r: Vec<(u64, ChunkCoord)>)
    ensures
        entries@.len() < unload_threshold(cfg.cap(), pc, fast, deep_long) ==> r@.len() == 0,
        r@.len() <= unload_target(unload_budget(cfg.cap(), pc, fast, deep_long), entries@.len() as int, fast),
        crate::queues::no_dups(coords_of(r@)),
        forall|i: int| 0 <= i < r@.len() ==> evictable(pc, fast, deep_long, uq, (#[trigger] r@[i]).1)
            && exists|j: int| 0 <= j < entries@.len() && entries@[j] == (r@[i].1, r@[i].0),
        forall|i: int, j: int| 0 <= i < j < r@.len() ==> evict_key(pc, cfg.radius(), (#[trigger] r@[i]).1)
            <= evict_key(pc, cfg.radius(), (#[trigger] r@[j]).1),
        entries@.len() >= unload_threshold(cfg.cap(), pc, fast, deep_long) ==> forall|j: int|
            0 <= j < entries@.len() && evictable(pc, fast, deep_long, uq, (#[trigger] entries@[j]).0)
                ==> coords_of(r@).contains(entries@[j].0) || (r@.len() == unload_target(unload_budget(cfg.cap(), pc, fast, deep_long),
                entries@.len() as int,
                fast,
            ) && forall|i: int| 0 <= i < r@.len() ==> evict_key(pc, cfg.radius(), (#[trigger] r@[i]).1)
                <= evict_key(pc, cfg.radius(), entries@[j].0)),
{
    let cap = cfg.clamped_cap();
    let radius = cfg.clamped_radius();
    let count = entries.len();
    let mut sel: Vec<(u64, ChunkCoord)> = Vec::new();
    let threshold = unload_threshold_of(cap, pc, fast, deep_long);
    if count < threshold {
        return sel;
    }
    let budget = unload_budget_of(cap, pc, fast, deep_long);
    let target = unload_target_of(budget, count, fast);
    let mut ranks: Vec<u128> = Vec::new();
    let mut i: usize = 0;
    while i < count
        invariant
            i <= count == entries@.len(),
            radius == cfg.radius(),
            radius <= MAX_RADIUS,
            ranks@.len() == i,
            forall|j: int| 0 <= j < i ==> ranks@[j] as int == evict_key(pc, radius as int, #[trigger] entries@[j].0),
        decreases count - i,
    {
        let k = evict_key_of(pc, radius, entries[i].0);
        ranks.push(k);
        i = i + 1;
    }
    let order = rank_order(&ranks);
    let ghost mut pos: Seq<int> = Seq::empty();
    let mut p: usize = 0;
    while p < order.len() && sel.len() < target
        invariant
            p <= order@.len() == ranks@.len() == entries@.len(),
            target == unload_target(unload_budget(cfg.cap(), pc, fast, deep_long), entries@.len() as int, fast),
            radius == cfg.radius(),
            sel@.len() <= target,
            crate::queues::no_dups(coords_of(sel@)),
            forall|j: int| 0 <= j < ranks@.len() ==> ranks@[j] as int == evict_key(pc, radius as int, #[trigger] entries@[j].0),
            forall|q: int| 0 <= q < order@.len() ==> (#[trigger] order@[q]).1 < ranks@.len()
                && order@[q].0 == ranks@[order@[q].1 as int],
            crate::ranking::sorted_pairs(order@),
            pos.len() == sel@.len(),
            forall|a: int| 0 <= a < pos.len() ==> 0 <= #[trigger] pos[a] < p,
            forall|a: int| 0 <= a < sel@.len() ==> entries@[order@[pos[a]].1 as int] == ((#[trigger] sel@[a]).1, sel@[a].0),
            forall|a: int| 0 <= a < sel@.len() ==> evictable(pc, fast, deep_long, uq, (#[trigger] sel@[a]).1),
            forall|a: int, b: int| 0 <= a < b < sel@.len() ==> #[trigger] pos[a] < #[trigger] pos[b],
            forall|q: int| 0 <= q < p && evictable(pc, fast, deep_long, uq, entries@[(#[trigger] order@[q]).1 as int].0)
                ==> coords_of(sel@).contains(entries@[order@[q].1 as int].0),
        decreases order@.len() - p,
    {
        let idx = order[p].1;
        let (c, h) = entries[idx];
        let ghost prev = sel@;
        let ghost prev_pos = pos;
        if !is_protected(pc, fast, deep_long, c) && !uq.is_in_flight(c) && !selected_contains(&sel, c) {
            sel.push((h, c));
            proof {
                pos = pos.push(p as int);
                assert(coords_of(sel@) =~= coords_of(prev).push(c));
                crate::queues::lemma_push_contains(coords_of(prev), c, c);
                assert forall|a: int, b: int| 0 <= a < b < coords_of(sel@).len() implies coords_of(sel@)[a]
                    != coords_of(sel@)[b] by {
                    if b == sel@.len() - 1 {
                        assert(coords_of(prev)[a] == coords_of(sel@)[a]);
                        assert(coords_of(prev).contains(coords_of(sel@)[a]));
                    } else {
                        assert(coords_of(prev)[a] == coords_of(sel@)[a]);
                        assert(coords_of(prev)[b] == coords_of(sel@)[b]);
                    }
                }
                assert forall|a: int| 0 <= a < sel@.len() implies 0 <= pos[a] < p + 1
                    && entries@[order@[pos[a]].1 as int] == ((#[trigger] sel@[a]).1, sel@[a].0)
                    && evictable(pc, fast, deep_long, uq, sel@[a].1) by {
                    if a < prev.len() {
                        assert(sel@[a] == prev[a]);
                        assert(pos[a] == prev_pos[a]);
                    } else {
                        assert(pos[a] == p);
                    }
                }
            }
        }
        proof {
            assert(pos.len() == sel@.len());
            assert forall|a: int| 0 <= a < sel@.len() implies 0 <= pos[a] < p + 1
                && entries@[order@[pos[a]].1 as int] == ((#[trigger] sel@[a]).1, sel@[a].0)
                && evictable(pc, fast, deep_long, uq, sel@[a].1) by {
                if sel@.len() == prev.len() {
                    assert(sel@ == prev);
                    assert(pos == prev_pos);
                }
            }
            assert forall|y: ChunkCoord| coords_of(prev).contains(y) implies coords_of(sel@).contains(y) by {
                if sel@.len() != prev.len() {
                    crate::queues::lemma_push_contains(coords_of(prev), c, y);
                } else {
                    assert(sel@ == prev);
                }
            }
            assert forall|q: int| 0 <= q < p + 1 && evictable(pc, fast, deep_long, uq, entries@[(#[trigger] order@[q]).1 as int].0)
                implies coords_of(sel@).contains(entries@[order@[q].1 as int].0) by {
                if q < p {
                    assert(coords_of(prev).contains(entries@[order@[q].1 as int].0));
                } else {
                    assert(entries@[order@[q].1 as int].0 == c);
                }
            }
        }
        p = p + 1;
    }
    proof {
        assert forall|i: int| 0 <= i < sel@.len() implies evictable(pc, fast, deep_long, uq, (#[trigger] sel@[i]).1)
            && exists|j: int| 0 <= j < entries@.len() && entries@[j] == (sel@[i].1, sel@[i].0) by {
            assert(0 <= pos[i] < p);
            let j = order@[pos[i]].1 as int;
            assert(entries@[j] == (sel@[i].1, sel@[i].0));
        }
        assert forall|i: int, j: int| 0 <= i < j < sel@.len() implies evict_key(pc, cfg.radius(), (#[trigger] sel@[i]).1)
            <= evict_key(pc, cfg.radius(), (#[trigger] sel@[j]).1) by {
            assert(0 <= pos[i] < p && entries@[order@[pos[i]].1 as int] == (sel@[i].1, sel@[i].0));
            assert(0 <= pos[j] < p && entries@[order@[pos[j]].1 as int] == (sel@[j].1, sel@[j].0));
            assert(pos[i] < pos[j]);
            assert(pair_le(order@[pos[i]], order@[pos[j]]));
        }
        assert forall|j: int|
            0 <= j < entries@.len() && evictable(pc, fast, deep_long, uq, (#[trigger] entries@[j]).0)
                implies coords_of(sel@).contains(entries@[j].0) || (sel@.len() == target
                && forall|i: int| 0 <= i < sel@.len() ==> evict_key(pc, cfg.radius(), (#[trigger] sel@[i]).1)
                <= evict_key(pc, cfg.radius(), entries@[j].0)) by {
            assert(index_present(order@, j));
            let q = choose|q: int| 0 <= q < order@.len() && (#[trigger] order@[q]).1 == j;
            if q < p {
            } else {
                assert forall|i: int| 0 <= i < sel@.len() implies evict_key(pc, cfg.radius(), (#[trigger] sel@[i]).1)
                    <= evict_key(pc, cfg.radius(), entries@[j].0) by {
                    assert(0 <= pos[i] < p && entries@[order@[pos[i]].1 as int] == (sel@[i].1, sel@[i].0));
                    assert(pos[i] < q);
                    assert(pair_le(order@[pos[i]], order@[q]));
                }
            }
        }
    }
    sel
}

} // verus!
