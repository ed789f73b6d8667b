use vstd::prelude::*;
use crate::coord::ChunkCoord;
use crate::demand::{
    ChunkLoaderConfig, Motion, demanded, effective_max, in_surface_band, in_volume, is_critical, load_budget,
    plan_loads, tiers_ordered,
};
use crate::eviction::{evict_key, evictable, plan_evictions, unload_budget, unload_target, unload_threshold};
use crate::motion::{
    chunk_at, chunk_of_pos, demand_observe, elapsed, eviction_observe, DemandClock, EvictionClock, WorldPos,
    DEEP_UNDERGROUND_MS, TIME_LIMIT,
};
use crate::queues::{coords_of, no_dups, remove_coord, ChunkLoadQueue, ChunkUnloadQueue};
use crate::storage::ChunkStorage;

verus! {

/// Most generation tasks started on one tick.
pub const MAX_GENERATION_STARTS: usize = 16;

/// Most finished generation tasks taken in on one tick.
pub const MAX_GENERATION_COMPLETIONS: usize = 8;

/// Most teardown tasks started on one tick.
pub const MAX_UNLOAD_STARTS: usize = 5;

/// What one demand tick saw and queued.
pub struct DemandOutcome {
    pub motion: Motion,
    pub queued: Vec<ChunkCoord>,
    /// Where the critical, emergency and surface parts of `queued` end.
    pub critical_end: usize,
    pub emergency_end: usize,
    pub surface_end: usize,
}

/// The streaming core: the resident chunk map, both queues with their
/// in-flight sets, and the clocks of the demand estimator and the
/// eviction detector.
pub struct ChunkStreamer {
    pub storage: ChunkStorage,
    pub loads: ChunkLoadQueue,
    pub unloads: ChunkUnloadQueue,
    pub demand: DemandClock,
    pub eviction: EvictionClock,
}

/// The deep-underground mode: the player has had every horizontal
/// neighbour below ground for the full period.
pub open spec fn deep_mode(clock: DemandClock, now: u64, pc: ChunkCoord) -> bool {
    pc.y < 0 && match clock.deep_since {
        Some(t) => elapsed(now, t) >= DEEP_UNDERGROUND_MS,
        None => false,
    }
}

/// A demand tick's change of state: `q` is appended to the pending loads,
/// each of it neither resident nor in flight before, and nothing else of
/// the queues or the map changes.
pub open spec fn demand_step(pre: ChunkStreamer, post: ChunkStreamer, q: Seq<ChunkCoord>) -> bool {
    &&& post.loads.pending@ == pre.loads.pending@ + q
    &&& post.loads.generating@ == pre.loads.generating@
    &&& post.storage@ == pre.storage@
    &&& post.unloads == pre.unloads
    &&& no_dups(q)
    &&& forall|i: int| 0 <= i < q.len() ==> !pre.storage.resident(#[trigger] q[i]) && !pre.loads.in_flight(q[i])
}

/// Finishing the teardown of `c`: where `c` was being unloaded, it leaves
/// the map and the unloading set and its handle, if the map still held
/// one, comes back; otherwise nothing changes.
pub open spec fn unload_finished(pre: ChunkStreamer, post: ChunkStreamer, c: ChunkCoord, r: Option<u64>) -> bool {
    if pre.unloads.unloading@.contains(c) {
        &&& post.storage@ == pre.storage@.remove(c.key())
        &&& r == (if pre.storage.resident(c) { Some(pre.storage@[c.key()]) } else { None::<u64> })
        &&& post.unloads.pending == pre.unloads.pending
        &&& forall|x: ChunkCoord| post.unloads.unloading@.contains(x) <==> (pre.unloads.unloading@.contains(x) && x != c)
        &&& post.loads == pre.loads
    } else {
        &&& post.storage@ == pre.storage@
        &&& r.is_none()
        &&& post.unloads == pre.unloads
        &&& post.loads == pre.loads
    }
}

/// What one eviction tick selects: nothing unless a sweep is due and the
/// resident count reaches this mode's threshold; at most the mode's target;
/// only resident chunks that are neither protected nor in flight, with the
/// handle the map holds, in eviction order; and either every such chunk or
/// a full target of chunks that come no later in that order than any left.
pub open spec fn eviction_step(
    pre: ChunkStreamer,
    post: ChunkStreamer,
    now: u64,
    pos: WorldPos,
    cfg: ChunkLoaderConfig,
    r: Seq<(u64, ChunkCoord)>,
) -> bool {
    let (clock, sweep, fast) = eviction_observe(pre.eviction, now, pos);
    let pc = chunk_at(pos);
    let deep = deep_mode(pre.demand, now, pc);
    let count = pre.storage@.len() as int;
    &&& post.eviction == clock
    &&& no_dups(coords_of(r))
    &&& !sweep ==> r.len() == 0
    &&& count < unload_threshold(cfg.cap(), pc, fast, deep) ==> r.len() == 0
    &&& r.len() <= unload_target(unload_budget(cfg.cap(), pc, fast, deep), count, fast)
    &&& forall|i: int| 0 <= i < r.len() ==> evictable(pc, fast, deep, &pre.unloads, (#[trigger] r[i]).1)
        && pre.storage.resident(r[i].1) && pre.storage@[r[i].1.key()] == r[i].0
    &&& forall|i: int, j: int| 0 <= i < j < r.len() ==> evict_key(pc, cfg.radius(), (#[trigger] r[i]).1)
        <= evict_key(pc, cfg.radius(), (#[trigger] r[j]).1)
    &&& (sweep && count >= unload_threshold(cfg.cap(), pc, fast, deep)) ==> forall|c: ChunkCoord|
        pre.storage.resident(c) && evictable(pc, fast, deep, &pre.unloads, c) ==> coords_of(r).contains(c)
        || (r.len() == unload_target(unload_budget(cfg.cap(), pc, fast, deep), count, fast) && forall|i: int| 0 <= i < r.len()
        ==> evict_key(pc, cfg.radius(), (#[trigger] r[i]).1) <= evict_key(pc, cfg.radius(), c))
}

impl ChunkStreamer {
    /// The map holds finitely many chunks; each queue is free of repeats; a chunk in flight for loading is not
    /// resident, and one in flight for unloading is.
    pub open spec fn wf(&self) -> bool {
        &&& self.storage@.dom().finite()
        &&& self.loads.wf()
        &&& self.unloads.wf()
        &&& forall|c: ChunkCoord| self.loads.in_flight(c) ==> !self.storage.resident(c)
        &&& forall|c: ChunkCoord| self.unloads.in_flight(c) ==> self.storage.resident(c)
        &&& self.demand.last.is_some() ==> self.demand.last.unwrap().pos.valid()
        &&& self.eviction.last.is_some() ==> self.eviction.last.unwrap().1.valid()
    }

    pub fn new() -> (r: ChunkStreamer)
        ensures
            r.wf(),
            r.storage@ == Map::<(i32, i32, i32), u64>::empty(),
            r.loads.pending@.len() == 0 && r.loads.generating@.len() == 0,
            r.unloads.pending@.len() == 0 && r.unloads.unloading@.len() == 0,
            r.demand.last.is_none() && r.demand.deep_since.is_none(),
            r.eviction.last.is_none(),
    {
        ChunkStreamer {
            storage: ChunkStorage::new(),
            loads: ChunkLoadQueue::new(),
            unloads: ChunkUnloadQueue::new(),
            demand: DemandClock::new(),
            eviction: EvictionClock::new(),
        }
    }

    /// Asks for one chunk outside the estimator (the world's first area).
    /// It is queued unless it is resident or in flight.
    pub fn request(&mut self, c: ChunkCoord) -> (r: bool)
        requires
            old(self).wf(),
        ensures
            final(self).wf(),
            r == (!old(self).storage.resident(c) && !old(self).loads.in_flight(c)),
            r ==> demand_step(*old(self), *final(self), seq![c]),
            !r ==> *final(self) == *old(self),
    {
        if self.storage.contains(&c) || self.loads.is_in_flight(c) {
            return false;
        }
        let ghost pre = *self;
        self.loads.pending.push(c);
        proof {
            assert(self.loads.pending@ == pre.loads.pending@ + seq![c]);
            assert forall|x: ChunkCoord| self.loads.in_flight(x) implies !self.storage.resident(x) by {
                crate::queues::lemma_push_contains(pre.loads.pending@, c, x);
            }
            assert forall|x: ChunkCoord| self.loads.pending@.contains(x) implies !self.loads.generating@.contains(x) by {
                crate::queues::lemma_push_contains(pre.loads.pending@, c, x);
            }
            assert forall|i: int, j: int| 0 <= i < j < self.loads.pending@.len() implies self.loads.pending@[i]
                != self.loads.pending@[j] by {
                if j == self.loads.pending@.len() - 1 {
                    assert(pre.loads.pending@.contains(self.loads.pending@[i]));
                }
            }
        }
        true
    }

    /// One tick of the demand estimator: looks at the player, and when a
    /// look is due appends the planned chunks to the pending loads.
    pub fn chunk_demand_system(&mut self, now: u64, pos: WorldPos, cfg: &ChunkLoaderConfig) -> (r: DemandOutcome)
        requires
            old(self).wf(),
            pos.valid(),
            now <= TIME_LIMIT,
        ensures
            final(self).wf(),
            (final(self).demand, r.motion) == demand_observe(old(self).demand, now, pos),
            final(self).eviction == old(self).eviction,
            demand_step(*old(self), *final(self), r.queued@),
            !r.motion.should_update ==> r.queued@.len() == 0,
            forall|i: int| 0 <= i < r.queued@.len() ==> demanded(chunk_at(pos), cfg.radius(), r.motion, #[trigger] r.queued@[i]),
            r.motion.should_update ==> forall|c: ChunkCoord| is_critical(chunk_at(pos), r.motion, c)
                ==> final(self).storage.resident(c) || final(self).loads.in_flight(c),
            r.motion.should_update ==> tiers_ordered(
                chunk_at(pos),
                cfg,
                r.motion,
                &old(self).storage,
                &old(self).loads,
                r.queued@,
                r.critical_end as int,
                r.emergency_end as int,
                r.surface_end as int,
            ),
            old(self).storage@.len() >= effective_max(cfg.cap(), chunk_at(pos), r.motion) ==> r.queued@.len()
                == r.critical_end,
            old(self).storage@.len() < effective_max(cfg.cap(), chunk_at(pos), r.motion) ==> r.queued@.len()
                - r.critical_end <= load_budget(cfg, chunk_at(pos), r.motion, old(self).storage@.len() as int),
            r.motion.should_update && old(self).storage@.len() < effective_max(cfg.cap(), chunk_at(pos), r.motion)
                && r.queued@.len() < load_budget(cfg, chunk_at(pos), r.motion, old(self).storage@.len() as int)
                && cfg.quota() >= load_budget(cfg, chunk_at(pos), r.motion, old(self).storage@.len() as int)
                ==> forall|c: ChunkCoord| (in_surface_band(chunk_at(pos), cfg.radius(), c) || in_volume(
                chunk_at(pos),
                cfg.radius(),
                r.motion,
                c,
            )) && !old(self).storage.resident(c) && !old(self).loads.in_flight(c) ==> #[trigger] r.queued@.contains(c),
    {
        let m = self.demand.observe(now, pos);
        if !m.should_update {
            let queued: Vec<ChunkCoord> = Vec::new();
            proof {
                assert(self.loads.pending@ == old(self).loads.pending@ + queued@);
            }
            return DemandOutcome { motion: m, queued, critical_end: 0, emergency_end: 0, surface_end: 0 };
        }
        let pc = chunk_of_pos(pos);
        let count = self.storage.len();
        let lp = plan_loads(pc, m, cfg, count, &self.storage, &self.loads);
        let ce = lp.critical_end;
        let ee = lp.emergency_end;
        let se = lp.surface_end;
        let plan = lp.coords;
        let ghost pre = *self;
        let mut i: usize = 0;
        while i < plan.len()
            invariant
                pre.wf(),
                i <= plan@.len(),
                self.storage == pre.storage,
                self.unloads == pre.unloads,
                self.demand == pre.demand,
                self.eviction == pre.eviction,
                self.loads.generating@ == pre.loads.generating@,
                self.loads.pending@ == pre.loads.pending@ + plan@.subrange(0, i as int),
                no_dups(plan@),
                forall|k: int| 0 <= k < plan@.len() ==> !pre.storage.resident(#[trigger] plan@[k]) && !pre.loads.in_flight(plan@[k]),
            decreases plan@.len() - i,
        {
            self.loads.pending.push(plan[i]);
            proof {
                assert(plan@.subrange(0, i + 1) == plan@.subrange(0, i as int).push(plan@[i as int]));
                assert(self.loads.pending@ == pre.loads.pending@ + plan@.subrange(0, i + 1));
            }
            i = i + 1;
        }
        proof {
            assert(plan@.subrange(0, plan@.len() as int) == plan@);
            let p = self.loads.pending@;
            assert forall|x: ChunkCoord| p.contains(x) <==> (pre.loads.pending@.contains(x) || plan@.contains(x)) by {
                if p.contains(x) {
                    let k = choose|k: int| 0 <= k < p.len() && p[k] == x;
                    if k >= pre.loads.pending@.len() {
                        assert(plan@[k - pre.loads.pending@.len()] == x);
                    }
                }
                if plan@.contains(x) {
                    let k = choose|k: int| 0 <= k < plan@.len() && plan@[k] == x;
                    assert(p[k + pre.loads.pending@.len()] == x);
                }
                if pre.loads.pending@.contains(x) {
                    let k = choose|k: int| 0 <= k < pre.loads.pending@.len() && pre.loads.pending@[k] == x;
                    assert(p[k] == x);
                }
            }
            assert forall|a: int, b: int| 0 <= a < b < p.len() implies p[a] != p[b] by {
                let n = pre.loads.pending@.len();
                if b < n {
                } else if a >= n {
                    assert(plan@[a - n] != plan@[b - n]);
                } else {
                    assert(plan@[b - n] == p[b]);
                    assert(pre.loads.pending@.contains(p[a]));
                }
            }
            assert forall|c: ChunkCoord| is_critical(pc, m, c) implies self.storage.resident(c) || self.loads.in_flight(c) by {
                if !pre.storage.resident(c) && !pre.loads.in_flight(c) {
                    assert(plan@.contains(c));
                } else if pre.loads.pending@.contains(c) {
                    assert(p.contains(c));
                }
            }
        }
        DemandOutcome { motion: m, queued: plan, critical_end: ce, emergency_end: ee, surface_end: se }
    }

    /// Starts generation of up to `MAX_GENERATION_STARTS` pending chunks,
    /// oldest first: they leave the pending list and join the generating set.
    pub fn chunk_generation_system(&mut self) -> (r: Vec<ChunkCoord>)
        requires
            old(self).wf(),
        ensures
            final(self).wf(),
            r@.len() == (if old(self).loads.pending@.len() < MAX_GENERATION_STARTS {
                old(self).loads.pending@.len() as int
            } else {
                MAX_GENERATION_STARTS as int
            }),
            r@ == old(self).loads.pending@.take(r@.len() as int),
            final(self).loads.pending@ == old(self).loads.pending@.skip(r@.len() as int),
            final(self).loads.generating@ == old(self).loads.generating@ + r@,
            final(self).storage == old(self).storage,
            final(self).unloads == old(self).unloads,
            final(self).demand == old(self).demand,
            final(self).eviction == old(self).eviction,
    {
        let ghost pre = *self;
        let total = self.loads.pending.len();
        let n: usize = if total < MAX_GENERATION_STARTS { total } else { MAX_GENERATION_STARTS };
        let mut batch: Vec<ChunkCoord> = Vec::new();
        let mut rest: Vec<ChunkCoord> = Vec::new();
        let mut i: usize = 0;
        while i < total
            invariant
                total == self.loads.pending@.len(),
                *self == pre,
                n <= total,
                i <= total,
                batch@ == self.loads.pending@.take(if i < n { i as int } else { n as int }),
                rest@ == self.loads.pending@.subrange(n as int, if i < n { n as int } else { i as int }),
            decreases total - i,
        {
            let c = self.loads.pending[i];
            if i < n {
                batch.push(c);
                proof {
                    assert(self.loads.pending@.take(i + 1) == self.loads.pending@.take(i as int).push(c));
                }
            } else {
                rest.push(c);
                proof {
                    assert(self.loads.pending@.subrange(n as int, i + 1) == self.loads.pending@.subrange(n as int, i as int).push(c));
                }
            }
            i = i + 1;
        }
        let ghost pend = self.loads.pending@;
        let mut j: usize = 0;
        while j < batch.len()
            invariant
                j <= batch@.len(),
                batch@ == pend.take(n as int),
                self.loads.generating@ == pre.loads.generating@ + batch@.subrange(0, j as int),
                self.storage == pre.storage,
                self.unloads == pre.unloads,
                self.demand == pre.demand,
                self.eviction == pre.eviction,
                self.loads.pending@ == pend,
            decreases batch@.len() - j,
        {
            self.loads.generating.push(batch[j]);
            proof {
                assert(batch@.subrange(0, j + 1) == batch@.subrange(0, j as int).push(batch@[j as int]));
            }
            j = j + 1;
        }
        self.loads.pending = rest;
        proof {
            assert(batch@.subrange(0, batch@.len() as int) == batch@);
            assert(rest@ == pend.skip(n as int));
            assert(pend == batch@ + rest@);
            let g = self.loads.generating@;
            let g0 = pre.loads.generating@;
            assert forall|x: ChunkCoord| g.contains(x) <==> (g0.contains(x) || batch@.contains(x)) by {
                if g.contains(x) {
                    let k = choose|k: int| 0 <= k < g.len() && g[k] == x;
                    if k >= g0.len() {
                        assert(batch@[k - g0.len()] == x);
                    }
                }
                if batch@.contains(x) {
                    let k = choose|k: int| 0 <= k < batch@.len() && batch@[k] == x;
                    assert(g[k + g0.len()] == x);
                }
                if g0.contains(x) {
                    let k = choose|k: int| 0 <= k < g0.len() && g0[k] == x;
                    assert(g[k] == x);
                }
            }
            assert forall|x: ChunkCoord| pend.contains(x) <==> (batch@.contains(x) || rest@.contains(x)) by {
                if pend.contains(x) {
                    let k = choose|k: int| 0 <= k < pend.len() && pend[k] == x;
                    if k < batch@.len() {
                        assert(batch@[k] == x);
                    } else {
                        assert(rest@[k - batch@.len()] == x);
                    }
                }
                if batch@.contains(x) {
                    let k = choose|k: int| 0 <= k < batch@.len() && batch@[k] == x;
                    assert(pend[k] == x);
                }
                if rest@.contains(x) {
                    let k = choose|k: int| 0 <= k < rest@.len() && rest@[k] == x;
                    assert(pend[k + batch@.len()] == x);
                }
            }
            assert forall|a: int, b: int| 0 <= a < b < g.len() implies g[a] != g[b] by {
                let m = g0.len();
                if b < m {
                } else if a >= m {
                    assert(pend[a - m] != pend[b - m]);
                } else {
                    assert(batch@[b - m] == g[b]);
                    assert(pend.contains(g[b]));
                    assert(g0.contains(g[a]));
                }
            }
            assert forall|a: int, b: int| 0 <= a < b < rest@.len() implies rest@[a] != rest@[b] by {
                assert(rest@[a] == pend[a + batch@.len()]);
                assert(rest@[b] == pend[b + batch@.len()]);
            }
            assert forall|x: ChunkCoord| rest@.contains(x) implies !g.contains(x) by {
                let k = choose|k: int| 0 <= k < rest@.len() && rest@[k] == x;
                assert(pend[k + batch@.len()] == x);
                if batch@.contains(x) {
                    let k2 = choose|k2: int| 0 <= k2 < batch@.len() && batch@[k2] == x;
                    assert(pend[k2] == x);
                }
                assert(pend.contains(x));
            }
        }
        batch
    }

    /// Takes in one finished generation: when `c` is being generated, its
    /// chunk becomes resident under `handle` and leaves the in-flight set.
    /// Anything else is ignored.
    pub fn chunk_completion_system(&mut self, c: ChunkCoord, handle: u64) -> (r: bool)
        requires
            old(self).wf(),
        ensures
            final(self).wf(),
            r == old(self).loads.generating@.contains(c),
            r ==> final(self).storage@ == old(self).storage@.insert(c.key(), handle),
            r ==> forall|x: ChunkCoord| final(self).loads.generating@.contains(x) <==> (old(self).loads.generating@.contains(x) && x != c),
            r ==> final(self).loads.pending == old(self).loads.pending,
            !r ==> final(self).storage@ == old(self).storage@ && final(self).loads == old(self).loads,
            final(self).unloads == old(self).unloads,
            final(self).demand == old(self).demand,
            final(self).eviction == old(self).eviction,
    {
        if !self.loads.is_generating(c) {
            return false;
        }
        let ghost pre = *self;
        self.storage.insert(c, handle);
        remove_coord(&mut self.loads.generating, c);
        proof {
            assert forall|x: ChunkCoord| self.loads.in_flight(x) implies !self.storage.resident(x) by {
                if x.key() == c.key() {
                    assert(x == c);
                    assert(!pre.loads.pending@.contains(c));
                } else {
                    assert(pre.loads.in_flight(x));
                    assert(!pre.storage.resident(x));
                }
            }
            assert forall|x: ChunkCoord| self.unloads.in_flight(x) implies self.storage.resident(x) by {
                assert(pre.storage.resident(x));
            }
        }
        true
    }

    /// Puts a chunk whose generation failed back at the end of the pending
    /// loads, so it is tried again. Anything not being generated is ignored.
    pub fn requeue_generation(&mut self, c: ChunkCoord) -> (r: bool)
        requires
            old(self).wf(),
        ensures
            final(self).wf(),
            r == old(self).loads.generating@.contains(c),
            r ==> final(self).loads.pending@ == old(self).loads.pending@.push(c),
            r ==> forall|x: ChunkCoord| final(self).loads.generating@.contains(x) <==> (old(self).loads.generating@.contains(x) && x != c),
            !r ==> final(self).loads == old(self).loads,
            final(self).storage == old(self).storage,
            final(self).unloads == old(self).unloads,
            final(self).demand == old(self).demand,
            final(self).eviction == old(self).eviction,
    {
        if !self.loads.is_generating(c) {
            return false;
        }
        let ghost pre = *self;
        remove_coord(&mut self.loads.generating, c);
        self.loads.pending.push(c);
        proof {
            assert forall|x: ChunkCoord| self.loads.in_flight(x) implies !self.storage.resident(x) by {
                crate::queues::lemma_push_contains(pre.loads.pending@, c, x);
                assert(pre.loads.in_flight(x));
            }
            assert(!pre.loads.pending@.contains(c));
            assert forall|x: ChunkCoord| self.loads.pending@.contains(x) implies !self.loads.generating@.contains(x) by {
                crate::queues::lemma_push_contains(pre.loads.pending@, c, x);
            }
            assert forall|i: int, j: int| 0 <= i < j < self.loads.pending@.len() implies self.loads.pending@[i]
                != self.loads.pending@[j] by {
                if j == self.loads.pending@.len() - 1 {
                    assert(pre.loads.pending@.contains(self.loads.pending@[i]));
                }
            }
        }
        true
    }

    /// One tick of the eviction detector: when a sweep is due, appends the
    /// planned evictions to the pending unloads.
    pub fn chunk_unload_detection_system(&mut self, now: u64, pos: WorldPos, cfg: &ChunkLoaderConfig) -> (r: Vec<(u64, ChunkCoord)>)
        requires
            old(self).wf(),
            pos.valid(),
            now <= TIME_LIMIT,
        ensures
            final(self).wf(),
            eviction_step(*old(self), *final(self), now, pos, *cfg, r@),
            final(self).unloads.pending@ == old(self).unloads.pending@ + r@,
            final(self).unloads.unloading == old(self).unloads.unloading,
            final(self).storage == old(self).storage,
            final(self).loads == old(self).loads,
            final(self).demand == old(self).demand,
    {
        let (sweep, fast) = self.eviction.observe(now, pos);
        if !sweep {
            let none: Vec<(u64, ChunkCoord)> = Vec::new();
            proof {
                assert(self.unloads.pending@ == old(self).unloads.pending@ + none@);
            }
            return none;
        }
        let pc = chunk_of_pos(pos);
        let deep = match self.demand.deep_since {
            Some(t) => pc.y < 0 && (if now >= t { now - t } else { 0 }) >= DEEP_UNDERGROUND_MS,
            None => false,
        };
        let entries = self.storage.entries();
        let plan = plan_evictions(pc, fast, deep, cfg, &entries, &self.unloads);
        let ghost pre = *self;
        proof {
            assert forall|i: int| 0 <= i < plan@.len() implies pre.storage.resident((#[trigger] plan@[i]).1)
                && pre.storage@[plan@[i].1.key()] == plan@[i].0 by {
                let j = choose|j: int| 0 <= j < entries@.len() && entries@[j] == (plan@[i].1, plan@[i].0);
                assert(pre.storage.resident(entries@[j].0));
            }
            assert forall|c: ChunkCoord| pre.storage.resident(c) && evictable(pc, fast, deep, &pre.unloads, c)
                && pre.storage@.len() >= unload_threshold(cfg.cap(), pc, fast, deep) implies coords_of(plan@).contains(c)
                || (plan@.len() == unload_target(unload_budget(cfg.cap(), pc, fast, deep), pre.storage@.len() as int, fast) && forall|i: int| 0 <= i < plan@.len()
                ==> evict_key(pc, cfg.radius(), (#[trigger] plan@[i]).1) <= evict_key(pc, cfg.radius(), c)) by {
                let j = choose|j: int| 0 <= j < entries@.len() && #[trigger] entries@[j].0 == c;
                assert(evictable(pc, fast, deep, &pre.unloads, entries@[j].0));
            }
        }
        let mut i: usize = 0;
        while i < plan.len()
            invariant
                pre.wf(),
                i <= plan@.len(),
                self.storage == pre.storage,
                self.loads == pre.loads,
                self.demand == pre.demand,
                self.eviction == pre.eviction,
                self.unloads.unloading == pre.unloads.unloading,
                self.unloads.pending@ == pre.unloads.pending@ + plan@.subrange(0, i as int),
            decreases plan@.len() - i,
        {
            self.unloads.pending.push(plan[i]);
            proof {
                assert(plan@.subrange(0, i + 1) == plan@.subrange(0, i as int).push(plan@[i as int]));
            }
            i = i + 1;
        }
        proof {
            assert(plan@.subrange(0, plan@.len() as int) == plan@);
            let p = coords_of(self.unloads.pending@);
            let before_coords = coords_of(pre.unloads.pending@);
            let q = coords_of(plan@);
            assert(p == before_coords + q);
            assert forall|x: ChunkCoord| p.contains(x) <==> (before_coords.contains(x) || q.contains(x)) by {
                if p.contains(x) {
                    let k = choose|k: int| 0 <= k < p.len() && p[k] == x;
                    if k >= before_coords.len() {
                        assert(q[k - before_coords.len()] == x);
                    }
                }
                if q.contains(x) {
                    let k = choose|k: int| 0 <= k < q.len() && q[k] == x;
                    assert(p[k + before_coords.len()] == x);
                }
                if before_coords.contains(x) {
                    let k = choose|k: int| 0 <= k < before_coords.len() && before_coords[k] == x;
                    assert(p[k] == x);
                }
            }
            assert forall|x: ChunkCoord| q.contains(x) implies pre.storage.resident(x) && !pre.unloads.in_flight(x) by {
                let k = choose|k: int| 0 <= k < q.len() && q[k] == x;
                assert(plan@[k].1 == x);
            }
            assert forall|a: int, b: int| 0 <= a < b < p.len() implies p[a] != p[b] by {
                let n = before_coords.len();
                if b < n {
                } else if a >= n {
                    assert(q[a - n] != q[b - n]);
                } else {
                    assert(q[b - n] == p[b]);
                    assert(q.contains(p[b]));
                    assert(before_coords.contains(p[a]));
                }
            }
        }
        plan
    }

    /// Starts teardown of up to `MAX_UNLOAD_STARTS` pending evictions, oldest
    /// first: they leave the pending list and their chunks join the
    /// unloading set.
    pub fn chunk_unload_system(&mut self) -> (r: Vec<(u64, ChunkCoord)>)
        requires
            old(self).wf(),
        ensures
            final(self).wf(),
            r@.len() == (if old(self).unloads.pending@.len() < MAX_UNLOAD_STARTS {
                old(self).unloads.pending@.len() as int
            } else {
                MAX_UNLOAD_STARTS as int
            }),
            r@ == old(self).unloads.pending@.take(r@.len() as int),
            final(self).unloads.pending@ == old(self).unloads.pending@.skip(r@.len() as int),
            final(self).unloads.unloading@ == old(self).unloads.unloading@ + coords_of(r@),
            final(self).storage == old(self).storage,
            final(self).loads == old(self).loads,
            final(self).demand == old(self).demand,
            final(self).eviction == old(self).eviction,
    {
        let ghost pre = *self;
        let total = self.unloads.pending.len();
        let n: usize = if total < MAX_UNLOAD_STARTS { total } else { MAX_UNLOAD_STARTS };
        let mut batch: Vec<(u64, ChunkCoord)> = Vec::new();
        let mut rest: Vec<(u64, ChunkCoord)> = Vec::new();
        let mut i: usize = 0;
        while i < total
            invariant
                total == self.unloads.pending@.len(),
                *self == pre,
                n <= total,
                i <= total,
                batch@ == self.unloads.pending@.take(if i < n { i as int } else { n as int }),
                rest@ == self.unloads.pending@.subrange(n as int, if i < n { n as int } else { i as int }),
            decreases total - i,
        {
            let e = self.unloads.pending[i];
            if i < n {
                batch.push(e);
                proof {
                    assert(self.unloads.pending@.take(i + 1) == self.unloads.pending@.take(i as int).push(e));
                }
            } else {
                rest.push(e);
                proof {
                    assert(self.unloads.pending@.subrange(n as int, i + 1) == self.unloads.pending@.subrange(n as int, i as int).push(e));
                }
            }
            i = i + 1;
        }
        let ghost pend = self.unloads.pending@;
        let mut j: usize = 0;
        while j < batch.len()
            invariant
                j <= batch@.len(),
                batch@ == pend.take(n as int),
                self.unloads.unloading@ == pre.unloads.unloading@ + coords_of(batch@.subrange(0, j as int)),
                self.storage == pre.storage,
                self.loads == pre.loads,
                self.demand == pre.demand,
                self.eviction == pre.eviction,
                self.unloads.pending@ == pend,
            decreases batch@.len() - j,
        {
            self.unloads.unloading.push(batch[j].1);
            proof {
                assert(batch@.subrange(0, j + 1) == batch@.subrange(0, j as int).push(batch@[j as int]));
                assert(coords_of(batch@.subrange(0, j + 1)) == coords_of(batch@.subrange(0, j as int)).push(batch@[j as int].1));
            }
            j = j + 1;
        }
        self.unloads.pending = rest;
        proof {
            assert(batch@.subrange(0, batch@.len() as int) == batch@);
            assert(rest@ == pend.skip(n as int));
            assert(pend == batch@ + rest@);
            let cp = coords_of(pend);
            let cb = coords_of(batch@);
            let cr = coords_of(rest@);
            assert(cp == cb + cr);
            let g = self.unloads.unloading@;
            let g0 = pre.unloads.unloading@;
            assert forall|x: ChunkCoord| g.contains(x) <==> (g0.contains(x) || cb.contains(x)) by {
                if g.contains(x) {
                    let k = choose|k: int| 0 <= k < g.len() && g[k] == x;
                    if k >= g0.len() {
                        assert(cb[k - g0.len()] == x);
                    }
                }
                if cb.contains(x) {
                    let k = choose|k: int| 0 <= k < cb.len() && cb[k] == x;
                    assert(g[k + g0.len()] == x);
                }
                if g0.contains(x) {
                    let k = choose|k: int| 0 <= k < g0.len() && g0[k] == x;
                    assert(g[k] == x);
                }
            }
            assert forall|x: ChunkCoord| cp.contains(x) <==> (cb.contains(x) || cr.contains(x)) by {
                if cp.contains(x) {
                    let k = choose|k: int| 0 <= k < cp.len() && cp[k] == x;
                    if k < cb.len() {
                        assert(cb[k] == x);
                    } else {
                        assert(cr[k - cb.len()] == x);
                    }
                }
                if cb.contains(x) {
                    let k = choose|k: int| 0 <= k < cb.len() && cb[k] == x;
                    assert(cp[k] == x);
                }
                if cr.contains(x) {
                    let k = choose|k: int| 0 <= k < cr.len() && cr[k] == x;
                    assert(cp[k + cb.len()] == x);
                }
            }
            assert forall|a: int, b: int| 0 <= a < b < g.len() implies g[a] != g[b] by {
                let m = g0.len();
                if b < m {
                } else if a >= m {
                    assert(cp[a - m] != cp[b - m]);
                } else {
                    assert(cb[b - m] == g[b]);
                    assert(cp.contains(g[b]));
                    assert(g0.contains(g[a]));
                }
            }
            assert forall|a: int, b: int| 0 <= a < b < cr.len() implies cr[a] != cr[b] by {
                assert(cr[a] == cp[a + cb.len()]);
                assert(cr[b] == cp[b + cb.len()]);
            }
            assert forall|x: ChunkCoord| cr.contains(x) implies !g.contains(x) by {
                let k = choose|k: int| 0 <= k < cr.len() && cr[k] == x;
                assert(cp[k + cb.len()] == x);
                if cb.contains(x) {
                    let k2 = choose|k2: int| 0 <= k2 < cb.len() && cb[k2] == x;
                    assert(cp[k2] == x);
                }
                assert(cp.contains(x));
            }
        }
        batch
    }

    /// Takes in one finished teardown: when `c` is being unloaded, it leaves
    /// the map and the unloading set, and the handle that the map held for
    /// it comes back. Anything else is ignored.
    pub fn chunk_unload_completion_system(&mut self, c: ChunkCoord) -> (r: Option<u64>)
        requires
            old(self).wf(),
        ensures
            final(self).wf(),
            unload_finished(*old(self), *final(self), c, r),
            final(self).demand == old(self).demand,
            final(self).eviction == old(self).eviction,
    {
        if !crate::queues::contains_coord(&self.unloads.unloading, c) {
            return None;
        }
        let ghost pre = *self;
        let r = self.storage.remove(&c);
        remove_coord(&mut self.unloads.unloading, c);
        proof {
            assert forall|x: ChunkCoord| self.loads.in_flight(x) implies !self.storage.resident(x) by {
                assert(pre.loads.in_flight(x));
            }
            assert forall|x: ChunkCoord| self.unloads.in_flight(x) implies self.storage.resident(x) by {
                assert(pre.unloads.in_flight(x));
                assert(pre.storage.resident(x));
                if x.key() == c.key() {
                    assert(x == c);
                    assert(!coords_of(pre.unloads.pending@).contains(c));
                }
            }
            assert forall|x: ChunkCoord| coords_of(self.unloads.pending@).contains(x) implies !self.unloads.unloading@.contains(x) by {
                assert(!pre.unloads.unloading@.contains(x));
            }
        }
        r
    }

}

} // verus!
