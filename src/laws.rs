use vstd::prelude::*;
use crate::coord::ChunkCoord;
use crate::demand::{effective_max, is_critical, ChunkLoaderConfig, Motion};
use crate::eviction::{evictable, unload_budget, unload_target, unload_threshold};
use crate::motion::{chunk_at, eviction_observe, WorldPos};
use crate::queues::{coords_of, no_dups};
use crate::streamer::{deep_mode, demand_step, eviction_step, unload_finished, ChunkStreamer};

verus! {

/// A chunk is never both in flight for loading and resident, in any
/// well-formed state; every operation of the streamer keeps its state
/// well formed.
pub proof fn lemma_load_exclusive(s: ChunkStreamer, c: ChunkCoord)
    requires
        s.wf(),
    ensures
        !(s.loads.generating@.contains(c) && s.storage.resident(c)),
        !(s.loads.pending@.contains(c) && s.storage.resident(c)),
{
}

/// The player's chunk and the column below it are resident or in flight.
pub open spec fn ground_covered(s: ChunkStreamer, pc: ChunkCoord, m: Motion) -> bool {
    forall|c: ChunkCoord| is_critical(pc, m, c) ==> s.storage.resident(c) || s.loads.in_flight(c)
}

/// Starting generation keeps the ground covered: chunks move from the
/// pending list to the generating set and nothing else changes.
pub proof fn lemma_ground_kept_by_dispatch(pre: ChunkStreamer, post: ChunkStreamer, n: int, pc: ChunkCoord, m: Motion)
    requires
        ground_covered(pre, pc, m),
        0 <= n <= pre.loads.pending@.len(),
        post.loads.pending@ == pre.loads.pending@.skip(n),
        post.loads.generating@ == pre.loads.generating@ + pre.loads.pending@.take(n),
        post.storage == pre.storage,
    ensures
        ground_covered(post, pc, m),
{
    assert forall|c: ChunkCoord| is_critical(pc, m, c) implies post.storage.resident(c) || post.loads.in_flight(c) by {
        if !pre.storage.resident(c) {
            if pre.loads.pending@.contains(c) {
                let k = choose|k: int| 0 <= k < pre.loads.pending@.len() && pre.loads.pending@[k] == c;
                if k < n {
                    assert(post.loads.generating@[pre.loads.generating@.len() + k] == c);
                } else {
                    assert(post.loads.pending@[k - n] == c);
                }
            } else {
                let k = choose|k: int| 0 <= k < pre.loads.generating@.len() && pre.loads.generating@[k] == c;
                assert(post.loads.generating@[k] == c);
            }
        }
    }
}

/// Taking in a finished generation keeps the ground covered: the chunk
/// that leaves the generating set becomes resident.
pub proof fn lemma_ground_kept_by_completion(
    pre: ChunkStreamer,
    post: ChunkStreamer,
    g: ChunkCoord,
    handle: u64,
    pc: ChunkCoord,
    m: Motion,
)
    requires
        ground_covered(pre, pc, m),
        pre.loads.generating@.contains(g),
        post.storage@ == pre.storage@.insert(g.key(), handle),
        forall|x: ChunkCoord| post.loads.generating@.contains(x) <==> (pre.loads.generating@.contains(x) && x != g),
        post.loads.pending == pre.loads.pending,
    ensures
        ground_covered(post, pc, m),
{
    assert forall|c: ChunkCoord| is_critical(pc, m, c) implies post.storage.resident(c) || post.loads.in_flight(c) by {
        if c == g {
            assert(post.storage@.contains_key(g.key()));
        } else if pre.storage.resident(c) {
            assert(post.storage@.contains_key(c.key()));
        }
    }
}

/// Two demand passes, with no time passing or any other one, never queue a
/// coordinate twice: the second pass queues nothing that the first did,
/// and the pending list stays free of repeats.
pub proof fn lemma_demand_no_duplicates(
    s0: ChunkStreamer,
    s1: ChunkStreamer,
    s2: ChunkStreamer,
    q1: Seq<ChunkCoord>,
    q2: Seq<ChunkCoord>,
)
    requires
        s0.wf(),
        s1.wf(),
        demand_step(s0, s1, q1),
        demand_step(s1, s2, q2),
    ensures
        no_dups(s2.loads.pending@),
        forall|c: ChunkCoord| q2.contains(c) ==> !q1.contains(c),
{
    assert forall|c: ChunkCoord| q2.contains(c) implies !q1.contains(c) by {
        let k = choose|k: int| 0 <= k < q2.len() && q2[k] == c;
        assert(!s1.loads.in_flight(q2[k]));
        if q1.contains(c) {
            let j = choose|j: int| 0 <= j < q1.len() && q1[j] == c;
            assert(s1.loads.pending@[s0.loads.pending@.len() + j] == c);
        }
    }
    let first_pending = s1.loads.pending@;
    let second_pending = s2.loads.pending@;
    assert forall|a: int, b: int| 0 <= a < b < second_pending.len() implies second_pending[a] != second_pending[b] by {
        let n = first_pending.len();
        if b < n {
            assert(first_pending[a] != first_pending[b]);
        } else if a >= n {
            assert(q2[a - n] != q2[b - n]);
        } else {
            assert(second_pending[b] == q2[b - n]);
            assert(!s1.loads.in_flight(q2[b - n]));
            assert(first_pending.contains(first_pending[a]));
        }
    }
}

/// Eviction restores the budget: on a due sweep at normal speed with more
/// resident chunks than the estimator's effective max for the mode (its
/// cap, the below-ground limit or the deep-underground limit), either the
/// queued evictions bring the count down to 90% of that budget, or every
/// resident chunk that may be evicted is queued.
pub proof fn lemma_budget_restored(
    pre: ChunkStreamer,
    post: ChunkStreamer,
    now: u64,
    pos: WorldPos,
    cfg: ChunkLoaderConfig,
    r: Seq<(u64, ChunkCoord)>,
)
    requires
        eviction_step(pre, post, now, pos, cfg, r),
        eviction_observe(pre.eviction, now, pos).1,
        !eviction_observe(pre.eviction, now, pos).2,
        pre.storage@.len() > unload_budget(cfg.cap(), chunk_at(pos), false, deep_mode(pre.demand, now, chunk_at(pos))),
    ensures
        forall|m: Motion| !m.fast_moving && !m.emergency && m.deep_long == deep_mode(pre.demand, now, chunk_at(pos))
            ==> #[trigger] effective_max(cfg.cap(), chunk_at(pos), m) == unload_budget(
            cfg.cap(),
            chunk_at(pos),
            false,
            deep_mode(pre.demand, now, chunk_at(pos)),
        ),
        pre.storage@.len() - r.len() <= unload_budget(cfg.cap(), chunk_at(pos), false, deep_mode(pre.demand, now, chunk_at(pos)))
            || forall|c: ChunkCoord| pre.storage.resident(c) && evictable(
            chunk_at(pos),
            false,
            deep_mode(pre.demand, now, chunk_at(pos)),
            &pre.unloads,
            c,
        ) ==> #[trigger] coords_of(r).contains(c),
{
    let pc = chunk_at(pos);
    let deep = deep_mode(pre.demand, now, pc);
    let b = unload_budget(cfg.cap(), pc, false, deep);
    assert(cfg.cap() * 9 / 10 <= cfg.cap()) by (nonlinear_arith)
        requires
            cfg.cap() >= 0,
    ;
    assert(b * 9 / 10 <= b) by (nonlinear_arith)
        requires
            b >= 0,
    ;
    assert(pre.storage@.len() >= unload_threshold(cfg.cap(), pc, false, deep));
}

/// Eviction never selects the player's chunk or the three chunks under it.
pub proof fn lemma_ground_never_evicted(
    pre: ChunkStreamer,
    post: ChunkStreamer,
    now: u64,
    pos: WorldPos,
    cfg: ChunkLoaderConfig,
    r: Seq<(u64, ChunkCoord)>,
)
    requires
        eviction_step(pre, post, now, pos, cfg, r),
    ensures
        forall|i: int| 0 <= i < r.len() ==> !is_critical(chunk_at(pos), ground_motion(), (#[trigger] r[i]).1),
{
}

/// The motion under which the critical column is three chunks deep.
pub open spec fn ground_motion() -> Motion {
    Motion { should_update: true, fast_moving: false, emergency: false, falling_fast: false, deep_long: false }
}

/// Finishing a teardown keeps the ground covered: eviction never takes a
/// chunk of the three-deep column under the player.
pub proof fn lemma_ground_kept_by_unload(
    pre: ChunkStreamer,
    post: ChunkStreamer,
    c: ChunkCoord,
    r: Option<u64>,
    pc: ChunkCoord,
)
    requires
        ground_covered(pre, pc, ground_motion()),
        unload_finished(pre, post, c, r),
        !is_critical(pc, ground_motion(), c),
    ensures
        ground_covered(post, pc, ground_motion()),
{
    assert forall|d: ChunkCoord| is_critical(pc, ground_motion(), d) implies post.storage.resident(d) || post.loads.in_flight(d) by {
        if pre.storage.resident(d) && pre.unloads.unloading@.contains(c) {
            assert(d.key() != c.key());
            assert(post.storage@.contains_key(d.key()));
        }
    }
}

/// A due sweep at or over its threshold that has at least its target of
/// resident chunks it may evict selects exactly its target: on overflow
/// at normal speed above ground, down to 90% of the cap.
pub proof fn lemma_sweep_meets_target(
    pre: ChunkStreamer,
    post: ChunkStreamer,
    now: u64,
    pos: WorldPos,
    cfg: ChunkLoaderConfig,
    r: Seq<(u64, ChunkCoord)>,
    eligible: Set<ChunkCoord>,
)
    requires
        eviction_step(pre, post, now, pos, cfg, r),
        eviction_observe(pre.eviction, now, pos).1,
        pre.storage@.len() >= unload_threshold(
            cfg.cap(),
            chunk_at(pos),
            eviction_observe(pre.eviction, now, pos).2,
            deep_mode(pre.demand, now, chunk_at(pos)),
        ),
        eligible.finite(),
        forall|c: ChunkCoord| #[trigger] eligible.contains(c) ==> pre.storage.resident(c) && evictable(
            chunk_at(pos),
            eviction_observe(pre.eviction, now, pos).2,
            deep_mode(pre.demand, now, chunk_at(pos)),
            &pre.unloads,
            c,
        ),
        eligible.len() >= unload_target(
            unload_budget(
                cfg.cap(),
                chunk_at(pos),
                eviction_observe(pre.eviction, now, pos).2,
                deep_mode(pre.demand, now, chunk_at(pos)),
            ),
            pre.storage@.len() as int,
            eviction_observe(pre.eviction, now, pos).2,
        ),
    ensures
        r.len() == unload_target(
            unload_budget(
                cfg.cap(),
                chunk_at(pos),
                eviction_observe(pre.eviction, now, pos).2,
                deep_mode(pre.demand, now, chunk_at(pos)),
            ),
            pre.storage@.len() as int,
            eviction_observe(pre.eviction, now, pos).2,
        ),
{
    let fast = eviction_observe(pre.eviction, now, pos).2;
    let pc = chunk_at(pos);
    let deep = deep_mode(pre.demand, now, pc);
    let target = unload_target(unload_budget(cfg.cap(), pc, fast, deep), pre.storage@.len() as int, fast);
    if r.len() != target {
        let cs = coords_of(r);
        assert(cs.no_duplicates());
        cs.unique_seq_to_set();
        assert(eligible.subset_of(cs.to_set())) by {
            assert forall|c: ChunkCoord| eligible.contains(c) implies cs.to_set().contains(c) by {
                assert(cs.contains(c));
            }
        }
        vstd::seq_lib::seq_to_set_is_finite(cs);
        vstd::set_lib::lemma_len_subset(eligible, cs.to_set());
    }
}

/// A chunk's teardown completes at most once: a second completion for the
/// same coordinate, with no new load in between, frees nothing and changes
/// nothing.
pub proof fn lemma_no_double_free(
    s0: ChunkStreamer,
    s1: ChunkStreamer,
    s2: ChunkStreamer,
    c: ChunkCoord,
    r1: Option<u64>,
    r2: Option<u64>,
)
    requires
        s0.wf(),
        unload_finished(s0, s1, c, r1),
        unload_finished(s1, s2, c, r2),
    ensures
        r2.is_none(),
        s2.storage@ == s1.storage@,
        r1.is_some() ==> !s2.storage.resident(c),
{
}

} // verus!
