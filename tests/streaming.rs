use voxel_stream::coord::ChunkCoord;
use voxel_stream::demand::ChunkLoaderConfig;
use voxel_stream::motion::WorldPos;
use voxel_stream::streamer::ChunkStreamer;
use voxel_stream::workers::ChunkGenerationThreadPool;

fn c(x: i32, y: i32, z: i32) -> ChunkCoord {
    ChunkCoord::new(x, y, z)
}

fn pos_blocks(x: i64, y: i64, z: i64) -> WorldPos {
    WorldPos { x: x * 1000 + 500, y: y * 1000 + 500, z: z * 1000 + 500 }
}

fn small_config(cap: usize) -> ChunkLoaderConfig {
    ChunkLoaderConfig {
        max_loaded_chunks: cap,
        surface_priority_quota: cap,
        sphere_loading_radius: 4,
        max_chunks_per_frame: 3,
    }
}

/// Makes `coords` resident through the load pipeline, handing out handles
/// from 1 up.
fn make_resident(s: &mut ChunkStreamer, coords: &[ChunkCoord]) {
    for (i, &k) in coords.iter().enumerate() {
        assert!(s.request(k));
        let batch = s.chunk_generation_system();
        assert_eq!(batch, vec![k]);
        assert!(s.chunk_completion_system(k, i as u64 + 1));
    }
}

fn in_flight_or_resident(s: &ChunkStreamer, k: ChunkCoord) -> bool {
    s.storage.contains(&k) || s.loads.is_in_flight(k)
}

#[test]
fn stationary_player_gets_ground_column() {
    let mut s = ChunkStreamer::new();
    let cfg = ChunkLoaderConfig::default();
    let out = s.chunk_demand_system(0, pos_blocks(3, 3, 3), &cfg);
    assert!(out.motion.should_update);
    for y in [0, -1, -2, -3] {
        assert!(out.queued.contains(&c(0, y, 0)));
    }
    assert_eq!(&out.queued[..4], &[c(0, 0, 0), c(0, -1, 0), c(0, -2, 0), c(0, -3, 0)]);
    let batch = s.chunk_generation_system();
    assert_eq!(batch.len(), 16);
    for y in [0, -1, -2, -3] {
        assert!(in_flight_or_resident(&s, c(0, y, 0)));
    }
    assert!(s.chunk_completion_system(c(0, 0, 0), 7));
    assert_eq!(s.storage.get(&c(0, 0, 0)), Some(7));
    for y in [0, -1, -2, -3] {
        assert!(in_flight_or_resident(&s, c(0, y, 0)));
    }
}

#[test]
fn at_cap_queues_nothing() {
    let mut s = ChunkStreamer::new();
    let cfg = small_config(20);
    let mut coords = vec![c(0, 0, 0), c(0, -1, 0), c(0, -2, 0), c(0, -3, 0)];
    for i in 0..16 {
        coords.push(c(100 + i, 0, 100));
    }
    make_resident(&mut s, &coords);
    assert_eq!(s.storage.len(), 20);
    let out = s.chunk_demand_system(0, pos_blocks(1, 1, 1), &cfg);
    assert!(out.motion.should_update);
    assert!(out.queued.is_empty());
    assert!(s.loads.pending().is_empty());
}

#[test]
fn overflow_evicts_down_to_ninety_percent() {
    let mut s = ChunkStreamer::new();
    let cfg = small_config(20);
    let mut coords = vec![c(0, 0, 0), c(1, 0, 0)];
    for i in 0..14 {
        coords.push(c(10 + i, 20, 0));
    }
    for i in 0..14 {
        coords.push(c(10 + i, 1, 0));
    }
    make_resident(&mut s, &coords);
    assert_eq!(s.storage.len(), 30);
    let picked = s.chunk_unload_detection_system(0, pos_blocks(1, 1, 1), &cfg);
    assert_eq!(picked.len(), 12);
    assert_eq!(s.storage.len() - picked.len(), 18);
    for (_, k) in &picked {
        assert_ne!(*k, c(0, 0, 0));
        assert_ne!(*k, c(1, 0, 0));
        assert_eq!(k.y, 20);
    }
    let xs: Vec<i32> = picked.iter().map(|(_, k)| k.x).collect();
    let expected: Vec<i32> = (12..24).rev().collect();
    assert_eq!(xs, expected);
    for (h, k) in &picked {
        assert_eq!(s.storage.get(k), Some(*h));
    }
    assert_eq!(s.unloads.pending().len(), 12);
}

#[test]
fn fast_fall_extends_ground_column() {
    let mut s = ChunkStreamer::new();
    let cfg = ChunkLoaderConfig::default();
    let first = s.chunk_demand_system(0, WorldPos { x: 500, y: 20000, z: 500 }, &cfg);
    assert!(!first.motion.falling_fast);
    let out = s.chunk_demand_system(1000, WorldPos { x: 500, y: 9000, z: 500 }, &cfg);
    assert!(out.motion.should_update);
    assert!(out.motion.falling_fast);
    for d in 0..=8 {
        assert!(in_flight_or_resident(&s, c(0, -d, 0)), "depth {}", d);
    }
    assert!(out.queued.contains(&c(0, -8, 0)));
}

#[test]
fn long_deep_underground_collapses_budget() {
    let mut s = ChunkStreamer::new();
    let cfg = ChunkLoaderConfig::default();
    let p = WorldPos { x: 500, y: -40000, z: 500 };
    let mut t: u64 = 0;
    let out = s.chunk_demand_system(t, p, &cfg);
    assert!(!out.motion.deep_long);
    while t < 30000 {
        t += 1000;
        let out = s.chunk_demand_system(t, p, &cfg);
        assert_eq!(out.motion.deep_long, t >= 30000);
    }
    let pc = c(0, -2, 0);
    let mut essential = vec![];
    for dx in -1..=1 {
        for dz in -1..=1 {
            essential.push(c(dx, -2, dz));
        }
    }
    for d in 1..=3 {
        essential.push(c(0, -2 - d, 0));
    }
    assert_eq!(essential.len(), 12);
    let mut s2 = ChunkStreamer::new();
    s2.demand = s.demand;
    let mut coords: Vec<ChunkCoord> = essential.clone();
    for i in 0..60 {
        coords.push(c(50 + i, -2, 0));
    }
    make_resident(&mut s2, &coords);
    assert_eq!(s2.storage.len(), 72);
    let out = s2.chunk_demand_system(t + 1000, p, &cfg);
    assert!(out.motion.deep_long);
    assert!(out.queued.is_empty());
    let picked = s2.chunk_unload_detection_system(t + 1000, p, &cfg);
    assert_eq!(picked.len(), 27);
    assert_eq!(s2.storage.len() - picked.len(), 45);
    for (_, k) in &picked {
        assert!(!essential.contains(k));
        assert_ne!(*k, pc);
    }
}

#[test]
fn in_flight_coordinate_is_not_queued_again() {
    let mut s = ChunkStreamer::new();
    let cfg = ChunkLoaderConfig::default();
    assert!(s.request(c(0, -1, 0)));
    assert!(!s.request(c(0, -1, 0)));
    let out = s.chunk_demand_system(0, pos_blocks(1, 1, 1), &cfg);
    assert!(!out.queued.contains(&c(0, -1, 0)));
    let n = s.loads.pending().iter().filter(|&&k| k == c(0, -1, 0)).count();
    assert_eq!(n, 1);
}

#[test]
fn demand_twice_in_one_tick_adds_no_duplicates() {
    let mut s = ChunkStreamer::new();
    let cfg = ChunkLoaderConfig::default();
    let first = s.chunk_demand_system(0, pos_blocks(2, 2, 2), &cfg);
    assert!(!first.queued.is_empty());
    let second = s.chunk_demand_system(0, pos_blocks(2, 2, 2), &cfg);
    assert!(second.queued.is_empty());
    let pending = s.loads.pending();
    for i in 0..pending.len() {
        for j in i + 1..pending.len() {
            assert_ne!(pending[i], pending[j]);
        }
    }
}

#[test]
fn no_coordinate_both_generating_and_resident() {
    let mut s = ChunkStreamer::new();
    let cfg = ChunkLoaderConfig::default();
    s.chunk_demand_system(0, pos_blocks(0, 0, 0), &cfg);
    let batch = s.chunk_generation_system();
    for (i, k) in batch.iter().enumerate().take(5) {
        assert!(s.chunk_completion_system(*k, i as u64));
    }
    assert!(!s.chunk_completion_system(batch[0], 99));
    s.chunk_demand_system(2000, pos_blocks(0, 0, 0), &cfg);
    for k in s.loads.generating().iter().chain(s.loads.pending().iter()) {
        assert!(!s.storage.contains(k));
    }
}

#[test]
fn unload_completes_once() {
    let mut s = ChunkStreamer::new();
    let cfg = small_config(4);
    let coords = vec![c(0, 0, 0), c(30, 30, 30), c(31, 30, 30), c(32, 30, 30), c(33, 30, 30)];
    make_resident(&mut s, &coords);
    let picked = s.chunk_unload_detection_system(0, pos_blocks(1, 1, 1), &cfg);
    assert!(!picked.is_empty());
    let batch = s.chunk_unload_system();
    assert_eq!(batch, picked);
    let (h, k) = batch[0];
    assert_eq!(s.chunk_unload_completion_system(k), Some(h));
    assert!(!s.storage.contains(&k));
    assert_eq!(s.chunk_unload_completion_system(k), None);
    assert_eq!(s.storage.len(), 5 - 1);
}

#[test]
fn rate_limited_demand_waits() {
    let mut s = ChunkStreamer::new();
    let cfg = ChunkLoaderConfig::default();
    s.chunk_demand_system(0, pos_blocks(0, 0, 0), &cfg);
    let out = s.chunk_demand_system(200, pos_blocks(1, 0, 0), &cfg);
    assert!(!out.motion.should_update);
    assert!(out.queued.is_empty());
    let out = s.chunk_demand_system(700, pos_blocks(1, 0, 0), &cfg);
    assert!(out.motion.should_update);
}

#[test]
fn moving_to_new_chunk_updates_at_once() {
    let mut s = ChunkStreamer::new();
    let cfg = ChunkLoaderConfig::default();
    s.chunk_demand_system(0, pos_blocks(0, 0, 0), &cfg);
    let out = s.chunk_demand_system(100, pos_blocks(33, 0, 0), &cfg);
    assert!(out.motion.should_update);
    assert!(out.motion.fast_moving);
    assert!(out.motion.emergency);
}

#[test]
fn eviction_waits_between_sweeps() {
    let mut s = ChunkStreamer::new();
    let cfg = small_config(4);
    let coords = vec![c(20, 20, 20), c(21, 20, 20), c(22, 20, 20), c(23, 20, 20), c(24, 20, 20)];
    make_resident(&mut s, &coords);
    let first = s.chunk_unload_detection_system(0, pos_blocks(0, 0, 0), &cfg);
    assert_eq!(first.len(), 2);
    let second = s.chunk_unload_detection_system(500, pos_blocks(0, 0, 0), &cfg);
    assert!(second.is_empty());
    let third = s.chunk_unload_detection_system(1500, pos_blocks(0, 0, 0), &cfg);
    assert_eq!(third.len(), 2);
    for (_, k) in &third {
        assert!(!first.iter().any(|(_, f)| f == k));
    }
}

#[test]
fn unload_batch_is_capped() {
    let mut s = ChunkStreamer::new();
    let cfg = small_config(2);
    let mut coords = vec![];
    for i in 0..12 {
        coords.push(c(40 + i, 40, 40));
    }
    make_resident(&mut s, &coords);
    let picked = s.chunk_unload_detection_system(0, pos_blocks(0, 0, 0), &cfg);
    assert_eq!(picked.len(), 11);
    let batch = s.chunk_unload_system();
    assert_eq!(batch.len(), 5);
    assert_eq!(s.unloads.unloading().len(), 5);
    assert_eq!(s.unloads.pending().len(), 6);
    for (_, k) in &batch {
        assert!(s.unloads.is_in_flight(*k));
    }
}

#[test]
fn failed_generation_is_requeued() {
    let mut s = ChunkStreamer::new();
    assert!(s.request(c(3, 3, 3)));
    assert!(s.request(c(4, 4, 4)));
    let batch = s.chunk_generation_system();
    assert_eq!(batch.len(), 2);
    assert!(s.requeue_generation(c(3, 3, 3)));
    assert_eq!(s.loads.pending(), &vec![c(3, 3, 3)]);
    assert_eq!(s.loads.generating(), &vec![c(4, 4, 4)]);
    assert!(!s.requeue_generation(c(3, 3, 3)));
    assert!(!s.chunk_completion_system(c(3, 3, 3), 1));
}

#[test]
fn worker_pool_size_rules() {
    let mut p = ChunkGenerationThreadPool::new(0);
    assert_eq!(p.thread_count, 1);
    assert_eq!(p.update_thread_count(1), None);
    assert_eq!(p.update_thread_count(8), Some(8));
    assert_eq!(p.thread_count, 8);
    assert_eq!(p.update_thread_count(0), Some(1));
    assert_eq!(ChunkGenerationThreadPool::new(32).thread_count, 32);
}

#[test]
fn slow_long_drop_counts_as_fast_fall() {
    let mut s = ChunkStreamer::new();
    let cfg = ChunkLoaderConfig::default();
    s.chunk_demand_system(0, WorldPos { x: 500, y: 20000, z: 500 }, &cfg);
    let out = s.chunk_demand_system(3000, WorldPos { x: 500, y: 9000, z: 500 }, &cfg);
    assert!(out.motion.falling_fast);
    for d in 0..=8 {
        assert!(in_flight_or_resident(&s, c(0, -d, 0)), "depth {}", d);
    }
}

#[test]
fn eviction_spares_the_ground_column() {
    let mut s = ChunkStreamer::new();
    let cfg = small_config(2);
    let coords = vec![c(0, -3, 0), c(0, -2, 0), c(9, 9, 9), c(10, 9, 9)];
    make_resident(&mut s, &coords);
    let picked = s.chunk_unload_detection_system(0, pos_blocks(1, 1, 1), &cfg);
    assert_eq!(picked.len(), 2);
    for (_, k) in &picked {
        assert_ne!(*k, c(0, -3, 0));
        assert_ne!(*k, c(0, -2, 0));
    }
}

#[test]
fn below_ground_eviction_works_to_the_lower_budget() {
    let mut s = ChunkStreamer::new();
    let cfg = small_config(20);
    let mut coords = vec![];
    for i in 0..14 {
        coords.push(c(10 + i, -40, 0));
    }
    make_resident(&mut s, &coords);
    let p = WorldPos { x: 500, y: -40000, z: 500 };
    let picked = s.chunk_unload_detection_system(0, p, &cfg);
    assert!(picked.is_empty());
    let cfg = small_config(10);
    let mut s2 = ChunkStreamer::new();
    make_resident(&mut s2, &coords);
    let picked = s2.chunk_unload_detection_system(0, p, &cfg);
    assert_eq!(picked.len(), 14 - 9);
}

#[test]
fn new_streamer_starts_with_empty_clocks() {
    let s = ChunkStreamer::new();
    assert!(s.demand.last.is_none() && s.demand.deep_since.is_none());
    assert!(s.eviction.last.is_none());
}
