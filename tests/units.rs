use voxel_stream::chunk::{BlockId, Chunk};
use voxel_stream::coord::{world_pos_to_chunk_coord, world_pos_to_local_pos, ChunkCoord};
use voxel_stream::demand::{effective_max_of, plan_loads, ChunkLoaderConfig};
use voxel_stream::editor_strings::UiStrings;
use voxel_stream::eviction::{plan_evictions, unload_budget_of, unload_target_of, unload_threshold_of};
use voxel_stream::motion::{chunk_of_pos, DemandClock, EvictionClock, Motion, WorldPos};
use voxel_stream::noise_api::{ChannelKind, Edge, RegionRequest, Seed};
use voxel_stream::queues::{ChunkLoadQueue, ChunkUnloadQueue};
use voxel_stream::ranking::rank_order;
use voxel_stream::storage::ChunkStorage;

fn c(x: i32, y: i32, z: i32) -> ChunkCoord {
    ChunkCoord::new(x, y, z)
}

fn still() -> Motion {
    Motion { should_update: true, fast_moving: false, emergency: false, falling_fast: false, deep_long: false }
}

#[test]
fn chunk_coordinates_use_floor_division() {
    assert_eq!(world_pos_to_chunk_coord(0, 31, 32), c(0, 0, 1));
    assert_eq!(world_pos_to_chunk_coord(-1, -32, -33), c(-1, -1, -2));
    let k = world_pos_to_chunk_coord(-1, 70, 5);
    assert_eq!(world_pos_to_local_pos(-1, 70, 5, k), (31, 6, 5));
}

#[test]
fn player_chunk_from_thousandths() {
    assert_eq!(chunk_of_pos(WorldPos { x: 31999, y: 32000, z: -1 }), c(0, 1, -1));
    assert_eq!(chunk_of_pos(WorldPos { x: -32000, y: -32001, z: 64000 }), c(-1, -2, 2));
}

#[test]
fn storage_insert_get_remove() {
    let mut st = ChunkStorage::new();
    assert_eq!(st.len(), 0);
    st.insert(c(1, 2, 3), 42);
    st.insert(c(-1, 0, 0), 7);
    assert_eq!(st.get(&c(1, 2, 3)), Some(42));
    assert!(st.contains(&c(-1, 0, 0)));
    assert!(!st.contains(&c(0, 0, 0)));
    assert_eq!(st.len(), 2);
    st.insert(c(1, 2, 3), 43);
    assert_eq!(st.get(&c(1, 2, 3)), Some(43));
    assert_eq!(st.len(), 2);
    let mut all = st.entries();
    all.sort_by_key(|(k, _)| (k.x, k.y, k.z));
    assert_eq!(all, vec![(c(-1, 0, 0), 7), (c(1, 2, 3), 43)]);
    assert_eq!(st.remove(&c(1, 2, 3)), Some(43));
    assert_eq!(st.remove(&c(1, 2, 3)), None);
    assert_eq!(st.len(), 1);
}

#[test]
fn chunk_blocks_and_solid_index() {
    let mut ch = Chunk::new(c(0, 0, 0));
    assert!(ch.dirty);
    assert_eq!(ch.blocks.len(), 32768);
    ch.clear_dirty();
    assert!(!ch.dirty);
    assert_eq!(ch.get_block(3, 4, 5), BlockId::Air);
    ch.set_block(3, 4, 5, BlockId::Stone);
    assert!(ch.dirty);
    assert_eq!(ch.get_block(3, 4, 5), BlockId::Stone);
    assert_eq!(ch.blocks[Chunk::index(3, 4, 5)], 1);
    assert_eq!(Chunk::index(1, 2, 3), (2 * 32 + 3) * 32 + 1);
    ch.set_block(0, 0, 1, BlockId::Grass);
    assert_eq!(ch.get_solid_blocks(), &vec![(0, 0, 1), (3, 4, 5)]);
    ch.clear_dirty();
    ch.set_block(3, 4, 5, BlockId::Stone);
    assert!(ch.dirty);
    ch.clear_dirty();
    ch.set_block(3, 4, 5, BlockId::Air);
    assert!(ch.dirty);
    assert_eq!(ch.get_solid_blocks(), &vec![(0, 0, 1)]);
}

#[test]
fn block_codes_round_trip() {
    for b in [BlockId::Air, BlockId::Stone, BlockId::Dirt, BlockId::Grass, BlockId::Bedrock] {
        assert_eq!(BlockId::from_code(b.code()), b);
    }
    assert_eq!(BlockId::from_code(200), BlockId::Air);
    assert_eq!(BlockId::default(), BlockId::Air);
}

#[test]
fn effective_max_by_mode() {
    let m = still();
    assert_eq!(effective_max_of(1000, c(0, 0, 0), m), 1000);
    assert_eq!(effective_max_of(1000, c(0, -1, 0), m), 500);
    assert_eq!(effective_max_of(300, c(0, -1, 0), m), 300);
    let fast = Motion { fast_moving: true, ..m };
    assert_eq!(effective_max_of(1000, c(0, 0, 0), fast), 1100);
    let emergency = Motion { fast_moving: true, emergency: true, ..m };
    assert_eq!(effective_max_of(1000, c(0, -5, 0), emergency), 1200);
    let deep = Motion { deep_long: true, ..m };
    assert_eq!(effective_max_of(1000, c(0, -5, 0), deep), 50);
}

#[test]
fn unload_threshold_and_target_by_mode() {
    let up = c(0, 0, 0);
    let down = c(0, -1, 0);
    assert_eq!(unload_threshold_of(1000, up, false, false), 900);
    assert_eq!(unload_threshold_of(1000, up, true, false), 1100);
    assert_eq!(unload_threshold_of(1000, down, false, false), 500);
    assert_eq!(unload_threshold_of(300, down, false, false), 300);
    assert_eq!(unload_threshold_of(1000, down, true, false), 1100);
    assert_eq!(unload_threshold_of(1000, down, true, true), 50);
    assert_eq!(unload_budget_of(1000, up, false, false), 1000);
    assert_eq!(unload_budget_of(1000, down, false, true), 50);
    assert_eq!(unload_target_of(50, 72, false), 27);
    assert_eq!(unload_target_of(1000, 1500, false), 600);
    assert_eq!(unload_target_of(1000, 950, false), 47);
    assert_eq!(unload_target_of(1000, 10, false), 1);
    assert_eq!(unload_target_of(1000, 1500, true), 7);
    assert_eq!(unload_target_of(1000, 100, true), 1);
}

#[test]
fn config_defaults_and_clamps() {
    let d = ChunkLoaderConfig::default();
    assert_eq!(d.max_loaded_chunks, 1000);
    assert_eq!(d.surface_priority_quota, 600);
    assert_eq!(d.sphere_loading_radius, 12);
    assert_eq!(d.max_chunks_per_frame, 3);
    let wild = ChunkLoaderConfig {
        max_loaded_chunks: 10,
        surface_priority_quota: 50,
        sphere_loading_radius: 500,
        max_chunks_per_frame: 1,
    };
    assert_eq!(wild.clamped_quota(), 10);
    assert_eq!(wild.clamped_radius(), 32);
    assert_eq!(wild.clamped_cap(), 10);
}

#[test]
fn plan_respects_per_tick_cap_and_exclusions() {
    let mut st = ChunkStorage::new();
    st.insert(c(0, 0, 0), 1);
    let q = ChunkLoadQueue::new();
    let cfg = ChunkLoaderConfig::default();
    let plan = plan_loads(c(0, 0, 0), still(), &cfg, 1, &st, &q).coords;
    assert_eq!(plan.len(), 16);
    assert!(!plan.contains(&c(0, 0, 0)));
    assert_eq!(&plan[..3], &[c(0, -1, 0), c(0, -2, 0), c(0, -3, 0)]);
    for i in 0..plan.len() {
        for j in i + 1..plan.len() {
            assert_ne!(plan[i], plan[j]);
        }
    }
}

#[test]
fn plan_below_ground_uses_small_slab() {
    let st = ChunkStorage::new();
    let q = ChunkLoadQueue::new();
    let cfg = ChunkLoaderConfig::default();
    let pc = c(0, -4, 0);
    let plan = plan_loads(pc, still(), &cfg, 0, &st, &q).coords;
    assert_eq!(plan.len(), 8);
    for k in &plan {
        let dy = (k.y - pc.y).abs();
        let on_column = k.x == 0 && k.z == 0 && k.y <= -4 && k.y >= -7;
        assert!(on_column || (dy <= 1 && k.x * k.x + k.z * k.z + dy * dy <= 4));
    }
}

#[test]
fn plan_in_deep_mode_is_essential_set() {
    let st = ChunkStorage::new();
    let q = ChunkLoadQueue::new();
    let cfg = ChunkLoaderConfig::default();
    let pc = c(5, -4, 5);
    let m = Motion { deep_long: true, ..still() };
    let plan = plan_loads(pc, m, &cfg, 0, &st, &q).coords;
    assert_eq!(plan.len(), 8);
    for k in &plan {
        let on_layer = k.y == -4 && (k.x - 5).abs() <= 1 && (k.z - 5).abs() <= 1;
        let below = k.x == 5 && k.z == 5 && k.y <= -4 && k.y >= -7;
        assert!(on_layer || below);
    }
}

#[test]
fn plan_emergency_adds_cube() {
    let st = ChunkStorage::new();
    let q = ChunkLoadQueue::new();
    let cfg = ChunkLoaderConfig::default();
    let m = Motion { fast_moving: true, emergency: true, ..still() };
    let lp = plan_loads(c(0, 0, 0), m, &cfg, 0, &st, &q);
    assert_eq!((lp.critical_end, lp.emergency_end, lp.surface_end), (4, 14, 64));
    let plan = lp.coords;
    assert_eq!(plan.len(), 64);
    assert!(plan.contains(&c(1, 0, 0)));
    assert!(plan.contains(&c(0, 1, 0)));
    assert!(plan.contains(&c(0, -3, 0)));
}

#[test]
fn eviction_plan_orders_classes() {
    let entries = vec![
        (c(4, 1, 0), 1u64),
        (c(9, 1, 0), 2),
        (c(5, 30, 0), 3),
        (c(0, 0, 0), 4),
        (c(20, 1, 0), 5),
    ];
    let uq = ChunkUnloadQueue::new();
    let cfg = ChunkLoaderConfig { max_loaded_chunks: 1, surface_priority_quota: 1, sphere_loading_radius: 5, max_chunks_per_frame: 3 };
    let picked = plan_evictions(c(0, 0, 0), false, false, &cfg, &entries, &uq);
    assert_eq!(picked, vec![(3, c(5, 30, 0)), (5, c(20, 1, 0)), (2, c(9, 1, 0)), (1, c(4, 1, 0))]);
}

#[test]
fn ranking_orders_by_rank_then_index() {
    let order = rank_order(&vec![5, 1, 5, 0]);
    assert_eq!(order, vec![(0, 3), (1, 1), (5, 0), (5, 2)]);
}

#[test]
fn clocks_start_empty() {
    let d = DemandClock::new();
    assert!(d.last.is_none() && d.deep_since.is_none());
    let mut e = EvictionClock::new();
    assert_eq!(e.observe(0, WorldPos { x: 0, y: 0, z: 0 }), (true, false));
    assert_eq!(e.observe(100, WorldPos { x: 0, y: -20000, z: 0 }), (false, true));
    assert_eq!(e.observe(1500, WorldPos { x: 0, y: 0, z: 0 }), (true, false));
    assert_eq!(e.observe(2000, WorldPos { x: 0, y: 0, z: 0 }), (false, false));
}

#[test]
fn noise_api_values() {
    let req = RegionRequest { origin: [0, 0, 0], size: [4, 5, 6], lod: 0 };
    assert_eq!(req.sample_count(ChannelKind::Height2D), 20);
    assert_eq!(req.sample_count(ChannelKind::Cave3D), 120);
    assert!(ChannelKind::WaterLevel2D.is_planar());
    assert!(!ChannelKind::Ore3D.is_planar());
    assert_eq!(Seed(9).0, 9);
    assert_eq!(Edge { from: 1, to: 2 }, Edge { from: 1, to: 2 });
}

#[test]
fn editor_strings_english() {
    let s = UiStrings::default();
    assert_eq!(s.app.window_title, "Noise Editor");
    assert_eq!(s.menu.bake, "Bake");
    assert_eq!(s.graph_panel.node_prefix, "Node");
    assert_eq!(s.preview.width_short, "W");
}

#[test]
fn nearby_chunks_are_the_resident_neighbours() {
    let mut st = ChunkStorage::new();
    st.insert(c(0, 0, 0), 1);
    st.insert(c(1, 1, 1), 2);
    st.insert(c(2, 0, 0), 3);
    st.insert(c(-1, 0, 0), 4);
    let mut near = st.get_nearby_chunks(c(0, 0, 0));
    near.sort_by_key(|(_, h)| *h);
    assert_eq!(near, vec![(c(0, 0, 0), 1), (c(1, 1, 1), 2), (c(-1, 0, 0), 4)]);
}

#[test]
fn plan_tiers_come_in_rank_order() {
    let st = ChunkStorage::new();
    let q = ChunkLoadQueue::new();
    let cfg = ChunkLoaderConfig::default();
    let lp = plan_loads(c(0, 0, 0), still(), &cfg, 0, &st, &q);
    assert_eq!((lp.critical_end, lp.emergency_end, lp.surface_end), (4, 4, 16));
    assert_eq!(lp.coords.len(), 16);
    // surface score: 2 * horizontal distance + layer offset, lower first
    let score = |k: &ChunkCoord| 2.0 * ((k.x * k.x + k.z * k.z) as f64).sqrt() + k.y.abs() as f64;
    let surface = &lp.coords[4..16];
    for w in surface.windows(2) {
        assert!(score(&w[0]) <= score(&w[1]) + 1e-3);
    }
    assert_eq!(surface[0], c(0, 1, 0));
    // a horizontal neighbour (score 2) comes before the chunk four layers up (score 4)
    assert!(surface.contains(&c(1, 0, 0)));
    assert!(!surface.contains(&c(0, 4, 0)));
    let left_out_best = (-14..=14)
        .flat_map(|x| (-14..=14).flat_map(move |z| (-2..=8).map(move |y| c(x, y, z))))
        .filter(|k| 25 * (k.x * k.x + k.z * k.z) <= 36 * 144)
        .filter(|k| !lp.coords.contains(k))
        .map(|k| score(&k))
        .fold(f64::MAX, f64::min);
    assert!(surface.iter().all(|k| score(k) <= left_out_best + 1e-3));
}

#[test]
fn plan_at_budget_holds_only_the_column() {
    let st = ChunkStorage::new();
    let q = ChunkLoadQueue::new();
    let cfg = ChunkLoaderConfig::default();
    let m = Motion { deep_long: true, ..still() };
    let lp = plan_loads(c(0, -4, 0), m, &cfg, 50, &st, &q);
    assert_eq!(lp.coords.len(), lp.critical_end);
    assert_eq!(lp.coords, vec![c(0, -4, 0), c(0, -5, 0), c(0, -6, 0), c(0, -7, 0)]);
}
