use voxel_stream::chunk::{BlockId, Chunk, CHUNK_CELLS};
use voxel_stream::coord::ChunkCoord;
use voxel_stream::edits::{destroy_block, locate_block, neighbors_touched, place_block};
use voxel_stream::storage::ChunkStorage;
use voxel_stream::store::ChunkStore;
use voxel_stream::faces::{get_texture_index_for_block, get_visible_faces, CubeFace};
use voxel_stream::inventory::{ItemStack, ItemType, PlayerInventory, ToolType};
use voxel_stream::terrain::{generate_block_at, generate_chunk, BiomeType, TerrainRules};

fn stone() -> ItemType {
    ItemType::Block(BlockId::Stone)
}

fn total(inv: &PlayerInventory, t: ItemType) -> u32 {
    inv.hotbar.iter().chain(inv.main.iter()).filter(|s| s.item_type == t && !s.is_empty()).map(|s| s.count).sum()
}

#[test]
fn starting_inventory() {
    let inv = PlayerInventory::new();
    assert_eq!(inv.hotbar.len(), 9);
    assert_eq!(inv.main.len(), 27);
    assert_eq!(*inv.get_selected_item(), ItemStack::new(ItemType::Block(BlockId::Grass), 64));
    assert_eq!(inv.hotbar[4], ItemStack::new(ItemType::Tool(ToolType::DiamondPickaxe), 1));
    assert!(inv.hotbar[5].is_empty());
}

#[test]
fn add_item_fills_stacks_then_empty_slots() {
    let mut inv = PlayerInventory::empty_inventory();
    inv.hotbar[0] = ItemStack::new(stone(), 60);
    let left = inv.add_item(ItemStack::new(stone(), 10));
    assert!(left.is_empty());
    assert_eq!(inv.hotbar[0].count, 64);
    assert_eq!(inv.hotbar[1], ItemStack::new(stone(), 6));
    assert_eq!(total(&inv, stone()), 70);
}

#[test]
fn add_item_to_full_inventory_returns_rest() {
    let mut inv = PlayerInventory::empty_inventory();
    for s in inv.hotbar.iter_mut().chain(inv.main.iter_mut()) {
        *s = ItemStack::new(ItemType::Block(BlockId::Dirt), 64);
    }
    inv.main[26] = ItemStack::new(stone(), 63);
    let left = inv.add_item(ItemStack::new(stone(), 5));
    assert_eq!(left, ItemStack::new(stone(), 4));
    assert_eq!(inv.main[26].count, 64);
    let empty = ItemStack::empty();
    assert_eq!(inv.add_item(empty), empty);
}

#[test]
fn remove_item_takes_what_there_is() {
    let mut inv = PlayerInventory::empty_inventory();
    inv.hotbar[2] = ItemStack::new(stone(), 5);
    inv.main[0] = ItemStack::new(stone(), 7);
    assert_eq!(inv.remove_item(stone(), 8), 8);
    assert!(inv.hotbar[2].is_empty());
    assert_eq!(inv.hotbar[2], ItemStack::empty());
    assert_eq!(inv.main[0].count, 4);
    assert_eq!(inv.remove_item(stone(), 10), 4);
    assert_eq!(total(&inv, stone()), 0);
    assert_eq!(inv.remove_item(ItemType::Empty, 3), 0);
}

#[test]
fn select_slot_ignores_out_of_range() {
    let mut inv = PlayerInventory::new();
    inv.select_slot(3);
    assert_eq!(inv.selected_slot, 3);
    inv.select_slot(9);
    assert_eq!(inv.selected_slot, 3);
    assert_eq!(*inv.get_selected_item(), ItemStack::new(ItemType::Block(BlockId::Bedrock), 64));
}

#[test]
fn item_stack_rules() {
    let a = ItemStack::new(stone(), 3);
    let b = ItemStack::new(stone(), 0);
    assert!(!a.can_stack_with(&b));
    assert!(a.can_stack_with(&a));
    assert_eq!(a.max_stack_size(), 64);
    assert_eq!(ItemStack::new(ItemType::Tool(ToolType::IronPickaxe), 1).max_stack_size(), 1);
    assert_eq!(ItemStack::empty().max_stack_size(), 0);
}

#[test]
fn block_choice_by_depth() {
    let rules = TerrainRules::default_rules();
    assert_eq!(generate_block_at(80, 70, false, false, &rules), BlockId::Air);
    assert_eq!(generate_block_at(70, 70, false, false, &rules), BlockId::Grass);
    assert_eq!(generate_block_at(60, 60, false, false, &rules), BlockId::Dirt);
    assert_eq!(generate_block_at(67, 70, false, false, &rules), BlockId::Dirt);
    assert_eq!(generate_block_at(66, 70, false, false, &rules), BlockId::Stone);
    assert_eq!(generate_block_at(40, 70, true, false, &rules), BlockId::Air);
    assert_eq!(generate_block_at(75, 90, true, false, &rules), BlockId::Stone);
    assert_eq!(generate_block_at(2, 70, false, false, &rules), BlockId::Bedrock);
    assert_eq!(generate_block_at(10, 70, false, true, &rules), BlockId::Bedrock);
    assert_eq!(generate_block_at(20, 70, false, true, &rules), BlockId::Stone);
}

#[test]
fn biome_surfaces() {
    assert_eq!(BiomeType::Forest.surface_block(), BlockId::Grass);
    assert_eq!(BiomeType::Desert.surface_block(), BlockId::Dirt);
    assert_eq!(BiomeType::Mountains.surface_block(), BlockId::Stone);
}

#[test]
fn chunk_generation_from_samples() {
    let rules = TerrainRules::default_rules();
    let mut chunk = Chunk::new(ChunkCoord::new(0, 2, 0));
    let mut heights = vec![70; 1024];
    heights[5] = 64;
    let caves = vec![false; CHUNK_CELLS];
    let ores = vec![false; CHUNK_CELLS];
    generate_chunk(&mut chunk, &heights, &caves, &ores, &rules);
    // chunk y = 2 spans world heights 64..95
    assert_eq!(chunk.get_block(0, 6, 0), BlockId::Grass);
    assert_eq!(chunk.get_block(0, 7, 0), BlockId::Air);
    assert_eq!(chunk.get_block(0, 5, 0), BlockId::Dirt);
    assert_eq!(chunk.get_block(0, 2, 0), BlockId::Stone);
    assert_eq!(chunk.get_block(5, 0, 0), BlockId::Dirt);
    assert_eq!(chunk.get_block(5, 1, 0), BlockId::Air);
    assert_eq!(chunk.get_solid_blocks().len(), 1023 * 7 + 1);
}

#[test]
fn locate_block_splits_world_position() {
    assert_eq!(locate_block(-1, 0, 33), (ChunkCoord::new(-1, 0, 1), (31, 0, 1)));
    assert_eq!(locate_block(64, -64, -65), (ChunkCoord::new(2, -2, -3), (0, 0, 31)));
}

#[test]
fn edits_on_borders_touch_neighbors() {
    let mut map = ChunkStorage::new();
    let mut store = ChunkStore::new();
    let coords = [
        ChunkCoord::new(-1, 0, 0),
        ChunkCoord::new(0, 0, 0),
        ChunkCoord::new(-1, 0, -1),
        ChunkCoord::new(5, 5, 5),
    ];
    for (i, &k) in coords.iter().enumerate() {
        let h = i as u64 + 1;
        map.insert(k, h);
        let mut ch = Chunk::new(k);
        ch.clear_dirty();
        store.insert(h, ch);
    }
    assert!(place_block(&map, &mut store, -1, 5, 0, BlockId::Stone));
    let target = store.get(1).unwrap();
    assert!(target.dirty);
    assert_eq!(target.get_block(31, 5, 0), BlockId::Stone);
    assert_eq!(target.get_solid_blocks(), &vec![(31, 5, 0)]);
    assert!(store.get(2).unwrap().dirty);
    assert!(store.get(3).unwrap().dirty);
    assert!(!store.get(4).unwrap().dirty);
    assert_eq!(store.get(2).unwrap().get_solid_blocks().len(), 0);
    assert!(destroy_block(&map, &mut store, -1, 5, 0));
    assert_eq!(store.get(1).unwrap().get_block(31, 5, 0), BlockId::Air);
    assert!(store.get(1).unwrap().get_solid_blocks().is_empty());
    assert!(!place_block(&map, &mut store, 1000, 0, 0, BlockId::Dirt));
    assert_eq!(store.len(), 4);
    assert!(neighbors_touched(ChunkCoord::new(0, 0, 0), 5, 6, 7).is_empty());
    assert_eq!(neighbors_touched(ChunkCoord::new(0, 0, 0), 0, 31, 0).len(), 3);
}

#[test]
fn visible_faces_follow_air_and_neighbours() {
    let mut chunk = Chunk::new(ChunkCoord::new(0, 0, 0));
    chunk.set_block(0, 0, 0, BlockId::Stone);
    let all = get_visible_faces(&chunk, 0, 0, 0, None, None, None, None, None, None);
    assert_eq!(
        all,
        vec![CubeFace::North, CubeFace::South, CubeFace::West, CubeFace::East, CubeFace::Top, CubeFace::Bottom]
    );
    chunk.set_block(1, 0, 0, BlockId::Dirt);
    let mut west = Chunk::new(ChunkCoord::new(-1, 0, 0));
    west.set_block(31, 0, 0, BlockId::Stone);
    let faces = get_visible_faces(&chunk, 0, 0, 0, None, None, Some(&west), None, None, None);
    assert_eq!(faces, vec![CubeFace::North, CubeFace::South, CubeFace::Top, CubeFace::Bottom]);
    assert_eq!(CubeFace::West.normal(), (-1, 0, 0));
    assert_eq!(CubeFace::Top.normal(), (0, 1, 0));
    assert_eq!(get_texture_index_for_block(BlockId::Grass), 2);
    assert_eq!(get_texture_index_for_block(BlockId::Stone), 0);
}

#[test]
fn add_item_fits_exactly_into_stack_room() {
    let mut inv = PlayerInventory::empty_inventory();
    for s in inv.hotbar.iter_mut().chain(inv.main.iter_mut()) {
        *s = ItemStack::new(ItemType::Block(BlockId::Dirt), 64);
    }
    inv.hotbar[3] = ItemStack::new(stone(), 61);
    inv.main[7] = ItemStack::new(stone(), 63);
    let left = inv.add_item(ItemStack::new(stone(), 4));
    assert!(left.is_empty());
    assert_eq!(inv.hotbar[3].count, 64);
    assert_eq!(inv.main[7].count, 64);
}
