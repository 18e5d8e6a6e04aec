use voxel_builder::chunk::{ivec3, Chunk, CHUNK_VOLUME};
use voxel_builder::chunk_manager::{
    key_of, trees_from_draws, ChunkManager, CHUNK_COLUMNS, DEEP_STONE, DIRT, GRASS, STONE,
    TREE_CHANCE, TRUNK_TYPES,
};
use voxel_builder::voxel_data_manager::VoxelDataManager;

fn catalog() -> VoxelDataManager {
    let entries: Vec<(String, Vec<String>)> = (0..12)
        .map(|i| (format!("voxel{}", i), vec![format!("texture{}", i)]))
        .collect();
    VoxelDataManager::new(entries).0
}

fn flat(height: i32) -> Vec<i32> {
    vec![height; CHUNK_COLUMNS]
}

fn no_trees() -> Vec<u8> {
    vec![0; CHUNK_COLUMNS]
}

#[test]
fn set_voxel_in_ungenerated_chunk_fails_and_creates_nothing() {
    let mut cm = ChunkManager::new(catalog());
    assert!(!cm.set_voxel(ivec3(5, 70, -3), 4));
    assert!(cm.get_chunk(ivec3(0, 2, -1)).is_none());
    assert!(cm.chunks.is_empty());
    assert!(cm.chunk_voxel_queue.is_empty());
    assert_eq!(cm.get_voxel(ivec3(5, 70, -3)), None);
    assert!(cm.is_void(ivec3(5, 70, -3)));
}

#[test]
fn flat_field_gives_layers_at_documented_depths() {
    let mut cm = ChunkManager::new(catalog());
    cm.add_chunk_with_trees(ivec3(0, 0, 0), &flat(0), &no_trees());
    cm.add_chunk_with_trees(ivec3(0, -1, 0), &flat(0), &no_trees());
    cm.add_chunk_with_trees(ivec3(0, -2, 0), &flat(0), &no_trees());
    for x in [0, 13, 31] {
        for z in [0, 7, 31] {
            assert_eq!(cm.get_voxel(ivec3(x, 0, z)), Some(GRASS));
            for y in 1..32 {
                assert_eq!(cm.get_voxel(ivec3(x, y, z)), Some(0));
            }
            for y in -3..0 {
                assert_eq!(cm.get_voxel(ivec3(x, y, z)), Some(DIRT));
            }
            for y in -32..-3 {
                assert_eq!(cm.get_voxel(ivec3(x, y, z)), Some(STONE));
            }
            for y in -64..-32 {
                assert_eq!(cm.get_voxel(ivec3(x, y, z)), Some(DEEP_STONE));
            }
        }
    }
}

#[test]
fn generate_voxels_classifies_by_depth_below_the_surface() {
    let mut cm = ChunkManager::new(catalog());
    let voxels = cm.generate_voxels(ivec3(0, 0, 0), &flat(10), &no_trees());
    assert_eq!(voxels.len(), CHUNK_VOLUME);
    let at = |y: i32| voxels[Chunk::coordinates_to_index(ivec3(3, y, 4))];
    assert_eq!(at(11), 0);
    assert_eq!(at(10), GRASS);
    assert_eq!(at(9), DIRT);
    assert_eq!(at(7), DIRT);
    assert_eq!(at(6), STONE);
    assert_eq!(at(0), STONE);
}

#[test]
fn tree_inside_the_chunk_grows_fourteen_trunk_voxels() {
    let mut cm = ChunkManager::new(catalog());
    let mut trees = no_trees();
    let col = 1 * 32 + 2;
    trees[col] = 3;
    let voxels = cm.generate_voxels(ivec3(0, 0, 0), &flat(5), &trees);
    let at = |y: i32| voxels[Chunk::coordinates_to_index(ivec3(2, y, 1))];
    assert_eq!(at(5), DIRT);
    for y in 6..20 {
        assert_eq!(at(y), 3);
    }
    assert_eq!(at(20), 0);
    assert_eq!(voxels[Chunk::coordinates_to_index(ivec3(3, 5, 1))], GRASS);
    assert!(cm.chunk_voxel_queue.is_empty());
}

#[test]
fn trunk_crossing_into_ungenerated_chunk_is_queued_then_applied() {
    let mut cm = ChunkManager::new(catalog());
    let mut trees = no_trees();
    trees[0] = 7;
    cm.add_chunk_with_trees(ivec3(0, 0, 0), &flat(31), &trees);
    let above = key_of(ivec3(0, 1, 0));
    assert_eq!(cm.chunk_voxel_queue.get(&above).map(|m| m.len()), Some(14));
    assert_eq!(cm.get_voxel(ivec3(0, 32, 0)), None);

    cm.add_chunk_with_trees(ivec3(0, 1, 0), &flat(31), &no_trees());
    assert!(!cm.chunk_voxel_queue.contains_key(&above));
    assert!(cm.chunk_voxel_queue.is_empty());
    for y in 32..46 {
        assert_eq!(cm.get_voxel(ivec3(0, y, 0)), Some(7));
    }
    assert_eq!(cm.get_voxel(ivec3(0, 46, 0)), Some(0));
    assert_eq!(cm.get_voxel(ivec3(1, 32, 0)), Some(0));
    assert_eq!(cm.get_voxel(ivec3(0, 31, 0)), Some(DIRT));
}

#[test]
fn trunk_crossing_into_generated_chunk_is_written_directly() {
    let mut cm = ChunkManager::new(catalog());
    cm.add_chunk_with_trees(ivec3(0, 1, 0), &flat(31), &no_trees());
    let mut trees = no_trees();
    trees[5 * 32 + 9] = 2;
    cm.add_chunk_with_trees(ivec3(0, 0, 0), &flat(25), &trees);
    assert!(cm.chunk_voxel_queue.is_empty());
    for y in 26..40 {
        assert_eq!(cm.get_voxel(ivec3(9, y, 5)), Some(2));
    }
    assert_eq!(cm.get_voxel(ivec3(9, 40, 5)), Some(0));
}

#[test]
fn set_voxel_then_get_voxel_returns_it() {
    let mut cm = ChunkManager::new(catalog());
    cm.add_chunk_with_trees(ivec3(-1, 0, 0), &flat(0), &no_trees());
    let g = ivec3(-5, 3, 30);
    assert_eq!(cm.get_voxel(g), Some(0));
    assert!(cm.is_void(g));
    assert!(cm.set_voxel(g, 9));
    assert_eq!(cm.get_voxel(g), Some(9));
    assert!(!cm.is_void(g));
    assert_eq!(cm.get_voxel(ivec3(-5, 4, 30)), Some(0));
}

#[test]
fn is_void_distinguishes_air_solid_and_unknown() {
    let mut cm = ChunkManager::new(catalog());
    cm.add_chunk_with_trees(ivec3(0, 0, 0), &flat(3), &no_trees());
    assert!(cm.is_void(ivec3(1, 4, 1)));
    assert!(!cm.is_void(ivec3(1, 3, 1)));
    assert!(cm.is_void(ivec3(1, -1, 1)));
    assert_eq!(cm.get_voxel(ivec3(1, -1, 1)), None);
}

#[test]
fn queued_placements_override_terrain() {
    let mut cm = ChunkManager::new(catalog());
    let mut trees = no_trees();
    trees[31 * 32 + 31] = 5;
    cm.add_chunk_with_trees(ivec3(0, 0, 0), &flat(20), &trees);
    assert!(cm.chunk_voxel_queue.contains_key(&key_of(ivec3(0, 1, 0))));
    // The chunk above is stone under its own surface at y = 60.
    let voxels = cm.generate_voxels(ivec3(0, 1, 0), &flat(60), &no_trees());
    let at = |y: i32| voxels[Chunk::coordinates_to_index(ivec3(31, y, 31))];
    assert_eq!(at(0), 5);
    assert_eq!(at(2), 5);
    assert_eq!(at(3), STONE);
    assert!(cm.chunk_voxel_queue.is_empty());
}

#[test]
fn plant_trees_only_where_the_surface_is_inside() {
    let mut cm = ChunkManager::new(catalog());
    let trees = cm.plant_trees(ivec3(0, 0, 0), &flat(1000));
    assert_eq!(trees, no_trees());
    let trees = cm.plant_trees(ivec3(0, 0, 0), &flat(4));
    assert_eq!(trees.len(), CHUNK_COLUMNS);
    assert!(trees.iter().all(|&t| t < TRUNK_TYPES));
    // One column in ninety grows a tree: all of them growing one means the
    // draws are not random.
    assert!(trees.iter().filter(|&&t| t != 0).count() < CHUNK_COLUMNS);
}

#[test]
fn add_chunk_draws_trees_but_keeps_the_terrain() {
    let mut cm = ChunkManager::new(catalog());
    cm.add_chunk(ivec3(0, 0, 0), &flat(2));
    let chunk = cm.get_chunk(ivec3(0, 0, 0)).unwrap();
    assert_eq!(chunk.position, ivec3(0, 0, 0));
    for x in 0..32 {
        for z in 0..32 {
            let surface = chunk.get_voxel_from_coordinate(ivec3(x, 2, z));
            assert!(surface == GRASS || surface == DIRT);
            assert_eq!(chunk.get_voxel_from_coordinate(ivec3(x, 1, z)), DIRT);
            let above = chunk.get_voxel_from_coordinate(ivec3(x, 3, z));
            assert!(above < TRUNK_TYPES);
            assert_eq!(above != 0, surface == DIRT);
        }
    }
    let generated = cm.get_world_generation(ivec3(0, -1, 0), &flat(2));
    assert_eq!(generated[Chunk::coordinates_to_index(ivec3(0, 31, 0))], DIRT);
    assert_eq!(generated[Chunk::coordinates_to_index(ivec3(0, 29, 0))], STONE);
    assert_eq!(generated[Chunk::coordinates_to_index(ivec3(0, 0, 0))], DEEP_STONE);
}

#[test]
fn chunk_keys_are_distinct_for_neighbours() {
    let a = key_of(ivec3(0, 0, 0));
    assert_ne!(a, key_of(ivec3(0, 0, 1)));
    assert_ne!(a, key_of(ivec3(0, 1, 0)));
    assert_ne!(a, key_of(ivec3(1, 0, 0)));
    assert_ne!(key_of(ivec3(-1, 0, 0)), key_of(ivec3(0, -1, 0)));
}

#[test]
fn trees_grow_where_the_chance_draw_is_zero_and_the_surface_is_inside() {
    let mut heights = flat(7);
    heights[3] = 40;
    heights[4] = -1;
    let mut chance = vec![TREE_CHANCE - 1; CHUNK_COLUMNS];
    let mut kind = vec![1; CHUNK_COLUMNS];
    for col in [2, 3, 4] {
        chance[col] = 0;
        kind[col] = 6;
    }
    kind[5] = 9;
    let trees = trees_from_draws(ivec3(0, 0, 0), &heights, &chance, &kind);
    assert_eq!(trees.len(), CHUNK_COLUMNS);
    assert_eq!(trees[2], 6);
    assert_eq!(trees[3], 0);
    assert_eq!(trees[4], 0);
    assert_eq!(trees[5], 0);
    assert_eq!(trees.iter().filter(|&&t| t != 0).count(), 1);
}

#[test]
fn tree_on_flat_ground_stays_inside_and_queues_nothing() {
    let mut cm = ChunkManager::new(catalog());
    let mut trees = no_trees();
    trees[10 * 32 + 20] = 4;
    cm.add_chunk_with_trees(ivec3(0, 0, 0), &flat(0), &trees);
    assert!(cm.chunk_voxel_queue.is_empty());
    assert_eq!(cm.get_voxel(ivec3(20, 0, 10)), Some(DIRT));
    for y in 1..15 {
        assert_eq!(cm.get_voxel(ivec3(20, y, 10)), Some(4));
    }
    for y in 15..32 {
        assert_eq!(cm.get_voxel(ivec3(20, y, 10)), Some(0));
    }
    assert_eq!(cm.get_voxel(ivec3(21, 0, 10)), Some(GRASS));
    assert_eq!(cm.get_voxel(ivec3(21, 1, 10)), Some(0));
}
