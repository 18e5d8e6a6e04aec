use voxel_builder::chunk::{
    default_voxels, ivec3, Chunk, Convert, IVec3, CHUNK_SIZE, CHUNK_VOLUME,
};

#[test]
fn coordinates_to_index_linearizes_y_then_z_then_x() {
    assert_eq!(Chunk::coordinates_to_index(ivec3(0, 0, 0)), 0);
    assert_eq!(Chunk::coordinates_to_index(ivec3(1, 2, 3)), 2 * 1024 + 3 * 32 + 1);
    assert_eq!(Chunk::coordinates_to_index(ivec3(31, 31, 31)), CHUNK_VOLUME - 1);
}

#[test]
fn index_to_coordinates_inverts_the_linearization() {
    assert_eq!(Chunk::index_to_coordinates(2145), ivec3(1, 2, 3));
    assert_eq!(Chunk::index_to_coordinates(CHUNK_VOLUME - 1), ivec3(31, 31, 31));
    assert_eq!(Chunk::index_to_coordinates(32), ivec3(0, 0, 1));
}

#[test]
fn index_round_trip_holds_for_every_index() {
    for i in 0..CHUNK_VOLUME {
        assert_eq!(Chunk::coordinates_to_index(Chunk::index_to_coordinates(i)), i);
    }
}

#[test]
fn out_of_bounds_checks_every_axis() {
    assert!(!Chunk::coordinate_out_of_bounds(ivec3(0, 0, 0)));
    assert!(!Chunk::coordinate_out_of_bounds(ivec3(31, 31, 31)));
    assert!(Chunk::coordinate_out_of_bounds(ivec3(-1, 0, 0)));
    assert!(Chunk::coordinate_out_of_bounds(ivec3(0, 32, 0)));
    assert!(Chunk::coordinate_out_of_bounds(ivec3(0, 0, -1)));
    assert!(Chunk::coordinate_out_of_bounds(ivec3(32, 0, 0)));
}

#[test]
fn chunk_get_and_set_agree() {
    let mut chunk = Chunk::new(ivec3(0, 0, 0));
    assert_eq!(chunk.get_voxel_from_coordinate(ivec3(4, 5, 6)), 0);
    chunk.set_voxel_from_coordinate(ivec3(4, 5, 6), 9);
    assert_eq!(chunk.get_voxel_from_coordinate(ivec3(4, 5, 6)), 9);
    assert_eq!(chunk.get_voxel_from_index(5 * 1024 + 6 * 32 + 4), 9);
    chunk.set_voxel_from_index(0, 3);
    assert_eq!(chunk.get_voxel_from_coordinate(ivec3(0, 0, 0)), 3);
    assert_eq!(default_voxels().len(), CHUNK_VOLUME);
}

#[test]
fn local_to_global_scales_the_chunk_position() {
    assert_eq!(Convert::local_to_global(ivec3(-1, 2, 0), ivec3(31, 0, 5)), ivec3(-1, 64, 5));
    assert_eq!(Convert::local_to_global(ivec3(0, 0, 0), ivec3(-1, 32, 0)), ivec3(-1, 32, 0));
}

#[test]
fn global_to_local_uses_floor_modulo() {
    assert_eq!(Convert::global_to_local(ivec3(-1, -33, 31)), ivec3(31, 31, 31));
    assert_eq!(Convert::global_to_local(ivec3(32, -32, 65)), ivec3(0, 0, 1));
    assert_eq!(Convert::global_to_local(ivec3(i32::MIN, i32::MAX, 0)), ivec3(0, 31, 0));
}

#[test]
fn global_to_chunk_uses_floor_division() {
    assert_eq!(Convert::global_to_chunk(ivec3(-1, -33, 31)), ivec3(-1, -2, 0));
    assert_eq!(Convert::global_to_chunk(ivec3(32, -32, 0)), ivec3(1, -1, 0));
    assert_eq!(Convert::global_to_chunk(ivec3(i32::MIN, i32::MAX, 0)), ivec3(-67108864, 67108863, 0));
}

#[test]
fn local_global_round_trip_on_samples() {
    let chunks = [ivec3(0, 0, 0), ivec3(-3, 7, -1), ivec3(1000, -1000, 5)];
    let locals = [ivec3(0, 0, 0), ivec3(31, 0, 17), ivec3(5, 31, 31)];
    for c in chunks {
        for l in locals {
            let g = Convert::local_to_global(c, l);
            assert_eq!(Convert::global_to_local(g), l);
            assert_eq!(Convert::global_to_chunk(g), c);
        }
    }
}

#[test]
fn global_decomposition_round_trip_on_samples() {
    let globals = [
        ivec3(0, 0, 0),
        ivec3(-1, -32, -33),
        ivec3(31, 32, 33),
        ivec3(i32::MIN, i32::MAX, -CHUNK_SIZE),
    ];
    for g in globals {
        let back = Convert::local_to_global(Convert::global_to_chunk(g), Convert::global_to_local(g));
        assert_eq!(back, g);
    }
    assert_eq!(IVec3::new(1, 2, 3), ivec3(1, 2, 3));
}
