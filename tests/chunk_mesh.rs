use voxel_builder::chunk::{ivec3, Chunk, IVec3};
use voxel_builder::chunk_manager::{key_of, ChunkManager};
use voxel_builder::chunk_mesh::{BlocksAround, ChunkMesh, ChunkMeshBuilder, Face};
use voxel_builder::voxel_data_manager::VoxelDataManager;

fn catalog() -> VoxelDataManager {
    VoxelDataManager::new(vec![
        ("Air".to_string(), vec!["missing".to_string()]),
        (
            "Grass Block".to_string(),
            vec!["grass_top".to_string(), "dirt".to_string(), "grass_side".to_string()],
        ),
        ("Dirt".to_string(), vec!["dirt".to_string()]),
    ])
    .0
}

fn with_chunks(chunks: Vec<Chunk>) -> ChunkManager {
    let mut cm = ChunkManager::new(catalog());
    for chunk in chunks {
        cm.chunks.insert(key_of(chunk.position), chunk);
    }
    cm
}

fn chunk_with(position: IVec3, solid: &[IVec3], id: u8) -> Chunk {
    let mut chunk = Chunk::new(position);
    for &p in solid {
        chunk.set_voxel_from_coordinate(p, id);
    }
    chunk
}

#[test]
fn isolated_voxel_emits_six_faces() {
    let cm = with_chunks(vec![chunk_with(ivec3(0, 0, 0), &[ivec3(5, 5, 5)], 1)]);
    let mesh = ChunkMeshBuilder::build_chunk_mesh(ivec3(0, 0, 0), &cm);
    assert_eq!(mesh.vertices.len(), 24);
    assert_eq!(mesh.indices.len(), 36);
    assert_eq!(mesh.indices_count, 24);
    assert_eq!(&mesh.indices[0..6], &[0, 1, 2, 2, 3, 0]);
    assert_eq!(&mesh.indices[30..36], &[20, 21, 22, 22, 23, 20]);
    assert!(mesh.vertices.iter().all(|v| v.ambient_occlusion == 3));
    // Top face first: corners from its template, offset by the voxel.
    assert_eq!(mesh.vertices[0].position, ivec3(6, 6, 5));
    assert_eq!(mesh.vertices[1].position, ivec3(5, 6, 5));
    assert_eq!(mesh.vertices[2].position, ivec3(5, 6, 6));
    assert_eq!(mesh.vertices[3].position, ivec3(6, 6, 6));
    assert_eq!(mesh.vertices[0].light_level, 5);
    assert_eq!(mesh.vertices[3].tex_coords, 3);
    // Textures: top, bottom, then sides of a grass block.
    assert_eq!(mesh.vertices[0].texture_id, 1);
    assert_eq!(mesh.vertices[4].texture_id, 2);
    assert_eq!(mesh.vertices[8].texture_id, 3);
}

#[test]
fn enclosed_voxel_emits_no_faces() {
    let mut solid = vec![];
    for x in 4..7 {
        for y in 4..7 {
            for z in 4..7 {
                solid.push(ivec3(x, y, z));
            }
        }
    }
    let cm = with_chunks(vec![chunk_with(ivec3(0, 0, 0), &solid, 2)]);
    let mesh = ChunkMeshBuilder::build_chunk_mesh(ivec3(0, 0, 0), &cm);
    // Only the 9 outer faces of each side of the 3x3x3 block.
    assert_eq!(mesh.vertices.len(), 54 * 4);
    assert_eq!(mesh.indices.len(), 54 * 6);
    assert!(mesh.vertices.iter().all(|v| {
        let p = v.position;
        p.x == 4 || p.x == 7 || p.y == 4 || p.y == 7 || p.z == 4 || p.z == 7
    }));
}

#[test]
fn mesh_of_ungenerated_chunk_is_empty() {
    let cm = with_chunks(vec![]);
    let mesh = ChunkMeshBuilder::build_chunk_mesh(ivec3(3, 0, 0), &cm);
    assert!(mesh.vertices.is_empty());
    assert!(mesh.indices.is_empty());
}

#[test]
fn faces_against_solid_neighbour_chunk_are_culled() {
    let here = chunk_with(ivec3(0, 0, 0), &[ivec3(31, 0, 0)], 2);
    let next = chunk_with(ivec3(1, 0, 0), &[ivec3(0, 0, 0)], 2);
    let cm = with_chunks(vec![here, next]);
    let mesh = ChunkMeshBuilder::build_chunk_mesh(ivec3(0, 0, 0), &cm);
    assert_eq!(mesh.vertices.len(), 20);
    assert!(mesh.vertices.iter().all(|v| v.light_level != 3 || v.position.x == 31));
}

#[test]
fn faces_against_ungenerated_chunk_are_kept() {
    let cm = with_chunks(vec![chunk_with(ivec3(0, 0, 0), &[ivec3(31, 31, 31)], 2)]);
    let mesh = ChunkMeshBuilder::build_chunk_mesh(ivec3(0, 0, 0), &cm);
    assert_eq!(mesh.vertices.len(), 24);
}

#[test]
fn ambient_occlusion_counts_void_cells_per_corner() {
    // Exterior cell of a top face at (5, 6, 5); a solid block at (6, 6, 4),
    // the diagonal cell h of its ring.
    let cm = with_chunks(vec![chunk_with(ivec3(0, 0, 0), &[ivec3(6, 6, 4)], 2)]);
    let top = ChunkMeshBuilder::get_ambient_occlusion(ivec3(5, 6, 5), &cm, Face::Top);
    assert_eq!(top, [2, 3, 3, 3]);
    let bottom = ChunkMeshBuilder::get_ambient_occlusion(ivec3(5, 6, 5), &cm, Face::Bottom);
    assert_eq!(bottom, [3, 2, 3, 3]);
    let open = ChunkMeshBuilder::get_ambient_occlusion(ivec3(20, 20, 20), &cm, Face::Left);
    assert_eq!(open, [3, 3, 3, 3]);
}

#[test]
fn ambient_occlusion_on_side_faces_mirrors_between_opposites() {
    // Ring of a left/right face at (5, 5, 5): axes (y, z). Cell e is (5, 5, 6).
    let cm = with_chunks(vec![chunk_with(ivec3(0, 0, 0), &[ivec3(5, 5, 6)], 2)]);
    let left = ChunkMeshBuilder::get_ambient_occlusion(ivec3(5, 5, 5), &cm, Face::Left);
    assert_eq!(left, [2, 3, 3, 2]);
    let right = ChunkMeshBuilder::get_ambient_occlusion(ivec3(5, 5, 5), &cm, Face::Right);
    assert_eq!(right, [3, 2, 2, 3]);
    // Ring of a front/back face at (5, 5, 5): axes (y, x). Cell a is (4, 5, 5).
    let cm = with_chunks(vec![chunk_with(ivec3(0, 0, 0), &[ivec3(4, 5, 5)], 2)]);
    let front = ChunkMeshBuilder::get_ambient_occlusion(ivec3(5, 5, 5), &cm, Face::Front);
    assert_eq!(front, [3, 2, 2, 3]);
    let back = ChunkMeshBuilder::get_ambient_occlusion(ivec3(5, 5, 5), &cm, Face::Back);
    assert_eq!(back, [2, 3, 3, 2]);
}

#[test]
fn add_face_appends_four_vertices_and_two_triangles() {
    let mut mesh = ChunkMesh::new();
    mesh.add_face(Face::Bottom.mesh_face(), ivec3(1, 2, 3), 9, [0, 1, 2, 3]);
    mesh.add_face(Face::Front.mesh_face(), ivec3(0, 0, 0), 4, [3, 3, 3, 3]);
    assert_eq!(mesh.vertices.len(), 8);
    assert_eq!(mesh.indices, vec![0, 1, 2, 2, 3, 0, 4, 5, 6, 6, 7, 4]);
    assert_eq!(mesh.vertices[0].position, ivec3(1, 2, 3));
    assert_eq!(mesh.vertices[2].position, ivec3(2, 2, 4));
    assert_eq!(mesh.vertices[2].ambient_occlusion, 2);
    assert_eq!(mesh.vertices[2].light_level, 2);
    assert_eq!(mesh.vertices[4].position, ivec3(1, 1, 1));
    assert_eq!(mesh.vertices[5].texture_id, 4);
}

#[test]
fn faces_know_their_offsets_and_catalog_planes() {
    let expected = [
        (Face::Top, ivec3(0, 1, 0), 1),
        (Face::Bottom, ivec3(0, -1, 0), 4),
        (Face::Left, ivec3(-1, 0, 0), 0),
        (Face::Right, ivec3(1, 0, 0), 3),
        (Face::Front, ivec3(0, 0, 1), 2),
        (Face::Back, ivec3(0, 0, -1), 5),
    ];
    for (k, (face, offset, plane)) in expected.into_iter().enumerate() {
        assert_eq!(Face::nth(k), face);
        assert_eq!(face.offset(), offset);
        assert_eq!(face.plane(), plane);
    }
    assert_eq!(Face::Left.mesh_face().light_level, 3);
}

#[test]
fn blocks_around_counts_windows_of_three() {
    let around = BlocksAround { blocks: [1, 0, 1, 1, 0, 0, 1, 1] };
    assert_eq!(around.window_count(0), 2);
    assert_eq!(around.window_count(1), 2);
    assert_eq!(around.window_count(2), 1);
    assert_eq!(around.window_count(3), 3);
}

#[test]
fn air_needs_no_catalog_entry() {
    let catalog = VoxelDataManager::new(vec![
        ("Air".to_string(), vec!["missing".to_string()]),
        ("Dirt".to_string(), vec!["dirt".to_string()]),
    ])
    .0;
    let mut cm = ChunkManager::new(catalog);
    let chunk = chunk_with(ivec3(0, 0, 0), &[ivec3(1, 1, 1)], 1);
    cm.chunks.insert(key_of(chunk.position), chunk);
    let mesh = ChunkMeshBuilder::build_chunk_mesh(ivec3(0, 0, 0), &cm);
    assert_eq!(mesh.vertices.len(), 24);
    assert!(mesh.vertices.iter().all(|v| v.texture_id == 1));
}
