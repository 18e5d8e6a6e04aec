//! Meshing: one quad per voxel face that borders void space, with a
//! per-corner ambient shading count.

use vstd::prelude::*;

use crate::chunk::{
    coordinates_of, global_fits, global_of, Chunk, ChunkPosition, Convert, IVec3, VoxelPosition, AIR,
    CHUNK_VOLUME,
};
use crate::chunk_manager::ChunkManager;

verus! {

/// The six faces of a voxel.
#[derive(Clone, Copy, Debug, PartialEq, Eq, Structural)]
pub enum Face {
    Top,
    Bottom,
    Left,
    Right,
    Front,
    Back,
}

/// A face template: the local offsets (0 or 1 per axis) of its four corners,
/// three per corner, and a flat shading level.
pub struct MeshFace {
    pub vertices: [u8; 12],
    pub light_level: u8,
}

/// Void samples (1 void, 0 solid) of the eight cells around a face's
/// exterior neighbour, in ring order.
pub struct BlocksAround {
    pub blocks: [u8; 8],
}

/// Offset along the ring's first axis of ring cell `j`.
pub open spec fn ring_du(j: int) -> int {
    if j == 0 || j == 4 {
        0
    } else if j <= 3 {
        -1
    } else {
        1
    }
}

/// Offset along the ring's second axis of ring cell `j`.
pub open spec fn ring_dv(j: int) -> int {
    if j == 2 || j == 6 {
        0
    } else if j == 0 || j == 1 || j == 7 {
        -1
    } else {
        1
    }
}

/// Position of the cell `(du, dv)` away from `p` in the plane of `face`:
/// the ring's axes are (x, z) for top and bottom, (y, z) for left and
/// right, and (y, x) for front and back.
pub open spec fn in_plane(p: IVec3, face: Face, du: int, dv: int) -> IVec3 {
    match face {
        Face::Top | Face::Bottom => IVec3 { x: (p.x + du) as i32, y: p.y, z: (p.z + dv) as i32 },
        Face::Left | Face::Right => IVec3 { x: p.x, y: (p.y + du) as i32, z: (p.z + dv) as i32 },
        Face::Front | Face::Back => IVec3 { x: (p.x + dv) as i32, y: (p.y + du) as i32, z: p.z },
    }
}

/// Ring cell `j` around `p` in the plane of `face`.
pub open spec fn ring_cell(p: IVec3, face: Face, j: int) -> IVec3 {
    in_plane(p, face, ring_du(j), ring_dv(j))
}

/// Which three ring cells shade corner `corner` of `face`: cells `2w`,
/// `2w + 1` and `2w + 2` (mod 8) for the window `w` returned here.
pub open spec fn corner_window(face: Face, corner: int) -> int {
    match face {
        Face::Top => if corner == 0 { 3 } else { corner - 1 },
        Face::Bottom => if corner == 0 { 0 } else { 4 - corner },
        Face::Left | Face::Front => (corner + 2) % 4,
        Face::Right | Face::Back => 3 - corner,
    }
}

/// 1 where `g` is void in `cm`, 0 otherwise.
#[verifier::opaque]
pub open spec fn void_count(cm: &ChunkManager, g: IVec3) -> int {
    if cm.voxel(g) == None::<u8> || cm.voxel(g) == Some(0u8) {
        1
    } else {
        0
    }
}

/// Ambient shading of corner `corner` of `face`, whose exterior neighbour
/// is `p`: the number of void cells among the two ring cells beside that
/// corner and the one diagonal to it.
pub open spec fn shade(cm: &ChunkManager, p: IVec3, face: Face, corner: int) -> int {
    let w = corner_window(face, corner);
    void_count(cm, ring_cell(p, face, 2 * w)) + void_count(cm, ring_cell(p, face, 2 * w + 1))
        + void_count(cm, ring_cell(p, face, (2 * w + 2) % 8))
}

/// Every ring cell around `p` has coordinates that fit in an `i32`.
pub open spec fn ring_fits(p: IVec3) -> bool {
    &&& i32::MIN < p.x < i32::MAX
    &&& i32::MIN < p.y < i32::MAX
    &&& i32::MIN < p.z < i32::MAX
}

/// Offsets along the ring's two axes of ring cell `j`.
fn ring_step(j: usize) -> (r: (i32, i32))
    requires
        j < 8,
    ensures
        r.0 == ring_du(j as int),
        r.1 == ring_dv(j as int),
{
    if j == 0 {
        (0, -1)
    } else if j == 1 {
        (-1, -1)
    } else if j == 2 {
        (-1, 0)
    } else if j == 3 {
        (-1, 1)
    } else if j == 4 {
        (0, 1)
    } else if j == 5 {
        (1, 1)
    } else if j == 6 {
        (1, 0)
    } else {
        (1, -1)
    }
}

impl Face {
    /// Faces in meshing order: top, bottom, left, right, front, back.
    pub open spec fn spec_nth(k: int) -> Face {
        if k == 0 {
            Face::Top
        } else if k == 1 {
            Face::Bottom
        } else if k == 2 {
            Face::Left
        } else if k == 3 {
            Face::Right
        } else if k == 4 {
            Face::Front
        } else {
            Face::Back
        }
    }

    /// The `k`-th face in meshing order.
    pub fn nth(k: usize) -> (r: Face)
        requires
            k < 6,
        ensures
            r == Face::spec_nth(k as int),
    {
        if k == 0 {
            Face::Top
        } else if k == 1 {
            Face::Bottom
        } else if k == 2 {
            Face::Left
        } else if k == 3 {
            Face::Right
        } else if k == 4 {
            Face::Front
        } else {
            Face::Back
        }
    }

    /// Unit offset from a voxel to the neighbour this face looks at.
    pub open spec fn spec_offset(self) -> IVec3 {
        match self {
            Face::Top => IVec3 { x: 0, y: 1, z: 0 },
            Face::Bottom => IVec3 { x: 0, y: -1i32, z: 0 },
            Face::Left => IVec3 { x: -1i32, y: 0, z: 0 },
            Face::Right => IVec3 { x: 1, y: 0, z: 0 },
            Face::Front => IVec3 { x: 0, y: 0, z: 1 },
            Face::Back => IVec3 { x: 0, y: 0, z: -1i32 },
        }
    }

    #[verifier::when_used_as_spec(spec_offset)]
    pub fn offset(self) -> (r: IVec3)
        ensures
            r == self.spec_offset(),
    {
        match self {
            Face::Top => IVec3 { x: 0, y: 1, z: 0 },
            Face::Bottom => IVec3 { x: 0, y: -1, z: 0 },
            Face::Left => IVec3 { x: -1, y: 0, z: 0 },
            Face::Right => IVec3 { x: 1, y: 0, z: 0 },
            Face::Front => IVec3 { x: 0, y: 0, z: 1 },
            Face::Back => IVec3 { x: 0, y: 0, z: -1 },
        }
    }

    /// Index of this face in the catalog's texture table (left, top,
    /// front, right, bottom, back).
    pub open spec fn spec_plane(self) -> usize {
        match self {
            Face::Left => 0,
            Face::Top => 1,
            Face::Front => 2,
            Face::Right => 3,
            Face::Bottom => 4,
            Face::Back => 5,
        }
    }

    #[verifier::when_used_as_spec(spec_plane)]
    pub fn plane(self) -> (r: usize)
        ensures
            r == self.spec_plane(),
            r < 6,
    {
        match self {
            Face::Left => 0,
            Face::Top => 1,
            Face::Front => 2,
            Face::Right => 3,
            Face::Bottom => 4,
            Face::Back => 5,
        }
    }

    /// Corner offsets of this face, three per corner.
    pub open spec fn spec_corners(self) -> Seq<u8> {
        match self {
            Face::Top => seq![1u8, 1, 0, 0, 1, 0, 0, 1, 1, 1, 1, 1],
            Face::Bottom => seq![0u8, 0, 0, 1, 0, 0, 1, 0, 1, 0, 0, 1],
            Face::Left => seq![0u8, 1, 1, 0, 1, 0, 0, 0, 0, 0, 0, 1],
            Face::Right => seq![1u8, 1, 0, 1, 1, 1, 1, 0, 1, 1, 0, 0],
            Face::Front => seq![1u8, 1, 1, 0, 1, 1, 0, 0, 1, 1, 0, 1],
            Face::Back => seq![0u8, 1, 0, 1, 1, 0, 1, 0, 0, 0, 0, 0],
        }
    }

    /// Flat shading level of this face.
    pub open spec fn spec_light(self) -> u8 {
        match self {
            Face::Top => 5,
            Face::Bottom => 2,
            Face::Left | Face::Right => 3,
            Face::Front | Face::Back => 4,
        }
    }

    /// The template of this face.
    pub fn mesh_face(self) -> (r: MeshFace)
        ensures
            r.vertices@ == self.spec_corners(),
            r.light_level == self.spec_light(),
    {
        let r = match self {
            Face::Top => MeshFace { vertices: [1, 1, 0, 0, 1, 0, 0, 1, 1, 1, 1, 1], light_level: 5 },
            Face::Bottom => MeshFace {
                vertices: [0, 0, 0, 1, 0, 0, 1, 0, 1, 0, 0, 1],
                light_level: 2,
            },
            Face::Left => MeshFace { vertices: [0, 1, 1, 0, 1, 0, 0, 0, 0, 0, 0, 1], light_level: 3 },
            Face::Right => MeshFace {
                vertices: [1, 1, 0, 1, 1, 1, 1, 0, 1, 1, 0, 0],
                light_level: 3,
            },
            Face::Front => MeshFace {
                vertices: [1, 1, 1, 0, 1, 1, 0, 0, 1, 1, 0, 1],
                light_level: 4,
            },
            Face::Back => MeshFace { vertices: [0, 1, 0, 1, 1, 0, 1, 0, 0, 0, 0, 0], light_level: 4 },
        };
        proof {
            assert(r.vertices@ =~= self.spec_corners());
        }
        r
    }

    /// The cell `(du, dv)` away from `p` in the plane of this face.
    fn in_plane(self, p: IVec3, du: i32, dv: i32) -> (r: IVec3)
        requires
            ring_fits(p),
            -1 <= du <= 1,
            -1 <= dv <= 1,
        ensures
            r == in_plane(p, self, du as int, dv as int),
    {
        match self {
            Face::Top | Face::Bottom => IVec3 { x: p.x + du, y: p.y, z: p.z + dv },
            Face::Left | Face::Right => IVec3 { x: p.x, y: p.y + du, z: p.z + dv },
            Face::Front | Face::Back => IVec3 { x: p.x + dv, y: p.y + du, z: p.z },
        }
    }

    /// The window of ring cells that shades corner `corner`.
    fn corner_window(self, corner: usize) -> (r: usize)
        requires
            corner < 4,
        ensures
            r == corner_window(self, corner as int),
            r < 4,
    {
        match self {
            Face::Top => if corner == 0 { 3 } else { corner - 1 },
            Face::Bottom => if corner == 0 { 0 } else { 4 - corner },
            Face::Left | Face::Front => (corner + 2) % 4,
            Face::Right | Face::Back => 3 - corner,
        }
    }
}

impl BlocksAround {
    /// Number of void cells in window `w`: ring cells `2w`, `2w + 1`, `2w + 2`.
    pub fn window_count(&self, w: usize) -> (r: u8)
        requires
            w < 4,
            forall|j: int| 0 <= j < 8 ==> #[trigger] self.blocks@[j] <= 1,
        ensures
            r == self.blocks@[2 * w as int] + self.blocks@[2 * w + 1] + self.blocks@[(2 * w + 2)
                % 8],
            r <= 3,
    {
        self.blocks[2 * w] + self.blocks[2 * w + 1] + self.blocks[(2 * w + 2) % 8]
    }
}

/// One corner of an emitted face, in chunk-local voxel units.
#[derive(Clone, Copy, Debug, PartialEq, Eq, Structural)]
pub struct ChunkVertex {
    pub position: VoxelPosition,
    /// Which corner of its face (0 to 3), selecting the texture coordinates.
    pub tex_coords: u8,
    pub light_level: u8,
    pub texture_id: u32,
    /// Ambient shading of this corner, 0 to 3.
    pub ambient_occlusion: u8,
}

/// Vertices and triangle indices of a chunk; every four vertices make one
/// face, drawn as two triangles.
pub struct ChunkMesh {
    pub vertices: Vec<ChunkVertex>,
    pub indices: Vec<u32>,
    /// Number of vertices emitted so far.
    pub indices_count: usize,
}

/// Offset within its face of the vertex named by index `j` of a face's six
/// indices: triangles (0, 1, 2) and (2, 3, 0).
pub open spec fn quad_corner(j: int) -> int {
    if j == 0 || j == 5 {
        0
    } else if j == 1 {
        1
    } else if j == 2 || j == 3 {
        2
    } else {
        3
    }
}

/// The four vertices of a face with corner offsets `corners` and shading
/// level `light`, on the voxel at `position`.
pub open spec fn quad(
    corners: Seq<u8>,
    light: u8,
    position: IVec3,
    texture_id: u32,
    ao: Seq<u8>,
) -> Seq<ChunkVertex> {
    Seq::new(
        4,
        |k: int|
            ChunkVertex {
                position: IVec3 {
                    x: (position.x + corners[3 * k]) as i32,
                    y: (position.y + corners[3 * k + 1]) as i32,
                    z: (position.z + corners[3 * k + 2]) as i32,
                },
                tex_coords: k as u8,
                light_level: light,
                texture_id,
                ambient_occlusion: ao[k],
            },
    )
}

impl ChunkMesh {
    /// Four vertices per face, and six indices per face naming them.
    pub open spec fn wf(&self) -> bool {
        &&& self.vertices@.len() % 4 == 0
        &&& self.indices_count == self.vertices@.len()
        &&& self.indices@.len() == self.vertices@.len() / 4 * 6
        &&& forall|j: int|
            0 <= j < self.indices@.len() ==> #[trigger] self.indices@[j] == 4 * (j / 6)
                + quad_corner(j % 6)
    }

    pub fn new() -> (r: ChunkMesh)
        ensures
            r.wf(),
            r.vertices@.len() == 0,
    {
        ChunkMesh { vertices: Vec::new(), indices: Vec::new(), indices_count: 0 }
    }

    /// Appends one face: its four corners on the voxel at `position`, with
    /// the given texture and per-corner shading, and the six indices of its
    /// two triangles.
    pub fn add_face(&mut self, face: MeshFace, position: VoxelPosition, texture_id: u32, ao: [u8; 4])
        requires
            old(self).wf(),
            old(self).vertices@.len() + 4 <= u32::MAX,
            position.x < i32::MAX,
            position.y < i32::MAX,
            position.z < i32::MAX,
            forall|j: int| 0 <= j < 12 ==> #[trigger] face.vertices@[j] <= 1,
        ensures
            final(self).wf(),
            final(self).vertices@ == old(self).vertices@ + quad(
                face.vertices@,
                face.light_level,
                position,
                texture_id,
                ao@,
            ),
    {
        let ghost q = quad(face.vertices@, face.light_level, position, texture_id, ao@);
        let mut index: usize = 0;
        let mut i: usize = 0;
        while i < 4
            invariant
                i <= 4,
                index == 3 * i,
                q == quad(face.vertices@, face.light_level, position, texture_id, ao@),
                position.x < i32::MAX,
                position.y < i32::MAX,
                position.z < i32::MAX,
                forall|j: int| 0 <= j < 12 ==> #[trigger] face.vertices@[j] <= 1,
                self.vertices@ == old(self).vertices@ + q.subrange(0, i as int),
                self.indices@ == old(self).indices@,
                self.indices_count == old(self).indices_count,
            decreases 4 - i,
        {
            let x = face.vertices[index] as i32 + position.x;
            index += 1;
            let y = face.vertices[index] as i32 + position.y;
            index += 1;
            let z = face.vertices[index] as i32 + position.z;
            index += 1;
            self.vertices.push(
                ChunkVertex {
                    position: IVec3 { x, y, z },
                    tex_coords: i as u8,
                    light_level: face.light_level,
                    texture_id,
                    ambient_occlusion: ao[i],
                },
            );
            proof {
                assert(self.vertices@ =~= old(self).vertices@ + q.subrange(0, i + 1));
            }
            i += 1;
        }
        proof {
            assert(q.subrange(0, 4) =~= q);
        }
        let n = self.indices_count as u32;
        // First triangle
        self.indices.push(n);
        self.indices.push(n + 1);
        self.indices.push(n + 2);
        // Second triangle
        self.indices.push(n + 2);
        self.indices.push(n + 3);
        self.indices.push(n);
        self.indices_count += 4;
        proof {
            let old_len = old(self).indices@.len();
            assert forall|j: int| 0 <= j < self.indices@.len() implies #[trigger] self.indices@[j]
                == 4 * (j / 6) + quad_corner(j % 6) by {
                if j >= old_len {
                    assert(j / 6 == old_len / 6);
                    assert(old_len / 6 * 4 == n);
                } else {
                    assert(self.indices@[j] == old(self).indices@[j]);
                }
            }
        }
    }
}

/// The chunk at `c` and the ring of cells two voxels around it have global
/// coordinates that fit in an `i32`.
pub open spec fn chunk_meshable(c: IVec3) -> bool {
    &&& global_fits(c, IVec3 { x: -2i32, y: -2i32, z: -2i32 })
    &&& global_fits(c, IVec3 { x: 33, y: 33, z: 33 })
}

/// Local coordinate of the neighbour that face `face` of voxel `i` looks at.
pub open spec fn neighbour_of(i: int, face: Face) -> IVec3 {
    let p = coordinates_of(i);
    IVec3 {
        x: (p.x + face.spec_offset().x) as i32,
        y: (p.y + face.spec_offset().y) as i32,
        z: (p.z + face.spec_offset().z) as i32,
    }
}

/// The cell is air or lies in a chunk not generated yet.
pub open spec fn void_at(cm: &ChunkManager, g: IVec3) -> bool {
    cm.voxel(g) == None::<u8> || cm.voxel(g) == Some(0u8)
}

/// Face `face` of voxel `i` of the chunk at `c` borders void space.
pub open spec fn face_visible(cm: &ChunkManager, c: IVec3, i: int, face: Face) -> bool {
    void_at(cm, global_of(c, neighbour_of(i, face)))
}

/// The four vertices emitted for face `face` of voxel `i` of the chunk at `c`.
pub open spec fn face_quad(cm: &ChunkManager, c: IVec3, i: int, face: Face) -> Seq<ChunkVertex> {
    let outside = global_of(c, neighbour_of(i, face));
    quad(
        face.spec_corners(),
        face.spec_light(),
        coordinates_of(i),
        cm.voxel_data_manager.texture_of(cm.chunk(c).voxels@[i] as int, face.spec_plane() as int),
        Seq::new(4, |k: int| shade(cm, outside, face, k) as u8),
    )
}

/// Vertices emitted for the first `n` faces, in meshing order, of voxel `i`
/// of the chunk at `c`.
pub open spec fn voxel_quads(cm: &ChunkManager, c: IVec3, i: int, n: nat) -> Seq<ChunkVertex>
    decreases n,
{
    if n == 0 {
        Seq::empty()
    } else {
        let face = Face::spec_nth(n - 1);
        voxel_quads(cm, c, i, (n - 1) as nat) + if face_visible(cm, c, i, face) {
            face_quad(cm, c, i, face)
        } else {
            Seq::empty()
        }
    }
}

/// Vertices emitted for the first `n` voxels of the chunk at `c`: nothing
/// for air, the visible faces of every other voxel.
pub open spec fn mesh_vertices(cm: &ChunkManager, c: IVec3, n: nat) -> Seq<ChunkVertex>
    decreases n,
{
    if n == 0 {
        Seq::empty()
    } else {
        mesh_vertices(cm, c, (n - 1) as nat) + if cm.chunk(c).voxels@[n - 1] != AIR {
            voxel_quads(cm, c, n - 1, 6)
        } else {
            Seq::empty()
        }
    }
}

/// Each face contributes four vertices when visible, none otherwise.
proof fn lemma_voxel_quads_len(cm: &ChunkManager, c: IVec3, i: int, n: nat)
    requires
        n <= 6,
    ensures
        voxel_quads(cm, c, i, n).len() == 4 * count_visible(cm, c, i, n),
    decreases n,
{
    if n > 0 {
        lemma_voxel_quads_len(cm, c, i, (n - 1) as nat);
    }
}

/// Number of faces among the first `n`, in meshing order, of voxel `i` of
/// the chunk at `c` that border void space.
pub open spec fn count_visible(cm: &ChunkManager, c: IVec3, i: int, n: nat) -> nat
    decreases n,
{
    if n == 0 {
        0
    } else {
        count_visible(cm, c, i, (n - 1) as nat) + if face_visible(cm, c, i, Face::spec_nth(n - 1)) {
            1nat
        } else {
            0nat
        }
    }
}

/// A voxel whose six neighbours are all void emits six faces (24
/// vertices); one whose six neighbours are all solid emits none.
pub proof fn lemma_voxel_face_count(cm: &ChunkManager, c: IVec3, i: int)
    ensures
        (forall|k: int| 0 <= k < 6 ==> face_visible(cm, c, i, #[trigger] Face::spec_nth(k)))
            ==> voxel_quads(cm, c, i, 6).len() == 24,
        (forall|k: int| 0 <= k < 6 ==> !face_visible(cm, c, i, #[trigger] Face::spec_nth(k)))
            ==> voxel_quads(cm, c, i, 6).len() == 0,
{
    lemma_voxel_quads_len(cm, c, i, 6);
    reveal_with_fuel(count_visible, 7);
    assert(Face::spec_nth(0) == Face::Top);
    assert(Face::spec_nth(1) == Face::Bottom);
    assert(Face::spec_nth(2) == Face::Left);
    assert(Face::spec_nth(3) == Face::Right);
    assert(Face::spec_nth(4) == Face::Front);
    assert(Face::spec_nth(5) == Face::Back);
}

/// A chunk whose only non-air voxel `i` borders void space on all six
/// sides meshes to exactly six faces: 24 vertices and 36 indices.
pub proof fn lemma_single_voxel_mesh(cm: &ChunkManager, c: IVec3, i: int, mesh: &ChunkMesh)
    requires
        cm.has_chunk(c),
        0 <= i < CHUNK_VOLUME,
        cm.chunk(c).voxels@[i] != AIR,
        forall|j: int| 0 <= j < CHUNK_VOLUME && j != i ==> #[trigger] cm.chunk(c).voxels@[j] == AIR,
        forall|k: int| 0 <= k < 6 ==> face_visible(cm, c, i, #[trigger] Face::spec_nth(k)),
        mesh.wf(),
        mesh.vertices@ == mesh_vertices(cm, c, CHUNK_VOLUME as nat),
    ensures
        mesh.vertices@.len() == 24,
        mesh.indices@.len() == 36,
{
    lemma_voxel_face_count(cm, c, i);
    lemma_single_voxel_prefix(cm, c, i, CHUNK_VOLUME as nat);
}

proof fn lemma_single_voxel_prefix(cm: &ChunkManager, c: IVec3, i: int, n: nat)
    requires
        n <= CHUNK_VOLUME,
        0 <= i < CHUNK_VOLUME,
        cm.chunk(c).voxels@[i] != AIR,
        forall|j: int| 0 <= j < CHUNK_VOLUME && j != i ==> #[trigger] cm.chunk(c).voxels@[j] == AIR,
        voxel_quads(cm, c, i, 6).len() == 24,
    ensures
        mesh_vertices(cm, c, n).len() == if i < n {
            24nat
        } else {
            0nat
        },
    decreases n,
{
    if n > 0 {
        lemma_single_voxel_prefix(cm, c, i, (n - 1) as nat);
    }
}

proof fn lemma_shade_bounded(cm: &ChunkManager, p: IVec3, face: Face, corner: int)
    ensures
        0 <= shade(cm, p, face, corner) <= 3,
{
    reveal(void_count);
}

proof fn lemma_voxel_quads_shading(cm: &ChunkManager, c: IVec3, i: int, n: nat)
    ensures
        forall|j: int|
            0 <= j < voxel_quads(cm, c, i, n).len() ==> #[trigger] voxel_quads(
                cm,
                c,
                i,
                n,
            )[j].ambient_occlusion <= 3,
    decreases n,
{
    if n > 0 {
        lemma_voxel_quads_shading(cm, c, i, (n - 1) as nat);
        let face = Face::spec_nth(n - 1);
        let outside = global_of(c, neighbour_of(i, face));
        assert forall|k: int| 0 <= k < 4 implies #[trigger] face_quad(
            cm,
            c,
            i,
            face,
        )[k].ambient_occlusion <= 3 by {
            lemma_shade_bounded(cm, outside, face, k);
        }
        let prev = voxel_quads(cm, c, i, (n - 1) as nat);
        let all = voxel_quads(cm, c, i, n);
        assert forall|j: int| 0 <= j < all.len() implies #[trigger] all[j].ambient_occlusion <= 3 by {
            if j >= prev.len() {
                assert(all[j] == face_quad(cm, c, i, face)[j - prev.len()]);
            } else {
                assert(all[j] == prev[j]);
            }
        }
    }
}

/// Every vertex of a chunk's mesh has an ambient shading of 0 to 3.
pub proof fn lemma_mesh_shading_bounded(cm: &ChunkManager, c: IVec3, n: nat)
    ensures
        forall|j: int|
            0 <= j < mesh_vertices(cm, c, n).len() ==> #[trigger] mesh_vertices(
                cm,
                c,
                n,
            )[j].ambient_occlusion <= 3,
    decreases n,
{
    if n > 0 {
        lemma_mesh_shading_bounded(cm, c, (n - 1) as nat);
        lemma_voxel_quads_shading(cm, c, n - 1, 6);
        let prev = mesh_vertices(cm, c, (n - 1) as nat);
        let all = mesh_vertices(cm, c, n);
        assert forall|j: int| 0 <= j < all.len() implies #[trigger] all[j].ambient_occlusion <= 3 by {
            if j >= prev.len() {
                assert(all[j] == voxel_quads(cm, c, n - 1, 6)[j - prev.len()]);
            } else {
                assert(all[j] == prev[j]);
            }
        }
    }
}

/// Builds chunk meshes and their ambient shading.
pub struct ChunkMeshBuilder {}

impl ChunkMeshBuilder {
    /// Builds the mesh of the chunk at `chunk_position`: for each non-air
    /// voxel, in index order, each face (top, bottom, left, right, front,
    /// back) whose neighbour is air or lies in a chunk not generated yet,
    /// with its texture from the catalog and its corner shading. The mesh
    /// is empty where no chunk has been generated.
    pub fn build_chunk_mesh(chunk_position: ChunkPosition, chunk_manager: &ChunkManager) -> (r:
        ChunkMesh)
        requires
            chunk_manager.wf(),
            chunk_meshable(chunk_position),
            chunk_manager.has_chunk(chunk_position) ==> forall|i: int|
                0 <= i < CHUNK_VOLUME && #[trigger] chunk_manager.chunk(chunk_position).voxels@[i]
                    != AIR ==> chunk_manager.chunk(chunk_position).voxels@[i]
                    < chunk_manager.voxel_data_manager.len(),
        ensures
            r.wf(),
            !chunk_manager.has_chunk(chunk_position) ==> r.vertices@.len() == 0,
            chunk_manager.has_chunk(chunk_position) ==> r.vertices@ == mesh_vertices(
                chunk_manager,
                chunk_position,
                CHUNK_VOLUME as nat,
            ),
    {
        let mut mesh = ChunkMesh::new();
        let chunk = match chunk_manager.get_chunk(chunk_position) {
            Some(chunk) => chunk,
            None => {
                return mesh;
            },
        };
        let ghost cm = chunk_manager;
        let ghost c = chunk_position;
        proof {
            assert(chunk.wf());
        }
        let mut i: usize = 0;
        while i < CHUNK_VOLUME
            invariant
                i <= CHUNK_VOLUME,
                cm == chunk_manager,
                c == chunk_position,
                chunk_manager.wf(),
                chunk_meshable(chunk_position),
                chunk_manager.has_chunk(chunk_position),
                *chunk == chunk_manager.chunk(chunk_position),
                chunk.wf(),
                forall|j: int|
                    0 <= j < CHUNK_VOLUME && #[trigger] chunk_manager.chunk(
                        chunk_position,
                    ).voxels@[j] != AIR ==> chunk_manager.chunk(chunk_position).voxels@[j]
                        < chunk_manager.voxel_data_manager.len(),
                mesh.wf(),
                mesh.vertices@ == mesh_vertices(cm, c, i as nat),
                mesh.vertices@.len() <= 24 * i,
            decreases CHUNK_VOLUME - i,
        {
            let voxel_id = chunk.voxels[i];
            if voxel_id != AIR {
                let mut k: usize = 0;
                while k < 6
                    invariant
                        k <= 6,
                        i < CHUNK_VOLUME,
                        cm == chunk_manager,
                        c == chunk_position,
                        chunk_manager.wf(),
                        chunk_meshable(chunk_position),
                        chunk_manager.has_chunk(chunk_position),
                        *chunk == chunk_manager.chunk(chunk_position),
                        chunk.wf(),
                        voxel_id == chunk.voxels@[i as int],
                        voxel_id < chunk_manager.voxel_data_manager.len(),
                        mesh.wf(),
                        mesh.vertices@ == mesh_vertices(cm, c, i as nat) + voxel_quads(
                            cm,
                            c,
                            i as int,
                            k as nat,
                        ),
                        mesh.vertices@.len() <= 24 * i + 4 * k,
                    decreases 6 - k,
                {
                    let face = Face::nth(k);
                    Self::add_face_if_visible(&mut mesh, chunk_position, chunk_manager, chunk, i, face);
                    proof {
                        assert(mesh.vertices@ =~= mesh_vertices(cm, c, i as nat) + voxel_quads(
                            cm,
                            c,
                            i as int,
                            (k + 1) as nat,
                        ));
                    }
                    k += 1;
                }
            }
            proof {
                assert(mesh.vertices@ =~= mesh_vertices(cm, c, (i + 1) as nat));
            }
            i += 1;
        }
        mesh
    }

    /// Appends face `face` of voxel `i` of `chunk`, the chunk at
    /// `chunk_position`, where that face borders void space.
    fn add_face_if_visible(
        mesh: &mut ChunkMesh,
        chunk_position: ChunkPosition,
        chunk_manager: &ChunkManager,
        chunk: &Chunk,
        i: usize,
        face: Face,
    )
        requires
            old(mesh).wf(),
            old(mesh).vertices@.len() + 4 <= u32::MAX,
            chunk_manager.wf(),
            chunk_meshable(chunk_position),
            chunk_manager.has_chunk(chunk_position),
            *chunk == chunk_manager.chunk(chunk_position),
            i < CHUNK_VOLUME,
            chunk.voxels@[i as int] < chunk_manager.voxel_data_manager.len(),
        ensures
            final(mesh).wf(),
            final(mesh).vertices@ == old(mesh).vertices@ + if face_visible(
                chunk_manager,
                chunk_position,
                i as int,
                face,
            ) {
                face_quad(chunk_manager, chunk_position, i as int, face)
            } else {
                Seq::empty()
            },
            final(mesh).vertices@.len() <= old(mesh).vertices@.len() + 4,
    {
        let ghost cm = chunk_manager;
        let ghost c = chunk_position;
        proof {
            assert(chunk.wf());
        }
        let voxel_id = chunk.voxels[i];
        let local = Chunk::index_to_coordinates(i);
        let offset = face.offset();
        let neighbour_coord = IVec3 {
            x: local.x + offset.x,
            y: local.y + offset.y,
            z: local.z + offset.z,
        };
        let neighbour_global = Convert::local_to_global(chunk_position, neighbour_coord);
        let should_add_face;
        if Chunk::coordinate_out_of_bounds(neighbour_coord) {
            // Outside this chunk: ask the manager about the neighbouring one.
            should_add_face = match chunk_manager.get_voxel(neighbour_global) {
                Some(v) => v == AIR,
                None => true,
            };
        } else {
            proof {
                crate::chunk::lemma_local_global_round_trip(chunk_position, neighbour_coord);
            }
            should_add_face = chunk.get_voxel_from_coordinate(neighbour_coord) == AIR;
        }
        proof {
            assert(neighbour_coord == neighbour_of(i as int, face));
            assert(should_add_face == face_visible(cm, c, i as int, face));
        }
        if should_add_face {
            let texture_id = chunk_manager.voxel_data_manager.get_texture_id(voxel_id, face.plane());
            let ao = ChunkMeshBuilder::get_ambient_occlusion(neighbour_global, chunk_manager, face);
            let template = face.mesh_face();
            proof {
                assert forall|j: int| 0 <= j < 12 implies #[trigger] template.vertices@[j] <= 1 by {
                    assert(face.spec_corners()[j] <= 1);
                }
                assert(ao@ =~= Seq::new(
                    4,
                    |q: int| shade(cm, global_of(c, neighbour_of(i as int, face)), face, q) as u8,
                ));
            }
            mesh.add_face(template, local, texture_id, ao);
        } else {
            proof {
                assert(mesh.vertices@ =~= old(mesh).vertices@ + Seq::<ChunkVertex>::empty());
            }
        }
    }

    /// 1 where the ring cell `j` around `p` is void, 0 otherwise.
    fn ring_sample(p: IVec3, face: Face, j: usize, chunk_manager: &ChunkManager) -> (r: u8)
        requires
            chunk_manager.wf(),
            ring_fits(p),
            j < 8,
        ensures
            r == void_count(chunk_manager, ring_cell(p, face, j as int)),
    {
        let (du, dv) = ring_step(j);
        proof {
            reveal(void_count);
        }
        if chunk_manager.is_void(face.in_plane(p, du, dv)) {
            1
        } else {
            0
        }
    }

    /// Ambient shading of the four corners of `face`, whose exterior
    /// neighbour is `global_voxel_position`: for each corner, the number of
    /// void cells among the two cells beside it and the one diagonal to it,
    /// in the plane of the face. Always 0 to 3; higher means more exposed.
    pub fn get_ambient_occlusion(
        global_voxel_position: VoxelPosition,
        chunk_manager: &ChunkManager,
        face: Face,
    ) -> (r: [u8; 4])
        requires
            chunk_manager.wf(),
            ring_fits(global_voxel_position),
        ensures
            forall|k: int|
                0 <= k < 4 ==> #[trigger] r@[k] == shade(chunk_manager, global_voxel_position, face, k),
            forall|k: int| 0 <= k < 4 ==> #[trigger] r@[k] <= 3,
    {
        let p = global_voxel_position;
        let around = BlocksAround {
            blocks: [
                Self::ring_sample(p, face, 0, chunk_manager),
                Self::ring_sample(p, face, 1, chunk_manager),
                Self::ring_sample(p, face, 2, chunk_manager),
                Self::ring_sample(p, face, 3, chunk_manager),
                Self::ring_sample(p, face, 4, chunk_manager),
                Self::ring_sample(p, face, 5, chunk_manager),
                Self::ring_sample(p, face, 6, chunk_manager),
                Self::ring_sample(p, face, 7, chunk_manager),
            ],
        };
        let ghost b = around.blocks@;
        proof {
            assert forall|j: int| 0 <= j < 8 implies #[trigger] b[j] == void_count(
                chunk_manager,
                ring_cell(p, face, j),
            ) && b[j] <= 1 by {
                reveal(void_count);
            }
        }
        let r = [
            around.window_count(face.corner_window(0)),
            around.window_count(face.corner_window(1)),
            around.window_count(face.corner_window(2)),
            around.window_count(face.corner_window(3)),
        ];
        proof {
            assert(r@[0] == shade(chunk_manager, p, face, 0));
            assert(r@[1] == shade(chunk_manager, p, face, 1));
            assert(r@[2] == shade(chunk_manager, p, face, 2));
            assert(r@[3] == shade(chunk_manager, p, face, 3));
        }
        r
    }
}

} // verus!
