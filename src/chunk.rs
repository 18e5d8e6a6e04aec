//! Chunks of voxels and the conversions between local, global and chunk-grid
//! coordinates.

use vstd::arithmetic::div_mod::lemma_fundamental_div_mod;
use vstd::arithmetic::div_mod::lemma_fundamental_div_mod_converse;
use vstd::prelude::*;

verus! {

/// Edge length of a chunk, in voxels.
pub const CHUNK_SIZE: i32 = 32;

/// Edge length of a chunk, as an index type.
pub const CHUNK_SIZE_USIZE: usize = 32;

/// Largest local coordinate on any axis.
pub const CHUNK_SIZE_MIN1: i32 = 31;

/// Number of voxels in one horizontal layer of a chunk.
pub const CHUNK_AREA: i32 = 1024;

/// Number of voxels held by one chunk.
pub const CHUNK_VOLUME: usize = 32768;

/// A voxel type; 0 is air, every other value names an entry of the catalog.
pub type VoxelID = u8;

/// The voxels of one chunk, in `index_of` order.
pub type VoxelList = Vec<VoxelID>;

/// The air voxel: transparent, never meshed.
pub const AIR: VoxelID = 0;

/// An integer 3-vector.
#[derive(Clone, Copy, Debug, PartialEq, Eq, Hash, Structural)]
pub struct IVec3 {
    pub x: i32,
    pub y: i32,
    pub z: i32,
}

/// A position in voxel units, either relative to a chunk or to the world.
pub type VoxelPosition = IVec3;

/// A position in the chunk grid; one unit is `CHUNK_SIZE` voxels.
pub type ChunkPosition = IVec3;

impl IVec3 {
    pub fn new(x: i32, y: i32, z: i32) -> (r: IVec3)
        ensures
            r == (IVec3 { x, y, z }),
    {
        IVec3 { x, y, z }
    }
}

/// Shorthand for `IVec3::new`.
pub fn ivec3(x: i32, y: i32, z: i32) -> (r: IVec3)
    ensures
        r == (IVec3 { x, y, z }),
{
    IVec3 { x, y, z }
}

/// Every axis lies in `[0, CHUNK_SIZE)`.
pub open spec fn in_chunk_bounds(p: IVec3) -> bool {
    &&& 0 <= p.x < CHUNK_SIZE
    &&& 0 <= p.y < CHUNK_SIZE
    &&& 0 <= p.z < CHUNK_SIZE
}

/// Linear index of a local coordinate: `y * N² + z * N + x`.
pub open spec fn index_of(p: IVec3) -> int {
    p.y * 1024 + p.z * 32 + p.x
}

/// Local coordinate of a linear index, the inverse of `index_of`.
pub open spec fn coordinates_of(i: int) -> IVec3 {
    IVec3 { x: (i % 32) as i32, y: (i / 1024) as i32, z: ((i / 32) % 32) as i32 }
}

/// Chunk-relative coordinate of a global position (floor modulo on each axis).
pub open spec fn local_of(g: IVec3) -> IVec3 {
    IVec3 { x: (g.x % 32) as i32, y: (g.y % 32) as i32, z: (g.z % 32) as i32 }
}

/// Chunk owning a global position (floor division on each axis).
pub open spec fn chunk_of(g: IVec3) -> IVec3 {
    IVec3 { x: (g.x / 32) as i32, y: (g.y / 32) as i32, z: (g.z / 32) as i32 }
}

/// `c * N + l` fits in an `i32` on every axis.
pub open spec fn global_fits(c: IVec3, l: IVec3) -> bool {
    &&& i32::MIN <= c.x * 32 + l.x <= i32::MAX
    &&& i32::MIN <= c.y * 32 + l.y <= i32::MAX
    &&& i32::MIN <= c.z * 32 + l.z <= i32::MAX
}

/// Global position of local coordinate `l` in chunk `c`: `c * N + l`.
pub open spec fn global_of(c: IVec3, l: IVec3) -> IVec3 {
    IVec3 { x: (c.x * 32 + l.x) as i32, y: (c.y * 32 + l.y) as i32, z: (c.z * 32 + l.z) as i32 }
}

/// A fixed-size cube of voxels, stored in `index_of` order.
pub struct Chunk {
    pub voxels: VoxelList,
    pub position: ChunkPosition,
}

/// A voxel array of one chunk, all air.
pub fn default_voxels() -> (r: VoxelList)
    ensures
        r@ == Seq::new(CHUNK_VOLUME as nat, |i: int| AIR),
{
    let r = vec![AIR; CHUNK_VOLUME];
    r
}

impl Chunk {
    /// Holds exactly one voxel per local coordinate.
    pub open spec fn wf(&self) -> bool {
        self.voxels@.len() == CHUNK_VOLUME
    }

    /// The voxel at a local coordinate.
    pub open spec fn voxel_at(&self, p: IVec3) -> VoxelID {
        self.voxels@[index_of(p)]
    }

    /// An all-air chunk at `position`.
    pub fn new(position: ChunkPosition) -> (r: Chunk)
        ensures
            r.wf(),
            r.position == position,
            forall|i: int| 0 <= i < CHUNK_VOLUME ==> r.voxels@[i] == AIR,
    {
        Chunk { voxels: default_voxels(), position }
    }

    /// Turns 3D local coordinates into an index of the voxel array.
    pub fn coordinates_to_index(coordinate: VoxelPosition) -> (r: usize)
        requires
            in_chunk_bounds(coordinate),
        ensures
            r == index_of(coordinate),
            r < CHUNK_VOLUME,
    {
        ((CHUNK_AREA * coordinate.y) + (CHUNK_SIZE * coordinate.z) + coordinate.x) as usize
    }

    /// True if any axis lies outside `[0, CHUNK_SIZE)`.
    pub fn coordinate_out_of_bounds(coordinate: VoxelPosition) -> (r: bool)
        ensures
            r == !in_chunk_bounds(coordinate),
    {
        coordinate.x < 0 || coordinate.y < 0 || coordinate.z < 0 || coordinate.x
            > CHUNK_SIZE_MIN1 || coordinate.y > CHUNK_SIZE_MIN1 || coordinate.z > CHUNK_SIZE_MIN1
    }

    /// Turns an index of the voxel array into 3D local coordinates.
    pub fn index_to_coordinates(index: usize) -> (r: VoxelPosition)
        requires
            index < CHUNK_VOLUME,
        ensures
            r == coordinates_of(index as int),
            in_chunk_bounds(r),
            index_of(r) == index,
    {
        proof {
            lemma_index_round_trip(index as int);
        }
        IVec3 {
            y: (index / (CHUNK_SIZE_USIZE * CHUNK_SIZE_USIZE)) as i32,
            z: ((index / CHUNK_SIZE_USIZE) % CHUNK_SIZE_USIZE) as i32,
            x: (index % CHUNK_SIZE_USIZE) as i32,
        }
    }

    /// The voxel at an index of the voxel array.
    pub fn get_voxel_from_index(&self, index: usize) -> (r: VoxelID)
        requires
            self.wf(),
            index < CHUNK_VOLUME,
        ensures
            r == self.voxels@[index as int],
    {
        self.voxels[index]
    }

    /// The voxel at a local coordinate.
    pub fn get_voxel_from_coordinate(&self, coordinate: VoxelPosition) -> (r: VoxelID)
        requires
            self.wf(),
            in_chunk_bounds(coordinate),
        ensures
            r == self.voxel_at(coordinate),
    {
        self.get_voxel_from_index(Chunk::coordinates_to_index(coordinate))
    }

    /// Overwrites the voxel at an index of the voxel array.
    pub fn set_voxel_from_index(&mut self, index: usize, voxel_id: VoxelID)
        requires
            old(self).wf(),
            index < CHUNK_VOLUME,
        ensures
            final(self).voxels@ == old(self).voxels@.update(index as int, voxel_id),
            final(self).position == old(self).position,
            final(self).wf(),
    {
        self.voxels.set(index, voxel_id);
    }

    /// Overwrites the voxel at a local coordinate.
    pub fn set_voxel_from_coordinate(&mut self, coordinate: VoxelPosition, voxel_id: VoxelID)
        requires
            old(self).wf(),
            in_chunk_bounds(coordinate),
        ensures
            final(self).voxels@ == old(self).voxels@.update(index_of(coordinate), voxel_id),
            final(self).position == old(self).position,
            final(self).wf(),
    {
        self.set_voxel_from_index(Chunk::coordinates_to_index(coordinate), voxel_id);
    }
}

/// Conversions between local, global and chunk-grid coordinates.
pub struct Convert {}

impl Convert {
    /// `chunk_position * N + local_voxel_pos`.
    pub fn local_to_global(chunk_position: ChunkPosition, local_voxel_pos: VoxelPosition) -> (r:
        VoxelPosition)
        requires
            global_fits(chunk_position, local_voxel_pos),
        ensures
            r == global_of(chunk_position, local_voxel_pos),
    {
        IVec3 {
            x: (chunk_position.x as i64 * CHUNK_SIZE as i64 + local_voxel_pos.x as i64) as i32,
            y: (chunk_position.y as i64 * CHUNK_SIZE as i64 + local_voxel_pos.y as i64) as i32,
            z: (chunk_position.z as i64 * CHUNK_SIZE as i64 + local_voxel_pos.z as i64) as i32,
        }
    }

    /// Floor modulo of each axis by `N`: always in `[0, N)`.
    pub fn global_to_local(global_coord: VoxelPosition) -> (r: VoxelPosition)
        ensures
            r == local_of(global_coord),
            in_chunk_bounds(r),
    {
        IVec3 {
            x: global_coord.x.checked_rem_euclid(CHUNK_SIZE).unwrap(),
            y: global_coord.y.checked_rem_euclid(CHUNK_SIZE).unwrap(),
            z: global_coord.z.checked_rem_euclid(CHUNK_SIZE).unwrap(),
        }
    }

    /// Floor division of each axis by `N`.
    pub fn global_to_chunk(global_coord: VoxelPosition) -> (r: ChunkPosition)
        ensures
            r == chunk_of(global_coord),
    {
        proof {
            lemma_floor_div_in_range(global_coord.x as int);
            lemma_floor_div_in_range(global_coord.y as int);
            lemma_floor_div_in_range(global_coord.z as int);
        }
        IVec3 {
            x: global_coord.x.checked_div_euclid(CHUNK_SIZE).unwrap(),
            y: global_coord.y.checked_div_euclid(CHUNK_SIZE).unwrap(),
            z: global_coord.z.checked_div_euclid(CHUNK_SIZE).unwrap(),
        }
    }
}

proof fn lemma_floor_div_in_range(v: int)
    requires
        i32::MIN <= v <= i32::MAX,
    ensures
        i32::MIN <= v / 32 <= i32::MAX,
        0 <= v % 32 < 32,
{
    lemma_fundamental_div_mod(v, 32);
}

/// Index and local coordinates are inverse bijections:
/// `coordinates_to_index(index_to_coordinates(i)) == i` for every index.
pub proof fn lemma_index_round_trip(i: int)
    requires
        0 <= i < CHUNK_VOLUME,
    ensures
        in_chunk_bounds(coordinates_of(i)),
        index_of(coordinates_of(i)) == i,
{
    lemma_fundamental_div_mod(i, 32);
    lemma_fundamental_div_mod(i / 32, 32);
    lemma_fundamental_div_mod(i, 1024);
    assert((i / 32) / 32 == i / 1024) by {
        vstd::arithmetic::div_mod::lemma_div_denominator(i, 32, 32);
    }
}

/// The other direction: the index of a local coordinate maps back to it.
pub proof fn lemma_coordinates_round_trip(p: IVec3)
    requires
        in_chunk_bounds(p),
    ensures
        0 <= index_of(p) < CHUNK_VOLUME,
        coordinates_of(index_of(p)) == p,
{
    let i = index_of(p);
    lemma_fundamental_div_mod_converse(i, 32, p.y * 32 + p.z, p.x as int);
    lemma_fundamental_div_mod_converse(p.y * 32 + p.z, 32, p.y as int, p.z as int);
    lemma_fundamental_div_mod_converse(i, 1024, p.y as int, p.z * 32 + p.x);
}

/// Going from chunk and local coordinate to a global position and back
/// recovers both: `global_to_local(local_to_global(c, l)) == l` and
/// `global_to_chunk(local_to_global(c, l)) == c`.
pub proof fn lemma_local_global_round_trip(c: IVec3, l: IVec3)
    requires
        in_chunk_bounds(l),
        global_fits(c, l),
    ensures
        local_of(global_of(c, l)) == l,
        chunk_of(global_of(c, l)) == c,
{
    lemma_fundamental_div_mod_converse(c.x * 32 + l.x, 32, c.x as int, l.x as int);
    lemma_fundamental_div_mod_converse(c.y * 32 + l.y, 32, c.y as int, l.y as int);
    lemma_fundamental_div_mod_converse(c.z * 32 + l.z, 32, c.z as int, l.z as int);
}

/// Every global position is the global position of its local coordinate in
/// its owning chunk: `local_to_global(global_to_chunk(g), global_to_local(g)) == g`.
pub proof fn lemma_global_decomposition(g: IVec3)
    ensures
        in_chunk_bounds(local_of(g)),
        global_fits(chunk_of(g), local_of(g)),
        global_of(chunk_of(g), local_of(g)) == g,
{
    lemma_floor_div_in_range(g.x as int);
    lemma_floor_div_in_range(g.y as int);
    lemma_floor_div_in_range(g.z as int);
    lemma_fundamental_div_mod(g.x as int, 32);
    lemma_fundamental_div_mod(g.y as int, 32);
    lemma_fundamental_div_mod(g.z as int, 32);
}

} // verus!
