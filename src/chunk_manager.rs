//! The sparse world of chunks: voxel access across chunk boundaries,
//! terrain generation and the queue of placements deferred until their
//! chunk is generated.

use std::collections::HashMap;

use bracket_random::prelude::RandomNumberGenerator;
use vstd::arithmetic::div_mod::lemma_fundamental_div_mod_converse;
use vstd::prelude::*;
use vstd::std_specs::hash::group_hash_axioms;

use crate::chunk::{
    chunk_of, coordinates_of, global_fits, index_of, local_of, Chunk, ChunkPosition, Convert, IVec3,
    VoxelID, VoxelPosition, AIR, CHUNK_SIZE, CHUNK_SIZE_USIZE, CHUNK_VOLUME, ivec3,
};
use crate::random::random_in_range;
use crate::voxel_data_manager::VoxelDataManager;

verus! {

broadcast use group_hash_axioms;

/// Key of a chunk position in the chunk table: the three axes, each shifted
/// to be non-negative, packed into 32 bits apiece.
pub open spec fn chunk_key(c: IVec3) -> u128 {
    ((c.x + 0x8000_0000) * 0x1_0000_0000_0000_0000 + (c.y + 0x8000_0000) * 0x1_0000_0000 + (c.z
        + 0x8000_0000)) as u128
}

/// Distinct chunk positions have distinct keys.
pub proof fn lemma_chunk_key_injective(a: IVec3, b: IVec3)
    requires
        chunk_key(a) == chunk_key(b),
    ensures
        a == b,
{
    let ax = a.x + 0x8000_0000;
    let ay = a.y + 0x8000_0000;
    let az = a.z + 0x8000_0000;
    let bx = b.x + 0x8000_0000;
    let by = b.y + 0x8000_0000;
    let bz = b.z + 0x8000_0000;
    let k = chunk_key(a) as int;
    lemma_fundamental_div_mod_converse(k, 0x1_0000_0000, ax * 0x1_0000_0000 + ay, az);
    lemma_fundamental_div_mod_converse(k, 0x1_0000_0000, bx * 0x1_0000_0000 + by, bz);
    lemma_fundamental_div_mod_converse(ax * 0x1_0000_0000 + ay, 0x1_0000_0000, ax, ay);
    lemma_fundamental_div_mod_converse(bx * 0x1_0000_0000 + by, 0x1_0000_0000, bx, by);
}

/// Computes `chunk_key`.
pub fn key_of(c: ChunkPosition) -> (r: u128)
    ensures
        r == chunk_key(c),
{
    let x = (c.x as i64 + 0x8000_0000) as u128;
    let y = (c.y as i64 + 0x8000_0000) as u128;
    let z = (c.z as i64 + 0x8000_0000) as u128;
    x * 0x1_0000_0000_0000_0000 + y * 0x1_0000_0000 + z
}

/// Ordinary surface material.
pub const GRASS: VoxelID = 1;

/// Material of the top layers below the surface, and of the surface under a tree.
pub const DIRT: VoxelID = 2;

/// Material down to a chunk's depth below the surface.
pub const STONE: VoxelID = 3;

/// Material of everything deeper.
pub const DEEP_STONE: VoxelID = 4;

/// Number of columns in a chunk's footprint.
pub const CHUNK_COLUMNS: usize = 1024;

/// A surface voxel starts a tree with probability one in this.
pub const TREE_CHANCE: i32 = 90;

/// Trunk voxel types are drawn from `[1, TRUNK_TYPES)`.
pub const TRUNK_TYPES: VoxelID = 11;

/// Longest trunk a tree grows above the surface.
pub const MAX_TRUNK: i32 = 14;

/// Every voxel of the chunk at `c`, and of the chunk above it, has a global
/// position that fits in an `i32`.
pub open spec fn chunk_in_world(c: IVec3) -> bool {
    &&& global_fits(c, IVec3 { x: 0, y: 0, z: 0 })
    &&& global_fits(c, IVec3 { x: 31, y: 63, z: 31 })
}

/// The chunk directly above `c`.
pub open spec fn above(c: IVec3) -> IVec3 {
    IVec3 { x: c.x, y: (c.y + 1) as i32, z: c.z }
}

/// Index of the column of local coordinate `p` in a chunk's footprint.
pub open spec fn column_of(p: IVec3) -> int {
    p.z * 32 + p.x
}

/// Material at global height `gy` in a column whose surface is at height
/// `n`; `tree` tells whether a tree grows from that surface.
pub open spec fn classify(n: int, gy: int, tree: bool) -> VoxelID {
    if gy > n {
        AIR
    } else if gy == n {
        if tree {
            DIRT
        } else {
            GRASS
        }
    } else if gy >= n - 3 {
        DIRT
    } else if gy >= n - 32 {
        STONE
    } else {
        DEEP_STONE
    }
}

/// Local height of the surface of column `col` of chunk `c`.
pub open spec fn surface_y(c: IVec3, heights: Seq<i32>, col: int) -> int {
    heights[col] - c.y * 32
}

/// A tree grows from column `col` of chunk `c`: one was drawn for it and
/// its surface lies inside the chunk.
pub open spec fn has_tree(c: IVec3, heights: Seq<i32>, trees: Seq<VoxelID>, col: int) -> bool {
    &&& trees[col] != AIR
    &&& 0 <= surface_y(c, heights, col) < 32
}

/// The terrain voxel at local coordinate `p` of chunk `c`, before trunks
/// and deferred placements.
pub open spec fn terrain_at(c: IVec3, heights: Seq<i32>, trees: Seq<VoxelID>, p: IVec3) -> VoxelID {
    classify(heights[column_of(p)] as int, c.y * 32 + p.y, trees[column_of(p)] != AIR)
}

/// Local coordinate `p` of chunk `c` (its height given relative to `c`, so
/// possibly above it) belongs to the trunk of its column's tree.
pub open spec fn in_trunk(c: IVec3, heights: Seq<i32>, trees: Seq<VoxelID>, p: IVec3) -> bool {
    let col = column_of(p);
    let y0 = surface_y(c, heights, col);
    &&& has_tree(c, heights, trees, col)
    &&& y0 < p.y <= y0 + MAX_TRUNK
}

/// The voxel of chunk `c` at index `i` before deferred placements.
pub open spec fn grown_at(c: IVec3, heights: Seq<i32>, trees: Seq<VoxelID>, i: int) -> VoxelID {
    let p = coordinates_of(i);
    if in_trunk(c, heights, trees, p) {
        trees[column_of(p)]
    } else {
        terrain_at(c, heights, trees, p)
    }
}

/// The voxel of chunk `c` at index `i` once generated over `heights` and
/// `trees`, with the placements `queued` for it applied last.
pub open spec fn generated_at(
    c: IVec3,
    heights: Seq<i32>,
    trees: Seq<VoxelID>,
    queued: Map<usize, VoxelID>,
    i: int,
) -> VoxelID {
    if queued.contains_key(i as usize) {
        queued[i as usize]
    } else {
        grown_at(c, heights, trees, i)
    }
}

/// Local coordinate `q` of the chunk above `c` belongs to the trunk of a
/// tree of `c` that grows out of it.
pub open spec fn in_overhang(c: IVec3, heights: Seq<i32>, trees: Seq<VoxelID>, q: IVec3) -> bool {
    in_trunk(c, heights, trees, IVec3 { x: q.x, y: (q.y + 32) as i32, z: q.z })
}

/// The trunk voxels that the trees of `c` place in the chunk above it, by
/// voxel index there.
pub open spec fn overhang(c: IVec3, heights: Seq<i32>, trees: Seq<VoxelID>) -> Map<usize, VoxelID> {
    Map::new(
        |i: usize| i < CHUNK_VOLUME && in_overhang(c, heights, trees, coordinates_of(i as int)),
        |i: usize| trees[column_of(coordinates_of(i as int))],
    )
}

/// Material at global height `global_y` of a column whose surface is at
/// `height`, with or without a tree growing from it.
pub fn classify_voxel(height: i32, global_y: i32, tree: bool) -> (r: VoxelID)
    ensures
        r == classify(height as int, global_y as int, tree),
{
    let n = height as i64;
    let gy = global_y as i64;
    if n < gy {
        AIR
    } else if n == gy {
        if tree {
            DIRT
        } else {
            GRASS
        }
    } else if n <= gy + 3 {
        DIRT
    } else if n <= gy + 32 {
        STONE
    } else {
        DEEP_STONE
    }
}

/// The terrain of chunk `chunk_pos` over the column heights `heights` and
/// the tree draws `trees` (both indexed by `z * N + x`, 0 meaning no
/// tree), before trunks and deferred placements.
pub fn terrain_voxels(chunk_pos: ChunkPosition, heights: &Vec<i32>, trees: &Vec<VoxelID>) -> (r:
    Vec<VoxelID>)
    requires
        heights@.len() == CHUNK_COLUMNS,
        trees@.len() == CHUNK_COLUMNS,
        chunk_in_world(chunk_pos),
    ensures
        r@.len() == CHUNK_VOLUME,
        forall|i: int|
            0 <= i < CHUNK_VOLUME ==> #[trigger] r@[i] == terrain_at(
                chunk_pos,
                heights@,
                trees@,
                coordinates_of(i),
            ),
{
    let mut voxels: Vec<VoxelID> = Vec::new();
    let mut i: usize = 0;
    while i < CHUNK_VOLUME
        invariant
            i <= CHUNK_VOLUME,
            voxels@.len() == i,
            heights@.len() == CHUNK_COLUMNS,
            trees@.len() == CHUNK_COLUMNS,
            chunk_in_world(chunk_pos),
            forall|j: int|
                0 <= j < i ==> #[trigger] voxels@[j] == terrain_at(
                    chunk_pos,
                    heights@,
                    trees@,
                    coordinates_of(j),
                ),
        decreases CHUNK_VOLUME - i,
    {
        let p = Chunk::index_to_coordinates(i);
        let col = (p.z * CHUNK_SIZE + p.x) as usize;
        let global_y = chunk_pos.y * CHUNK_SIZE + p.y;
        voxels.push(classify_voxel(heights[col], global_y, trees[col] != AIR));
        i += 1;
    }
    voxels
}

/// The voxels `s` with the placements `m` (by voxel index) written over them.
pub open spec fn overlay(s: Seq<VoxelID>, m: Map<usize, VoxelID>) -> Seq<VoxelID> {
    Seq::new(
        s.len(),
        |i: int|
            if m.contains_key(i as usize) {
                m[i as usize]
            } else {
                s[i]
            },
    )
}

/// The part of `overhang(c, heights, trees)` that comes from column `col`,
/// limited to trunk levels (heights above the surface) below `level`.
pub open spec fn overhang_column(
    c: IVec3,
    heights: Seq<i32>,
    trees: Seq<VoxelID>,
    col: int,
    level: int,
) -> Map<usize, VoxelID> {
    Map::new(
        |i: usize|
            {
                let q = coordinates_of(i as int);
                let y0 = surface_y(c, heights, col);
                &&& i < CHUNK_VOLUME
                &&& column_of(q) == col
                &&& has_tree(c, heights, trees, col)
                &&& y0 < q.y + 32 < y0 + level
            },
        |i: usize| trees[col],
    )
}

/// The part of `overhang(c, heights, trees)` that comes from the columns
/// below `n`.
pub open spec fn overhang_upto(c: IVec3, heights: Seq<i32>, trees: Seq<VoxelID>, n: int) -> Map<
    usize,
    VoxelID,
> {
    Map::new(
        |i: usize|
            i < CHUNK_VOLUME && in_overhang(c, heights, trees, coordinates_of(i as int))
                && column_of(coordinates_of(i as int)) < n,
        |i: usize| trees[column_of(coordinates_of(i as int))],
    )
}

/// `new` is `old` with the placements `m` applied to the chunk at `c`:
/// written into that chunk where it exists, queued for it otherwise.
/// Nothing else changes.
pub open spec fn placed(old: &ChunkManager, new: &ChunkManager, c: IVec3, m: Map<usize, VoxelID>) -> bool {
    &&& new.wf()
    &&& new.voxel_data_manager == old.voxel_data_manager
    &&& new.chunks@.dom() == old.chunks@.dom()
    &&& forall|k: u128|
        k != chunk_key(c) && #[trigger] new.chunks@.contains_key(k) ==> new.chunks@[k]
            == old.chunks@[k]
    &&& forall|k: u128|
        k != chunk_key(c) ==> (#[trigger] new.chunk_voxel_queue@.contains_key(k)
            == old.chunk_voxel_queue@.contains_key(k)) && (new.chunk_voxel_queue@.contains_key(k)
            ==> new.chunk_voxel_queue@[k] == old.chunk_voxel_queue@[k])
    &&& if old.has_chunk(c) {
        &&& new.chunk(c).position == old.chunk(c).position
        &&& new.chunk(c).voxels@ == overlay(old.chunk(c).voxels@, m)
        &&& new.chunk_voxel_queue@ == old.chunk_voxel_queue@
    } else {
        &&& new.queued(c) == old.queued(c).union_prefer_right(m)
        &&& new.chunk_voxel_queue@.contains_key(chunk_key(c)) ==> old.chunk_voxel_queue@.contains_key(
            chunk_key(c),
        ) || exists|i: usize| m.contains_key(i)
    }
}

/// Applying nothing is a valid step.
proof fn lemma_placed_refl(a: &ChunkManager, c: IVec3)
    requires
        a.wf(),
    ensures
        placed(a, a, c, Map::empty()),
{
    if a.has_chunk(c) {
        assert(overlay(a.chunk(c).voxels@, Map::empty()) =~= a.chunk(c).voxels@);
    } else {
        assert(a.queued(c).union_prefer_right(Map::empty()) =~= a.queued(c));
    }
}

/// Two steps of placements into one chunk make one step.
proof fn lemma_placed_trans(
    a: &ChunkManager,
    b: &ChunkManager,
    d: &ChunkManager,
    c: IVec3,
    m1: Map<usize, VoxelID>,
    m2: Map<usize, VoxelID>,
)
    requires
        placed(a, b, c, m1),
        placed(b, d, c, m2),
    ensures
        placed(a, d, c, m1.union_prefer_right(m2)),
{
    if a.has_chunk(c) {
        assert(overlay(overlay(a.chunk(c).voxels@, m1), m2) =~= overlay(
            a.chunk(c).voxels@,
            m1.union_prefer_right(m2),
        ));
    } else {
        assert(a.queued(c).union_prefer_right(m1).union_prefer_right(m2) =~= a.queued(
            c,
        ).union_prefer_right(m1.union_prefer_right(m2)));
        if d.chunk_voxel_queue@.contains_key(chunk_key(c)) && !a.chunk_voxel_queue@.contains_key(
            chunk_key(c),
        ) {
            if exists|i: usize| m1.contains_key(i) {
                let i = choose|i: usize| m1.contains_key(i);
                assert(m1.union_prefer_right(m2).contains_key(i));
            } else {
                let i = choose|i: usize| m2.contains_key(i);
                assert(m1.union_prefer_right(m2).contains_key(i));
            }
        }
    }
}

/// `new` is `old` after generating the chunk at `c` over `heights` and
/// `trees`: the trunks rising out of it are written into the chunk above
/// where it exists and queued for it otherwise; the queue entry of `c` is
/// consumed; nothing else changes.
pub open spec fn generated(
    old: &ChunkManager,
    new: &ChunkManager,
    c: IVec3,
    heights: Seq<i32>,
    trees: Seq<VoxelID>,
) -> bool {
    let up = above(c);
    &&& new.wf()
    &&& new.voxel_data_manager == old.voxel_data_manager
    &&& new.chunks@.dom() == old.chunks@.dom()
    &&& forall|k: u128|
        k != chunk_key(up) && #[trigger] new.chunks@.contains_key(k) ==> new.chunks@[k]
            == old.chunks@[k]
    &&& forall|k: u128|
        k != chunk_key(up) && k != chunk_key(c) ==> (#[trigger] new.chunk_voxel_queue@.contains_key(k)
            == old.chunk_voxel_queue@.contains_key(k)) && (new.chunk_voxel_queue@.contains_key(k)
            ==> new.chunk_voxel_queue@[k] == old.chunk_voxel_queue@[k])
    &&& !new.chunk_voxel_queue@.contains_key(chunk_key(c))
    &&& if old.has_chunk(up) {
        &&& new.chunk(up).position == old.chunk(up).position
        &&& new.chunk(up).voxels@ == overlay(old.chunk(up).voxels@, overhang(c, heights, trees))
    } else {
        &&& new.queued(up) == old.queued(up).union_prefer_right(overhang(c, heights, trees))
        &&& new.chunk_voxel_queue@.contains_key(chunk_key(up))
            ==> old.chunk_voxel_queue@.contains_key(chunk_key(up)) || exists|i: usize|
            overhang(c, heights, trees).contains_key(i)
    }
}

/// `trees` is a possible outcome of drawing the trees of chunk `c` over
/// `heights`: a trunk type in `[1, TRUNK_TYPES)` or 0 per column, and
/// trees only in columns whose surface lies inside the chunk.
pub open spec fn valid_trees(c: IVec3, heights: Seq<i32>, trees: Seq<VoxelID>) -> bool {
    &&& trees.len() == CHUNK_COLUMNS
    &&& forall|col: int|
        0 <= col < CHUNK_COLUMNS && #[trigger] trees[col] != AIR ==> trees[col] < TRUNK_TYPES && 0
            <= surface_y(c, heights, col) < 32
}

/// `chance` and `kind` are possible outcomes of the tree draws of a chunk:
/// one of each per column, from `[0, TREE_CHANCE)` and `[1, TRUNK_TYPES)`.
pub open spec fn valid_draws(chance: Seq<i32>, kind: Seq<i32>) -> bool {
    &&& chance.len() == CHUNK_COLUMNS
    &&& kind.len() == CHUNK_COLUMNS
    &&& forall|col: int|
        0 <= col < CHUNK_COLUMNS ==> 0 <= #[trigger] chance[col] < TREE_CHANCE && 1 <= kind[col]
            < TRUNK_TYPES
}

/// The tree of column `col` of chunk `c` given its draws: a trunk of type
/// `kind[col]` where the surface lies inside the chunk and `chance[col]`
/// is 0, none (0) otherwise.
pub open spec fn tree_from_draws(
    c: IVec3,
    heights: Seq<i32>,
    chance: Seq<i32>,
    kind: Seq<i32>,
    col: int,
) -> VoxelID {
    if 0 <= surface_y(c, heights, col) < 32 && chance[col] == 0 {
        kind[col] as VoxelID
    } else {
        AIR
    }
}

/// The trees of chunk `chunk_pos` over `heights` given the draws `chance`
/// and `kind` (indexed by `z * N + x`): see `tree_from_draws`.
pub fn trees_from_draws(
    chunk_pos: ChunkPosition,
    heights: &Vec<i32>,
    chance: &Vec<i32>,
    kind: &Vec<i32>,
) -> (r: Vec<VoxelID>)
    requires
        heights@.len() == CHUNK_COLUMNS,
        chance@.len() == CHUNK_COLUMNS,
        kind@.len() == CHUNK_COLUMNS,
        forall|col: int| 0 <= col < CHUNK_COLUMNS ==> 1 <= #[trigger] kind@[col] < TRUNK_TYPES,
    ensures
        r@.len() == CHUNK_COLUMNS,
        forall|col: int|
            0 <= col < CHUNK_COLUMNS ==> #[trigger] r@[col] == tree_from_draws(
                chunk_pos,
                heights@,
                chance@,
                kind@,
                col,
            ),
        valid_trees(chunk_pos, heights@, r@),
{
    let mut trees: Vec<VoxelID> = Vec::new();
    let mut col: usize = 0;
    while col < CHUNK_COLUMNS
        invariant
            col <= CHUNK_COLUMNS,
            heights@.len() == CHUNK_COLUMNS,
            chance@.len() == CHUNK_COLUMNS,
            kind@.len() == CHUNK_COLUMNS,
            forall|j: int| 0 <= j < CHUNK_COLUMNS ==> 1 <= #[trigger] kind@[j] < TRUNK_TYPES,
            trees@.len() == col,
            forall|j: int|
                0 <= j < col ==> #[trigger] trees@[j] == tree_from_draws(
                    chunk_pos,
                    heights@,
                    chance@,
                    kind@,
                    j,
                ),
        decreases CHUNK_COLUMNS - col,
    {
        let y0 = heights[col] as i64 - chunk_pos.y as i64 * CHUNK_SIZE as i64;
        let mut trunk: VoxelID = AIR;
        if 0 <= y0 && y0 < CHUNK_SIZE as i64 && chance[col] == 0 {
            trunk = kind[col] as VoxelID;
        }
        trees.push(trunk);
        col += 1;
    }
    trees
}

/// `new` is `old` after generating and storing the chunk at `c` over
/// `heights` and `trees`.
pub open spec fn added(
    old: &ChunkManager,
    new: &ChunkManager,
    c: IVec3,
    heights: Seq<i32>,
    trees: Seq<VoxelID>,
) -> bool {
    let up = above(c);
    &&& new.wf()
    &&& new.voxel_data_manager == old.voxel_data_manager
    &&& new.has_chunk(c)
    &&& new.chunk(c).position == c
    &&& forall|i: int|
        0 <= i < CHUNK_VOLUME ==> #[trigger] new.chunk(c).voxels@[i] == generated_at(
            c,
            heights,
            trees,
            old.queued(c),
            i,
        )
    &&& !new.chunk_voxel_queue@.contains_key(chunk_key(c))
    &&& new.chunks@.dom() == old.chunks@.dom().insert(chunk_key(c))
    &&& forall|k: u128|
        k != chunk_key(up) && k != chunk_key(c) && #[trigger] new.chunks@.contains_key(k)
            ==> new.chunks@[k] == old.chunks@[k]
    &&& forall|k: u128|
        k != chunk_key(up) && k != chunk_key(c) ==> (#[trigger] new.chunk_voxel_queue@.contains_key(k)
            == old.chunk_voxel_queue@.contains_key(k)) && (new.chunk_voxel_queue@.contains_key(k)
            ==> new.chunk_voxel_queue@[k] == old.chunk_voxel_queue@[k])
    &&& if old.has_chunk(up) {
        &&& new.chunk(up).position == old.chunk(up).position
        &&& new.chunk(up).voxels@ == overlay(old.chunk(up).voxels@, overhang(c, heights, trees))
    } else {
        &&& new.queued(up) == old.queued(up).union_prefer_right(overhang(c, heights, trees))
        &&& new.chunk_voxel_queue@.contains_key(chunk_key(up))
            ==> old.chunk_voxel_queue@.contains_key(chunk_key(up)) || exists|i: usize|
            overhang(c, heights, trees).contains_key(i)
    }
}

/// Owner of every generated chunk and of the placements waiting for chunks
/// that do not exist yet.
pub struct ChunkManager {
    /// Generated chunks, by `chunk_key` of their position.
    pub chunks: HashMap<u128, Chunk>,
    /// Deferred placements, by `chunk_key` of the target chunk, then by
    /// voxel index within it.
    pub chunk_voxel_queue: HashMap<u128, HashMap<usize, VoxelID>>,
    pub voxel_data_manager: VoxelDataManager,
    /// Random stream deciding where trees grow, seeded once.
    pub rng: RandomNumberGenerator,
}

impl ChunkManager {
    /// Every chunk is complete and filed under its own position; every
    /// queued placement targets a valid index of a chunk not generated yet.
    pub open spec fn wf(&self) -> bool {
        &&& forall|k: u128| #[trigger]
            self.chunks@.contains_key(k) ==> self.chunks@[k].wf() && chunk_key(
                self.chunks@[k].position,
            ) == k
        &&& forall|k: u128| #[trigger]
            self.chunk_voxel_queue@.contains_key(k) ==> !self.chunks@.contains_key(k) && forall|
                i: usize,
            | #[trigger] self.chunk_voxel_queue@[k]@.contains_key(i) ==> i < CHUNK_VOLUME
    }

    /// A chunk has been generated at `c`.
    pub open spec fn has_chunk(&self, c: IVec3) -> bool {
        self.chunks@.contains_key(chunk_key(c))
    }

    /// The chunk generated at `c`.
    pub open spec fn chunk(&self, c: IVec3) -> Chunk {
        self.chunks@[chunk_key(c)]
    }

    /// The voxel at a global position, or `None` where its chunk has not
    /// been generated.
    pub open spec fn voxel(&self, g: IVec3) -> Option<VoxelID> {
        if self.has_chunk(chunk_of(g)) {
            Some(self.chunk(chunk_of(g)).voxel_at(local_of(g)))
        } else {
            None
        }
    }

    /// The placements queued for chunk `c`, by voxel index.
    pub open spec fn queued(&self, c: IVec3) -> Map<usize, VoxelID> {
        if self.chunk_voxel_queue@.contains_key(chunk_key(c)) {
            self.chunk_voxel_queue@[chunk_key(c)]@
        } else {
            Map::empty()
        }
    }

    /// An empty world around the given catalog.
    pub fn new(voxel_data_manager: VoxelDataManager) -> (r: ChunkManager)
        ensures
            r.wf(),
            r.chunks@ == Map::<u128, Chunk>::empty(),
            r.chunk_voxel_queue@ == Map::<u128, HashMap<usize, VoxelID>>::empty(),
            r.voxel_data_manager == voxel_data_manager,
    {
        ChunkManager {
            chunks: HashMap::new(),
            chunk_voxel_queue: HashMap::new(),
            voxel_data_manager,
            rng: RandomNumberGenerator::new(),
        }
    }

    /// The chunk generated at `position`, if any.
    pub fn get_chunk(&self, position: ChunkPosition) -> (r: Option<&Chunk>)
        ensures
            match r {
                Some(c) => self.has_chunk(position) && *c == self.chunk(position),
                None => !self.has_chunk(position),
            },
    {
        self.chunks.get(&key_of(position))
    }

    /// The voxel at a global position; `None` where its chunk has not been
    /// generated.
    pub fn get_voxel(&self, global_coord: VoxelPosition) -> (r: Option<VoxelID>)
        requires
            self.wf(),
        ensures
            r == self.voxel(global_coord),
    {
        match self.get_chunk(Convert::global_to_chunk(global_coord)) {
            Some(chunk) => {
                proof {
                    assert(self.chunks@.contains_key(chunk_key(chunk_of(global_coord))));
                }
                Some(chunk.get_voxel_from_coordinate(Convert::global_to_local(global_coord)))
            },
            None => None,
        }
    }

    /// Overwrites the voxel at a global position. Fails, changing nothing,
    /// where the owning chunk has not been generated: such a write is
    /// dropped, not queued.
    pub fn set_voxel(&mut self, global_coord: VoxelPosition, voxel_id: VoxelID) -> (r: bool)
        requires
            old(self).wf(),
        ensures
            final(self).wf(),
            r == old(self).has_chunk(chunk_of(global_coord)),
            !r ==> final(self).chunks@ == old(self).chunks@,
            r ==> final(self).voxel(global_coord) == Some(voxel_id),
            r ==> final(self).chunks@.dom() == old(self).chunks@.dom(),
            r ==> forall|k: u128|
                k != chunk_key(chunk_of(global_coord)) && #[trigger] final(self).chunks@.contains_key(k)
                    ==> final(self).chunks@[k] == old(self).chunks@[k],
            r ==> final(self).chunk(chunk_of(global_coord)).voxels@ == old(self).chunk(
                chunk_of(global_coord),
            ).voxels@.update(index_of(local_of(global_coord)), voxel_id),
            r ==> final(self).chunk(chunk_of(global_coord)).position == old(self).chunk(
                chunk_of(global_coord),
            ).position,
            final(self).chunk_voxel_queue@ == old(self).chunk_voxel_queue@,
            final(self).voxel_data_manager == old(self).voxel_data_manager,
    {
        let key = key_of(Convert::global_to_chunk(global_coord));
        match self.chunks.remove(&key) {
            Some(mut chunk) => {
                chunk.set_voxel_from_coordinate(Convert::global_to_local(global_coord), voxel_id);
                self.chunks.insert(key, chunk);
                proof {
                    assert(self.chunks@ =~= old(self).chunks@.insert(key, chunk));
                    assert(self.chunks@.dom() =~= old(self).chunks@.dom());
                }
                true
            },
            None => false,
        }
    }

    /// Writes `voxel_id` at a global position during generation: directly
    /// where the owning chunk exists, into the deferred queue otherwise.
    fn place_or_defer(&mut self, global_coord: VoxelPosition, voxel_id: VoxelID)
        requires
            old(self).wf(),
        ensures
            placed(
                old(self),
                final(self),
                chunk_of(global_coord),
                map![index_of(local_of(global_coord)) as usize => voxel_id],
            ),
    {
        let target = Convert::global_to_chunk(global_coord);
        let key = key_of(target);
        let local = Convert::global_to_local(global_coord);
        let ghost m = map![index_of(local_of(global_coord)) as usize => voxel_id];
        if self.chunks.contains_key(&key) {
            self.set_voxel(global_coord, voxel_id);
            proof {
                assert(final(self).chunk(target).voxels@ =~= overlay(old(self).chunk(target).voxels@, m));
            }
        } else {
            let mut pending = match self.chunk_voxel_queue.remove(&key) {
                Some(pending) => pending,
                None => HashMap::new(),
            };
            let index = Chunk::coordinates_to_index(local);
            pending.insert(index, voxel_id);
            self.chunk_voxel_queue.insert(key, pending);
            proof {
                assert(self.queued(target) =~= old(self).queued(target).union_prefer_right(m));
                assert(m.contains_key(index));
            }
        }
    }

    /// Grows the trunk of the tree of column `col` into `voxels`, the chunk
    /// being generated at `chunk_pos`; the part that rises out of it goes to
    /// the chunk above, or to the queue where that chunk does not exist.
    fn grow_trunk(
        &mut self,
        voxels: &mut Vec<VoxelID>,
        chunk_pos: ChunkPosition,
        heights: &Vec<i32>,
        trees: &Vec<VoxelID>,
        col: usize,
    )
        requires
            old(self).wf(),
            old(voxels)@.len() == CHUNK_VOLUME,
            heights@.len() == CHUNK_COLUMNS,
            trees@.len() == CHUNK_COLUMNS,
            chunk_in_world(chunk_pos),
            col < CHUNK_COLUMNS,
            has_tree(chunk_pos, heights@, trees@, col as int),
        ensures
            placed(
                old(self),
                final(self),
                above(chunk_pos),
                overhang_column(chunk_pos, heights@, trees@, col as int, MAX_TRUNK + 1),
            ),
            final(voxels)@.len() == CHUNK_VOLUME,
            forall|i: int|
                0 <= i < CHUNK_VOLUME ==> #[trigger] final(voxels)@[i] == if column_of(
                    coordinates_of(i),
                ) == col && in_trunk(chunk_pos, heights@, trees@, coordinates_of(i)) {
                    trees@[col as int]
                } else {
                    old(voxels)@[i]
                },
    {
        let ghost up = above(chunk_pos);
        let ghost h = heights@;
        let ghost t = trees@;
        let x = (col % CHUNK_SIZE_USIZE) as i32;
        let z = (col / CHUNK_SIZE_USIZE) as i32;
        let y0 = (heights[col] as i64 - chunk_pos.y as i64 * CHUNK_SIZE as i64) as i32;
        let trunk = trees[col];
        proof {
            lemma_placed_refl(self, up);
            assert(overhang_column(chunk_pos, h, t, col as int, 1) =~= Map::empty());
        }
        let mut level: i32 = 1;
        while level <= MAX_TRUNK
            invariant
                1 <= level <= MAX_TRUNK + 1,
                0 <= x < 32,
                0 <= z < 32,
                col == z * 32 + x,
                y0 == surface_y(chunk_pos, h, col as int),
                0 <= y0 < 32,
                trunk == t[col as int],
                h == heights@,
                t == trees@,
                h.len() == CHUNK_COLUMNS,
                t.len() == CHUNK_COLUMNS,
                chunk_in_world(chunk_pos),
                has_tree(chunk_pos, h, t, col as int),
                up == above(chunk_pos),
                placed(old(self), self, up, overhang_column(chunk_pos, h, t, col as int, level as int)),
                voxels@.len() == CHUNK_VOLUME,
                forall|i: int|
                    0 <= i < CHUNK_VOLUME ==> #[trigger] voxels@[i] == if column_of(
                        coordinates_of(i),
                    ) == col && y0 < coordinates_of(i).y < y0 + level {
                        trunk
                    } else {
                        old(voxels)@[i]
                    },
            decreases MAX_TRUNK + 1 - level,
        {
            let ly = y0 + level;
            let ghost prev = overhang_column(chunk_pos, h, t, col as int, level as int);
            let ghost next = overhang_column(chunk_pos, h, t, col as int, level + 1);
            if ly >= CHUNK_SIZE {
                let local = ivec3(x, ly, z);
                let global = Convert::local_to_global(chunk_pos, local);
                let ghost q = IVec3 { x, y: (ly - 32) as i32, z };
                let ghost qi = index_of(q);
                proof {
                    assert(global == crate::chunk::global_of(up, q));
                    crate::chunk::lemma_local_global_round_trip(up, q);
                    crate::chunk::lemma_coordinates_round_trip(q);
                }
                let ghost before = *self;
                self.place_or_defer(global, trunk);
                proof {
                    assert forall|i: usize| #[trigger] next.contains_key(i) == (prev.contains_key(i)
                        || i == qi) by {
                        if i < CHUNK_VOLUME {
                            crate::chunk::lemma_index_round_trip(i as int);
                        }
                    }
                    assert(next =~= prev.union_prefer_right(map![qi as usize => trunk]));
                    lemma_placed_trans(old(self), &before, self, up, prev, map![qi as usize => trunk]);
                }
            } else {
                let local = ivec3(x, ly, z);
                let index = Chunk::coordinates_to_index(local);
                proof {
                    crate::chunk::lemma_coordinates_round_trip(local);
                    assert(next =~= prev);
                }
                voxels.set(index, trunk);
                proof {
                    assert forall|i: int| 0 <= i < CHUNK_VOLUME implies #[trigger] voxels@[i] == if column_of(
                        coordinates_of(i),
                    ) == col && y0 < coordinates_of(i).y < y0 + level + 1 {
                        trunk
                    } else {
                        old(voxels)@[i]
                    } by {
                        crate::chunk::lemma_index_round_trip(i);
                    }
                }
            }
            level += 1;
        }
    }

    /// The voxels of the chunk at `chunk_pos`, generated over the column
    /// heights `heights` and the tree draws `trees` (both indexed by
    /// `z * N + x`; a tree draw is the trunk's voxel type, 0 for none):
    /// terrain by depth below the surface, then trunks, then the placements
    /// queued for this chunk, whose queue entry is consumed. Trunk voxels
    /// above the chunk go to the chunk above, or to its queue.
    pub fn generate_voxels(
        &mut self,
        chunk_pos: ChunkPosition,
        heights: &Vec<i32>,
        trees: &Vec<VoxelID>,
    ) -> (r: Vec<VoxelID>)
        requires
            old(self).wf(),
            heights@.len() == CHUNK_COLUMNS,
            trees@.len() == CHUNK_COLUMNS,
            chunk_in_world(chunk_pos),
        ensures
            generated(old(self), final(self), chunk_pos, heights@, trees@),
            r@.len() == CHUNK_VOLUME,
            forall|i: int|
                0 <= i < CHUNK_VOLUME ==> #[trigger] r@[i] == generated_at(
                    chunk_pos,
                    heights@,
                    trees@,
                    old(self).queued(chunk_pos),
                    i,
                ),
    {
        let ghost up = above(chunk_pos);
        let ghost h = heights@;
        let ghost t = trees@;
        let key = key_of(chunk_pos);
        proof {
            if chunk_key(up) == chunk_key(chunk_pos) {
                lemma_chunk_key_injective(up, chunk_pos);
            }
        }
        let pending = self.chunk_voxel_queue.remove(&key);
        let ghost removed = *self;
        let ghost queued = old(self).queued(chunk_pos);
        proof {
            lemma_placed_refl(&removed, up);
            assert(overhang_upto(chunk_pos, h, t, 0) =~= Map::empty());
        }
        let mut voxels = terrain_voxels(chunk_pos, heights, trees);
        let mut col: usize = 0;
        while col < CHUNK_COLUMNS
            invariant
                col <= CHUNK_COLUMNS,
                h == heights@,
                t == trees@,
                h.len() == CHUNK_COLUMNS,
                t.len() == CHUNK_COLUMNS,
                chunk_in_world(chunk_pos),
                up == above(chunk_pos),
                removed.wf(),
                placed(&removed, self, up, overhang_upto(chunk_pos, h, t, col as int)),
                voxels@.len() == CHUNK_VOLUME,
                forall|i: int|
                    0 <= i < CHUNK_VOLUME ==> #[trigger] voxels@[i] == if in_trunk(
                        chunk_pos,
                        h,
                        t,
                        coordinates_of(i),
                    ) && column_of(coordinates_of(i)) < col {
                        t[column_of(coordinates_of(i))]
                    } else {
                        terrain_at(chunk_pos, h, t, coordinates_of(i))
                    },
            decreases CHUNK_COLUMNS - col,
        {
            let y0 = heights[col] as i64 - chunk_pos.y as i64 * CHUNK_SIZE as i64;
            let ghost prev = overhang_upto(chunk_pos, h, t, col as int);
            let ghost next = overhang_upto(chunk_pos, h, t, col + 1);
            if trees[col] != AIR && 0 <= y0 && y0 < CHUNK_SIZE as i64 {
                let ghost before = *self;
                self.grow_trunk(&mut voxels, chunk_pos, heights, trees, col);
                proof {
                    let cm = overhang_column(chunk_pos, h, t, col as int, MAX_TRUNK + 1);
                    assert(next =~= prev.union_prefer_right(cm));
                    lemma_placed_trans(&removed, &before, self, up, prev, cm);
                }
            } else {
                proof {
                    assert(next =~= prev);
                }
            }
            col += 1;
        }
        proof {
            assert(overhang_upto(chunk_pos, h, t, CHUNK_COLUMNS as int) =~= overhang(chunk_pos, h, t));
            assert forall|i: int| 0 <= i < CHUNK_VOLUME implies #[trigger] voxels@[i] == grown_at(
                chunk_pos,
                h,
                t,
                i,
            ) by {
                crate::chunk::lemma_index_round_trip(i);
            }
        }
        match pending {
            Some(pending) => {
                let mut i: usize = 0;
                while i < CHUNK_VOLUME
                    invariant
                        i <= CHUNK_VOLUME,
                        pending@ == queued,
                        voxels@.len() == CHUNK_VOLUME,
                        forall|j: int|
                            0 <= j < CHUNK_VOLUME ==> #[trigger] voxels@[j] == if j < i
                                && queued.contains_key(j as usize) {
                                queued[j as usize]
                            } else {
                                grown_at(chunk_pos, h, t, j)
                            },
                    decreases CHUNK_VOLUME - i,
                {
                    match pending.get(&i) {
                        Some(v) => {
                            voxels.set(i, *v);
                        },
                        None => {},
                    }
                    i += 1;
                }
            },
            None => {},
        }
        voxels
    }

    /// Draws the trees of the chunk at `chunk_pos` from the manager's random
    /// stream: each column whose surface lies inside the chunk draws from
    /// `[0, TREE_CHANCE)` and grows a tree when that draw is 0, its trunk
    /// type drawn from `[1, TRUNK_TYPES)`; see `trees_from_draws`. The
    /// result holds 0 for columns without a tree.
    pub fn plant_trees(&mut self, chunk_pos: ChunkPosition, heights: &Vec<i32>) -> (r: Vec<VoxelID>)
        requires
            heights@.len() == CHUNK_COLUMNS,
        ensures
            valid_trees(chunk_pos, heights@, r@),
            exists|chance: Seq<i32>, kind: Seq<i32>|
                {
                    &&& valid_draws(chance, kind)
                    &&& r@.len() == CHUNK_COLUMNS
                    &&& forall|col: int|
                        0 <= col < CHUNK_COLUMNS ==> #[trigger] r@[col] == tree_from_draws(
                            chunk_pos,
                            heights@,
                            chance,
                            kind,
                            col,
                        )
                },
            final(self).chunks@ == old(self).chunks@,
            final(self).chunk_voxel_queue@ == old(self).chunk_voxel_queue@,
            final(self).voxel_data_manager == old(self).voxel_data_manager,
    {
        let mut chance: Vec<i32> = Vec::new();
        let mut kind: Vec<i32> = Vec::new();
        let mut col: usize = 0;
        while col < CHUNK_COLUMNS
            invariant
                col <= CHUNK_COLUMNS,
                heights@.len() == CHUNK_COLUMNS,
                chance@.len() == col,
                kind@.len() == col,
                forall|j: int| 0 <= j < col ==> 0 <= #[trigger] chance@[j] < TREE_CHANCE,
                forall|j: int| 0 <= j < col ==> 1 <= #[trigger] kind@[j] < TRUNK_TYPES,
                self.chunks@ == old(self).chunks@,
                self.chunk_voxel_queue@ == old(self).chunk_voxel_queue@,
                self.voxel_data_manager == old(self).voxel_data_manager,
            decreases CHUNK_COLUMNS - col,
        {
            let y0 = heights[col] as i64 - chunk_pos.y as i64 * CHUNK_SIZE as i64;
            // A column whose surface lies outside the chunk draws nothing;
            // its entries are never read.
            let mut c: i32 = 1;
            let mut k: i32 = 1;
            if 0 <= y0 && y0 < CHUNK_SIZE as i64 {
                c = random_in_range(&mut self.rng, 0, TREE_CHANCE);
                if c == 0 {
                    k = random_in_range(&mut self.rng, 1, TRUNK_TYPES as i32);
                }
            }
            chance.push(c);
            kind.push(k);
            col += 1;
        }
        let trees = trees_from_draws(chunk_pos, heights, &chance, &kind);
        proof {
            assert(valid_draws(chance@, kind@));
        }
        trees
    }

    /// Generates the voxels of the chunk at `chunk_pos` over the column
    /// heights `heights` (indexed by `z * N + x`), drawing its trees from
    /// the manager's random stream; see `generate_voxels`.
    pub fn get_world_generation(&mut self, chunk_pos: ChunkPosition, heights: &Vec<i32>) -> (r: Vec<
        VoxelID,
    >)
        requires
            old(self).wf(),
            heights@.len() == CHUNK_COLUMNS,
            chunk_in_world(chunk_pos),
        ensures
            r@.len() == CHUNK_VOLUME,
            exists|trees: Seq<VoxelID>|
                {
                    &&& valid_trees(chunk_pos, heights@, trees)
                    &&& generated(old(self), final(self), chunk_pos, heights@, trees)
                    &&& forall|i: int|
                        0 <= i < CHUNK_VOLUME ==> #[trigger] r@[i] == generated_at(
                            chunk_pos,
                            heights@,
                            trees,
                            old(self).queued(chunk_pos),
                            i,
                        )
                },
    {
        let trees = self.plant_trees(chunk_pos, heights);
        let ghost drawn = *self;
        let r = self.generate_voxels(chunk_pos, heights, &trees);
        proof {
            assert(drawn.queued(chunk_pos) == old(self).queued(chunk_pos));
            assert(old(self).has_chunk(above(chunk_pos)) == drawn.has_chunk(above(chunk_pos)));
        }
        r
    }

    /// Generates the chunk at `position` over `heights` with the given tree
    /// draws (see `generate_voxels`) and stores it, replacing any chunk
    /// there.
    pub fn add_chunk_with_trees(
        &mut self,
        position: ChunkPosition,
        heights: &Vec<i32>,
        trees: &Vec<VoxelID>,
    )
        requires
            old(self).wf(),
            heights@.len() == CHUNK_COLUMNS,
            trees@.len() == CHUNK_COLUMNS,
            chunk_in_world(position),
        ensures
            added(old(self), final(self), position, heights@, trees@),
    {
        let voxels = self.generate_voxels(position, heights, trees);
        let ghost mid = *self;
        let key = key_of(position);
        self.chunks.insert(key, Chunk { voxels, position });
        proof {
            let up = above(position);
            if chunk_key(up) == chunk_key(position) {
                lemma_chunk_key_injective(up, position);
            }
            assert(self.chunks@.dom() =~= old(self).chunks@.dom().insert(key));
            assert forall|k: u128| #[trigger] self.chunks@.contains_key(k) implies self.chunks@[k].wf()
                && chunk_key(self.chunks@[k].position) == k by {
                if k != key {
                    assert(mid.chunks@.contains_key(k));
                }
            }
        }
    }

    /// Generates the chunk at `position` over the column heights `heights`
    /// (indexed by `z * N + x`), drawing its trees from the manager's random
    /// stream, and stores it. The placements queued for it are applied and
    /// their queue entry is consumed.
    pub fn add_chunk(&mut self, position: ChunkPosition, heights: &Vec<i32>)
        requires
            old(self).wf(),
            heights@.len() == CHUNK_COLUMNS,
            chunk_in_world(position),
        ensures
            final(self).wf(),
            final(self).has_chunk(position),
            !final(self).chunk_voxel_queue@.contains_key(chunk_key(position)),
            forall|i: usize|
                #[trigger] old(self).queued(position).contains_key(i) ==> final(self).chunk(
                    position,
                ).voxels@[i as int] == old(self).queued(position)[i],
            exists|trees: Seq<VoxelID>|
                valid_trees(position, heights@, trees) && added(
                    old(self),
                    final(self),
                    position,
                    heights@,
                    trees,
                ),
    {
        let trees = self.plant_trees(position, heights);
        let ghost drawn = *self;
        self.add_chunk_with_trees(position, heights, &trees);
        proof {
            assert(drawn.queued(position) == old(self).queued(position));
            assert(old(self).has_chunk(above(position)) == drawn.has_chunk(above(position)));
            assert(added(old(self), self, position, heights@, trees@));
            assert forall|i: usize| #[trigger] old(self).queued(position).contains_key(i) implies self.chunk(
                position,
            ).voxels@[i as int] == old(self).queued(position)[i] by {
                assert(old(self).wf());
                assert(i < CHUNK_VOLUME);
                assert(self.chunk(position).voxels@[i as int] == generated_at(
                    position,
                    heights@,
                    trees@,
                    old(self).queued(position),
                    i as int,
                ));
            }
        }
    }

    /// True where the voxel is air or its chunk has not been generated.
    pub fn is_void(&self, global_coord: VoxelPosition) -> (r: bool)
        requires
            self.wf(),
        ensures
            r == (!self.has_chunk(chunk_of(global_coord)) || self.chunk(
                chunk_of(global_coord),
            ).voxel_at(local_of(global_coord)) == AIR),
            r == (self.voxel(global_coord) == None::<VoxelID> || self.voxel(global_coord) == Some(
                AIR,
            )),
    {
        let v = self.get_voxel(global_coord);
        match v {
            Some(id) => id == AIR,
            None => true,
        }
    }
}

} // verus!
