//! Voxel edits made between mesh rebuilds, and the set of chunks whose
//! meshes they leave stale.

use vstd::prelude::*;

use crate::chunk::{
    chunk_of, in_chunk_bounds, local_of, ChunkPosition, Convert, IVec3, VoxelID,
    VoxelPosition, CHUNK_SIZE_MIN1,
};
use crate::chunk_manager::{chunk_key, lemma_chunk_key_injective, ChunkManager};
use crate::chunk_mesh::Face;

verus! {

/// Local coordinate `l` lies against face `face` of its chunk.
pub open spec fn against(l: IVec3, face: Face) -> bool {
    match face {
        Face::Left => l.x == 0,
        Face::Right => l.x == 31,
        Face::Bottom => l.y == 0,
        Face::Top => l.y == 31,
        Face::Back => l.z == 0,
        Face::Front => l.z == 31,
    }
}

/// `c` moved one step across `face`.
pub open spec fn step(c: IVec3, face: Face) -> IVec3 {
    IVec3 {
        x: (c.x + face.spec_offset().x) as i32,
        y: (c.y + face.spec_offset().y) as i32,
        z: (c.z + face.spec_offset().z) as i32,
    }
}

/// The mesh of chunk `d` can change when the voxel at `g` does: `d` owns
/// `g`, or is a generated neighbour across a face of its chunk that `g`
/// lies against.
pub open spec fn touches(cm: &ChunkManager, g: IVec3, d: IVec3) -> bool {
    d == chunk_of(g) || exists|k: int|
        0 <= k < 6 && against(local_of(g), #[trigger] Face::spec_nth(k)) && d == step(
            chunk_of(g),
            Face::spec_nth(k),
        ) && cm.has_chunk(d)
}

/// No position occurs twice.
pub open spec fn unique(s: Seq<ChunkPosition>) -> bool {
    forall|a: int, b: int| 0 <= a < b < s.len() ==> s[a] != s[b]
}

/// Adds `c` to the list of chunks to rebuild, unless it is already there.
pub fn mark_dirty(dirty: &mut Vec<ChunkPosition>, c: ChunkPosition)
    ensures
        forall|d: IVec3| #[trigger] final(dirty)@.contains(d) <==> old(dirty)@.contains(d) || d == c,
        unique(old(dirty)@) ==> unique(final(dirty)@),
{
    let mut i: usize = 0;
    while i < dirty.len()
        invariant
            i <= dirty@.len(),
            dirty@ == old(dirty)@,
            forall|j: int| 0 <= j < i ==> dirty@[j] != c,
        decreases dirty@.len() - i,
    {
        if dirty[i] == c {
            proof {
                assert(dirty@[i as int] == c);
            }
            return;
        }
        i += 1;
    }
    dirty.push(c);
    proof {
        assert forall|d: IVec3| #[trigger] dirty@.contains(d) <==> old(dirty)@.contains(d) || d == c by {
            if dirty@.contains(d) && d != c {
                let k = choose|k: int| 0 <= k < dirty@.len() && dirty@[k] == d;
                assert(old(dirty)@[k] == d);
            }
            if old(dirty)@.contains(d) {
                let k = choose|k: int| 0 <= k < old(dirty)@.len() && old(dirty)@[k] == d;
                assert(dirty@[k] == d);
            }
            assert(dirty@[dirty@.len() - 1] == c);
        }
    }
}

/// Two global positions with the same chunk and local coordinate are equal.
proof fn lemma_same_cell(g: IVec3, h: IVec3)
    requires
        chunk_of(g) == chunk_of(h),
        local_of(g) == local_of(h),
    ensures
        g == h,
{
    crate::chunk::lemma_global_decomposition(g);
    crate::chunk::lemma_global_decomposition(h);
}

/// Sets the voxel at `global_coord` to `voxel_id` as an edit between mesh
/// rebuilds. Returns whether the voxel changed: false, changing nothing,
/// where its chunk has not been generated or already holds `voxel_id`.
/// A change adds to `dirty`, once each, the chunks whose meshes it can
/// change.
pub fn edit_voxel(
    chunk_manager: &mut ChunkManager,
    global_coord: VoxelPosition,
    voxel_id: VoxelID,
    dirty: &mut Vec<ChunkPosition>,
) -> (r: bool)
    requires
        old(chunk_manager).wf(),
    ensures
        final(chunk_manager).wf(),
        r == (old(chunk_manager).voxel(global_coord) is Some && old(chunk_manager).voxel(
            global_coord,
        ) != Some(voxel_id)),
        !r ==> final(chunk_manager).chunks@ == old(chunk_manager).chunks@,
        final(chunk_manager).voxel(global_coord) == if old(chunk_manager).voxel(global_coord) is Some {
            Some(voxel_id)
        } else {
            None::<VoxelID>
        },
        forall|h: IVec3|
            h != global_coord ==> #[trigger] final(chunk_manager).voxel(h) == old(
                chunk_manager,
            ).voxel(h),
        final(chunk_manager).chunks@.dom() == old(chunk_manager).chunks@.dom(),
        final(chunk_manager).chunk_voxel_queue@ == old(chunk_manager).chunk_voxel_queue@,
        forall|d: IVec3| #[trigger]
            final(dirty)@.contains(d) <==> old(dirty)@.contains(d) || (r && touches(
                old(chunk_manager),
                global_coord,
                d,
            )),
        unique(old(dirty)@) ==> unique(final(dirty)@),
{
    match chunk_manager.get_voxel(global_coord) {
        Some(v) => {
            if v == voxel_id {
                return false;
            }
        },
        None => {
            return false;
        },
    }
    let ghost before = *chunk_manager;
    chunk_manager.set_voxel(global_coord, voxel_id);
    proof {
        assert forall|h: IVec3| h != global_coord implies #[trigger] chunk_manager.voxel(h)
            == before.voxel(h) by {
            let c = chunk_of(global_coord);
            if chunk_key(chunk_of(h)) == chunk_key(c) {
                lemma_chunk_key_injective(chunk_of(h), c);
                if local_of(h) == local_of(global_coord) {
                    lemma_same_cell(h, global_coord);
                }
                crate::chunk::lemma_global_decomposition(h);
                crate::chunk::lemma_global_decomposition(global_coord);
                crate::chunk::lemma_coordinates_round_trip(local_of(h));
                crate::chunk::lemma_coordinates_round_trip(local_of(global_coord));
            }
        }
    }
    let chunk_pos = Convert::global_to_chunk(global_coord);
    let local = Convert::global_to_local(global_coord);
    proof {
        crate::chunk::lemma_global_decomposition(global_coord);
    }
    mark_dirty(dirty, chunk_pos);
    let mut k: usize = 0;
    while k < 6
        invariant
            k <= 6,
            chunk_pos == chunk_of(global_coord),
            local == local_of(global_coord),
            in_chunk_bounds(local),
            -0x400_0000 <= chunk_pos.x < 0x400_0000,
            -0x400_0000 <= chunk_pos.y < 0x400_0000,
            -0x400_0000 <= chunk_pos.z < 0x400_0000,
            chunk_manager.wf(),
            chunk_manager.chunks@.dom() == before.chunks@.dom(),
            forall|d: IVec3| #[trigger]
                dirty@.contains(d) <==> old(dirty)@.contains(d) || d == chunk_pos || exists|j: int|
                    0 <= j < k && against(local, #[trigger] Face::spec_nth(j)) && d == step(
                        chunk_pos,
                        Face::spec_nth(j),
                    ) && before.has_chunk(d),
            unique(old(dirty)@) ==> unique(dirty@),
        decreases 6 - k,
    {
        let face = Face::nth(k);
        let offset = face.offset();
        let on_side = match face {
            Face::Left => local.x == 0,
            Face::Right => local.x == CHUNK_SIZE_MIN1,
            Face::Bottom => local.y == 0,
            Face::Top => local.y == CHUNK_SIZE_MIN1,
            Face::Back => local.z == 0,
            Face::Front => local.z == CHUNK_SIZE_MIN1,
        };
        let neighbour = IVec3 {
            x: chunk_pos.x + offset.x,
            y: chunk_pos.y + offset.y,
            z: chunk_pos.z + offset.z,
        };
        let ghost old_dirty = dirty@;
        if on_side && chunk_manager.get_chunk(neighbour).is_some() {
            mark_dirty(dirty, neighbour);
        }
        proof {
            assert forall|d: IVec3| #[trigger] dirty@.contains(d) <==> old(dirty)@.contains(d) || d
                == chunk_pos || exists|j: int|
                0 <= j < k + 1 && against(local, #[trigger] Face::spec_nth(j)) && d == step(
                    chunk_pos,
                    Face::spec_nth(j),
                ) && before.has_chunk(d) by {
                if exists|j: int|
                    0 <= j < k + 1 && against(local, #[trigger] Face::spec_nth(j)) && d == step(
                        chunk_pos,
                        Face::spec_nth(j),
                    ) && before.has_chunk(d) {
                    let j = choose|j: int|
                        0 <= j < k + 1 && against(local, #[trigger] Face::spec_nth(j)) && d == step(
                            chunk_pos,
                            Face::spec_nth(j),
                        ) && before.has_chunk(d);
                    if j < k {
                        assert(old_dirty.contains(d));
                    }
                }
                if old_dirty.contains(d) && !dirty@.contains(d) {
                    assert(false);
                }
            }
        }
        k += 1;
    }
    true
}

} // verus!
