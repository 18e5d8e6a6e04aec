//! The voxel catalog: a name and six texture ids per voxel type.

use vstd::prelude::*;

verus! {

/// Catalog entry of one voxel type.
pub struct VoxelData {
    pub name: String,
    /// Texture of each face, in the order left, top, front, right, bottom, back.
    pub texture_ids: [u32; 6],
}

impl VoxelData {
    pub fn new(name: String, texture_ids: [u32; 6]) -> (r: VoxelData)
        ensures
            r.name@ == name@,
            r.texture_ids@ == texture_ids@,
    {
        VoxelData { name, texture_ids }
    }
}

/// The contents of a list of strings.
pub open spec fn names_view(v: Seq<String>) -> Seq<Seq<char>> {
    v.map_values(|s: String| s@)
}

/// The texture names of each catalog input entry.
pub open spec fn texture_lists(in_data: Seq<(String, Vec<String>)>) -> Seq<Seq<Seq<char>>> {
    in_data.map_values(|e: (String, Vec<String>)| names_view(e.1@))
}

/// The texture lists of the first `n` entries, one after another.
pub open spec fn textures_upto(lists: Seq<Seq<Seq<char>>>, n: nat) -> Seq<Seq<char>>
    decreases n,
{
    if n == 0 {
        Seq::empty()
    } else {
        textures_upto(lists, (n - 1) as nat) + lists[n - 1]
    }
}

/// `s` without repeats, each name kept where it first appears.
pub open spec fn dedup(s: Seq<Seq<char>>) -> Seq<Seq<char>>
    decreases s.len(),
{
    if s.len() == 0 {
        s
    } else {
        let d = dedup(s.drop_last());
        if d.contains(s.last()) {
            d
        } else {
            d.push(s.last())
        }
    }
}

/// No name occurs twice in `s`.
pub open spec fn distinct(s: Seq<Seq<char>>) -> bool {
    forall|a: int, b: int| 0 <= a < b < s.len() ==> s[a] != s[b]
}

/// Position of `t` in `names`.
pub open spec fn name_index(names: Seq<Seq<char>>, t: Seq<char>) -> int {
    choose|j: int| 0 <= j < names.len() && names[j] == t
}

/// Texture ids (left, top, front, right, bottom, back) of an entry with
/// texture names `tex`, as positions in `names`: one name for all faces;
/// three for top, bottom and sides; six for top, bottom, front, back,
/// left and right; any other count gives texture 0 everywhere.
pub open spec fn expected_ids(names: Seq<Seq<char>>, tex: Seq<Seq<char>>) -> Seq<u32> {
    let f = |t: Seq<char>| name_index(names, t) as u32;
    if tex.len() == 1 {
        seq![f(tex[0]), f(tex[0]), f(tex[0]), f(tex[0]), f(tex[0]), f(tex[0])]
    } else if tex.len() == 3 {
        seq![f(tex[2]), f(tex[0]), f(tex[2]), f(tex[2]), f(tex[1]), f(tex[2])]
    } else if tex.len() == 6 {
        seq![f(tex[4]), f(tex[0]), f(tex[2]), f(tex[5]), f(tex[1]), f(tex[3])]
    } else {
        seq![0u32, 0, 0, 0, 0, 0]
    }
}

proof fn lemma_dedup(s: Seq<Seq<char>>)
    ensures
        distinct(dedup(s)),
        forall|t: Seq<char>| s.contains(t) <==> #[trigger] dedup(s).contains(t),
        dedup(s).len() <= s.len(),
    decreases s.len(),
{
    if s.len() > 0 {
        lemma_dedup(s.drop_last());
        let d = dedup(s.drop_last());
        let p = s.drop_last();
        let x = s.last();
        assert forall|t: Seq<char>| s.contains(t) <==> #[trigger] dedup(s).contains(t) by {
            if s.contains(t) {
                let k = choose|k: int| 0 <= k < s.len() && s[k] == t;
                if k < s.len() - 1 {
                    assert(p[k] == t);
                    assert(p.contains(t));
                }
            }
            if p.contains(t) {
                let m = choose|m: int| 0 <= m < p.len() && p[m] == t;
                assert(s[m] == t);
            }
            if t == x {
                assert(s[s.len() - 1] == t);
            }
            assert(s.contains(t) <==> (p.contains(t) || t == x));
            if !d.contains(x) {
                let e = d.push(x);
                assert(e[d.len() as int] == x);
                if d.contains(t) {
                    let k = choose|k: int| 0 <= k < d.len() && d[k] == t;
                    assert(e[k] == t);
                }
                if e.contains(t) && t != x {
                    let k = choose|k: int| 0 <= k < e.len() && e[k] == t;
                    assert(d[k] == t);
                }
                assert(e.contains(t) <==> (d.contains(t) || t == x));
            }
        }
    }
}

proof fn lemma_textures_upto_contains(lists: Seq<Seq<Seq<char>>>, n: nat, i: int, j: int)
    requires
        0 <= i < n <= lists.len(),
        0 <= j < lists[i].len(),
    ensures
        textures_upto(lists, n).contains(lists[i][j]),
    decreases n,
{
    let prev = textures_upto(lists, (n - 1) as nat);
    if i < n - 1 {
        lemma_textures_upto_contains(lists, (n - 1) as nat, i, j);
        let k = choose|k: int| 0 <= k < prev.len() && prev[k] == lists[i][j];
        assert(textures_upto(lists, n)[k] == lists[i][j]);
    } else {
        assert(textures_upto(lists, n)[prev.len() + j] == lists[i][j]);
    }
}

proof fn lemma_name_index(names: Seq<Seq<char>>, r: int, t: Seq<char>)
    requires
        distinct(names),
        0 <= r < names.len(),
        names[r] == t,
    ensures
        name_index(names, t) == r,
{
    let j = name_index(names, t);
    assert(0 <= j < names.len() && names[j] == t);
    if j < r {
        assert(names[j] != names[r]);
    } else if r < j {
        assert(names[r] != names[j]);
    }
}

/// Position of the first name equal to `f` in `v`, if any.
fn position(v: &Vec<String>, f: &String) -> (r: Option<usize>)
    ensures
        match r {
            Some(i) => i < v@.len() && v@[i as int]@ == f@ && forall|j: int|
                0 <= j < i ==> v@[j]@ != f@,
            None => forall|j: int| 0 <= j < v@.len() ==> v@[j]@ != f@,
        },
{
    let mut i: usize = 0;
    while i < v.len()
        invariant
            i <= v@.len(),
            forall|j: int| 0 <= j < i ==> v@[j]@ != f@,
        decreases v@.len() - i,
    {
        if v[i] == *f {
            return Some(i);
        }
        i += 1;
    }
    None
}

/// Position of the first name equal to `f` in `v`, which must hold it.
pub fn find_in_vec(v: &Vec<String>, f: &String) -> (r: u32)
    requires
        names_view(v@).contains(f@),
        v@.len() <= u32::MAX,
    ensures
        r < v@.len(),
        v@[r as int]@ == f@,
        forall|j: int| 0 <= j < r ==> v@[j]@ != f@,
{
    match position(v, f) {
        Some(i) => i as u32,
        None => {
            proof {
                let k = choose|k: int| 0 <= k < v@.len() && names_view(v@)[k] == f@;
                assert(v@[k]@ == f@);
            }
            0
        },
    }
}

/// Lookup table from voxel id to its catalog entry.
pub struct VoxelDataManager {
    pub voxel_data: Vec<VoxelData>,
}

impl VoxelDataManager {
    /// Builds the catalog from `(name, texture names)` entries, one per
    /// voxel type in id order. Also returns every texture name once, in
    /// order of first appearance; a texture id is a position in that list.
    /// An entry names one texture for all faces; three for top, bottom and
    /// sides; or six for top, bottom, front, back, left and right. Any other
    /// count gives texture 0 on every face.
    pub fn new(in_data: Vec<(String, Vec<String>)>) -> (r: (VoxelDataManager, Vec<String>))
        requires
            textures_upto(texture_lists(in_data@), in_data@.len()).len() <= u32::MAX,
        ensures
            names_view(r.1@) == dedup(textures_upto(texture_lists(in_data@), in_data@.len())),
            r.0.voxel_data@.len() == in_data@.len(),
            forall|i: int|
                0 <= i < in_data@.len() ==> (#[trigger] r.0.voxel_data@[i]).name@ == in_data@[i].0@
                    && r.0.voxel_data@[i].texture_ids@ == expected_ids(
                    names_view(r.1@),
                    texture_lists(in_data@)[i],
                ),
    {
        let ghost lists = texture_lists(in_data@);
        // Every texture name once, in order of first appearance.
        let mut image_names: Vec<String> = Vec::new();
        let mut i: usize = 0;
        while i < in_data.len()
            invariant
                i <= in_data@.len(),
                lists == texture_lists(in_data@),
                names_view(image_names@) == dedup(textures_upto(lists, i as nat)),
            decreases in_data@.len() - i,
        {
            let voxel_textures = &in_data[i].1;
            let ghost done = textures_upto(lists, i as nat);
            proof {
                assert(done + lists[i as int].take(0) =~= done);
            }
            let mut j: usize = 0;
            while j < voxel_textures.len()
                invariant
                    i < in_data@.len(),
                    j <= voxel_textures@.len(),
                    *voxel_textures == in_data@[i as int].1,
                    lists == texture_lists(in_data@),
                    done == textures_upto(lists, i as nat),
                    names_view(image_names@) == dedup(done + lists[i as int].take(j as int)),
                decreases voxel_textures@.len() - j,
            {
                let t = &voxel_textures[j];
                let ghost before = image_names@;
                let ghost flat = done + lists[i as int].take(j as int);
                let ghost next = done + lists[i as int].take(j + 1);
                proof {
                    assert(next.drop_last() =~= flat);
                    assert(next.last() == t@);
                    assert(next.len() > 0);
                }
                match position(&image_names, t) {
                    None => {
                        image_names.push(t.clone());
                        proof {
                            if names_view(before).contains(t@) {
                                let k = choose|k: int|
                                    0 <= k < before.len() && names_view(before)[k] == t@;
                                assert(before[k]@ == t@);
                            }
                            assert(names_view(image_names@) =~= names_view(before).push(t@));
                        }
                    },
                    Some(k) => {
                        proof {
                            assert(names_view(before)[k as int] == t@);
                        }
                    },
                }
                proof {
                    assert(names_view(image_names@) =~= dedup(next));
                }
                j += 1;
            }
            proof {
                assert(done + lists[i as int].take(j as int) =~= textures_upto(lists, (i + 1) as nat));
            }
            i += 1;
        }
        let ghost all = textures_upto(lists, in_data@.len());
        let ghost names = names_view(image_names@);
        proof {
            lemma_dedup(all);
        }
        // One entry per voxel type.
        let mut voxel_data: Vec<VoxelData> = Vec::new();
        let mut i: usize = 0;
        while i < in_data.len()
            invariant
                i <= in_data@.len(),
                lists == texture_lists(in_data@),
                all == textures_upto(lists, in_data@.len()),
                names == names_view(image_names@),
                names == dedup(all),
                distinct(names),
                forall|t: Seq<char>| all.contains(t) <==> #[trigger] names.contains(t),
                names.len() <= u32::MAX,
                voxel_data@.len() == i,
                forall|k: int|
                    0 <= k < i ==> (#[trigger] voxel_data@[k]).name@ == in_data@[k].0@
                        && voxel_data@[k].texture_ids@ == expected_ids(names, lists[k]),
            decreases in_data@.len() - i,
        {
            let name = &in_data[i].0;
            let tex = &in_data[i].1;
            let ghost tl = lists[i as int];
            proof {
                assert forall|k: int| 0 <= k < tex@.len() implies names.contains(#[trigger] tex@[k]@)
                    by {
                    assert(tl[k] == tex@[k]@);
                    lemma_textures_upto_contains(lists, in_data@.len(), i as int, k);
                }
                assert forall|k: int| 0 <= k < tex@.len() implies name_index(names, #[trigger] tex@[k]@)
                    == name_index(names, tl[k]) by {
                    assert(tl[k] == tex@[k]@);
                }
            }
            let texture_ids: [u32; 6] = if tex.len() == 1 {
                let a = find_in_vec(&image_names, &tex[0]);
                proof {
                    lemma_name_index(names, a as int, tex@[0]@);
                }
                [a, a, a, a, a, a]
            } else if tex.len() == 3 {
                let top = find_in_vec(&image_names, &tex[0]);
                let bottom = find_in_vec(&image_names, &tex[1]);
                let side = find_in_vec(&image_names, &tex[2]);
                proof {
                    lemma_name_index(names, top as int, tex@[0]@);
                    lemma_name_index(names, bottom as int, tex@[1]@);
                    lemma_name_index(names, side as int, tex@[2]@);
                }
                [side, top, side, side, bottom, side]
            } else if tex.len() == 6 {
                let top = find_in_vec(&image_names, &tex[0]);
                let bottom = find_in_vec(&image_names, &tex[1]);
                let front = find_in_vec(&image_names, &tex[2]);
                let back = find_in_vec(&image_names, &tex[3]);
                let left = find_in_vec(&image_names, &tex[4]);
                let right = find_in_vec(&image_names, &tex[5]);
                proof {
                    lemma_name_index(names, top as int, tex@[0]@);
                    lemma_name_index(names, bottom as int, tex@[1]@);
                    lemma_name_index(names, front as int, tex@[2]@);
                    lemma_name_index(names, back as int, tex@[3]@);
                    lemma_name_index(names, left as int, tex@[4]@);
                    lemma_name_index(names, right as int, tex@[5]@);
                }
                [left, top, front, right, bottom, back]
            } else {
                [0, 0, 0, 0, 0, 0]
            };
            proof {
                assert(texture_ids@ =~= expected_ids(names, tl));
            }
            voxel_data.push(VoxelData { name: name.clone(), texture_ids });
            i += 1;
        }
        (VoxelDataManager { voxel_data }, image_names)
    }

    /// Number of voxel types in the catalog.
    pub open spec fn len(&self) -> nat {
        self.voxel_data@.len()
    }

    /// Texture of face `side` of voxel type `voxel`.
    pub open spec fn texture_of(&self, voxel: int, side: int) -> u32 {
        self.voxel_data@[voxel].texture_ids@[side]
    }

    /// Texture id of face `side` (0 to 5: left, top, front, right, bottom,
    /// back) of voxel type `voxel`.
    pub fn get_texture_id(&self, voxel: u8, side: usize) -> (r: u32)
        requires
            voxel < self.len(),
            side < 6,
        ensures
            r == self.texture_of(voxel as int, side as int),
    {
        self.voxel_data[voxel as usize].texture_ids[side]
    }

    /// Name of voxel type `voxel`.
    pub fn get_name(&self, voxel: u8) -> (r: String)
        requires
            voxel < self.len(),
        ensures
            r@ == self.voxel_data@[voxel as int].name@,
    {
        self.voxel_data[voxel as usize].name.clone()
    }
}

} // verus!
