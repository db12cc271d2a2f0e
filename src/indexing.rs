use std::collections::HashMap;

use vstd::prelude::*;

use crate::obj::{OBJIndex, ObjFaces};

verus! {

/// The elements of `s` without repeats, each where it first occurs.
pub open spec fn first_occurrences<K>(s: Seq<K>) -> Seq<K>
    decreases s.len(),
{
    if s.len() == 0 {
        Seq::empty()
    } else {
        let d = first_occurrences(s.drop_last());
        if d.contains(s.last()) {
            d
        } else {
            d.push(s.last())
        }
    }
}

/// The three indices of a corner side by side in one 128-bit key.
pub open spec fn corner_key(k: OBJIndex) -> u128 {
    ((k.vertex_index as u32 as u128) << 64u128) | ((k.tex_coord_index as u32 as u128) << 32u128) | (
    k.normal_index as u32 as u128)
}

fn key_of(k: OBJIndex) -> (r: u128)
    ensures
        r == corner_key(k),
{
    ((k.vertex_index as u32 as u128) << 64u128) | ((k.tex_coord_index as u32 as u128) << 32u128) | (
    k.normal_index as u32 as u128)
}

proof fn lemma_corner_key_injective(a: OBJIndex, b: OBJIndex)
    requires
        corner_key(a) == corner_key(b),
    ensures
        a == b,
{
    let (a1, a2, a3) = (a.vertex_index, a.tex_coord_index, a.normal_index);
    let (b1, b2, b3) = (b.vertex_index, b.tex_coord_index, b.normal_index);
    assert(a1 == b1 && a2 == b2 && a3 == b3) by (bit_vector)
        requires
            ((a1 as u32 as u128) << 64u128) | ((a2 as u32 as u128) << 32u128) | (a3 as u32 as u128)
                == ((b1 as u32 as u128) << 64u128) | ((b2 as u32 as u128) << 32u128) | (
            b3 as u32 as u128),
    ;
}

/// How the corners of a mesh become shared vertices. Corners with equal
/// indices share one vertex; for normals that are computed from the
/// geometry, a second, coarser set of vertices is kept, one per position.
pub struct IndexPlan {
    /// For each corner, the vertex it uses.
    pub indices: Vec<i32>,
    /// For each vertex, the corner indices it was made from.
    pub vertices: Vec<OBJIndex>,
    /// For each corner, the vertex of the per-position set that it uses.
    pub normal_model_indices: Vec<i32>,
    /// For each vertex of the per-position set, its position index.
    pub normal_model_positions: Vec<i32>,
    /// For each vertex, its vertex in the per-position set.
    pub normal_slots: Vec<i32>,
}

pub open spec fn vertex_indices(s: Seq<OBJIndex>) -> Seq<i32> {
    s.map_values(|k: OBJIndex| k.vertex_index)
}

impl ObjFaces {
    /// Assigns each distinct corner one vertex, numbered in the order of
    /// first use, and each distinct position one vertex of the per-position
    /// set in the same way.
    pub fn to_index_plan(&self) -> (plan: IndexPlan)
        requires
            self.indices@.len() <= i32::MAX,
        ensures
            plan.vertices@ == first_occurrences(self.indices@),
            plan.vertices@.no_duplicates(),
            plan.indices@.len() == self.indices@.len(),
            forall|i: int|
                0 <= i < self.indices@.len() ==> 0 <= #[trigger] plan.indices@[i]
                    < plan.vertices@.len() && plan.vertices@[plan.indices@[i] as int]
                    == self.indices@[i],
            plan.normal_model_positions@ == first_occurrences(vertex_indices(self.indices@)),
            plan.normal_model_positions@.no_duplicates(),
            plan.normal_model_indices@.len() == self.indices@.len(),
            forall|i: int|
                0 <= i < self.indices@.len() ==> 0 <= #[trigger] plan.normal_model_indices@[i]
                    < plan.normal_model_positions@.len()
                    && plan.normal_model_positions@[plan.normal_model_indices@[i] as int]
                    == self.indices@[i].vertex_index,
            plan.normal_slots@.len() == plan.vertices@.len(),
            forall|j: int|
                0 <= j < plan.vertices@.len() ==> 0 <= #[trigger] plan.normal_slots@[j]
                    < plan.normal_model_positions@.len()
                    && plan.normal_model_positions@[plan.normal_slots@[j] as int]
                    == plan.vertices@[j].vertex_index,
    {
        broadcast use vstd::std_specs::hash::group_hash_axioms;

        let ghost s = self.indices@;
        let ghost vs = vertex_indices(s);
        let n = self.indices.len();
        let mut indices: Vec<i32> = Vec::new();
        let mut vertices: Vec<OBJIndex> = Vec::new();
        let mut normal_model_indices: Vec<i32> = Vec::new();
        let mut normal_model_positions: Vec<i32> = Vec::new();
        let mut normal_slots: Vec<i32> = Vec::new();
        let mut vertex_map: HashMap<u128, i32> = HashMap::new();
        let mut position_map: HashMap<i32, i32> = HashMap::new();
        let mut i: usize = 0;
        while i < n
            invariant
                s == self.indices@,
                vs == vertex_indices(s),
                n == s.len(),
                n <= i32::MAX,
                0 <= i <= n,
                vertices@ == first_occurrences(s.take(i as int)),
                vertices@.no_duplicates(),
                vertices@.len() <= i,
                indices@.len() == i,
                forall|k: int|
                    0 <= k < i ==> 0 <= #[trigger] indices@[k] < vertices@.len()
                        && vertices@[indices@[k] as int] == s[k],
                forall|j: int|
                    0 <= j < vertices@.len() ==> #[trigger] vertex_map@.contains_key(
                        corner_key(vertices@[j]),
                    ) && vertex_map@[corner_key(vertices@[j])] == j,
                forall|key: u128|
                    #[trigger] vertex_map@.contains_key(key) ==> 0 <= vertex_map@[key]
                        < vertices@.len() && corner_key(vertices@[vertex_map@[key] as int]) == key,
                normal_model_positions@ == first_occurrences(vs.take(i as int)),
                normal_model_positions@.no_duplicates(),
                normal_model_positions@.len() <= i,
                normal_model_indices@.len() == i,
                forall|k: int|
                    0 <= k < i ==> 0 <= #[trigger] normal_model_indices@[k]
                        < normal_model_positions@.len()
                        && normal_model_positions@[normal_model_indices@[k] as int] == vs[k],
                forall|j: int|
                    0 <= j < normal_model_positions@.len() ==> #[trigger] position_map@.contains_key(
                        normal_model_positions@[j],
                    ) && position_map@[normal_model_positions@[j]] == j,
                forall|p: i32|
                    #[trigger] position_map@.contains_key(p) ==> 0 <= position_map@[p]
                        < normal_model_positions@.len() && normal_model_positions@[position_map@[p] as int]
                        == p,
                normal_slots@.len() == vertices@.len(),
                forall|j: int|
                    0 <= j < vertices@.len() ==> 0 <= #[trigger] normal_slots@[j]
                        < normal_model_positions@.len()
                        && normal_model_positions@[normal_slots@[j] as int]
                        == vertices@[j].vertex_index,
            decreases n - i,
        {
            let current = self.indices[i];
            proof {
                assert(s.take(i + 1).drop_last() =~= s.take(i as int));
                assert(vs.take(i + 1).drop_last() =~= vs.take(i as int));
                assert(vs[i as int] == current.vertex_index);
            }
            let key = key_of(current);
            let position_index = match position_map.get(&current.vertex_index) {
                Some(p) => {
                    let p = *p;
                    proof {
                        assert(normal_model_positions@[p as int] == current.vertex_index);
                        assert(normal_model_positions@.contains(current.vertex_index));
                    }
                    p
                },
                None => {
                    proof {
                        if normal_model_positions@.contains(current.vertex_index) {
                            let j = choose|j: int|
                                0 <= j < normal_model_positions@.len()
                                    && normal_model_positions@[j] == current.vertex_index;
                            assert(position_map@.contains_key(normal_model_positions@[j]));
                        }
                    }
                    let p = normal_model_positions.len() as i32;
                    position_map.insert(current.vertex_index, p);
                    normal_model_positions.push(current.vertex_index);
                    p
                },
            };
            let vertex_index = match vertex_map.get(&key) {
                Some(v) => {
                    let v = *v;
                    proof {
                        lemma_corner_key_injective(vertices@[v as int], current);
                        assert(vertices@.contains(current));
                    }
                    v
                },
                None => {
                    proof {
                        if vertices@.contains(current) {
                            let j = choose|j: int| 0 <= j < vertices@.len() && vertices@[j] == current;
                            assert(vertex_map@.contains_key(corner_key(vertices@[j])));
                        }
                    }
                    let v = vertices.len() as i32;
                    let ghost old_map = vertex_map@;
                    let ghost old_vs = vertices@;
                    assert(forall|j: int|
                        0 <= j < old_vs.len() ==> #[trigger] old_map.contains_key(
                            corner_key(old_vs[j]),
                        ) && old_map[corner_key(old_vs[j])] == j);
                    vertex_map.insert(key, v);
                    vertices.push(current);
                    normal_slots.push(position_index);
                    proof {
                        assert forall|key2: u128| #[trigger] vertex_map@.contains_key(key2) implies 0
                            <= vertex_map@[key2] < vertices@.len() && corner_key(
                            vertices@[vertex_map@[key2] as int],
                        ) == key2 by {
                            if key2 != key {
                                assert(vertex_map@.contains_key(key2));
                            }
                        }
                        assert forall|j: int| 0 <= j < vertices@.len() implies #[trigger] vertex_map@.contains_key(
                            corner_key(vertices@[j]),
                        ) && vertex_map@[corner_key(vertices@[j])] == j by {
                            if j < vertices@.len() - 1 {
                                assert(old_vs[j] == vertices@[j]);
                                assert(old_map.contains_key(corner_key(old_vs[j])));
                                if corner_key(vertices@[j]) == key {
                                    lemma_corner_key_injective(vertices@[j], current);
                                }
                            }
                        }
                    }
                    v
                },
            };
            assert(forall|j: int|
                0 <= j < vertices@.len() ==> #[trigger] vertex_map@.contains_key(
                    corner_key(vertices@[j]),
                ) && vertex_map@[corner_key(vertices@[j])] == j);
            indices.push(vertex_index);
            normal_model_indices.push(position_index);
            i = i + 1;
        }
        proof {
            assert(s.take(n as int) =~= s);
            assert(vs.take(n as int) =~= vs);
        }
        IndexPlan { indices, vertices, normal_model_indices, normal_model_positions, normal_slots }
    }
}

} // verus!
