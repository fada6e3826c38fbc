//! Painter's ordering: farthest triangles are drawn first so that nearer
//! ones overwrite them.
use vstd::prelude::*;

verus! {

/// Triangle `a` is drawn before triangle `b`: it is farther from the camera,
/// or as far and earlier in the mesh.
pub open spec fn drawn_before(distances: Seq<u64>, a: int, b: int) -> bool {
    distances[a] > distances[b] || (distances[a] == distances[b] && a < b)
}

/// The painter's order of a mesh: the indices of its triangles, farthest
/// first, triangles at equal distance in mesh order. `distances[i]` is any
/// measure of how far triangle `i` is that grows with the distance.
pub fn far_to_near(distances: &Vec<u64>) -> (order: Vec<usize>)
    ensures
        order@.len() == distances@.len(),
        forall|k: int| 0 <= k < order@.len() ==> #[trigger] order@[k] < distances@.len(),
        forall|k: usize| k < distances@.len() ==> #[trigger] order@.contains(k),
        forall|i: int, j: int|
            0 <= i < j < order@.len() ==> drawn_before(distances@, #[trigger] order@[i] as int, #[trigger] order@[j] as int),
{
    let n = distances.len();
    let mut order: Vec<usize> = Vec::new();
    let mut i: usize = 0;
    while i < n
        invariant
            n == distances@.len(),
            i <= n,
            order@.len() == i,
            forall|k: int| 0 <= k < order@.len() ==> #[trigger] order@[k] < i,
            forall|k: usize| k < i ==> #[trigger] order@.contains(k),
            forall|a: int, b: int|
                0 <= a < b < order@.len() ==> drawn_before(distances@, #[trigger] order@[a] as int, #[trigger] order@[b] as int),
        decreases n - i,
    {
        let key = distances[i];
        let mut pos: usize = 0;
        while pos < order.len() && distances[order[pos]] >= key
            invariant
                n == distances@.len(),
                i < n,
                order@.len() == i,
                pos <= order@.len(),
                forall|k: int| 0 <= k < order@.len() ==> #[trigger] order@[k] < i,
                forall|k: int| 0 <= k < pos ==> distances@[#[trigger] order@[k] as int] >= key,
            decreases order@.len() - pos,
        {
            pos += 1;
        }
        let ghost old_order = order@;
        proof {
            assert forall|k: int| pos <= k < old_order.len() implies distances@[#[trigger] old_order[k] as int] < key by {
                if k > pos {
                    assert(drawn_before(distances@, old_order[pos as int] as int, old_order[k] as int));
                }
            }
        }
        order.insert(pos, i);
        proof {
            assert forall|k: int| 0 <= k < order@.len() implies #[trigger] order@[k] < i + 1 by {
                if k < pos {
                    assert(order@[k] == old_order[k]);
                } else if k > pos {
                    assert(order@[k] == old_order[k - 1]);
                }
            }
            assert forall|k: usize| k < i + 1 implies #[trigger] order@.contains(k) by {
                if k == i {
                    assert(order@[pos as int] == i);
                } else {
                    assert(old_order.contains(k));
                    let m = choose|m: int| 0 <= m < old_order.len() && old_order[m] == k;
                    if m < pos {
                        assert(order@[m] == k);
                    } else {
                        assert(order@[m + 1] == k);
                    }
                }
            }
            assert forall|a: int, b: int| 0 <= a < b < order@.len() implies drawn_before(
                distances@,
                #[trigger] order@[a] as int,
                #[trigger] order@[b] as int,
            ) by {
                let oa = if a < pos { a } else { a - 1 };
                let ob = if b < pos { b } else { b - 1 };
                if a != pos && b != pos {
                    assert(order@[a] == old_order[oa]);
                    assert(order@[b] == old_order[ob]);
                    assert(drawn_before(distances@, old_order[oa] as int, old_order[ob] as int));
                } else if a == pos {
                    assert(order@[b] == old_order[ob]);
                    assert(distances@[old_order[ob] as int] < key);
                } else {
                    assert(order@[a] == old_order[oa]);
                    assert(distances@[old_order[oa] as int] >= key);
                }
            }
        }
        i += 1;
    }
    order
}

} // verus!
