//! The surfaces that a ray meets, and the order in which it meets them.
//!
//! A hit lies ahead of the ray's origin. A plane or a triangle is met at a
//! distance above zero; only a sphere on whose surface the origin lies is
//! met at distance zero. So the distance of a hit is never below zero, and
//! of two such numbers, zero being written with a clear sign, the nearer
//! has the smaller key: the keys themselves are compared.

use vstd::prelude::*;
use crate::number::INFINITY;

verus! {

/// Whether hits can be put in order by `key`: it stands for a number that
/// is not below zero, zero being written with a clear sign. The key of a
/// number below zero, and one that stands for no number, cannot be the
/// distance of a hit.
pub open spec fn is_distance(key: u64) -> bool {
    key <= INFINITY
}

/// Where a ray meets one object.
#[derive(Clone, Copy, Debug, PartialEq, Eq, Structural)]
pub struct Surface {
    /// The distance from the ray's origin.
    pub distance: u64,
    /// Whether the ray meets the back of the surface, so that the normal
    /// at the hit is the opposite of the surface's own.
    pub flipped: bool,
}

/// One meeting of a ray with a surface.
#[derive(Clone, Copy, Debug, PartialEq, Eq, Structural)]
pub struct Hit {
    /// The distance from the ray's origin.
    pub distance: u64,
    /// Which object was hit: its place in the scene's list of objects.
    pub object: usize,
    /// Whether the ray meets the back of the surface.
    pub flipped: bool,
}

/// Why the hits of a ray could not be put in order.
#[derive(Clone, Copy, Debug, PartialEq, Eq, Structural)]
pub enum HitError {
    /// The object at this place reported a hit whose key is not a distance.
    InvalidDistance { object: usize },
}

/// Whether `a` comes before `b` along the ray: it is nearer, or as near
/// and earlier in the scene's list.
pub open spec fn comes_before(a: Hit, b: Hit) -> bool {
    a.distance < b.distance || (a.distance == b.distance && a.object < b.object)
}

/// Whether `hits` are the hits that `tries` report, nearest first.
///
/// `tries[k]` says where object `k` is met, if it is met. Every met object
/// has its hit in the list, as it was met; nothing else is in it; and each
/// hit comes before all that follow it, so that objects met at one
/// distance stand in the order of the scene's list.
pub open spec fn is_hit_list(tries: Seq<Option<Surface>>, hits: Seq<Hit>) -> bool {
    &&& forall|k: int|
        0 <= k < hits.len() ==> (#[trigger] hits[k]).object < tries.len() && tries[hits[k].object as int]
            == Some(Surface { distance: hits[k].distance, flipped: hits[k].flipped })
    &&& forall|a: int, b: int|
        0 <= a < b < hits.len() ==> comes_before(#[trigger] hits[a], #[trigger] hits[b])
    &&& forall|j: int|
        0 <= j < tries.len() && (#[trigger] tries[j]) is Some ==> exists|k: int|
            0 <= k < hits.len() && (#[trigger] hits[k]).object == j
}

/// Whether every distance among the first `n` of `tries` is one.
pub open spec fn all_distances(tries: Seq<Option<Surface>>, n: int) -> bool {
    forall|j: int|
        0 <= j < n && (#[trigger] tries[j]) is Some ==> is_distance(tries[j]->0.distance)
}

/// Puts the hits of one ray in order, nearest first.
///
/// Fails on the first object, in the order of the scene's list, whose
/// distance is not one.
pub fn order_hits(tries: &Vec<Option<Surface>>) -> (r: Result<Vec<Hit>, HitError>)
    ensures
        match r {
            Ok(hits) => all_distances(tries@, tries@.len() as int) && is_hit_list(tries@, hits@),
            Err(HitError::InvalidDistance { object }) => {
                &&& object < tries@.len()
                &&& tries@[object as int] is Some
                &&& !is_distance(tries@[object as int]->0.distance)
                &&& all_distances(tries@, object as int)
            },
        },
{
    let n: usize = tries.len();
    let mut hits: Vec<Hit> = Vec::new();
    let mut i: usize = 0;
    while i < n
        invariant
            i <= n,
            n == tries@.len(),
            hits@.len() <= i,
            all_distances(tries@, i as int),
            is_hit_list(tries@.take(i as int), hits@),
        decreases n - i,
    {
        match tries[i] {
            None => {
                assert(is_hit_list(tries@.take(i + 1), hits@)) by {
                    assert forall|j: int|
                        0 <= j < i + 1 && (#[trigger] tries@.take(i + 1)[j]) is Some implies exists|
                        k: int,
                    |
                        0 <= k < hits@.len() && (#[trigger] hits@[k]).object == j by {
                        assert(tries@.take(i as int)[j] is Some);
                    }
                }
            },
            Some(surface) => {
                let distance: u64 = surface.distance;
                if distance > INFINITY {
                    return Err(HitError::InvalidDistance { object: i });
                }
                let hit = Hit { distance, object: i, flipped: surface.flipped };
                let mut p: usize = hits.len();
                while p > 0 && hits[p - 1].distance > distance
                    invariant
                        p <= hits@.len(),
                        forall|b: int|
                            p <= b < hits@.len() ==> (#[trigger] hits@[b]).distance > distance,
                    decreases p,
                {
                    p -= 1;
                }
                let ghost old_hits = hits@;
                hits.insert(p, hit);
                proof {
                    let new_hits = hits@;
                    assert(new_hits == old_hits.insert(p as int, hit));
                    assert forall|k: int| 0 <= k < old_hits.len() implies (
                    #[trigger] old_hits[k]).object < i by {
                        assert(old_hits[k].object < tries@.take(i as int).len());
                    }
                    assert forall|a: int, b: int| 0 <= a < b < new_hits.len() implies comes_before(
                        #[trigger] new_hits[a],
                        #[trigger] new_hits[b],
                    ) by {
                        if b == p {
                            assert(new_hits[a] == old_hits[a]);
                            if p > 0 {
                                assert(old_hits[p - 1].distance <= distance);
                                if a < p - 1 {
                                    assert(comes_before(old_hits[a], old_hits[p - 1]));
                                }
                            }
                        } else if a == p {
                            assert(new_hits[b] == old_hits[b - 1]);
                        } else {
                            let a0 = if a < p { a } else { a - 1 };
                            let b0 = if b < p { b } else { b - 1 };
                            assert(new_hits[a] == old_hits[a0]);
                            assert(new_hits[b] == old_hits[b0]);
                            assert(comes_before(old_hits[a0], old_hits[b0]));
                        }
                    }
                    assert forall|k: int| 0 <= k < new_hits.len() implies (
                    #[trigger] new_hits[k]).object < tries@.take(i + 1).len() && tries@.take(
                        i + 1,
                    )[new_hits[k].object as int] == Some(
                        Surface { distance: new_hits[k].distance, flipped: new_hits[k].flipped },
                    ) by {
                        if k < p {
                            assert(new_hits[k] == old_hits[k]);
                            assert(tries@.take(i as int)[old_hits[k].object as int] == Some(
                                Surface {
                                    distance: old_hits[k].distance,
                                    flipped: old_hits[k].flipped,
                                },
                            ));
                        } else if k > p {
                            assert(new_hits[k] == old_hits[k - 1]);
                            assert(tries@.take(i as int)[old_hits[k - 1].object as int] == Some(
                                Surface {
                                    distance: old_hits[k - 1].distance,
                                    flipped: old_hits[k - 1].flipped,
                                },
                            ));
                        }
                    }
                    assert forall|j: int|
                        0 <= j < i + 1 && (#[trigger] tries@.take(i + 1)[j]) is Some implies exists|
                        k: int,
                    |
                        0 <= k < new_hits.len() && (#[trigger] new_hits[k]).object == j by {
                        if j < i {
                            assert(tries@.take(i as int)[j] is Some);
                            let k0 = choose|k: int|
                                0 <= k < old_hits.len() && (#[trigger] old_hits[k]).object == j;
                            if k0 < p {
                                assert(new_hits[k0] == old_hits[k0]);
                            } else {
                                assert(new_hits[k0 + 1] == old_hits[k0]);
                            }
                        } else {
                            assert(new_hits[p as int].object == j);
                        }
                    }
                }
            },
        }
        i += 1;
    }
    assert(tries@.take(n as int) =~= tries@);
    Ok(hits)
}

/// Two lists of the hits that `tries` report agree as far as the first goes.
proof fn lemma_same_hit(tries: Seq<Option<Surface>>, a: Seq<Hit>, b: Seq<Hit>, i: int)
    requires
        is_hit_list(tries, a),
        is_hit_list(tries, b),
        0 <= i < a.len(),
    ensures
        i < b.len(),
        a[i] == b[i],
    decreases i,
{
    assert forall|j: int| 0 <= j < i implies j < b.len() && a[j] == b[j] by {
        lemma_same_hit(tries, a, b, j);
    }
    let object = a[i].object as int;
    assert(tries[object] is Some);
    let k = choose|k: int| 0 <= k < b.len() && (#[trigger] b[k]).object == object;
    assert(b[k] == a[i]);
    if k < i {
        assert(comes_before(a[k], a[i]));
    }
    let other = b[i].object as int;
    assert(tries[other] is Some);
    let m = choose|m: int| 0 <= m < a.len() && (#[trigger] a[m]).object == other;
    assert(a[m] == b[i]);
    if m < i {
        assert(comes_before(b[m], b[i]));
    }
    if k > i {
        assert(comes_before(b[i], b[k]));
        if m > i {
            assert(comes_before(a[i], a[m]));
        }
    }
}

/// The hits of a ray and their order are determined by what the objects
/// report: there is one list of them and no other.
pub proof fn hit_list_is_unique(tries: Seq<Option<Surface>>, a: Seq<Hit>, b: Seq<Hit>)
    requires
        is_hit_list(tries, a),
        is_hit_list(tries, b),
    ensures
        a == b,
{
    if a.len() > 0 {
        lemma_same_hit(tries, a, b, a.len() - 1);
    }
    if b.len() > 0 {
        lemma_same_hit(tries, b, a, b.len() - 1);
    }
    assert forall|i: int| 0 <= i < a.len() implies a[i] == b[i] by {
        lemma_same_hit(tries, a, b, i);
    }
    assert(a =~= b);
}

} // verus!
