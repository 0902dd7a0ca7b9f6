//! The objects of a scene, and whether a ray meets them.
//!
//! The caller works out the numbers of the geometry; what is decided here
//! is what they mean: a hit or a miss, at which distance, on which side.

use vstd::prelude::*;
use crate::hit::{order_hits, all_distances, is_hit_list, Hit, HitError, Surface};
use crate::material::{Material, Vector};
use crate::number::{is_nan, less, same, less_than, no_more_than, equals, at_most, SIGN, ZERO};

verus! {

/// The number with the opposite sign.
pub open spec fn negated(key: u64) -> u64 {
    if key >= SIGN {
        (key - SIGN) as u64
    } else {
        (key + SIGN) as u64
    }
}

/// The number with the opposite sign.
pub fn negate(key: u64) -> (r: u64)
    ensures
        r == negated(key),
{
    if key >= SIGN {
        key - SIGN
    } else {
        key + SIGN
    }
}

/// A number as a distance: zero is written with a clear sign, so that it
/// has the smallest key of all distances.
pub open spec fn as_distance(key: u64) -> u64 {
    if key == SIGN {
        ZERO
    } else {
        key
    }
}

fn distance_of(key: u64) -> (r: u64)
    ensures
        r == as_distance(key),
{
    if key == SIGN {
        ZERO
    } else {
        key
    }
}

/// A sphere.
#[derive(Clone, Copy, Debug, PartialEq, Eq, Structural)]
pub struct Sphere {
    pub material: Material,
    pub center: Vector,
    pub radius: u64,
}

/// A plane: the points whose product with the normal is the offset.
#[derive(Clone, Copy, Debug, PartialEq, Eq, Structural)]
pub struct Plane {
    pub material: Material,
    pub normal: Vector,
    pub offset: u64,
}

/// A triangle, given by its corners.
#[derive(Clone, Copy, Debug, PartialEq, Eq, Structural)]
pub struct Triangle {
    pub material: Material,
    pub v1: Vector,
    pub v2: Vector,
    pub v3: Vector,
}

/// An object of a scene.
#[derive(Clone, Copy, Debug, PartialEq, Eq, Structural)]
pub enum ModelObject {
    Sphere(Sphere),
    Plane(Plane),
    Triangle(Triangle),
}

/// The material of an object.
pub open spec fn material_of(object: ModelObject) -> Material {
    match object {
        ModelObject::Sphere(s) => s.material,
        ModelObject::Plane(s) => s.material,
        ModelObject::Triangle(s) => s.material,
    }
}

impl ModelObject {
    /// The object's material.
    pub fn material(&self) -> (m: Material)
        ensures
            m == material_of(*self),
    {
        match self {
            ModelObject::Sphere(s) => s.material,
            ModelObject::Plane(s) => s.material,
            ModelObject::Triangle(s) => s.material,
        }
    }
}

/// What a ray and a sphere have to do with one another.
#[derive(Clone, Copy, Debug, PartialEq, Eq, Structural)]
pub struct SphereProbe {
    /// How far along the ray the point nearest to the centre lies.
    pub t_ca: u64,
    /// The square of the distance from the centre to the ray.
    pub d_square: u64,
    /// The square of the radius.
    pub r_square: u64,
    /// How far along the ray the ray enters the sphere, if it does.
    pub distance_near: u64,
}

/// What a ray and a plane have to do with one another.
#[derive(Clone, Copy, Debug, PartialEq, Eq, Structural)]
pub struct PlaneProbe {
    /// The cosine of the angle between the plane's normal and the ray.
    pub cos_angle: u64,
    /// How far along the ray the plane lies.
    pub t: u64,
}

/// On which side of the plane through the ray's origin and one edge of a
/// triangle the ray runs.
#[derive(Clone, Copy, Debug, PartialEq, Eq, Structural)]
pub struct EdgeProbe {
    /// How far the triangle's third vertex lies on the side that the
    /// plane's normal points to; below zero where it lies on the other.
    pub reference: u64,
    /// How far the ray runs towards that side.
    pub along: u64,
}

/// What a ray and a triangle have to do with one another.
#[derive(Clone, Copy, Debug, PartialEq, Eq, Structural)]
pub struct TriangleProbe {
    /// The ray and the triangle's plane.
    pub plane: PlaneProbe,
    /// The ray and each of the triangle's three edges.
    pub first: EdgeProbe,
    pub second: EdgeProbe,
    pub third: EdgeProbe,
}

/// What a ray and an object have to do with one another.
#[derive(Clone, Copy, Debug, PartialEq, Eq, Structural)]
pub enum Probe {
    Sphere(SphereProbe),
    Plane(PlaneProbe),
    Triangle(TriangleProbe),
}

/// Where a ray meets a sphere. It misses when the sphere's centre lies
/// behind its origin, when it passes farther from the centre than the
/// radius, and when its origin lies inside the sphere. A ray that touches
/// the sphere meets it.
pub open spec fn sphere_hit(p: SphereProbe) -> Option<Surface> {
    if less(p.t_ca, ZERO) || less(p.r_square, p.d_square) || less(p.distance_near, ZERO) {
        None
    } else {
        Some(Surface { distance: as_distance(p.distance_near), flipped: false })
    }
}

/// Where a ray meets a plane. It misses when it runs along the plane,
/// when the plane lies behind its origin, and when its origin lies on the
/// plane: a hit lies ahead of the origin, at a distance above zero. It
/// meets the back of the plane when it runs the way the normal points.
/// Where the distance is no number, the hit is kept with it; it is
/// rejected when the hits are put in order.
pub open spec fn plane_hit(p: PlaneProbe) -> Option<Surface> {
    if same(p.cos_angle, ZERO) || less(p.t, ZERO) || same(p.t, ZERO) {
        None
    } else {
        Some(Surface { distance: p.t, flipped: less(ZERO, p.cos_angle) })
    }
}

/// Whether the ray runs on the side of an edge's plane on which the
/// triangle's third vertex lies, or in that plane.
pub open spec fn inside_edge(e: EdgeProbe) -> bool {
    if less(e.reference, ZERO) {
        at_most(ZERO, negated(e.along))
    } else {
        at_most(ZERO, e.along)
    }
}

/// Where a ray meets a triangle: where it meets the triangle's plane, if
/// it runs inside all three edges.
pub open spec fn triangle_hit(p: TriangleProbe) -> Option<Surface> {
    if inside_edge(p.first) && inside_edge(p.second) && inside_edge(p.third) {
        plane_hit(p.plane)
    } else {
        None
    }
}

/// Where a ray meets an object.
pub open spec fn object_hit(p: Probe) -> Option<Surface> {
    match p {
        Probe::Sphere(s) => sphere_hit(s),
        Probe::Plane(s) => plane_hit(s),
        Probe::Triangle(s) => triangle_hit(s),
    }
}

impl SphereProbe {
    /// Decides whether and where the ray meets the sphere.
    pub fn try_hit(&self) -> (r: Option<Surface>)
        ensures
            r == sphere_hit(*self),
    {
        if less_than(self.t_ca, ZERO) {
            return None;
        }
        if less_than(self.r_square, self.d_square) {
            return None;
        }
        if less_than(self.distance_near, ZERO) {
            return None;
        }
        Some(Surface { distance: distance_of(self.distance_near), flipped: false })
    }
}

impl PlaneProbe {
    /// Decides whether and where the ray meets the plane.
    pub fn try_hit(&self) -> (r: Option<Surface>)
        ensures
            r == plane_hit(*self),
    {
        if equals(self.cos_angle, ZERO) {
            return None;
        }
        if less_than(self.t, ZERO) || equals(self.t, ZERO) {
            return None;
        }
        Some(Surface { distance: self.t, flipped: less_than(ZERO, self.cos_angle) })
    }
}

/// Decides whether the ray runs inside an edge of a triangle.
pub fn check_vec_above_plane(edge: EdgeProbe) -> (b: bool)
    ensures
        b == inside_edge(edge),
{
    let along: u64 = if less_than(edge.reference, ZERO) {
        negate(edge.along)
    } else {
        edge.along
    };
    no_more_than(ZERO, along)
}

impl TriangleProbe {
    /// Decides whether and where the ray meets the triangle.
    pub fn try_hit(&self) -> (r: Option<Surface>)
        ensures
            r == triangle_hit(*self),
    {
        match self.plane.try_hit() {
            None => None,
            Some(surface) => {
                if check_vec_above_plane(self.first) && check_vec_above_plane(self.second)
                    && check_vec_above_plane(self.third) {
                    Some(surface)
                } else {
                    None
                }
            },
        }
    }
}

impl Probe {
    /// Decides whether and where the ray meets the object.
    pub fn try_hit(&self) -> (r: Option<Surface>)
        ensures
            r == object_hit(*self),
    {
        match self {
            Probe::Sphere(s) => s.try_hit(),
            Probe::Plane(s) => s.try_hit(),
            Probe::Triangle(s) => s.try_hit(),
        }
    }
}

/// Where the ray meets each of the objects, in the order of the scene's list.
pub open spec fn tries_of(probes: Seq<Probe>) -> Seq<Option<Surface>> {
    Seq::new(probes.len(), |k: int| object_hit(probes[k]))
}

/// Finds the hits of one ray, nearest first.
///
/// `probes` holds, for each object of the scene in the order of its list,
/// what the ray has to do with it. Fails on the first object whose hit is
/// at a distance that is no number.
pub fn find_hits(probes: &Vec<Probe>) -> (r: Result<Vec<Hit>, HitError>)
    ensures
        match r {
            Ok(hits) => {
                &&& all_distances(tries_of(probes@), probes@.len() as int)
                &&& is_hit_list(tries_of(probes@), hits@)
            },
            Err(HitError::InvalidDistance { object }) => {
                &&& object < probes@.len()
                &&& object_hit(probes@[object as int]) is Some
                &&& is_nan(object_hit(probes@[object as int])->0.distance)
                &&& all_distances(tries_of(probes@), object as int)
            },
        },
{
    let n: usize = probes.len();
    let mut tries: Vec<Option<Surface>> = Vec::new();
    let mut k: usize = 0;
    while k < n
        invariant
            k <= n,
            n == probes@.len(),
            tries@.len() == k,
            forall|j: int| 0 <= j < k ==> tries@[j] == object_hit(#[trigger] probes@[j]),
        decreases n - k,
    {
        tries.push(probes[k].try_hit());
        k += 1;
    }
    assert(tries@ =~= tries_of(probes@));
    let r = order_hits(&tries);
    proof {
        if let Err(HitError::InvalidDistance { object }) = r {
            lemma_no_hit_is_negative(probes@[object as int]);
        }
    }
    r
}

/// No hit is at a distance below zero, and zero, where a sphere is met at
/// it, has the key of zero: the distance of a hit is a distance unless it
/// is no number.
pub proof fn lemma_no_hit_is_negative(p: Probe)
    requires
        object_hit(p) is Some,
    ensures
        is_nan(object_hit(p)->0.distance) || crate::hit::is_distance(object_hit(p)->0.distance),
{
}

/// A ray that is aimed at the centre of a sphere from outside it meets
/// the sphere where it enters it, and the normal there is the sphere's
/// own, which points away from the centre. For such a ray the centre lies
/// ahead, at no distance from the ray, and the entry lies ahead too.
pub proof fn centre_aimed_rays_hit(p: SphereProbe)
    requires
        at_most(ZERO, p.t_ca),
        same(p.d_square, ZERO),
        at_most(ZERO, p.r_square),
        at_most(ZERO, p.distance_near),
    ensures
        sphere_hit(p) == Some(Surface { distance: as_distance(p.distance_near), flipped: false }),
        crate::hit::is_distance(as_distance(p.distance_near)),
{
}

/// A ray whose origin lies on a plane, or on the plane of a triangle, does
/// not meet it.
pub proof fn rays_from_the_plane_miss(p: PlaneProbe, t: TriangleProbe)
    requires
        same(p.t, ZERO),
        same(t.plane.t, ZERO),
    ensures
        plane_hit(p) is None,
        triangle_hit(t) is None,
{
}

/// A plane or a triangle is met ahead of the ray's origin: the distance of
/// the hit is above zero, unless it is no number.
pub proof fn plane_hits_lie_ahead(p: PlaneProbe, t: TriangleProbe)
    ensures
        plane_hit(p) is Some ==> plane_hit(p)->0.distance == p.t && (is_nan(p.t) || less(
            ZERO,
            p.t,
        )),
        triangle_hit(t) is Some ==> triangle_hit(t)->0.distance == t.plane.t && (is_nan(
            t.plane.t,
        ) || less(ZERO, t.plane.t)),
{
}

/// A ray that runs along a plane does not meet it.
pub proof fn parallel_rays_miss(p: PlaneProbe)
    requires
        same(p.cos_angle, ZERO),
    ensures
        plane_hit(p) is None,
{
}

/// Where a ray meets a plane, the normal at the hit points against the
/// ray: the plane's own normal where the ray runs against it, its opposite
/// where the ray runs with it.
pub proof fn normal_faces_the_ray(p: PlaneProbe)
    requires
        plane_hit(p) is Some,
        !is_nan(p.cos_angle),
    ensures
        plane_hit(p)->0.flipped ==> less(negated(p.cos_angle), ZERO),
        !plane_hit(p)->0.flipped ==> less(p.cos_angle, ZERO),
{
}

} // verus!
