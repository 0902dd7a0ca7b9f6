//! The decisions of the shading model: how deep reflections go, which of
//! a ray's hits colour a pixel, and which of them dim a light.

use vstd::prelude::*;
use crate::camera::{grid_cells, Camera, Cell};
use crate::hit::{all_distances, is_hit_list, Hit, HitError};
use crate::material::{Color, Light, Material};
use crate::model_object::{find_hits, material_of, object_hit, tries_of, ModelObject, Probe};
use crate::number::{
    at_most, equals, is_nan, less, less_than, no_more_than, same, ONE, ZERO,
};

verus! {

/// The key of the distance below which two points on one object count as
/// the same point: one hundred-thousandth.
pub const TOLERANCE: u64 = 0x3EE4_F8B5_88E3_68F1;

/// A scene: what is rendered, from where, and how finely.
#[derive(Debug)]
pub struct Scene {
    pub background_color: Color,
    /// The number of shadow rays per light and axis.
    pub shadow_rays_n: u32,
    /// How many rays may follow one another by reflection, the first included.
    pub max_recursion: u32,
    /// The number of samples per pixel and axis.
    pub super_sampling_n: u32,
    /// The objects, in the order in which they were described.
    pub objects: Vec<ModelObject>,
    pub camera: Camera,
    pub lights: Vec<Light>,
}

/// Which of a ray's hits colour the pixel.
#[derive(Clone, Copy, Debug, PartialEq, Eq, Structural)]
pub struct Layers {
    /// How many hits contribute, counted from the nearest.
    pub count: usize,
    /// Whether the background shows through behind them.
    pub background: bool,
}

/// What a hit gets by reflection.
#[derive(Clone, Copy, Debug, PartialEq, Eq, Structural)]
pub enum Reflection {
    /// Nothing: the surface does not mirror.
    Black,
    /// The colour of the background, tinted by the surface: the reflected
    /// ray is past the recursion limit.
    Background,
    /// The colour of the reflected ray, tinted by the surface. The ray is
    /// traced at this level.
    Traced { recursion_level: u32 },
}

/// A surface that a shadow ray meets on its way from a light to a point.
#[derive(Clone, Copy, Debug, PartialEq, Eq, Structural)]
pub struct ShadowHit {
    /// Which object was hit.
    pub object: usize,
    /// The key of the distance from the ray's origin to the point hit.
    pub travelled: u64,
    /// The key of the distance from the point hit to the point that is lit.
    pub gap: u64,
}

/// What becomes of a shadow ray.
#[derive(Clone, Copy, Debug, PartialEq, Eq, Structural)]
pub enum Shadow {
    /// An opaque surface stands in the way: no light arrives.
    Blocked,
    /// The light arrives, dimmed by the transparency of each of the first
    /// `dimmed_by` surfaces that the ray meets.
    Lit { dimmed_by: usize },
}

/// What one light has to do with a hit.
#[derive(Clone, Copy, Debug, PartialEq, Eq, Structural)]
pub struct LightProbe {
    /// The part of the light that reaches the hit, shadows counted.
    pub intensity: u64,
    /// The cosine of the angle between the normal at the hit and the
    /// direction to the light.
    pub diffusion: u64,
    /// The cosine of the angle between the light's mirror image about the
    /// normal and the direction back to the ray's origin.
    pub cos_angle: u64,
}

impl LightProbe {
    /// Decides whether the diffusion can be a cosine: it is a number, and
    /// at most one. Where it is not, the normal at the hit or the direction
    /// to the light is not of length one.
    pub fn diffusion_is_a_cosine(&self) -> (b: bool)
        ensures
            b == at_most(self.diffusion, ONE),
    {
        no_more_than(self.diffusion, ONE)
    }
}

/// What one light adds to the colour of a hit.
#[derive(Clone, Copy, Debug, PartialEq, Eq, Structural)]
pub struct LightTerms {
    /// The weight of the light's colour in the diffuse part: the cosine
    /// of the angle of incidence, or zero where the light comes from behind.
    pub diffusion: u64,
    /// Whether the light adds a highlight.
    pub specular: bool,
}

/// What a light adds to the colour of a hit on `material`: nothing where
/// none of it arrives; else a diffuse part, and a highlight where the
/// material has highlights and the mirrored light points towards the
/// ray's origin.
pub open spec fn light_terms(material: Material, p: LightProbe) -> Option<LightTerms> {
    if same(p.intensity, ZERO) {
        None
    } else {
        Some(
            LightTerms {
                diffusion: if less(ZERO, p.diffusion) {
                    p.diffusion
                } else {
                    ZERO
                },
                specular: !material.specular_color.is_black() && less(ZERO, p.cos_angle),
            },
        )
    }
}

impl Scene {
    /// Whether the scene is valid: the transparency of every object's
    /// material and the shadow intensity of every light lie between zero
    /// and one.
    pub open spec fn wf(&self) -> bool {
        &&& forall|k: int|
            0 <= k < self.objects@.len() ==> material_of(#[trigger] self.objects@[k]).wf()
        &&& forall|k: int| 0 <= k < self.lights@.len() ==> (#[trigger] self.lights@[k]).wf()
    }

    /// Whether every hit names an object of this scene.
    pub open spec fn knows(&self, hits: Seq<Hit>) -> bool {
        forall|k: int| 0 <= k < hits.len() ==> (#[trigger] hits[k]).object < self.objects@.len()
    }

    /// Whether every shadow hit names an object of this scene.
    pub open spec fn knows_shadow(&self, hits: Seq<ShadowHit>) -> bool {
        forall|k: int| 0 <= k < hits.len() ==> (#[trigger] hits[k]).object < self.objects@.len()
    }

    /// Whether the `k`-th hit is on an opaque object: one whose
    /// transparency is zero.
    pub open spec fn stops_colour(&self, hits: Seq<Hit>, k: int) -> bool {
        same(material_of(self.objects@[hits[k].object as int]).transparency, ZERO)
    }

    /// Whether `layers` says which of `hits`, nearest first, colour the
    /// pixel: the hits up to and including the first opaque one, or all of
    /// them and the background where none is opaque.
    pub open spec fn is_layering(&self, hits: Seq<Hit>, layers: Layers) -> bool {
        &&& layers.count <= hits.len()
        &&& forall|k: int| 0 <= k < layers.count - 1 ==> !self.stops_colour(hits, k)
        &&& layers.background ==> layers.count == hits.len() && (layers.count > 0
            ==> !self.stops_colour(hits, layers.count - 1))
        &&& !layers.background ==> layers.count > 0 && self.stops_colour(hits, layers.count - 1)
    }

    /// Whether a ray may be traced at `recursion_level`, the level of a ray
    /// from the camera being 0 and that of a reflected ray one more than
    /// the level of the ray whose hit reflects it. Where it may not, the
    /// ray is given the background colour.
    pub open spec fn allows(&self, recursion_level: u32) -> bool {
        recursion_level + 1 <= self.max_recursion
    }

    /// Decides whether a ray at `recursion_level` is traced.
    pub fn within_recursion_limit(&self, recursion_level: u32) -> (b: bool)
        ensures
            b == self.allows(recursion_level),
    {
        recursion_level < self.max_recursion
    }

    /// Finds the hits of one ray in this scene, nearest first.
    ///
    /// `probes` holds, for each object of the scene in the order of its
    /// list, what the ray has to do with it. Fails on the first object
    /// whose hit is at a distance that is no number.
    pub fn find_hits(&self, probes: &Vec<Probe>) -> (r: Result<Vec<Hit>, HitError>)
        requires
            probes@.len() == self.objects@.len(),
        ensures
            match r {
                Ok(hits) => {
                    &&& all_distances(tries_of(probes@), probes@.len() as int)
                    &&& is_hit_list(tries_of(probes@), hits@)
                    &&& self.knows(hits@)
                },
                Err(HitError::InvalidDistance { object }) => {
                    &&& object < probes@.len()
                    &&& object_hit(probes@[object as int]) is Some
                    &&& is_nan(object_hit(probes@[object as int])->0.distance)
                    &&& all_distances(tries_of(probes@), object as int)
                },
            },
    {
        find_hits(probes)
    }

    /// Decides which of a ray's hits, nearest first, colour the pixel.
    ///
    /// Each contributing hit is weighted by the transparency of all hits
    /// before it; nothing behind an opaque surface contributes.
    pub fn color_hits(&self, hits: &Vec<Hit>) -> (layers: Layers)
        requires
            self.knows(hits@),
        ensures
            self.is_layering(hits@, layers),
    {
        let n: usize = hits.len();
        let mut k: usize = 0;
        while k < n
            invariant
                k <= n,
                n == hits@.len(),
                self.knows(hits@),
                forall|j: int| 0 <= j < k ==> !self.stops_colour(hits@, j),
            decreases n - k,
        {
            if self.objects[hits[k].object].material().is_opaque() {
                return Layers { count: k + 1, background: false };
            }
            k += 1;
        }
        Layers { count: n, background: true }
    }

    /// Whether the shadow ray has arrived at its `k`-th hit: the hit is on
    /// the lit object within the tolerance of the lit point, or lies
    /// farther from the ray's origin than `reach`.
    pub open spec fn arrives(target: usize, reach: u64, hits: Seq<ShadowHit>, k: int) -> bool {
        ||| hits[k].object == target && at_most(hits[k].gap, TOLERANCE)
        ||| less(reach, hits[k].travelled)
    }

    /// Whether the `k`-th surface that a shadow ray meets lets light through.
    pub open spec fn dims(&self, hits: Seq<ShadowHit>, k: int) -> bool {
        less(ZERO, material_of(self.objects@[hits[k].object as int]).transparency)
    }

    /// Whether the shadow ray passes through its `k`-th hit and goes on: it
    /// has not arrived, and the object lets light through.
    pub open spec fn passes(&self, target: usize, reach: u64, hits: Seq<ShadowHit>, k: int) -> bool {
        !Self::arrives(target, reach, hits, k) && self.dims(hits, k)
    }

    /// Whether `shadow` is what becomes of the ray that meets `hits`,
    /// nearest first.
    pub open spec fn is_shadow(
        &self,
        target: usize,
        reach: u64,
        hits: Seq<ShadowHit>,
        shadow: Shadow,
    ) -> bool {
        match shadow {
            Shadow::Lit { dimmed_by } => {
                &&& dimmed_by <= hits.len()
                &&& forall|k: int| 0 <= k < dimmed_by ==> self.passes(target, reach, hits, k)
                &&& dimmed_by < hits.len() ==> Self::arrives(target, reach, hits, dimmed_by as int)
            },
            Shadow::Blocked => exists|n: int|
                {
                    &&& 0 <= n < hits.len()
                    &&& forall|k: int| 0 <= k < n ==> self.passes(target, reach, hits, k)
                    &&& !(#[trigger] Self::arrives(target, reach, hits, n))
                    &&& !self.dims(hits, n)
                },
        }
    }

    /// Decides what one light adds to the colour of a hit.
    pub fn direct_light(&self, hit: &Hit, probe: LightProbe) -> (terms: Option<LightTerms>)
        requires
            hit.object < self.objects@.len(),
        ensures
            terms == light_terms(material_of(self.objects@[hit.object as int]), probe),
    {
        if equals(probe.intensity, ZERO) {
            return None;
        }
        let diffusion: u64 = if less_than(ZERO, probe.diffusion) {
            probe.diffusion
        } else {
            ZERO
        };
        let specular: bool = self.objects[hit.object].material().is_specular() && less_than(
            ZERO,
            probe.cos_angle,
        );
        Some(LightTerms { diffusion, specular })
    }

    /// What a hit at `recursion_level` gets by reflection.
    pub open spec fn reflection(&self, hit: Hit, recursion_level: u32) -> Reflection {
        if material_of(self.objects@[hit.object as int]).reflection_color.is_black() {
            Reflection::Black
        } else if recursion_level + 2 <= self.max_recursion {
            Reflection::Traced { recursion_level: (recursion_level + 1) as u32 }
        } else {
            Reflection::Background
        }
    }

    /// Decides what a hit at `recursion_level` gets by reflection.
    ///
    /// A surface that does not mirror gets nothing. The ray that a mirror
    /// reflects is one level above the ray that met it; where that is past
    /// the limit, the reflected ray is not traced and has the colour of
    /// the background.
    pub fn reflect(&self, hit: &Hit, recursion_level: u32) -> (r: Reflection)
        requires
            hit.object < self.objects@.len(),
        ensures
            r == self.reflection(*hit, recursion_level),
            r matches Reflection::Traced { recursion_level: next } ==> self.allows(next),
    {
        if !self.objects[hit.object].material().is_reflective() {
            Reflection::Black
        } else if recursion_level < self.max_recursion && recursion_level + 1
            < self.max_recursion {
            Reflection::Traced { recursion_level: recursion_level + 1 }
        } else {
            Reflection::Background
        }
    }

    /// Lists the cells of a light's disc from each of which one shadow ray
    /// starts.
    pub fn shadow_cells(&self) -> (cells: Vec<Cell>)
        requires
            self.shadow_rays_n * self.shadow_rays_n <= usize::MAX,
        ensures
            cells@.len() == self.shadow_rays_n * self.shadow_rays_n,
            forall|k: int|
                0 <= k < cells@.len() ==> cells@[k] == crate::camera::cell_at(
                    self.shadow_rays_n,
                    k,
                ),
    {
        grid_cells(self.shadow_rays_n)
    }

    /// Follows a shadow ray from a point of a light towards a lit point on
    /// the object `target`.
    ///
    /// `hits` are the surfaces that the ray meets, nearest first, and
    /// `reach` is the key of the distance from the ray's origin to the lit
    /// point, the tolerance added. The ray stops where it arrives; before
    /// that an opaque surface blocks it, and any other dims it.
    pub fn shadow(&self, target: usize, reach: u64, hits: &Vec<ShadowHit>) -> (shadow: Shadow)
        requires
            self.knows_shadow(hits@),
        ensures
            self.is_shadow(target, reach, hits@, shadow),
    {
        let n: usize = hits.len();
        let mut k: usize = 0;
        while k < n
            invariant
                k <= n,
                n == hits@.len(),
                self.knows_shadow(hits@),
                forall|j: int| 0 <= j < k ==> self.passes(target, reach, hits@, j),
            decreases n - k,
        {
            let hit: ShadowHit = hits[k];
            let same_point: bool = hit.object == target && no_more_than(hit.gap, TOLERANCE);
            let passed: bool = less_than(reach, hit.travelled);
            if same_point || passed {
                assert(Self::arrives(target, reach, hits@, k as int));
                return Shadow::Lit { dimmed_by: k };
            }
            assert(!Self::arrives(target, reach, hits@, k as int));
            if !self.objects[hit.object].material().is_transparent() {
                return Shadow::Blocked;
            }
            k += 1;
        }
        Shadow::Lit { dimmed_by: n }
    }
}

/// Nothing behind an opaque surface colours a pixel: two lists of hits
/// that agree up to and including an opaque hit have the same layers, and
/// these end at or before that hit.
pub proof fn opaque_hides_the_rest(
    scene: Scene,
    a: Seq<Hit>,
    b: Seq<Hit>,
    k: int,
    la: Layers,
    lb: Layers,
)
    requires
        0 <= k < a.len(),
        k < b.len(),
        a.take(k + 1) == b.take(k + 1),
        scene.stops_colour(a, k),
        scene.is_layering(a, la),
        scene.is_layering(b, lb),
    ensures
        la == lb,
        la.count <= k + 1,
        !la.background,
{
    assert forall|j: int| 0 <= j <= k implies a[j] == b[j] by {
        assert(a.take(k + 1)[j] == a[j]);
        assert(b.take(k + 1)[j] == b[j]);
    }
    assert(scene.stops_colour(b, k));
    if la.count - 1 > k {
        assert(!scene.stops_colour(a, k));
    }
    if lb.count - 1 > k {
        assert(!scene.stops_colour(b, k));
    }
    assert(!la.background);
    assert(!lb.background);
    assert(scene.stops_colour(a, la.count - 1));
    assert(scene.stops_colour(b, lb.count - 1));
    if la.count < lb.count {
        assert(!scene.stops_colour(b, la.count - 1));
    }
    if lb.count < la.count {
        assert(!scene.stops_colour(a, lb.count - 1));
    }
}

/// The layers of a list of hits are determined by it.
pub proof fn layering_is_unique(scene: Scene, hits: Seq<Hit>, la: Layers, lb: Layers)
    requires
        scene.is_layering(hits, la),
        scene.is_layering(hits, lb),
    ensures
        la == lb,
{
    if la.count < lb.count {
        if !la.background {
            assert(!scene.stops_colour(hits, la.count - 1));
        }
    }
    if lb.count < la.count {
        if !lb.background {
            assert(!scene.stops_colour(hits, lb.count - 1));
        }
    }
}

/// A shadow ray that is blocked is not lit.
proof fn lemma_blocked_is_not_lit(
    scene: Scene,
    target: usize,
    reach: u64,
    hits: Seq<ShadowHit>,
    dimmed_by: usize,
)
    requires
        scene.is_shadow(target, reach, hits, Shadow::Blocked),
    ensures
        !scene.is_shadow(target, reach, hits, Shadow::Lit { dimmed_by }),
{
    let n = choose|n: int|
        {
            &&& 0 <= n < hits.len()
            &&& forall|k: int| 0 <= k < n ==> scene.passes(target, reach, hits, k)
            &&& !(#[trigger] Scene::arrives(target, reach, hits, n))
            &&& !scene.dims(hits, n)
        };
    if scene.is_shadow(target, reach, hits, Shadow::Lit { dimmed_by }) {
        if dimmed_by < n {
            assert(scene.passes(target, reach, hits, dimmed_by as int));
        } else if dimmed_by > n {
            assert(scene.passes(target, reach, hits, n));
        }
    }
}

/// What becomes of a shadow ray is determined by the surfaces it meets.
pub proof fn shadow_is_unique(
    scene: Scene,
    target: usize,
    reach: u64,
    hits: Seq<ShadowHit>,
    a: Shadow,
    b: Shadow,
)
    requires
        scene.is_shadow(target, reach, hits, a),
        scene.is_shadow(target, reach, hits, b),
    ensures
        a == b,
{
    match (a, b) {
        (Shadow::Lit { dimmed_by: m }, Shadow::Lit { dimmed_by: n }) => {
            if m < n {
                assert(scene.passes(target, reach, hits, m as int));
            }
            if n < m {
                assert(scene.passes(target, reach, hits, n as int));
            }
        },
        (Shadow::Lit { dimmed_by }, Shadow::Blocked) => {
            lemma_blocked_is_not_lit(scene, target, reach, hits, dimmed_by);
        },
        (Shadow::Blocked, Shadow::Lit { dimmed_by }) => {
            lemma_blocked_is_not_lit(scene, target, reach, hits, dimmed_by);
        },
        (Shadow::Blocked, Shadow::Blocked) => {},
    }
}

/// Reflections end: where each ray of a chain is one level above the ray
/// before it, the first is at level 0 and all of them are traced, the
/// chain is no longer than the recursion limit.
pub proof fn reflections_are_bounded(scene: Scene, levels: Seq<u32>)
    requires
        levels.len() > 0 ==> levels[0] == 0,
        forall|k: int| 0 < k < levels.len() ==> levels[k] == #[trigger] levels[k - 1] + 1,
        forall|k: int| 0 <= k < levels.len() ==> scene.allows(#[trigger] levels[k]),
    ensures
        levels.len() <= scene.max_recursion,
{
    if levels.len() > 0 {
        lemma_levels_count(levels, levels.len() - 1);
        assert(scene.allows(levels[levels.len() - 1]));
    }
}

proof fn lemma_levels_count(levels: Seq<u32>, k: int)
    requires
        0 <= k < levels.len(),
        levels[0] == 0,
        forall|k: int| 0 < k < levels.len() ==> levels[k] == #[trigger] levels[k - 1] + 1,
    ensures
        levels[k] == k,
    decreases k,
{
    if k > 0 {
        lemma_levels_count(levels, k - 1);
        assert(levels[k] == levels[k - 1] + 1);
    }
}

} // verus!
