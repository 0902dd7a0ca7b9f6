//! From the records of a scene description to the scene.
//!
//! The records come from [`crate::scene_format`]; the values of their
//! real-valued fields are read by the caller and handed over as keys, one
//! list for each record.

use vstd::prelude::*;
use crate::camera::Camera;
use crate::material::{Color, Light, Material, Vector};
use crate::model_object::{material_of, ModelObject, Plane, Sphere, Triangle};
use crate::number::is_fraction;
use crate::scene::Scene;
use crate::scene_format::{
    is_sound, materials_among, models, Entry, Record, RecordKind, RecordModel,
};

verus! {

/// Why a record was rejected.
#[derive(Clone, Copy, Debug, PartialEq, Eq, Structural)]
pub enum Reason {
    /// The record, or the list of its values, is shorter than its kind
    /// asks for.
    MissingField,
    /// An object names a material that has not been declared above it.
    MaterialIndex,
    /// A material's transparency does not lie between zero and one.
    Transparency,
    /// A light's shadow intensity does not lie between zero and one.
    ShadowIntensity,
}

/// Why no scene could be made of the records.
#[derive(Clone, Copy, Debug, PartialEq, Eq, Structural)]
pub enum BuildError {
    /// The record with this number, counted from 0, was rejected.
    Entry { entry: usize, reason: Reason },
    /// No record describes a camera.
    MissingCamera,
    /// No record holds the settings.
    MissingSettings,
}

/// The settings of a render.
#[derive(Clone, Copy, Debug, PartialEq, Eq, Structural)]
pub struct Settings {
    pub background_color: Color,
    pub shadow_rays_n: u32,
    pub max_recursion: u32,
    pub super_sampling_n: u32,
}

/// What the records read so far describe.
pub struct Gathered {
    pub materials: Seq<Material>,
    pub objects: Seq<ModelObject>,
    pub lights: Seq<Light>,
    pub camera: Option<Camera>,
    pub settings: Option<Settings>,
}

/// The vector whose parts are the three values from `v[i]` on.
pub open spec fn vector_at(v: Seq<u64>, i: int) -> Vector {
    Vector { x: v[i], y: v[i + 1], z: v[i + 2] }
}

/// The colour whose parts are the three values from `v[i]` on.
pub open spec fn color_at(v: Seq<u64>, i: int) -> Color {
    Color { r: v[i], g: v[i + 1], b: v[i + 2] }
}

/// Whether the record and its values are as long as its kind asks for.
pub open spec fn is_complete(record: RecordModel, v: Seq<u64>) -> bool {
    v.len() >= record.kind.real_fields() && record.ints.len() >= record.kind.int_fields()
}

/// The material that an object's record names: materials are numbered
/// from 1 in the order of their records.
pub open spec fn named_material(g: Gathered, record: RecordModel) -> Option<Material> {
    if 1 <= record.ints[0] <= g.materials.len() {
        Some(g.materials[record.ints[0] - 1])
    } else {
        None
    }
}

/// What one more record, with the values `v` of its real-valued fields,
/// adds to what has been gathered.
///
/// A camera or settings replace those of an earlier record. A camera
/// takes one sample per pixel until the settings say otherwise, and its
/// image has the given size. A material must have a transparency between
/// zero and one, a light a shadow intensity between zero and one, and an
/// object must name a material declared above it, which it takes a copy of.
pub open spec fn gather(
    g: Gathered,
    record: RecordModel,
    v: Seq<u64>,
    image_width: u32,
    image_height: u32,
) -> Result<Gathered, Reason> {
    if !is_complete(record, v) {
        Err(Reason::MissingField)
    } else {
        match record.kind {
            RecordKind::Camera => Ok(
                Gathered {
                    camera: Some(
                        Camera {
                            position: vector_at(v, 0),
                            look_at: vector_at(v, 3),
                            up: vector_at(v, 6),
                            screen_distance: v[9],
                            screen_width: v[10],
                            image_height,
                            image_width,
                            super_sampling_n: 1,
                        },
                    ),
                    ..g
                },
            ),
            RecordKind::Settings => Ok(
                Gathered {
                    settings: Some(
                        Settings {
                            background_color: color_at(v, 0),
                            shadow_rays_n: record.ints[0],
                            max_recursion: record.ints[1],
                            super_sampling_n: record.ints[2],
                        },
                    ),
                    ..g
                },
            ),
            RecordKind::Material => if !is_fraction(v[10]) {
                Err(Reason::Transparency)
            } else {
                Ok(
                    Gathered {
                        materials: g.materials.push(
                            Material {
                                diffuse_color: color_at(v, 0),
                                specular_color: color_at(v, 3),
                                reflection_color: color_at(v, 6),
                                phong_specularity: v[9],
                                transparency: v[10],
                            },
                        ),
                        ..g
                    },
                )
            },
            RecordKind::Sphere => match named_material(g, record) {
                None => Err(Reason::MaterialIndex),
                Some(material) => Ok(
                    Gathered {
                        objects: g.objects.push(
                            ModelObject::Sphere(
                                Sphere { material, center: vector_at(v, 0), radius: v[3] },
                            ),
                        ),
                        ..g
                    },
                ),
            },
            RecordKind::Plane => match named_material(g, record) {
                None => Err(Reason::MaterialIndex),
                Some(material) => Ok(
                    Gathered {
                        objects: g.objects.push(
                            ModelObject::Plane(
                                Plane { material, normal: vector_at(v, 0), offset: v[3] },
                            ),
                        ),
                        ..g
                    },
                ),
            },
            RecordKind::Triangle => match named_material(g, record) {
                None => Err(Reason::MaterialIndex),
                Some(material) => Ok(
                    Gathered {
                        objects: g.objects.push(
                            ModelObject::Triangle(
                                Triangle {
                                    material,
                                    v1: vector_at(v, 0),
                                    v2: vector_at(v, 3),
                                    v3: vector_at(v, 6),
                                },
                            ),
                        ),
                        ..g
                    },
                ),
            },
            RecordKind::Light => if !is_fraction(v[7]) {
                Err(Reason::ShadowIntensity)
            } else {
                Ok(
                    Gathered {
                        lights: g.lights.push(
                            Light {
                                position: vector_at(v, 0),
                                color: color_at(v, 3),
                                specular_intensity: v[6],
                                shadow_intensity: v[7],
                                radius: v[8],
                            },
                        ),
                        ..g
                    },
                )
            },
        }
    }
}

/// The values of the record with number `k`; none where the caller gave none.
pub open spec fn values_of(values: Seq<Vec<u64>>, k: int) -> Seq<u64> {
    if 0 <= k < values.len() {
        values[k]@
    } else {
        Seq::empty()
    }
}

/// What the first `n` records describe, or the first of them that is
/// rejected and why.
pub open spec fn gathered(
    entries: Seq<Entry>,
    values: Seq<Vec<u64>>,
    n: int,
    image_width: u32,
    image_height: u32,
) -> Result<Gathered, (int, Reason)>
    decreases n,
{
    if n <= 0 {
        Ok(
            Gathered {
                materials: Seq::empty(),
                objects: Seq::empty(),
                lights: Seq::empty(),
                camera: None,
                settings: None,
            },
        )
    } else {
        match gathered(entries, values, n - 1, image_width, image_height) {
            Err(e) => Err(e),
            Ok(g) => match gather(
                g,
                entries[n - 1].record@,
                values_of(values, n - 1),
                image_width,
                image_height,
            ) {
                Err(reason) => Err((n - 1, reason)),
                Ok(next) => Ok(next),
            },
        }
    }
}

/// The scene that the gathered records describe: the camera takes as many
/// samples as the settings say.
pub open spec fn scene_of(g: Gathered, scene: Scene) -> bool {
    &&& g.camera is Some
    &&& g.settings is Some
    &&& scene.background_color == g.settings->0.background_color
    &&& scene.shadow_rays_n == g.settings->0.shadow_rays_n
    &&& scene.max_recursion == g.settings->0.max_recursion
    &&& scene.super_sampling_n == g.settings->0.super_sampling_n
    &&& scene.camera == (Camera { super_sampling_n: g.settings->0.super_sampling_n, ..g.camera->0 })
    &&& scene.objects@ == g.objects
    &&& scene.lights@ == g.lights
}

/// What has been gathered, as it is held while the records are read.
struct Builder {
    materials: Vec<Material>,
    objects: Vec<ModelObject>,
    lights: Vec<Light>,
    camera: Option<Camera>,
    settings: Option<Settings>,
}

impl View for Builder {
    type V = Gathered;

    closed spec fn view(&self) -> Gathered {
        Gathered {
            materials: self.materials@,
            objects: self.objects@,
            lights: self.lights@,
            camera: self.camera,
            settings: self.settings,
        }
    }
}

fn vector_from(v: &Vec<u64>, i: usize) -> (r: Vector)
    requires
        i <= 8,
        i + 2 < v@.len(),
    ensures
        r == vector_at(v@, i as int),
{
    Vector { x: v[i], y: v[i + 1], z: v[i + 2] }
}

fn color_from(v: &Vec<u64>, i: usize) -> (r: Color)
    requires
        i <= 8,
        i + 2 < v@.len(),
    ensures
        r == color_at(v@, i as int),
{
    Color { r: v[i], g: v[i + 1], b: v[i + 2] }
}

impl Builder {
    /// The material that an object's record names.
    fn material_named(&self, record: &Record) -> (r: Option<Material>)
        requires
            record.ints@.len() >= 1,
        ensures
            r == named_material(self@, record@),
    {
        let number: u32 = record.ints[0];
        if 1 <= number && number as usize <= self.materials.len() {
            Some(self.materials[number as usize - 1])
        } else {
            None
        }
    }

    /// Adds one record to what has been gathered.
    fn add(&mut self, record: &Record, v: &Vec<u64>, image_width: u32, image_height: u32) -> (r:
        Result<(), Reason>)
        ensures
            match gather(old(self)@, record@, v@, image_width, image_height) {
                Ok(next) => r is Ok && final(self)@ == next,
                Err(reason) => r == Err::<(), Reason>(reason),
            },
    {
        if v.len() < record.kind.real_field_count() || record.ints.len()
            < record.kind.int_field_count() {
            return Err(Reason::MissingField);
        }
        match record.kind {
            RecordKind::Camera => {
                self.camera = Some(
                    Camera::new(
                        vector_from(v, 0),
                        vector_from(v, 3),
                        vector_from(v, 6),
                        v[9],
                        v[10],
                        image_height,
                        image_width,
                        1,
                    ),
                );
            },
            RecordKind::Settings => {
                self.settings = Some(
                    Settings {
                        background_color: color_from(v, 0),
                        shadow_rays_n: record.ints[0],
                        max_recursion: record.ints[1],
                        super_sampling_n: record.ints[2],
                    },
                );
            },
            RecordKind::Material => {
                match Material::new(
                    color_from(v, 0),
                    color_from(v, 3),
                    color_from(v, 6),
                    v[9],
                    v[10],
                ) {
                    Err(_) => {
                        return Err(Reason::Transparency);
                    },
                    Ok(material) => {
                        self.materials.push(material);
                    },
                }
            },
            RecordKind::Sphere => {
                match self.material_named(record) {
                    None => {
                        return Err(Reason::MaterialIndex);
                    },
                    Some(material) => {
                        self.objects.push(
                            ModelObject::Sphere(
                                Sphere { material, center: vector_from(v, 0), radius: v[3] },
                            ),
                        );
                    },
                }
            },
            RecordKind::Plane => {
                match self.material_named(record) {
                    None => {
                        return Err(Reason::MaterialIndex);
                    },
                    Some(material) => {
                        self.objects.push(
                            ModelObject::Plane(
                                Plane { material, normal: vector_from(v, 0), offset: v[3] },
                            ),
                        );
                    },
                }
            },
            RecordKind::Triangle => {
                match self.material_named(record) {
                    None => {
                        return Err(Reason::MaterialIndex);
                    },
                    Some(material) => {
                        self.objects.push(
                            ModelObject::Triangle(
                                Triangle {
                                    material,
                                    v1: vector_from(v, 0),
                                    v2: vector_from(v, 3),
                                    v3: vector_from(v, 6),
                                },
                            ),
                        );
                    },
                }
            },
            RecordKind::Light => {
                match Light::new(vector_from(v, 0), color_from(v, 3), v[6], v[7], v[8]) {
                    Err(_) => {
                        return Err(Reason::ShadowIntensity);
                    },
                    Ok(light) => {
                        self.lights.push(light);
                    },
                }
            },
        }
        Ok(())
    }
}

/// The scene of one red sphere of radius one, four ahead of a camera that
/// stands at the origin and looks along `z`, under one white light, before
/// a black background.
pub open spec fn simple_scene() -> Gathered {
    let black = Color { r: 0, g: 0, b: 0 };
    let one: u64 = 0x3FF0_0000_0000_0000;
    Gathered {
        materials: seq![
            Material {
                diffuse_color: Color { r: one, g: 0, b: 0 },
                specular_color: black,
                reflection_color: black,
                phong_specularity: 0,
                transparency: 0,
            },
        ],
        objects: seq![
            ModelObject::Sphere(
                Sphere {
                    material: Material {
                        diffuse_color: Color { r: one, g: 0, b: 0 },
                        specular_color: black,
                        reflection_color: black,
                        phong_specularity: 0,
                        transparency: 0,
                    },
                    center: Vector { x: 0, y: 0, z: 0x4010_0000_0000_0000 },
                    radius: one,
                },
            ),
        ],
        lights: seq![
            Light {
                position: Vector { x: 0, y: one, z: one },
                color: Color { r: one, g: one, b: one },
                specular_intensity: 0x403E_0000_0000_0000,
                shadow_intensity: one,
                radius: one,
            },
        ],
        camera: Some(
            Camera {
                position: Vector { x: 0, y: 0, z: 0 },
                look_at: Vector { x: 0, y: 0, z: one },
                up: Vector { x: 0, y: one, z: 0 },
                screen_distance: 0x3FF6_6666_6666_6666,
                screen_width: one,
                image_height: 500,
                image_width: 500,
                super_sampling_n: 1,
            },
        ),
        settings: Some(
            Settings {
                background_color: black,
                shadow_rays_n: 1,
                max_recursion: 10,
                super_sampling_n: 1,
            },
        ),
    }
}

/// Makes the scene of one red sphere under one white light.
pub fn get_simple_scene() -> (scene: Scene)
    ensures
        scene_of(simple_scene(), scene),
        scene.wf(),
{
    let one: u64 = 0x3FF0_0000_0000_0000;
    let black = Color { r: 0, g: 0, b: 0 };
    let material = Material {
        diffuse_color: Color { r: one, g: 0, b: 0 },
        specular_color: black,
        reflection_color: black,
        phong_specularity: 0,
        transparency: 0,
    };
    let camera = Camera::new(
        Vector { x: 0, y: 0, z: 0 },
        Vector { x: 0, y: 0, z: one },
        Vector { x: 0, y: one, z: 0 },
        0x3FF6_6666_6666_6666,
        one,
        500,
        500,
        1,
    );
    let sphere = Sphere {
        material,
        center: Vector { x: 0, y: 0, z: 0x4010_0000_0000_0000 },
        radius: one,
    };
    let light = Light {
        position: Vector { x: 0, y: one, z: one },
        color: Color { r: one, g: one, b: one },
        specular_intensity: 0x403E_0000_0000_0000,
        shadow_intensity: one,
        radius: one,
    };
    let mut objects: Vec<ModelObject> = Vec::new();
    objects.push(ModelObject::Sphere(sphere));
    let mut lights: Vec<Light> = Vec::new();
    lights.push(light);
    let scene = Scene {
        background_color: black,
        shadow_rays_n: 1,
        max_recursion: 10,
        super_sampling_n: 1,
        objects,
        camera,
        lights,
    };
    assert(scene.objects@ =~= simple_scene().objects);
    assert(scene.lights@ =~= simple_scene().lights);
    scene
}

/// Once a record has been rejected, further records change nothing.
proof fn lemma_gathered_fails(
    entries: Seq<Entry>,
    values: Seq<Vec<u64>>,
    k: int,
    n: int,
    image_width: u32,
    image_height: u32,
)
    requires
        0 <= k <= n,
        gathered(entries, values, k, image_width, image_height) is Err,
    ensures
        gathered(entries, values, n, image_width, image_height) == gathered(
            entries,
            values,
            k,
            image_width,
            image_height,
        ),
    decreases n - k,
{
    if k < n {
        lemma_gathered_fails(entries, values, k, n - 1, image_width, image_height);
    }
}

/// Whether what has been gathered is valid: every material, also that of
/// every object, has a transparency between zero and one, and every light
/// a shadow intensity between zero and one.
pub open spec fn is_valid(g: Gathered) -> bool {
    &&& forall|k: int| 0 <= k < g.materials.len() ==> (#[trigger] g.materials[k]).wf()
    &&& forall|k: int| 0 <= k < g.objects.len() ==> material_of(#[trigger] g.objects[k]).wf()
    &&& forall|k: int| 0 <= k < g.lights.len() ==> (#[trigger] g.lights[k]).wf()
}

/// What is gathered is valid.
pub proof fn gathered_is_valid(
    entries: Seq<Entry>,
    values: Seq<Vec<u64>>,
    n: int,
    image_width: u32,
    image_height: u32,
)
    requires
        gathered(entries, values, n, image_width, image_height) is Ok,
    ensures
        is_valid(gathered(entries, values, n, image_width, image_height)->Ok_0),
    decreases n,
{
    if n > 0 {
        gathered_is_valid(entries, values, n - 1, image_width, image_height);
        let g = gathered(entries, values, n - 1, image_width, image_height)->Ok_0;
        let next = gathered(entries, values, n, image_width, image_height)->Ok_0;
        let record = entries[n - 1].record@;
        assert(gather(g, record, values_of(values, n - 1), image_width, image_height) == Ok::<
            Gathered,
            Reason,
        >(next));
        assert forall|k: int| 0 <= k < next.materials.len() implies (
        #[trigger] next.materials[k]).wf() by {
            if k < g.materials.len() {
                assert(next.materials[k] == g.materials[k]);
            }
        }
        assert forall|k: int| 0 <= k < next.objects.len() implies material_of(
            #[trigger] next.objects[k],
        ).wf() by {
            if k < g.objects.len() {
                assert(next.objects[k] == g.objects[k]);
            } else {
                assert(named_material(g, record) is Some);
                assert(g.materials[record.ints[0] - 1].wf());
            }
        }
        assert forall|k: int| 0 <= k < next.lights.len() implies (#[trigger] next.lights[k]).wf() by {
            if k < g.lights.len() {
                assert(next.lights[k] == g.lights[k]);
            }
        }
    }
}

/// Sound records with all their values are rejected only for what the
/// values are: a transparency or a shadow intensity out of range. Where
/// none is, every declared material is gathered.
pub proof fn sound_records_build(
    entries: Seq<Entry>,
    values: Seq<Vec<u64>>,
    n: int,
    image_width: u32,
    image_height: u32,
)
    requires
        0 <= n <= entries.len(),
        forall|k: int| 0 <= k < n ==> is_sound(models(entries), k),
        forall|k: int|
            0 <= k < n ==> values_of(values, k).len() >= (
            #[trigger] entries[k]).record.kind.real_fields(),
    ensures
        match gathered(entries, values, n, image_width, image_height) {
            Err((k, reason)) => reason is Transparency || reason is ShadowIntensity,
            Ok(g) => g.materials.len() == materials_among(models(entries), n),
        },
    decreases n,
{
    if n > 0 {
        sound_records_build(entries, values, n - 1, image_width, image_height);
        assert(is_sound(models(entries), n - 1));
        assert(models(entries)[n - 1].record == entries[n - 1].record@);
        assert(values_of(values, n - 1).len() >= entries[n - 1].record.kind.real_fields());
    }
}

impl Scene {
    /// Makes the scene that the records describe, for an image of the
    /// given size.
    ///
    /// `values[k]` holds the values of the real-valued fields of
    /// `entries[k]`, in the order of the fields. The records are read in
    /// their order; the first that is rejected ends the reading. A scene
    /// needs a camera and settings.
    pub fn from_records(
        entries: &Vec<Entry>,
        values: &Vec<Vec<u64>>,
        image_width: u32,
        image_height: u32,
    ) -> (r: Result<Scene, BuildError>)
        ensures
            match gathered(entries@, values@, entries@.len() as int, image_width, image_height) {
                Err((entry, reason)) => r == Err::<Scene, BuildError>(
                    BuildError::Entry { entry: entry as usize, reason },
                ),
                Ok(g) => if g.camera is None {
                    r == Err::<Scene, BuildError>(BuildError::MissingCamera)
                } else if g.settings is None {
                    r == Err::<Scene, BuildError>(BuildError::MissingSettings)
                } else {
                    r is Ok && scene_of(g, r->Ok_0)
                },
            },
            r is Ok ==> r->Ok_0.wf(),
    {
        let n: usize = entries.len();
        let mut builder = Builder {
            materials: Vec::new(),
            objects: Vec::new(),
            lights: Vec::new(),
            camera: None,
            settings: None,
        };
        let none: Vec<u64> = Vec::new();
        let mut k: usize = 0;
        while k < n
            invariant
                k <= n,
                n == entries@.len(),
                none@.len() == 0,
                gathered(entries@, values@, k as int, image_width, image_height) == Ok::<
                    Gathered,
                    (int, Reason),
                >(builder@),
            decreases n - k,
        {
            let v: &Vec<u64> = if k < values.len() {
                &values[k]
            } else {
                &none
            };
            assert(v@ =~= values_of(values@, k as int));
            match builder.add(&entries[k].record, v, image_width, image_height) {
                Err(reason) => {
                    proof {
                        lemma_gathered_fails(
                            entries@,
                            values@,
                            k + 1,
                            n as int,
                            image_width,
                            image_height,
                        );
                    }
                    return Err(BuildError::Entry { entry: k, reason });
                },
                Ok(()) => {},
            }
            k += 1;
        }
        proof {
            gathered_is_valid(entries@, values@, n as int, image_width, image_height);
        }
        let camera = match builder.camera {
            None => {
                return Err(BuildError::MissingCamera);
            },
            Some(camera) => camera,
        };
        let settings = match builder.settings {
            None => {
                return Err(BuildError::MissingSettings);
            },
            Some(settings) => settings,
        };
        Ok(
            Scene {
                background_color: settings.background_color,
                shadow_rays_n: settings.shadow_rays_n,
                max_recursion: settings.max_recursion,
                super_sampling_n: settings.super_sampling_n,
                objects: builder.objects,
                camera: Camera::new(
                    camera.position,
                    camera.look_at,
                    camera.up,
                    camera.screen_distance,
                    camera.screen_width,
                    camera.image_height,
                    camera.image_width,
                    settings.super_sampling_n,
                ),
                lights: builder.lights,
            },
        )
    }
}

} // verus!
