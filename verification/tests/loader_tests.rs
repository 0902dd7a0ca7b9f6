use ray_tracer::loader::{get_simple_scene, BuildError, Reason};
use ray_tracer::material::{Color, Vector};
use ray_tracer::model_object::{find_hits, ModelObject, Probe, SphereProbe};
use ray_tracer::scene::{LightProbe, LightTerms, Scene};
use ray_tracer::scene_format::{read_scene, Entry};

fn key(x: f64) -> u64 {
    x.to_bits()
}

fn vector(x: f64, y: f64, z: f64) -> Vector {
    Vector::new(key(x), key(y), key(z))
}

fn color(r: f64, g: f64, b: f64) -> Color {
    Color::new(key(r), key(g), key(b))
}

fn described(text: &[&str]) -> (Vec<Entry>, Vec<Vec<u64>>) {
    let lines: Vec<Vec<char>> = text.iter().map(|l| l.chars().collect()).collect();
    let outline = read_scene(&lines).unwrap();
    let values = outline
        .entries
        .iter()
        .map(|entry| {
            entry
                .record
                .reals
                .iter()
                .map(|f| {
                    let field: String = lines[entry.line][f.start..f.end].iter().collect();
                    key(field.parse::<f64>().unwrap())
                })
                .collect()
        })
        .collect();
    (outline.entries, values)
}

fn build(text: &[&str]) -> Result<Scene, BuildError> {
    let (entries, values) = described(text);
    Scene::from_records(&entries, &values, 500, 500)
}

const SIMPLE: [&str; 6] = [
    "# one red sphere under one white light",
    "cam 0 0 0  0 0 1  0 1 0  1.4 1",
    "set 0 0 0  1 10 1",
    "mtl 1 0 0  0 0 0  0 0 0  0 0",
    "sph 0 0 4  1  1",
    "lgt 0 1 1  1 1 1  30 1 1",
];

#[test]
fn a_scene_with_one_red_sphere_and_one_white_light() {
    let scene = build(&SIMPLE).unwrap();
    assert_eq!(scene.background_color, color(0.0, 0.0, 0.0));
    assert_eq!(scene.shadow_rays_n, 1);
    assert_eq!(scene.max_recursion, 10);
    assert_eq!(scene.super_sampling_n, 1);
    assert_eq!(scene.camera.position, vector(0.0, 0.0, 0.0));
    assert_eq!(scene.camera.look_at, vector(0.0, 0.0, 1.0));
    assert_eq!(scene.camera.up, vector(0.0, 1.0, 0.0));
    assert_eq!(scene.camera.screen_distance, key(1.4));
    assert_eq!(scene.camera.screen_width, key(1.0));
    assert_eq!(scene.camera.image_width, 500);
    assert_eq!(scene.camera.image_height, 500);
    assert_eq!(scene.camera.super_sampling_n, 1);
    assert_eq!(scene.objects.len(), 1);
    match scene.objects[0] {
        ModelObject::Sphere(s) => {
            assert_eq!(s.center, vector(0.0, 0.0, 4.0));
            assert_eq!(s.radius, key(1.0));
            assert_eq!(s.material.diffuse_color, color(1.0, 0.0, 0.0));
            assert!(s.material.is_opaque());
            assert!(!s.material.is_reflective());
            assert!(!s.material.is_specular());
        }
        _ => panic!("not a sphere"),
    }
    assert_eq!(scene.objects[0].material().diffuse_color, color(1.0, 0.0, 0.0));
    assert_eq!(scene.lights.len(), 1);
    assert_eq!(scene.lights[0].position, vector(0.0, 1.0, 1.0));
    assert_eq!(scene.lights[0].color, color(1.0, 1.0, 1.0));
    assert_eq!(scene.lights[0].specular_intensity, key(30.0));
    assert_eq!(scene.lights[0].shadow_intensity, key(1.0));
    assert_eq!(scene.lights[0].radius, key(1.0));
}

#[test]
fn the_simple_scene_is_the_one_described() {
    let made = get_simple_scene();
    let read = build(&SIMPLE).unwrap();
    assert_eq!(made.background_color, read.background_color);
    assert_eq!(made.shadow_rays_n, read.shadow_rays_n);
    assert_eq!(made.max_recursion, read.max_recursion);
    assert_eq!(made.super_sampling_n, read.super_sampling_n);
    assert_eq!(made.objects, read.objects);
    assert_eq!(made.camera, read.camera);
    assert_eq!(made.lights, read.lights);
    assert_eq!(made.camera.screen_distance, key(1.4));
    assert_eq!(made.lights[0].specular_intensity, key(30.0));
}

#[test]
fn a_transparent_sphere_before_a_plane() {
    let scene = build(&[
        "cam 0 0 0  0 0 1  0 1 0  1 1",
        "set 0 0 0  1 10 1",
        "mtl 0 0 0  0 0 0  0 0 0  0 1",
        "mtl 0 1 0  0 0 0  0 0 0  0 0",
        "sph 0 0 4  1  1",
        "pln 0 0 -1  -8  2",
    ])
    .unwrap();
    assert!(scene.objects[0].material().is_transparent());
    assert!(!scene.objects[0].material().is_reflective());
    assert!(scene.objects[1].material().is_opaque());
    let hits = vec![
        ray_tracer::hit::Hit { distance: key(3.0), object: 0, flipped: false },
        ray_tracer::hit::Hit { distance: key(8.0), object: 1, flipped: true },
    ];
    let layers = scene.color_hits(&hits);
    assert_eq!(layers.count, 2);
    assert!(!layers.background);
    let mut weights: Vec<(f64, f64)> = Vec::new();
    let mut through = 1.0;
    for hit in hits[..layers.count].iter() {
        let transparency = f64::from_bits(scene.objects[hit.object].material().transparency);
        weights.push((through * (1.0 - transparency), through));
        through *= transparency;
    }
    assert_eq!(weights, vec![(0.0, 1.0), (1.0, 1.0)]);
    assert_eq!(scene.reflect(&hits[0], 0), ray_tracer::scene::Reflection::Black);
}

fn sphere_probe(origin: [f64; 3], direction: [f64; 3], center: [f64; 3], radius: f64) -> SphereProbe {
    let el = [center[0] - origin[0], center[1] - origin[1], center[2] - origin[2]];
    let t_ca = el[0] * direction[0] + el[1] * direction[1] + el[2] * direction[2];
    let d_square = el[0] * el[0] + el[1] * el[1] + el[2] * el[2] - t_ca * t_ca;
    let r_square = radius * radius;
    SphereProbe {
        t_ca: key(t_ca),
        d_square: key(d_square),
        r_square: key(r_square),
        distance_near: key(t_ca - (r_square - d_square).sqrt()),
    }
}

fn ray_through(scene: &Scene, x: u32, y: u32) -> [f64; 3] {
    let samples = scene.camera.construct_rays_through_pixel(x, y);
    assert_eq!(samples.len(), 1);
    assert!(!samples[0].jittered);
    let width = f64::from_bits(scene.camera.screen_width);
    let distance = f64::from_bits(scene.camera.screen_distance);
    let px = width / scene.camera.image_width as f64;
    let to = [
        px * samples[0].column as f64 - width / 2.0,
        px * samples[0].row as f64 - width / 2.0,
        distance,
    ];
    let norm = (to[0] * to[0] + to[1] * to[1] + to[2] * to[2]).sqrt();
    [to[0] / norm, to[1] / norm, to[2] / norm]
}

#[test]
fn the_red_sphere_shows_as_a_disc_on_black() {
    let scene = get_simple_scene();
    let on_screen = 1.4 / 15f64.sqrt();
    let mut inside = 0;
    for (x, y) in [
        (250u32, 250u32),
        (250, 70),
        (250, 69),
        (430, 250),
        (431, 250),
        (70, 250),
        (69, 250),
        (0, 0),
        (499, 499),
        (377, 377),
        (378, 378),
        (123, 377),
        (122, 378),
    ] {
        let direction = ray_through(&scene, x, y);
        let probe = sphere_probe([0.0, 0.0, 0.0], direction, [0.0, 0.0, 4.0], 1.0);
        let hits = scene.find_hits(&vec![Probe::Sphere(probe)]).unwrap();
        let layers = scene.color_hits(&hits);
        let xo = x as f64 / 500.0 - 0.5;
        let yo = y as f64 / 500.0 - 0.5;
        let in_disc = (xo * xo + yo * yo).sqrt() < on_screen;
        assert_eq!(hits.len() == 1, in_disc, "pixel {:?}", (x, y));
        assert_eq!(layers.background, !in_disc, "pixel {:?}", (x, y));
        assert_eq!(layers.count, hits.len());
        if in_disc {
            inside += 1;
        }
    }
    assert_eq!(inside, 6);
}

#[test]
fn the_middle_of_the_red_sphere_is_lit_from_above() {
    let scene = get_simple_scene();
    let direction = ray_through(&scene, 250, 250);
    assert_eq!(direction, [0.0, 0.0, 1.0]);
    let probe = sphere_probe([0.0, 0.0, 0.0], direction, [0.0, 0.0, 4.0], 1.0);
    let hits = find_hits(&vec![Probe::Sphere(probe)]).unwrap();
    assert_eq!(hits, vec![ray_tracer::hit::Hit { distance: key(3.0), object: 0, flipped: false }]);
    let to_light = [0.0, 1.0 / 5f64.sqrt(), -2.0 / 5f64.sqrt()];
    let normal = [0.0, 0.0, -1.0];
    let diffusion = normal[0] * to_light[0] + normal[1] * to_light[1] + normal[2] * to_light[2];
    let probe = LightProbe { intensity: key(1.0), diffusion: key(diffusion), cos_angle: key(0.8) };
    let terms = scene.direct_light(&hits[0], probe).unwrap();
    assert_eq!(terms, LightTerms { diffusion: key(2.0 / 5f64.sqrt()), specular: false });
    let below = [0.0, -1.0, 0.0];
    let diffusion = below[0] * to_light[0] + below[1] * to_light[1] + below[2] * to_light[2];
    let probe = LightProbe { intensity: key(1.0), diffusion: key(diffusion), cos_angle: key(0.8) };
    let terms = scene.direct_light(&hits[0], probe).unwrap();
    assert_eq!(terms, LightTerms { diffusion: key(0.0), specular: false });
    assert_eq!(scene.reflect(&hits[0], 0), ray_tracer::scene::Reflection::Black);
}

#[test]
fn objects_take_the_material_that_they_name() {
    let scene = build(&[
        "mtl 0.1 0 0  0 0 0  0 0 0  0 0",
        "mtl 0.2 0 0  0 0 0  0 0 0  0 0.5",
        "trg 0 0 0  1 0 0  0 1 0  2",
        "pln 0 1 0  -1  1",
        "mtl 0.3 0 0  0 0 0  0 0 0  0 1",
        "sph 0 0 4  1  3",
        "cam 0 0 0  0 0 1  0 1 0  1 1",
        "set 0.5 0.5 0.5  2 3 4",
    ])
    .unwrap();
    assert_eq!(scene.objects.len(), 3);
    assert_eq!(scene.objects[0].material().diffuse_color.r, key(0.2));
    assert_eq!(scene.objects[1].material().diffuse_color.r, key(0.1));
    assert_eq!(scene.objects[2].material().diffuse_color.r, key(0.3));
    match scene.objects[0] {
        ModelObject::Triangle(t) => {
            assert_eq!(t.v1, vector(0.0, 0.0, 0.0));
            assert_eq!(t.v2, vector(1.0, 0.0, 0.0));
            assert_eq!(t.v3, vector(0.0, 1.0, 0.0));
        }
        _ => panic!("not a triangle"),
    }
    match scene.objects[1] {
        ModelObject::Plane(p) => {
            assert_eq!(p.normal, vector(0.0, 1.0, 0.0));
            assert_eq!(p.offset, key(-1.0));
        }
        _ => panic!("not a plane"),
    }
    assert_eq!(scene.shadow_rays_n, 2);
    assert_eq!(scene.max_recursion, 3);
    assert_eq!(scene.super_sampling_n, 4);
    assert_eq!(scene.camera.super_sampling_n, 4);
    assert_eq!(scene.background_color, color(0.5, 0.5, 0.5));
}

#[test]
fn a_material_out_of_range_is_rejected_where_it_stands() {
    let r = build(&[
        "cam 0 0 0  0 0 1  0 1 0  1 1",
        "set 0 0 0  1 10 1",
        "mtl 1 0 0  0 0 0  0 0 0  0 1.5",
    ]);
    assert_eq!(r.unwrap_err(), BuildError::Entry { entry: 2, reason: Reason::Transparency });
}

#[test]
fn a_light_out_of_range_is_rejected_where_it_stands() {
    let r = build(&[
        "lgt 0 1 1  1 1 1  30 -0.5 1",
        "cam 0 0 0  0 0 1  0 1 0  1 1",
        "set 0 0 0  1 10 1",
    ]);
    assert_eq!(r.unwrap_err(), BuildError::Entry { entry: 0, reason: Reason::ShadowIntensity });
}

#[test]
fn records_need_all_their_values() {
    let (entries, mut values) = described(&SIMPLE);
    values[3].pop();
    assert_eq!(
        Scene::from_records(&entries, &values, 500, 500).unwrap_err(),
        BuildError::Entry { entry: 3, reason: Reason::MissingField }
    );
    let (entries, mut values) = described(&SIMPLE);
    values.truncate(2);
    assert_eq!(
        Scene::from_records(&entries, &values, 500, 500).unwrap_err(),
        BuildError::Entry { entry: 2, reason: Reason::MissingField }
    );
    let (mut entries, values) = described(&SIMPLE);
    entries[1].record.ints.pop();
    assert_eq!(
        Scene::from_records(&entries, &values, 500, 500).unwrap_err(),
        BuildError::Entry { entry: 1, reason: Reason::MissingField }
    );
}

#[test]
fn an_object_must_name_a_material_declared_above_it() {
    let (mut entries, values) = described(&SIMPLE);
    entries[3].record.ints[0] = 2;
    assert_eq!(
        Scene::from_records(&entries, &values, 500, 500).unwrap_err(),
        BuildError::Entry { entry: 3, reason: Reason::MaterialIndex }
    );
    let (mut entries, values) = described(&SIMPLE);
    entries[3].record.ints[0] = 0;
    assert_eq!(
        Scene::from_records(&entries, &values, 500, 500).unwrap_err(),
        BuildError::Entry { entry: 3, reason: Reason::MaterialIndex }
    );
}

#[test]
fn a_scene_needs_a_camera_and_settings() {
    let (entries, values) = described(&SIMPLE);
    let without_camera: Vec<Entry> = entries.into_iter().skip(1).collect();
    let their_values: Vec<Vec<u64>> = values.into_iter().skip(1).collect();
    assert_eq!(
        Scene::from_records(&without_camera, &their_values, 500, 500).unwrap_err(),
        BuildError::MissingCamera
    );
    let (mut entries, mut values) = described(&SIMPLE);
    entries.remove(1);
    values.remove(1);
    assert_eq!(
        Scene::from_records(&entries, &values, 500, 500).unwrap_err(),
        BuildError::MissingSettings
    );
    assert_eq!(
        Scene::from_records(&vec![], &vec![], 500, 500).unwrap_err(),
        BuildError::MissingCamera
    );
}

#[test]
fn the_image_has_the_size_that_is_asked_for() {
    let (entries, values) = described(&SIMPLE);
    let scene = Scene::from_records(&entries, &values, 640, 480).unwrap();
    assert_eq!(scene.camera.image_width, 640);
    assert_eq!(scene.camera.image_height, 480);
}
