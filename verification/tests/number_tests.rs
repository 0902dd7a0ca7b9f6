use ray_tracer::material::{Color, Light, Material, Rejected, Vector};
use ray_tracer::model_object::{
    check_vec_above_plane, find_hits, negate, EdgeProbe, PlaneProbe, Probe, SphereProbe,
    TriangleProbe,
};
use ray_tracer::hit::{Hit, HitError, Surface};
use ray_tracer::number::{
    equals, less_than, no_more_than, not_a_number, within_unit_interval, INFINITY, ONE, SIGN, ZERO,
};

fn key(x: f64) -> u64 {
    x.to_bits()
}

fn samples() -> Vec<f64> {
    vec![
        0.0,
        -0.0,
        1.0,
        -1.0,
        0.5,
        -0.5,
        0.00001,
        -0.00001,
        1.0 + f64::EPSILON,
        1.0 - f64::EPSILON / 2.0,
        f64::MIN_POSITIVE,
        -f64::MIN_POSITIVE,
        5e-324,
        -5e-324,
        255.0,
        1e300,
        -1e300,
        f64::MAX,
        f64::MIN,
        f64::INFINITY,
        f64::NEG_INFINITY,
        f64::NAN,
        -f64::NAN,
        f64::from_bits(0x7FF0_0000_0000_0001),
        f64::from_bits(0xFFFF_FFFF_FFFF_FFFF),
    ]
}

#[test]
fn the_keys_of_the_named_numbers() {
    assert_eq!(ZERO, key(0.0));
    assert_eq!(ONE, key(1.0));
    assert_eq!(INFINITY, key(f64::INFINITY));
    assert_eq!(SIGN, key(-0.0));
}

#[test]
fn keys_compare_as_the_numbers_do() {
    for a in samples() {
        assert_eq!(not_a_number(key(a)), a.is_nan(), "{:?}", a);
        assert_eq!(within_unit_interval(key(a)), 0.0 <= a && a <= 1.0, "{:?}", a);
        assert_eq!(negate(key(a)), key(-a), "{:?}", a);
        for b in samples() {
            assert_eq!(less_than(key(a), key(b)), a < b, "{:?} < {:?}", a, b);
            assert_eq!(no_more_than(key(a), key(b)), a <= b, "{:?} <= {:?}", a, b);
            assert_eq!(equals(key(a), key(b)), a == b, "{:?} == {:?}", a, b);
        }
    }
}

#[test]
fn clamping_brings_a_colour_into_range() {
    for x in samples() {
        let c = Color::new(key(x), key(0.25), key(2.0)).clamped();
        let expected = x.max(0.0).min(1.0);
        assert_eq!(f64::from_bits(c.r), expected, "{:?}", x);
        assert_eq!(c.g, key(0.25));
        assert_eq!(c.b, key(1.0));
    }
    assert_eq!(Color::new(key(-3.0), key(f64::NAN), key(-0.0)).clamped(), Color::new(0, 0, 0));
}

#[test]
fn black_is_zero_in_every_part() {
    assert!(Color::new(key(0.0), key(0.0), key(0.0)).black());
    assert!(Color::new(key(-0.0), key(0.0), key(-0.0)).black());
    assert!(!Color::new(key(0.0), key(0.1), key(0.0)).black());
    assert!(!Color::new(key(0.0), key(0.0), key(f64::NAN)).black());
    assert!(!Color::new(key(-1.0), key(0.0), key(0.0)).black());
}

#[test]
fn a_material_knows_what_it_does_to_light() {
    let black = Color::new(key(0.0), key(0.0), key(0.0));
    let red = Color::new(key(1.0), key(0.0), key(0.0));
    let m = Material::new(red, black, black, key(0.0), key(0.0)).unwrap();
    assert!(!m.is_transparent());
    assert!(m.is_opaque());
    assert!(!m.is_reflective());
    assert!(!m.is_specular());
    assert_eq!(m.diffuse_color, red);
    assert_eq!(m.transparency, key(0.0));
    let glass = Material::new(black, red, red, key(30.0), key(1.0)).unwrap();
    assert!(glass.is_transparent());
    assert!(!glass.is_opaque());
    assert!(glass.is_reflective());
    assert!(glass.is_specular());
    assert_eq!(glass.phong_specularity, key(30.0));
    let faint = Material::new(black, black, black, key(1.0), key(5e-324)).unwrap();
    assert!(faint.is_transparent());
    assert!(!faint.is_opaque());
}

#[test]
fn a_material_with_a_transparency_out_of_range_is_rejected() {
    let black = Color::new(key(0.0), key(0.0), key(0.0));
    for t in [1.5, -0.1, f64::NAN, f64::INFINITY, 1.0 + f64::EPSILON, -5e-324] {
        assert_eq!(
            Material::new(black, black, black, key(1.0), key(t)).unwrap_err(),
            Rejected::Transparency,
            "{:?}",
            t
        );
    }
    for t in [0.0, -0.0, 1.0, 0.5, 5e-324] {
        assert!(Material::new(black, black, black, key(1.0), key(t)).is_ok(), "{:?}", t);
    }
}

#[test]
fn a_light_with_a_shadow_intensity_out_of_range_is_rejected() {
    let white = Color::new(key(1.0), key(1.0), key(1.0));
    let at = Vector::new(key(0.0), key(1.0), key(1.0));
    let light = Light::new(at, white, key(30.0), key(1.0), key(1.0)).unwrap();
    assert_eq!(light.position, at);
    assert_eq!(light.shadow_intensity, key(1.0));
    assert_eq!(light.radius, key(1.0));
    assert!(Light::new(at, white, key(30.0), key(0.0), key(0.0)).is_ok());
    assert_eq!(
        Light::new(at, white, key(30.0), key(1.25), key(1.0)).unwrap_err(),
        Rejected::ShadowIntensity
    );
    assert_eq!(
        Light::new(at, white, key(30.0), key(-1.0), key(1.0)).unwrap_err(),
        Rejected::ShadowIntensity
    );
    assert_eq!(
        Light::new(at, white, key(30.0), key(f64::NAN), key(1.0)).unwrap_err(),
        Rejected::ShadowIntensity
    );
}

#[test]
fn a_direction_along_z_is_recognised() {
    assert!(Vector::new(key(0.0), key(-0.0), key(1.0)).points_along_z());
    assert!(Vector::new(key(0.0), key(0.0), key(-1.0)).points_along_z());
    assert!(!Vector::new(key(0.1), key(0.0), key(1.0)).points_along_z());
    assert!(!Vector::new(key(0.0), key(-1e-300), key(1.0)).points_along_z());
}

fn sphere(t_ca: f64, d_square: f64, r_square: f64) -> SphereProbe {
    let distance_near = t_ca - (r_square - d_square).sqrt();
    SphereProbe {
        t_ca: key(t_ca),
        d_square: key(d_square),
        r_square: key(r_square),
        distance_near: key(distance_near),
    }
}

#[test]
fn a_ray_aimed_at_the_centre_of_a_sphere_meets_it() {
    let probe = sphere(4.0, 0.0, 1.0);
    assert_eq!(probe.try_hit(), Some(Surface { distance: key(3.0), flipped: false }));
}

#[test]
fn a_ray_misses_a_sphere_behind_it_beside_it_or_around_it() {
    assert_eq!(sphere(-4.0, 0.0, 1.0).try_hit(), None);
    assert_eq!(sphere(4.0, 1.5, 1.0).try_hit(), None);
    assert_eq!(sphere(0.5, 0.0, 1.0).try_hit(), None);
    assert_eq!(sphere(0.0, 0.0, 1.0).try_hit(), None);
}

#[test]
fn a_ray_that_touches_a_sphere_meets_it() {
    assert_eq!(sphere(4.0, 1.0, 1.0).try_hit(), Some(Surface { distance: key(4.0), flipped: false }));
    assert_eq!(sphere(1.0, 0.0, 1.0).try_hit(), Some(Surface { distance: key(0.0), flipped: false }));
    let at_the_surface = SphereProbe {
        t_ca: key(1.0),
        d_square: key(0.0),
        r_square: key(1.0),
        distance_near: key(-0.0),
    };
    assert_eq!(at_the_surface.try_hit(), Some(Surface { distance: key(0.0), flipped: false }));
}

#[test]
fn a_ray_along_a_plane_misses_it() {
    assert_eq!(PlaneProbe { cos_angle: key(0.0), t: key(f64::INFINITY) }.try_hit(), None);
    assert_eq!(PlaneProbe { cos_angle: key(-0.0), t: key(f64::NAN) }.try_hit(), None);
    assert_eq!(PlaneProbe { cos_angle: key(0.0), t: key(1.0) }.try_hit(), None);
}

#[test]
fn a_plane_is_met_from_the_front_or_from_the_back() {
    assert_eq!(
        PlaneProbe { cos_angle: key(-0.5), t: key(2.0) }.try_hit(),
        Some(Surface { distance: key(2.0), flipped: false })
    );
    assert_eq!(
        PlaneProbe { cos_angle: key(0.5), t: key(2.0) }.try_hit(),
        Some(Surface { distance: key(2.0), flipped: true })
    );
    assert_eq!(PlaneProbe { cos_angle: key(0.5), t: key(-2.0) }.try_hit(), None);
    assert_eq!(
        PlaneProbe { cos_angle: key(-0.5), t: key(5e-324) }.try_hit(),
        Some(Surface { distance: key(5e-324), flipped: false })
    );
    assert_eq!(
        PlaneProbe { cos_angle: key(-0.5), t: key(f64::INFINITY) }.try_hit(),
        Some(Surface { distance: key(f64::INFINITY), flipped: false })
    );
}

#[test]
fn a_ray_that_starts_on_a_plane_misses_it() {
    assert_eq!(PlaneProbe { cos_angle: key(-1.0), t: key(0.0) }.try_hit(), None);
    assert_eq!(PlaneProbe { cos_angle: key(-1.0), t: key(-0.0) }.try_hit(), None);
    assert_eq!(PlaneProbe { cos_angle: key(0.5), t: key(0.0) }.try_hit(), None);
    assert_eq!(PlaneProbe { cos_angle: key(0.5), t: key(-0.0) }.try_hit(), None);
    let on_the_triangle = TriangleProbe {
        plane: PlaneProbe { cos_angle: key(-1.0), t: key(0.0) },
        first: edge(1.0, 0.1),
        second: edge(1.0, 0.1),
        third: edge(1.0, 0.1),
    };
    assert_eq!(on_the_triangle.try_hit(), None);
    let probes = vec![
        Probe::Plane(PlaneProbe { cos_angle: key(-1.0), t: key(0.0) }),
        Probe::Triangle(on_the_triangle),
        Probe::Plane(PlaneProbe { cos_angle: key(-1.0), t: key(2.0) }),
    ];
    assert_eq!(find_hits(&probes).unwrap(), vec![Hit {
        distance: key(2.0),
        object: 2,
        flipped: false,
    }]);
}

#[test]
fn a_plane_at_no_distance_is_still_a_hit() {
    for t in [f64::NAN, -f64::NAN] {
        let probe = PlaneProbe { cos_angle: key(-0.5), t: key(t) };
        assert_eq!(probe.try_hit(), Some(Surface { distance: key(t), flipped: false }));
        assert_eq!(
            find_hits(&vec![Probe::Plane(probe)]).unwrap_err(),
            HitError::InvalidDistance { object: 0 }
        );
    }
}

fn edge(reference: f64, along: f64) -> EdgeProbe {
    EdgeProbe { reference: key(reference), along: key(along) }
}

#[test]
fn a_ray_runs_inside_an_edge_or_outside_it() {
    assert!(check_vec_above_plane(edge(1.0, 0.5)));
    assert!(check_vec_above_plane(edge(1.0, 0.0)));
    assert!(check_vec_above_plane(edge(1.0, -0.0)));
    assert!(!check_vec_above_plane(edge(1.0, -0.5)));
    assert!(check_vec_above_plane(edge(-1.0, -0.5)));
    assert!(check_vec_above_plane(edge(-1.0, 0.0)));
    assert!(!check_vec_above_plane(edge(-1.0, 0.5)));
    assert!(check_vec_above_plane(edge(0.0, 0.5)));
    assert!(!check_vec_above_plane(edge(0.0, -0.5)));
    assert!(!check_vec_above_plane(edge(1.0, f64::NAN)));
    assert!(!check_vec_above_plane(edge(-1.0, f64::NAN)));
    assert!(check_vec_above_plane(edge(f64::NAN, 0.5)));
}

#[test]
fn a_triangle_is_met_inside_all_three_edges() {
    let plane = PlaneProbe { cos_angle: key(-1.0), t: key(3.0) };
    let inside = TriangleProbe {
        plane,
        first: edge(1.0, 0.1),
        second: edge(-1.0, -0.2),
        third: edge(1.0, 0.0),
    };
    assert_eq!(inside.try_hit(), Some(Surface { distance: key(3.0), flipped: false }));
    let outside = TriangleProbe { third: edge(1.0, -0.1), ..inside };
    assert_eq!(outside.try_hit(), None);
    let outside = TriangleProbe { first: edge(-1.0, 0.1), ..inside };
    assert_eq!(outside.try_hit(), None);
    let behind = TriangleProbe { plane: PlaneProbe { cos_angle: key(-1.0), t: key(-3.0) }, ..inside };
    assert_eq!(behind.try_hit(), None);
    let along = TriangleProbe { plane: PlaneProbe { cos_angle: key(0.0), t: key(3.0) }, ..inside };
    assert_eq!(along.try_hit(), None);
    let back = TriangleProbe { plane: PlaneProbe { cos_angle: key(1.0), t: key(3.0) }, ..inside };
    assert_eq!(back.try_hit(), Some(Surface { distance: key(3.0), flipped: true }));
}

#[test]
fn the_hits_of_a_ray_are_found_nearest_first() {
    let probes = vec![
        Probe::Plane(PlaneProbe { cos_angle: key(0.5), t: key(6.0) }),
        Probe::Sphere(sphere(-4.0, 0.0, 1.0)),
        Probe::Sphere(sphere(4.0, 0.0, 1.0)),
        Probe::Triangle(TriangleProbe {
            plane: PlaneProbe { cos_angle: key(-1.0), t: key(3.0) },
            first: edge(1.0, 0.1),
            second: edge(1.0, 0.1),
            third: edge(1.0, 0.1),
        }),
        Probe::Plane(PlaneProbe { cos_angle: key(0.0), t: key(1.0) }),
    ];
    assert_eq!(probes[1].try_hit(), None);
    assert_eq!(probes[2].try_hit(), Some(Surface { distance: key(3.0), flipped: false }));
    let hits = find_hits(&probes).unwrap();
    assert_eq!(hits, vec![
        Hit { distance: key(3.0), object: 2, flipped: false },
        Hit { distance: key(3.0), object: 3, flipped: false },
        Hit { distance: key(6.0), object: 0, flipped: true },
    ]);
}

#[test]
fn a_hit_at_no_distance_is_rejected() {
    let probes = vec![
        Probe::Sphere(sphere(4.0, 0.0, 1.0)),
        Probe::Plane(PlaneProbe { cos_angle: key(0.5), t: key(f64::NAN) }),
    ];
    assert_eq!(find_hits(&probes).unwrap_err(), HitError::InvalidDistance { object: 1 });
}
