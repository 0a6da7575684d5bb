//! Procedural patterns, attenuation and encoding formulas.

use raytracer::canvas::dec_u32;
use raytracer::color::{black, color, white};
use raytracer::fx::{FX_ONE, fx_pow};
use raytracer::light::{AreaLight, attenuation_factor};
use raytracer::mapping::{ColorMapping, ScalarMapping};
use raytracer::material::Attenuation;
use raytracer::transform::Transform;
use raytracer::triangle::{NormalKind, triangle_fan};
use raytracer::tuple::{point, vector};

fn fx(v: f64) -> i64 {
    (v * 65536.0).round() as i64
}

#[test]
fn checkers_alternate_in_all_axes() {
    let pattern = ColorMapping::Checkered(vec![white(), black()], Transform::identity());
    assert_eq!(pattern.at_object(&point(0, 0, 0)), white());
    assert_eq!(pattern.at_object(&point(fx(1.01), 0, 0)), black());
    assert_eq!(pattern.at_object(&point(0, fx(1.01), 0)), black());
    assert_eq!(pattern.at_object(&point(0, 0, fx(1.01))), black());
    assert_eq!(pattern.at_object(&point(fx(1.01), fx(1.01), 0)), white());
}

#[test]
fn gradient_blends_along_x() {
    let pattern = ScalarMapping::Gradient(0, fx(1.), Transform::identity());
    assert_eq!(pattern.at_object(&point(fx(0.25), 0, 0)), fx(0.25));
    assert_eq!(pattern.at_object(&point(fx(0.5), 0, 0)), fx(0.5));
    assert_eq!(pattern.at_object(&point(fx(0.75), 0, 0)), fx(0.75));
}

#[test]
fn rings_follow_radial_distance() {
    let pattern = ColorMapping::Ringed(vec![white(), black()], Transform::identity());
    assert_eq!(pattern.at_object(&point(0, 0, 0)), white());
    assert_eq!(pattern.at_object(&point(fx(1.), 0, 0)), black());
    assert_eq!(pattern.at_object(&point(0, 0, fx(1.))), black());
    // just beyond the unit circle diagonally is still ring one
    assert_eq!(pattern.at_object(&point(fx(0.708), 0, fx(0.708))), black());
    assert_eq!(pattern.at_object(&point(fx(2.), 0, 0)), white());
}

#[test]
fn stripes_respect_their_transform() {
    let pattern = ColorMapping::Striped(
        vec![white(), black()],
        Transform::scaling(fx(2.), fx(2.), fx(2.)),
    );
    // the pattern space is stretched: the first stripe reaches x = 2
    assert_eq!(pattern.at_object(&point(fx(1.5), 0, 0)), white());
    assert_eq!(pattern.at_object(&point(fx(2.5), 0, 0)), black());
}

#[test]
fn attenuation_formulas() {
    assert_eq!(attenuation_factor(&Attenuation::Off, fx(5.)), FX_ONE);
    assert_eq!(attenuation_factor(&Attenuation::Linear, fx(5.)), fx(2.));
    assert_eq!(attenuation_factor(&Attenuation::Squared, fx(5.)), fx(4.));
}

#[test]
fn fixed_point_powers() {
    assert_eq!(fx_pow(fx(2.), 10), fx(1024.));
    assert_eq!(fx_pow(fx(1.), 200), fx(1.));
    assert_eq!(fx_pow(fx(0.5), 2), fx(0.25));
    assert_eq!(fx_pow(fx(3.), 0), fx(1.));
}

#[test]
fn decimal_strings() {
    assert_eq!(dec_u32(0), "0");
    assert_eq!(dec_u32(7), "7");
    assert_eq!(dec_u32(255), "255");
    assert_eq!(dec_u32(1234), "1234");
}

#[test]
fn fan_of_a_square_makes_two_triangles() {
    let pts = vec![
        (point(0, 0, 0), None),
        (point(fx(1.), 0, 0), None),
        (point(fx(1.), fx(1.), 0), None),
        (point(0, fx(1.), 0), None),
    ];
    let tris = triangle_fan(&pts);
    assert_eq!(tris.len(), 2);
    assert_eq!(tris[0].p1, point(0, 0, 0));
    assert_eq!(tris[0].e1, vector(fx(1.), 0, 0));
    assert_eq!(tris[0].e2, vector(fx(1.), fx(1.), 0));
    assert_eq!(tris[1].e1, vector(fx(1.), fx(1.), 0));
    assert_eq!(tris[1].e2, vector(0, fx(1.), 0));
    match tris[0].normal {
        NormalKind::Uniform(n) => assert_eq!(n, vector(0, 0, fx(1.))),
        _ => panic!("face normal expected"),
    }
}

#[test]
fn fan_with_normals_shades_smoothly() {
    let up = vector(0, 0, fx(1.));
    let pts = vec![
        (point(0, 0, 0), Some(up)),
        (point(fx(1.), 0, 0), Some(up)),
        (point(fx(1.), fx(1.), 0), Some(up)),
    ];
    let tris = triangle_fan(&pts);
    assert_eq!(tris.len(), 1);
    assert!(matches!(tris[0].normal, NormalKind::Smooth(_, _, _)));
}

#[test]
fn area_light_samples_with_given_offsets() {
    let al = AreaLight::new(
        point(0, fx(5.), 0),
        white(),
        (vector(fx(2.), 0, 0), vector(0, 0, fx(2.))),
        (2, 1),
        1,
    );
    let offsets = vec![(0i64, 0i64), (0i64, 0i64)];
    let hits = al.hits_with_offsets(&point(0, 0, 0), &offsets);
    assert_eq!(hits.len(), 2);
    // the two samples differ: the second sits one cell along u
    assert!(hits[0].lightv != hits[1].lightv);
    assert_eq!(hits[0].intensity, white().scale(fx(0.5)));
}

#[test]
fn gamma_monotone() {
    // encoding never decreases with the channel
    let mut last = 0u8;
    for i in 0..=64 {
        let b = raytracer::color::gamma_byte((i as i64) * 1024);
        assert!(b >= last);
        last = b;
    }
    assert_eq!(last, 255);
}

#[test]
fn colors_mix_exactly() {
    let c = color(fx(0.5), fx(0.25), fx(1.));
    assert_eq!(c.times(&white()), c);
    assert_eq!(c.scale(fx(2.)).r, fx(1.));
    assert_eq!(c.plus(&black()), c);
    assert_eq!(c.minus(&c), black());
}
