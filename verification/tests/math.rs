//! Geometry, transform, color and canvas behaviour.

use raytracer::canvas::{Canvas, canvas};
use raytracer::color::ColorRgbByte;
use raytracer::color::{Color, black, color, gamma_byte, white};
use raytracer::fx::{FX_ONE, fx_add, fx_div, fx_mul, fx_sqrt, fx_sub};
use raytracer::ray::Ray;
use raytracer::transform::{Transform, view_transform};
use raytracer::tuple::{Point, Vector, point, vector};

fn fx(v: f64) -> i64 {
    (v * 65536.0).round() as i64
}

fn close(a: i64, b: f64, tol: f64) -> bool {
    ((a as f64) / 65536.0 - b).abs() < tol
}

fn close_vec(v: Vector, x: f64, y: f64, z: f64, tol: f64) -> bool {
    close(v.x, x, tol) && close(v.y, y, tol) && close(v.z, z, tol)
}

fn close_point(p: Point, x: f64, y: f64, z: f64, tol: f64) -> bool {
    close(p.x, x, tol) && close(p.y, y, tol) && close(p.z, z, tol)
}

#[test]
fn it_works() {
    assert!((2.0f64 + 2.0 - 4.0).abs() < 1e-9);
}

#[test]
fn lib_it_works() {
    assert!((2.0f64 + 2.0 - 4.0).abs() < 1e-9);
}

#[test]
fn fixed_point_ops() {
    assert_eq!(fx_add(fx(1.5), fx(2.25)), fx(3.75));
    assert_eq!(fx_sub(fx(1.5), fx(2.25)), fx(-0.75));
    assert_eq!(fx_mul(fx(3.0), fx(4.0)), fx(12.0));
    assert_eq!(fx_div(fx(12.0), fx(4.0)), fx(3.0));
    assert_eq!(fx_sqrt(fx(4.0)), fx(2.0));
    assert_eq!(fx_sqrt(fx(0.0)), 0);
}

#[test]
fn substracting_two_points() {
    let p1 = point(fx(3.), fx(2.), fx(1.));
    let p2 = point(fx(5.), fx(6.), fx(7.));
    assert_eq!(p1.minus_point(&p2), vector(fx(-2.), fx(-4.), fx(-6.)));
}

#[test]
fn substracting_vector_from_point() {
    let p = point(fx(3.), fx(2.), fx(1.));
    let v = vector(fx(5.), fx(6.), fx(7.));
    assert_eq!(p.plus_vec(&v.negate()), point(fx(-2.), fx(-4.), fx(-6.)));
}

#[test]
fn substracting_two_vectors() {
    let v1 = vector(fx(3.), fx(2.), fx(1.));
    let v2 = vector(fx(5.), fx(6.), fx(7.));
    assert_eq!(v1.minus(&v2), vector(fx(-2.), fx(-4.), fx(-6.)));
}

#[test]
fn magnitude_of_100() {
    assert_eq!(vector(fx(1.), 0, 0).magnitude(), fx(1.));
}

#[test]
fn magnitude_of_123() {
    let m = vector(fx(1.), fx(2.), fx(3.)).magnitude();
    assert!(close(m, (14.0f64).sqrt(), 1e-3));
}

#[test]
fn normalizing_vector() {
    assert_eq!(vector(fx(4.), 0, 0).normalize(), vector(fx(1.), 0, 0));
}

#[test]
fn dot_product() {
    let v1 = vector(fx(1.), fx(2.), fx(3.));
    let v2 = vector(fx(2.), fx(3.), fx(4.));
    assert_eq!(v1.dot(&v2), fx(20.));
}

#[test]
fn cross_product() {
    let v1 = vector(fx(1.), fx(2.), fx(3.));
    let v2 = vector(fx(2.), fx(3.), fx(4.));
    assert_eq!(v1.cross(&v2), vector(fx(-1.), fx(2.), fx(-1.)));
    assert_eq!(v2.cross(&v1), vector(fx(1.), fx(-2.), fx(1.)));
}

#[test]
fn reflection() {
    let v = vector(fx(1.), fx(-1.), 0);
    let n = vector(0, fx(1.), 0);
    assert_eq!(v.reflect(&n), vector(fx(1.), fx(1.), 0));
}

#[test]
fn reflection_slated() {
    let v = vector(0, fx(-1.), 0);
    let s = fx((2.0f64).sqrt() / 2.0);
    let n = vector(s, s, 0);
    let r = v.reflect(&n);
    assert!(close_vec(r, 1.0, 0.0, 0.0, 1e-3));
}

#[test]
fn creating_querying_ray() {
    let origin = point(fx(1.), fx(2.), fx(3.));
    let direction = vector(fx(4.), fx(5.), fx(6.));
    let r = Ray::new(origin, direction);
    assert_eq!(r.origin, origin);
    assert_eq!(r.direction, direction);
}

#[test]
fn point_from_a_distance() {
    let r = Ray::new(point(fx(2.), fx(3.), fx(4.)), vector(fx(1.), 0, 0));
    assert_eq!(r.position(0), point(fx(2.), fx(3.), fx(4.)));
    assert_eq!(r.position(fx(1.)), point(fx(3.), fx(3.), fx(4.)));
    assert_eq!(r.position(fx(-1.)), point(fx(1.), fx(3.), fx(4.)));
    assert_eq!(r.position(fx(2.5)), point(fx(4.5), fx(3.), fx(4.)));
}

#[test]
fn traslating_ray() {
    let r = Ray::new(point(fx(1.), fx(2.), fx(3.)), vector(0, fx(1.), 0));
    let m = Transform::translation(fx(3.), fx(4.), fx(5.));
    let r2 = r.transform(&m.m);
    assert_eq!(r2.origin, point(fx(4.), fx(6.), fx(8.)));
    assert_eq!(r2.direction, vector(0, fx(1.), 0));
}

#[test]
fn scaling_ray() {
    let r = Ray::new(point(fx(1.), fx(2.), fx(3.)), vector(0, fx(1.), 0));
    let m = Transform::scaling(fx(2.), fx(3.), fx(4.));
    let r2 = r.transform(&m.m);
    assert_eq!(r2.origin, point(fx(2.), fx(6.), fx(12.)));
    assert_eq!(r2.direction, vector(0, fx(3.), 0));
}

#[test]
fn multiplying_translation() {
    let t = Transform::translation(fx(5.), fx(-3.), fx(2.));
    let p = point(fx(-3.), fx(4.), fx(5.));
    assert_eq!(t.apply_point(&p), point(fx(2.), fx(1.), fx(7.)));
}

#[test]
fn multiplying_inverse_translation() {
    let t = Transform::translation(fx(5.), fx(-3.), fx(2.));
    let p = point(fx(-3.), fx(4.), fx(5.));
    assert_eq!(t.inv_point(&p), point(fx(-8.), fx(7.), fx(3.)));
}

#[test]
fn translation_does_not_affect_vectors() {
    let t = Transform::translation(fx(5.), fx(-3.), fx(2.));
    let v = vector(fx(-3.), fx(4.), fx(5.));
    assert_eq!(t.apply_vector(&v), v);
}

#[test]
fn scaling_point() {
    let t = Transform::scaling(fx(2.), fx(3.), fx(4.));
    let p = point(fx(-4.), fx(6.), fx(8.));
    assert_eq!(t.apply_point(&p), point(fx(-8.), fx(18.), fx(32.)));
}

#[test]
fn scaling_vector() {
    let t = Transform::scaling(fx(2.), fx(3.), fx(4.));
    let v = vector(fx(-4.), fx(6.), fx(8.));
    assert_eq!(t.apply_vector(&v), vector(fx(-8.), fx(18.), fx(32.)));
}

#[test]
fn scaling_inverse_vector() {
    let t = Transform::scaling(fx(2.), fx(3.), fx(4.));
    let v = vector(fx(-4.), fx(6.), fx(8.));
    let r = t.inv_vector(&v);
    assert!(close_vec(r, -2.0, 2.0, 2.0, 1e-3));
}

#[test]
fn rotate_x() {
    let p = point(0, fx(1.), 0);
    let full_quarter = Transform::rotation_x(fx(1.), 0);
    assert_eq!(full_quarter.apply_point(&p), point(0, 0, fx(1.)));
}

#[test]
fn rotate_y() {
    let p = point(0, 0, fx(1.));
    let full_quarter = Transform::rotation_y(fx(1.), 0);
    assert_eq!(full_quarter.apply_point(&p), point(fx(1.), 0, 0));
}

#[test]
fn rotate_z() {
    let p = point(0, fx(1.), 0);
    let full_quarter = Transform::rotation_z(fx(1.), 0);
    assert_eq!(full_quarter.apply_point(&p), point(fx(-1.), 0, 0));
}

#[test]
fn shearing_x_y() {
    let p = point(fx(2.), fx(3.), fx(4.));
    let t = Transform::shearing(fx(1.), 0, 0, 0, 0, 0);
    assert_eq!(t.apply_point(&p), point(fx(5.), fx(3.), fx(4.)));
}

#[test]
fn shearing_x_z() {
    let p = point(fx(2.), fx(3.), fx(4.));
    let t = Transform::shearing(0, fx(1.), 0, 0, 0, 0);
    assert_eq!(t.apply_point(&p), point(fx(6.), fx(3.), fx(4.)));
}

#[test]
fn shearing_y_x() {
    let p = point(fx(2.), fx(3.), fx(4.));
    let t = Transform::shearing(0, 0, fx(1.), 0, 0, 0);
    assert_eq!(t.apply_point(&p), point(fx(2.), fx(5.), fx(4.)));
}

#[test]
fn shearing_y_z() {
    let p = point(fx(2.), fx(3.), fx(4.));
    let t = Transform::shearing(0, 0, 0, fx(1.), 0, 0);
    assert_eq!(t.apply_point(&p), point(fx(2.), fx(7.), fx(4.)));
}

#[test]
fn shearing_z_x() {
    let p = point(fx(2.), fx(3.), fx(4.));
    let t = Transform::shearing(0, 0, 0, 0, fx(1.), 0);
    assert_eq!(t.apply_point(&p), point(fx(2.), fx(3.), fx(6.)));
}

#[test]
fn shearing_z_y() {
    let p = point(fx(2.), fx(3.), fx(4.));
    let t = Transform::shearing(0, 0, 0, 0, 0, fx(1.));
    assert_eq!(t.apply_point(&p), point(fx(2.), fx(3.), fx(7.)));
}

#[test]
fn chain_transformations() {
    let p = point(fx(1.), 0, fx(1.));
    let a = Transform::rotation_x(fx(1.), 0);
    let b = Transform::scaling(fx(5.), fx(5.), fx(5.));
    let c = Transform::translation(fx(10.), fx(5.), fx(7.));
    let t = c.compose(&b).compose(&a);
    let r = t.apply_point(&p);
    assert!(close_point(r, 15.0, 0.0, 7.0, 1e-3));
}

#[test]
fn transform_round_trip() {
    // forward then inverse returns the point: exact for translations
    let t = Transform::translation(fx(5.), fx(-3.), fx(2.));
    let p = point(fx(-3.), fx(4.), fx(5.));
    assert_eq!(t.inv_point(&t.apply_point(&p)), p);
    // and within a tolerance for rotations
    let s = fx((2.0f64).sqrt() / 2.0);
    let rot = Transform::rotation_y(s, s);
    let q = rot.inv_point(&rot.apply_point(&p));
    assert!(close_point(q, -3.0, 4.0, 5.0, 1e-3));
}

#[test]
fn view_transformation_looking_z() {
    let from = point(0, 0, 0);
    let to = point(0, 0, fx(1.));
    let up = vector(0, fx(1.), 0);
    let t = view_transform(&from, &to, &up);
    let p = point(fx(1.), fx(2.), fx(3.));
    // the view flips x and z, as scaling(-1, 1, -1) would
    assert!(close_point(t.apply_point(&p), -1.0, 2.0, -3.0, 1e-3));
}

#[test]
fn view_transformation_moves_the_world() {
    let from = point(0, 0, fx(8.));
    let to = point(0, 0, fx(1.));
    let up = vector(0, fx(1.), 0);
    let t = view_transform(&from, &to, &up);
    let p = point(fx(1.), fx(2.), fx(3.));
    assert!(close_point(t.apply_point(&p), 1.0, 2.0, -5.0, 1e-3));
}

#[test]
fn adding_colors() {
    let c1 = color(fx(0.9), fx(0.6), fx(0.75));
    let c2 = color(fx(0.7), fx(0.1), fx(0.25));
    assert_eq!(c1.plus(&c2), color(fx(0.9) + fx(0.7), fx(0.6) + fx(0.1), fx(0.75) + fx(0.25)));
}

#[test]
fn substracting_colors() {
    let c1 = color(fx(0.9), fx(0.6), fx(0.75));
    let c2 = color(fx(0.7), fx(0.1), fx(0.25));
    assert_eq!(c1.minus(&c2), color(fx(0.9) - fx(0.7), fx(0.6) - fx(0.1), fx(0.75) - fx(0.25)));
}

#[test]
fn multiplying_colors() {
    let c1 = color(fx(1.0), fx(0.5), fx(0.25));
    let c2 = color(fx(0.5), fx(0.5), fx(1.0));
    assert_eq!(c1.times(&c2), color(fx(0.5), fx(0.25), fx(0.25)));
}

#[test]
fn multiplying_colors_by_a_scalar() {
    let c1 = color(fx(0.9), fx(0.6), fx(0.75));
    let r = c1.scale(fx(2.));
    assert!(close(r.r, 1.8, 1e-3) && close(r.g, 1.2, 1e-3) && close(r.b, 1.5, 1e-3));
}

#[test]
fn gamma_encoding() {
    // the gamma curve at its anchor points, and the documented
    // half-gray value
    assert_eq!(gamma_byte(0), 0);
    assert_eq!(gamma_byte(fx(1.0)), 255);
    assert_eq!(gamma_byte(fx(0.5)), 186);
    assert_eq!(gamma_byte(fx(-1.0)), 0);
    assert_eq!(gamma_byte(fx(2.0)), 255);
}

#[test]
fn create_canvas() {
    let mut can = Canvas::new(5, 3);
    assert!(can.frame_buffer.iter().all(|&c| c == 0));
    can.set(0, 0, color(fx(0.5), 0, fx(1.)).to_byte());
    let buffer = can.to_ppm_string();
    assert_eq!(
        buffer,
        "P3\n5 3\n255\n186 0 255 0 0 0 0 0 0 0\n0 0 0 0 0 0 0 0 0 0\n0 0 0 0 0 0 0 0 0 0\n0 0 0 0 0 0 0 0 0 0\n0 0 0 0 0\n"
    );
}

#[test]
fn write_image() {
    let mut canvas = Canvas::new(5, 3);
    canvas.set(0, 0, color(fx(0.5), 0, 0).to_byte());
    canvas.set(2, 1, color(0, fx(0.5), 0).to_byte());
    assert_eq!(canvas.get(0, 0), color(fx(0.5), 0, 0).to_byte());
    assert_eq!(canvas.get(2, 1), color(0, fx(0.5), 0).to_byte());
}

#[test]
fn position_linear_in_t() {
    // position at zero is the origin exactly, and whole steps land
    // exactly one direction farther each time
    let r = Ray::new(point(fx(2.), fx(3.), fx(4.)), vector(fx(1.), fx(-2.), fx(0.5)));
    assert_eq!(r.position(0), r.origin);
    let p1 = r.position(fx(1.));
    let p2 = r.position(fx(2.));
    assert_eq!(p2.x - p1.x, r.direction.x);
    assert_eq!(p2.y - p1.y, r.direction.y);
    assert_eq!(p2.z - p1.z, r.direction.z);
}

#[test]
fn reflect_involution_on_axis_normal() {
    let v = vector(fx(3.5), fx(-2.25), fx(7.125));
    let n = vector(0, fx(1.), 0);
    assert_eq!(v.reflect(&n).reflect(&n), v);
}

#[test]
fn black_and_white() {
    assert_eq!(black(), color(0, 0, 0));
    assert_eq!(white(), color(FX_ONE, FX_ONE, FX_ONE));
    let c: Color = white();
    assert_eq!(c.to_byte().r, 255);
}

#[test]
fn canvas_helpers() {
    let mut can = canvas(4, 2);
    assert_eq!(can.width, 4);
    assert_eq!(can.height, 2);
    let idx = can.idx(1, 1);
    assert_eq!(idx, 3 * (1 + 1 * 4));
    can.set_idx(idx, ColorRgbByte { r: 10, g: 20, b: 30 });
    assert_eq!(can.get(1, 1), ColorRgbByte { r: 10, g: 20, b: 30 });
}
