//! Whole-scene behaviour: shading, patterns, lights, camera.

use raytracer::camera::Camera;
use raytracer::color::{Color, black, color, white};
use raytracer::intersection::Intersection;
use raytracer::light::{AreaLight, DirectionalLight, Light, PointLight};
use raytracer::mapping::{ColorMapping, ScalarMapping};
use raytracer::material::{Material, lighting};
use raytracer::ray::Ray;
use raytracer::shape::ShapeSet;
use raytracer::transform::{Transform, view_transform};
use raytracer::tuple::{Point, Vector, point, vector};
use raytracer::world::{World, prepare_hit};

fn fx(v: f64) -> i64 {
    (v * 65536.0).round() as i64
}

fn close(a: i64, b: f64, tol: f64) -> bool {
    ((a as f64) / 65536.0 - b).abs() < tol
}

fn close_color(c: Color, r: f64, g: f64, b: f64, tol: f64) -> bool {
    close(c.r, r, tol) && close(c.g, g, tol) && close(c.b, b, tol)
}

fn close_vec(v: Vector, x: f64, y: f64, z: f64, tol: f64) -> bool {
    close(v.x, x, tol) && close(v.y, y, tol) && close(v.z, z, tol)
}

fn close_point(p: Point, x: f64, y: f64, z: f64, tol: f64) -> bool {
    close(p.x, x, tol) && close(p.y, y, tol) && close(p.z, z, tol)
}

fn default_world() -> World {
    let mut set = ShapeSet::new();
    let mut m1 = Material::default();
    m1.color = ColorMapping::uniform(color(fx(0.8), fx(1.0), fx(0.6)));
    m1.diffuse = ScalarMapping::uniform(fx(0.7));
    m1.specular = ScalarMapping::uniform(fx(0.2));
    let s1 = set.add_sphere(Transform::identity(), m1);
    let s2 = set.add_sphere(
        Transform::scaling(fx(0.5), fx(0.5), fx(0.5)),
        Material::default(),
    );
    let light = Light::Point(PointLight::new(point(fx(-10.), fx(10.), fx(-10.)), white()));
    World::new(set, vec![s1, s2], vec![light])
}

#[test]
fn intersect_world_with_ray() {
    let world = default_world();
    let ray = Ray::new(point(0, 0, fx(-5.)), vector(0, 0, fx(1.)));
    let xs = world.intersects(&ray).unwrap();
    assert_eq!(xs.t, fx(4.));
}

#[test]
fn shade_intersection() {
    let world = default_world();
    let ray = Ray::new(point(0, 0, fx(-5.)), vector(0, 0, fx(1.)));
    let c = world.color_at(&ray, 0);
    assert!(close_color(c, 0.38066, 0.47583, 0.28550, 5e-3));
}

#[test]
fn shade_intersection_inside() {
    let mut world = default_world();
    world.lights = vec![Light::Point(PointLight::new(
        point(0, fx(0.25), 0),
        color(fx(1.), fx(1.), fx(1.)),
    ))];
    let ray = Ray::new(point(0, 0, 0), vector(0, 0, fx(1.)));
    let c = world.color_at(&ray, 0);
    assert!(close_color(c, 0.90498, 0.90498, 0.90498, 5e-3));
}

#[test]
fn color_at_intersection() {
    let world = default_world();
    let ray = Ray::new(point(0, 0, fx(-5.)), vector(0, 0, fx(1.)));
    let c = world.color_at(&ray, 0);
    assert!(close_color(c, 0.38066125, 0.4758265, 0.28549594, 5e-3));
}

#[test]
fn color_at_miss_is_black() {
    let world = default_world();
    let ray = Ray::new(point(0, 0, fx(-5.)), vector(0, fx(1.), 0));
    assert_eq!(world.color_at(&ray, 5), black());
}

#[test]
fn color_at_behind() {
    let mut set = ShapeSet::new();
    let mut m1 = Material::default();
    m1.color = ColorMapping::uniform(color(fx(0.8), fx(1.0), fx(0.6)));
    m1.diffuse = ScalarMapping::uniform(fx(0.7));
    m1.specular = ScalarMapping::uniform(fx(0.2));
    let s1 = set.add_sphere(Transform::identity(), m1);
    let mut inner = Material::default();
    inner.ambient = ScalarMapping::uniform(fx(1.));
    inner.diffuse = ScalarMapping::uniform(0);
    inner.specular = ScalarMapping::uniform(0);
    inner.color = ColorMapping::uniform(color(fx(0.3), fx(0.4), fx(0.5)));
    let s2 = set.add_sphere(Transform::scaling(fx(0.5), fx(0.5), fx(0.5)), inner);
    let light = Light::Point(PointLight::new(point(fx(-10.), fx(10.), fx(-10.)), white()));
    let world = World::new(set, vec![s1, s2], vec![light]);
    let ray = Ray::new(point(0, 0, fx(-0.75)), vector(0, 0, fx(1.)));
    let c = world.color_at(&ray, 0);
    // the inner sphere's own (fully ambient) color comes back
    assert!(close_color(c, 0.3, 0.4, 0.5, 2e-2));
}

#[test]
fn lighting_eye_between_light_and_surface() {
    let hm = Material::default().sample(&point(0, 0, 0));
    let eyev = vector(0, 0, fx(-1.));
    let normalv = vector(0, 0, fx(-1.));
    let lightv = vector(0, 0, fx(-1.));
    let result = lighting(&hm, &white(), &lightv, &eyev, &normalv, false);
    assert!(close_color(result, 1.9, 1.9, 1.9, 5e-3));
}

#[test]
fn lighting_eye_between_light_offset_45deg() {
    let hm = Material::default().sample(&point(0, 0, 0));
    let eyev = vector(0, 0, fx(-1.));
    let normalv = vector(0, 0, fx(-1.));
    let s = fx((2.0f64).sqrt() / 2.0);
    let lightv = vector(0, s, -s);
    let result = lighting(&hm, &white(), &lightv, &eyev, &normalv, false);
    assert!(close_color(result, 0.7363961, 0.7363961, 0.7363961, 5e-3));
}

#[test]
fn lighting_eye_in_reflection_vector() {
    let hm = Material::default().sample(&point(0, 0, 0));
    let s = fx((2.0f64).sqrt() / 2.0);
    let eyev = vector(0, -s, -s);
    let normalv = vector(0, 0, fx(-1.));
    let lightv = vector(0, s, -s);
    let result = lighting(&hm, &white(), &lightv, &eyev, &normalv, false);
    assert!(close_color(result, 1.636396, 1.636396, 1.636396, 2e-2));
}

#[test]
fn lighting_light_behind() {
    let hm = Material::default().sample(&point(0, 0, 0));
    let eyev = vector(0, 0, fx(-1.));
    let normalv = vector(0, 0, fx(-1.));
    let lightv = vector(0, 0, fx(1.));
    let result = lighting(&hm, &white(), &lightv, &eyev, &normalv, false);
    assert!(close_color(result, 0.1, 0.1, 0.1, 2e-3));
}

#[test]
fn light_with_surface_in_shadow() {
    let hm = Material::default().sample(&point(0, 0, 0));
    let eyev = vector(0, 0, fx(-1.));
    let normalv = vector(0, 0, fx(-1.));
    let lightv = vector(0, 0, fx(-1.));
    let result = lighting(&hm, &white(), &lightv, &eyev, &normalv, true);
    assert!(close_color(result, 0.1, 0.1, 0.1, 2e-3));
}

#[test]
fn stripe_pattern_is_constant_in_z() {
    let pattern = ColorMapping::Striped(vec![white(), black()], Transform::identity());
    assert_eq!(pattern.at_object(&point(0, 0, 0)), white());
    assert_eq!(pattern.at_object(&point(0, 0, fx(2.))), white());
    assert_eq!(pattern.at_object(&point(0, 0, fx(3.))), white());
}

#[test]
fn stripe_pattern_alternates_in_x() {
    let pattern = ColorMapping::Striped(vec![white(), black()], Transform::identity());
    assert_eq!(pattern.at_object(&point(0, 0, 0)), white());
    assert_eq!(pattern.at_object(&point(fx(0.9), 0, 0)), white());
    assert_eq!(pattern.at_object(&point(fx(1.), 0, 0)), black());
    assert_eq!(pattern.at_object(&point(fx(-0.1), 0, 0)), black());
    assert_eq!(pattern.at_object(&point(fx(-1.), 0, 0)), black());
    assert_eq!(pattern.at_object(&point(fx(-1.1), 0, 0)), white());
}

#[test]
fn construct_camera() {
    let camera = Camera::new(160, 120, fx(1.));
    assert_eq!(camera.h_size, 160);
    assert_eq!(camera.v_size, 120);
    assert_eq!(camera.transform, Transform::identity());
    assert_eq!(camera.max_reflects, 5);
}

#[test]
fn pixel_size_horizontal() {
    let c = Camera::new(200, 125, fx(1.));
    assert!(close(c.pixel_size, 0.01, 1e-4));
}

#[test]
fn pixel_size_vertical() {
    let c = Camera::new(125, 200, fx(1.));
    assert!(close(c.pixel_size, 0.01, 1e-4));
}

#[test]
fn construct_ray_center() {
    let c = Camera::new(201, 101, fx(1.));
    let r = c.ray_for_pixel(100, 50);
    assert!(close_point(r.origin, 0.0, 0.0, 0.0, 1e-3));
    assert!(close_vec(r.direction, 0.0, 0.0, -1.0, 1e-2));
}

#[test]
fn construct_ray_corner() {
    let c = Camera::new(201, 101, fx(1.));
    let r = c.ray_for_pixel(0, 0);
    assert!(close_point(r.origin, 0.0, 0.0, 0.0, 1e-3));
    assert!(close_vec(r.direction, 0.6651864, 0.33259323, -0.66851234, 1e-2));
}

#[test]
fn construct_ray_transformed() {
    let mut c = Camera::new(201, 101, fx(1.));
    let s = fx((2.0f64).sqrt() / 2.0);
    c.set_transform(
        Transform::rotation_y(s, s).compose(&Transform::translation(0, fx(-2.), fx(5.))),
    );
    let r = c.ray_for_pixel(100, 50);
    assert!(close_point(r.origin, 0.0, 2.0, -5.0, 1e-3));
    assert!(close_vec(r.direction, (2.0f64).sqrt() / 2.0, 0.0, -(2.0f64).sqrt() / 2.0, 1e-2));
}

#[test]
fn render_default_world() {
    let world = default_world();
    let mut camera = Camera::new(11, 11, fx(1.));
    let from = point(0, 0, fx(-5.));
    let to = point(0, 0, 0);
    let up = vector(0, fx(1.), 0);
    camera.set_transform(view_transform(&from, &to, &up));
    let canvas = camera.render(&world);
    let center = canvas.get(5, 5);
    let expected = world.color_at(&camera.ray_for_pixel(5, 5), 5).to_byte();
    assert_eq!(center, expected);
    // the center pixel shows the lit sphere, not the background
    assert!(center.g > 100);
}

#[test]
fn shadowed_when_object_between_point_and_light() {
    let world = default_world();
    // a point behind the spheres as seen from the light
    let p = point(fx(10.), fx(-10.), fx(10.));
    let light = match world.lights[0] {
        Light::Point(pl) => pl,
        _ => panic!("point light expected"),
    };
    let lh = light.hit(&p);
    assert!(world.is_shadowed(&lh, &p));
    // while a point on the light's side is lit
    let q = point(fx(-20.), fx(20.), fx(-20.));
    let lh2 = light.hit(&q);
    assert!(!world.is_shadowed(&lh2, &q));
}

#[test]
fn schlick_at_normal_incidence() {
    // straight into glass: about four percent reflects
    let mut set = ShapeSet::new();
    let mut m = Material::default();
    m.transparency = Some(ScalarMapping::uniform(fx(1.)));
    m.refractive_index = fx(1.5);
    let s = set.add_sphere(Transform::identity(), m);
    let ray = Ray::new(point(0, 0, fx(-5.)), vector(0, 0, fx(1.)));
    let x = Intersection { t: fx(4.), shape: s, uv: None };
    let h = prepare_hit(&set, &x, &ray);
    let r = h.schlick();
    assert!(close(r, 0.04, 5e-3));
    assert!(0 <= r && r <= fx(1.));
}

#[test]
fn schlick_total_internal_reflection() {
    // grazing exit from the denser medium reflects everything
    let mut set = ShapeSet::new();
    let mut m = Material::default();
    m.transparency = Some(ScalarMapping::uniform(fx(1.)));
    m.refractive_index = fx(1.5);
    let s = set.add_sphere(Transform::identity(), m);
    let sq = fx((2.0f64).sqrt() / 2.0);
    let ray = Ray::new(point(0, 0, sq), vector(0, fx(1.), 0));
    let x = Intersection { t: sq, shape: s, uv: None };
    let h = prepare_hit(&set, &x, &ray);
    assert_eq!(h.schlick(), fx(1.));
}

#[test]
fn reflective_floor_brightens_pixel() {
    // a reflective plane under a sphere: with bounces left the floor
    // picks up the sphere's color, with none it stays darker
    let mut set = ShapeSet::new();
    let mut floor_m = Material::default();
    floor_m.reflective = Some(ScalarMapping::uniform(fx(0.5)));
    let floor = set.add_plane(Transform::translation(0, fx(-1.), 0), floor_m);
    let mut m = Material::default();
    m.color = ColorMapping::uniform(color(fx(1.), 0, 0));
    let ball = set.add_sphere(Transform::identity(), m);
    let light = Light::Point(PointLight::new(point(0, fx(10.), fx(-10.)), white()));
    let world = World::new(set, vec![floor, ball], vec![light]);
    // aim down at the floor so the bounce hits the sphere
    let sq = fx((2.0f64).sqrt() / 2.0);
    let ray = Ray::new(point(0, fx(0.5), fx(-3.)), vector(0, -sq, sq));
    let with_bounce = world.color_at(&ray, 5);
    let without = world.color_at(&ray, 0);
    assert!(with_bounce.r > without.r);
}

#[test]
fn directional_light_shades() {
    let mut set = ShapeSet::new();
    let s = set.add_sphere(Transform::identity(), Material::default());
    let light = Light::Directional(DirectionalLight::new(vector(0, 0, fx(-1.)), white()));
    let world = World::new(set, vec![s], vec![light]);
    let ray = Ray::new(point(0, 0, fx(-5.)), vector(0, 0, fx(1.)));
    let c = world.color_at(&ray, 0);
    // ambient + diffuse + specular facing the light directly
    assert!(close_color(c, 1.9, 1.9, 1.9, 2e-2));
}

#[test]
fn area_light_samples_average() {
    let al = AreaLight::new(
        point(0, fx(5.), 0),
        white(),
        (vector(fx(1.), 0, 0), vector(0, 0, fx(1.))),
        (2, 2),
        1,
    );
    let hits = al.hits(&point(0, 0, 0));
    assert_eq!(hits.len(), 4);
    for h in hits.iter() {
        // each sample carries a quarter of the light
        assert!(close(h.intensity.r, 0.25, 1e-2));
        assert!(h.distance > 0);
    }
}

#[test]
fn world_with_no_shapes_is_black() {
    let set = ShapeSet::new();
    let world = World::new(set, vec![], vec![]);
    let ray = Ray::new(point(0, 0, 0), vector(0, 0, fx(1.)));
    assert_eq!(world.color_at(&ray, 5), black());
}

#[test]
fn built_in_default_world() {
    let world = World::default();
    let ray = Ray::new(point(0, 0, fx(-5.)), vector(0, 0, fx(1.)));
    let xs = world.intersects(&ray).unwrap();
    assert_eq!(xs.t, fx(4.));
    let c = world.color_at(&ray, 0);
    assert!(close_color(c, 0.38066, 0.47583, 0.28550, 5e-3));
}

#[test]
fn glass_sphere_blends_with_schlick() {
    // a reflective and transparent sphere: the blend keeps every
    // channel finite and non-negative at any depth
    let mut set = ShapeSet::new();
    let mut m = Material::default();
    m.transparency = Some(ScalarMapping::uniform(fx(1.)));
    m.reflective = Some(ScalarMapping::uniform(fx(1.)));
    m.refractive_index = fx(1.5);
    let s = set.add_sphere(Transform::identity(), m);
    let light = Light::Point(PointLight::new(point(fx(-10.), fx(10.), fx(-10.)), white()));
    let world = World::new(set, vec![s], vec![light]);
    let ray = Ray::new(point(0, 0, fx(-5.)), vector(0, 0, fx(1.)));
    let c = world.color_at(&ray, 5);
    assert!(c.r >= 0 && c.g >= 0 && c.b >= 0);
    let shallow = world.color_at(&ray, 0);
    // with the budget spent both bounces go black and only the
    // surface term remains
    assert!(shallow.r <= c.r + 1);
}
