//! Shape-local intersection and normal behaviour.

use raytracer::bounds::Bounds;
use raytracer::bvh::{Bvh, BvhIter};
use raytracer::color::color;
use raytracer::cube::{cube_intersect, cube_normal};
use raytracer::light::{Light, PointLight};
use raytracer::mapping::ColorMapping;
use raytracer::world::World;
use raytracer::cylinder::{cylinder_intersect, cylinder_normal};
use raytracer::intersection::{Intersection, hit};
use raytracer::material::Material;
use raytracer::plane::{plane_intersect, plane_normal};
use raytracer::ray::Ray;
use raytracer::shape::{ShapeKind, ShapeSet};
use raytracer::sphere::{sphere_intersect, sphere_normal};
use raytracer::transform::Transform;
use raytracer::mapping::ScalarMapping;
use raytracer::triangle::{NormalKind, Triangle};
use raytracer::tuple::{Point, Vector, point, vector};

fn fx(v: f64) -> i64 {
    (v * 65536.0).round() as i64
}

fn close(a: i64, b: f64, tol: f64) -> bool {
    ((a as f64) / 65536.0 - b).abs() < tol
}

fn close_vec(v: Vector, x: f64, y: f64, z: f64, tol: f64) -> bool {
    close(v.x, x, tol) && close(v.y, y, tol) && close(v.z, z, tol)
}

fn zray(oy: f64, oz: f64) -> Ray {
    Ray::new(point(0, fx(oy), fx(oz)), vector(0, 0, fx(1.)))
}

#[test]
fn ray_intersects_sphere_at_two_points() {
    let xs = sphere_intersect(&zray(0., -5.)).unwrap();
    assert_eq!(xs, fx(4.));
}

#[test]
fn ray_intersects_sphere_at_a_tangent() {
    let xs = sphere_intersect(&zray(1., -5.)).unwrap();
    assert!(close(xs, 5.0, 1e-2));
}

#[test]
fn ray_misses_a_sphere() {
    assert!(sphere_intersect(&zray(2., -5.)).is_none());
}

#[test]
fn ray_originates_inside_a_sphere() {
    let xs = sphere_intersect(&zray(0., 0.)).unwrap();
    assert_eq!(xs, fx(1.));
}

#[test]
fn intesections() {
    let xs = vec![
        Intersection { t: fx(-1.), shape: 0, uv: None },
        Intersection { t: fx(1.), shape: 1, uv: None },
        Intersection { t: fx(2.), shape: 1, uv: None },
    ];
    let h = hit(&xs).unwrap();
    assert_eq!(h, xs[1]);
}

#[test]
fn intesections_none() {
    let xs = vec![
        Intersection { t: fx(-1.), shape: 0, uv: None },
        Intersection { t: fx(-2.), shape: 1, uv: None },
        Intersection { t: fx(-3.), shape: 1, uv: None },
    ];
    assert!(hit(&xs).is_none());
}

#[test]
fn intersect_a_scaled_sphere_with_a_ray() {
    let mut set = ShapeSet::new();
    let s = set.add_sphere(Transform::scaling(fx(2.), fx(2.), fx(2.)), Material::default());
    let xs = set.intersects(s, &zray(0., -5.)).unwrap();
    assert_eq!(xs.t, fx(3.));
}

#[test]
fn intersect_a_translated_sphere_with_a_ray() {
    let mut set = ShapeSet::new();
    let s = set.add_sphere(Transform::translation(fx(5.), 0, 0), Material::default());
    assert!(set.intersects(s, &zray(0., -5.)).is_none());
}

#[test]
fn normal_sphere_axis() {
    assert_eq!(sphere_normal(&point(fx(1.), 0, 0)), vector(fx(1.), 0, 0));
    assert_eq!(sphere_normal(&point(0, fx(1.), 0)), vector(0, fx(1.), 0));
    assert_eq!(sphere_normal(&point(0, 0, fx(1.))), vector(0, 0, fx(1.)));
}

#[test]
fn normal_sphere_translated() {
    let mut set = ShapeSet::new();
    let s = set.add_sphere(Transform::translation(0, fx(1.), 0), Material::default());
    let n = set.normal_at(s, &point(0, fx(1.70710677), fx(-0.70710677)), None);
    assert!(close_vec(n, 0.0, 0.70710677, -0.70710677, 1e-3));
}

#[test]
fn normal_sphere_scaled() {
    let mut set = ShapeSet::new();
    let s = set.add_sphere(Transform::scaling(fx(1.), fx(0.5), fx(1.)), Material::default());
    let n = set.normal_at(s, &point(0, fx(0.70710677), fx(-0.70710677)), None);
    assert!(close_vec(n, 0.0, 0.97014254, -0.24253564, 1e-2));
}

#[test]
fn precompute_state_of_intersection() {
    let mut set = ShapeSet::new();
    let s = set.add_sphere(Transform::identity(), Material::default());
    let ray = zray(0., -5.);
    let x = Intersection { t: fx(4.), shape: s, uv: None };
    let h = raytracer::world::prepare_hit(&set, &x, &ray);
    assert!(close(h.point.z, -1.0, 1e-3));
    assert!(close_vec(h.eyev, 0.0, 0.0, -1.0, 1e-3));
    assert!(close_vec(h.normalv, 0.0, 0.0, -1.0, 1e-3));
    assert!(!h.inside);
}

#[test]
fn precompute_state_of_intersection_inside() {
    let mut set = ShapeSet::new();
    let s = set.add_sphere(Transform::identity(), Material::default());
    let ray = zray(0., 0.);
    let x = Intersection { t: fx(1.), shape: s, uv: None };
    let h = raytracer::world::prepare_hit(&set, &x, &ray);
    assert!(close(h.point.z, 1.0, 1e-3));
    assert!(close_vec(h.eyev, 0.0, 0.0, -1.0, 1e-3));
    assert!(close_vec(h.normalv, 0.0, 0.0, -1.0, 1e-3));
    assert!(h.inside);
}

#[test]
fn intersect_parallel() {
    let r = Ray::new(point(0, fx(10.), 0), vector(0, 0, fx(1.)));
    assert!(plane_intersect(&r).is_none());
}

#[test]
fn intersect_coplanar() {
    let r = Ray::new(point(0, 0, 0), vector(0, 0, fx(1.)));
    assert!(plane_intersect(&r).is_none());
}

#[test]
fn intersect_plane_above() {
    let r = Ray::new(point(0, fx(1.), 0), vector(0, fx(-1.), 0));
    assert_eq!(plane_intersect(&r).unwrap(), fx(1.));
}

#[test]
fn intersect_plane_below() {
    let r = Ray::new(point(0, fx(-1.), 0), vector(0, fx(1.), 0));
    assert_eq!(plane_intersect(&r).unwrap(), fx(1.));
}

#[test]
fn plane_normal_is_up() {
    assert_eq!(plane_normal(), vector(0, fx(1.), 0));
}

#[test]
fn intersect_cube() {
    let cases = [
        (point(fx(5.), fx(0.5), 0), vector(fx(-1.), 0, 0), 4.0),
        (point(fx(-5.), fx(0.5), 0), vector(fx(1.), 0, 0), 4.0),
        (point(fx(0.5), fx(5.), 0), vector(0, fx(-1.), 0), 4.0),
        (point(fx(0.5), fx(-5.), 0), vector(0, fx(1.), 0), 4.0),
        (point(fx(0.5), 0, fx(5.)), vector(0, 0, fx(-1.)), 4.0),
        (point(fx(0.5), 0, fx(-5.)), vector(0, 0, fx(1.)), 4.0),
        (point(0, fx(0.5), 0), vector(0, 0, fx(1.)), 1.0),
    ];
    for (o, d, expected) in cases.iter() {
        let xs = cube_intersect(&Ray::new(*o, *d)).unwrap();
        assert!(close(xs, *expected, 1e-3));
    }
}

#[test]
fn cube_degenerate_slab_still_hits() {
    // the ray runs inside the x slab with no x motion at all
    let r = Ray::new(point(fx(0.5), 0, fx(-5.)), vector(0, 0, fx(1.)));
    let xs = cube_intersect(&r).unwrap();
    assert!(close(xs, 4.0, 1e-3));
    // but misses when it runs outside that slab
    let r2 = Ray::new(point(fx(2.), 0, fx(-5.)), vector(0, 0, fx(1.)));
    assert!(cube_intersect(&r2).is_none());
}

#[test]
fn cube_normals() {
    let cases = [
        (point(fx(1.), fx(0.5), fx(-0.8)), (1.0, 0.0, 0.0)),
        (point(fx(-1.), fx(-0.2), fx(0.9)), (-1.0, 0.0, 0.0)),
        (point(fx(-0.4), fx(1.), fx(-0.1)), (0.0, 1.0, 0.0)),
        (point(fx(0.3), fx(-1.), 0), (0.0, -1.0, 0.0)),
        (point(fx(0.6), fx(0.3), fx(1.)), (0.0, 0.0, 1.0)),
        (point(fx(0.4), fx(0.4), fx(-1.)), (0.0, 0.0, -1.0)),
        (point(fx(1.), fx(1.), fx(1.)), (1.0, 0.0, 0.0)),
        (point(fx(-1.), fx(-1.), fx(-1.)), (-1.0, 0.0, 0.0)),
    ];
    for (p, (x, y, z)) in cases.iter() {
        let n = cube_normal(p);
        assert!(close_vec(n, *x, *y, *z, 1e-3));
    }
}

#[test]
fn ray_intersects_cylinder_at_two_points() {
    let xs = cylinder_intersect(&zray(0., -5.), true).unwrap();
    assert_eq!(xs, fx(4.));
}

#[test]
fn ray_misses_a_cylinder() {
    assert!(cylinder_intersect(&zray(2., -5.), true).is_none());
}

#[test]
fn ray_originates_inside_a_cylinder() {
    let xs = cylinder_intersect(&zray(0., 0.), true).unwrap();
    assert_eq!(xs, fx(1.));
}

#[test]
fn intersect_a_scaled_cylinder_with_a_ray() {
    let mut set = ShapeSet::new();
    let s = set.add_cylinder(
        Transform::scaling(fx(2.), fx(2.), fx(2.)),
        Material::default(),
        true,
    );
    let xs = set.intersects(s, &zray(0., -5.)).unwrap();
    assert_eq!(xs.t, fx(3.));
}

#[test]
fn intersect_a_translated_cylinder_with_a_ray() {
    let mut set = ShapeSet::new();
    let s = set.add_cylinder(Transform::translation(fx(5.), 0, 0), Material::default(), true);
    assert!(set.intersects(s, &zray(0., -5.)).is_none());
}

#[test]
fn cylinder_open_restricts_y() {
    // an open cylinder aimed along y is missed entirely
    let r = Ray::new(point(0, fx(-5.), 0), vector(0, fx(1.), 0));
    assert!(cylinder_intersect(&r, false).is_none());
    // while the closed one is entered through a cap
    let xs = cylinder_intersect(&r, true).unwrap();
    assert!(close(xs, 4.0, 1e-3));
    // a side hit of the open cylinder keeps y strictly inside
    let r2 = Ray::new(point(fx(-5.), fx(0.5), 0), vector(fx(1.), 0, 0));
    let t = cylinder_intersect(&r2, false).unwrap();
    assert!(close(t, 4.0, 1e-3));
}

#[test]
fn normal_cylinder_axis() {
    assert_eq!(cylinder_normal(&point(fx(1.), 0, 0)), vector(fx(1.), 0, 0));
    assert_eq!(cylinder_normal(&point(0, 0, fx(1.))), vector(0, 0, fx(1.)));
    assert_eq!(cylinder_normal(&point(fx(0.5), fx(1.), 0)), vector(0, fx(1.), 0));
    assert_eq!(cylinder_normal(&point(fx(0.5), fx(-1.), 0)), vector(0, fx(-1.), 0));
}

#[test]
fn triangle_intersection() {
    let p1 = point(0, fx(1.), 0);
    let p2 = point(fx(-1.), 0, 0);
    let p3 = point(fx(1.), 0, 0);
    let e1 = p2.minus_point(&p1);
    let e2 = p3.minus_point(&p1);
    let normal = NormalKind::Uniform(e1.cross(&e2).normalize());
    let tri = Triangle { p1, e1, e2, normal };
    let r = Ray::new(point(0, fx(-1.), fx(-2.)), vector(0, fx(0.5), fx(1.)));
    let (t, u, v) = tri.intersect(&r).unwrap();
    assert!(close(t, 2.0, 1e-2));
    assert!(u + v <= 65536 + 8);
    assert!(u >= 0 && v >= 0);
}

#[test]
fn triangle_misses() {
    let p1 = point(0, fx(1.), 0);
    let p2 = point(fx(-1.), 0, 0);
    let p3 = point(fx(1.), 0, 0);
    let e1 = p2.minus_point(&p1);
    let e2 = p3.minus_point(&p1);
    let normal = NormalKind::Uniform(e1.cross(&e2).normalize());
    let tri = Triangle { p1, e1, e2, normal };
    // parallel to the triangle's plane
    let r = Ray::new(point(0, fx(-1.), fx(-2.)), vector(fx(1.), 0, 0));
    assert!(tri.intersect(&r).is_none());
    // off to the side
    let r2 = Ray::new(point(fx(5.), fx(0.5), fx(-2.)), vector(0, 0, fx(1.)));
    assert!(tri.intersect(&r2).is_none());
}

#[test]
fn group_intersects_through_children() {
    let mut set = ShapeSet::new();
    let s = set.add_sphere(Transform::identity(), Material::default());
    let g = set.add_group(vec![s], Transform::identity(), Material::default());
    let xs = set.intersects(g, &zray(0., -5.)).unwrap();
    assert_eq!(xs.shape, s);
    assert_eq!(xs.t, fx(4.));
    assert!(matches!(set.nodes[g].kind, ShapeKind::Group(_)));
    // the child's back-reference resolves to the group
    assert_eq!(set.parents[s], Some(g));
}

#[test]
fn group_with_transformed_children() {
    let mut set = ShapeSet::new();
    let s1 = set.add_sphere(Transform::translation(fx(2.), 0, 0), Material::default());
    let s2 = set.add_sphere(Transform::translation(fx(-2.), 0, 0), Material::default());
    let g = set.add_group(vec![s1, s2], Transform::identity(), Material::default());
    let r = Ray::new(point(fx(2.), 0, fx(-5.)), vector(0, 0, fx(1.)));
    let xs = set.intersects(g, &r).unwrap();
    assert_eq!(xs.shape, s1);
    assert_eq!(xs.t, fx(4.));
    // the hierarchy's leaves point back at the children
    match &set.nodes[g].kind {
        ShapeKind::Group(gd) => {
            for (j, c) in gd.children.iter().enumerate() {
                match gd.bvh.nodes[c.bh_index] {
                    raytracer::bvh::BvhNode::Leaf { shape, .. } => assert_eq!(shape, j),
                    _ => panic!("child leaf expected"),
                }
            }
        }
        _ => panic!("group expected"),
    }
}

#[test]
fn nested_group_normal() {
    // a sphere inside a rotated group: the normal is carried out
    // through the group's transform
    let mut set = ShapeSet::new();
    let s = set.add_sphere(Transform::translation(0, fx(1.), 0), Material::default());
    let _g = set.add_group(vec![s], Transform::identity(), Material::default());
    let n = set.normal_at(s, &point(0, fx(1.70710677), fx(-0.70710677)), None);
    assert!(close_vec(n, 0.0, 0.70710677, -0.70710677, 1e-3));
}

#[test]
fn sphere_default_transform() {
    let mut set = ShapeSet::new();
    let s = set.add_sphere(Transform::identity(), Material::default());
    assert_eq!(set.nodes[s].transform, Transform::identity());
}

#[test]
fn sphere_transform() {
    let mut set = ShapeSet::new();
    let t = Transform::translation(fx(2.), fx(3.), fx(4.));
    let s = set.add_sphere(t, Material::default());
    assert_eq!(set.nodes[s].transform, t);
}

#[test]
fn cylinder_default_transform() {
    let mut set = ShapeSet::new();
    let s = set.add_cylinder(Transform::identity(), Material::default(), true);
    assert_eq!(set.nodes[s].transform, Transform::identity());
}

#[test]
fn cylinder_transform() {
    let mut set = ShapeSet::new();
    let t = Transform::translation(fx(2.), fx(3.), fx(4.));
    let s = set.add_cylinder(t, Material::default(), true);
    assert_eq!(set.nodes[s].transform, t);
}

#[test]
fn assign_material() {
    let mut set = ShapeSet::new();
    let s = set.add_sphere(Transform::identity(), Material::default());
    let mut m = Material::default();
    m.ambient = ScalarMapping::uniform(fx(1.));
    set.nodes[s].material = m;
    match &set.nodes[s].material.ambient {
        ScalarMapping::Uniform(u) => assert_eq!(u.value, fx(1.)),
        _ => panic!("uniform ambient expected"),
    }
}

#[test]
fn creating_group() {
    let mut set = ShapeSet::new();
    let g = set.add_group(vec![], Transform::identity(), Material::default());
    assert_eq!(set.nodes[g].transform, Transform::identity());
    match &set.nodes[g].kind {
        ShapeKind::Group(gd) => assert_eq!(gd.children.len(), 0),
        _ => panic!("group expected"),
    }
}

#[test]
fn add_shape_to_group() {
    let mut set = ShapeSet::new();
    let s = set.add_sphere(Transform::identity(), Material::default());
    let g = set.add_group(vec![s], Transform::identity(), Material::default());
    match &set.nodes[g].kind {
        ShapeKind::Group(gd) => {
            assert_eq!(gd.children.len(), 1);
            assert_eq!(gd.children[0].shape, s);
        }
        _ => panic!("group expected"),
    }
}

#[test]
fn stackless_traversal_yields_each_hit_leaf_once() {
    let unit = |cx: f64| Bounds {
        min: point(fx(cx - 1.), fx(-1.), fx(-1.)),
        max: point(fx(cx + 1.), fx(1.), fx(1.)),
    };
    let bounds = vec![unit(-4.), unit(0.), unit(4.)];
    let (bvh, leaf_of) = Bvh::build(&bounds);
    assert_eq!(leaf_of.len(), 3);
    // a ray sweeping along x enters all three boxes
    let r = Ray::new(point(fx(-10.), 0, 0), vector(fx(1.), 0, 0));
    let mut it = BvhIter::new();
    let mut seen = vec![false; 3];
    while let Some(s) = it.next(&bvh, &r) {
        assert!(s < 3);
        assert!(!seen[s], "a leaf must not be yielded twice");
        seen[s] = true;
    }
    assert!(seen.iter().all(|&b| b), "every box-entered leaf is yielded");
    // a ray missing every box yields nothing
    let miss = Ray::new(point(fx(-10.), fx(5.), 0), vector(fx(1.), 0, 0));
    let mut it2 = BvhIter::new();
    assert!(it2.next(&bvh, &miss).is_none());
}

#[test]
fn triangle_in_group_shades_with_group_material() {
    let mut set = ShapeSet::new();
    let p1 = point(0, fx(1.), 0);
    let p2 = point(fx(-1.), 0, 0);
    let p3 = point(fx(1.), 0, 0);
    let e1 = p2.minus_point(&p1);
    let e2 = p3.minus_point(&p1);
    let normal = NormalKind::Uniform(e1.cross(&e2).normalize());
    let t = set.add_triangle(Triangle { p1, e1, e2, normal });
    let mut red = Material::default();
    red.color = ColorMapping::uniform(color(fx(1.), 0, 0));
    red.ambient = ScalarMapping::uniform(fx(1.));
    red.diffuse = ScalarMapping::uniform(0);
    red.specular = ScalarMapping::uniform(0);
    let g = set.add_group(vec![t], Transform::identity(), red);
    let light = Light::Point(PointLight::new(
        point(0, 0, fx(-10.)),
        raytracer::color::white(),
    ));
    let world = World::new(set, vec![g], vec![light]);
    let r = Ray::new(point(0, fx(0.25), fx(-2.)), vector(0, 0, fx(1.)));
    // the fully ambient group material comes back exactly
    let c = world.color_at(&r, 0);
    assert_eq!(c, color(fx(1.), 0, 0));
}
