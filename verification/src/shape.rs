//! The shape arena: every shape of a scene in one flat store.
//!
//! Shapes are kept in a vector, children standing before the group
//! that owns them, and a parallel vector carries each shape's parent
//! back-reference.  The well-formedness invariant ties the two
//! directions together: a group's child list points at smaller
//! indices whose parent entry names the group, and every parent entry
//! names a group whose child list contains the shape.  Walking up the
//! parent chain therefore strictly increases the index, and walking
//! into a group's children strictly decreases it, which grounds both
//! recursions.

use vstd::prelude::*;

use crate::bounds::{Bounds, reduce_s, transform_bounds, transform_bounds_s};
use crate::bvh::{Bvh, BvhIter, is_leaf_with};
use crate::cube::{cube_intersect, cube_intersect_s, cube_normal, cube_normal_s};
use crate::cylinder::{cylinder_intersect, cylinder_intersect_s, cylinder_normal, cylinder_normal_s};
use crate::fx::{FX_EPS, FX_ONE};
use crate::intersection::Intersection;
use crate::material::Material;
use crate::matrix::{map_point_s, map_vector_s, map_vector_transposed_s};
use crate::plane::{plane_bounds, plane_intersect, plane_intersect_s, plane_normal};
use crate::ray::Ray;
use crate::sphere::{sphere_intersect, sphere_intersect_s, sphere_normal};
use crate::transform::Transform;
use crate::triangle::{Triangle, triangle_intersect_s};
use crate::tuple::{Point, Vector};

verus! {

/// A child of a group: the shape's index, its bounds in the group's
/// space, and the index of its leaf in the group's hierarchy.
#[derive(Clone, Copy, Debug)]
pub struct BoundedChild {
    pub shape: usize,
    pub bounds: Bounds,
    pub bh_index: usize,
}

/// The payload of a group: its children, the hierarchy over them and
/// the envelope of their transformed bounds.
#[derive(Clone, Debug)]
pub struct GroupData {
    pub children: Vec<BoundedChild>,
    pub bvh: Bvh,
    pub bounds: Bounds,
}

/// The closed set of shape flavours.
#[derive(Clone, Debug)]
pub enum ShapeKind {
    /// The unit sphere at the origin.
    Sphere,
    /// The plane y = 0.
    Plane,
    /// The cube between -1 and 1.
    Cube,
    /// The unit cylinder, optionally capped.
    Cylinder { closed: bool },
    /// A triangle in the space of its group.
    Triangle(Triangle),
    /// A container of other shapes.
    Group(GroupData),
}

/// One shape: its flavour, its transform (with the inverse), and its
/// material.
#[derive(Clone, Debug)]
pub struct ShapeNode {
    pub kind: ShapeKind,
    pub transform: Transform,
    pub material: Material,
}

/// The arena of shapes, with the parent back-references alongside.
#[derive(Clone, Debug)]
pub struct ShapeSet {
    pub nodes: Vec<ShapeNode>,
    pub parents: Vec<Option<usize>>,
}

impl ShapeSet {
    /// The sequence of leaf indices a group's children record.
    pub open spec fn bh_indices_s(g: GroupData) -> Seq<usize> {
        g.children@.map_values(|c: BoundedChild| c.bh_index)
    }

    /// If the shape at `i` is a group, its children stand before it,
    /// point back at it, and correspond one to one with the leaves of
    /// its hierarchy.
    pub open spec fn group_ok(self, i: int) -> bool {
        match self.nodes[i].kind {
            ShapeKind::Group(g) => {
                &&& g.children.len() < 0x4000_0000
                &&& g.bvh.links_ok()
                &&& g.children.len() > 0 ==> crate::bvh::subtree_wf(
                    g.bvh.nodes@,
                    g.children@.map_values(|c: BoundedChild| c.bounds),
                    0,
                    g.bvh.nodes.len() as int,
                    0,
                    g.children.len() as int,
                    0,
                )
                &&& forall|j: int|
                    0 <= j < g.children.len() ==> (#[trigger] g.children[j]).shape < i
                        && self.parents[g.children[j].shape as int] == Option::Some(i as usize)
                &&& g.bvh.leaves_match(ShapeSet::bh_indices_s(g), g.children.len() as int)
                &&& forall|j: int|
                    0 <= j < g.children.len() ==> (#[trigger] g.children[j]).bh_index
                        < g.bvh.nodes.len() && is_leaf_with(
                        g.bvh.nodes[g.children[j].bh_index as int],
                        j,
                    )
            },
            _ => true,
        }
    }

    /// If the shape at `i` has a parent, that parent stands after it
    /// and is a group whose child list contains it.
    pub open spec fn parent_ok(self, i: int) -> bool {
        match self.parents[i] {
            Option::Some(p) => i < p < self.nodes.len() && match self.nodes[p as int].kind {
                ShapeKind::Group(g) => exists|j: int|
                    0 <= j < g.children.len() && (#[trigger] g.children[j]).shape == i,
                _ => false,
            },
            Option::None => true,
        }
    }

    /// The shape at `i` is well-formed within the arena.
    pub open spec fn node_wf(self, i: int) -> bool {
        &&& self.nodes[i].material.wf()
        &&& self.group_ok(i)
        &&& self.parent_ok(i)
    }

    /// The whole arena is well-formed.
    pub open spec fn wf(self) -> bool {
        &&& self.nodes.len() == self.parents.len()
        &&& self.nodes.len() < 0x4000_0000
        &&& forall|i: int| 0 <= i < self.nodes.len() ==> self.node_wf(i)
    }

    /// The material a shape shades with, as a spec value: a triangle
    /// takes its group's material (triangles bypass their own base
    /// and carry only a placeholder), every other shape its own.  A
    /// triangle outside any group falls back to the placeholder it
    /// was built with.
    pub open spec fn shading_material_s(self, i: int) -> Material {
        match (self.nodes[i].kind, self.parents[i]) {
            (ShapeKind::Triangle(tri), Option::Some(p)) => self.nodes[p as int].material,
            _ => self.nodes[i].material,
        }
    }

    /// The material a shape shades with.  In a well-formed arena it
    /// is itself well-formed.
    pub fn shading_material(&self, i: usize) -> (res: &Material)
        requires
            self.wf(),
            i < self.nodes.len(),
        ensures
            *res == self.shading_material_s(i as int),
            res.wf(),
    {
        proof {
            assert(self.node_wf(i as int));
        }
        let node = self.nodes.get(i).unwrap();
        match (&node.kind, self.parents.get(i).unwrap()) {
            (ShapeKind::Triangle(_), Option::Some(p)) => {
                proof {
                    assert(self.node_wf(*p as int));
                }
                &self.nodes.get(*p).unwrap().material
            },
            _ => &node.material,
        }
    }

    /// An empty arena.
    pub fn new() -> (res: ShapeSet)
        ensures
            res.wf(),
            res.nodes.len() == 0,
    {
        ShapeSet { nodes: Vec::new(), parents: Vec::new() }
    }

    /// The ray of object space: the world ray mapped through the
    /// shape's inverse transform.
    pub open spec fn local_ray_s(self, i: int, r: Ray) -> Ray {
        Ray {
            origin: map_point_s(self.nodes[i].transform.inv, r.origin),
            direction: map_vector_s(self.nodes[i].transform.inv, r.direction),
        }
    }

    /// The bounds of a shape in its own space.
    pub open spec fn local_bounds_s(self, i: int) -> Bounds {
        match self.nodes[i].kind {
            ShapeKind::Plane => Bounds {
                min: Point {
                    x: (-(crate::plane::PLANE_EXTENT as int)) as i64,
                    y: (-(FX_EPS as int)) as i64,
                    z: (-(crate::plane::PLANE_EXTENT as int)) as i64,
                },
                max: Point {
                    x: crate::plane::PLANE_EXTENT,
                    y: FX_EPS,
                    z: crate::plane::PLANE_EXTENT,
                },
            },
            ShapeKind::Triangle(tri) => tri.bounds_s(),
            ShapeKind::Group(g) => g.bounds,
            _ => Bounds {
                min: Point {
                    x: (-(FX_ONE as int)) as i64,
                    y: (-(FX_ONE as int)) as i64,
                    z: (-(FX_ONE as int)) as i64,
                },
                max: Point { x: FX_ONE, y: FX_ONE, z: FX_ONE },
            },
        }
    }

    /// The bounds of a shape in its own space.
    pub fn local_bounds(&self, i: usize) -> (res: Bounds)
        requires
            i < self.nodes.len(),
        ensures
            res == self.local_bounds_s(i as int),
    {
        match &self.nodes.get(i).unwrap().kind {
            ShapeKind::Plane => plane_bounds(),
            ShapeKind::Triangle(tri) => tri.bounds(),
            ShapeKind::Group(g) => g.bounds,
            _ => Bounds {
                min: Point { x: -FX_ONE, y: -FX_ONE, z: -FX_ONE },
                max: Point { x: FX_ONE, y: FX_ONE, z: FX_ONE },
            },
        }
    }

    /// A world point carried into the object space of shape `i`,
    /// through every enclosing group first.
    pub open spec fn world_to_object_s(self, i: int, p: Point) -> Point
        decreases self.nodes.len() - i,
    {
        if 0 <= i < self.nodes.len() {
            let q = match self.parents[i] {
                Option::Some(par) => if i < par < self.nodes.len() {
                    self.world_to_object_s(par as int, p)
                } else {
                    p
                },
                Option::None => p,
            };
            map_point_s(self.nodes[i].transform.inv, q)
        } else {
            p
        }
    }

    /// Carry a world point into the object space of shape `i`.
    pub fn world_to_object(&self, i: usize, p: &Point) -> (res: Point)
        requires
            i < self.nodes.len(),
            self.nodes.len() == self.parents.len(),
        ensures
            res == self.world_to_object_s(i as int, *p),
        decreases self.nodes.len() - i,
    {
        let q = match *self.parents.get(i).unwrap() {
            Option::Some(par) => if i < par && par < self.nodes.len() {
                self.world_to_object(par, p)
            } else {
                *p
            },
            Option::None => *p,
        };
        self.nodes.get(i).unwrap().transform.inv.mul_point(&q)
    }

    /// An object-space normal of shape `i` carried out to world
    /// space: through the transpose of the inverse transform,
    /// normalized, then through every enclosing group.
    pub open spec fn normal_to_world_s(self, i: int, n: Vector) -> Vector
        decreases self.nodes.len() - i,
    {
        if 0 <= i < self.nodes.len() {
            let wn = map_vector_transposed_s(self.nodes[i].transform.inv, n).normalize_s();
            match self.parents[i] {
                Option::Some(par) => if i < par < self.nodes.len() {
                    self.normal_to_world_s(par as int, wn)
                } else {
                    wn
                },
                Option::None => wn,
            }
        } else {
            n
        }
    }

    /// Carry an object-space normal of shape `i` out to world space.
    pub fn normal_to_world(&self, i: usize, n: &Vector) -> (res: Vector)
        requires
            i < self.nodes.len(),
            self.nodes.len() == self.parents.len(),
        ensures
            res == self.normal_to_world_s(i as int, *n),
        decreases self.nodes.len() - i,
    {
        let wn = self.nodes.get(i).unwrap().transform.inv.mul_vector_transposed(n).normalize();
        match *self.parents.get(i).unwrap() {
            Option::Some(par) => if i < par && par < self.nodes.len() {
                self.normal_to_world(par, &wn)
            } else {
                wn
            },
            Option::None => wn,
        }
    }

    /// The normal of a primitive shape at an object-space point, with
    /// the barycentric coordinates of the hit for triangles.
    pub open spec fn local_normal_s(self, i: int, p: Point, uv: Option<(i64, i64)>) -> Vector {
        match self.nodes[i].kind {
            ShapeKind::Sphere => Vector { x: p.x, y: p.y, z: p.z },
            ShapeKind::Plane => Vector { x: 0, y: FX_ONE, z: 0 },
            ShapeKind::Cube => cube_normal_s(p),
            ShapeKind::Cylinder { closed } => cylinder_normal_s(p),
            ShapeKind::Triangle(tri) => match uv {
                Option::Some((u, v)) => tri.normal_at_s(u as int, v as int),
                Option::None => tri.normal_at_s(0, 0),
            },
            ShapeKind::Group(g) => Vector { x: 0, y: 0, z: 0 },
        }
    }

    /// A smoothly shaded triangle needs the barycentric coordinates
    /// of its hit; every other query may omit them.
    pub open spec fn uv_ok_s(self, i: int, uv: Option<(i64, i64)>) -> bool {
        match self.nodes[i].kind {
            ShapeKind::Triangle(tri) => (tri.normal is Smooth) ==> uv is Some,
            _ => true,
        }
    }

    /// The normal of a primitive shape at an object-space point.
    /// Groups have no surface of their own: a traversal always
    /// resolves to one of their primitives, and a smooth triangle is
    /// only asked with the barycentrics its intersection produced.
    pub fn local_normal(&self, i: usize, p: &Point, uv: Option<(i64, i64)>) -> (res: Vector)
        requires
            i < self.nodes.len(),
            !(self.nodes[i as int].kind is Group),
            self.uv_ok_s(i as int, uv),
        ensures
            res == self.local_normal_s(i as int, *p, uv),
    {
        match &self.nodes.get(i).unwrap().kind {
            ShapeKind::Sphere => sphere_normal(p),
            ShapeKind::Plane => plane_normal(),
            ShapeKind::Cube => cube_normal(p),
            ShapeKind::Cylinder { closed } => cylinder_normal(p),
            ShapeKind::Triangle(tri) => match uv {
                Option::Some((u, v)) => tri.normal_at(u, v),
                Option::None => tri.normal_at(0, 0),
            },
            ShapeKind::Group(g) => Vector { x: 0, y: 0, z: 0 },
        }
    }

    /// The world-space normal at a world point of shape `i`: into
    /// object space, the local normal there, and back out.
    pub open spec fn normal_at_s(self, i: int, p: Point, uv: Option<(i64, i64)>) -> Vector {
        let lp = self.world_to_object_s(i, p);
        let ln = self.local_normal_s(i, lp, uv);
        self.normal_to_world_s(i, ln)
    }

    /// The world-space normal at a world point of shape `i`.
    pub fn normal_at(&self, i: usize, p: &Point, uv: Option<(i64, i64)>) -> (res: Vector)
        requires
            i < self.nodes.len(),
            self.nodes.len() == self.parents.len(),
            !(self.nodes[i as int].kind is Group),
            self.uv_ok_s(i as int, uv),
        ensures
            res == self.normal_at_s(i as int, *p, uv),
    {
        let lp = self.world_to_object(i, p);
        let ln = self.local_normal(i, &lp, uv);
        self.normal_to_world(i, &ln)
    }

    /// What a primitive's local test yields on the object-space ray.
    #[verifier::opaque]
    pub open spec fn primitive_hit_s(self, i: int, local: Ray) -> Option<(int, Option<(i64, i64)>)> {
        match self.nodes[i].kind {
            ShapeKind::Sphere => match sphere_intersect_s(local) {
                Option::Some(t) => Option::Some((t, Option::None)),
                Option::None => Option::None,
            },
            ShapeKind::Plane => match plane_intersect_s(local) {
                Option::Some(t) => Option::Some((t, Option::None)),
                Option::None => Option::None,
            },
            ShapeKind::Cube => match cube_intersect_s(local) {
                Option::Some(t) => Option::Some((t, Option::None)),
                Option::None => Option::None,
            },
            ShapeKind::Cylinder { closed } => match cylinder_intersect_s(local, closed) {
                Option::Some(t) => Option::Some((t, Option::None)),
                Option::None => Option::None,
            },
            ShapeKind::Triangle(tri) => match triangle_intersect_s(tri, local) {
                Option::Some((t, u, v)) => Option::Some(
                    (t, Option::Some((u as i64, v as i64))),
                ),
                Option::None => Option::None,
            },
            ShapeKind::Group(g) => Option::None,
        }
    }

    /// The nearest of two optional hits; the first wins ties.
    pub open spec fn nearer_s(a: Option<Intersection>, b: Option<Intersection>) -> Option<
        Intersection,
    > {
        match (a, b) {
            (Option::Some(x), Option::Some(y)) => if y.t < x.t {
                Option::Some(y)
            } else {
                Option::Some(x)
            },
            (Option::Some(x), Option::None) => a,
            (Option::None, _) => b,
        }
    }

    /// What intersecting shape `i` with a ray yields, as a spec
    /// value: a primitive answers its local test on the object-space
    /// ray; a group answers the nearest hit among the candidates its
    /// hierarchy's pruned walk yields for the object-space ray.
    pub open spec fn shape_hit_s(self, i: int, ray: Ray) -> Option<Intersection>
        decreases i, 1int, 0int,
    {
        if !(0 <= i < self.nodes.len()) {
            Option::None
        } else {
            let local = self.local_ray_s(i, ray);
            match self.nodes[i].kind {
                ShapeKind::Group(g) => self.group_hit_seq_s(
                    i,
                    local,
                    crate::bvh::visit_s(g.bvh.nodes@, local, 0),
                ),
                _ => match self.primitive_hit_s(i, local) {
                    Option::Some((t, uv)) => Option::Some(
                        Intersection { t: t as i64, shape: i as usize, uv },
                    ),
                    Option::None => Option::None,
                },
            }
        }
    }

    /// The nearest hit among the candidate children `cands` of the
    /// group at `i`, on the group-local ray; earlier candidates win
    /// ties.
    pub open spec fn group_hit_seq_s(self, i: int, local: Ray, cands: Seq<int>) -> Option<
        Intersection,
    >
        decreases i, 0int, cands.len(),
    {
        match self.nodes[i].kind {
            ShapeKind::Group(g) => if cands.len() == 0 {
                Option::None
            } else {
                let prev = self.group_hit_seq_s(i, local, cands.drop_last());
                let k = cands.last();
                let cur = if 0 <= k < g.children.len() && 0 <= g.children[k].shape < i {
                    self.shape_hit_s(g.children[k].shape as int, local)
                } else {
                    Option::None
                };
                ShapeSet::nearer_s(prev, cur)
            },
            _ => Option::None,
        }
    }

    /// A hit is within the arena, beyond the tolerance, names a
    /// primitive, and carries barycentric coordinates exactly when a
    /// triangle produced it.
    pub open spec fn hit_valid_s(self, x: Intersection) -> bool {
        &&& x.t > FX_EPS
        &&& x.shape < self.nodes.len()
        &&& !(self.nodes[x.shape as int].kind is Group)
        &&& (self.nodes[x.shape as int].kind is Triangle <==> x.uv is Some)
    }

    /// Intersect a ray with shape `i`.  The ray is first carried into
    /// the shape's object space; a primitive then answers its local
    /// test exactly, and a group walks its hierarchy and answers the
    /// nearest hit among the candidates the traversal yields.  The
    /// result is exactly `shape_hit_s`: nothing is reported that does
    /// not hit, and no nearer candidate exists than the one reported.
    #[verifier::rlimit(100)]
    #[verifier::spinoff_prover]
    pub fn intersects(&self, i: usize, ray: &Ray) -> (res: Option<Intersection>)
        requires
            self.wf(),
            i < self.nodes.len(),
        ensures
            res == self.shape_hit_s(i as int, *ray),
            match res {
                Option::Some(x) => self.hit_valid_s(x),
                Option::None => true,
            },
        decreases i,
    {
        proof {
            reveal(ShapeSet::primitive_hit_s);
        }
        let node = self.nodes.get(i).unwrap();
        let local = ray.transform(&node.transform.inv);
        match &node.kind {
            ShapeKind::Sphere => match sphere_intersect(&local) {
                Option::Some(t) => Option::Some(Intersection { t, shape: i, uv: Option::None }),
                Option::None => Option::None,
            },
            ShapeKind::Plane => match plane_intersect(&local) {
                Option::Some(t) => Option::Some(Intersection { t, shape: i, uv: Option::None }),
                Option::None => Option::None,
            },
            ShapeKind::Cube => match cube_intersect(&local) {
                Option::Some(t) => Option::Some(Intersection { t, shape: i, uv: Option::None }),
                Option::None => Option::None,
            },
            ShapeKind::Cylinder { closed } => match cylinder_intersect(&local, *closed) {
                Option::Some(t) => Option::Some(Intersection { t, shape: i, uv: Option::None }),
                Option::None => Option::None,
            },
            ShapeKind::Triangle(tri) => match tri.intersect(&local) {
                Option::Some((t, u, v)) => Option::Some(
                    Intersection { t, shape: i, uv: Option::Some((u, v)) },
                ),
                Option::None => Option::None,
            },
            ShapeKind::Group(g) => {
                let mut best: Option<Intersection> = Option::None;
                proof {
                    assert(self.node_wf(i as int));
                }
                let mut it = BvhIter::new();
                let ghost total = crate::bvh::visit_s(g.bvh.nodes@, local, 0);
                let ghost mut consumed: Seq<int> = Seq::empty();
                proof {
                    assert(total =~= consumed + it.remaining_s(g.bvh, local));
                }
                loop
                    invariant
                        self.wf(),
                        i < self.nodes.len(),
                        self.nodes[i as int].kind matches ShapeKind::Group(gg) && gg.children
                            == g.children && gg.bvh == g.bvh,
                        local == self.local_ray_s(i as int, *ray),
                        g.bvh.links_ok(),
                        it.inv_s(g.bvh),
                        total == crate::bvh::visit_s(g.bvh.nodes@, local, 0),
                        total == consumed + it.remaining_s(g.bvh, local),
                        best == self.group_hit_seq_s(i as int, local, consumed),
                        match best {
                            Option::Some(x) => self.hit_valid_s(x),
                            Option::None => true,
                        },
                    decreases it.remaining_s(g.bvh, local).len(),
                {
                    match it.next(&g.bvh, &local) {
                        Option::None => {
                            proof {
                                assert(consumed =~= total);
                            }
                            return best;
                        },
                        Option::Some(ri) => {
                            let ghost prev_consumed = consumed;
                            proof {
                                assert(self.node_wf(i as int));
                            }
                            let cur = if ri < g.children.len() {
                                let child = g.children.get(ri).unwrap().shape;
                                self.intersects(child, &local)
                            } else {
                                Option::None
                            };
                            proof {
                                consumed = consumed.push(ri as int);
                                assert(total =~= consumed + it.remaining_s(g.bvh, local));
                                assert(consumed.drop_last() =~= prev_consumed);
                                assert(consumed.last() == ri as int);
                                assert(cur == if 0 <= ri < g.children.len() && 0
                                    <= g.children[ri as int].shape < i {
                                    self.shape_hit_s(g.children[ri as int].shape as int, local)
                                } else {
                                    Option::<Intersection>::None
                                });
                            }
                            best = match (best, cur) {
                                (Option::Some(b), Option::Some(x)) => if x.t < b.t {
                                    Option::Some(x)
                                } else {
                                    Option::Some(b)
                                },
                                (Option::Some(b), Option::None) => Option::Some(b),
                                (Option::None, c2) => c2,
                            };
                            proof {
                                assert(best == ShapeSet::nearer_s(
                                    self.group_hit_seq_s(i as int, local, prev_consumed),
                                    cur,
                                ));
                                assert(best == self.group_hit_seq_s(i as int, local, consumed));
                            }
                        },
                    }
                }
            },
        }
    }

    /// Append one primitive shape with no parent.
    fn push_node(&mut self, kind: ShapeKind, t: Transform, m: Material) -> (idx: usize)
        requires
            old(self).wf(),
            m.wf(),
            old(self).nodes.len() < 0x3fff_ffff,
            !(kind is Group),
        ensures
            final(self).wf(),
            idx == old(self).nodes.len(),
            final(self).nodes.len() == old(self).nodes.len() + 1,
            final(self).nodes[idx as int].kind == kind,
            final(self).nodes[idx as int].transform == t,
            final(self).nodes[idx as int].material == m,
            final(self).parents[idx as int] == Option::<usize>::None,
            forall|i: int|
                0 <= i < old(self).nodes.len() ==> final(self).nodes[i] == old(self).nodes[i]
                    && final(self).parents[i] == old(self).parents[i],
    {
        let idx = self.nodes.len();
        let ghost kind_g = kind;
        self.nodes.push(ShapeNode { kind, transform: t, material: m });
        self.parents.push(Option::None);
        proof {
            assert forall|i: int| 0 <= i < self.nodes.len() implies self.node_wf(i) by {
                if i < idx {
                    assert(old(self).node_wf(i));
                    assert(self.nodes[i] == old(self).nodes[i]);
                    assert(self.parents[i] == old(self).parents[i]);
                    match self.nodes[i].kind {
                        ShapeKind::Group(g) => {
                            assert forall|j: int| 0 <= j < g.children.len() implies (
                            #[trigger] g.children[j]).shape < i && self.parents[g.children[j].shape as int]
                                == Option::Some(i as usize) by {
                                assert(g.children[j].shape < i);
                            }
                        },
                        _ => {},
                    }
                } else {
                    assert(self.parents[i] == Option::<usize>::None);
                }
            }
        }
        idx
    }

    /// Add a unit sphere.
    pub fn add_sphere(&mut self, t: Transform, m: Material) -> (idx: usize)
        requires
            old(self).wf(),
            m.wf(),
            old(self).nodes.len() < 0x3fff_ffff,
        ensures
            final(self).wf(),
            idx == old(self).nodes.len(),
            final(self).nodes.len() == old(self).nodes.len() + 1,
            final(self).nodes[idx as int].kind is Sphere,
            final(self).nodes[idx as int].transform == t,
            final(self).nodes[idx as int].material == m,
            final(self).parents[idx as int] == Option::<usize>::None,
            forall|i: int|
                0 <= i < old(self).nodes.len() ==> final(self).nodes[i] == old(self).nodes[i]
                    && final(self).parents[i] == old(self).parents[i],
    {
        self.push_node(ShapeKind::Sphere, t, m)
    }

    /// Add the plane y = 0.
    pub fn add_plane(&mut self, t: Transform, m: Material) -> (idx: usize)
        requires
            old(self).wf(),
            m.wf(),
            old(self).nodes.len() < 0x3fff_ffff,
        ensures
            final(self).wf(),
            idx == old(self).nodes.len(),
            final(self).nodes.len() == old(self).nodes.len() + 1,
            final(self).nodes[idx as int].kind is Plane,
            final(self).nodes[idx as int].transform == t,
            final(self).nodes[idx as int].material == m,
            final(self).parents[idx as int] == Option::<usize>::None,
            forall|i: int|
                0 <= i < old(self).nodes.len() ==> final(self).nodes[i] == old(self).nodes[i]
                    && final(self).parents[i] == old(self).parents[i],
    {
        self.push_node(ShapeKind::Plane, t, m)
    }

    /// Add a unit cube.
    pub fn add_cube(&mut self, t: Transform, m: Material) -> (idx: usize)
        requires
            old(self).wf(),
            m.wf(),
            old(self).nodes.len() < 0x3fff_ffff,
        ensures
            final(self).wf(),
            idx == old(self).nodes.len(),
            final(self).nodes.len() == old(self).nodes.len() + 1,
            final(self).nodes[idx as int].kind is Cube,
            final(self).nodes[idx as int].transform == t,
            final(self).nodes[idx as int].material == m,
            final(self).parents[idx as int] == Option::<usize>::None,
            forall|i: int|
                0 <= i < old(self).nodes.len() ==> final(self).nodes[i] == old(self).nodes[i]
                    && final(self).parents[i] == old(self).parents[i],
    {
        self.push_node(ShapeKind::Cube, t, m)
    }

    /// Add a unit cylinder, capped when `closed` holds.
    pub fn add_cylinder(&mut self, t: Transform, m: Material, closed: bool) -> (idx: usize)
        requires
            old(self).wf(),
            m.wf(),
            old(self).nodes.len() < 0x3fff_ffff,
        ensures
            final(self).wf(),
            idx == old(self).nodes.len(),
            final(self).nodes.len() == old(self).nodes.len() + 1,
            final(self).nodes[idx as int].kind == (ShapeKind::Cylinder { closed }),
            final(self).nodes[idx as int].transform == t,
            final(self).nodes[idx as int].material == m,
            final(self).parents[idx as int] == Option::<usize>::None,
            forall|i: int|
                0 <= i < old(self).nodes.len() ==> final(self).nodes[i] == old(self).nodes[i]
                    && final(self).parents[i] == old(self).parents[i],
    {
        self.push_node(ShapeKind::Cylinder { closed }, t, m)
    }

    /// Add a triangle.  Triangles live in their group's space: they
    /// carry the identity transform and the default material, and a
    /// group later supplies both.
    pub fn add_triangle(&mut self, tri: Triangle) -> (idx: usize)
        requires
            old(self).wf(),
            old(self).nodes.len() < 0x3fff_ffff,
        ensures
            final(self).wf(),
            idx == old(self).nodes.len(),
            final(self).nodes.len() == old(self).nodes.len() + 1,
            final(self).nodes[idx as int].kind == ShapeKind::Triangle(tri),
            final(self).nodes[idx as int].transform == Transform::identity_s(),
            final(self).parents[idx as int] == Option::<usize>::None,
            forall|i: int|
                0 <= i < old(self).nodes.len() ==> final(self).nodes[i] == old(self).nodes[i]
                    && final(self).parents[i] == old(self).parents[i],
    {
        let m = Material::default();
        self.push_node(ShapeKind::Triangle(tri), Transform::identity(), m)
    }

    /// The world-space box of a shape: its local bounds carried
    /// through its own transform.
    #[verifier::opaque]
    pub open spec fn shape_world_bounds_s(self, c: int) -> Bounds {
        transform_bounds_s(self.local_bounds_s(c), self.nodes[c].transform.m)
    }

    /// The envelope of the first `k` children's transformed bounds.
    pub open spec fn group_bounds_s(self, children: Seq<usize>, k: int) -> Bounds
        decreases k,
    {
        if k <= 0 {
            crate::bounds::no_bounds_s()
        } else {
            reduce_s(
                self.group_bounds_s(children, k - 1),
                self.shape_world_bounds_s(children[k - 1] as int),
            )
        }
    }

    /// Add a group over previously added shapes.  Each child must not
    /// yet belong to a group; the group records each child's bounds
    /// in its own space, builds a hierarchy over them, and becomes
    /// the children's parent.
    #[verifier::rlimit(100)]
    #[verifier::spinoff_prover]
    pub fn add_group(&mut self, children: Vec<usize>, t: Transform, m: Material) -> (idx: usize)
        requires
            old(self).wf(),
            m.wf(),
            old(self).nodes.len() < 0x3fff_ffff,
            children.len() < 0x4000_0000,
            forall|k: int|
                0 <= k < children.len() ==> (#[trigger] children[k]) < old(self).nodes.len()
                    && old(self).parents[children[k] as int] is None,
        ensures
            final(self).wf(),
            idx == old(self).nodes.len(),
            final(self).nodes.len() == old(self).nodes.len() + 1,
            final(self).nodes[idx as int].transform == t,
            final(self).nodes[idx as int].material == m,
            final(self).parents[idx as int] == Option::<usize>::None,
            final(self).nodes[idx as int].kind matches ShapeKind::Group(g) && g.children.len()
                == children.len() && (forall|k: int|
                0 <= k < children.len() ==> (#[trigger] g.children[k]).shape == children[k])
                && g.bounds == old(self).group_bounds_s(children@, children.len() as int),
            forall|i: int|
                0 <= i < old(self).nodes.len() ==> final(self).nodes[i] == old(self).nodes[i],
            forall|k: int|
                0 <= k < children.len() ==> final(self).parents[children[k] as int]
                    == Option::Some(idx),
            forall|i: int|
                0 <= i < old(self).nodes.len() && !(exists|k: int|
                    0 <= k < children.len() && children[k] == i) ==> final(self).parents[i] == old(
                    self,
                ).parents[i],
    {
        let idx = self.nodes.len();
        let n = children.len();
        // turn the children's parent entries toward the group
        let mut k: usize = 0;
        while k < n
            invariant
                0 <= k <= n,
                n == children.len(),
                idx == old(self).nodes.len(),
                self.nodes == old(self).nodes,
                self.parents.len() == old(self).parents.len(),
                forall|j: int|
                    0 <= j < children.len() ==> (#[trigger] children[j]) < old(self).nodes.len(),
                forall|j: int|
                    0 <= j < k ==> self.parents[(#[trigger] children[j]) as int] == Option::Some(
                        idx,
                    ),
                forall|i: int|
                    0 <= i < self.parents.len() && !(exists|j: int|
                        0 <= j < children.len() && #[trigger] children[j] == i)
                        ==> self.parents[i] == old(self).parents[i],
                old(self).wf(),
            decreases n - k,
        {
            let c = *children.get(k).unwrap();
            self.parents.set(c, Option::Some(idx));
            k = k + 1;
        }
        // the children's boxes in the group's space
        let mut cb: Vec<Bounds> = Vec::new();
        let mut acc = crate::bounds::no_bounds();
        k = 0;
        while k < n
            invariant
                0 <= k <= n,
                n == children.len(),
                self.nodes == old(self).nodes,
                cb.len() == k,
                forall|j: int|
                    0 <= j < children.len() ==> (#[trigger] children[j]) < self.nodes.len(),
                forall|j: int|
                    0 <= j < k ==> cb[j] == old(self).shape_world_bounds_s(
                        (#[trigger] children[j]) as int,
                    ),
                acc == old(self).group_bounds_s(children@, k as int),
            decreases n - k,
        {
            let c = *children.get(k).unwrap();
            let lb = self.local_bounds(c);
            let wb = transform_bounds(&lb, &self.nodes.get(c).unwrap().transform.m);
            proof {
                reveal(ShapeSet::shape_world_bounds_s);
                assert(wb == old(self).shape_world_bounds_s(c as int));
            }
            acc = crate::bounds::bounds_reducer(&acc, &wb);
            cb.push(wb);
            k = k + 1;
        }
        // the hierarchy over the children
        let (bvh, leaf_of) = Bvh::build(&cb);
        let mut entries: Vec<BoundedChild> = Vec::new();
        k = 0;
        while k < n
            invariant
                0 <= k <= n,
                n == children.len(),
                cb.len() == n,
                leaf_of.len() == n,
                entries.len() == k,
                forall|j: int|
                    0 <= j < k ==> (#[trigger] entries[j]).shape == children[j]
                        && entries[j].bh_index == leaf_of[j] && entries[j].bounds == cb[j],
            decreases n - k,
        {
            entries.push(
                BoundedChild {
                    shape: *children.get(k).unwrap(),
                    bounds: *cb.get(k).unwrap(),
                    bh_index: *leaf_of.get(k).unwrap(),
                },
            );
            k = k + 1;
        }
        let g = GroupData { children: entries, bvh, bounds: acc };
        let ghost gg = g;
        self.nodes.push(ShapeNode { kind: ShapeKind::Group(g), transform: t, material: m });
        self.parents.push(Option::None);
        proof {
            assert(ShapeSet::bh_indices_s(gg) =~= leaf_of@);
            assert(gg.children@.map_values(|c: BoundedChild| c.bounds) =~= cb@);
            lemma_group_wf(*old(self), *self, children@, gg);
        }
        idx
    }
}

/// Adding a group over parentless children keeps the arena
/// well-formed: the new group's child list and the children's new
/// parent entries agree, and nothing else moved.
#[verifier::spinoff_prover]
proof fn lemma_group_wf(prev: ShapeSet, cur: ShapeSet, children: Seq<usize>, gg: GroupData)
    requires
        prev.wf(),
        cur.nodes.len() == prev.nodes.len() + 1,
        cur.parents.len() == cur.nodes.len(),
        cur.nodes.len() < 0x4000_0000,
        children.len() < 0x4000_0000,
        forall|i: int| 0 <= i < prev.nodes.len() ==> cur.nodes[i] == prev.nodes[i],
        cur.nodes[prev.nodes.len() as int].kind == ShapeKind::Group(gg),
        cur.nodes[prev.nodes.len() as int].material.wf(),
        cur.parents[prev.nodes.len() as int] is None,
        forall|k: int|
            0 <= k < children.len() ==> (#[trigger] children[k]) < prev.nodes.len()
                && prev.parents[children[k] as int] is None,
        gg.children.len() == children.len(),
        forall|k: int| 0 <= k < children.len() ==> (#[trigger] gg.children[k]).shape == children[k],
        gg.bvh.leaves_match(ShapeSet::bh_indices_s(gg), gg.children.len() as int),
        gg.bvh.links_ok(),
        gg.children.len() > 0 ==> crate::bvh::subtree_wf(
            gg.bvh.nodes@,
            gg.children@.map_values(|c: BoundedChild| c.bounds),
            0,
            gg.bvh.nodes.len() as int,
            0,
            gg.children.len() as int,
            0,
        ),
        forall|j: int|
            0 <= j < gg.children.len() ==> (#[trigger] gg.children[j]).bh_index
                < gg.bvh.nodes.len() && is_leaf_with(
                gg.bvh.nodes[gg.children[j].bh_index as int],
                j,
            ),
        forall|k: int|
            0 <= k < children.len() ==> cur.parents[(#[trigger] children[k]) as int]
                == Option::Some(prev.nodes.len() as usize),
        forall|i: int|
            0 <= i < prev.parents.len() && !(exists|k: int|
                0 <= k < children.len() && #[trigger] children[k] == i) ==> cur.parents[i]
                == prev.parents[i],
        prev.parents.len() == prev.nodes.len(),
    ensures
        cur.wf(),
{
    let idx = prev.nodes.len() as int;
    assert forall|i: int| 0 <= i < cur.nodes.len() implies cur.node_wf(i) by {
        if i < idx {
            assert(prev.node_wf(i));
            assert(cur.nodes[i] == prev.nodes[i]);
            assert(cur.group_ok(i)) by {
                match cur.nodes[i].kind {
                    ShapeKind::Group(og) => {
                        assert forall|j: int| 0 <= j < og.children.len() implies (
                        #[trigger] og.children[j]).shape < i && cur.parents[og.children[j].shape as int]
                            == Option::Some(i as usize) by {
                            let c = og.children[j].shape;
                            assert(prev.parents[c as int] == Option::Some(i as usize));
                            if exists|q: int| 0 <= q < children.len() && #[trigger] children[q]
                                == c {
                                let q = choose|q: int|
                                    0 <= q < children.len() && #[trigger] children[q] == c;
                                assert(prev.parents[children[q] as int] is None);
                                assert(false);
                            }
                        }
                    },
                    _ => {},
                }
            }
            assert(cur.parent_ok(i)) by {
                if exists|q: int| 0 <= q < children.len() && #[trigger] children[q] == i {
                    let q = choose|q: int| 0 <= q < children.len() && #[trigger] children[q] == i;
                    assert(cur.parents[i] == Option::Some(idx as usize));
                    match cur.nodes[idx].kind {
                        ShapeKind::Group(g2) => {
                            assert(g2 == gg);
                            assert(0 <= q < g2.children.len() && (#[trigger] g2.children[q]).shape
                                == i);
                        },
                        _ => {
                            assert(false);
                        },
                    }
                } else {
                    assert(cur.parents[i] == prev.parents[i]);
                    match cur.parents[i] {
                        Option::Some(p) => {
                            assert(i < p < prev.nodes.len());
                            assert(cur.nodes[p as int] == prev.nodes[p as int]);
                            assert(prev.parent_ok(i));
                        },
                        Option::None => {},
                    }
                }
            }
        } else {
            assert(i == idx);
            assert(cur.parents[i] is None);
            assert(cur.parent_ok(i));
            assert(cur.group_ok(i)) by {
                assert(cur.nodes[i].kind == ShapeKind::Group(gg));
                assert forall|j: int| 0 <= j < gg.children.len() implies (
                #[trigger] gg.children[j]).shape < i && cur.parents[gg.children[j].shape as int]
                    == Option::Some(i as usize) by {
                    assert(gg.children[j].shape == children[j]);
                    assert(children[j] < idx);
                }
            }
        }
    }
}

/// In a well-formed arena a child's back-reference resolves to the
/// group that holds it: if a group lists a child, that child's parent
/// entry names the group.
pub proof fn lemma_child_backref(s: ShapeSet, g: int, j: int)
    requires
        s.wf(),
        0 <= g < s.nodes.len(),
        s.nodes[g].kind matches ShapeKind::Group(gd) && 0 <= j < gd.children.len(),
    ensures
        s.nodes[g].kind matches ShapeKind::Group(gd) ==> s.parents[gd.children[j].shape as int]
            == Option::Some(g as usize),
{
    assert(s.node_wf(g));
}

/// In a well-formed arena every leaf of a group's hierarchy holds the
/// index of exactly one of its children, and that child records the
/// leaf: `children[leaf.shape].bh_index` is the index of the leaf.
pub proof fn lemma_bvh_leaf_backref(s: ShapeSet, g: int, li: int, cj: int)
    requires
        s.wf(),
        0 <= g < s.nodes.len(),
        s.nodes[g].kind matches ShapeKind::Group(gd) && 0 <= li < gd.bvh.nodes.len()
            && is_leaf_with(gd.bvh.nodes[li], cj),
    ensures
        s.nodes[g].kind matches ShapeKind::Group(gd) ==> 0 <= cj < gd.children.len()
            && gd.children[cj].bh_index == li,
{
    assert(s.node_wf(g));
    match s.nodes[g].kind {
        ShapeKind::Group(gd) => {
            assert(gd.bvh.leaves_match(ShapeSet::bh_indices_s(gd), gd.children.len() as int));
            assert(is_leaf_with(gd.bvh.nodes[li], cj));
            assert(0 <= cj < gd.children.len() && ShapeSet::bh_indices_s(gd)[cj] == li);
            assert(ShapeSet::bh_indices_s(gd)[cj] == gd.children[cj].bh_index);
        },
        _ => {},
    }
}

} // verus!
