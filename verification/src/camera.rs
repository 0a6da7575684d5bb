//! The camera: view rays and the render loop.

use vstd::prelude::*;

use crate::canvas::Canvas;
use crate::color::{Color, gamma_byte_s};
use crate::fx::{FX_ONE, fx_div, fx_div_s, fx_mul, fx_mul_s, fx_sub, fx_sub_s, sat64};
use crate::matrix::map_point_s;
use crate::ray::Ray;
use crate::transform::Transform;
use crate::tuple::{Point, sat_wide};
use crate::world::World;

verus! {

/// A camera: the raster size, the view transform, the half extents
/// of the canvas one unit in front of the eye, the world size of one
/// pixel, and the depth budget for bounces.
#[derive(Clone, Copy, Debug)]
pub struct Camera {
    pub h_size: usize,
    pub v_size: usize,
    pub transform: Transform,
    pub half_width: i64,
    pub half_height: i64,
    pub pixel_size: i64,
    pub max_reflects: u8,
}

/// The half extents and pixel size a camera derives from its raster
/// size and half field of view: the larger dimension spans the half
/// view, the smaller scales down by the aspect ratio.
pub open spec fn camera_dims_s(h_size: int, v_size: int, half_view: int) -> (int, int, int) {
    let aspect = fx_div_s(sat64(h_size * FX_ONE), sat64(v_size * FX_ONE));
    let half_width = if aspect >= FX_ONE {
        half_view
    } else {
        fx_mul_s(half_view, aspect)
    };
    let half_height = if aspect >= FX_ONE {
        fx_div_s(half_view, aspect)
    } else {
        half_view
    };
    let pixel_size = fx_div_s(sat64(half_width + half_width), sat64(h_size * FX_ONE));
    (half_width, half_height, pixel_size)
}

impl Camera {
    /// Build a camera from the raster size and the tangent of half
    /// the field of view, looking along the identity transform with a
    /// depth budget of five bounces.
    pub fn new(h_size: usize, v_size: usize, half_view: i64) -> (res: Camera)
        requires
            0 < h_size < 0x10000_0000,
            0 < v_size < 0x10000_0000,
        ensures
            res.h_size == h_size,
            res.v_size == v_size,
            res.transform == Transform::identity_s(),
            res.max_reflects == 5,
            (res.half_width as int, res.half_height as int, res.pixel_size as int)
                == camera_dims_s(h_size as int, v_size as int, half_view as int),
    {
        proof {
            assert((h_size as i128) * (FX_ONE as i128) <= 0x1_0000_0000i128 * 65536
                && (h_size as i128) * (FX_ONE as i128) >= 0) by (nonlinear_arith)
                requires
                    0 <= h_size as i128 <= 0x1_0000_0000i128,
            ;
            assert((v_size as i128) * (FX_ONE as i128) <= 0x1_0000_0000i128 * 65536
                && (v_size as i128) * (FX_ONE as i128) >= 0) by (nonlinear_arith)
                requires
                    0 <= v_size as i128 <= 0x1_0000_0000i128,
            ;
        }
        let hfx = sat_wide((h_size as i128) * (FX_ONE as i128));
        let vfx = sat_wide((v_size as i128) * (FX_ONE as i128));
        let aspect = fx_div(hfx, vfx);
        let (half_width, half_height) = if aspect >= FX_ONE {
            (half_view, fx_div(half_view, aspect))
        } else {
            (fx_mul(half_view, aspect), half_view)
        };
        let pixel_size = fx_div(sat_wide(half_width as i128 + half_width as i128), hfx);
        Camera {
            h_size,
            v_size,
            transform: Transform::identity(),
            half_width,
            half_height,
            pixel_size,
            max_reflects: 5,
        }
    }

    /// Aim the camera: the world is drawn through this transform's
    /// inverse.
    pub fn set_transform(&mut self, t: Transform)
        ensures
            *final(self) == (Camera { transform: t, ..*old(self) }),
    {
        self.transform = t;
    }

    /// The ray through the center of pixel `(x, y)`, as a spec
    /// value: the pixel's point on the canvas one unit in front of
    /// the eye is mapped through the camera's inverse transform, as
    /// is the eye itself, and the direction runs from the eye to the
    /// pixel, normalized.
    pub open spec fn ray_for_pixel_s(self, x: int, y: int) -> Ray {
        let x_off = fx_mul_s(sat64(x * FX_ONE + FX_ONE / 2), self.pixel_size as int);
        let y_off = fx_mul_s(sat64(y * FX_ONE + FX_ONE / 2), self.pixel_size as int);
        let world_x = fx_sub_s(self.half_width as int, x_off);
        let world_y = fx_sub_s(self.half_height as int, y_off);
        let pixel = map_point_s(
            self.transform.inv,
            Point { x: world_x as i64, y: world_y as i64, z: (-(FX_ONE as int)) as i64 },
        );
        let origin = map_point_s(self.transform.inv, Point { x: 0, y: 0, z: 0 });
        let direction = pixel.minus_point_s(origin).normalize_s();
        Ray { origin, direction }
    }

    /// The ray through the center of pixel `(x, y)`.
    pub fn ray_for_pixel(&self, x: usize, y: usize) -> (res: Ray)
        requires
            x < 0x10000_0000,
            y < 0x10000_0000,
        ensures
            res == self.ray_for_pixel_s(x as int, y as int),
    {
        proof {
            assert(0 <= (x as i128) * (FX_ONE as i128) <= 0x1_0000_0000i128 * 65536)
                by (nonlinear_arith)
                requires
                    0 <= x as i128 <= 0x1_0000_0000i128,
            ;
            assert(0 <= (y as i128) * (FX_ONE as i128) <= 0x1_0000_0000i128 * 65536)
                by (nonlinear_arith)
                requires
                    0 <= y as i128 <= 0x1_0000_0000i128,
            ;
        }
        let xc = sat_wide((x as i128) * (FX_ONE as i128) + (FX_ONE as i128) / 2);
        let yc = sat_wide((y as i128) * (FX_ONE as i128) + (FX_ONE as i128) / 2);
        let x_off = fx_mul(xc, self.pixel_size);
        let y_off = fx_mul(yc, self.pixel_size);
        let world_x = fx_sub(self.half_width, x_off);
        let world_y = fx_sub(self.half_height, y_off);
        let pixel = self.transform.inv.mul_point(&Point { x: world_x, y: world_y, z: -FX_ONE });
        let origin = self.transform.inv.mul_point(&Point { x: 0, y: 0, z: 0 });
        let direction = pixel.minus_point(&origin).normalize();
        Ray { origin, direction }
    }

    /// Pixel `(x, y)` of a canvas holds the gamma-encoded bytes of
    /// the spec color of this camera's ray through it.
    #[verifier::opaque]
    pub open spec fn pixel_ok_s(self, world: World, canvas: Canvas, x: int, y: int) -> bool {
        let idx = 3 * (x + y * self.h_size);
        let c = world.color_at_s(self.ray_for_pixel_s(x, y), self.max_reflects as int);
        &&& canvas.frame_buffer[idx] == gamma_byte_s(c.r as int)
        &&& canvas.frame_buffer[idx + 1] == gamma_byte_s(c.g as int)
        &&& canvas.frame_buffer[idx + 2] == gamma_byte_s(c.b as int)
    }

    /// Pixel `(x, y)` of a canvas holds the gamma-encoded bytes of
    /// some color the ray through it relates to — whatever jitter
    /// the area lights drew.
    #[verifier::opaque]
    pub open spec fn pixel_rel_ok_s(self, world: World, canvas: Canvas, x: int, y: int) -> bool {
        let idx = 3 * (x + y * self.h_size);
        exists|c: Color|
            {
                &&& world.color_at_rel(self.ray_for_pixel_s(x, y), self.max_reflects as int, c)
                &&& canvas.frame_buffer[idx] == #[trigger] gamma_byte_s(c.r as int)
                &&& canvas.frame_buffer[idx + 1] == gamma_byte_s(c.g as int)
                &&& canvas.frame_buffer[idx + 2] == gamma_byte_s(c.b as int)
            }
    }

    /// Render the world: one ray per pixel, the resulting color
    /// gamma-encoded into the canvas.  Rows and pixels are
    /// independent; this loop walks them in order.  With
    /// deterministic lights every pixel of the result is exactly the
    /// encoded spec color of its ray.
    #[verifier::rlimit(100)]
    #[verifier::spinoff_prover]
    pub fn render(&self, world: &World) -> (res: Canvas)
        requires
            world.wf(),
            self.h_size * self.v_size * 3 < 0x1_0000_0000,
            0 < self.h_size < 0x10000_0000,
            0 < self.v_size < 0x10000_0000,
        ensures
            res.width == self.h_size,
            res.height == self.v_size,
            res.frame_buffer.len() == self.h_size * self.v_size * 3,
            world.deterministic_lights() ==> forall|x: int, y: int|
                0 <= x < self.h_size && 0 <= y < self.v_size ==> #[trigger] self.pixel_ok_s(
                    *world,
                    res,
                    x,
                    y,
                ),
            forall|x: int, y: int|
                0 <= x < self.h_size && 0 <= y < self.v_size ==> #[trigger] self.pixel_rel_ok_s(
                    *world,
                    res,
                    x,
                    y,
                ),
    {
        let mut canvas = Canvas::new(self.h_size, self.v_size);
        let mut y: usize = 0;
        while y < self.v_size
            invariant
                world.wf(),
                canvas.width == self.h_size,
                canvas.height == self.v_size,
                canvas.frame_buffer.len() == self.h_size * self.v_size * 3,
                0 <= y <= self.v_size,
                0 < self.h_size < 0x10000_0000,
                0 < self.v_size < 0x10000_0000,
                world.deterministic_lights() ==> forall|xx: int, yy: int|
                    0 <= xx < self.h_size && 0 <= yy < y ==> #[trigger] self.pixel_ok_s(
                        *world,
                        canvas,
                        xx,
                        yy,
                    ),
                forall|xx: int, yy: int|
                    0 <= xx < self.h_size && 0 <= yy < y ==> #[trigger] self.pixel_rel_ok_s(
                        *world,
                        canvas,
                        xx,
                        yy,
                    ),
            decreases self.v_size - y,
        {
            let mut x: usize = 0;
            while x < self.h_size
                invariant
                    world.wf(),
                    canvas.width == self.h_size,
                    canvas.height == self.v_size,
                    canvas.frame_buffer.len() == self.h_size * self.v_size * 3,
                    0 <= x <= self.h_size,
                    y < self.v_size,
                    0 < self.h_size < 0x10000_0000,
                    0 < self.v_size < 0x10000_0000,
                    world.deterministic_lights() ==> forall|xx: int, yy: int|
                        0 <= xx < self.h_size && 0 <= yy < y ==> #[trigger] self.pixel_ok_s(
                            *world,
                            canvas,
                            xx,
                            yy,
                        ),
                    world.deterministic_lights() ==> forall|xx: int|
                        0 <= xx < x ==> #[trigger] self.pixel_ok_s(*world, canvas, xx, y as int),
                    forall|xx: int, yy: int|
                        0 <= xx < self.h_size && 0 <= yy < y ==> #[trigger] self.pixel_rel_ok_s(
                            *world,
                            canvas,
                            xx,
                            yy,
                        ),
                    forall|xx: int|
                        0 <= xx < x ==> #[trigger] self.pixel_rel_ok_s(
                            *world,
                            canvas,
                            xx,
                            y as int,
                        ),
                decreases self.h_size - x,
            {
                let ray = self.ray_for_pixel(x, y);
                let color = world.color_at(&ray, self.max_reflects);
                let ghost before = canvas;
                canvas.set(x, y, color.to_byte());
                proof {
                    if world.deterministic_lights() {
                        assert forall|xx: int, yy: int|
                            0 <= xx < self.h_size && 0 <= yy < self.v_size && (yy < y || (yy
                                == y && xx < x)) && self.pixel_ok_s(
                                *world,
                                before,
                                xx,
                                yy,
                            ) implies #[trigger] self.pixel_ok_s(*world, canvas, xx, yy) by {
                            reveal(Camera::pixel_ok_s);
                            crate::canvas::lemma_idx_in_bounds(
                                self.h_size as int,
                                self.v_size as int,
                                xx,
                                yy,
                            );
                            lemma_pixel_offsets_distinct(
                                self.h_size as int,
                                xx,
                                yy,
                                x as int,
                                y as int,
                            );
                        }
                        assert(self.pixel_ok_s(*world, canvas, x as int, y as int)) by {
                            reveal(Camera::pixel_ok_s);
                        }
                    }
                    assert forall|xx: int, yy: int|
                        0 <= xx < self.h_size && 0 <= yy < self.v_size && (yy < y || (yy == y
                            && xx < x)) && self.pixel_rel_ok_s(
                            *world,
                            before,
                            xx,
                            yy,
                        ) implies #[trigger] self.pixel_rel_ok_s(*world, canvas, xx, yy) by {
                        reveal(Camera::pixel_rel_ok_s);
                        crate::canvas::lemma_idx_in_bounds(
                            self.h_size as int,
                            self.v_size as int,
                            xx,
                            yy,
                        );
                        lemma_pixel_offsets_distinct(
                            self.h_size as int,
                            xx,
                            yy,
                            x as int,
                            y as int,
                        );
                    }
                    assert(self.pixel_rel_ok_s(*world, canvas, x as int, y as int)) by {
                        reveal(Camera::pixel_rel_ok_s);
                        assert(world.color_at_rel(
                            self.ray_for_pixel_s(x as int, y as int),
                            self.max_reflects as int,
                            color,
                        ));
                    }
                }
                x = x + 1;
            }
            y = y + 1;
        }
        canvas
    }
}

/// Two different pixels occupy disjoint byte triples: their offsets
/// differ by at least three.
proof fn lemma_pixel_offsets_distinct(w: int, x1: int, y1: int, x2: int, y2: int)
    requires
        0 <= x1 < w,
        0 <= x2 < w,
        0 <= y1,
        0 <= y2,
        !(x1 == x2 && y1 == y2),
    ensures
        3 * (x1 + y1 * w) + 2 < 3 * (x2 + y2 * w) || 3 * (x2 + y2 * w) + 2 < 3 * (x1 + y1 * w),
{
    assert(x1 + y1 * w != x2 + y2 * w) by (nonlinear_arith)
        requires
            0 <= x1 < w,
            0 <= x2 < w,
            0 <= y1,
            0 <= y2,
            !(x1 == x2 && y1 == y2),
    ;
}

} // verus!
