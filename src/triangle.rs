use vstd::prelude::*;

use crate::color::Color;
use crate::framebuffer::cell_index;
use crate::framebuffer::in_bounds;
use crate::framebuffer::lemma_cell_index_injective;
use crate::framebuffer::lemma_cell_index_range;
use crate::framebuffer::Image;
use crate::raster_line::floor_div;
use crate::raster_line::max;
use crate::raster_line::min;
use crate::raster_line::painted;

verus! {

/// A projected vertex: integer pixel coordinates and a depth.
#[derive(Clone, Copy, Debug, PartialEq, Eq, Structural)]
pub struct ScreenPoint {
    pub x: i32,
    pub y: i32,
    pub z: i32,
}

/// Barycentric weights of a pixel as fractions `w0 / denom`, `w1 / denom`,
/// `w2 / denom` of one positive denominator; they sum to one.
#[derive(Clone, Copy, Debug, PartialEq, Eq, Structural)]
pub struct Barycentric {
    pub w0: i128,
    pub w1: i128,
    pub w2: i128,
    pub denom: i128,
}

/// `z` component of `(C.x-A.x, B.x-A.x, A.x-P.x) x (C.y-A.y, B.y-A.y, A.y-P.y)`:
/// twice the signed area of the triangle.
pub open spec fn cross_z(a: ScreenPoint, b: ScreenPoint, c: ScreenPoint) -> int {
    (c.x - a.x) * (b.y - a.y) - (b.x - a.x) * (c.y - a.y)
}

/// `x` component of the same cross product: the weight of `C` times `cross_z`.
pub open spec fn cross_x(a: ScreenPoint, b: ScreenPoint, px: int, py: int) -> int {
    (b.x - a.x) * (a.y - py) - (a.x - px) * (b.y - a.y)
}

/// `y` component of the same cross product: the weight of `B` times `cross_z`.
pub open spec fn cross_y(a: ScreenPoint, c: ScreenPoint, px: int, py: int) -> int {
    (a.x - px) * (c.y - a.y) - (c.x - a.x) * (a.y - py)
}

/// The barycentric weights of `(px, py)` as numerators `(w0, w1, w2)` over
/// the positive denominator `denom`; meaningful when the triangle has area.
pub open spec fn weights(a: ScreenPoint, b: ScreenPoint, c: ScreenPoint, px: int, py: int) -> (int, int, int, int) {
    let uz = cross_z(a, b, c);
    let ux = cross_x(a, b, px, py);
    let uy = cross_y(a, c, px, py);
    if uz > 0 {
        (uz - ux - uy, uy, ux, uz)
    } else {
        (ux + uy - uz, -uy, -ux, -uz)
    }
}

/// Whether the triangle has no area on screen.
pub open spec fn degenerate(a: ScreenPoint, b: ScreenPoint, c: ScreenPoint) -> bool {
    cross_z(a, b, c) == 0
}

/// Whether `(px, py)` passes the barycentric test: the triangle has area and
/// no weight is negative (edges included).
pub open spec fn inside(a: ScreenPoint, b: ScreenPoint, c: ScreenPoint, px: int, py: int) -> bool {
    let (w0, w1, w2, d) = weights(a, b, c, px, py);
    !degenerate(a, b, c) && w0 >= 0 && w1 >= 0 && w2 >= 0
}

/// The depth at `(px, py)` interpolated from the vertices' depths by the
/// barycentric weights, rounded down.
pub open spec fn depth(a: ScreenPoint, b: ScreenPoint, c: ScreenPoint, px: int, py: int) -> int {
    let (w0, w1, w2, d) = weights(a, b, c, px, py);
    (a.z * w0 + b.z * w1 + c.z * w2) / d
}

/// Whether `(px, py)` lies in the axis-aligned bounding box of the triangle.
pub open spec fn in_bbox(a: ScreenPoint, b: ScreenPoint, c: ScreenPoint, px: int, py: int) -> bool {
    &&& min(a.x as int, min(b.x as int, c.x as int)) <= px <= max(a.x as int, max(b.x as int, c.x as int))
    &&& min(a.y as int, min(b.y as int, c.y as int)) <= py <= max(a.y as int, max(b.y as int, c.y as int))
}

/// Whether the rasterizer fills `(px, py)` for the triangle: the pixel
/// passes the barycentric test.
pub open spec fn covered(t: [ScreenPoint; 3], px: int, py: int) -> bool {
    inside(t[0], t[1], t[2], px, py)
}

/// The interpolated depth of the triangle at `(px, py)`.
pub open spec fn depth_at(t: [ScreenPoint; 3], px: int, py: int) -> int {
    depth(t[0], t[1], t[2], px, py)
}

/// Depth and color at `(px, py)` after the depth-tested fill of triangle `t`
/// in `color`, from stored depth `z` and color `c`: the triangle wins where
/// it covers the pixel with a strictly greater depth.
pub open spec fn shade(t: [ScreenPoint; 3], color: Color, z: int, c: Color, px: int, py: int) -> (int, Color) {
    if covered(t, px, py) && depth_at(t, px, py) > z {
        (depth_at(t, px, py), color)
    } else {
        (z, c)
    }
}

/// Index of the pixel `(x, y)` in a depth buffer of row width `width`.
pub open spec fn depth_index(width: int, x: int, y: int) -> int {
    y * width + x
}

/// Barycentric weights of the pixel `(px, py)` in the triangle; `None` when
/// the triangle has no area, so that every pixel is rejected.
pub fn to_barycentric(px: i32, py: i32, triangle: &[ScreenPoint; 3]) -> (r: Option<Barycentric>)
    ensures
        r is None <==> degenerate(triangle[0], triangle[1], triangle[2]),
        r matches Some(w) ==> (w.w0 as int, w.w1 as int, w.w2 as int, w.denom as int) == weights(
            triangle[0],
            triangle[1],
            triangle[2],
            px as int,
            py as int,
        ),
        r matches Some(w) ==> w.denom > 0 && w.w0 + w.w1 + w.w2 == w.denom,
        r matches Some(w) ==> {
            &&& -0x100_0000_0000_0000_0000 < w.w0 < 0x100_0000_0000_0000_0000
            &&& -0x100_0000_0000_0000_0000 < w.w1 < 0x100_0000_0000_0000_0000
            &&& -0x100_0000_0000_0000_0000 < w.w2 < 0x100_0000_0000_0000_0000
        },
{
    let a = triangle[0];
    let b = triangle[1];
    let c = triangle[2];
    let ax: i128 = a.x as i128;
    let ay: i128 = a.y as i128;
    let bx: i128 = b.x as i128;
    let by: i128 = b.y as i128;
    let cx: i128 = c.x as i128;
    let cy: i128 = c.y as i128;
    let px: i128 = px as i128;
    let py: i128 = py as i128;
    proof {
        lemma_small_product(cx - ax, by - ay);
        lemma_small_product(bx - ax, cy - ay);
        lemma_small_product(bx - ax, ay - py);
        lemma_small_product(ax - px, by - ay);
        lemma_small_product(ax - px, cy - ay);
        lemma_small_product(cx - ax, ay - py);
    }
    let uz: i128 = (cx - ax) * (by - ay) - (bx - ax) * (cy - ay);
    let ux: i128 = (bx - ax) * (ay - py) - (ax - px) * (by - ay);
    let uy: i128 = (ax - px) * (cy - ay) - (cx - ax) * (ay - py);
    if uz == 0 {
        None
    } else if uz > 0 {
        Some(Barycentric { w0: uz - ux - uy, w1: uy, w2: ux, denom: uz })
    } else {
        Some(Barycentric { w0: ux + uy - uz, w1: -uy, w2: -ux, denom: -uz })
    }
}

proof fn lemma_small_product(p: int, q: int)
    requires
        -0x4_0000_0000 < p < 0x4_0000_0000,
        -0x4_0000_0000 < q < 0x4_0000_0000,
    ensures
        -0x10_0000_0000_0000_0000 < p * q < 0x10_0000_0000_0000_0000,
{
    assert(-0x10_0000_0000_0000_0000 < p * q < 0x10_0000_0000_0000_0000) by (nonlinear_arith)
        requires
            -0x4_0000_0000 < p < 0x4_0000_0000,
            -0x4_0000_0000 < q < 0x4_0000_0000,
    ;
}

proof fn lemma_depth_range(za: int, zb: int, zc: int, w0: int, w1: int, w2: int, d: int)
    requires
        i32::MIN <= za <= i32::MAX,
        i32::MIN <= zb <= i32::MAX,
        i32::MIN <= zc <= i32::MAX,
        w0 >= 0,
        w1 >= 0,
        w2 >= 0,
        w0 + w1 + w2 == d,
        d > 0,
    ensures
        i32::MIN <= (za * w0 + zb * w1 + zc * w2) / d <= i32::MAX,
{
    let lo = i32::MIN as int;
    let hi = i32::MAX as int;
    let n = za * w0 + zb * w1 + zc * w2;
    assert(lo * d <= n <= hi * d) by (nonlinear_arith)
        requires
            lo <= za <= hi,
            lo <= zb <= hi,
            lo <= zc <= hi,
            w0 >= 0,
            w1 >= 0,
            w2 >= 0,
            w0 + w1 + w2 == d,
            n == za * w0 + zb * w1 + zc * w2,
    ;
    let q = n / d;
    vstd::arithmetic::div_mod::lemma_fundamental_div_mod(n, d);
    let r = n % d;
    assert(lo <= q <= hi) by (nonlinear_arith)
        requires
            n == d * q + r,
            0 <= r < d,
            lo * d <= n <= hi * d,
    {
        if q > hi {
            assert(d * q >= d * (hi + 1));
        }
        if q < lo {
            assert(d * q <= d * (lo - 1));
        }
    }
}

/// The smallest and largest `x`, then the smallest and largest `y`, of the
/// triangle's vertices.
fn bounding_box(triangle: &[ScreenPoint; 3]) -> (r: (i128, i128, i128, i128))
    ensures
        r.0 == min(triangle[0].x as int, min(triangle[1].x as int, triangle[2].x as int)),
        r.1 == max(triangle[0].x as int, max(triangle[1].x as int, triangle[2].x as int)),
        r.2 == min(triangle[0].y as int, min(triangle[1].y as int, triangle[2].y as int)),
        r.3 == max(triangle[0].y as int, max(triangle[1].y as int, triangle[2].y as int)),
{
    let a = triangle[0];
    let b = triangle[1];
    let c = triangle[2];
    let lo_x: i128 = if a.x <= b.x && a.x <= c.x { a.x as i128 } else if b.x <= c.x { b.x as i128 } else { c.x as i128 };
    let hi_x: i128 = if a.x >= b.x && a.x >= c.x { a.x as i128 } else if b.x >= c.x { b.x as i128 } else { c.x as i128 };
    let lo_y: i128 = if a.y <= b.y && a.y <= c.y { a.y as i128 } else if b.y <= c.y { b.y as i128 } else { c.y as i128 };
    let hi_y: i128 = if a.y >= b.y && a.y >= c.y { a.y as i128 } else if b.y >= c.y { b.y as i128 } else { c.y as i128 };
    (lo_x, hi_x, lo_y, hi_y)
}

/// Fills the triangle in `color` with no depth test: every pixel of the
/// image that passes the barycentric test takes the color, whatever was
/// drawn there before. Only the triangle's bounding box, clamped to the
/// image, is scanned.
pub fn fill_triangle_flat(image: &mut Image, color: &Color, triangle: &[ScreenPoint; 3])
    requires
        old(image).wf(),
    ensures
        painted(*final(image), *old(image), *color, |px: int, py: int| covered(*triangle, px, py)),
{
    let ghost img0 = *image;
    let ghost t = *triangle;
    proof {
        lemma_inside_in_bbox(t);
    }
    let ghost w = image.spec_width();
    let ghost h = image.spec_height();
    let width: usize = image.width();
    let height: usize = image.height();
    if width == 0 || height == 0 {
        return;
    }
    let (lo_x, hi_x, lo_y, hi_y) = bounding_box(triangle);
    let min_x: i128 = if lo_x < 0 { 0 } else { lo_x };
    let min_y: i128 = if lo_y < 0 { 0 } else { lo_y };
    let max_x: i128 = if hi_x > width as i128 - 1 { width as i128 - 1 } else { hi_x };
    let max_y: i128 = if hi_y > height as i128 - 1 { height as i128 - 1 } else { hi_y };
    let mut x: i128 = min_x;
    while x <= max_x
        invariant
            image.wf(),
            image.spec_width() == w,
            image.spec_height() == h,
            w == width,
            h == height,
            w == img0.spec_width(),
            h == img0.spec_height(),
            t == *triangle,
            forall|px: int, py: int| #[trigger] inside(t[0], t[1], t[2], px, py) ==> in_bbox(t[0], t[1], t[2], px, py),
            lo_x == min(t[0].x as int, min(t[1].x as int, t[2].x as int)),
            hi_x == max(t[0].x as int, max(t[1].x as int, t[2].x as int)),
            lo_y == min(t[0].y as int, min(t[1].y as int, t[2].y as int)),
            hi_y == max(t[0].y as int, max(t[1].y as int, t[2].y as int)),
            min_x == max(0, lo_x as int),
            min_y == max(0, lo_y as int),
            max_x == min(w - 1, hi_x as int),
            max_y == min(h - 1, hi_y as int),
            min_x <= x,
            x <= max_x + 1 || x == min_x,
            painted(*image, img0, *color, |px: int, py: int| px < x && covered(t, px, py)),
        decreases max_x + 1 - x,
    {
        let mut y: i128 = min_y;
        while y <= max_y
            invariant
                image.wf(),
                image.spec_width() == w,
                image.spec_height() == h,
                w == width,
                h == height,
                w == img0.spec_width(),
                h == img0.spec_height(),
                t == *triangle,
                forall|px: int, py: int| #[trigger] inside(t[0], t[1], t[2], px, py) ==> in_bbox(t[0], t[1], t[2], px, py),
                lo_x == min(t[0].x as int, min(t[1].x as int, t[2].x as int)),
                hi_x == max(t[0].x as int, max(t[1].x as int, t[2].x as int)),
                lo_y == min(t[0].y as int, min(t[1].y as int, t[2].y as int)),
                hi_y == max(t[0].y as int, max(t[1].y as int, t[2].y as int)),
                min_x == max(0, lo_x as int),
                min_y == max(0, lo_y as int),
                max_x == min(w - 1, hi_x as int),
                max_y == min(h - 1, hi_y as int),
                min_x <= x <= max_x,
                min_y <= y,
                y <= max_y + 1 || y == min_y,
                painted(
                    *image,
                    img0,
                    *color,
                    |px: int, py: int| (px < x || (px == x && py < y)) && covered(t, px, py),
                ),
            decreases max_y + 1 - y,
        {
            assert(in_bbox(t[0], t[1], t[2], x as int, y as int));
            let bc = to_barycentric(x as i32, y as i32, triangle);
            if let Some(wt) = bc {
                if wt.w0 >= 0 && wt.w1 >= 0 && wt.w2 >= 0 {
                    image.set(x as usize, y as usize, color);
                }
            }
            y = y + 1;
        }
        x = x + 1;
    }
}

/// Fills the triangle in `color`, depth-tested against `zbuffer` (indexed
/// `y * width + x`): a pixel of the image that passes the barycentric test
/// takes the color and its interpolated depth when that depth is strictly
/// greater than the stored one; greater depth is nearer to the viewer. The
/// depth is `w0 * A.z + w1 * B.z + w2 * C.z`, each vertex's depth weighted by
/// its own barycentric weight, rounded down. Only the triangle's bounding
/// box, clamped to the image, is scanned.
pub fn fill_triangle(image: &mut Image, color: &Color, zbuffer: &mut Vec<i64>, triangle: &[ScreenPoint; 3])
    requires
        old(image).wf(),
        old(zbuffer)@.len() == old(image).spec_width() * old(image).spec_height(),
    ensures
        final(image).wf(),
        final(image).spec_width() == old(image).spec_width(),
        final(image).spec_height() == old(image).spec_height(),
        final(zbuffer)@.len() == old(zbuffer)@.len(),
        forall|px: int, py: int|
            in_bounds(old(image).spec_width(), old(image).spec_height(), px, py) ==> ((
            final(zbuffer)@[depth_index(old(image).spec_width(), px, py)] as int,
            #[trigger] final(image).pixel(px, py),
        ) == shade(
            *triangle,
            *color,
            old(zbuffer)@[depth_index(old(image).spec_width(), px, py)] as int,
            old(image).pixel(px, py),
            px,
            py,
        )),
{
    let ghost img0 = *image;
    let ghost zb0 = *zbuffer;
    let ghost t = *triangle;
    proof {
        lemma_inside_in_bbox(t);
    }
    let ghost w = image.spec_width();
    let ghost h = image.spec_height();
    proof {
        image.lemma_wf_size();
    }
    let width: usize = image.width();
    let height: usize = image.height();
    if width == 0 || height == 0 {
        return;
    }
    let a = triangle[0];
    let b = triangle[1];
    let c = triangle[2];
    let (lo_x, hi_x, lo_y, hi_y) = bounding_box(triangle);
    let min_x: i128 = if lo_x < 0 { 0 } else { lo_x };
    let min_y: i128 = if lo_y < 0 { 0 } else { lo_y };
    let max_x: i128 = if hi_x > width as i128 - 1 { width as i128 - 1 } else { hi_x };
    let max_y: i128 = if hi_y > height as i128 - 1 { height as i128 - 1 } else { hi_y };
    let mut x: i128 = min_x;
    while x <= max_x
        invariant
            image.wf(),
            image.spec_width() == w,
            image.spec_height() == h,
            w == width,
            h == height,
            w * h * 4 <= usize::MAX,
            zbuffer@.len() == w * h,
            t == *triangle,
            forall|px: int, py: int| #[trigger] inside(t[0], t[1], t[2], px, py) ==> in_bbox(t[0], t[1], t[2], px, py),
            a == t[0],
            b == t[1],
            c == t[2],
            lo_x == min(a.x as int, min(b.x as int, c.x as int)),
            hi_x == max(a.x as int, max(b.x as int, c.x as int)),
            lo_y == min(a.y as int, min(b.y as int, c.y as int)),
            hi_y == max(a.y as int, max(b.y as int, c.y as int)),
            min_x == max(0, lo_x as int),
            min_y == max(0, lo_y as int),
            max_x == min(w - 1, hi_x as int),
            max_y == min(h - 1, hi_y as int),
            min_x <= x,
            x <= max_x + 1 || x == min_x,
            forall|px: int, py: int|
                in_bounds(w, h, px, py) ==> ((
                zbuffer@[depth_index(w, px, py)] as int,
                #[trigger] image.pixel(px, py),
            ) == if px < x {
                shade(t, *color, zb0@[depth_index(w, px, py)] as int, img0.pixel(px, py), px, py)
            } else {
                (zb0@[depth_index(w, px, py)] as int, img0.pixel(px, py))
            }),
        decreases max_x + 1 - x,
    {
        let mut y: i128 = min_y;
        while y <= max_y
            invariant
                image.wf(),
                image.spec_width() == w,
                image.spec_height() == h,
                w == width,
                h == height,
                w * h * 4 <= usize::MAX,
                zbuffer@.len() == w * h,
                t == *triangle,
                forall|px: int, py: int| #[trigger] inside(t[0], t[1], t[2], px, py) ==> in_bbox(t[0], t[1], t[2], px, py),
                a == t[0],
                b == t[1],
                c == t[2],
                lo_x == min(a.x as int, min(b.x as int, c.x as int)),
                hi_x == max(a.x as int, max(b.x as int, c.x as int)),
                lo_y == min(a.y as int, min(b.y as int, c.y as int)),
                hi_y == max(a.y as int, max(b.y as int, c.y as int)),
                min_x == max(0, lo_x as int),
                min_y == max(0, lo_y as int),
                max_x == min(w - 1, hi_x as int),
                max_y == min(h - 1, hi_y as int),
                min_x <= x <= max_x,
                min_y <= y,
                y <= max_y + 1 || y == min_y,
                forall|px: int, py: int|
                    in_bounds(w, h, px, py) ==> ((
                    zbuffer@[depth_index(w, px, py)] as int,
                    #[trigger] image.pixel(px, py),
                ) == if px < x || (px == x && py < y) {
                    shade(t, *color, zb0@[depth_index(w, px, py)] as int, img0.pixel(px, py), px, py)
                } else {
                    (zb0@[depth_index(w, px, py)] as int, img0.pixel(px, py))
                }),
            decreases max_y + 1 - y,
        {
            let ghost before_img = *image;
            let ghost before_zb = *zbuffer;
            let ghost i = depth_index(w, x as int, y as int);
            proof {
                lemma_cell_index_range(w, h, x as int, h - 1 - y);
                assert(cell_index(w, h, x as int, h - 1 - y) == i);
                assert(in_bounds(w, h, x as int, y as int));
                let _ = image.pixel(x as int, y as int);
                assert(before_zb@[i] == zb0@[i] && before_img.pixel(x as int, y as int) == img0.pixel(
                    x as int,
                    y as int,
                ));
            }
            let idx: usize = (y as usize) * width + (x as usize);
            let bc = to_barycentric(x as i32, y as i32, triangle);
            if let Some(wt) = bc {
                if wt.w0 >= 0 && wt.w1 >= 0 && wt.w2 >= 0 {
                    proof {
                        lemma_depth_range(a.z as int, b.z as int, c.z as int, wt.w0 as int, wt.w1 as int, wt.w2 as int, wt.denom as int);
                        lemma_small_weighted(a.z as int, wt.w0 as int);
                        lemma_small_weighted(b.z as int, wt.w1 as int);
                        lemma_small_weighted(c.z as int, wt.w2 as int);
                    }
                    let num: i128 = (a.z as i128) * wt.w0 + (b.z as i128) * wt.w1 + (c.z as i128) * wt.w2;
                    let d: i64 = floor_div(num, wt.denom) as i64;
                    if zbuffer[idx] < d {
                        zbuffer.set(idx, d);
                        image.set(x as usize, y as usize, color);
                    }
                }
            }
            proof {
                assert(in_bbox(a, b, c, x as int, y as int));
                assert(in_bounds(w, h, x as int, y as int));
                assert((zbuffer@[i] as int, image.pixel(x as int, y as int)) == shade(
                    t,
                    *color,
                    zb0@[i] as int,
                    img0.pixel(x as int, y as int),
                    x as int,
                    y as int,
                ));
                assert forall|px: int, py: int| in_bounds(w, h, px, py) && (px, py) != (x as int, y as int)
                    implies zbuffer@[depth_index(w, px, py)] == before_zb@[depth_index(w, px, py)]
                    && image.pixel(px, py) == before_img.pixel(px, py) by {
                    lemma_cell_index_range(w, h, px, h - 1 - py);
                    lemma_cell_index_injective(w, h, x as int, h - 1 - y, px, h - 1 - py);
                    assert(cell_index(w, h, px, h - 1 - py) == depth_index(w, px, py));
                }
            }
            y = y + 1;
        }
        x = x + 1;
    }
}

proof fn lemma_small_weighted(z: int, wt: int)
    requires
        i32::MIN <= z <= i32::MAX,
        -0x100_0000_0000_0000_0000 < wt < 0x100_0000_0000_0000_0000,
    ensures
        -0x10_0000_0000_0000_0000_0000_0000_0000 < z * wt < 0x10_0000_0000_0000_0000_0000_0000_0000,
{
    assert(-0x10_0000_0000_0000_0000_0000_0000_0000 < z * wt < 0x10_0000_0000_0000_0000_0000_0000_0000) by (nonlinear_arith)
        requires
            i32::MIN <= z <= i32::MAX,
            -0x100_0000_0000_0000_0000 < wt < 0x100_0000_0000_0000_0000,
    ;
}

proof fn lemma_rotate(a: ScreenPoint, b: ScreenPoint, c: ScreenPoint, px: int, py: int)
    ensures
        cross_z(b, c, a) == cross_z(a, b, c),
        cross_x(b, c, px, py) == cross_z(a, b, c) - cross_x(a, b, px, py) - cross_y(a, c, px, py),
        cross_y(b, a, px, py) == cross_x(a, b, px, py),
{
    let (ax, ay, bx, by, cx, cy) = (a.x as int, a.y as int, b.x as int, b.y as int, c.x as int, c.y as int);
    assert((ax - bx) * (cy - by) - (cx - bx) * (ay - by) == (cx - ax) * (by - ay) - (bx - ax) * (cy - ay))
        by (nonlinear_arith);
    assert((cx - bx) * (by - py) - (bx - px) * (cy - by) == ((cx - ax) * (by - ay) - (bx - ax) * (cy - ay)) - (
    (bx - ax) * (ay - py) - (ax - px) * (by - ay)) - ((ax - px) * (cy - ay) - (cx - ax) * (ay - py)))
        by (nonlinear_arith);
    assert((bx - px) * (ay - by) - (ax - bx) * (by - py) == (bx - ax) * (ay - py) - (ax - px) * (by - ay))
        by (nonlinear_arith);
}

proof fn lemma_swap(a: ScreenPoint, b: ScreenPoint, c: ScreenPoint, px: int, py: int)
    ensures
        cross_z(a, c, b) == -cross_z(a, b, c),
        cross_x(a, c, px, py) == -cross_y(a, c, px, py),
        cross_y(a, b, px, py) == -cross_x(a, b, px, py),
{
    let (ax, ay, bx, by, cx, cy) = (a.x as int, a.y as int, b.x as int, b.y as int, c.x as int, c.y as int);
    assert((bx - ax) * (cy - ay) - (cx - ax) * (by - ay) == -((cx - ax) * (by - ay) - (bx - ax) * (cy - ay)))
        by (nonlinear_arith);
}

/// The barycentric test does not depend on the order in which the three
/// vertices are given.
pub proof fn lemma_inside_any_order(a: ScreenPoint, b: ScreenPoint, c: ScreenPoint, px: int, py: int)
    ensures
        inside(a, b, c, px, py) == inside(b, c, a, px, py),
        inside(a, b, c, px, py) == inside(c, a, b, px, py),
        inside(a, b, c, px, py) == inside(a, c, b, px, py),
        inside(a, b, c, px, py) == inside(b, a, c, px, py),
        inside(a, b, c, px, py) == inside(c, b, a, px, py),
{
    lemma_rotate(a, b, c, px, py);
    lemma_rotate(b, c, a, px, py);
    lemma_swap(a, b, c, px, py);
    lemma_swap(b, c, a, px, py);
    lemma_swap(c, a, b, px, py);
}

/// A triangle without area on screen passes no pixel, so its fill leaves
/// every depth and color as it was.
pub proof fn lemma_degenerate_fills_nothing(t: [ScreenPoint; 3], color: Color, z: int, c: Color, px: int, py: int)
    requires
        degenerate(t[0], t[1], t[2]),
    ensures
        !covered(t, px, py),
        shade(t, color, z, c, px, py) == (z, c),
{
}

/// With depth testing, two triangles filled in either order leave the same
/// depth and color at a pixel, unless both cover it at the same depth.
pub proof fn lemma_depth_test_order_independent(
    t1: [ScreenPoint; 3],
    c1: Color,
    t2: [ScreenPoint; 3],
    c2: Color,
    z: int,
    c: Color,
    px: int,
    py: int,
)
    requires
        !(covered(t1, px, py) && covered(t2, px, py) && depth_at(t1, px, py) == depth_at(t2, px, py)),
    ensures
        ({
            let (z1, k1) = shade(t1, c1, z, c, px, py);
            let (z2, k2) = shade(t2, c2, z, c, px, py);
            shade(t2, c2, z1, k1, px, py) == shade(t1, c1, z2, k2, px, py)
        }),
{
}

proof fn lemma_weights_reproduce_point(a: ScreenPoint, b: ScreenPoint, c: ScreenPoint, px: int, py: int)
    ensures
        ({
            let (w0, w1, w2, d) = weights(a, b, c, px, py);
            &&& w0 * a.x + w1 * b.x + w2 * c.x == d * px
            &&& w0 * a.y + w1 * b.y + w2 * c.y == d * py
            &&& w0 + w1 + w2 == d
        }),
{
    let (ax, ay, bx, by, cx, cy) = (a.x as int, a.y as int, b.x as int, b.y as int, c.x as int, c.y as int);
    let uz = cross_z(a, b, c);
    let ux = cross_x(a, b, px, py);
    let uy = cross_y(a, c, px, py);
    let (bu, bv, cu, cv, qu, qv) = (bx - ax, by - ay, cx - ax, cy - ay, px - ax, py - ay);
    assert(uz == cu * bv - bu * cv);
    assert(ux == qu * bv - bu * qv) by (nonlinear_arith)
        requires
            ux == (bx - ax) * (ay - py) - (ax - px) * (by - ay),
            bu == bx - ax,
            bv == by - ay,
            qu == px - ax,
            qv == py - ay,
    ;
    assert(uy == cu * qv - qu * cv) by (nonlinear_arith)
        requires
            uy == (ax - px) * (cy - ay) - (cx - ax) * (ay - py),
            cu == cx - ax,
            cv == cy - ay,
            qu == px - ax,
            qv == py - ay,
    ;
    assert(uy * bu + ux * cu == uz * qu) by (nonlinear_arith)
        requires
            uz == cu * bv - bu * cv,
            ux == qu * bv - bu * qv,
            uy == cu * qv - qu * cv,
    ;
    assert(uy * bv + ux * cv == uz * qv) by (nonlinear_arith)
        requires
            uz == cu * bv - bu * cv,
            ux == qu * bv - bu * qv,
            uy == cu * qv - qu * cv,
    ;
    assert((uz - ux - uy) * ax + uy * bx + ux * cx == uz * px) by (nonlinear_arith)
        requires
            uy * bu + ux * cu == uz * qu,
            bu == bx - ax,
            cu == cx - ax,
            qu == px - ax,
    ;
    assert((uz - ux - uy) * ay + uy * by + ux * cy == uz * py) by (nonlinear_arith)
        requires
            uy * bv + ux * cv == uz * qv,
            bv == by - ay,
            cv == cy - ay,
            qv == py - ay,
    ;
    assert((ux + uy - uz) * ax + (-uy) * bx + (-ux) * cx == (-uz) * px) by (nonlinear_arith)
        requires
            (uz - ux - uy) * ax + uy * bx + ux * cx == uz * px,
    ;
    assert((ux + uy - uz) * ay + (-uy) * by + (-ux) * cy == (-uz) * py) by (nonlinear_arith)
        requires
            (uz - ux - uy) * ay + uy * by + ux * cy == uz * py,
    ;
}

proof fn lemma_convex_between(p: int, q: int, r: int, w0: int, w1: int, w2: int, d: int, v: int)
    requires
        w0 >= 0,
        w1 >= 0,
        w2 >= 0,
        d > 0,
        w0 + w1 + w2 == d,
        w0 * p + w1 * q + w2 * r == d * v,
    ensures
        min(p, min(q, r)) <= v <= max(p, max(q, r)),
{
    let lo = min(p, min(q, r));
    let hi = max(p, max(q, r));
    assert(d * lo <= d * v <= d * hi) by (nonlinear_arith)
        requires
            w0 >= 0,
            w1 >= 0,
            w2 >= 0,
            w0 + w1 + w2 == d,
            w0 * p + w1 * q + w2 * r == d * v,
            lo <= p <= hi,
            lo <= q <= hi,
            lo <= r <= hi,
    ;
    assert(lo <= v <= hi) by (nonlinear_arith)
        requires
            d > 0,
            d * lo <= d * v <= d * hi,
    ;
}

/// Every pixel that passes the barycentric test lies in the triangle's
/// bounding box.
proof fn lemma_inside_in_bbox(t: [ScreenPoint; 3])
    ensures
        forall|px: int, py: int| #[trigger] inside(t[0], t[1], t[2], px, py) ==> in_bbox(t[0], t[1], t[2], px, py),
{
    assert forall|px: int, py: int| #[trigger] inside(t[0], t[1], t[2], px, py) implies in_bbox(
        t[0],
        t[1],
        t[2],
        px,
        py,
    ) by {
        let (a, b, c) = (t[0], t[1], t[2]);
        let (w0, w1, w2, d) = weights(a, b, c, px, py);
        lemma_weights_reproduce_point(a, b, c, px, py);
        lemma_convex_between(a.x as int, b.x as int, c.x as int, w0, w1, w2, d, px);
        lemma_convex_between(a.y as int, b.y as int, c.y as int, w0, w1, w2, d, py);
    }
}

} // verus!
