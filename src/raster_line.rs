use vstd::prelude::*;

use crate::color::Color;
use crate::framebuffer::in_bounds;
use crate::framebuffer::Image;

verus! {

pub open spec fn abs(v: int) -> int {
    if v < 0 {
        -v
    } else {
        v
    }
}

pub open spec fn min(a: int, b: int) -> int {
    if a <= b {
        a
    } else {
        b
    }
}

pub open spec fn max(a: int, b: int) -> int {
    if a <= b {
        b
    } else {
        a
    }
}

/// The value at `s`, rounded half up, of the straight line through
/// `(a0, b0)` and `(a1, b1)`, where `a0 < a1`.
pub open spec fn interp(a0: int, b0: int, a1: int, b1: int, s: int) -> int {
    let d = a1 - a0;
    (2 * (b0 * (a1 - s) + b1 * (s - a0)) + d) / (2 * d)
}

/// Whether the vertical span of the segment exceeds its horizontal span.
pub open spec fn is_steep(x0: int, y0: int, x1: int, y1: int) -> bool {
    abs(x0 - x1) < abs(y0 - y1)
}

/// The endpoints as the sweep sees them: axes swapped when the segment is
/// steep, then ordered so that the first comes first along the sweep axis.
pub open spec fn sweep(x0: int, y0: int, x1: int, y1: int) -> (int, int, int, int) {
    let (a0, b0, a1, b1) = if is_steep(x0, y0, x1, y1) {
        (y0, x0, y1, x1)
    } else {
        (x0, y0, x1, y1)
    };
    if a0 > a1 {
        (a1, b1, a0, b0)
    } else {
        (a0, b0, a1, b1)
    }
}

/// Whether the sweep over `[a0, a1]` that stops before `upto` has written
/// the pixel `(px, py)`.
pub open spec fn swept(steep: bool, a0: int, b0: int, a1: int, b1: int, upto: int, px: int, py: int) -> bool {
    let (s, t) = if steep {
        (py, px)
    } else {
        (px, py)
    };
    a0 <= s < upto && s <= a1 && t == interp(a0, b0, a1, b1, s)
}

/// Whether the line from `(x0, y0)` to `(x1, y1)` covers the pixel `(px, py)`.
pub open spec fn on_line(x0: int, y0: int, x1: int, y1: int, px: int, py: int) -> bool {
    if x0 == x1 {
        px == x0 && min(y0, y1) <= py <= max(y0, y1)
    } else {
        let (a0, b0, a1, b1) = sweep(x0, y0, x1, y1);
        swept(is_steep(x0, y0, x1, y1), a0, b0, a1, b1, a1 + 1, px, py)
    }
}

/// The pixels of the line from `(x0, y0)` to `(x1, y1)`.
pub open spec fn line_pixels(x0: int, y0: int, x1: int, y1: int) -> Set<(int, int)> {
    Set::new(|p: (int, int)| on_line(x0, y0, x1, y1, p.0, p.1))
}

proof fn lemma_interp_ends(a0: int, b0: int, a1: int, b1: int)
    requires
        a0 < a1,
    ensures
        interp(a0, b0, a1, b1, a0) == b0,
        interp(a0, b0, a1, b1, a1) == b1,
{
    let d = a1 - a0;
    assert(2 * (b0 * (a1 - a0) + b1 * (a0 - a0)) + d == b0 * (2 * d) + d) by (nonlinear_arith)
        requires
            d == a1 - a0,
    ;
    assert(2 * (b0 * (a1 - a1) + b1 * (a1 - a0)) + d == b1 * (2 * d) + d) by (nonlinear_arith)
        requires
            d == a1 - a0,
    ;
    vstd::arithmetic::div_mod::lemma_fundamental_div_mod_converse(b0 * (2 * d) + d, 2 * d, b0, d);
    vstd::arithmetic::div_mod::lemma_fundamental_div_mod_converse(b1 * (2 * d) + d, 2 * d, b1, d);
}

/// Both endpoints of a segment are pixels of its line, at exactly their
/// own coordinates.
pub proof fn lemma_line_contains_endpoints(x0: int, y0: int, x1: int, y1: int)
    ensures
        line_pixels(x0, y0, x1, y1).contains((x0, y0)),
        line_pixels(x0, y0, x1, y1).contains((x1, y1)),
{
    if x0 != x1 {
        let (a0, b0, a1, b1) = sweep(x0, y0, x1, y1);
        lemma_interp_ends(a0, b0, a1, b1);
    }
}

/// Drawing a segment from either end gives the same pixels.
pub proof fn lemma_line_symmetric(x0: int, y0: int, x1: int, y1: int)
    ensures
        line_pixels(x0, y0, x1, y1) == line_pixels(x1, y1, x0, y0),
{
    assert(sweep(x0, y0, x1, y1) == sweep(x1, y1, x0, y0) || x0 == x1);
    assert(line_pixels(x0, y0, x1, y1) =~= line_pixels(x1, y1, x0, y0));
}

/// The image is `old` with `color` written on every in-bounds pixel for
/// which `drawn` holds.
pub open spec fn painted(img: Image, old: Image, color: Color, drawn: spec_fn(int, int) -> bool) -> bool {
    &&& img.wf()
    &&& img.spec_width() == old.spec_width()
    &&& img.spec_height() == old.spec_height()
    &&& forall|px: int, py: int|
        in_bounds(img.spec_width(), img.spec_height(), px, py) ==> #[trigger] img.pixel(px, py) == if drawn(
            px,
            py,
        ) {
            color
        } else {
            old.pixel(px, py)
        }
}

/// Floor of `n / d`.
pub(crate) fn floor_div(n: i128, d: i128) -> (q: i128)
    requires
        d > 0,
        -0x1000_0000_0000_0000_0000_0000_0000_0000 < n < 0x1000_0000_0000_0000_0000_0000_0000_0000,
    ensures
        q == n / d,
{
    if n >= 0 {
        n / d
    } else {
        let m: i128 = (-n - 1) / d;
        proof {
            let r = (-n - 1) % (d as int);
            vstd::arithmetic::div_mod::lemma_fundamental_div_mod(-n - 1, d as int);
            assert(n == (-m - 1) * d + (d - r - 1)) by (nonlinear_arith)
                requires
                    -n - 1 == d * m + r,
            ;
            vstd::arithmetic::div_mod::lemma_fundamental_div_mod_converse(
                n as int,
                d as int,
                -m - 1,
                d - r - 1,
            );
        }
        -m - 1
    }
}

/// Writes `color` at `(x, y)` when that pixel lies inside the image, and
/// leaves the image as it is otherwise.
fn plot(image: &mut Image, color: &Color, x: i128, y: i128)
    requires
        old(image).wf(),
    ensures
        painted(*final(image), *old(image), *color, |px: int, py: int| px == x && py == y),
{
    if 0 <= x && x < image.width() as i128 && 0 <= y && y < image.height() as i128 {
        image.set(x as usize, y as usize, color);
    }
}

/// Draws the line from `(x0, y0)` to `(x1, y1)`, both ends included.
/// Pixels of the line that fall outside the image are skipped.
pub fn draw_line(image: &mut Image, color: &Color, x0: i32, y0: i32, x1: i32, y1: i32)
    requires
        old(image).wf(),
    ensures
        painted(
            *final(image),
            *old(image),
            *color,
            |px: int, py: int| line_pixels(x0 as int, y0 as int, x1 as int, y1 as int).contains((px, py)),
        ),
{
    let ghost start = *image;
    if x0 == x1 {
        let (lo, hi): (i128, i128) = if y0 > y1 {
            (y1 as i128, y0 as i128)
        } else {
            (y0 as i128, y1 as i128)
        };
        let mut y: i128 = lo;
        while y <= hi
            invariant
                lo <= y <= hi + 1,
                lo == min(y0 as int, y1 as int),
                hi == max(y0 as int, y1 as int),
                painted(*image, start, *color, |px: int, py: int| px == x0 && lo <= py < y),
            decreases hi + 1 - y,
        {
            plot(image, color, x0 as i128, y);
            y = y + 1;
        }
        return;
    }
    let steep: bool = {
        let dx: i128 = x0 as i128 - x1 as i128;
        let dy: i128 = y0 as i128 - y1 as i128;
        let adx: i128 = if dx < 0 { -dx } else { dx };
        let ady: i128 = if dy < 0 { -dy } else { dy };
        adx < ady
    };
    let (a0, b0, a1, b1): (i128, i128, i128, i128) = if steep {
        (y0 as i128, x0 as i128, y1 as i128, x1 as i128)
    } else {
        (x0 as i128, y0 as i128, x1 as i128, y1 as i128)
    };
    let (a0, b0, a1, b1): (i128, i128, i128, i128) = if a0 > a1 {
        (a1, b1, a0, b0)
    } else {
        (a0, b0, a1, b1)
    };
    assert(steep == is_steep(x0 as int, y0 as int, x1 as int, y1 as int));
    assert((a0 as int, b0 as int, a1 as int, b1 as int) == sweep(x0 as int, y0 as int, x1 as int, y1 as int));
    assert(a0 < a1);
    let d: i128 = a1 - a0;
    let mut s: i128 = a0;
    while s <= a1
        invariant
            a0 <= s <= a1 + 1,
            a0 < a1,
            d == a1 - a0,
            -0x1_0000_0000 <= a0 < 0x1_0000_0000,
            -0x1_0000_0000 <= a1 < 0x1_0000_0000,
            -0x1_0000_0000 <= b0 < 0x1_0000_0000,
            -0x1_0000_0000 <= b1 < 0x1_0000_0000,
            painted(
                *image,
                start,
                *color,
                |px: int, py: int| swept(steep, a0 as int, b0 as int, a1 as int, b1 as int, s as int, px, py),
            ),
        decreases a1 + 1 - s,
    {
        proof {
            assert(-0x4_0000_0000_0000_0000 < b0 * (a1 - s) < 0x4_0000_0000_0000_0000) by (nonlinear_arith)
                requires
                    -0x1_0000_0000 <= b0 < 0x1_0000_0000,
                    0 <= a1 - s < 0x2_0000_0000,
            ;
            assert(-0x4_0000_0000_0000_0000 < b1 * (s - a0) < 0x4_0000_0000_0000_0000) by (nonlinear_arith)
                requires
                    -0x1_0000_0000 <= b1 < 0x1_0000_0000,
                    0 <= s - a0 < 0x2_0000_0000,
            ;
        }
        let num: i128 = 2 * (b0 * (a1 - s) + b1 * (s - a0)) + d;
        let t: i128 = floor_div(num, 2 * d);
        if steep {
            plot(image, color, t, s);
        } else {
            plot(image, color, s, t);
        }
        s = s + 1;
    }
    proof {
        assert forall|px: int, py: int|
            swept(steep, a0 as int, b0 as int, a1 as int, b1 as int, s as int, px, py)
                == line_pixels(x0 as int, y0 as int, x1 as int, y1 as int).contains((px, py)) by {}
    }
}

} // verus!
