use vstd::prelude::*;

use crate::color::Color;
use crate::framebuffer::in_bounds;
use crate::framebuffer::Image;
use crate::raster_line::draw_line;
use crate::raster_line::on_line;
use crate::triangle::covered;
use crate::triangle::depth_index;
use crate::triangle::fill_triangle;
use crate::triangle::fill_triangle_flat;
use crate::triangle::shade;
use crate::triangle::ScreenPoint;

verus! {

/// How the faces of a mesh are drawn.
#[derive(Clone, Copy, Debug, PartialEq, Eq, Structural)]
pub enum RenderMode {
    /// The three edges of each face as lines.
    Wireframe,
    /// Filled faces, later faces over earlier ones.
    Filled,
    /// Filled faces, depth-tested against a z-buffer.
    FilledWithDepth,
}

/// A face (three vertex indices) whose indices all address one of
/// `n_points` projected vertices.
pub open spec fn face_valid(n_points: int, f: (usize, usize, usize)) -> bool {
    f.0 < n_points && f.1 < n_points && f.2 < n_points
}

/// The projected triangle of a valid face.
pub open spec fn face_triangle(points: Seq<ScreenPoint>, f: (usize, usize, usize)) -> [ScreenPoint; 3] {
    [points[f.0 as int], points[f.1 as int], points[f.2 as int]]
}

/// Whether `(px, py)` lies on one of the triangle's three edges.
pub open spec fn on_edges(t: [ScreenPoint; 3], px: int, py: int) -> bool {
    ||| on_line(t[0].x as int, t[0].y as int, t[1].x as int, t[1].y as int, px, py)
    ||| on_line(t[1].x as int, t[1].y as int, t[2].x as int, t[2].y as int, px, py)
    ||| on_line(t[2].x as int, t[2].y as int, t[0].x as int, t[0].y as int, px, py)
}

/// Depth and color at `(px, py)` after one face is drawn over depth `z` and
/// color `c`.
pub open spec fn face_step(mode: RenderMode, t: [ScreenPoint; 3], color: Color, z: int, c: Color, px: int, py: int) -> (int, Color) {
    match mode {
        RenderMode::Wireframe => if on_edges(t, px, py) {
            (z, color)
        } else {
            (z, c)
        },
        RenderMode::Filled => if covered(t, px, py) {
            (z, color)
        } else {
            (z, c)
        },
        RenderMode::FilledWithDepth => shade(t, color, z, c, px, py),
    }
}

/// Depth and color at `(px, py)` after the first `n` faces are drawn, in
/// order, over depth `z` and color `c`; invalid faces are passed over.
pub open spec fn rendered(
    mode: RenderMode,
    points: Seq<ScreenPoint>,
    faces: Seq<(usize, usize, usize)>,
    colors: Seq<Color>,
    n: int,
    z: int,
    c: Color,
    px: int,
    py: int,
) -> (int, Color)
    decreases n,
{
    if n <= 0 {
        (z, c)
    } else {
        let prev = rendered(mode, points, faces, colors, n - 1, z, c, px, py);
        let f = faces[n - 1];
        if face_valid(points.len() as int, f) {
            face_step(mode, face_triangle(points, f), colors[n - 1], prev.0, prev.1, px, py)
        } else {
            prev
        }
    }
}

/// The positions, in order, of the first `n` faces that address a vertex
/// beyond the `n_points` projected ones.
pub open spec fn skipped_faces(n_points: int, faces: Seq<(usize, usize, usize)>, n: int) -> Seq<usize>
    decreases n,
{
    if n <= 0 {
        seq![]
    } else {
        let prev = skipped_faces(n_points, faces, n - 1);
        if face_valid(n_points, faces[n - 1]) {
            prev
        } else {
            prev.push((n - 1) as usize)
        }
    }
}

/// The depth that the depth-tested mode keeps for `(px, py)`; the other modes
/// keep none.
pub open spec fn kept_depth(mode: RenderMode, zbuffer: Seq<i64>, width: int, px: int, py: int) -> int {
    if mode == RenderMode::FilledWithDepth {
        zbuffer[depth_index(width, px, py)] as int
    } else {
        0
    }
}

/// Draws every face of a projected mesh, in order, in the color given for
/// it. A face with an index beyond `points` is skipped; the positions of the
/// skipped faces are returned. Only the depth-tested mode reads or writes
/// `zbuffer`.
pub fn render(
    image: &mut Image,
    zbuffer: &mut Vec<i64>,
    points: &Vec<ScreenPoint>,
    faces: &Vec<(usize, usize, usize)>,
    colors: &Vec<Color>,
    mode: RenderMode,
) -> (skipped: Vec<usize>)
    requires
        old(image).wf(),
        colors@.len() == faces@.len(),
        mode == RenderMode::FilledWithDepth ==> old(zbuffer)@.len() == old(image).spec_width()
            * old(image).spec_height(),
    ensures
        final(image).wf(),
        final(image).spec_width() == old(image).spec_width(),
        final(image).spec_height() == old(image).spec_height(),
        final(zbuffer)@.len() == old(zbuffer)@.len(),
        mode != RenderMode::FilledWithDepth ==> final(zbuffer)@ == old(zbuffer)@,
        skipped@ == skipped_faces(points@.len() as int, faces@, faces@.len() as int),
        forall|px: int, py: int|
            in_bounds(old(image).spec_width(), old(image).spec_height(), px, py) ==> ((
            kept_depth(mode, final(zbuffer)@, old(image).spec_width(), px, py),
            #[trigger] final(image).pixel(px, py),
        ) == rendered(
            mode,
            points@,
            faces@,
            colors@,
            faces@.len() as int,
            kept_depth(mode, old(zbuffer)@, old(image).spec_width(), px, py),
            old(image).pixel(px, py),
            px,
            py,
        )),
{
    let ghost img0 = *image;
    let ghost zb0 = *zbuffer;
    let ghost w = image.spec_width();
    let ghost h = image.spec_height();
    let mut skipped: Vec<usize> = Vec::new();
    let n_points: usize = points.len();
    let mut i: usize = 0;
    while i < faces.len()
        invariant
            image.wf(),
            image.spec_width() == w,
            image.spec_height() == h,
            w == img0.spec_width(),
            h == img0.spec_height(),
            zbuffer@.len() == zb0@.len(),
            mode != RenderMode::FilledWithDepth ==> zbuffer@ == zb0@,
            mode == RenderMode::FilledWithDepth ==> zb0@.len() == w * h,
            colors@.len() == faces@.len(),
            n_points == points@.len(),
            0 <= i <= faces@.len(),
            skipped@ == skipped_faces(n_points as int, faces@, i as int),
            forall|px: int, py: int|
                in_bounds(w, h, px, py) ==> ((
                kept_depth(mode, zbuffer@, w, px, py),
                #[trigger] image.pixel(px, py),
            ) == rendered(
                mode,
                points@,
                faces@,
                colors@,
                i as int,
                kept_depth(mode, zb0@, w, px, py),
                img0.pixel(px, py),
                px,
                py,
            )),
        decreases faces@.len() - i,
    {
        let f = faces[i];
        let ghost before = *image;
        let ghost zbefore = *zbuffer;
        proof {
            assert forall|px: int, py: int| in_bounds(w, h, px, py) implies (
            kept_depth(mode, zbefore@, w, px, py),
            before.pixel(px, py),
        ) == rendered(
                mode,
                points@,
                faces@,
                colors@,
                i as int,
                kept_depth(mode, zb0@, w, px, py),
                img0.pixel(px, py),
                px,
                py,
            ) by {
                let _ = image.pixel(px, py);
            }
        }
        if f.0 < n_points && f.1 < n_points && f.2 < n_points {
            let t: [ScreenPoint; 3] = [points[f.0], points[f.1], points[f.2]];
            assert(t == face_triangle(points@, f));
            let color = &colors[i];
            match mode {
                RenderMode::Wireframe => {
                    draw_line(image, color, t[0].x, t[0].y, t[1].x, t[1].y);
                    draw_line(image, color, t[1].x, t[1].y, t[2].x, t[2].y);
                    draw_line(image, color, t[2].x, t[2].y, t[0].x, t[0].y);
                },
                RenderMode::Filled => {
                    fill_triangle_flat(image, color, &t);
                },
                RenderMode::FilledWithDepth => {
                    fill_triangle(image, color, zbuffer, &t);
                },
            }
        } else {
            skipped.push(i);
        }
        proof {
            assert forall|px: int, py: int| in_bounds(w, h, px, py) implies (
            kept_depth(mode, zbuffer@, w, px, py),
            #[trigger] image.pixel(px, py),
        ) == rendered(
                mode,
                points@,
                faces@,
                colors@,
                i + 1,
                kept_depth(mode, zb0@, w, px, py),
                img0.pixel(px, py),
                px,
                py,
            ) by {
                let _ = before.pixel(px, py);
            }
        }
        i = i + 1;
    }
    skipped
}

} // verus!
