use tinyrender::color::Color;
use tinyrender::framebuffer::Image;
use tinyrender::mesh::{classify_line, parse_face_line, vertex_fields, FaceError, Field, MeshLine};
use tinyrender::render::{render, RenderMode};
use tinyrender::triangle::ScreenPoint;

fn pt(x: i32, y: i32, z: i32) -> ScreenPoint {
    ScreenPoint { x, y, z }
}

#[test]
fn face_line_is_made_zero_based() {
    assert_eq!(parse_face_line(b"f 1/1/1 1/1/1 1/1/1"), Ok((0, 0, 0)));
    assert_eq!(parse_face_line(b"f 24/1/24 25/2/25 26/3/26"), Ok((23, 24, 25)));
}

#[test]
fn face_line_ignores_what_follows() {
    assert_eq!(parse_face_line(b"f 3/1/1 2/1/1 1/1/1 4/4/4"), Ok((2, 1, 0)));
}

#[test]
fn face_line_errors() {
    assert_eq!(parse_face_line(b"f 1 2 3"), Err(FaceError::Malformed));
    assert_eq!(parse_face_line(b"f 1/1/1 2/2/2"), Err(FaceError::Malformed));
    assert_eq!(parse_face_line(b"v 1 2 3"), Err(FaceError::Malformed));
    assert_eq!(parse_face_line(b"f 1/1/ 2/2/2 3/3/3"), Err(FaceError::Malformed));
    assert_eq!(parse_face_line(b""), Err(FaceError::Malformed));
    assert_eq!(parse_face_line(b"f 0/1/1 2/2/2 3/3/3"), Err(FaceError::BadIndex));
    assert_eq!(
        parse_face_line(b"f 1/1/1 2/2/2 99999999999999999999999/3/3"),
        Err(FaceError::BadIndex)
    );
}

#[test]
fn render_skips_faces_with_missing_vertices() {
    let mut image = Image::new(10, 10);
    let mut zbuffer = vec![i64::MIN; 100];
    let points = vec![pt(0, 0, 0), pt(4, 0, 0), pt(0, 4, 0)];
    let faces = vec![(0, 1, 5), (0, 1, 2), (3, 3, 3)];
    let colors = vec![Color::red(), Color::opaque(0, 255, 0), Color::red()];
    let skipped = render(&mut image, &mut zbuffer, &points, &faces, &colors, RenderMode::FilledWithDepth);
    assert_eq!(skipped, vec![0, 2]);
    assert_eq!(image.get(1, 1), Color::opaque(0, 255, 0));
    assert_eq!(image.get(9, 9), Color::new(0, 0, 0, 0));
}

#[test]
fn render_filled_later_face_wins() {
    let mut image = Image::new(10, 10);
    let mut zbuffer: Vec<i64> = Vec::new();
    let points = vec![pt(0, 0, 9), pt(6, 0, 9), pt(0, 6, 9), pt(1, 1, 0), pt(8, 1, 0), pt(1, 8, 0)];
    let faces = vec![(0, 1, 2), (3, 4, 5)];
    let blue = Color::opaque(0, 0, 255);
    let colors = vec![Color::red(), blue];
    let skipped = render(&mut image, &mut zbuffer, &points, &faces, &colors, RenderMode::Filled);
    assert!(skipped.is_empty());
    assert_eq!(image.get(2, 2), blue);
    assert_eq!(image.get(0, 0), Color::red());
    assert!(zbuffer.is_empty());
}

#[test]
fn render_depth_nearer_face_wins() {
    let mut image = Image::new(10, 10);
    let mut zbuffer = vec![i64::MIN; 100];
    let points = vec![pt(0, 0, 9), pt(6, 0, 9), pt(0, 6, 9), pt(1, 1, 0), pt(8, 1, 0), pt(1, 8, 0)];
    let faces = vec![(0, 1, 2), (3, 4, 5)];
    let blue = Color::opaque(0, 0, 255);
    let colors = vec![Color::red(), blue];
    render(&mut image, &mut zbuffer, &points, &faces, &colors, RenderMode::FilledWithDepth);
    assert_eq!(image.get(2, 2), Color::red());
    assert_eq!(image.get(7, 1), blue);
    assert_eq!(zbuffer[2 * 10 + 2], 9);
}

#[test]
fn render_wireframe_draws_edges_only() {
    let mut image = Image::new(10, 10);
    let mut zbuffer: Vec<i64> = Vec::new();
    let points = vec![pt(0, 0, 0), pt(6, 0, 0), pt(0, 6, 0)];
    let faces = vec![(0, 1, 2)];
    let colors = vec![Color::red()];
    render(&mut image, &mut zbuffer, &points, &faces, &colors, RenderMode::Wireframe);
    assert_eq!(image.get(3, 0), Color::red());
    assert_eq!(image.get(0, 3), Color::red());
    assert_eq!(image.get(3, 3), Color::red());
    assert_eq!(image.get(1, 1), Color::new(0, 0, 0, 0));
}

#[test]
fn flat_fill_overwrites_regardless_of_depth() {
    let mut image = Image::new(5, 5);
    let blue = Color::opaque(0, 0, 255);
    tinyrender::triangle::fill_triangle_flat(&mut image, &Color::red(), &[pt(0, 0, 9), pt(4, 0, 9), pt(0, 4, 9)]);
    tinyrender::triangle::fill_triangle_flat(&mut image, &blue, &[pt(0, 0, 0), pt(2, 0, 0), pt(0, 2, 0)]);
    assert_eq!(image.get(1, 1), blue);
    assert_eq!(image.get(3, 1), Color::red());
    assert_eq!(image.get(4, 4), Color::new(0, 0, 0, 0));
}

#[test]
fn mesh_text_with_one_vertex_and_one_face() {
    let text = "v 1 2 3\nf 1/1/1 1/1/1 1/1/1\n";
    let mut vertices = Vec::new();
    let mut faces = Vec::new();
    for line in text.lines() {
        if let Some(((s1, e1), (s2, e2), (s3, e3))) = vertex_fields(line.as_bytes()) {
            vertices.push((&line[s1..e1], &line[s2..e2], &line[s3..e3]));
        } else if let Ok(f) = parse_face_line(line.as_bytes()) {
            faces.push(f);
        }
    }
    assert_eq!(vertices, vec![("1", "2", "3")]);
    let v = vertices[0];
    assert_eq!((v.0.parse::<f32>().unwrap(), v.1.parse::<f32>().unwrap(), v.2.parse::<f32>().unwrap()), (1.0, 2.0, 3.0));
    assert_eq!(faces, vec![(0, 0, 0)]);
}

#[test]
fn vertex_fields_single_spaces() {
    assert_eq!(vertex_fields(b"v -0.5 0.25 1e-3"), Some(((2, 6), (7, 11), (12, 16))));
    assert_eq!(vertex_fields(b"v 1 2 3 4"), Some(((2, 3), (4, 5), (6, 7))));
    assert_eq!(vertex_fields(b"v 1 2"), None);
    assert_eq!(vertex_fields(b"v 1 2 "), None);
    assert_eq!(vertex_fields(b"vt 1 2 3"), None);
    assert_eq!(vertex_fields(b"f 1/1/1 2/2/2 3/3/3"), None);
}

#[test]
fn vertex_fields_split_at_runs_of_blanks() {
    assert_eq!(vertex_fields(b"v 1  2 3"), Some(((2, 3), (5, 6), (7, 8))));
    assert_eq!(vertex_fields(b"v 1\t2 \t 3  "), Some(((2, 3), (4, 5), (8, 9))));
    assert_eq!(vertex_fields(b"v\t1 2 3"), None);
    assert_eq!(vertex_fields(b"v   10 -2 3.5"), Some(((4, 6), (7, 9), (10, 13))));
}

#[test]
fn vertex_line_with_two_spaces() {
    let line = "v 1  2 3";
    let ((s1, e1), (s2, e2), (s3, e3)) = vertex_fields(line.as_bytes()).unwrap();
    let v: (f32, f32, f32) = (
        line[s1..e1].parse().unwrap(),
        line[s2..e2].parse().unwrap(),
        line[s3..e3].parse().unwrap(),
    );
    assert_eq!(v, (1.0, 2.0, 3.0));
}

#[test]
fn classify_each_kind_of_line() {
    let f = |start, end| Field { start, end };
    assert_eq!(classify_line(b"v 1  2 3"), MeshLine::Vertex(f(2, 3), f(5, 6), f(7, 8)));
    assert_eq!(classify_line(b"v 1 2"), MeshLine::BadVertex);
    assert_eq!(classify_line(b"f 1/1/1 2/2/2 3/3/3"), MeshLine::Face(0, 1, 2));
    assert_eq!(classify_line(b"f 1/1/1 2/2/2"), MeshLine::BadFace(FaceError::Malformed));
    assert_eq!(classify_line(b"f 0/1/1 2/2/2 3/3/3"), MeshLine::BadFace(FaceError::BadIndex));
    assert_eq!(classify_line(b"vt 0.5 0.5 0"), MeshLine::Other);
    assert_eq!(classify_line(b"# comment"), MeshLine::Other);
    assert_eq!(classify_line(b"v\t1 2 3"), MeshLine::Other);
    assert_eq!(classify_line(b""), MeshLine::Other);
}
