use tinyrender::color::Color;
use tinyrender::framebuffer::Image;
use tinyrender::raster_line::draw_line;
use tinyrender::triangle::{fill_triangle, to_barycentric, ScreenPoint};

fn blank() -> Color {
    Color::new(0, 0, 0, 0)
}

fn pt(x: i32, y: i32, z: i32) -> ScreenPoint {
    ScreenPoint { x, y, z }
}

fn lit(image: &Image, color: Color) -> Vec<(usize, usize)> {
    let mut out = Vec::new();
    for y in 0..image.height() {
        for x in 0..image.width() {
            if image.get(x, y) == color {
                out.push((x, y));
            }
        }
    }
    out.sort();
    out
}

#[test]
fn new_image_is_blank() {
    let image = Image::new(3, 2);
    assert_eq!(image.width(), 3);
    assert_eq!(image.height(), 2);
    assert_eq!(image.as_bytes().len(), 24);
    assert!(image.as_bytes().iter().all(|&b| b == 0));
}

#[test]
fn set_writes_at_the_flipped_offset() {
    let mut image = Image::new(3, 4);
    let c = Color::new(9, 8, 7, 6);
    image.set(2, 1, &c);
    // ((4 - 1 - 1) * 3 + 2) * 4 = 32
    let bytes = image.as_bytes();
    assert_eq!(bytes.len(), 48);
    assert_eq!(&bytes[32..36], &[9, 8, 7, 6]);
    assert_eq!(bytes.iter().filter(|&&b| b != 0).count(), 4);
}

#[test]
fn set_flips_rows() {
    let mut image = Image::new(2, 2);
    let c = Color::new(1, 2, 3, 4);
    image.set(1, 0, &c);
    assert_eq!(image.get(1, 0), c);
    // logical row 0 is the last stored row
    assert_eq!(&image.as_bytes()[12..16], &[1, 2, 3, 4]);
    assert_eq!(&image.as_bytes()[0..12], &[0; 12]);
}

#[test]
fn color_constructors() {
    assert_eq!(Color::red(), Color { r: 255, g: 0, b: 0, a: 255 });
    assert_eq!(Color::opaque(1, 2, 3), Color { r: 1, g: 2, b: 3, a: 255 });
}

#[test]
fn horizontal_line_in_ten_by_ten() {
    let mut image = Image::new(10, 10);
    let red = Color::red();
    draw_line(&mut image, &red, 0, 0, 4, 0);
    assert_eq!(lit(&image, red), vec![(0, 0), (1, 0), (2, 0), (3, 0), (4, 0)]);
    assert_eq!(lit(&image, blank()).len(), 95);
}

#[test]
fn line_includes_both_endpoints() {
    let red = Color::red();
    for &(x0, y0, x1, y1) in &[(1, 1, 7, 4), (2, 8, 3, 0), (5, 5, 5, 5), (0, 9, 9, 0), (6, 2, 6, 7)] {
        let mut image = Image::new(10, 10);
        draw_line(&mut image, &red, x0, y0, x1, y1);
        assert_eq!(image.get(x0 as usize, y0 as usize), red);
        assert_eq!(image.get(x1 as usize, y1 as usize), red);
    }
}

#[test]
fn line_is_order_independent() {
    let red = Color::red();
    for &(x0, y0, x1, y1) in &[(1, 1, 7, 4), (2, 8, 3, 0), (0, 0, 9, 3), (9, 1, 0, 6), (4, 0, 4, 9)] {
        let mut a = Image::new(10, 10);
        let mut b = Image::new(10, 10);
        draw_line(&mut a, &red, x0, y0, x1, y1);
        draw_line(&mut b, &red, x1, y1, x0, y0);
        assert_eq!(a.as_bytes(), b.as_bytes());
    }
}

#[test]
fn shallow_line_rounds_half_up() {
    let mut image = Image::new(10, 10);
    let red = Color::red();
    draw_line(&mut image, &red, 0, 0, 4, 1);
    // y = x / 4 rounded half up: 0, 0, 1, 1, 1
    assert_eq!(lit(&image, red), vec![(0, 0), (1, 0), (2, 1), (3, 1), (4, 1)]);
}

#[test]
fn steep_line_sweeps_rows() {
    let mut image = Image::new(10, 10);
    let red = Color::red();
    draw_line(&mut image, &red, 0, 0, 2, 4);
    assert_eq!(lit(&image, red), vec![(0, 0), (1, 1), (1, 2), (2, 3), (2, 4)]);
}

#[test]
fn vertical_line() {
    let mut image = Image::new(10, 10);
    let red = Color::red();
    draw_line(&mut image, &red, 3, 6, 3, 2);
    assert_eq!(lit(&image, red), vec![(3, 2), (3, 3), (3, 4), (3, 5), (3, 6)]);
}

#[test]
fn line_outside_image_is_clipped() {
    let mut image = Image::new(4, 4);
    let red = Color::red();
    draw_line(&mut image, &red, -2, 1, 6, 1);
    assert_eq!(lit(&image, red), vec![(0, 1), (1, 1), (2, 1), (3, 1)]);
}

#[test]
fn barycentric_weights_of_a_vertex() {
    let t = [pt(0, 0, 0), pt(4, 0, 0), pt(0, 4, 0)];
    let w = to_barycentric(4, 0, &t).unwrap();
    assert_eq!((w.w0, w.w1, w.w2), (0, w.denom, 0));
    let w = to_barycentric(1, 1, &t).unwrap();
    assert_eq!(w.w0 * 4, w.denom * 2);
    assert_eq!(w.w1 * 4, w.denom);
    assert_eq!(w.w2 * 4, w.denom);
    assert!(to_barycentric(5, 5, &t).unwrap().w0 < 0);
}

#[test]
fn barycentric_of_degenerate_triangle() {
    let t = [pt(0, 0, 0), pt(2, 2, 0), pt(4, 4, 0)];
    assert_eq!(to_barycentric(1, 1, &t), None);
}

#[test]
fn right_triangle_in_five_by_five() {
    let mut image = Image::new(5, 5);
    let mut zbuffer = vec![-1i64; 25];
    let red = Color::red();
    let t = [pt(0, 0, 0), pt(4, 0, 0), pt(0, 4, 0)];
    fill_triangle(&mut image, &red, &mut zbuffer, &t);
    for y in 0..5usize {
        for x in 0..5usize {
            if x + y <= 4 {
                assert_eq!(image.get(x, y), red);
                assert_eq!(zbuffer[y * 5 + x], 0);
            } else {
                assert_eq!(image.get(x, y), blank());
                assert_eq!(zbuffer[y * 5 + x], -1);
            }
        }
    }
}

#[test]
fn triangle_vertex_order_does_not_matter() {
    let red = Color::red();
    let (a, b, c) = (pt(1, 0, 0), pt(7, 3, 0), pt(2, 8, 0));
    let mut first: Option<Vec<u8>> = None;
    for t in [[a, b, c], [b, c, a], [c, a, b], [a, c, b], [b, a, c], [c, b, a]] {
        let mut image = Image::new(10, 10);
        let mut zbuffer = vec![-1i64; 100];
        fill_triangle(&mut image, &red, &mut zbuffer, &t);
        let bytes = image.as_bytes().to_vec();
        match &first {
            None => first = Some(bytes),
            Some(r) => assert_eq!(r, &bytes),
        }
    }
}

#[test]
fn degenerate_triangle_writes_nothing() {
    let mut image = Image::new(6, 6);
    let mut zbuffer = vec![i64::MIN; 36];
    let red = Color::red();
    fill_triangle(&mut image, &red, &mut zbuffer, &[pt(0, 0, 5), pt(2, 2, 5), pt(5, 5, 5)]);
    fill_triangle(&mut image, &red, &mut zbuffer, &[pt(3, 3, 5), pt(3, 3, 5), pt(3, 3, 5)]);
    assert!(image.as_bytes().iter().all(|&b| b == 0));
    assert!(zbuffer.iter().all(|&z| z == i64::MIN));
}

#[test]
fn depth_test_is_order_independent() {
    let red = Color::red();
    let blue = Color::new(0, 0, 255, 255);
    let near = [pt(0, 0, 10), pt(6, 0, 10), pt(0, 6, 10)];
    let far = [pt(1, 1, 2), pt(7, 1, 2), pt(1, 7, 2)];
    let mut a = Image::new(8, 8);
    let mut za = vec![i64::MIN; 64];
    fill_triangle(&mut a, &red, &mut za, &near);
    fill_triangle(&mut a, &blue, &mut za, &far);
    let mut b = Image::new(8, 8);
    let mut zb = vec![i64::MIN; 64];
    fill_triangle(&mut b, &blue, &mut zb, &far);
    fill_triangle(&mut b, &red, &mut zb, &near);
    assert_eq!(a.as_bytes(), b.as_bytes());
    assert_eq!(za, zb);
    assert_eq!(a.get(2, 2), red);
    assert_eq!(a.get(6, 1), blue);
}

#[test]
fn depth_is_interpolated() {
    let mut image = Image::new(5, 5);
    let mut zbuffer = vec![i64::MIN; 25];
    let red = Color::red();
    fill_triangle(&mut image, &red, &mut zbuffer, &[pt(0, 0, 0), pt(4, 0, 8), pt(0, 4, 4)]);
    // depth = 2x + y
    assert_eq!(zbuffer[0], 0);
    assert_eq!(zbuffer[1 * 5 + 1], 3);
    assert_eq!(zbuffer[2 * 5 + 1], 4);
    assert_eq!(zbuffer[0 * 5 + 4], 8);
}

#[test]
fn lower_depth_does_not_overwrite() {
    let mut image = Image::new(5, 5);
    let mut zbuffer = vec![100i64; 25];
    let red = Color::red();
    fill_triangle(&mut image, &red, &mut zbuffer, &[pt(0, 0, 0), pt(4, 0, 0), pt(0, 4, 0)]);
    assert!(image.as_bytes().iter().all(|&b| b == 0));
    assert!(zbuffer.iter().all(|&z| z == 100));
}
