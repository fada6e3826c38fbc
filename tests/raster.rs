use ascii_engine::engine::{Engine, BLANK};
use ascii_engine::math::triangle::Triangle2D;
use ascii_engine::math::vector::{Vec2, SUBPIXEL};

fn cell(e: &Engine, x: usize, y: usize) -> char {
    e.pixel_buffer[y * e.width + x]
}

fn filled(e: &Engine, c: char) -> Vec<(usize, usize)> {
    let mut out = Vec::new();
    for y in 0..e.height {
        for x in 0..e.width {
            if cell(e, x, y) == c {
                out.push((x, y));
            }
        }
    }
    out
}

#[test]
fn new_engine_is_blank() {
    let e = Engine::new(4, 3);
    assert_eq!(e.width, 4);
    assert_eq!(e.height, 3);
    assert_eq!(e.pixel_buffer_size, 12);
    assert_eq!(e.pixel_buffer.len(), 12);
    assert!(e.pixel_buffer.iter().all(|&c| c == BLANK));
}

#[test]
fn clear_overwrites_every_cell() {
    let mut e = Engine::new(5, 2);
    e.put_pixel(1, 1, '#');
    e.clear('.');
    assert!(e.pixel_buffer.iter().all(|&c| c == '.'));
}

#[test]
fn put_pixel_writes_row_major_and_ignores_outside() {
    let mut e = Engine::new(3, 2);
    e.put_pixel(2, 1, '@');
    assert_eq!(e.pixel_buffer[5], '@');
    e.put_pixel(3, 0, '#');
    e.put_pixel(-1, 0, '#');
    e.put_pixel(0, 2, '#');
    e.put_pixel(0, -1, '#');
    assert_eq!(filled(&e, '#'), vec![]);
    assert_eq!(filled(&e, '@'), vec![(2, 1)]);
}

#[test]
fn split_square_leaves_no_seam() {
    let s = SUBPIXEL;
    let (x0, y0, x1, y1) = (2 * s, 1 * s, 6 * s, 5 * s);
    let a = Vec2::new(x0, y0);
    let b = Vec2::new(x1, y0);
    let c = Vec2::new(x1, y1);
    let d = Vec2::new(x0, y1);
    let mut e = Engine::new(10, 8);
    e.put_triangle(&Triangle2D::new(a, b, c), '#');
    e.put_triangle(&Triangle2D::new(a, c, d), '#');
    let mut expected = Vec::new();
    for y in 1..=5 {
        for x in 2..=6 {
            expected.push((x, y));
        }
    }
    assert_eq!(filled(&e, '#'), expected);
}

#[test]
fn shared_edge_pixels_are_filled_by_both_halves() {
    let s = SUBPIXEL;
    let a = Vec2::new(0, 0);
    let b = Vec2::new(4 * s, 0);
    let c = Vec2::new(4 * s, 4 * s);
    let d = Vec2::new(0, 4 * s);
    let first = Triangle2D::new(a, b, c);
    let second = Triangle2D::new(a, c, d);
    for k in 0..=4 {
        assert!(first.covers_cell(k, k));
        assert!(second.covers_cell(k, k));
    }
    assert!(first.covers_cell(3, 1));
    assert!(!second.covers_cell(3, 1));
    assert!(second.covers_cell(1, 3));
    assert!(!first.covers_cell(1, 3));
}

#[test]
fn winding_does_not_matter() {
    let s = SUBPIXEL;
    let a = Vec2::new(1 * s, 1 * s);
    let b = Vec2::new(7 * s, 1 * s);
    let c = Vec2::new(1 * s, 6 * s);
    let mut one = Engine::new(10, 10);
    let mut other = Engine::new(10, 10);
    one.put_triangle(&Triangle2D::new(a, b, c), 'x');
    other.put_triangle(&Triangle2D::new(a, c, b), 'x');
    assert_eq!(one.pixel_buffer, other.pixel_buffer);
    assert!(!filled(&one, 'x').is_empty());
}

#[test]
fn triangle_partly_off_screen_is_cut_at_the_border() {
    let s = SUBPIXEL;
    let tri = Triangle2D::new(Vec2::new(-5 * s, -5 * s), Vec2::new(20 * s, -5 * s), Vec2::new(-5 * s, 20 * s));
    let mut e = Engine::new(4, 3);
    e.put_triangle(&tri, '#');
    assert_eq!(filled(&e, '#').len(), 12);
}

#[test]
fn collapsed_triangle_fills_only_its_point() {
    let s = SUBPIXEL;
    let p = Vec2::new(3 * s, 2 * s);
    let mut e = Engine::new(8, 6);
    e.put_triangle(&Triangle2D::new(p, p, p), '*');
    assert_eq!(filled(&e, '*'), vec![(3, 2)]);
}

#[test]
fn collinear_triangle_fills_its_line_within_the_rounded_box() {
    let s = SUBPIXEL;
    let h = s / 2;
    let tri = Triangle2D::new(Vec2::new(h, h), Vec2::new(2 * s + h, 2 * s + h), Vec2::new(s + h, s + h));
    let mut e = Engine::new(6, 6);
    e.put_triangle(&tri, '/');
    assert_eq!(filled(&e, '/'), vec![(0, 0), (1, 1), (2, 2), (3, 3)]);
}

#[test]
fn box_reaches_the_rounded_out_cells() {
    let s = SUBPIXEL;
    let h = s / 2;
    // A large triangle whose corners sit inside cells 1 and 5: cell 1's
    // corner (1, 1) lies on none of its edges and is left out, cell 6 is
    // outside the box.
    let tri = Triangle2D::new(Vec2::new(s + h, s + h), Vec2::new(5 * s + h, s + h), Vec2::new(s + h, 5 * s + h));
    assert!(!tri.covers_cell(1, 1));
    assert!(tri.covers_cell(2, 2));
    assert!(!tri.covers_cell(6, 2));
}

#[test]
fn sub_cell_vertices_cover_only_enclosed_cell_corners() {
    let s = SUBPIXEL;
    let half = s / 2;
    let tri = Triangle2D::new(Vec2::new(half, half), Vec2::new(2 * s + half, half), Vec2::new(half, 2 * s + half));
    assert!(!tri.covers_cell(0, 0));
    assert!(tri.covers_cell(1, 1));
    // on the long edge x + y = 3
    assert!(tri.covers_cell(2, 1));
    assert!(tri.covers_cell(1, 2));
    assert!(!tri.covers_cell(2, 2));
    assert!(!tri.covers_cell(3, 1));
}

#[test]
fn centered_triangle_lands_in_the_middle_of_the_screen() {
    // The triangle (-0.5,-0.5,1), (0,0.5,1), (0.5,-0.5,1) seen from the
    // origin with focal length 1 maps on an 80x24 screen to the cells
    // (34,18), (40,6), (46,18).
    let s = SUBPIXEL;
    let tri = Triangle2D::new(Vec2::new(34 * s, 18 * s), Vec2::new(40 * s, 6 * s), Vec2::new(46 * s, 18 * s));
    let mut e = Engine::new(80, 24);
    e.clear(' ');
    e.put_triangle(&tri, '#');
    assert_eq!(e.pixel_buffer.len(), 80 * 24);
    let cells = filled(&e, '#');
    assert!(!cells.is_empty());
    let n = cells.len();
    let mean_x: usize = cells.iter().map(|c| c.0).sum::<usize>() / n;
    let mean_y: usize = cells.iter().map(|c| c.1).sum::<usize>() / n;
    assert_eq!(mean_x, 40);
    assert!(mean_y > 12);
    assert!(cells.iter().all(|&(x, y)| (34..=46).contains(&x) && (6..=18).contains(&y)));
    assert!(cell(&e, 40, 6) == '#' && cell(&e, 34, 18) == '#' && cell(&e, 46, 18) == '#');
}

#[test]
fn cell_point_is_scaled() {
    let v = Vec2::cell(3, -2);
    assert_eq!(v, Vec2::new(3 * SUBPIXEL, -2 * SUBPIXEL));
}

#[test]
fn triangle_vertices_can_be_moved() {
    let mut t = Triangle2D::new(Vec2::new(0, 0), Vec2::new(1, 1), Vec2::new(2, 2));
    t.update_v1(5, 6);
    t.update_v2(7, 8);
    t.update_v3(9, 10);
    assert_eq!(t, Triangle2D::new(Vec2::new(5, 6), Vec2::new(7, 8), Vec2::new(9, 10)));
}
