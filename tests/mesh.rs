use grapher::color::Color;
use grapher::mesh::{grid_coordinate, Surface};

const ONE: i64 = 1_000_000;

#[test]
fn new_surface_has_square_grid_of_white_vertices() {
    let s = Surface::new(20, 3 * ONE);
    assert_eq!(s.vertices.len(), 21 * 21);
    assert!(s.vertices.iter().all(|v| v.color == Color { r: 255, g: 255, b: 255 }));
    assert!(s.vertices.iter().all(|v| v.position.x == 0 && v.position.y == 0 && v.position.z == 0));
}

#[test]
fn grid_coordinates_run_from_minus_range_to_range() {
    assert_eq!(grid_coordinate(3 * ONE, 20, 0), -3 * ONE);
    assert_eq!(grid_coordinate(3 * ONE, 20, 1), -2_700_000);
    assert_eq!(grid_coordinate(3 * ONE, 20, 10), 0);
    assert_eq!(grid_coordinate(3 * ONE, 20, 20), 3 * ONE);
    // 2 / 3 truncated toward zero on both sides of the centre.
    assert_eq!(grid_coordinate(1, 3, 1), 0);
    assert_eq!(grid_coordinate(10, 3, 1), -3);
    assert_eq!(grid_coordinate(10, 3, 2), 3);
}

#[test]
fn rebuilt_mesh_has_corners_at_the_range() {
    for resolution in [1usize, 2, 5, 7, 50] {
        let mut s = Surface::new(resolution, 2_500_000);
        s.generate_from_expression(|x, y| Some(x + y));
        let n = resolution + 1;
        assert_eq!(s.vertices.len(), n * n);
        let first = s.vertices[0].position;
        let last = s.vertices[n * n - 1].position;
        assert_eq!((first.x, first.y), (-2_500_000, -2_500_000));
        assert_eq!((last.x, last.y), (2_500_000, 2_500_000));
    }
}

#[test]
fn rows_follow_y_and_columns_follow_x() {
    let mut s = Surface::new(2, ONE);
    s.generate_from_expression(|x, y| Some(10 * x + y));
    // Vertex (i = 0, j = 2): y = -1, x = 1.
    let p = s.vertices[2].position;
    assert_eq!((p.x, p.y, p.z), (ONE, -ONE, 9 * ONE));
    // Vertex (i = 2, j = 0): y = 1, x = -1.
    let p = s.vertices[6].position;
    assert_eq!((p.x, p.y, p.z), (-ONE, ONE, -9 * ONE));
}

#[test]
fn constant_surface_is_coloured_at_the_midpoint() {
    let mut s = Surface::new(4, ONE);
    s.generate_from_expression(|_, _| Some(5 * ONE));
    assert!(s.vertices.iter().all(|v| v.color == Color { r: 255, g: 255, b: 0 }));
    assert!(s.vertices.iter().all(|v| v.position.z == 5 * ONE));
}

#[test]
fn all_failing_surface_is_flat_and_coloured_at_the_midpoint() {
    let mut s = Surface::new(3, ONE);
    s.generate_from_expression(|_, _| None);
    assert!(s.vertices.iter().all(|v| v.position.z == 0));
    assert!(s.vertices.iter().all(|v| v.color == Color { r: 255, g: 255, b: 0 }));
}

#[test]
fn colours_follow_the_normalized_height() {
    // Resolution 1: four vertices, heights 0, 1, 2, 3 (row by row).
    let mut s = Surface::new(1, ONE);
    s.fill_from_samples(&vec![Some(0), Some(1), Some(2), Some(3)]);
    assert_eq!(s.vertices[0].color, Color { r: 0, g: 0, b: 255 });
    // 1/3: t = 2/3, 170 and 85.
    assert_eq!(s.vertices[1].color, Color { r: 170, g: 170, b: 85 });
    // 2/3: t = 1/3, green 170.
    assert_eq!(s.vertices[2].color, Color { r: 255, g: 170, b: 0 });
    assert_eq!(s.vertices[3].color, Color { r: 255, g: 0, b: 0 });
}

#[test]
fn failed_samples_sit_at_zero_and_do_not_widen_the_extent() {
    let mut s = Surface::new(1, ONE);
    s.fill_from_samples(&vec![Some(10), None, Some(20), Some(15)]);
    assert_eq!(s.vertices[1].position.z, 0);
    // The extent is 10..20, so 10 is blue and 20 red; zero lies below it.
    assert_eq!(s.vertices[0].color, Color { r: 0, g: 0, b: 255 });
    assert_eq!(s.vertices[2].color, Color { r: 255, g: 0, b: 0 });
    assert_eq!(s.vertices[1].color, Color { r: 0, g: 0, b: 0 });
    assert_eq!(s.vertices[3].color, Color { r: 255, g: 255, b: 0 });
}

#[test]
fn rebuild_replaces_the_previous_grid() {
    let mut s = Surface::new(2, ONE);
    s.generate_from_expression(|x, _| Some(x));
    s.generate_from_expression(|_, y| Some(y));
    assert!(s.vertices.iter().all(|v| v.position.z == v.position.y));
}

#[test]
fn extreme_heights_do_not_overflow_the_colour_mapping() {
    let mut s = Surface::new(1, ONE);
    s.fill_from_samples(&vec![Some(i64::MIN), Some(i64::MAX), Some(0), None]);
    assert_eq!(s.vertices[0].color, Color { r: 0, g: 0, b: 255 });
    assert_eq!(s.vertices[1].color, Color { r: 255, g: 0, b: 0 });
    assert_eq!(s.vertices[2].color, Color { r: 255, g: 255, b: 0 });
}
