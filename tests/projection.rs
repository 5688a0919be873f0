use grapher::mesh::{Point3, Surface};
use grapher::projection::{project_vertex, Matrix3, Point2};

const ONE: i64 = 1_000_000;

fn identity() -> Matrix3 {
    Matrix3 { xx: ONE, xy: 0, xz: 0, yx: 0, yy: ONE, yz: 0, zx: 0, zy: 0, zz: ONE }
}

/// Quarter turn about the x axis: y goes to z.
fn quarter_turn_x() -> Matrix3 {
    Matrix3 { xx: ONE, xy: 0, xz: 0, yx: 0, yy: 0, yz: -ONE, zx: 0, zy: ONE, zz: 0 }
}

#[test]
fn identity_keeps_x_and_uses_z_as_vertical() {
    let p = Point3 { x: 3 * ONE, y: 4 * ONE, z: -5 * ONE };
    assert_eq!(project_vertex(&identity(), &p, ONE as u32), Point2 { x: 3 * ONE as i128, y: -5 * ONE as i128 });
}

#[test]
fn zoom_scales_after_rotation() {
    let p = Point3 { x: 3 * ONE, y: 4 * ONE, z: -5 * ONE };
    let q = project_vertex(&identity(), &p, 2 * ONE as u32);
    assert_eq!(q, Point2 { x: 6 * ONE as i128, y: -10 * ONE as i128 });
    let q = project_vertex(&quarter_turn_x(), &p, 500_000);
    assert_eq!(q, Point2 { x: 1_500_000, y: 2 * ONE as i128 });
}

#[test]
fn fractional_results_truncate_toward_zero() {
    let m = Matrix3 { xx: 333_333, xy: 0, xz: 0, yx: 0, yy: ONE, yz: 0, zx: 0, zy: 0, zz: -333_333 };
    let p = Point3 { x: 10, y: 0, z: 10 };
    assert_eq!(project_vertex(&m, &p, ONE as u32), Point2 { x: 3, y: -3 });
}

#[test]
fn origin_projects_to_origin() {
    let origin = Point3 { x: 0, y: 0, z: 0 };
    let m = Matrix3 { xx: 866_025, xy: -500_000, xz: 0, yx: 500_000, yy: 866_025, yz: 0, zx: 0, zy: 0, zz: ONE };
    assert_eq!(project_vertex(&m, &origin, ONE as u32), Point2 { x: 0, y: 0 });
    assert_eq!(project_vertex(&quarter_turn_x(), &origin, 3 * ONE as u32), Point2 { x: 0, y: 0 });
}

#[test]
fn projected_points_are_row_major_with_parallel_colours() {
    let mut s = Surface::new(2, ONE);
    s.generate_from_expression(|x, y| Some(x - y));
    let (points, colors) = s.project_points(&identity(), ONE as u32);
    assert_eq!(points.len(), 9);
    assert_eq!(colors.len(), 9);
    for (k, v) in s.vertices.iter().enumerate() {
        assert_eq!(points[k], Point2 { x: v.position.x as i128, y: v.position.z as i128 });
        assert_eq!(colors[k], v.color);
    }
}

#[test]
fn wireframe_has_a_polyline_per_row_and_per_column() {
    for r in [1usize, 3, 5, 20] {
        let mut s = Surface::new(r, 2 * ONE);
        s.generate_from_expression(|x, y| Some(x / 2 + y / 3));
        let lines = s.get_wireframe_lines(&identity(), ONE as u32);
        assert_eq!(lines.len(), 2 * (r + 1));
        assert!(lines.iter().all(|l| l.len() == r + 1));
    }
}

#[test]
fn wireframe_rows_and_columns_pass_through_the_grid() {
    let mut s = Surface::new(2, ONE);
    s.generate_from_expression(|x, y| Some(x + 2 * y));
    let lines = s.get_wireframe_lines(&quarter_turn_x(), ONE as u32);
    let (points, _) = s.project_points(&quarter_turn_x(), ONE as u32);
    for i in 0..3 {
        for j in 0..3 {
            assert_eq!(lines[i][j], points[i * 3 + j]);
            assert_eq!(lines[3 + j][i], points[i * 3 + j]);
        }
    }
}
