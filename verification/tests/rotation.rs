use primitives::matrix::{rotation_matrix, Matrix4};
use primitives::vector::Vector4;
use primitives::{Axis, GeometryError, Rotation, Vertex};

const IDENTITY: [[i64; 4]; 4] = [[1, 0, 0, 0], [0, 1, 0, 0], [0, 0, 1, 0], [0, 0, 0, 1]];

#[test]
fn rotation_matrix_in_the_plane_xw() {
    let m = rotation_matrix(Rotation::XW, 3, 4);
    assert_eq!(m.rows, [[3, 0, 0, 4], [0, 1, 0, 0], [0, 0, 1, 0], [-4, 0, 0, 3]]);
}

#[test]
fn rotation_matrix_in_the_plane_yw() {
    let m = rotation_matrix(Rotation::YW, 3, 4);
    assert_eq!(m.rows, [[1, 0, 0, 0], [0, 3, 0, -4], [0, 0, 1, 0], [0, 4, 0, 3]]);
}

#[test]
fn rotation_matrix_in_the_plane_zw() {
    let m = rotation_matrix(Rotation::ZW, 3, 4);
    assert_eq!(m.rows, [[1, 0, 0, 0], [0, 1, 0, 0], [0, 0, 3, -4], [0, 0, 4, 3]]);
}

#[test]
fn rotation_matrix_by_the_angle_zero_is_the_identity() {
    assert_eq!(rotation_matrix(Rotation::XW, 1, 0).rows, IDENTITY);
    assert_eq!(rotation_matrix(Rotation::YW, 1, 0).rows, IDENTITY);
    assert_eq!(rotation_matrix(Rotation::ZW, 1, 0).rows, IDENTITY);
}

#[test]
fn rotation_matrix_takes_the_least_sine() {
    let m = rotation_matrix(Rotation::XW, 0, i32::MIN);
    assert_eq!(m.rows[3][0], 1i64 << 31);
    assert_eq!(m.rows[0][3], -(1i64 << 31));
}

#[test]
fn transform_multiplies_rows_by_the_column() {
    let m = Matrix4 {
        rows: [[1, 2, 3, 4], [5, 6, 7, 8], [9, 10, 11, 12], [13, 14, 15, 16]],
    };
    let v = Vector4::new(1, -1, 2, -2);
    assert_eq!(m.transform(&v), Some(Vector4::new(-3, -3, -3, -3)));
}

#[test]
fn transform_in_the_plane_xw_follows_the_formula() {
    let m = rotation_matrix(Rotation::XW, 3, 4);
    let v = Vector4::new(2, 7, -9, 5);
    assert_eq!(
        m.transform(&v),
        Some(Vector4::new(3 * 2 + 4 * 5, 7, -9, -4 * 2 + 3 * 5))
    );
}

#[test]
fn transform_in_the_plane_yw_follows_the_formula() {
    let m = rotation_matrix(Rotation::YW, 3, 4);
    let v = Vector4::new(2, 7, -9, 5);
    assert_eq!(
        m.transform(&v),
        Some(Vector4::new(2, 3 * 7 - 4 * 5, -9, 4 * 7 + 3 * 5))
    );
}

#[test]
fn transform_in_the_plane_zw_follows_the_formula() {
    let m = rotation_matrix(Rotation::ZW, 3, 4);
    let v = Vector4::new(2, 7, -9, 5);
    assert_eq!(
        m.transform(&v),
        Some(Vector4::new(2, 7, 3 * -9 - 4 * 5, 4 * -9 + 3 * 5))
    );
}

#[test]
fn transform_that_does_not_fit_is_none() {
    let m = Matrix4 {
        rows: [[2, 0, 0, 0], [0, 1, 0, 0], [0, 0, 1, 0], [0, 0, 0, 1]],
    };
    assert_eq!(m.transform(&Vector4::new(i32::MAX, 0, 0, 0)), None);
}

#[test]
fn transform_with_the_largest_entries_does_not_fit() {
    let m = Matrix4 {
        rows: [[i64::MIN; 4]; 4],
    };
    assert_eq!(
        m.transform(&Vector4::new(i32::MIN, i32::MIN, i32::MIN, i32::MIN)),
        None
    );
    assert_eq!(
        m.transform(&Vector4::new(0, 0, 0, 0)),
        Some(Vector4::new(0, 0, 0, 0))
    );
}

#[test]
fn vertex_new_holds_its_position() {
    let v = Vertex::new(1, 2, 3, 4);
    assert_eq!(v.position, Vector4::new(1, 2, 3, 4));
}

#[test]
fn vertex_apply_matrix_moves_the_vertex() {
    let mut v = Vertex::new(1, 2, 3, 4);
    assert_eq!(v.apply_matrix(rotation_matrix(Rotation::XW, 0, 1)), Ok(()));
    assert_eq!(v.position, Vector4::new(4, 2, 3, -1));
}

#[test]
fn vertex_apply_matrix_that_does_not_fit_changes_nothing() {
    let mut v = Vertex::new(i32::MAX, 2, 3, 1);
    assert_eq!(
        v.apply_matrix(rotation_matrix(Rotation::XW, 1, 1)),
        Err(GeometryError::Overflow)
    );
    assert_eq!(v.position, Vector4::new(i32::MAX, 2, 3, 1));
}

#[test]
fn vertex_translate_shifts_the_fourth_coordinate() {
    let mut v = Vertex::new(1, 2, 3, 4);
    assert_eq!(v.translate(-10), Ok(()));
    assert_eq!(v.position, Vector4::new(1, 2, 3, -6));
}

#[test]
fn vertex_translate_that_does_not_fit_changes_nothing() {
    let mut v = Vertex::new(1, 2, 3, i32::MAX);
    assert_eq!(v.translate(1), Err(GeometryError::Overflow));
    assert_eq!(v.position, Vector4::new(1, 2, 3, i32::MAX));
}

#[test]
fn vertex_scale_stretches_one_axis() {
    let mut v = Vertex::new(1, 2, 3, 4);
    assert_eq!(v.scale(Axis::X, 5), Ok(()));
    assert_eq!(v.position, Vector4::new(5, 2, 3, 4));
    assert_eq!(v.scale(Axis::Y, -1), Ok(()));
    assert_eq!(v.position, Vector4::new(5, -2, 3, 4));
    assert_eq!(v.scale(Axis::Z, 0), Ok(()));
    assert_eq!(v.position, Vector4::new(5, -2, 0, 4));
    assert_eq!(v.scale(Axis::W, 3), Ok(()));
    assert_eq!(v.position, Vector4::new(5, -2, 0, 12));
}

#[test]
fn vertex_scale_that_does_not_fit_changes_nothing() {
    let mut v = Vertex::new(1, 2, i32::MIN, 4);
    assert_eq!(v.scale(Axis::Z, -1), Err(GeometryError::Overflow));
    assert_eq!(v.position, Vector4::new(1, 2, i32::MIN, 4));
}
