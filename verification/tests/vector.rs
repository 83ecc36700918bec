use primitives::vector::{calc_4d_matrix, cross4, dot4, Vector4};
use primitives::GeometryError;

fn camera() -> (Vector4, Vector4, Vector4, Vector4) {
    (
        Vector4::new(5, 0, 0, 0),
        Vector4::new(0, 0, 0, 0),
        Vector4::new(0, 1, 0, 0),
        Vector4::new(0, 0, 1, 0),
    )
}

#[test]
fn new_keeps_the_coordinates() {
    let v = Vector4::new(1, -2, 3, -4);
    assert_eq!((v.x, v.y, v.z, v.w), (1, -2, 3, -4));
}

#[test]
fn dot4_of_two_vectors() {
    let v = Vector4::new(1, 2, 3, 4);
    let u = Vector4::new(5, -6, 7, -8);
    assert_eq!(dot4(&v, &u), 5 - 12 + 21 - 32);
    assert_eq!(dot4(&u, &v), dot4(&v, &u));
}

#[test]
fn dot4_of_the_largest_coordinates_is_exact() {
    let v = Vector4::new(i32::MIN, i32::MIN, i32::MIN, i32::MIN);
    assert_eq!(dot4(&v, &v), 4 * (1i128 << 62));
}

#[test]
fn minus_subtracts_by_coordinate() {
    let p = Vector4::new(1, 2, 3, 4);
    let q = Vector4::new(5, 0, -1, 4);
    assert_eq!(p.minus(&q), Some(Vector4::new(-4, 2, 4, 0)));
}

#[test]
fn minus_that_does_not_fit_is_none() {
    let p = Vector4::new(i32::MAX, 0, 0, 0);
    let q = Vector4::new(-1, 0, 0, 0);
    assert_eq!(p.minus(&q), None);
}

#[test]
fn cross4_of_three_axes_is_the_fourth() {
    let x = Vector4::new(1, 0, 0, 0);
    let y = Vector4::new(0, 1, 0, 0);
    let z = Vector4::new(0, 0, 1, 0);
    assert_eq!(cross4(&x, &y, &z), Some(Vector4::new(0, 0, 0, -1)));
}

#[test]
fn cross4_of_three_vectors() {
    let u = Vector4::new(2, -1, 3, 5);
    let v = Vector4::new(1, 4, -2, 7);
    let w = Vector4::new(3, 3, 1, -6);
    assert_eq!(cross4(&u, &v, &w), Some(Vector4::new(180, -126, -162, 0)));
}

#[test]
fn cross4_is_orthogonal_to_its_arguments() {
    let u = Vector4::new(2, -1, 3, 5);
    let v = Vector4::new(1, 4, -2, 7);
    let w = Vector4::new(3, 3, 1, -6);
    let c = cross4(&u, &v, &w).unwrap();
    assert_eq!(dot4(&c, &u), 0);
    assert_eq!(dot4(&c, &v), 0);
    assert_eq!(dot4(&c, &w), 0);
}

#[test]
fn cross4_changes_its_sign_where_two_arguments_change_places() {
    let u = Vector4::new(2, -1, 3, 5);
    let v = Vector4::new(1, 4, -2, 7);
    let w = Vector4::new(3, 3, 1, -6);
    let opposite = Some(Vector4::new(-180, 126, 162, 0));
    assert_eq!(cross4(&u, &w, &v), opposite);
    assert_eq!(cross4(&v, &u, &w), opposite);
    assert_eq!(cross4(&w, &v, &u), opposite);
    assert_eq!(cross4(&v, &w, &u), cross4(&u, &v, &w));
}

#[test]
fn cross4_of_dependent_vectors_is_zero() {
    let u = Vector4::new(1, 2, 3, 4);
    let v = Vector4::new(2, 4, 6, 8);
    let w = Vector4::new(0, 1, 0, 7);
    assert_eq!(cross4(&u, &v, &w), Some(Vector4::new(0, 0, 0, 0)));
}

#[test]
fn cross4_that_does_not_fit_is_none() {
    let big = 1 << 20;
    let x = Vector4::new(big, 0, 0, 0);
    let y = Vector4::new(0, big, 0, 0);
    let z = Vector4::new(0, 0, big, 0);
    assert_eq!(cross4(&x, &y, &z), None);
}

#[test]
fn frame_of_the_usual_camera() {
    let (from, to, up, over) = camera();
    let (a, b, c, d) = calc_4d_matrix(from, to, up, over).unwrap();
    assert_eq!(a, Vector4::new(0, 0, 0, 1));
    assert_eq!(b, Vector4::new(0, -1, 0, 0));
    assert_eq!(c, Vector4::new(0, 0, -1, 0));
    assert_eq!(d, Vector4::new(-1, 0, 0, 0));
}

#[test]
fn frame_of_other_cameras() {
    assert_eq!(
        calc_4d_matrix(
            Vector4::new(0, 0, 0, -7),
            Vector4::new(0, 0, 0, 2),
            Vector4::new(1, 0, 0, 0),
            Vector4::new(0, 1, 0, 0)
        ),
        Ok((
            Vector4::new(0, 0, 1, 0),
            Vector4::new(-1, 0, 0, 0),
            Vector4::new(0, -1, 0, 0),
            Vector4::new(0, 0, 0, 1)
        ))
    );
    assert_eq!(
        calc_4d_matrix(
            Vector4::new(0, 2, 0, 0),
            Vector4::new(0, -9, 0, 0),
            Vector4::new(0, 0, 0, 4),
            Vector4::new(-6, 0, 0, 0)
        ),
        Ok((
            Vector4::new(0, 0, 1, 0),
            Vector4::new(0, 0, 0, -1),
            Vector4::new(1, 0, 0, 0),
            Vector4::new(0, -1, 0, 0)
        ))
    );
    assert_eq!(
        calc_4d_matrix(
            Vector4::new(1, 2, 3, 4),
            Vector4::new(1, 2, 8, 4),
            Vector4::new(5, 1, 0, 0),
            Vector4::new(0, 1, 0, 0)
        ),
        Ok((
            Vector4::new(0, 0, 0, -1),
            Vector4::new(-1, 0, 0, 0),
            Vector4::new(0, -1, 0, 0),
            Vector4::new(0, 0, 1, 0)
        ))
    );
}

#[test]
fn frame_does_not_depend_on_the_lengths_of_the_hints_or_the_distance() {
    let (from, to, up, over) = camera();
    let usual = calc_4d_matrix(from, to, up, over);
    assert_eq!(
        calc_4d_matrix(
            Vector4::new(1000, 0, 0, 0),
            to,
            Vector4::new(0, 3, 0, 0),
            Vector4::new(0, 0, 2, 0)
        ),
        usual
    );
    assert_eq!(
        calc_4d_matrix(Vector4::new(i32::MAX, 0, 0, 0), to, up, over),
        usual
    );
    assert_eq!(
        calc_4d_matrix(
            Vector4::new(i32::MIN, 0, 0, 0),
            Vector4::new(1, 0, 0, 0),
            Vector4::new(0, i32::MIN, 0, 0),
            Vector4::new(0, 0, i32::MIN, 0)
        ),
        Ok((
            Vector4::new(0, 0, 0, -1),
            Vector4::new(0, 1, 0, 0),
            Vector4::new(0, 0, 1, 0),
            Vector4::new(1, 0, 0, 0)
        ))
    );
}

#[test]
fn frame_is_orthonormal() {
    let cameras = [
        camera(),
        (
            Vector4::new(0, 0, 0, -7),
            Vector4::new(0, 0, 0, 2),
            Vector4::new(1, 0, 0, 0),
            Vector4::new(0, 1, 0, 0),
        ),
        (
            Vector4::new(1, 2, 3, 4),
            Vector4::new(1, 2, 8, 4),
            Vector4::new(5, 1, 0, 0),
            Vector4::new(0, 1, 0, 0),
        ),
    ];
    for (from, to, up, over) in cameras {
        let (a, b, c, d) = calc_4d_matrix(from, to, up, over).unwrap();
        assert_eq!(dot4(&a, &b), 0);
        assert_eq!(dot4(&a, &c), 0);
        assert_eq!(dot4(&b, &c), 0);
        assert_eq!(dot4(&a, &d), 0);
        assert_eq!(dot4(&b, &d), 0);
        assert_eq!(dot4(&c, &d), 0);
        assert_eq!(dot4(&a, &a), 1);
        assert_eq!(dot4(&b, &b), 1);
        assert_eq!(dot4(&c, &c), 1);
        assert_eq!(dot4(&d, &d), 1);
        assert_eq!(cross4(&d, &a, &b), Some(c));
    }
}

#[test]
fn frame_points_from_the_camera_to_its_target() {
    let from = Vector4::new(1, 2, 3, 4);
    let to = Vector4::new(1, 2, 8, 4);
    let (_, _, _, d) = calc_4d_matrix(from, to, Vector4::new(5, 1, 0, 0), Vector4::new(0, 1, 0, 0))
        .unwrap();
    let offset = to.minus(&from).unwrap();
    let length = dot4(&offset, &d);
    assert_eq!(length, 5);
    assert_eq!(
        offset,
        Vector4::new(5 * d.x, 5 * d.y, 5 * d.z, 5 * d.w)
    );
}

#[test]
fn frame_of_a_camera_at_its_target_is_degenerate() {
    let (from, _, up, over) = camera();
    assert_eq!(
        calc_4d_matrix(from, from, up, over),
        Err(GeometryError::DegenerateCameraBasis)
    );
}

#[test]
fn frame_with_up_equal_to_over_is_degenerate() {
    let (from, to, up, _) = camera();
    assert_eq!(
        calc_4d_matrix(from, to, up, up),
        Err(GeometryError::DegenerateCameraBasis)
    );
}

#[test]
fn frame_with_up_along_the_direction_is_degenerate() {
    let (from, to, _, over) = camera();
    assert_eq!(
        calc_4d_matrix(from, to, Vector4::new(7, 0, 0, 0), over),
        Err(GeometryError::DegenerateCameraBasis)
    );
}

#[test]
fn frame_whose_direction_leaves_the_axes_is_not_on_the_lattice() {
    let (from, _, up, over) = camera();
    assert_eq!(
        calc_4d_matrix(from, Vector4::new(4, 1, 0, 0), up, over),
        Err(GeometryError::NoLatticeFrame)
    );
}

#[test]
fn frame_whose_first_vector_leaves_the_axes_is_not_on_the_lattice() {
    let (from, to, up, _) = camera();
    assert_eq!(
        calc_4d_matrix(from, to, up, Vector4::new(0, 1, 1, 1)),
        Err(GeometryError::NoLatticeFrame)
    );
}

#[test]
fn frame_whose_second_vector_leaves_the_axes_is_not_on_the_lattice() {
    let (from, to, up, _) = camera();
    assert_eq!(
        calc_4d_matrix(from, to, up, Vector4::new(0, 1, 1, 0)),
        Err(GeometryError::NoLatticeFrame)
    );
}
