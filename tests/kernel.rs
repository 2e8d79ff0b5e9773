use raysphere::matrix::{Matrix, MatrixError, ScaledMatrix};
use raysphere::sphere::{Intersection, Ray, Sphere};
use raysphere::vector::Vector;

fn v(x: i64, y: i64, z: i64, w: i64) -> Vector {
    Vector::new(vec![x, y, z, w])
}

fn m(rows: Vec<Vec<i64>>) -> Matrix {
    Matrix::new(rows).unwrap()
}

fn roots(i: &Intersection) -> (f64, f64) {
    let root = (i.discriminant as f64).sqrt();
    let a2 = 2.0 * i.a as f64;
    ((-(i.b as f64) + root) / a2, (-(i.b as f64) - root) / a2)
}

#[test]
fn vector_new_pads_missing_components() {
    assert_eq!(Vector::new(vec![]), v(0, 0, 0, 0));
    assert_eq!(Vector::new(vec![1, 2]), v(1, 2, 0, 0));
    assert_eq!(Vector::new(vec![1, 2, 3, 4, 5]), Vector { x: 1, y: 2, z: 3, w: 4 });
}

#[test]
fn vector_add_commutes_and_sub_self_is_zero() {
    let a = v(1, -2, 3, 4);
    let b = v(7, 5, -9, 0);
    assert_eq!(a.add(b), v(8, 3, -6, 4));
    assert_eq!(a.add(b), b.add(a));
    assert_eq!(a.sub(a), v(0, 0, 0, 0));
    assert_eq!(a.sub(b), v(-6, -7, 12, 4));
}

#[test]
fn vector_neg_scale_dot() {
    let a = v(1, -2, 3, -4);
    assert_eq!(a.neg(), v(-1, 2, -3, 4));
    assert_eq!(a.scale(3), v(3, -6, 9, -12));
    assert_eq!(a.dot(v(2, 3, 4, 1)), 2 - 6 + 12 - 4);
}

#[test]
fn vector_cross_is_anticommutative_and_drops_w() {
    let a = v(1, 2, 3, 9);
    let b = v(2, 3, 4, 7);
    assert_eq!(a.cross(b), v(-1, 2, -1, 0));
    assert_eq!(b.cross(a), v(1, -2, 1, 0));
    assert_eq!(a.cross(b), b.cross(a).neg());
}

#[test]
fn matrix_new_reports_bad_grids() {
    assert!(matches!(Matrix::new(vec![]), Err(MatrixError::Empty)));
    assert!(matches!(Matrix::new(vec![vec![1, 2], vec![3]]), Err(MatrixError::NotSquare)));
    assert!(matches!(Matrix::new(vec![vec![1, 2, 3], vec![3, 4]]), Err(MatrixError::NotSquare)));
    let ok = m(vec![vec![1, 2], vec![3, 4]]);
    assert_eq!(ok.size, 2);
    assert_eq!(ok.matrix, vec![vec![1, 2], vec![3, 4]]);
}

#[test]
fn matrix_identity_and_multiply() {
    let id = Matrix::identity(3);
    assert_eq!(id.matrix, vec![vec![1, 0, 0], vec![0, 1, 0], vec![0, 0, 1]]);
    let a = m(vec![vec![1, 2, 3], vec![4, 5, 6], vec![7, 8, 10]]);
    assert_eq!(a.multiply(&id).unwrap().matrix, a.matrix);
    assert_eq!(id.multiply(&a).unwrap().matrix, a.matrix);
    let b = m(vec![vec![1, 0, 2], vec![0, 1, 0], vec![3, 0, 1]]);
    assert_eq!(
        a.multiply(&b).unwrap().matrix,
        vec![vec![10, 2, 5], vec![22, 5, 14], vec![37, 8, 24]]
    );
    assert!(matches!(a.multiply(&Matrix::identity(2)), Err(MatrixError::SizeMismatch)));
}

#[test]
fn matrix_times_vector() {
    let t = m(vec![
        vec![1, 0, 0, 5],
        vec![0, 1, 0, -3],
        vec![0, 0, 1, 2],
        vec![0, 0, 0, 1],
    ]);
    assert_eq!(t.multiply_vector(v(-3, 4, 5, 1)).unwrap(), v(2, 1, 7, 1));
    assert!(matches!(
        Matrix::identity(3).multiply_vector(v(1, 2, 3, 0)),
        Err(MatrixError::SizeMismatch)
    ));
}

#[test]
fn matrix_scale_and_transpose() {
    let a = m(vec![vec![1, 2], vec![3, 4]]);
    assert_eq!(a.scale(-2).matrix, vec![vec![-2, -4], vec![-6, -8]]);
    assert_eq!(a.transposed().matrix, vec![vec![1, 3], vec![2, 4]]);
}

#[test]
fn matrix_submatrix_removes_row_and_column() {
    let a = m(vec![vec![1, 5, 0], vec![-3, 2, 7], vec![0, 6, -3]]);
    assert_eq!(a.submatrix(0, 2).matrix, vec![vec![-3, 2], vec![0, 6]]);
    let b = m(vec![
        vec![-6, 1, 1, 6],
        vec![-8, 5, 8, 6],
        vec![-1, 0, 8, 2],
        vec![-7, 1, -1, 1],
    ]);
    assert_eq!(
        b.submatrix(2, 1).matrix,
        vec![vec![-6, 1, 6], vec![-8, 8, 6], vec![-7, -1, 1]]
    );
}

#[test]
fn matrix_determinant_and_cofactors() {
    assert_eq!(m(vec![vec![7]]).determinant(), 7);
    assert_eq!(m(vec![vec![1, 5], vec![-3, 2]]).determinant(), 17);
    let a = m(vec![vec![1, 2, 6], vec![-5, 8, -4], vec![2, 6, 4]]);
    assert_eq!(a.cofactor(0, 0), 56);
    assert_eq!(a.cofactor(0, 1), 12);
    assert_eq!(a.cofactor(0, 2), -46);
    assert_eq!(a.determinant(), -196);
    let b = m(vec![
        vec![-2, -8, 3, 5],
        vec![-3, 1, 7, 3],
        vec![1, 2, -9, 6],
        vec![-6, 7, 7, -9],
    ]);
    assert_eq!(b.cofactor(0, 0), 690);
    assert_eq!(b.cofactor(0, 1), 447);
    assert_eq!(b.cofactor(0, 2), 210);
    assert_eq!(b.cofactor(0, 3), 51);
    assert_eq!(b.determinant(), -4071);
}

#[test]
fn matrix_determinant_of_transpose() {
    let b = m(vec![
        vec![-2, -8, 3, 5],
        vec![-3, 1, 7, 3],
        vec![1, 2, -9, 6],
        vec![-6, 7, 7, -9],
    ]);
    assert_eq!(b.transposed().determinant(), b.determinant());
    let a = m(vec![vec![1, 2, 6], vec![-5, 8, -4], vec![2, 6, 4]]);
    assert_eq!(a.transposed().determinant(), a.determinant());
}

fn times_inverse_is_scaled_identity(a: &Matrix) {
    let inv: ScaledMatrix = a.inverse().unwrap();
    assert_eq!(inv.denominator, a.determinant());
    let n = a.size;
    for y in 0..n {
        for x in 0..n {
            let mut sum: i128 = 0;
            for i in 0..n {
                sum += a.matrix[y][i] as i128 * inv.numerators[i][x];
            }
            let expected = if x == y { inv.denominator } else { 0 };
            assert_eq!(sum, expected);
        }
    }
}

#[test]
fn matrix_inverse_values() {
    let a = m(vec![
        vec![-5, 2, 6, -8],
        vec![1, -5, 1, 8],
        vec![7, 7, -6, -7],
        vec![1, -3, 7, 4],
    ]);
    let inv = a.inverse().unwrap();
    assert_eq!(inv.denominator, 532);
    assert_eq!(inv.numerators[3][2], -160);
    assert_eq!(inv.numerators[2][3], 105);
    assert!(((inv.numerators[3][2] as f64 / inv.denominator as f64) - (-160.0 / 532.0)).abs() < 1e-4);
    times_inverse_is_scaled_identity(&a);
}

#[test]
fn matrix_times_inverse_is_identity() {
    times_inverse_is_scaled_identity(&m(vec![vec![4]]));
    times_inverse_is_scaled_identity(&m(vec![vec![1, 5], vec![-3, 2]]));
    times_inverse_is_scaled_identity(&m(vec![vec![1, 2, 6], vec![-5, 8, -4], vec![2, 6, 4]]));
    times_inverse_is_scaled_identity(&m(vec![
        vec![8, -5, 9, 2],
        vec![7, 5, 6, 1],
        vec![-6, 0, 9, 6],
        vec![-3, 0, -9, -4],
    ]));
    let one = m(vec![vec![4]]).inverse().unwrap();
    assert_eq!(one.numerators, vec![vec![1]]);
    assert_eq!(one.denominator, 4);
}

#[test]
fn matrix_inverse_of_singular_is_refused() {
    let zero = m(vec![vec![0, 0, 0], vec![0, 0, 0], vec![0, 0, 0]]);
    assert!(matches!(zero.inverse(), Err(MatrixError::Singular)));
    let rank_one = m(vec![vec![1, 2], vec![2, 4]]);
    assert!(matches!(rank_one.inverse(), Err(MatrixError::Singular)));
}

fn unit_sphere_at_three() -> Sphere {
    Sphere { position: v(0, 0, 3, 0), radius: 1 }
}

#[test]
fn sphere_ray_through_centre() {
    let s = unit_sphere_at_three();
    let ray = Ray { origin: v(0, 0, 0, 0), direction: v(0, 0, 1, 0) };
    let i = s.intersect(ray).unwrap();
    assert_eq!(i, Intersection { a: 1, b: -6, c: 8, discriminant: 4 });
    assert_eq!(roots(&i), (4.0, 2.0));
    assert!(i.in_front());
    assert!(s.hit(ray));
}

#[test]
fn sphere_parallel_ray_misses() {
    let s = unit_sphere_at_three();
    let ray = Ray { origin: v(0, 0, 0, 0), direction: v(1, 0, 0, 0) };
    assert_eq!(s.intersect(ray), None);
    assert!(!s.hit(ray));
}

#[test]
fn sphere_ray_from_inside_hits() {
    let s = unit_sphere_at_three();
    let ray = Ray { origin: v(0, 0, 3, 0), direction: v(0, 0, 1, 0) };
    let i = s.intersect(ray).unwrap();
    let (t1, t2) = roots(&i);
    assert!(t1 > 0.0 && t2 < 0.0);
    assert_eq!((t1, t2), (1.0, -1.0));
    assert!(s.hit(ray));
}

#[test]
fn sphere_behind_the_ray_is_no_hit() {
    let s = unit_sphere_at_three();
    let ray = Ray { origin: v(0, 0, 0, 0), direction: v(0, 0, -1, 0) };
    let i = s.intersect(ray).unwrap();
    let (t1, t2) = roots(&i);
    assert_eq!((t1, t2), (-2.0, -4.0));
    assert!(!i.in_front());
    assert!(!s.hit(ray));
}

#[test]
fn sphere_tangent_ray_hits_once() {
    let s = unit_sphere_at_three();
    let ray = Ray { origin: v(1, 0, 0, 0), direction: v(0, 0, 1, 0) };
    let i = s.intersect(ray).unwrap();
    assert_eq!(i.discriminant, 0);
    assert_eq!(roots(&i), (3.0, 3.0));
    assert!(s.hit(ray));
}

#[test]
fn sphere_zero_direction_is_no_hit() {
    let s = unit_sphere_at_three();
    let ray = Ray { origin: v(0, 0, 0, 0), direction: v(0, 0, 0, 0) };
    let i = s.intersect(ray).unwrap();
    assert_eq!(i.a, 0);
    assert!(!s.hit(ray));
}

#[test]
fn small_matrix_laws() {
    let a = m(vec![vec![3, -7], vec![2, 5]]);
    assert_eq!(a.transposed().determinant(), a.determinant());
    assert_eq!(a.determinant(), 29);
    let inv = a.inverse().unwrap();
    assert_eq!(inv.numerators, vec![vec![5, 7], vec![-2, 3]]);
    assert_eq!(inv.denominator, 29);
    times_inverse_is_scaled_identity(&a);
}
