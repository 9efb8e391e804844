use linalg::matrix::Matrix;
use linalg::vector::Vector;

fn mat3(values: [[i64; 3]; 3]) -> Matrix<3> {
    let rows: Vec<Vec<i64>> = values.iter().map(|row| row.to_vec()).collect();
    Matrix::new(rows)
}

fn vec3(values: [i64; 3]) -> Vector<3> {
    Vector::new(values.to_vec())
}

#[test]
fn matrix_multiply() {
    let a = mat3([
        [1, 2, 3],
        [4, 5, 6],
        [7, 8, 9],
    ]);

    let b = mat3([
        [9, 8, 7],
        [6, 5, 4],
        [3, 2, 1],
    ]);

    let c = mat3([
        [30, 24, 18],
        [84, 69, 54],
        [138, 114, 90],
    ]);

    println!("{:#?}", c);

    assert_eq!(a.matmult(&b), c);
}

#[test]
fn decompose() {
    let a = mat3([
        [1, 2, 3],
        [4, 5, 6],
        [7, 8, 9],
    ]);

    let basis: Vec<Vector<3>> = vec![
        vec3([1, 4, 7]),
        vec3([2, 5, 8]),
        vec3([3, 6, 9]),
    ];

    assert_eq!(a.decompose(), basis);
}

#[test]
fn decomposition() {
    let basis = Vector::<3>::basis();

    println!("{:#?}", basis);
}

#[test]
fn decompose_recompose() {
    let a = mat3([
        [2, -7, 0],
        [11, 5, -3],
        [1, 0, 8],
    ]);

    let cols = a.decompose();
    let mut rows: Vec<Vec<i64>> = Vec::new();
    for i in 0..3 {
        let mut row: Vec<i64> = Vec::new();
        for (_, col) in cols.iter().enumerate().take(3) {
            row.push(col.get(i));
        }
        rows.push(row);
    }
    let recomposed: Matrix<3> = Matrix::new(rows);

    assert_eq!(recomposed, a);
}

#[test]
fn identity_mult_returns_vector() {
    let v = vec3([13, -4, 999]);
    let m = Matrix::<3>::identity();

    assert_eq!(m.mult(&v), v);
    assert_eq!(v.mult(&m), v);
}

#[test]
fn identity_entries() {
    let m = Matrix::<4>::identity();
    for i in 0..4 {
        for j in 0..4 {
            assert_eq!(m.get(i, j), if i == j { 1 } else { 0 });
        }
    }
}

#[test]
fn zero_entries() {
    let m = Matrix::<2>::zero();
    for i in 0..2 {
        for j in 0..2 {
            assert_eq!(m.get(i, j), 0);
        }
    }
}

#[test]
fn matrix_get_set() {
    let mut m = Matrix::<3>::zero();
    m.set(1, 2, 42);
    assert_eq!(m.get(1, 2), 42);
    assert_eq!(m.get(2, 1), 0);
}

#[test]
fn matrix_scale_add_sub() {
    let a = mat3([
        [1, 2, 3],
        [4, 5, 6],
        [7, 8, 9],
    ]);
    let b = mat3([
        [9, 8, 7],
        [6, 5, 4],
        [3, 2, 1],
    ]);

    let doubled = mat3([
        [2, 4, 6],
        [8, 10, 12],
        [14, 16, 18],
    ]);
    let sum = mat3([
        [10, 10, 10],
        [10, 10, 10],
        [10, 10, 10],
    ]);
    let difference = mat3([
        [-8, -6, -4],
        [-2, 0, 2],
        [4, 6, 8],
    ]);

    assert_eq!(a.scale(2), doubled);
    assert_eq!(a.add(&b), sum);
    assert_eq!(a.sub(&b), difference);
}

#[test]
fn row_operations() {
    let mut m = mat3([
        [1, 2, 3],
        [4, 5, 6],
        [7, 8, 9],
    ]);

    m.swaprow(0, 2);
    assert_eq!(m, mat3([[7, 8, 9], [4, 5, 6], [1, 2, 3]]));

    m.scalerow(1, 2);
    assert_eq!(m, mat3([[7, 8, 9], [8, 10, 12], [1, 2, 3]]));

    m.subrow(1, 2, 3);
    assert_eq!(m, mat3([[7, 8, 9], [5, 4, 3], [1, 2, 3]]));
}

#[test]
fn subrow_of_itself() {
    let mut m = mat3([
        [1, 2, 3],
        [4, 5, 6],
        [7, 8, 9],
    ]);

    m.subrow(1, 1, 1);
    assert_eq!(m, mat3([[1, 2, 3], [0, 0, 0], [7, 8, 9]]));
}

#[test]
fn matrix_equality() {
    let a = mat3([
        [1, 2, 3],
        [4, 5, 6],
        [7, 8, 9],
    ]);
    let b = mat3([
        [1, 2, 3],
        [4, 5, 6],
        [7, 8, 9],
    ]);
    let c = mat3([
        [1, 2, 3],
        [4, 5, 0],
        [7, 8, 9],
    ]);

    assert_eq!(a, b);
    assert_ne!(a, c);
}

#[test]
fn mult_by_general_matrix() {
    let m = mat3([
        [1, 2, 3],
        [4, 5, 6],
        [7, 8, 9],
    ]);
    let v = vec3([1, 0, -1]);

    assert_eq!(m.mult(&v), vec3([-2, -2, -2]));
}
