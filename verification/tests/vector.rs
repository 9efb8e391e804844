use linalg::vector::Vector;

fn vec3(values: [i64; 3]) -> Vector<3> {
    Vector::new(values.to_vec())
}

#[test]
fn zero_coordinates() {
    let v = Vector::<5>::zero();
    for i in 0..5 {
        assert_eq!(v.get(i), 0);
    }
}

#[test]
fn new_and_get_set() {
    let mut v = vec3([7, -8, 9]);
    assert_eq!(v.get(0), 7);
    assert_eq!(v.get(1), -8);
    assert_eq!(v.get(2), 9);
    v.set(1, 100);
    assert_eq!(v.get(1), 100);
    assert_eq!(v.get(0), 7);
}

#[test]
fn basis_is_orthonormal() {
    let basis = Vector::<4>::basis();
    assert_eq!(basis.len(), 4);
    for (i, a) in basis.iter().enumerate() {
        for (j, b) in basis.iter().enumerate() {
            assert_eq!(a.dot(b), if i == j { 1 } else { 0 });
        }
    }
}

#[test]
fn basis_coordinates() {
    let basis = Vector::<3>::basis();
    for (i, v) in basis.iter().enumerate() {
        for j in 0..3 {
            assert_eq!(v.get(j), if i == j { 1 } else { 0 });
        }
    }
}

#[test]
fn scale_add_sub() {
    let a = vec3([1, -2, 3]);
    let b = vec3([10, 20, 30]);

    assert_eq!(a.scale(-3), vec3([-3, 6, -9]));
    assert_eq!(a.add(&b), vec3([11, 18, 33]));
    assert_eq!(a.sub(&b), vec3([-9, -22, -27]));
}

#[test]
fn dot_product() {
    let a = vec3([1, 2, 3]);
    let b = vec3([4, -5, 6]);

    assert_eq!(a.dot(&b), 4 - 10 + 18);
    assert_eq!(a.dot(&b), b.dot(&a));
}

#[test]
fn cross_product() {
    let x = vec3([1, 0, 0]);
    let y = vec3([0, 1, 0]);
    let z = vec3([0, 0, 1]);

    assert_eq!(x.cross(&y), z);
    assert_eq!(y.cross(&z), x);
    assert_eq!(z.cross(&x), y);
}

#[test]
fn cross_anticommutative() {
    let a = vec3([2, -3, 5]);
    let b = vec3([7, 11, -13]);

    assert_eq!(a.cross(&b), b.cross(&a).scale(-1));
}

#[test]
fn check_bounds() {
    let v = vec3([3, 10, -2]);
    let lower: Vec<Option<i64>> = vec![Some(0), None, None];
    let upper: Vec<Option<i64>> = vec![None, Some(5), None];
    assert!(!v.check(&lower, &upper));

    let w = vec3([3, 4, -2]);
    assert!(w.check(&lower, &upper));
}

#[test]
fn check_lower_violation() {
    let v = vec3([-1, 0, 0]);
    let lower: Vec<Option<i64>> = vec![Some(0), None, None];
    let upper: Vec<Option<i64>> = vec![None, None, None];
    assert!(!v.check(&lower, &upper));
}

#[test]
fn check_no_bounds() {
    let v = vec3([-1000, 0, 1000]);
    let none: Vec<Option<i64>> = vec![None, None, None];
    assert!(v.check(&none, &none));
}

#[test]
fn child_without_noise() {
    let mother = vec3([1, 1, 1]);
    let father = vec3([0, 0, 0]);
    let noise = Vector::<3>::zero();

    let child = Vector::child(&mother, &father, &noise);
    for i in 0..3 {
        let gene = child.get(i);
        assert!(gene == 1 || gene == 0);
    }
}

#[test]
fn child_with_noise() {
    let mother = vec3([10, 10, 10]);
    let father = vec3([20, 20, 20]);
    let noise = vec3([1, 2, 3]);

    let child = Vector::child(&mother, &father, &noise);
    for i in 0..3 {
        let gene = child.get(i);
        let offset = noise.get(i);
        assert!(gene == 10 + offset || gene == 20 + offset);
    }
}

#[test]
fn child_discrete_genes_permitted() {
    let mother = Vector::<2>::new(vec![5, 5]);
    let father = Vector::<2>::new(vec![6, 6]);
    let permitted: Vec<i64> = vec![9];

    let mut seen_mother = false;
    let mut seen_father = false;
    let mut seen_mutation = false;
    for _ in 0..300 {
        let child = Vector::child_discrete(&mother, &father, &permitted);
        for i in 0..2 {
            match child.get(i) {
                5 => seen_mother = true,
                6 => seen_father = true,
                9 => seen_mutation = true,
                other => panic!("gene {} is neither a parent gene nor permitted", other),
            }
        }
    }
    assert!(seen_mother);
    assert!(seen_father);
    assert!(seen_mutation);
}

#[test]
fn vector_equality() {
    let a = vec3([1, 2, 3]);
    let b = vec3([1, 2, 3]);
    let c = vec3([1, 2, 4]);

    assert_eq!(a, b);
    assert_ne!(a, c);
}
