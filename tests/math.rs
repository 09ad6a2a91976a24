use sc_native::{generate_dynamic_array, test_sum, Line3, Mat4, Triangle3, Vec3};

#[test]
fn vec3_new_keeps_bits() {
    let p = Vec3::new(1.5f32.to_bits(), (-2.0f32).to_bits(), 0.25f32.to_bits());
    assert_eq!(f32::from_bits(p.x), 1.5);
    assert_eq!(f32::from_bits(p.y), -2.0);
    assert_eq!(f32::from_bits(p.z), 0.25);
}

#[test]
fn nan_vector_is_nan_and_equal_to_itself() {
    let n = Vec3::nan();
    assert!(f32::from_bits(n.x).is_nan());
    assert!(f32::from_bits(n.y).is_nan());
    assert!(f32::from_bits(n.z).is_nan());
    assert_eq!(n, Vec3::nan());
}

#[test]
fn zero_vector_is_positive_zero() {
    let z = Vec3::zero();
    assert_eq!((z.x, z.y, z.z), (0, 0, 0));
    assert_eq!(f32::from_bits(z.x), 0.0);
    assert_ne!(z, Vec3::new((-0.0f32).to_bits(), 0, 0));
}

#[test]
fn line_keeps_endpoint_order() {
    let a = Vec3::new(1, 2, 3);
    let b = Vec3::new(4, 5, 6);
    let l = Line3::new(a, b);
    assert_eq!((l.a, l.b), (a, b));
    assert_ne!(l, Line3::new(b, a));
}

#[test]
fn triangle_keeps_vertex_order() {
    let t = Triangle3::new(Vec3::new(1, 0, 0), Vec3::new(2, 0, 0), Vec3::new(3, 0, 0));
    assert_eq!((t.a.x, t.b.x, t.c.x), (1, 2, 3));
}

#[test]
fn identity_matrix_entries() {
    let m = Mat4::identity();
    for i in 0..4 {
        for j in 0..4 {
            let want = if i == j { 1.0f32 } else { 0.0 };
            assert_eq!(f32::from_bits(m.m[i][j]), want);
            assert_eq!(m.m[i][j], want.to_bits());
        }
    }
}

#[test]
fn sums_of_buffers() {
    assert_eq!(test_sum(&[1, 2, 3]), 6);
    assert_eq!(test_sum(&[]), 0);
    assert_eq!(test_sum(&[-5, 10, -20]), -15);
    assert_eq!(test_sum(&[i32::MAX, -1, 1]), i32::MAX);
}

#[test]
fn dynamic_array_contents() {
    assert_eq!(generate_dynamic_array(), vec![1, 2, 3, 4, 5]);
}
