use rt_rs::fixed::Fx;
use rt_rs::vec3::Vec3;

fn v(x: i64, y: i64, z: i64) -> Vec3 {
    Vec3::new(Fx::from_int(x), Fx::from_int(y), Fx::from_int(z))
}

#[test]
fn test_add() {
    let v1 = v(1, 2, 3);
    let v2 = v(4, 5, 6);
    assert_eq!(v1.add(v2), v(5, 7, 9));
}

#[test]
fn test_neg() {
    let x = v(1, 2, 3);
    assert_eq!(x.neg(), v(-1, -2, -3));
}

#[test]
fn test_sub() {
    let v1 = v(1, 2, 3);
    let v2 = v(4, 5, 6);
    assert_eq!(v1.sub(v2), v(-3, -3, -3));
}

#[test]
fn test_mul_vec() {
    let v1 = v(1, 2, 3);
    let v2 = v(4, 5, 6);
    assert_eq!(v1.mul(v2), v(4, 10, 18));
}

#[test]
fn test_mul_scalar() {
    let t = Fx::from_int(3);
    let x = v(1, 2, 3);
    assert_eq!(x.scale(t), v(3, 6, 9));
}

#[test]
fn test_div_scalar() {
    let t = Fx::from_int(3);
    let x = v(3, 6, 9);
    assert_eq!(x.div(t), v(1, 2, 3));
}

#[test]
fn test_dot() {
    let v1 = v(1, 2, 3);
    let v2 = v(4, 5, 6);
    assert_eq!(v1.dot(v2), Fx::from_int(32));
}

#[test]
fn test_cross() {
    let v1 = v(1, 2, 3);
    let v2 = v(4, 5, 6);
    assert_eq!(v1.cross(v2), v(-3, 6, -3));
}

#[test]
fn test_length() {
    let x = v(0, 0, 2);
    assert_eq!(x.length(), Fx::from_int(2));
}

#[test]
fn test_unit_direction() {
    let v1 = v(10, 0, 0);
    let v2 = v(0, 20, 0);
    let v3 = v(0, 0, 30);
    assert_eq!(v1.unit_vector(), v(1, 0, 0));
    assert_eq!(v2.unit_vector(), v(0, 1, 0));
    assert_eq!(v3.unit_vector(), v(0, 0, 1));
}

#[test]
fn test_unit_vector_length_tolerance() {
    // Normalizing any reasonable vector lands within a few grid units of
    // unit length: the squared length of the result stays in
    // [1 - 15/65536, 1 + 5/65536].
    let samples = vec![
        v(3, 4, 0),
        v(1, 1, 1),
        v(10, 20, 30),
        v(-7, 2, 5),
        Vec3::new(Fx::of_raw(100000), Fx::of_raw(-250000), Fx::of_raw(777777)),
        Vec3::new(Fx::of_raw(65537), Fx::of_raw(1000), Fx::of_raw(-65536)),
    ];
    for x in samples {
        let u = x.unit_vector();
        let ls = u.length_squared().raw;
        assert!(65536 - 15 <= ls && ls <= 65536 + 5, "squared length {} out of tolerance", ls);
        let l = u.length().raw;
        assert!(65536 - 8 <= l && l <= 65536 + 2, "length {} out of tolerance", l);
    }
}

#[test]
fn test_near_zero() {
    // The scalar grid has sixteen fractional bits, so the near-zero epsilon
    // is one raw unit: strictly below it means a raw component of zero.
    let v1 = Vec3::new(Fx::of_raw(0), Fx::of_raw(0), Fx::of_raw(0));
    let v2 = Vec3::new(Fx::of_raw(1), Fx::of_raw(1), Fx::of_raw(1));
    let v3 = Vec3::new(Fx::of_raw(0), Fx::of_raw(0), Fx::of_raw(0));
    let v4 = Vec3::new(Fx::of_raw(-1), Fx::of_raw(1), Fx::of_raw(-1));
    assert_eq!(v1.near_zero(), true);
    assert_eq!(v2.near_zero(), false);
    assert_eq!(v3.near_zero(), true);
    assert_eq!(v4.near_zero(), false);
}
