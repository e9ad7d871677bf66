use calyx::values::Value;

fn bits(v: &[bool]) -> Value {
    Value { vec: v.to_vec() }
}

#[test]
fn from_init_takes_low_bits() {
    let v = Value::from_init(5, 4);
    assert_eq!(v.vec, vec![true, false, true, false]);
    assert_eq!(v.as_u64(), 5);
}

#[test]
fn from_init_wraps_at_width() {
    let v = Value::from_init(300, 8);
    assert_eq!(v.width(), 8);
    assert_eq!(v.as_u64(), 44);
}

#[test]
fn from_init_clears_bits_above_64() {
    let v = Value::from_init(1 << 40, 70);
    assert_eq!(v.width(), 70);
    for i in 0..70 {
        assert_eq!(v.vec[i], i == 40);
    }
}

#[test]
fn new_is_zero() {
    let v = Value::new(3);
    assert_eq!(v.vec, vec![false, false, false]);
    assert_eq!(v.as_u64(), 0);
    let z = Value::zeroes(0);
    assert_eq!(z.width(), 0);
    assert_eq!(z.as_u64(), 0);
}

#[test]
fn truncate_keeps_low_bits() {
    let v = bits(&[true, false, true]);
    assert_eq!(v.truncate(2).vec, vec![true, false]);
    assert_eq!(v.truncate(3).vec, vec![true, false, true]);
    assert_eq!(v.truncate(10).vec, vec![true, false, true]);
    assert_eq!(v.truncate(0).vec, Vec::<bool>::new());
}

#[test]
fn ext_adds_cleared_bits() {
    let v = bits(&[true, true]);
    let e = v.ext(5);
    assert_eq!(e.vec, vec![true, true, false, false, false]);
    assert_eq!(e.as_u64(), 3);
    assert_eq!(v.ext(2).vec, vec![true, true]);
}

#[test]
fn as_u64_of_full_width() {
    let v = bits(&[true; 64]);
    assert_eq!(v.as_u64(), u64::MAX);
}

#[test]
fn clone_keeps_bits() {
    let v = bits(&[false, true, true]);
    let c = v.clone();
    assert_eq!(c.vec, v.vec);
}
