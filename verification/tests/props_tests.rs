use non_empty_vec::slice::NonEmptySlice;
use non_empty_vec::vec::NonEmptyVec;

#[test]
fn fallible_constructor_keeps_length() {
    let input = vec![4, 8, 15, 16, 23, 42];
    let v = NonEmptyVec::try_from_vec(input.clone()).unwrap();
    assert_eq!(v.len(), input.len());

    let s = NonEmptySlice::try_from_slice(&input).unwrap();
    assert_eq!(s.len(), input.len());
}

#[test]
fn accessors_agree_with_positions() {
    let v = NonEmptyVec::try_from_vec(vec![7, 8, 9]).unwrap();
    assert_eq!(v.first(), &7);
    assert_eq!(v.last(), &9);
    assert_eq!(v.init(), &[7, 8]);
    assert_eq!(v.tail(), &[8, 9]);
    assert_eq!(v.init().len(), v.len() - 1);
    assert_eq!(v.tail().len(), v.len() - 1);
}

#[test]
fn push_then_last_returns_pushed_value() {
    let mut v = NonEmptyVec::try_from_vec(vec![1, 2, 3]).unwrap();
    let before = v.len();
    v.push(42);
    assert_eq!(v.last(), &42);
    assert_eq!(v.len(), before + 1);
}

#[test]
fn reverse_twice_restores_original() {
    let original = NonEmptyVec::try_from_vec(vec![3, 1, 4, 1, 5]).unwrap();
    let mut v = original.clone();
    v.reverse();
    v.reverse();
    assert_eq!(v, original);
}

#[test]
fn round_trip_through_plain_vector() {
    let v = NonEmptyVec::try_from_vec(vec![11, 22, 33]).unwrap();
    let plain = v.clone().into_vec();
    let back = NonEmptyVec::try_from_vec(plain).unwrap();
    assert_eq!(back, v);
}

#[test]
fn round_trip_through_plain_slice() {
    let s = NonEmptySlice::try_from_slice(&[11, 22, 33]).unwrap();
    let back = NonEmptySlice::try_from_slice(s.as_slice()).unwrap();
    assert_eq!(back.as_slice(), s.as_slice());
}

#[test]
fn mapping_preserves_length_elementwise() {
    let v = NonEmptyVec::try_from_vec(vec![10, 20, 30, 40, 50]).unwrap();
    let mapped: NonEmptyVec<i32> = v.iter().map(|x: &i32| x * 10).collect();
    assert_eq!(mapped.len(), v.len());
    assert_eq!(mapped.as_slice(), &[100, 200, 300, 400, 500]);
}

#[test]
fn dedup_keeps_non_adjacent_repeats() {
    let mut v = NonEmptyVec::try_from_vec(vec![1, 2, 1]).unwrap();
    v.dedup();
    assert_eq!(v.as_slice(), &[1, 2, 1]);

    let mut v = NonEmptyVec::try_from_vec(vec![1, 1]).unwrap();
    v.dedup();
    assert_eq!(v.as_slice(), &[1]);
}
