use non_empty_vec::vec::NonEmptyVec;

#[test]
fn deref() {
    let vec = NonEmptyVec::try_from_vec(vec![10, 20, 30, 40, 50]).unwrap();

    let iter = vec.iter();

    assert_eq!(iter.len(), 5);

    let result: Vec<i32> = vec
        .as_slice()
        .iter()
        .map(|&v| v)
        .filter(|&v| v > 30)
        .collect();

    assert_eq!(result, vec![40, 50]);
}

#[test]
fn non_empty_collect() {
    let vec = NonEmptyVec::try_from_vec(vec![10, 20, 30, 40, 50]).unwrap();

    let result: NonEmptyVec<_> = vec.iter().map(|v: &i32| v * 10).collect();

    assert_eq!(
        result,
        NonEmptyVec::try_from_vec(vec![100, 200, 300, 400, 500]).unwrap()
    );

    let result: Vec<_> = vec
        .as_slice()
        .iter()
        .map(|v| v * 10)
        .filter(|&v| v > 300)
        .collect();

    assert_eq!(result, vec![400, 500]);
}

#[test]
fn iter_yields_in_order_then_ends() {
    let vec = NonEmptyVec::try_from_vec(vec![7, 8]).unwrap();
    let mut iter = vec.iter();

    assert_eq!(iter.next(), Some(&7));
    assert_eq!(iter.len(), 1);
    assert_eq!(iter.next(), Some(&8));
    assert_eq!(iter.next(), None);
    assert_eq!(iter.len(), 0);
}

#[test]
fn map_collect_keeps_length_of_singleton() {
    let vec = NonEmptyVec::one(3);
    let result: NonEmptyVec<i32> = vec.iter().map(|v: &i32| v + 1).collect();

    assert_eq!(result.len(), 1);
    assert_eq!(result.first(), &4);
}
