use non_empty_vec::slice::Empty;
use non_empty_vec::slice::NonEmptySlice;
use non_empty_vec::vec::NonEmptyVec;

struct Test(usize);

#[test]
fn slice_from_non_empty_vec() {
    let non_empty_slice = NonEmptyVec::try_from_vec(vec![10, 20, 30, 40, 50])
        .unwrap()
        .as_non_empty_slice();

    assert_eq!(non_empty_slice.as_slice(), &[10, 20, 30, 40, 50])
}

#[test]
fn slice_debug() {
    let multiple = NonEmptyVec::try_from_vec(vec![10, 20, 30, 40, 50])
        .unwrap()
        .as_non_empty_slice();

    let result = format!("{:?}", multiple.as_slice());
    assert_eq!(result, "[10, 20, 30, 40, 50]");
}

#[test]
fn slice_split() {
    let multiple = NonEmptyVec::try_from_vec(vec![10, 20, 30, 40, 50])
        .unwrap()
        .as_non_empty_slice();

    assert_eq!(multiple.split_first(), (&10, &[20, 30, 40, 50][..]));
    assert_eq!(multiple.split_last(), (&[10, 20, 30, 40][..], &50));
}

#[test]
fn slice_reverse() {
    let mut multiple = NonEmptyVec::try_from_vec(vec![10, 20, 30, 40, 50])
        .unwrap()
        .as_non_empty_slice();
    let reverse = NonEmptyVec::try_from_vec(vec![50, 40, 30, 20, 10])
        .unwrap()
        .as_non_empty_slice();

    multiple.reverse();

    assert_eq!(multiple, reverse);
}

#[test]
fn slice_non_empty_slice_of_simple_struct() {
    // No clone, no PartialEq, no Eq on the element type.
    let non_empty_slice = NonEmptyVec::one(Test(0)).into_boxed_slice();

    assert!(non_empty_slice.first().0 == 0);
}

#[test]
fn slice_new() -> Result<(), Empty> {
    let vec = vec![10, 20, 30];
    let result = NonEmptySlice::try_from_slice(&vec)?;

    assert_eq!(result.len(), 3);
    assert_eq!(result.as_slice()[0], 10);
    assert_eq!(result.as_slice()[1], 20);
    assert_eq!(result.first(), &10);
    assert_eq!(result.last(), &30);

    let vec: Vec<i32> = Vec::new();
    let result = NonEmptySlice::try_from_slice(&vec);

    assert!(result.is_err());

    Ok(())
}

#[test]
fn slice_try_from_slice() -> Result<(), Empty> {
    let vec = [10, 20, 30];
    let result = NonEmptySlice::try_from_slice(&vec[..])?;

    assert_eq!(result.len(), 3);
    assert_eq!(result.as_slice()[0], 10);
    assert_eq!(result.as_slice()[1], 20);
    assert_eq!(result.first(), &10);
    assert_eq!(result.last(), &30);

    let vec: Vec<i32> = Vec::new();
    let result = NonEmptySlice::try_from_slice(&vec[..]);

    assert!(result.is_err());

    Ok(())
}

#[test]
fn slice_non_zero_len() {
    let multiple = NonEmptyVec::try_from_vec(vec![10, 20, 30, 40, 50])
        .unwrap()
        .as_non_empty_slice();

    assert_eq!(multiple.non_zero_len().get(), 5);
}

#[test]
fn slice_empty_error_message() {
    let vec: Vec<i32> = Vec::new();
    let err = NonEmptySlice::try_from_slice(&vec).unwrap_err();

    assert_eq!(err.message(), "empty slice");
}

#[test]
fn slice_replace_at_keeps_length() {
    let mut view = NonEmptyVec::try_from_vec(vec![10, 20, 30])
        .unwrap()
        .as_non_empty_slice();

    view.replace_at(1, 99);

    assert_eq!(view.as_slice(), &[10, 99, 30]);
    assert_eq!(view.len(), 3);
}

#[test]
fn slice_to_non_empty_vec_round_trip() {
    let multiple = NonEmptyVec::try_from_vec(vec![10, 20, 30, 40, 50]).unwrap();
    let view = multiple.as_non_empty_slice();
    let back = view.to_non_empty_vec();

    assert_eq!(back, multiple);
}
