use non_empty_vec::non_empty::slice::Empty;
use non_empty_vec::non_empty::slice::NonEmptySlice;
use non_empty_vec::non_empty::vec::NonEmptyVec;

struct Test(usize);

#[test]
fn from_non_empty_vec() {
    let non_empty_slice = NonEmptyVec::try_from_vec(vec![10, 20, 30, 40, 50])
        .unwrap()
        .as_non_empty_slice();

    assert_eq!(non_empty_slice.as_slice(), &[10, 20, 30, 40, 50])
}

#[test]
fn debug() {
    let multiple = NonEmptyVec::try_from_vec(vec![10, 20, 30, 40, 50])
        .unwrap()
        .as_non_empty_slice();

    let result = format!("{:?}", multiple.as_slice());
    assert_eq!(result, "[10, 20, 30, 40, 50]");
}

#[test]
fn split() {
    let multiple = NonEmptyVec::try_from_vec(vec![10, 20, 30, 40, 50])
        .unwrap()
        .as_non_empty_slice();

    assert_eq!(multiple.split_first(), (&10, &[20, 30, 40, 50][..]));
    assert_eq!(multiple.split_last(), (&[10, 20, 30, 40][..], &50));
}

#[test]
fn non_empty_slice_of_simple_struct() {
    // No clone, no PartialEq, no Eq on the element type.
    let non_empty_slice = NonEmptyVec::one(Test(0)).into_boxed_slice();

    assert!(non_empty_slice.first().0 == 0);
}

#[test]
fn new() -> Result<(), Empty> {
    let vec = vec![10, 20, 30];
    let result = NonEmptySlice::try_from_slice(&vec)?;

    assert_eq!(result.len(), 3);
    assert_eq!(result.as_slice()[0], 10);
    assert_eq!(result.as_slice()[1], 20);
    assert_eq!(result.first(), &10);
    assert_eq!(result.last(), &30);

    let vec: Vec<i32> = Vec::new();
    let result = NonEmptySlice::try_from_slice(&vec);

    assert!(result.is_err());

    Ok(())
}

#[test]
fn try_from_slice() -> Result<(), Empty> {
    let vec = [10, 20, 30];
    let result = NonEmptySlice::try_from_slice(&vec[..])?;

    assert_eq!(result.len(), 3);
    assert_eq!(result.as_slice()[0], 10);
    assert_eq!(result.as_slice()[1], 20);
    assert_eq!(result.first(), &10);
    assert_eq!(result.last(), &30);

    let vec: Vec<i32> = Vec::new();
    let result = NonEmptySlice::try_from_slice(&vec[..]);

    assert!(result.is_err());

    Ok(())
}

#[test]
fn one() {
    let non_empty_vec = NonEmptyVec::one(10);
    assert_eq!(non_empty_vec.len(), 1);
    assert_eq!(non_empty_vec.first(), &10);
    assert_eq!(non_empty_vec.last(), &10);
    assert!(non_empty_vec.init().is_empty());
    assert!(non_empty_vec.tail().is_empty());
}

#[test]
fn push() {
    let mut non_empty_vec = NonEmptyVec::one(10);

    non_empty_vec.push(20);

    assert_eq!(non_empty_vec.len(), 2);
    assert_eq!(non_empty_vec.first(), &10);
    assert_eq!(non_empty_vec.last(), &20);
    assert_eq!(non_empty_vec.init(), &[10]);
    assert_eq!(non_empty_vec.tail(), &[20]);

    non_empty_vec.push(30);

    assert_eq!(non_empty_vec.len(), 3);
    assert_eq!(non_empty_vec.first(), &10);
    assert_eq!(non_empty_vec.last(), &30);
    assert_eq!(non_empty_vec.init(), &[10, 20]);
    assert_eq!(non_empty_vec.tail(), &[20, 30]);
}

#[test]
fn non_empty_vec_macro() {
    let one = NonEmptyVec::one(10);

    assert_eq!(one.len(), 1);
    assert_eq!(one.first(), &10);
    assert_eq!(one.last(), &10);
    assert!(one.init().is_empty());
    assert!(one.tail().is_empty());

    let multiple = NonEmptyVec::try_from_vec(vec![10, 20, 30, 40, 50]).unwrap();

    assert_eq!(multiple.len(), 5);
    assert_eq!(multiple.first(), &10);
    assert_eq!(multiple.last(), &50);
    assert_eq!(multiple.init(), &[10, 20, 30, 40]);
    assert_eq!(multiple.tail(), &[20, 30, 40, 50]);
}

#[test]
fn reverse() {
    let mut multiple = NonEmptyVec::try_from_vec(vec![10, 20, 30, 40, 50]).unwrap();
    let reverse = NonEmptyVec::try_from_vec(vec![50, 40, 30, 20, 10]).unwrap();

    multiple.reverse();

    assert_eq!(multiple, reverse);
}

#[test]
fn extend_from_slice() {
    let mut one = NonEmptyVec::one(10);
    let multiple = NonEmptyVec::try_from_vec(vec![10, 20, 30, 40, 50]).unwrap();
    one.extend_from_slice(&[20, 30, 40, 50]);

    assert_eq!(one, multiple);
}

#[test]
fn extend() {
    let mut one = NonEmptyVec::one(10);
    let multiple = NonEmptyVec::try_from_vec(vec![10, 20, 30, 40, 50]).unwrap();
    one.extend_from_slice(multiple.as_slice());

    assert_eq!(
        one,
        NonEmptyVec::try_from_vec(vec![10, 10, 20, 30, 40, 50]).unwrap()
    );
}

#[test]
fn non_empty_vec_of_simple_struct() {
    // No clone, no PartialEq, no Eq on the element type.
    let non_empty_vec = NonEmptyVec::one(Test(0));

    assert!(non_empty_vec.first().0 == 0);
}

#[test]
fn to_vec_preserves_contents() {
    let multiple = NonEmptyVec::try_from_vec(vec![10, 20, 30, 40, 50]).unwrap();
    let view = multiple.as_non_empty_slice();
    let back = view.to_vec();

    assert_eq!(back, multiple);
}
