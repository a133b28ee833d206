use non_empty_vec::sorted::vec::SortedVec;

#[test]
fn sort_vec_sorts_and_dedups() {
    let sorted = SortedVec::sort_vec(vec![3, 1, 2, 1]);
    assert_eq!(sorted.as_slice(), &[1, 2, 3]);
}

#[test]
fn sort_vec_of_empty_input_is_empty() {
    let sorted = SortedVec::sort_vec(Vec::<i32>::new());
    assert_eq!(sorted.as_slice(), &[] as &[i32]);
}

#[test]
fn sorted_empty_constructor() {
    let sorted = SortedVec::<i32>::empty();
    assert_eq!(sorted.as_slice().len(), 0);
}

#[test]
fn sort_vec_keeps_already_sorted_input() {
    let sorted = SortedVec::sort_vec(vec![1u64, 2, 4, 8]);
    assert_eq!(sorted.as_slice(), &[1, 2, 4, 8]);
}

#[test]
fn sort_vec_collapses_equal_elements() {
    let sorted = SortedVec::sort_vec(vec![5, 5, 5]);
    assert_eq!(sorted.as_slice(), &[5]);
}

#[test]
fn sorted_views_preserve_order_without_resorting() {
    let sorted = SortedVec::sort_vec(vec![9, 4, 6]);
    let view = sorted.as_sorted_slice();
    assert_eq!(view.as_slice(), &[4, 6, 9]);
    assert_eq!(view.len(), 3);

    let back = view.to_vec();
    assert_eq!(back.as_slice(), &[4, 6, 9]);

    let boxed = sorted.into_boxed_slice();
    assert_eq!(boxed.as_slice(), &[4, 6, 9]);
}

#[test]
fn sorted_into_vec_hands_back_sorted_contents() {
    let sorted = SortedVec::sort_vec(vec![2, 1]);
    assert_eq!(sorted.into_vec(), vec![1, 2]);
}
