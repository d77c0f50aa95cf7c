use randsort::sort::{bubble_sort, verify_sorted};

fn counts(v: &[i32]) -> std::collections::BTreeMap<i32, usize> {
    let mut m = std::collections::BTreeMap::new();
    for &x in v {
        *m.entry(x).or_insert(0) += 1;
    }
    m
}

#[test]
fn sorts_example_vector() {
    let mut v: Vec<i32> = vec![5, 3, 8, 1];
    bubble_sort(&mut v);
    assert_eq!(v, vec![1, 3, 5, 8]);
    assert!(verify_sorted(&v));
}

#[test]
fn empty_vector_is_sorted() {
    let v: Vec<i32> = Vec::new();
    assert!(verify_sorted(&v));
}

#[test]
fn single_element_is_sorted() {
    let v: Vec<i32> = vec![7];
    assert!(verify_sorted(&v));
}

#[test]
fn equal_elements_are_sorted() {
    let v: Vec<i32> = vec![2, 2, 2];
    assert!(verify_sorted(&v));
}

#[test]
fn detects_unsorted_vector() {
    let v: Vec<i32> = vec![1, 3, 2];
    assert!(!verify_sorted(&v));
}

#[test]
fn detects_unsorted_first_pair() {
    let v: Vec<i32> = vec![9, 1, 2, 3];
    assert!(!verify_sorted(&v));
}

#[test]
fn sort_of_sorted_vector_is_identical() {
    let mut v: Vec<i32> = vec![-4, -1, 0, 0, 3, 9];
    let before = v.clone();
    bubble_sort(&mut v);
    assert_eq!(v, before);
}

#[test]
fn sort_is_idempotent() {
    let mut v: Vec<i32> = vec![10, -3, 10, 2, 2, -50];
    bubble_sort(&mut v);
    let once = v.clone();
    bubble_sort(&mut v);
    assert_eq!(v, once);
}

#[test]
fn sort_preserves_element_counts() {
    let mut v: Vec<i32> = vec![4, 4, -2, 7, 0, 7, 7, -2];
    let before = counts(&v);
    bubble_sort(&mut v);
    let after = counts(&v);
    assert_eq!(before, after);
    assert!(verify_sorted(&v));
}

#[test]
fn sorts_empty_vector() {
    let mut v: Vec<i32> = Vec::new();
    bubble_sort(&mut v);
    assert!(v.is_empty());
    assert!(verify_sorted(&v));
}

#[test]
fn sorts_reverse_ordered_vector() {
    let mut v: Vec<i32> = (0..100).rev().collect();
    bubble_sort(&mut v);
    let expected: Vec<i32> = (0..100).collect();
    assert_eq!(v, expected);
}

#[test]
fn sorts_extreme_values() {
    let mut v: Vec<i32> = vec![0, i32::MAX, i32::MIN, -1];
    bubble_sort(&mut v);
    assert_eq!(v, vec![i32::MIN, -1, 0, i32::MAX]);
}
