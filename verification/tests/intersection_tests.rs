use ray_tracer::intersection::{hit_index, sort_order};

// Keys are hit distances in thousandths; the visible hit is the first
// smallest positive one.

#[test]
fn hit_with_all_positive_distances() {
    let keys: Vec<i64> = vec![1000, 2000];
    assert_eq!(hit_index(&keys), Some(0));
}

#[test]
fn hit_skips_negative_distances() {
    let keys: Vec<i64> = vec![-1000, 1000];
    assert_eq!(hit_index(&keys), Some(1));
}

#[test]
fn no_hit_when_all_distances_negative() {
    let keys: Vec<i64> = vec![-2000, -1000];
    assert_eq!(hit_index(&keys), None);
}

#[test]
fn hit_is_lowest_positive_distance() {
    let keys: Vec<i64> = vec![5000, 7000, -3000, 2000];
    assert_eq!(hit_index(&keys), Some(3));
}

#[test]
fn hit_on_surface_is_no_hit() {
    // A distance of exactly zero lies on the ray origin and is not visible.
    let keys: Vec<i64> = vec![0, -1000];
    assert_eq!(hit_index(&keys), None);
}

#[test]
fn tie_goes_to_the_first() {
    let keys: Vec<i64> = vec![4000, 2000, 2000];
    assert_eq!(hit_index(&keys), Some(1));
}

#[test]
fn empty_list_has_no_hit() {
    let keys: Vec<i64> = vec![];
    assert_eq!(hit_index(&keys), None);
}

#[test]
fn sort_order_sorts_ascending() {
    let keys: Vec<i64> = vec![6000, -1000, 4000, 2000];
    assert_eq!(sort_order(&keys), vec![1, 3, 2, 0]);
}

#[test]
fn sort_order_is_stable_on_ties() {
    let keys: Vec<i64> = vec![5000, 2000, 2000, 1000, 2000];
    assert_eq!(sort_order(&keys), vec![3, 1, 2, 4, 0]);
}

#[test]
fn sort_order_of_empty_and_single() {
    assert_eq!(sort_order(&vec![]), Vec::<usize>::new());
    assert_eq!(sort_order(&vec![42]), vec![0]);
}
