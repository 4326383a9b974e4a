use snek::runtime::{structurally_equal, value_to_string};

const BASE: i64 = 4096;

fn ptr(word_index: i64) -> i64 {
    BASE + 8 * word_index + 1
}

#[test]
fn prints_scalars() {
    let heap: Vec<i64> = vec![];
    assert_eq!(value_to_string(6, &heap, BASE), "3");
    assert_eq!(value_to_string(-20, &heap, BASE), "-10");
    assert_eq!(value_to_string(7, &heap, BASE), "true");
    assert_eq!(value_to_string(3, &heap, BASE), "false");
    assert_eq!(value_to_string(1, &heap, BASE), "nil");
    assert_eq!(value_to_string(9223372036854775806, &heap, BASE), "4611686018427387903");
}

#[test]
fn prints_vectors() {
    // [10, 20] at word 0, [[10, 20], nil] at word 3.
    let heap: Vec<i64> = vec![2, 20, 40, 2, ptr(0), 1];
    assert_eq!(value_to_string(ptr(0), &heap, BASE), "[10, 20]");
    assert_eq!(value_to_string(ptr(3), &heap, BASE), "[[10, 20], nil]");
    let empty: Vec<i64> = vec![0];
    assert_eq!(value_to_string(ptr(0), &empty, BASE), "[]");
}

#[test]
fn cyclic_print() {
    // v = (vec 10 20 30), then (vec-set! v 1 v).
    let heap: Vec<i64> = vec![3, 20, ptr(0), 60];
    assert_eq!(value_to_string(ptr(0), &heap, BASE), "[10, [...], 30]");
}

#[test]
fn cyclic_print_two_vectors() {
    // a = [10, b, 30], b = [40, a, 60].
    let heap: Vec<i64> = vec![3, 20, ptr(4), 60, 3, 80, ptr(0), 120];
    assert_eq!(value_to_string(ptr(0), &heap, BASE), "[10, [40, [...], 60], 30]");
    assert_eq!(value_to_string(ptr(4), &heap, BASE), "[40, [10, [...], 30], 60]");
}

#[test]
fn shared_vector_prints_twice() {
    let heap: Vec<i64> = vec![1, 2, 2, ptr(0), ptr(0)];
    assert_eq!(value_to_string(ptr(2), &heap, BASE), "[[1], [1]]");
}

#[test]
fn pointer_outside_heap() {
    let heap: Vec<i64> = vec![1, 2];
    assert_eq!(value_to_string(ptr(5), &heap, BASE), format!("Unknown value: {}", ptr(5)));
}

#[test]
fn equality_of_scalars() {
    let heap: Vec<i64> = vec![];
    assert!(structurally_equal(4, 4, &heap, BASE));
    assert!(!structurally_equal(4, 6, &heap, BASE));
    assert!(structurally_equal(7, 7, &heap, BASE));
    assert!(!structurally_equal(7, 3, &heap, BASE));
    assert!(structurally_equal(1, 1, &heap, BASE));
}

#[test]
fn equality_of_vectors() {
    // [10, 20] twice, [10, 30], and [10].
    let heap: Vec<i64> = vec![2, 20, 40, 2, 20, 40, 2, 20, 60, 1, 20];
    assert!(structurally_equal(ptr(0), ptr(3), &heap, BASE));
    assert!(!structurally_equal(ptr(0), ptr(6), &heap, BASE));
    assert!(!structurally_equal(ptr(0), ptr(9), &heap, BASE));
    assert!(!structurally_equal(ptr(0), 1, &heap, BASE));
    assert!(!structurally_equal(1, ptr(0), &heap, BASE));
}

#[test]
fn equality_with_cycles() {
    // a = [10, a] and b = [10, b] are equal; c = [20, c] differs from a.
    let heap: Vec<i64> = vec![2, 20, ptr(0), 2, 20, ptr(3), 2, 40, ptr(6)];
    assert!(structurally_equal(ptr(0), ptr(3), &heap, BASE));
    assert!(!structurally_equal(ptr(0), ptr(6), &heap, BASE));
}
