use rust_basics::macro_forms::{count, my_vec, Point};

#[test]
fn point_clone_is_equal() {
    let p = Point { x: 5, y: 10 };
    assert_eq!(p, p.clone());
}

#[test]
fn my_vec_builds_correctly() {
    assert_eq!(my_vec(vec![1, 2, 3]), vec![1, 2, 3]);
    let empty: Vec<i32> = my_vec(vec![]);
    assert_eq!(empty, vec![]);
}

#[test]
fn count_macro_branches() {
    assert_eq!(count(()), 0);
    assert_eq!(count((9,)), 1);
    assert_eq!(count((1, 2)), 2);
}

#[test]
fn my_vec_keeps_order_of_five() {
    assert_eq!(my_vec(vec![1, 2, 3, 4, 5]), vec![1, 2, 3, 4, 5]);
    assert_eq!(my_vec(vec!["a", "b"]), vec!["a", "b"]);
}

#[test]
fn my_vec_moves_owned_values() {
    let v = my_vec(vec![String::from("x"), String::from("y")]);
    assert_eq!(v, vec![String::from("x"), String::from("y")]);
}

#[test]
fn count_accepts_arguments_of_different_types() {
    assert_eq!(count((1, "a")), 2);
    assert_eq!(count((String::from("s"),)), 1);
}

#[test]
fn points_compare_by_fields() {
    let p1 = Point { x: 1, y: 2 };
    let p2 = p1.clone();
    assert!(p1 == p2);
    assert!(p1 != Point { x: 2, y: 1 });
}
