use chat_relay::triangle::{
    is_equilateral, is_isosceles, is_right, triangle_circumference, verify_triangle,
};

#[test]
fn verify_triangle_completes_normally_when_sum_of_two_sides_is_larger_than_the_third() {
    let a = 10;
    let b = 20;
    let c = a + b - 1;
    verify_triangle(a, b, c);
}

#[test]
fn triangle_circumference_returns_circumference() {
    assert_eq!(triangle_circumference(10, 15, 20), 45);
}

#[test]
fn equilateral() {
    assert!(is_equilateral(5, 5, 5));
}

#[test]
fn not_equilateral() {
    assert!(!is_equilateral(5, 5, 4));
}

#[test]
fn isosceles() {
    assert!(is_isosceles(4, 5, 5));
}

#[test]
fn equilateral_is_isosceles() {
    assert!(is_isosceles(5, 5, 5));
}

#[test]
fn not_isosceles() {
    assert!(!is_isosceles(5, 7, 4));
}

#[test]
fn right_triangle() {
    assert!(is_right(3, 4, 5));
}

#[test]
fn not_right_triangle() {
    assert!(!is_right(3, 4, 6));
}
