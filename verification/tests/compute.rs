//! Tests of the computation core.

use core_lib::compute::{
    add_numbers, factorial, fibonacci, is_prime, reverse_string, string_length, sum_array,
};

#[test]
fn test_add_numbers() {
    assert_eq!(add_numbers(5, 3), 8);
    assert_eq!(add_numbers(-5, 10), 5);
}

#[test]
fn test_factorial() {
    assert_eq!(factorial(0), 1);
    assert_eq!(factorial(1), 1);
    assert_eq!(factorial(5), 120);
}

#[test]
fn test_is_prime() {
    assert_eq!(is_prime(2), true);
    assert_eq!(is_prime(17), true);
    assert_eq!(is_prime(4), false);
    assert_eq!(is_prime(1), false);
}

#[test]
fn test_fibonacci() {
    assert_eq!(fibonacci(0), 0);
    assert_eq!(fibonacci(1), 1);
    assert_eq!(fibonacci(10), 55);
}

#[test]
fn test_string_functions() {
    assert_eq!(string_length("hello"), 5);
    assert_eq!(reverse_string("hello"), "olleh");
}

#[test]
fn test_sum_array() {
    let arr = [1, 2, 3, 4, 5];
    assert_eq!(sum_array(&arr), 15);
}

#[test]
fn add_wraps_at_the_edges() {
    assert_eq!(add_numbers(i32::MAX, 1), i32::MIN);
    assert_eq!(add_numbers(i32::MIN, -1), i32::MAX);
    assert_eq!(add_numbers(i32::MAX, i32::MAX), -2);
}

#[test]
fn factorial_largest_bounded_input() {
    assert_eq!(factorial(12), 479001600);
    assert_eq!(factorial(-3), 1);
}

#[test]
fn fibonacci_largest_bounded_input() {
    assert_eq!(fibonacci(46), 1836311903);
    assert_eq!(fibonacci(2), 1);
    assert_eq!(fibonacci(-4), -4);
}

#[test]
fn is_prime_rejects_small_and_even() {
    assert_eq!(is_prime(0), false);
    assert_eq!(is_prime(-7), false);
    assert_eq!(is_prime(100), false);
    assert_eq!(is_prime(9), false);
    assert_eq!(is_prime(2147483647), true);
    assert_eq!(is_prime(2147483641), false);
}

#[test]
fn reverse_keeps_code_points_whole() {
    assert_eq!(reverse_string("héllo"), "olléh");
    assert_eq!(reverse_string(""), "");
    assert_eq!(reverse_string(reverse_string("héllo wörld").as_str()), "héllo wörld");
}

#[test]
fn string_length_counts_bytes_not_code_points() {
    assert_eq!(string_length(""), 0);
    assert_eq!(string_length("héllo"), 6);
}

#[test]
fn sum_array_empty_is_zero() {
    let arr: [i32; 0] = [];
    assert_eq!(sum_array(&arr), 0);
    assert_eq!(sum_array(&[-3, 3, 7]), 7);
}
