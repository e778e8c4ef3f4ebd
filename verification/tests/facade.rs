//! Tests of the foreign-function facade: boundary-safe types, sentinel
//! results, and the owned-buffer protocol around `reverse_string`.

use core_lib::facade::{
    add_numbers, factorial, fibonacci, free_string, is_prime, reverse_string, string_length,
    sum_array,
};

#[test]
fn lib_test_add_numbers() {
    assert_eq!(add_numbers(5, 3), 8);
    assert_eq!(add_numbers(-5, 10), 5);
}

#[test]
fn lib_test_factorial() {
    assert_eq!(factorial(0), 1);
    assert_eq!(factorial(1), 1);
    assert_eq!(factorial(5), 120);
}

#[test]
fn lib_test_is_prime() {
    assert_eq!(is_prime(2), 1);
    assert_eq!(is_prime(17), 1);
    assert_eq!(is_prime(4), 0);
    assert_eq!(is_prime(1), 0);
}

#[test]
fn lib_test_fibonacci() {
    assert_eq!(fibonacci(0), 0);
    assert_eq!(fibonacci(1), 1);
    assert_eq!(fibonacci(10), 55);
}

#[test]
fn lib_test_sum_array() {
    let arr = [1, 2, 3, 4, 5];
    assert_eq!(sum_array(Some(&arr), 5), 15);
}

#[test]
fn facade_string_round_trip() {
    let input = "hello".as_bytes();
    assert_eq!(string_length(Some(input)), 5);

    let reversed = reverse_string(Some(input));
    assert!(reversed.is_some());
    let buf = reversed.unwrap();
    assert_eq!(buf.bytes().as_slice(), "olleh".as_bytes());
    free_string(Some(buf));
}

#[test]
fn string_length_sentinels() {
    assert_eq!(string_length(None), -1);
    assert_eq!(string_length(Some(&[0xff, 0xfe])), -1);
    assert_eq!(string_length(Some(&[])), 0);
}

#[test]
fn reverse_string_sentinels() {
    assert!(reverse_string(None).is_none());
    assert!(reverse_string(Some(&[0xff, 0xfe])).is_none());
    assert!(reverse_string(Some(&[b'a', 0, b'b'])).is_none());
}

#[test]
fn reverse_string_multibyte() {
    let input = "héllo".as_bytes();
    let buf = reverse_string(Some(input)).unwrap();
    assert_eq!(buf.bytes().as_slice(), "olléh".as_bytes());
    free_string(Some(buf));
}

#[test]
fn free_string_tolerates_null() {
    free_string(None);
}

#[test]
fn sum_array_null_or_empty_is_zero() {
    assert_eq!(sum_array(None, 5), 0);
    assert_eq!(sum_array(Some(&[1, 2, 3]), 0), 0);
    assert_eq!(sum_array(None, -1), 0);
    let arr: [i32; 0] = [];
    assert_eq!(sum_array(Some(&arr), 0), 0);
}
