//! Tests of the managed-runtime bridge: conversion failures surface as
//! bridge-native errors, and every owned buffer obtained on the reverse path
//! is copied out and released before the result returns.

use core_lib::bridge::{reverse_string, string_length, sum_array, BridgeError};
use core_lib::boundary::OwnedBuffer;

#[test]
fn bridge_string_length_counts_bytes() {
    assert_eq!(string_length("hello"), Ok(5));
    assert_eq!(string_length(""), Ok(0));
    assert_eq!(string_length("héllo"), Ok(6));
}

#[test]
fn bridge_rejects_interior_nul() {
    assert_eq!(string_length("a\0b"), Err(BridgeError::InteriorNul));
    assert_eq!(reverse_string("a\0b"), Err(BridgeError::InteriorNul));
}

#[test]
fn bridge_reverse_round_trip() {
    let once = reverse_string("héllo wörld").unwrap();
    assert_eq!(once, "dlröw olléh");
    let twice = reverse_string(once.as_str()).unwrap();
    assert_eq!(twice, "héllo wörld");
    assert_eq!(reverse_string("").unwrap(), "");
}

#[test]
fn bridge_sum_array() {
    assert_eq!(sum_array(&vec![1, 2, 3, 4, 5]), 15);
    assert_eq!(sum_array(&Vec::new()), 0);
    assert_eq!(sum_array(&vec![-10, 10, 4]), 4);
}

#[test]
fn owned_buffer_lifecycle() {
    let buf = OwnedBuffer::new(vec![1, 2, 3]);
    assert_eq!(buf.bytes().as_slice(), &[1, 2, 3]);
    let mut buf = buf;
    buf.release();
}
