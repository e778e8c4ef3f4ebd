//! The foreign-function facade: the computation core over boundary-safe
//! values. Text arrives as the bytes of a C string (`None` standing for a
//! null pointer), sequences as a slice with a separate element count, and
//! failures come back as the documented sentinel values, since the boundary
//! has no shared error channel. Every operation delegates to the core, so no
//! algorithm is duplicated here.

use vstd::prelude::*;
use vstd::string::StrSliceExecFns;
use vstd::utf8::{decode_utf8, encode_utf8, valid_utf8};
use crate::boundary::OwnedBuffer;
use crate::compute;

verus! {

/// Relies on `core::str::from_utf8`: it succeeds exactly on valid UTF-8 and
/// returns a string slice viewing the given bytes unchanged.
#[verifier::external_body]
pub(crate) fn bytes_to_str(v: &[u8]) -> (r: Option<&str>)
    ensures
        r is Some <==> valid_utf8(v@),
        r matches Some(s) ==> encode_utf8(s@) == v@ && s@ == decode_utf8(v@),
{
    core::str::from_utf8(v).ok()
}

/// Whether the bytes hold a nul, which no C string can carry internally.
pub(crate) fn contains_nul(b: &[u8]) -> (r: bool)
    ensures
        r == b@.contains(0u8),
{
    let mut i: usize = 0;
    while i < b.len()
        invariant
            i <= b@.len(),
            forall|j: int| 0 <= j < i ==> b@[j] != 0u8,
        decreases b@.len() - i,
    {
        if b[i] == 0 {
            return true;
        }
        i = i + 1;
    }
    proof {
        assert(!b@.contains(0u8));
    }
    false
}

/// Add two integers, wrapping on overflow as the core does.
pub fn add_numbers(a: i32, b: i32) -> (r: i32)
    ensures
        r == compute::spec_sum_wrapped(a as int, b as int),
{
    compute::add_numbers(a, b)
}

/// The factorial of `n`, delegated to the core under the same bound.
pub fn factorial(n: i32) -> (r: i32)
    requires
        n <= 12,
    ensures
        r == compute::spec_factorial(n as int),
{
    compute::factorial(n)
}

/// Primality as a 0/1 integer, since the boundary guarantees no boolean
/// type.
pub fn is_prime(n: i32) -> (r: i32)
    ensures
        r == 1 <==> compute::spec_is_prime(n as int),
        r == 0 || r == 1,
{
    if compute::is_prime(n) {
        1
    } else {
        0
    }
}

/// The `n`-th Fibonacci number, delegated to the core under the same bound.
pub fn fibonacci(n: i32) -> (r: i32)
    requires
        n <= 46,
    ensures
        n >= 0 ==> r == compute::spec_fibonacci(n as int),
        n < 0 ==> r == n,
{
    compute::fibonacci(n)
}

/// The byte length of a C string, or the sentinel -1 for a null pointer or
/// bytes that are not valid UTF-8. The length bound is forced by the 32-bit
/// result type.
pub fn string_length(s: Option<&[u8]>) -> (r: i32)
    requires
        s matches Some(b) ==> b@.len() <= i32::MAX,
    ensures
        s is None ==> r == -1,
        s matches Some(b) ==> if valid_utf8(b@) {
            r == b@.len()
        } else {
            r == -1
        },
{
    match s {
        None => -1,
        Some(b) => match bytes_to_str(b) {
            None => -1,
            Some(st) => compute::string_length(st),
        },
    }
}

/// Whether the facade can reverse these C-string bytes: they must decode as
/// UTF-8, and they must carry no nul, since the reversed text could then not
/// be handed back as a C string.
pub open spec fn reverse_accepted(b: Seq<u8>) -> bool {
    valid_utf8(b) && !b.contains(0u8)
}

/// The bytes of the reversed text: decode, reverse by code point, encode.
pub open spec fn reversed_bytes(b: Seq<u8>) -> Seq<u8> {
    encode_utf8(decode_utf8(b).reverse())
}

/// Reverse a C string by code point into a freshly allocated owned buffer,
/// whose one release is the paired `free_string`. A null pointer, invalid
/// UTF-8, or text that cannot come back as a C string yields the null
/// sentinel instead.
pub fn reverse_string(s: Option<&[u8]>) -> (r: Option<OwnedBuffer>)
    ensures
        s is None ==> r is None,
        s matches Some(b) ==> if reverse_accepted(b@) {
            r matches Some(buf) && buf.live() && buf.contents() == reversed_bytes(b@)
        } else {
            r is None
        },
{
    match s {
        None => None,
        Some(b) => {
            if contains_nul(b) {
                return None;
            }
            match bytes_to_str(b) {
                None => None,
                Some(st) => {
                    let rev = compute::reverse_string(st);
                    let out = rev.as_str().as_bytes_vec();
                    Some(OwnedBuffer::new(out))
                },
            }
        },
    }
}

/// Release a buffer handed out by `reverse_string`. A null buffer is
/// tolerated as a no-op; a non-null buffer must still be live, so the same
/// buffer can never go through here twice.
pub fn free_string(s: Option<OwnedBuffer>)
    requires
        s matches Some(b) ==> b.live(),
{
    match s {
        None => {},
        Some(mut b) => b.release(),
    }
}

/// Sum an array passed as a base slice and an element count. A null pointer
/// or a non-positive count yields the empty-sum fallback 0, never a fault;
/// otherwise the caller guarantees that the count matches the slice and that
/// every partial sum fits, as the native addition demands.
pub fn sum_array(arr: Option<&[i32]>, len: i32) -> (r: i32)
    requires
        arr matches Some(a) ==> (len > 0 ==> a@.len() == len),
        arr matches Some(a) ==> (len > 0 ==> forall|k: int|
            0 <= k <= a@.len() ==> i32::MIN <= #[trigger] compute::sum_of(a@.subrange(0, k))
                <= i32::MAX),
    ensures
        arr is None || len <= 0 ==> r == 0,
        arr matches Some(a) ==> (len > 0 ==> r == compute::sum_of(a@)),
{
    match arr {
        None => 0,
        Some(a) => {
            if len <= 0 {
                0
            } else {
                compute::sum_array(a)
            }
        },
    }
}

} // verus!
