//! The managed-runtime bridge: the second boundary implementation. It takes
//! the plain values that the runtime adapter has already pulled out of its
//! managed objects, converts them to the facade's representation, invokes the
//! facade, converts the result back, and releases every owned buffer it
//! received — exactly once, on the path that produced it. An argument the
//! bridge cannot convert surfaces as a bridge-native error at conversion
//! time instead of travelling further down.

use vstd::prelude::*;
use vstd::string::StrSliceExecFns;
use vstd::utf8::encode_utf8;
use vstd::utf8::{encode_utf8_decode_utf8, encode_utf8_valid_utf8};
use crate::compute;
use crate::facade;

verus! {

/// A failure the bridge can hand to the managed runtime. Lower layers have
/// no error channel, so only the bridge translates one.
#[derive(Clone, Copy, Debug, PartialEq, Eq, Structural)]
pub enum BridgeError {
    /// The text cannot become a C string: it carries an interior nul.
    InteriorNul,
}

/// The byte length of the managed text, or a conversion error where the
/// text cannot become a C string. The length bound is forced by the 32-bit
/// result type.
pub fn string_length(input: &str) -> (r: Result<i32, BridgeError>)
    requires
        encode_utf8(input@).len() <= i32::MAX,
    ensures
        r matches Ok(n) ==> n == encode_utf8(input@).len(),
        r is Ok <==> !encode_utf8(input@).contains(0u8),
        r is Err ==> r == Result::<i32, BridgeError>::Err(BridgeError::InteriorNul),
{
    let bytes = input.as_bytes_vec();
    if facade::contains_nul(bytes.as_slice()) {
        return Err(BridgeError::InteriorNul);
    }
    proof {
        encode_utf8_valid_utf8(input@);
    }
    let n = facade::string_length(Some(bytes.as_slice()));
    Ok(n)
}

/// Reverse the managed text by code point. The bridge encodes it as a C
/// string, invokes the facade, copies the owned buffer it gets back into
/// managed text, and then triggers the buffer's one release through the
/// paired `free_string`.
pub fn reverse_string(input: &str) -> (r: Result<String, BridgeError>)
    ensures
        r matches Ok(s) ==> s@ == input@.reverse(),
        r is Ok <==> !encode_utf8(input@).contains(0u8),
        r is Err ==> r == Result::<String, BridgeError>::Err(BridgeError::InteriorNul),
{
    let bytes = input.as_bytes_vec();
    if facade::contains_nul(bytes.as_slice()) {
        return Err(BridgeError::InteriorNul);
    }
    proof {
        encode_utf8_valid_utf8(input@);
        encode_utf8_decode_utf8(input@);
        encode_utf8_valid_utf8(input@.reverse());
        encode_utf8_decode_utf8(input@.reverse());
    }
    match facade::reverse_string(Some(bytes.as_slice())) {
        Some(buf) => {
            let out = match facade::bytes_to_str(buf.bytes().as_slice()) {
                Some(st) => st.to_owned(),
                None => String::new(),
            };
            facade::free_string(Some(buf));
            Ok(out)
        },
        None => Err(BridgeError::InteriorNul),
    }
}

/// Sum the elements the runtime adapter copied out of a managed integer
/// array. The count handed to the facade is the slice's own length, and
/// every partial sum must fit, as the native addition demands.
pub fn sum_array(elements: &Vec<i32>) -> (r: i32)
    requires
        elements@.len() <= i32::MAX,
        forall|k: int|
            0 <= k <= elements@.len() ==> i32::MIN <= #[trigger] compute::sum_of(
                elements@.subrange(0, k),
            ) <= i32::MAX,
    ensures
        r == compute::sum_of(elements@),
{
    let len: i32 = elements.len() as i32;
    if len == 0 {
        proof {
            assert(elements@.subrange(0, 0) =~= elements@);
        }
        return 0;
    }
    facade::sum_array(Some(elements.as_slice()), len)
}

} // verus!
