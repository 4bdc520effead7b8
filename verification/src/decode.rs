//! Decoding: URL-safe Base64 text back to binary data.
//!
//! Malformed input surfaces as the codec's own error, forwarded unchanged;
//! this layer adds only buffer safety: a buffer-growing call that fails
//! leaves the buffer exactly as it was, and no reserved-but-unwritten byte
//! is ever visible.
use vstd::prelude::*;
use vstd::utf8::encode_utf8;

use crate::engine::{decoded, decoded_estimate, engine_decode, engine_decode_slice};

verus! {

/// Decode a URL-safe Base64 string to data. Returns the decoded bytes
/// exactly when the codec accepts the text, and its error otherwise.
pub fn decode(input: &str) -> (r: Result<Vec<u8>, base64::DecodeError>)
    ensures
        match r {
            Ok(data) => decoded(encode_utf8(input@)) == Some(data@),
            Err(_) => decoded(encode_utf8(input@)) is None,
        },
{
    engine_decode(input.as_bytes())
}

/// Decode a URL-safe Base64 string and append the decoded data to a buffer
/// the caller owns; what stood in the buffer stays untouched, and on
/// failure the buffer is exactly as it was. Returns the appended region.
/// The decoding goes through a scratch buffer of the codec's conservative
/// estimated length, and only the valid region is appended.
pub fn decode_to_vec<'a>(input: &str, output: &'a mut Vec<u8>) -> (r: Result<
    &'a [u8],
    base64::DecodeSliceError,
>)
    ensures
        match r {
            Ok(data) => decoded(encode_utf8(input@)) == Some(data@) && final(output)@ == old(
                output,
            )@ + data@,
            Err(_) => decoded(encode_utf8(input@)) is None && final(output)@ == old(output)@,
        },
{
    let bytes = input.as_bytes();
    let current_length = output.len();
    let max_length = bytes.len() / 4 * 3 + if bytes.len() % 4 > 0 {
        3
    } else {
        0
    };
    let mut scratch: Vec<u8> = vec![0u8; max_length];
    match engine_decode_slice(bytes, &mut scratch) {
        Ok(n) => {
            output.extend_from_slice(&scratch.as_slice()[0..n]);
            proof {
                let data = decoded(bytes@)->Some_0;
                assert(output@ =~= old(output)@ + data);
                assert(output@.subrange(current_length as int, output@.len() as int) =~= data);
            }
            Ok(&output.as_slice()[current_length..output.len()])
        },
        Err(e) => Err(e),
    }
}

/// Decode a URL-safe Base64 string into the start of a buffer the caller
/// has sized; fails on input the codec rejects, or on a buffer shorter
/// than the codec's conservative estimate. Returns the written region.
pub fn decode_to_slice<'a>(input: &str, output: &'a mut Vec<u8>) -> (r: Result<
    &'a [u8],
    base64::DecodeSliceError,
>)
    ensures
        final(output)@.len() == old(output)@.len(),
        match r {
            Ok(data) => decoded(encode_utf8(input@)) == Some(data@) && final(output)@ == data@
                + old(output)@.skip(data@.len() as int),
            Err(_) => decoded(encode_utf8(input@)) is None || old(output)@.len()
                < decoded_estimate(encode_utf8(input@).len() as int),
        },
{
    match engine_decode_slice(input.as_bytes(), output) {
        Ok(n) => {
            proof {
                let data = decoded(encode_utf8(input@))->Some_0;
                assert(output@.subrange(0, n as int) =~= data);
            }
            Ok(&output.as_slice()[0..n])
        },
        Err(e) => Err(e),
    }
}

} // verus!
