//! Encoding: binary data to URL-safe Base64 text.
//!
//! This is the fast path: the codec is configured with the URL-safe,
//! no-padding alphabet, so no escaping step is needed. The buffer variants
//! append to a caller-owned buffer and never touch what stood in it before
//! the append point.
use vstd::prelude::*;
use vstd::pervasive::unreached;
use vstd::string::StringExecFns;
use vstd::utf8::{encode_utf8, is_ascii_chars};

use crate::engine::{encoded, encoded_len, decoded, engine_encode, engine_encode_slice};

verus! {

/// Encode data to a URL-safe Base64 string. Always succeeds; the codec's
/// own decoding returns exactly the input bytes on the result.
pub fn encode(input: &[u8]) -> (r: String)
    requires
        4 * input@.len() + 2 <= usize::MAX,
    ensures
        encode_utf8(r@) == encoded(input@),
        is_ascii_chars(r@),
        r@.len() == encoded_len(input@.len() as int),
        decoded(encode_utf8(r@)) == Some(input@),
{
    engine_encode(input)
}

/// Encode data to a URL-safe Base64 string and append it to a string the
/// caller owns, say a URL under construction; what stood in the string
/// stays untouched. Returns the appended text.
pub fn encode_to_string(input: &[u8], output: &mut String) -> (r: String)
    requires
        4 * input@.len() + 2 <= usize::MAX,
    ensures
        final(output)@ == old(output)@ + r@,
        encode_utf8(r@) == encoded(input@),
        is_ascii_chars(r@),
        r@.len() == encoded_len(input@.len() as int),
{
    let encoded_text = engine_encode(input);
    output.append(encoded_text.as_str());
    encoded_text
}

/// Encode data to URL-safe Base64 data and append it to a buffer the
/// caller owns; what stood in the buffer stays untouched. Returns the
/// appended region. The encoding goes through a scratch buffer of the
/// exact encoded length, and only that valid region is appended.
pub fn encode_to_vec<'a>(input: &[u8], output: &'a mut Vec<u8>) -> (r: &'a [u8])
    requires
        4 * input@.len() + 2 <= usize::MAX,
    ensures
        final(output)@ == old(output)@ + encoded(input@),
        r@ == encoded(input@),
{
    let current_length = output.len();
    let base64_length = (input.len() * 4 + 2) / 3;
    let mut scratch: Vec<u8> = vec![0u8; base64_length];
    match engine_encode_slice(input, &mut scratch) {
        Ok(n) => {
            output.extend_from_slice(&scratch.as_slice()[0..n]);
            proof {
                assert(output@ =~= old(output)@ + encoded(input@));
                assert(output@.subrange(current_length as int, output@.len() as int) =~= encoded(
                    input@,
                ));
            }
            &output.as_slice()[current_length..output.len()]
        },
        Err(_) => unreached(),
    }
}

/// Encode data to URL-safe Base64 data written at the start of a buffer
/// the caller has sized; fails exactly when the buffer is shorter than the
/// encoded length, and then leaves it untouched. Returns the written
/// region.
pub fn encode_to_slice<'a>(input: &[u8], output: &'a mut Vec<u8>) -> (r: Result<
    &'a [u8],
    base64::EncodeSliceError,
>)
    requires
        4 * input@.len() + 2 <= usize::MAX,
    ensures
        final(output)@.len() == old(output)@.len(),
        match r {
            Ok(data) => data@ == encoded(input@) && old(output)@.len() >= encoded(input@).len()
                && final(output)@ == encoded(input@) + old(output)@.skip(data@.len() as int),
            Err(_) => old(output)@.len() < encoded(input@).len() && final(output)@ == old(
                output,
            )@,
        },
{
    match engine_encode_slice(input, output) {
        Ok(length) => {
            proof {
                assert(output@.subrange(0, length as int) =~= encoded(input@));
            }
            Ok(&output.as_slice()[0..length])
        },
        Err(e) => Err(e),
    }
}

} // verus!
