//! The numeric Base64 codec: an outside collaborator, reached only through
//! the trusted items in this module.
//!
//! Everything here goes through base64's `URL_SAFE_NO_PAD` engine, which
//! encodes with the URL-safe alphabet and neither emits nor accepts `=`
//! padding. What the engine computes is named, not spelled out: `encoded`
//! and `decoded` stand for its results, and the contracts state only what
//! the crate's source shows of them.
use vstd::prelude::*;

use base64::Engine;

verus! {

#[verifier::external_type_specification]
#[verifier::external_body]
pub struct ExDecodeError(base64::DecodeError);

#[verifier::external_type_specification]
#[verifier::external_body]
pub struct ExDecodeSliceError(base64::DecodeSliceError);

#[verifier::external_type_specification]
#[verifier::external_body]
pub struct ExEncodeSliceError(base64::EncodeSliceError);

/// The URL-safe, no-padding Base64 encoding of `data`, as the engine
/// computes it: a function of the bytes alone.
pub uninterp spec fn encoded(data: Seq<u8>) -> Seq<u8>;

/// What the engine's decoding yields on `text`: the decoded bytes when the
/// engine accepts the text, nothing when it rejects it; a function of the
/// bytes alone.
pub uninterp spec fn decoded(text: Seq<u8>) -> Option<Seq<u8>>;

/// The length of the URL-safe, no-padding encoding of `n` input bytes:
/// four bytes for every three, rounded up.
pub open spec fn encoded_len(n: int) -> int {
    (4 * n + 2) / 3
}

/// The engine's conservative bound on the decoded length of `n` text
/// bytes: three bytes for every four, rounded up. A buffer this long never
/// runs out during decoding.
pub open spec fn decoded_estimate(n: int) -> int {
    n / 4 * 3 + if n % 4 > 0 {
        3int
    } else {
        0int
    }
}

/// Relies on base64's `Engine::encode` with the `URL_SAFE_NO_PAD` engine:
/// the result is ASCII text of the no-padding encoded length, and the
/// engine's own decoding returns exactly the input bytes on it.
#[verifier::external_body]
pub(crate) fn engine_encode(input: &[u8]) -> (r: String)
    requires
        4 * input@.len() + 2 <= usize::MAX,
    ensures
        vstd::utf8::encode_utf8(r@) == encoded(input@),
        vstd::utf8::is_ascii_chars(r@),
        r@.len() == encoded_len(input@.len() as int),
        decoded(vstd::utf8::encode_utf8(r@)) == Some(input@),
{
    base64::engine::general_purpose::URL_SAFE_NO_PAD.encode(input)
}

/// Relies on base64's `Engine::decode` with the `URL_SAFE_NO_PAD` engine:
/// it returns the decoded bytes exactly when it accepts the input, and one
/// of its errors otherwise.
#[verifier::external_body]
pub(crate) fn engine_decode(input: &[u8]) -> (r: Result<Vec<u8>, base64::DecodeError>)
    ensures
        match r {
            Ok(data) => decoded(input@) == Some(data@),
            Err(_) => decoded(input@) is None,
        },
{
    base64::engine::general_purpose::URL_SAFE_NO_PAD.decode(input)
}

/// Relies on base64's `Engine::encode_slice` with the `URL_SAFE_NO_PAD`
/// engine: it refuses exactly a buffer shorter than the encoded length;
/// otherwise it writes the encoded bytes at the buffer's start and leaves
/// the rest untouched.
#[verifier::external_body]
pub(crate) fn engine_encode_slice(input: &[u8], output: &mut Vec<u8>) -> (r: Result<
    usize,
    base64::EncodeSliceError,
>)
    requires
        4 * input@.len() + 2 <= usize::MAX,
    ensures
        final(output)@.len() == old(output)@.len(),
        match r {
            Ok(n) => n == encoded(input@).len() && n == encoded_len(input@.len() as int) && n
                <= old(output)@.len() && final(output)@ == encoded(input@) + old(
                output,
            )@.skip(n as int),
            Err(_) => old(output)@.len() < encoded_len(input@.len() as int) && encoded(
                input@,
            ).len() == encoded_len(input@.len() as int) && final(output)@ == old(output)@,
        },
{
    let r = base64::engine::general_purpose::URL_SAFE_NO_PAD.encode_slice(
        input,
        output.as_mut_slice(),
    );
    r
}

/// Relies on base64's `Engine::decode_slice` with the `URL_SAFE_NO_PAD`
/// engine: on success the decoded bytes stand at the buffer's start and
/// the rest is untouched; it fails only on input the engine rejects, or on
/// a buffer shorter than the engine's conservative estimate.
#[verifier::external_body]
pub(crate) fn engine_decode_slice(input: &[u8], output: &mut Vec<u8>) -> (r: Result<
    usize,
    base64::DecodeSliceError,
>)
    ensures
        final(output)@.len() == old(output)@.len(),
        match r {
            Ok(n) => decoded(input@) matches Some(data) && n == data.len() && n <= old(
                output,
            )@.len() && final(output)@ == data + old(output)@.skip(n as int),
            Err(_) => decoded(input@) is None || old(output)@.len() < decoded_estimate(
                input@.len() as int,
            ),
        },
{
    let r = base64::engine::general_purpose::URL_SAFE_NO_PAD.decode_slice(
        input,
        output.as_mut_slice(),
    );
    r
}

} // verus!
