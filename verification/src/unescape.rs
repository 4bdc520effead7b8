//! Unescaping: URL-safe Base64 text back to standard Base64 text.
//!
//! `-` becomes `+`, `_` becomes `/`, and the padding that the URL-safe form
//! omits is reconstructed from the length: a length that is no multiple of
//! four is brought to the next multiple with `=` bytes. Unescaping never
//! fails; it is meaningful only when the input really is URL-safe Base64
//! text, but it is defined on every byte sequence.
use std::borrow::Cow;

use vstd::prelude::*;
use vstd::string::StrSliceExecFns;
use vstd::utf8::*;

use crate::model::{pad_amount, pad_seq, unescape_byte, unescaped, MINUS, PAD, PLUS, SLASH,
    UNDERSCORE};
use crate::text::{lemma_append_ascii_valid_utf8, lemma_substitution_valid_utf8, str_from_utf8,
    string_from_utf8};

verus! {

/// True when unescaping `s` changes nothing, so that the input itself can
/// serve as the result: nothing to substitute and no padding to append.
pub open spec fn unescape_borrowable(s: Seq<u8>) -> bool {
    s.len() % 4 == 0 && forall|j: int|
        0 <= j < s.len() ==> s[j] != MINUS && s[j] != UNDERSCORE
}

/// The owned unescape scan: accumulates unmodified runs and flushes a run
/// only at the next substitution or at the end. Padding is the caller's
/// concern.
fn unescape_to_vec(base64_url: &[u8]) -> (out: Vec<u8>)
    ensures
        out@ == base64_url@.map_values(|b: u8| unescape_byte(b)),
{
    let ghost s = base64_url@;
    let length = base64_url.len();
    let mut out: Vec<u8> = Vec::with_capacity(length);
    let mut start: usize = 0;
    let mut p: usize = 0;
    while p < length
        invariant
            start <= p <= length == s.len(),
            s == base64_url@,
            forall|j: int| start <= j < p ==> s[j] != MINUS && s[j] != UNDERSCORE,
            out@ == s.take(start as int).map_values(|b: u8| unescape_byte(b)),
        decreases length - p,
    {
        let e = base64_url[p];
        if e == MINUS || e == UNDERSCORE {
            out.extend_from_slice(&base64_url[start..p]);
            out.push(if e == MINUS {
                PLUS
            } else {
                SLASH
            });
            proof {
                assert(out@ =~= s.take(p + 1).map_values(|b: u8| unescape_byte(b)));
            }
            start = p + 1;
        }
        p += 1;
    }
    out.extend_from_slice(&base64_url[start..p]);
    proof {
        assert(out@ =~= s.map_values(|b: u8| unescape_byte(b)));
    }
    out
}

/// Appends the `=` padding that brings the buffer's length to the next
/// multiple of four; a buffer whose length already is one is kept as it is.
fn append_padding(base64: &mut Vec<u8>)
    ensures
        final(base64)@ == old(base64)@ + pad_seq(old(base64)@.len() as int),
{
    let ghost s = base64@;
    let padding = base64.len() % 4;
    if padding > 0 {
        let needed = 4 - padding;
        let mut i: usize = 0;
        while i < needed
            invariant
                i <= needed,
                needed == pad_amount(s.len() as int),
                base64@ == s + Seq::new(i as nat, |j: int| PAD),
            decreases needed - i,
        {
            base64.push(PAD);
            proof {
                assert(base64@ =~= s + Seq::new((i + 1) as nat, |j: int| PAD));
            }
            i += 1;
        }
    }
    proof {
        assert(base64@ =~= s + pad_seq(s.len() as int));
    }
}

/// Unescape URL-safe Base64 data to standard Base64 data. The conversion
/// does not check that the input is well-formed Base64; that is the
/// caller's concern. When nothing needs substituting and no padding is
/// missing, the input itself is returned borrowed.
pub fn unescape_u8_slice<'a>(base64_url: &'a [u8]) -> (r: Cow<'a, [u8]>)
    ensures
        r@ == unescaped(base64_url@),
        (r matches Cow::Borrowed(_)) <==> unescape_borrowable(base64_url@),
{
    let ghost s = base64_url@;
    let length = base64_url.len();
    if length % 4 > 0 {
        let mut out = unescape_to_vec(base64_url);
        append_padding(&mut out);
        return Cow::Owned(out);
    }
    let mut p: usize = 0;
    while p < length
        invariant
            p <= length == s.len(),
            s == base64_url@,
            s.len() % 4 == 0,
            forall|j: int| 0 <= j < p ==> s[j] != MINUS && s[j] != UNDERSCORE,
        decreases length - p,
    {
        let e = base64_url[p];
        if e == MINUS || e == UNDERSCORE {
            let out = unescape_to_vec(base64_url);
            proof {
                assert(unescaped(s) =~= out@);
            }
            return Cow::Owned(out);
        }
        p += 1;
    }
    proof {
        assert(unescaped(s) =~= s);
    }
    Cow::Borrowed(base64_url)
}

/// In-place substitution of URL-safe Base64 data: every `-` becomes `+`
/// and every `_` becomes `/`; the length is kept.
fn unescape_bytes_in_place(base64_url: &mut Vec<u8>)
    ensures
        final(base64_url)@ == old(base64_url)@.map_values(|b: u8| unescape_byte(b)),
{
    let ghost s = base64_url@;
    let length = base64_url.len();
    let mut p: usize = 0;
    while p < length
        invariant
            p <= length == s.len(),
            base64_url@.len() == s.len(),
            forall|j: int| 0 <= j < p ==> base64_url@[j] == unescape_byte(s[j]),
            forall|j: int| p <= j < s.len() ==> base64_url@[j] == s[j],
        decreases length - p,
    {
        let e = base64_url[p];
        if e == MINUS {
            base64_url[p] = PLUS;
        } else if e == UNDERSCORE {
            base64_url[p] = SLASH;
        }
        p += 1;
    }
    proof {
        assert(base64_url@ =~= s.map_values(|b: u8| unescape_byte(b)));
    }
}

/// Unescape URL-safe Base64 data, substituting in place; only when padding
/// must be appended is an owned, longer copy made, since the buffer cannot
/// grow.
pub fn unescape_u8_slice_try_in_place<'a>(base64_url: &'a mut Vec<u8>) -> (r: Cow<'a, [u8]>)
    ensures
        final(base64_url)@ == old(base64_url)@.map_values(|b: u8| unescape_byte(b)),
        r@ == unescaped(old(base64_url)@),
        (r matches Cow::Borrowed(_)) <==> old(base64_url)@.len() % 4 == 0,
{
    let ghost s = base64_url@;
    unescape_bytes_in_place(base64_url);
    let padding = base64_url.len() % 4;
    if padding > 0 {
        let mut owned: Vec<u8> = Vec::with_capacity(base64_url.len());
        owned.extend_from_slice(base64_url.as_slice());
        proof {
            assert(owned@ =~= base64_url@);
        }
        append_padding(&mut owned);
        proof {
            assert(owned@ =~= unescaped(s));
        }
        Cow::Owned(owned)
    } else {
        proof {
            assert(base64_url@ =~= unescaped(s));
        }
        Cow::Borrowed(base64_url.as_slice())
    }
}

/// In-place unescape of URL-safe Base64 data held in a growable buffer:
/// substitutes, then appends the reconstructed padding.
pub fn unescape_vec_in_place<'a>(base64_url: &'a mut Vec<u8>) -> (r: &'a [u8])
    ensures
        final(base64_url)@ == unescaped(old(base64_url)@),
        r@ == final(base64_url)@,
{
    unescape_bytes_in_place(base64_url);
    append_padding(base64_url);
    base64_url.as_slice()
}

/// Proves that the unescaped form of the UTF-8 bytes of a string is itself
/// valid UTF-8: the substitution puts ASCII bytes where ASCII bytes stood,
/// and the appended padding is ASCII.
proof fn lemma_unescaped_valid_utf8(s: Seq<u8>)
    requires
        valid_utf8(s),
    ensures
        valid_utf8(unescaped(s)),
{
    let m = s.map_values(|b: u8| unescape_byte(b));
    assert forall|i: int| 0 <= i < s.len() implies m[i] == s[i] || (s[i] < 0x80 && m[i]
        < 0x80) by {
        assert(m[i] == unescape_byte(s[i]));
    }
    lemma_substitution_valid_utf8(s, m);
    lemma_append_ascii_valid_utf8(m, pad_seq(s.len() as int));
}

/// Unescape a URL-safe Base64 string to a standard Base64 string. The
/// conversion does not check that the input is well-formed Base64; that is
/// the caller's concern. When nothing changes, the result borrows from the
/// input.
pub fn unescape<'a>(base64_url: &'a str) -> (r: Cow<'a, str>)
    ensures
        encode_utf8(r@) == unescaped(encode_utf8(base64_url@)),
        (r matches Cow::Borrowed(_)) <==> unescape_borrowable(encode_utf8(base64_url@)),
{
    proof {
        encode_utf8_valid_utf8(base64_url@);
    }
    let bytes = base64_url.as_bytes();
    let ghost s = bytes@;
    match unescape_u8_slice(bytes) {
        Cow::Borrowed(b) => {
            proof {
                lemma_unescaped_valid_utf8(s);
                decode_utf8_encode_utf8(b@);
            }
            Cow::Borrowed(str_from_utf8(b))
        },
        Cow::Owned(v) => {
            proof {
                lemma_unescaped_valid_utf8(s);
                decode_utf8_encode_utf8(v@);
            }
            Cow::Owned(string_from_utf8(v))
        },
    }
}

/// In-place unescape of a URL-safe Base64 string: the string afterwards
/// holds its unescaped form, and the returned view covers all of it.
pub fn unescape_in_place<'a>(base64_url: &'a mut String) -> (r: &'a str)
    ensures
        encode_utf8(final(base64_url)@) == unescaped(encode_utf8(old(base64_url)@)),
        r@ == final(base64_url)@,
{
    proof {
        encode_utf8_valid_utf8(base64_url@);
    }
    let mut bytes = base64_url.as_str().as_bytes_vec();
    let ghost s = bytes@;
    unescape_vec_in_place(&mut bytes);
    proof {
        lemma_unescaped_valid_utf8(s);
        decode_utf8_encode_utf8(bytes@);
    }
    *base64_url = string_from_utf8(bytes);
    base64_url.as_str()
}

/// Unescape a URL-safe Base64 string that the caller hands over by value.
pub fn unsafe_unescape(base64_url: String) -> (r: String)
    ensures
        encode_utf8(r@) == unescaped(encode_utf8(base64_url@)),
{
    let mut owned = base64_url;
    unescape_in_place(&mut owned);
    owned
}

/// In-place unescape of a URL-safe Base64 string, keeping nothing but the
/// mutated string.
pub fn unsafe_unescape_string(base64_url: &mut String)
    ensures
        encode_utf8(final(base64_url)@) == unescaped(encode_utf8(old(base64_url)@)),
{
    unescape_in_place(base64_url);
}

/// In-place unescape of URL-safe Base64 data held in a growable buffer.
pub fn unsafe_unescape_vec(base64_url: &mut Vec<u8>)
    ensures
        final(base64_url)@ == unescaped(old(base64_url)@),
{
    unescape_vec_in_place(base64_url);
}

/// Unescape URL-safe Base64 data, substituting in place and copying only
/// when padding must be appended.
pub fn unsafe_unescape_u8_slice<'a>(base64_url: &'a mut Vec<u8>) -> (r: Cow<'a, [u8]>)
    ensures
        final(base64_url)@ == old(base64_url)@.map_values(|b: u8| unescape_byte(b)),
        r@ == unescaped(old(base64_url)@),
        (r matches Cow::Borrowed(_)) <==> old(base64_url)@.len() % 4 == 0,
{
    unescape_u8_slice_try_in_place(base64_url)
}

} // verus!
