//! Escaping: standard Base64 text to URL-safe Base64 text.
//!
//! `+` becomes `-`, `/` becomes `_`, and everything from the first `=`
//! padding character onward is dropped. Escaping never fails; it is
//! meaningful only when the input really is standard Base64 text, but it is
//! defined on every byte sequence.
use std::borrow::Cow;

use vstd::prelude::*;
use vstd::string::StrSliceExecFns;
use vstd::utf8::*;

use crate::model::{escape_byte, escaped, first_pad, lemma_first_pad_bounds, lemma_first_pad_is,
    MINUS, PAD, PLUS, SLASH, UNDERSCORE};
use crate::text::{lemma_cut_valid_utf8, lemma_substitution_valid_utf8, str_from_utf8,
    string_from_utf8};

verus! {

/// True when escaping `s` needs no substitution before the first `=`, so
/// that a borrowed prefix of the input can serve as the result.
pub open spec fn escape_borrowable(s: Seq<u8>) -> bool {
    forall|j: int| 0 <= j < first_pad(s) ==> s[j] != PLUS && s[j] != SLASH
}

/// The owned continuation of the escape scan: called at the first `+` or
/// `/`, it copies the unmodified prefix once, then accumulates unmodified
/// runs and flushes a run only at the next substitution or at the end.
fn escape_owned(base64: &[u8], first_special: usize) -> (out: Vec<u8>)
    requires
        first_special < base64@.len(),
        forall|j: int| 0 <= j < first_special ==> base64@[j] != PLUS && base64@[j] != SLASH
            && base64@[j] != PAD,
        base64@[first_special as int] == PLUS || base64@[first_special as int] == SLASH,
    ensures
        out@ == escaped(base64@),
{
    let ghost s = base64@;
    let length = base64.len();
    let mut out: Vec<u8> = Vec::with_capacity(length);
    out.extend_from_slice(&base64[0..first_special]);
    let e = base64[first_special];
    out.push(if e == PLUS {
        MINUS
    } else {
        UNDERSCORE
    });
    proof {
        assert(out@ =~= s.take(first_special + 1).map_values(|b: u8| escape_byte(b)));
    }
    let mut start = first_special + 1;
    let mut p = first_special + 1;
    while p < length
        invariant
            start <= p <= length == s.len(),
            s == base64@,
            forall|j: int| 0 <= j < p ==> s[j] != PAD,
            forall|j: int| start <= j < p ==> s[j] != PLUS && s[j] != SLASH,
            out@ == s.take(start as int).map_values(|b: u8| escape_byte(b)),
        ensures
            start <= p <= length,
            p == length || s[p as int] == PAD,
            forall|j: int| 0 <= j < p ==> s[j] != PAD,
            forall|j: int| start <= j < p ==> s[j] != PLUS && s[j] != SLASH,
            out@ == s.take(start as int).map_values(|b: u8| escape_byte(b)),
        decreases length - p,
    {
        let e = base64[p];
        if e == PAD {
            break;
        }
        if e == PLUS || e == SLASH {
            out.extend_from_slice(&base64[start..p]);
            out.push(if e == PLUS {
                MINUS
            } else {
                UNDERSCORE
            });
            proof {
                assert(out@ =~= s.take(p + 1).map_values(|b: u8| escape_byte(b)));
            }
            start = p + 1;
        }
        p += 1;
    }
    out.extend_from_slice(&base64[start..p]);
    proof {
        assert(out@ =~= s.take(p as int).map_values(|b: u8| escape_byte(b)));
        lemma_first_pad_is(s, p as int);
    }
    out
}

/// Escape standard Base64 data to URL-safe Base64 data. The conversion does
/// not check that the input is well-formed Base64; that is the caller's
/// concern. No allocation happens unless a substitution is needed before
/// the first `=`.
pub fn escape_u8_slice<'a>(base64: &'a [u8]) -> (r: Cow<'a, [u8]>)
    ensures
        r@ == escaped(base64@),
        (r matches Cow::Borrowed(_)) <==> escape_borrowable(base64@),
{
    let ghost s = base64@;
    let length = base64.len();
    let mut p: usize = 0;
    while p < length
        invariant
            p <= length == s.len(),
            s == base64@,
            forall|j: int| 0 <= j < p ==> s[j] != PLUS && s[j] != SLASH && s[j] != PAD,
        decreases length - p,
    {
        let e = base64[p];
        if e == PAD {
            proof {
                lemma_first_pad_is(s, p as int);
                assert(escaped(s) =~= s.take(p as int));
            }
            return Cow::Borrowed(&base64[0..p]);
        }
        if e == PLUS || e == SLASH {
            proof {
                lemma_first_pad_bounds(s);
            }
            return Cow::Owned(escape_owned(base64, p));
        }
        p += 1;
    }
    proof {
        lemma_first_pad_is(s, length as int);
        assert(escaped(s) =~= s);
    }
    Cow::Borrowed(base64)
}

/// Proves that the escaped form of the UTF-8 bytes of a string is itself
/// valid UTF-8: the kept prefix ends at the end or just before the ASCII
/// byte `=`, and the substitution puts ASCII bytes where ASCII bytes stood.
proof fn lemma_escaped_valid_utf8(s: Seq<u8>)
    requires
        valid_utf8(s),
    ensures
        valid_utf8(escaped(s)),
{
    lemma_first_pad_bounds(s);
    let k = first_pad(s);
    lemma_cut_valid_utf8(s, k);
    let a = s.take(k);
    assert forall|i: int| 0 <= i < a.len() implies escaped(s)[i] == a[i] || (a[i] < 0x80
        && escaped(s)[i] < 0x80) by {
        assert(escaped(s)[i] == escape_byte(a[i]));
    }
    lemma_substitution_valid_utf8(a, escaped(s));
}

/// Escape a standard Base64 string to a URL-safe Base64 string. The
/// conversion does not check that the input is well-formed Base64; that is
/// the caller's concern. When nothing needs substituting before the first
/// `=`, the result borrows from the input.
pub fn escape<'a>(base64: &'a str) -> (r: Cow<'a, str>)
    ensures
        encode_utf8(r@) == escaped(encode_utf8(base64@)),
        (r matches Cow::Borrowed(_)) <==> escape_borrowable(encode_utf8(base64@)),
{
    proof {
        encode_utf8_valid_utf8(base64@);
    }
    let bytes = base64.as_bytes();
    let ghost s = bytes@;
    match escape_u8_slice(bytes) {
        Cow::Borrowed(b) => {
            proof {
                lemma_escaped_valid_utf8(s);
                decode_utf8_encode_utf8(b@);
            }
            Cow::Borrowed(str_from_utf8(b))
        },
        Cow::Owned(v) => {
            proof {
                lemma_escaped_valid_utf8(s);
                decode_utf8_encode_utf8(v@);
            }
            Cow::Owned(string_from_utf8(v))
        },
    }
}

/// In-place escape of a standard Base64 string: the string afterwards
/// holds its escaped form, and the returned view covers all of it.
pub fn escape_in_place<'a>(base64: &'a mut String) -> (r: &'a str)
    ensures
        encode_utf8(final(base64)@) == escaped(encode_utf8(old(base64)@)),
        r@ == final(base64)@,
{
    proof {
        encode_utf8_valid_utf8(base64@);
    }
    let mut bytes = base64.as_str().as_bytes_vec();
    let ghost s = bytes@;
    escape_vec_in_place(&mut bytes);
    proof {
        lemma_escaped_valid_utf8(s);
        decode_utf8_encode_utf8(bytes@);
    }
    *base64 = string_from_utf8(bytes);
    base64.as_str()
}

/// In-place escape of Base64 data: substitutes up to the first `=`, leaves
/// the buffer length unchanged, and returns the prefix that holds the
/// escaped data. Bytes from the first `=` onward are untouched.
pub fn escape_u8_slice_in_place<'a>(base64: &'a mut Vec<u8>) -> (r: &'a [u8])
    ensures
        final(base64)@ == escaped(old(base64)@) + old(base64)@.skip(first_pad(old(base64)@)),
        r@ == escaped(old(base64)@),
{
    let ghost s = base64@;
    let length = base64.len();
    let mut p: usize = 0;
    while p < length
        invariant
            p <= length == s.len(),
            base64@.len() == s.len(),
            forall|j: int| 0 <= j < p ==> s[j] != PAD && base64@[j] == escape_byte(s[j]),
            forall|j: int| p <= j < s.len() ==> base64@[j] == s[j],
        ensures
            p <= length,
            p == length || s[p as int] == PAD,
            base64@.len() == s.len(),
            forall|j: int| 0 <= j < p ==> s[j] != PAD && base64@[j] == escape_byte(s[j]),
            forall|j: int| p <= j < s.len() ==> base64@[j] == s[j],
        decreases length - p,
    {
        let e = base64[p];
        if e == PAD {
            break;
        }
        if e == PLUS {
            base64[p] = MINUS;
        } else if e == SLASH {
            base64[p] = UNDERSCORE;
        }
        p += 1;
    }
    proof {
        lemma_first_pad_is(s, p as int);
        assert(base64@ =~= escaped(s) + s.skip(p as int));
        assert(base64@.subrange(0, p as int) =~= escaped(s));
    }
    &base64.as_slice()[0..p]
}

/// In-place escape of Base64 data held in a growable buffer: substitutes,
/// then truncates at the first `=`, so the whole buffer is the escaped data.
pub fn escape_vec_in_place<'a>(base64: &'a mut Vec<u8>) -> (r: &'a [u8])
    ensures
        final(base64)@ == escaped(old(base64)@),
        r@ == final(base64)@,
{
    let ghost s = base64@;
    let length = escape_u8_slice_in_place(base64).len();
    base64.truncate(length);
    proof {
        assert(base64@ =~= escaped(s));
    }
    base64.as_slice()
}

/// Escape a standard Base64 string that the caller hands over by value.
pub fn unsafe_escape(base64: String) -> (r: String)
    ensures
        encode_utf8(r@) == escaped(encode_utf8(base64@)),
{
    let mut owned = base64;
    escape_in_place(&mut owned);
    owned
}

/// In-place escape of a standard Base64 string, keeping nothing but the
/// mutated string.
pub fn unsafe_escape_string(base64: &mut String)
    ensures
        encode_utf8(final(base64)@) == escaped(encode_utf8(old(base64)@)),
{
    escape_in_place(base64);
}

/// In-place escape of Base64 data held in a growable buffer.
pub fn unsafe_escape_vec(base64: &mut Vec<u8>)
    ensures
        final(base64)@ == escaped(old(base64)@),
{
    escape_vec_in_place(base64);
}

/// In-place escape of Base64 data: the buffer keeps its length, and the
/// returned prefix holds the escaped data.
pub fn unsafe_escape_u8_slice<'a>(base64: &'a mut Vec<u8>) -> (r: &'a [u8])
    ensures
        final(base64)@ == escaped(old(base64)@) + old(base64)@.skip(first_pad(old(base64)@)),
        r@ == escaped(old(base64)@),
{
    escape_u8_slice_in_place(base64)
}

} // verus!
