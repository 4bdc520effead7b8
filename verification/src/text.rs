//! Text-level support for the byte-level conversions.
//!
//! Escaping and unescaping work on the UTF-8 bytes of a string. They only
//! ever replace an ASCII byte by another ASCII byte, cut just before an
//! ASCII byte, or append ASCII bytes, and each of those steps keeps the
//! bytes valid UTF-8; the lemmas here say so, and the two trusted wrappers
//! turn such bytes back into strings.
use vstd::prelude::*;
use vstd::utf8::*;

verus! {

/// Replacing bytes of a valid UTF-8 sequence keeps it valid, as long as
/// every replacement puts an ASCII byte where an ASCII byte stood.
pub proof fn lemma_substitution_valid_utf8(a: Seq<u8>, b: Seq<u8>)
    requires
        valid_utf8(a),
        a.len() == b.len(),
        forall|i: int| 0 <= i < a.len() ==> b[i] == a[i] || (a[i] < 0x80 && b[i] < 0x80),
    ensures
        valid_utf8(b),
    decreases a.len(),
{
    if a.len() != 0 {
        let w = length_of_first_scalar(a);
        if is_leading_byte_width_1(a[0]) {
            assert(codepoint_width_1(b[0]) < 0x80) by {
                let x = b[0];
                assert(x & 0x7f < 0x80) by (bit_vector);
            }
            assert(valid_first_scalar(b));
            let a2 = a.subrange(1, a.len() as int);
            let b2 = b.subrange(1, b.len() as int);
            assert forall|i: int| 0 <= i < a2.len() implies b2[i] == a2[i] || (a2[i] < 0x80
                && b2[i] < 0x80) by {
                assert(a2[i] == a[i + 1] && b2[i] == b[i + 1]);
            }
            assert(pop_first_scalar(a) =~= a2);
            lemma_substitution_valid_utf8(a2, b2);
            assert(pop_first_scalar(b) =~= b2);
        } else {
            assert(forall|i: int| 0 <= i < w ==> a[i] >= 0x80);
            assert(forall|i: int| 0 <= i < w ==> b[i] == a[i]);
            assert(decode_first_codepoint(b) == decode_first_codepoint(a));
            assert(valid_first_scalar(b));
            assert(length_of_first_scalar(b) == w);
            let a2 = a.subrange(w, a.len() as int);
            let b2 = b.subrange(w, b.len() as int);
            assert forall|i: int| 0 <= i < a2.len() implies b2[i] == a2[i] || (a2[i] < 0x80
                && b2[i] < 0x80) by {
                assert(a2[i] == a[i + w] && b2[i] == b[i + w]);
            }
            assert(pop_first_scalar(a) =~= a2);
            lemma_substitution_valid_utf8(a2, b2);
            assert(pop_first_scalar(b) =~= b2);
        }
    }
}

/// A sequence of ASCII bytes is valid UTF-8.
pub proof fn lemma_ascii_seq_valid_utf8(t: Seq<u8>)
    requires
        forall|i: int| 0 <= i < t.len() ==> t[i] < 0x80,
    ensures
        valid_utf8(t),
    decreases t.len(),
{
    if t.len() != 0 {
        assert(codepoint_width_1(t[0]) < 0x80) by {
            let x = t[0];
            assert(x & 0x7f < 0x80) by (bit_vector);
        }
        assert(valid_first_scalar(t));
        let t2 = t.subrange(1, t.len() as int);
        lemma_ascii_seq_valid_utf8(t2);
        assert(pop_first_scalar(t) =~= t2);
    }
}

/// Cutting a valid UTF-8 sequence at its end, or just before an ASCII
/// byte, keeps the kept prefix valid.
pub proof fn lemma_cut_valid_utf8(s: Seq<u8>, k: int)
    requires
        valid_utf8(s),
        0 <= k <= s.len(),
        k < s.len() ==> s[k] < 0x80,
    ensures
        valid_utf8(s.take(k)),
{
    if k == s.len() {
        assert(s.take(k) =~= s);
    } else {
        assert(!is_continuation_byte(s[k]));
        is_char_boundary_iff_not_is_continuation_byte(s, k);
        valid_utf8_split(s, k);
        assert(valid_utf8(s.subrange(0, k)));
        assert(s.take(k) =~= s.subrange(0, k));
    }
}

/// Appending ASCII bytes to a valid UTF-8 sequence keeps it valid.
pub proof fn lemma_append_ascii_valid_utf8(s: Seq<u8>, t: Seq<u8>)
    requires
        valid_utf8(s),
        forall|i: int| 0 <= i < t.len() ==> t[i] < 0x80,
    ensures
        valid_utf8(s + t),
{
    lemma_ascii_seq_valid_utf8(t);
    valid_utf8_concat(s, t);
}

/// Relies on `core::str::from_utf8`: on valid UTF-8 bytes it returns the
/// borrowed string that those bytes spell.
#[verifier::external_body]
pub(crate) fn str_from_utf8<'a>(bytes: &'a [u8]) -> (r: &'a str)
    requires
        valid_utf8(bytes@),
    ensures
        r@ == decode_utf8(bytes@),
{
    core::str::from_utf8(bytes).unwrap()
}

/// Relies on `String::from_utf8`: on valid UTF-8 bytes it returns the
/// owned string that those bytes spell.
#[verifier::external_body]
pub(crate) fn string_from_utf8(bytes: Vec<u8>) -> (r: String)
    requires
        valid_utf8(bytes@),
    ensures
        r@ == decode_utf8(bytes@),
{
    String::from_utf8(bytes).unwrap()
}

} // verus!
