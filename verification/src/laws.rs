//! Laws of the escape and unescape conversions, proved once and for all.
//!
//! The round-trip law of the numeric codec itself — decoding an encoding
//! returns the original data — stands in the contract of `encode`, whose
//! result carries it for `decode` to use.
use vstd::prelude::*;

use crate::model::{escape_byte, escaped, first_pad, lemma_first_pad_bounds, lemma_first_pad_is,
    pad_amount, unescape_byte, unescaped, MINUS, PAD, PLUS, SLASH, UNDERSCORE};

verus! {

/// Escaping is idempotent on every byte sequence: escaped text holds no
/// `+`, `/` or `=`, so a second escape has nothing to do.
pub proof fn lemma_escape_idempotent(s: Seq<u8>)
    ensures
        escaped(escaped(s)) == escaped(s),
{
    let e = escaped(s);
    lemma_first_pad_bounds(s);
    assert forall|i: int| 0 <= i < e.len() implies e[i] != PAD && e[i] != PLUS && e[i]
        != SLASH by {
        assert(e[i] == escape_byte(s.take(first_pad(s))[i]));
    }
    lemma_first_pad_is(e, e.len() as int);
    assert(escaped(e) =~= e);
}

/// Escaping text whose `+` and `/` have already been replaced yields the
/// same result as escaping the text itself: the substitution keeps `=`
/// exactly where it stood, and it changes nothing the second time around.
pub proof fn lemma_escape_of_replaced(s: Seq<u8>)
    ensures
        escaped(s.map_values(|b: u8| escape_byte(b))) == escaped(s),
{
    let m = s.map_values(|b: u8| escape_byte(b));
    let k = first_pad(s);
    lemma_first_pad_bounds(s);
    assert forall|j: int| 0 <= j < k implies m[j] != PAD by {
        assert(m[j] == escape_byte(s[j]));
    }
    lemma_first_pad_is(m, k);
    assert forall|i: int| 0 <= i < k implies escaped(m)[i] == escaped(s)[i] by {
        assert(escaped(m)[i] == escape_byte(m.take(k)[i]));
        assert(escaped(s)[i] == escape_byte(s.take(k)[i]));
    }
    assert(escaped(m) =~= escaped(s));
}

/// Unescaping always yields a length that is a multiple of four: exactly
/// the missing padding is appended.
pub proof fn lemma_unescape_length(u: Seq<u8>)
    ensures
        unescaped(u).len() % 4 == 0,
{
    assert(unescaped(u).len() == u.len() + pad_amount(u.len() as int));
}

/// The restricted inverse law: unescaping an escaped text returns the
/// original, provided the text carried canonical padding — nothing but
/// `=` from its first `=` on, and exactly as many `=` as its body length
/// calls for — and its body held none of the URL-safe bytes `-` and `_`.
/// Without the length condition it fails: a lone `a` escapes to itself,
/// and unescaping appends three `=` that were never there.
pub proof fn lemma_unescape_escape(s: Seq<u8>)
    requires
        forall|i: int| 0 <= i < first_pad(s) ==> s[i] != MINUS && s[i] != UNDERSCORE,
        forall|i: int| first_pad(s) <= i < s.len() ==> s[i] == PAD,
        s.len() - first_pad(s) == pad_amount(first_pad(s)),
    ensures
        unescaped(escaped(s)) == s,
{
    let k = first_pad(s);
    lemma_first_pad_bounds(s);
    let e = escaped(s);
    assert forall|i: int| 0 <= i < k implies unescaped(e)[i] == s[i] by {
        assert(e[i] == escape_byte(s.take(k)[i]));
        assert(unescaped(e)[i] == unescape_byte(e[i]));
    }
    assert(unescaped(e) =~= s);
}

} // verus!
