//! The mathematical model of the two alphabet conversions.
//!
//! Standard Base64 text uses `+` (43), `/` (47) and trailing `=` (61) padding.
//! URL-safe Base64 text uses `-` (45), `_` (95) and no padding. Escaping maps
//! the former to the latter; unescaping maps back and reconstructs padding
//! from the length modulo four.
use vstd::prelude::*;

verus! {

/// The byte that stands for `+` in standard Base64 text.
pub const PLUS: u8 = 43;

/// The byte that stands for `/` in standard Base64 text.
pub const SLASH: u8 = 47;

/// The byte that stands for `-` in URL-safe Base64 text.
pub const MINUS: u8 = 45;

/// The byte that stands for `_` in URL-safe Base64 text.
pub const UNDERSCORE: u8 = 95;

/// The byte that stands for the `=` padding character.
pub const PAD: u8 = 61;

/// Standard-to-URL-safe substitution on one byte: `+` becomes `-`,
/// `/` becomes `_`, every other byte is kept.
pub open spec fn escape_byte(b: u8) -> u8 {
    if b == PLUS {
        MINUS
    } else if b == SLASH {
        UNDERSCORE
    } else {
        b
    }
}

/// URL-safe-to-standard substitution on one byte: `-` becomes `+`,
/// `_` becomes `/`, every other byte is kept.
pub open spec fn unescape_byte(b: u8) -> u8 {
    if b == MINUS {
        PLUS
    } else if b == UNDERSCORE {
        SLASH
    } else {
        b
    }
}

/// The index of the first `=` byte, or the length when there is none.
pub open spec fn first_pad(s: Seq<u8>) -> int
    decreases s.len(),
{
    if s.len() == 0 {
        0
    } else if s[0] == PAD {
        0
    } else {
        1 + first_pad(s.drop_first())
    }
}

/// What escaping yields: everything from the first `=` onward is removed,
/// and the substitution is applied to the rest.
pub open spec fn escaped(s: Seq<u8>) -> Seq<u8> {
    s.take(first_pad(s)).map_values(|b: u8| escape_byte(b))
}

/// How many `=` bytes unescaping appends: none when the length is already
/// a multiple of four, otherwise what is missing to the next multiple.
pub open spec fn pad_amount(n: int) -> int {
    if n % 4 == 0 {
        0
    } else {
        4 - n % 4
    }
}

/// A run of `=` padding bytes for a body of length `n`.
pub open spec fn pad_seq(n: int) -> Seq<u8> {
    Seq::new(pad_amount(n) as nat, |i: int| PAD)
}

/// What unescaping yields: the substitution applied to every byte, then
/// the reconstructed padding.
pub open spec fn unescaped(s: Seq<u8>) -> Seq<u8> {
    s.map_values(|b: u8| unescape_byte(b)) + pad_seq(s.len() as int)
}

/// `first_pad` lies between 0 and the length, every byte before it is not
/// `=`, and the byte at it (when inside the sequence) is `=`.
pub proof fn lemma_first_pad_bounds(s: Seq<u8>)
    ensures
        0 <= first_pad(s) <= s.len(),
        forall|j: int| 0 <= j < first_pad(s) ==> s[j] != PAD,
        first_pad(s) < s.len() ==> s[first_pad(s)] == PAD,
    decreases s.len(),
{
    if s.len() == 0 {
    } else if s[0] == PAD {
    } else {
        let d = s.drop_first();
        lemma_first_pad_bounds(d);
        assert forall|j: int| 0 <= j < first_pad(s) implies s[j] != PAD by {
            if j > 0 {
                assert(s[j] == d[j - 1]);
            }
        }
    }
}

/// `first_pad` is the one index with no `=` before it that either carries
/// `=` or is the length.
pub proof fn lemma_first_pad_is(s: Seq<u8>, k: int)
    requires
        0 <= k <= s.len(),
        forall|j: int| 0 <= j < k ==> s[j] != PAD,
        k < s.len() ==> s[k] == PAD,
    ensures
        first_pad(s) == k,
    decreases s.len(),
{
    if s.len() == 0 {
    } else if s[0] == PAD {
        assert(k == 0);
    } else {
        let d = s.drop_first();
        assert(k > 0);
        assert forall|j: int| 0 <= j < k - 1 implies d[j] != PAD by {
            assert(d[j] == s[j + 1]);
        }
        if k - 1 < d.len() {
            assert(d[k - 1] == s[k]);
        }
        lemma_first_pad_is(d, k - 1);
    }
}

} // verus!
