use vstd::prelude::*;
use vstd::utf8::{decode_utf8, valid_utf8};

verus! {

/// The decimal digit `d` as a character.
pub open spec fn digit_char(d: nat) -> char {
    seq!['0', '1', '2', '3', '4', '5', '6', '7', '8', '9'][d as int]
}

/// The decimal representation of `n`, without leading zeros.
pub open spec fn decimal_digits(n: nat) -> Seq<char>
    decreases n,
{
    if n < 10 {
        seq![digit_char(n)]
    } else {
        decimal_digits(n / 10).push(digit_char(n % 10))
    }
}

/// Writes `n` in decimal, through `u64::to_string` of std.
///
/// Trusted: std documents that an integer is displayed in decimal, without
/// sign or leading zeros, which is `decimal_digits`.
#[verifier::external_body]
pub(crate) fn decimal_string(n: u64) -> (s: String)
    ensures
        s@ == decimal_digits(n as nat),
{
    n.to_string()
}

/// Turns bytes into a string through `String::from_utf8` of std.
///
/// Trusted: std documents that the call succeeds exactly when the bytes are
/// valid UTF-8, and that the string then holds the characters they encode.
#[verifier::external_body]
pub(crate) fn string_from_utf8(bytes: Vec<u8>) -> (s: Option<String>)
    ensures
        s is Some <==> valid_utf8(bytes@),
        s matches Some(s) ==> s@ == decode_utf8(bytes@),
{
    String::from_utf8(bytes).ok()
}

/// Number of bytes of `w` before the first zero byte, or all of them.
pub open spec fn nul_position(w: Seq<u8>) -> nat
    decreases w.len(),
{
    if w.len() == 0 {
        0
    } else if w[0] == 0 {
        0
    } else {
        1 + nul_position(w.drop_first())
    }
}

/// The text of a zero-padded field: its bytes up to the first zero byte.
pub open spec fn text_field(w: Seq<u8>) -> Seq<u8> {
    w.take(nul_position(w) as int)
}

/// The first zero byte of `w` is at `k` (or `k` is its length and it has
/// none).
pub proof fn lemma_nul_position(w: Seq<u8>, k: int)
    requires
        0 <= k <= w.len(),
        forall|j: int| 0 <= j < k ==> w[j] != 0,
        k == w.len() || w[k] == 0,
    ensures
        nul_position(w) == k,
    decreases k,
{
    if k > 0 {
        lemma_nul_position(w.drop_first(), k - 1);
    }
}

} // verus!
