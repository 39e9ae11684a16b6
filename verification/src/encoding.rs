//! Hexadecimal text of byte strings.

use vstd::prelude::*;

verus! {

/// The lower-case hexadecimal digit of a value below sixteen.
pub open spec fn hex_digit(nibble: int) -> char
    recommends
        0 <= nibble < 16,
{
    seq!['0', '1', '2', '3', '4', '5', '6', '7', '8', '9', 'a', 'b', 'c', 'd', 'e', 'f'][nibble]
}

/// The lower-case hexadecimal text of `bytes`: two digits for each byte, the
/// high half of the byte first.
pub open spec fn hex_lower(bytes: Seq<u8>) -> Seq<char> {
    Seq::new(
        2 * bytes.len(),
        |i: int|
            if i % 2 == 0 {
                hex_digit(bytes[i / 2] as int / 16)
            } else {
                hex_digit(bytes[i / 2] as int % 16)
            },
    )
}

/// Calls `hex::encode`. Trusted: the text it returns is the lower-case
/// hexadecimal text of `bytes`, two digits for each byte in order, as the
/// function's documentation says.
#[verifier::external_body]
pub(crate) fn hex_encode(bytes: &[u8]) -> (text: String)
    ensures
        text@ == hex_lower(bytes@),
{
    ::hex::encode(bytes)
}

/// Different values below sixteen have different digits.
pub proof fn lemma_hex_digit_injective(first: int, second: int)
    requires
        0 <= first < 16,
        0 <= second < 16,
        hex_digit(first) == hex_digit(second),
    ensures
        first == second,
{
}

/// The text has two characters for each byte.
pub proof fn lemma_hex_lower_len(bytes: Seq<u8>)
    ensures
        hex_lower(bytes).len() == 2 * bytes.len(),
{
}

/// The text tells the bytes: byte strings with the same text are the same.
pub proof fn lemma_hex_lower_injective(first: Seq<u8>, second: Seq<u8>)
    requires
        hex_lower(first) == hex_lower(second),
    ensures
        first == second,
{
    assert(first.len() == second.len()) by {
        lemma_hex_lower_len(first);
        lemma_hex_lower_len(second);
    }
    assert forall|i: int| 0 <= i < first.len() implies first[i] == second[i] by {
        let high = first[i] as int / 16;
        let low = first[i] as int % 16;
        assert(hex_lower(first)[2 * i] == hex_digit(high));
        assert(hex_lower(first)[2 * i + 1] == hex_digit(low));
        assert(hex_lower(second)[2 * i] == hex_digit(second[i] as int / 16));
        assert(hex_lower(second)[2 * i + 1] == hex_digit(second[i] as int % 16));
        lemma_hex_digit_injective(high, second[i] as int / 16);
        lemma_hex_digit_injective(low, second[i] as int % 16);
    }
    assert(first =~= second);
}

} // verus!
