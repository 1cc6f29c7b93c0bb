//! Decimal rendering and parsing of message identifiers.
use vstd::prelude::*;

use vstd::utf8::decode_utf8;
use vstd::utf8::encode_utf8;
use vstd::utf8::is_ascii_chars;
use vstd::utf8::valid_utf8;

verus! {

/// The ASCII bytes of a number written in decimal, most significant digit
/// first, no leading zeros (zero itself is "0").
pub open spec fn spec_dec_bytes(n: nat) -> Seq<u8>
    decreases n,
{
    if n < 10 {
        seq![(n + 0x30) as u8]
    } else {
        spec_dec_bytes(n / 10) + seq![(n % 10 + 0x30) as u8]
    }
}

/// The characters of a number written in decimal.
pub open spec fn spec_decimal(n: nat) -> Seq<char> {
    spec_dec_bytes(n).map_values(|b: u8| b as char)
}

/// Every byte of a decimal rendering is an ASCII digit.
pub proof fn lemma_dec_bytes_digits(n: nat)
    ensures
        spec_dec_bytes(n).len() >= 1,
        forall|i: int|
            0 <= i < spec_dec_bytes(n).len() ==> 0x30 <= #[trigger] spec_dec_bytes(n)[i] <= 0x39,
    decreases n,
{
    if n >= 10 {
        lemma_dec_bytes_digits(n / 10);
    }
}

/// A decimal character sequence is ASCII, and encodes to UTF-8 as exactly
/// its digit bytes.
pub proof fn lemma_decimal_utf8(n: nat)
    ensures
        is_ascii_chars(spec_decimal(n)),
        encode_utf8(spec_decimal(n)) == spec_dec_bytes(n),
        valid_utf8(spec_dec_bytes(n)),
        decode_utf8(spec_dec_bytes(n)) == spec_decimal(n),
{
    broadcast use vstd::utf8::encode_utf8_valid_utf8, vstd::utf8::encode_utf8_decode_utf8;

    lemma_dec_bytes_digits(n);
    let bytes = spec_dec_bytes(n);
    let chars = spec_decimal(n);
    assert(forall|i: int| 0 <= i < chars.len() ==> #[trigger] chars[i] == bytes[i] as char);
    assert(is_ascii_chars(chars));
    vstd::utf8::is_ascii_chars_encode_utf8(chars);
    assert(encode_utf8(chars) =~= bytes);
}

/// Render a number in decimal.
pub fn u64_to_string(n: u64) -> (r: String)
    ensures
        r@ == spec_decimal(n as nat),
{
    let mut digits_rev: Vec<u8> = Vec::new();
    if n == 0 {
        digits_rev.push(0x30);
        proof {
            assert(digits_rev@.reverse() =~= spec_dec_bytes(n as nat));
        }
    } else {
        let mut m = n;
        while m > 0
            invariant
                m <= n,
                m > 0 ==> spec_dec_bytes(n as nat) == spec_dec_bytes(m as nat)
                    + digits_rev@.reverse(),
                m == 0 ==> spec_dec_bytes(n as nat) == digits_rev@.reverse(),
            decreases m,
        {
            let ghost old_rev = digits_rev@.reverse();
            let ghost m0 = m as nat;
            let d = (m % 10) as u8 + 0x30;
            digits_rev.push(d);
            m = m / 10;
            proof {
                assert(digits_rev@.reverse() =~= seq![d] + old_rev);
                if m > 0 {
                    assert(spec_dec_bytes(m0) == spec_dec_bytes(m0 / 10) + seq![(m0 % 10
                        + 0x30) as u8]);
                    assert(spec_dec_bytes(m as nat) + digits_rev@.reverse() =~= (spec_dec_bytes(
                        m as nat,
                    ) + seq![d]) + old_rev);
                    assert(spec_dec_bytes(n as nat) =~= spec_dec_bytes(m as nat)
                        + digits_rev@.reverse());
                } else {
                    assert(m0 < 10);
                    assert(spec_dec_bytes(m0) =~= seq![d]);
                    assert(spec_dec_bytes(n as nat) =~= digits_rev@.reverse());
                }
            }
        }
    }
    let mut bytes: Vec<u8> = Vec::new();
    let mut i: usize = digits_rev.len();
    while i > 0
        invariant
            i <= digits_rev@.len(),
            bytes@ =~= digits_rev@.reverse().subrange(0, digits_rev@.len() - i),
        decreases i,
    {
        i = i - 1;
        bytes.push(digits_rev[i]);
        proof {
            assert(bytes@ =~= digits_rev@.reverse().subrange(0, digits_rev@.len() - i));
        }
    }
    proof {
        assert(bytes@ =~= digits_rev@.reverse());
        lemma_decimal_utf8(n as nat);
    }
    match crate::codec::string_from_utf8(bytes) {
        Some(s) => s,
        None => vstd::pervasive::unreached(),
    }
}

} // verus!
