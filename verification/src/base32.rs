//! Unpadded base32 (the alphabet `A`-`Z`, `2`-`7`), the text form of repository ids and tickets.

use crate::text::{ascii_lower, ascii_upper, byte_len, lowered, uppered};
use vstd::prelude::*;
use vstd::utf8::is_ascii_chars;

verus! {

/// The bit at offset `k` of `bytes`, the highest bit of each byte first; zero beyond the end.
pub open spec fn bit_at(bytes: Seq<u8>, k: int) -> int {
    if 0 <= k < 8 * bytes.len() {
        ((bytes[k / 8] >> ((7 - k % 8) as u8)) & 1) as int
    } else {
        0
    }
}

/// The five bits at group `i` as a number.
pub open spec fn digit_at(bytes: Seq<u8>, i: int) -> int {
    16 * bit_at(bytes, 5 * i) + 8 * bit_at(bytes, 5 * i + 1) + 4 * bit_at(bytes, 5 * i + 2)
        + 2 * bit_at(bytes, 5 * i + 3) + bit_at(bytes, 5 * i + 4)
}

/// The base32 symbol for a five-bit number.
pub open spec fn symbol(digit: int) -> char {
    if digit < 26 {
        (65 + digit) as char
    } else {
        (24 + digit) as char
    }
}

/// `bytes` in base32: a symbol for every five bits, the last group filled up with zeros.
pub open spec fn base32_text(bytes: Seq<u8>) -> Seq<char> {
    Seq::new(((8 * bytes.len() + 4) / 5) as nat, |i: int| symbol(digit_at(bytes, i)))
}

/// `data_encoding::BASE32_NOPAD.encode`: the base32 text of the bytes. It panics on input whose
/// encoded length it cannot compute, which the bound leaves out.
#[verifier::external_body]
pub(crate) fn encode_base32(bytes: &[u8]) -> (r: String)
    requires
        bytes@.len() <= usize::MAX / 512,
    ensures
        r@ == base32_text(bytes@),
{
    data_encoding::BASE32_NOPAD.encode(bytes)
}

/// What the error of `data_encoding::BASE32_NOPAD.decode` says of a text that is not base32: what is
/// wrong, and where.
pub uninterp spec fn base32_refusal(text: Seq<char>) -> Seq<char>;

/// `data_encoding::BASE32_NOPAD.decode`: the bytes whose base32 text this is, where there are any.
/// It checks that the unused trailing bits are zero, so every text it accepts is one that
/// `encode_base32` writes. Of any other text it gives the text of the error, which is named, not
/// described. It panics on text whose length it cannot compute with, which the bound leaves out.
#[verifier::external_body]
pub(crate) fn decode_base32(text: &str) -> (r: Result<Vec<u8>, String>)
    requires
        byte_len(text@) <= usize::MAX / 8,
    ensures
        match r {
            Ok(bytes) => base32_text(bytes@) == text@,
            Err(cause) => {
                &&& forall|bytes: Seq<u8>| #[trigger] base32_text(bytes) != text@
                &&& cause@ == base32_refusal(text@)
            },
        },
{
    match data_encoding::BASE32_NOPAD.decode(text.as_bytes()) {
        Ok(bytes) => Ok(bytes),
        Err(e) => Err(e.to_string()),
    }
}

proof fn lemma_bit_is_binary(bytes: Seq<u8>, k: int)
    ensures
        bit_at(bytes, k) == 0 || bit_at(bytes, k) == 1,
{
    if 0 <= k < 8 * bytes.len() {
        let b = bytes[k / 8];
        let s = (7 - k % 8) as u8;
        assert((b >> s) & 1 == 0 || (b >> s) & 1 == 1) by (bit_vector)
            requires
                s < 8,
        ;
    }
}

proof fn lemma_digit_range(bytes: Seq<u8>, i: int)
    ensures
        0 <= digit_at(bytes, i) < 32,
{
    lemma_bit_is_binary(bytes, 5 * i);
    lemma_bit_is_binary(bytes, 5 * i + 1);
    lemma_bit_is_binary(bytes, 5 * i + 2);
    lemma_bit_is_binary(bytes, 5 * i + 3);
    lemma_bit_is_binary(bytes, 5 * i + 4);
}

proof fn lemma_symbol_is_injective(d: int, e: int)
    requires
        0 <= d < 32,
        0 <= e < 32,
        symbol(d) == symbol(e),
    ensures
        d == e,
{
    assert(symbol(d) as int == if d < 26 { 65 + d } else { 24 + d });
    assert(symbol(e) as int == if e < 26 { 65 + e } else { 24 + e });
}

proof fn lemma_byte_from_bits(x: u8, y: u8)
    by (bit_vector)
    requires
        (x >> 0) & 1 == (y >> 0) & 1,
        (x >> 1) & 1 == (y >> 1) & 1,
        (x >> 2) & 1 == (y >> 2) & 1,
        (x >> 3) & 1 == (y >> 3) & 1,
        (x >> 4) & 1 == (y >> 4) & 1,
        (x >> 5) & 1 == (y >> 5) & 1,
        (x >> 6) & 1 == (y >> 6) & 1,
        (x >> 7) & 1 == (y >> 7) & 1,
    ensures
        x == y,
{
}

proof fn lemma_same_bits(a: Seq<u8>, b: Seq<u8>, k: int)
    requires
        base32_text(a) == base32_text(b),
        0 <= k < 8 * a.len(),
    ensures
        bit_at(a, k) == bit_at(b, k),
{
    let i = k / 5;
    assert(0 <= i < base32_text(a).len());
    assert(base32_text(a)[i] == base32_text(b)[i]);
    lemma_digit_range(a, i);
    lemma_digit_range(b, i);
    assert(base32_text(a)[i] == symbol(digit_at(a, i)));
    assert(0 <= i < base32_text(b).len());
    assert(base32_text(b)[i] == symbol(digit_at(b, i)));
    lemma_symbol_is_injective(digit_at(a, i), digit_at(b, i));
    assert forall|j: int| 0 <= j < 5 implies (bit_at(a, #[trigger] (5 * i + j)) == 0 || bit_at(a, 5 * i + j) == 1)
        && (bit_at(b, 5 * i + j) == 0 || bit_at(b, 5 * i + j) == 1) by {
        lemma_bit_is_binary(a, 5 * i + j);
        lemma_bit_is_binary(b, 5 * i + j);
    }
    assert(bit_at(a, 5 * i + 0) == bit_at(b, 5 * i + 0) && bit_at(a, 5 * i + 1) == bit_at(b, 5 * i + 1)
        && bit_at(a, 5 * i + 2) == bit_at(b, 5 * i + 2) && bit_at(a, 5 * i + 3) == bit_at(b, 5 * i + 3)
        && bit_at(a, 5 * i + 4) == bit_at(b, 5 * i + 4));
    assert(k == 5 * i + k % 5);
}

/// No two byte sequences have the same base32 text.
pub proof fn base32_is_injective(a: Seq<u8>, b: Seq<u8>)
    requires
        base32_text(a) == base32_text(b),
    ensures
        a == b,
{
    let (m, n) = (a.len() as int, b.len() as int);
    assert(base32_text(a).len() == (8 * m + 4) / 5 && base32_text(b).len() == (8 * n + 4) / 5);
    assert(m == n);
    assert forall|n: int| 0 <= n < a.len() implies a[n] == b[n] by {
        let x = a[n];
        let y = b[n];
        assert forall|j: int| 0 <= j < 8 implies #[trigger] bit_at(a, 8 * n + j) == bit_at(b, 8 * n + j) by {
            lemma_same_bits(a, b, 8 * n + j);
        }
        assert((8 * n + 0) / 8 == n && (8 * n + 7) / 8 == n);
        assert(bit_at(a, 8 * n + 0) == ((x >> 7) & 1) as int && bit_at(b, 8 * n + 0) == ((y >> 7) & 1) as int);
        assert(bit_at(a, 8 * n + 1) == ((x >> 6) & 1) as int && bit_at(b, 8 * n + 1) == ((y >> 6) & 1) as int);
        assert(bit_at(a, 8 * n + 2) == ((x >> 5) & 1) as int && bit_at(b, 8 * n + 2) == ((y >> 5) & 1) as int);
        assert(bit_at(a, 8 * n + 3) == ((x >> 4) & 1) as int && bit_at(b, 8 * n + 3) == ((y >> 4) & 1) as int);
        assert(bit_at(a, 8 * n + 4) == ((x >> 3) & 1) as int && bit_at(b, 8 * n + 4) == ((y >> 3) & 1) as int);
        assert(bit_at(a, 8 * n + 5) == ((x >> 2) & 1) as int && bit_at(b, 8 * n + 5) == ((y >> 2) & 1) as int);
        assert(bit_at(a, 8 * n + 6) == ((x >> 1) & 1) as int && bit_at(b, 8 * n + 6) == ((y >> 1) & 1) as int);
        assert(bit_at(a, 8 * n + 7) == ((x >> 0) & 1) as int && bit_at(b, 8 * n + 7) == ((y >> 0) & 1) as int);
        lemma_byte_from_bits(x, y);
    }
    assert(a =~= b);
}

/// The bytes whose base32 text is `text`, where there are any.
pub open spec fn base32_bytes(text: Seq<char>) -> Option<Seq<u8>> {
    if exists|bytes: Seq<u8>| #[trigger] base32_text(bytes) == text {
        Some(choose|bytes: Seq<u8>| #[trigger] base32_text(bytes) == text)
    } else {
        None
    }
}

/// Decoding gives back the bytes that were encoded.
pub proof fn base32_roundtrip(bytes: Seq<u8>)
    ensures
        base32_bytes(base32_text(bytes)) == Some(bytes),
{
    let text = base32_text(bytes);
    let found = choose|b: Seq<u8>| #[trigger] base32_text(b) == text;
    base32_is_injective(found, bytes);
}

/// Base32 text is made of `A`-`Z` and `2`-`7`; put in lower case it is made of `a`-`z` and `2`-`7`,
/// and upper case gives it back.
pub proof fn base32_case(bytes: Seq<u8>)
    ensures
        forall|i: int|
            0 <= i < base32_text(bytes).len() ==> {
                let c = #[trigger] base32_text(bytes)[i];
                'A' <= c <= 'Z' || '2' <= c <= '7'
            },
        forall|i: int|
            0 <= i < base32_text(bytes).len() ==> {
                let c = #[trigger] lowered(base32_text(bytes))[i];
                'a' <= c <= 'z' || '2' <= c <= '7'
            },
        is_ascii_chars(base32_text(bytes)),
        is_ascii_chars(lowered(base32_text(bytes))),
        uppered(lowered(base32_text(bytes))) == base32_text(bytes),
{
    let t = base32_text(bytes);
    assert forall|i: int| 0 <= i < t.len() implies ('A' <= #[trigger] t[i] <= 'Z' || '2' <= t[i] <= '7') by {
        lemma_digit_range(bytes, i);
    }
    assert forall|i: int| 0 <= i < t.len() implies {
        let c = #[trigger] lowered(t)[i];
        'a' <= c <= 'z' || '2' <= c <= '7'
    } by {
        assert(lowered(t)[i] == ascii_lower(t[i]));
    }
    assert forall|i: int| 0 <= i < t.len() implies #[trigger] uppered(lowered(t))[i] == t[i] by {
        assert(uppered(lowered(t))[i] == ascii_upper(ascii_lower(t[i])));
    }
    assert(uppered(lowered(t)) =~= t);
}

} // verus!
